//! Building, resource and terrain kinds and the fixed tables attached to them.
use vstd::prelude::*;

verus! {

/// Every kind of building that can be placed.
#[derive(Clone, Copy, Debug, PartialEq, Eq, Hash, Structural)]
pub enum BuildingType {
    Miner,
    Smelter,
    EnergySource,
    IronMiner,
    CopperMiner,
    StoneQuarry,
    WaterPump,
    ObsidianDrill,
    ManaExtractor,
    LavaSiphon,
    IronSmelter,
    CopperSmelter,
    TreeFarm,
    Sawmill,
    SteelForge,
    SteelSmelter,
    Tannery,
    CrystalRefinery,
    AlchemistLab,
    RunicForge,
    ArcaneDistillery,
    Constructor,
    Toolmaker,
    Assembler,
    ImpCamp,
    BreedingPen,
    WarLodge,
    WindTurbine,
    WaterWheel,
    LavaGenerator,
    ManaReactor,
    OpusForge,
    Watchtower,
    Trader,
    SacrificeAltar,
}

/// Every kind of item: raw and processed resources and building items.
#[derive(Clone, Copy, Debug, PartialEq, Eq, Hash, Structural)]
pub enum ResourceType {
    IronOre,
    IronBar,
    CopperOre,
    Stone,
    Water,
    CopperBar,
    Plank,
    Wood,
    Hide,
    Herbs,
    BoneMeal,
    ObsidianShard,
    ManaCrystal,
    Lava,
    SteelPlate,
    TreatedLeather,
    RefinedCrystal,
    PotionBase,
    Venom,
    Sinew,
    RunicAlloy,
    ArcaneEssence,
    OpusIngot,
    ItemIronMiner,
    ItemCopperMiner,
    ItemStoneQuarry,
    ItemWindTurbine,
    ItemWatchtower,
    ItemImpCamp,
    ItemBreedingPen,
    ItemWaterPump,
    ItemIronSmelter,
    ItemCopperSmelter,
    ItemTreeFarm,
    ItemSawmill,
    ItemWaterWheel,
    ItemSacrificeAltar,
    ItemToolmaker,
    ItemAssembler,
    ItemObsidianDrill,
    ItemManaExtractor,
    ItemWarLodge,
    ItemTrader,
    ItemSteelForge,
    ItemTannery,
    ItemCrystalRefinery,
    ItemAlchemistLab,
    ItemLavaSiphon,
    ItemLavaGenerator,
    ItemRunicForge,
    ItemArcaneDistillery,
    ItemOpusForge,
    ItemManaReactor,
}

/// Terrain of a placement-grid cell.
#[derive(Clone, Copy, Debug, PartialEq, Eq, Hash, Structural)]
pub enum TerrainType {
    Grass,
    IronVein,
    CopperVein,
    StoneDeposit,
    WaterSource,
    ObsidianVein,
    ManaNode,
    LavaSource,
}

impl Default for TerrainType {
    fn default() -> (t: Self)
        ensures
            t == TerrainType::Grass,
    {
        TerrainType::Grass
    }
}

/// The role a building (and the group it dominates) plays in the factory.
#[derive(Clone, Copy, Debug, PartialEq, Eq, Hash, Structural)]
pub enum GroupClass {
    Extraction,
    Synthesis,
    Mall,
    Combat,
    Energy,
    Opus,
    Utility,
}

/// Whether a resource is carried as a solid or as a liquid.
#[derive(Clone, Copy, Debug, PartialEq, Eq, Hash, Structural)]
pub enum ResourceClass {
    Solid,
    Liquid,
}

/// The terrain a building must stand on, if any.
pub open spec fn terrain_req_of(b: BuildingType) -> Option<TerrainType> {
    match b {
        BuildingType::IronMiner | BuildingType::Miner => Some(TerrainType::IronVein),
        BuildingType::CopperMiner => Some(TerrainType::CopperVein),
        BuildingType::StoneQuarry => Some(TerrainType::StoneDeposit),
        BuildingType::WaterPump | BuildingType::WaterWheel => Some(TerrainType::WaterSource),
        BuildingType::ObsidianDrill => Some(TerrainType::ObsidianVein),
        BuildingType::ManaExtractor => Some(TerrainType::ManaNode),
        BuildingType::LavaSiphon | BuildingType::LavaGenerator => Some(TerrainType::LavaSource),
        _ => None,
    }
}

/// The progression tier at which a building becomes available.
pub open spec fn tier_of(b: BuildingType) -> u8 {
    match b {
        BuildingType::ObsidianDrill | BuildingType::ManaExtractor | BuildingType::LavaSiphon
        | BuildingType::SteelForge | BuildingType::SteelSmelter | BuildingType::Tannery
        | BuildingType::CrystalRefinery | BuildingType::AlchemistLab | BuildingType::Toolmaker
        | BuildingType::Assembler | BuildingType::WarLodge | BuildingType::LavaGenerator
        | BuildingType::Trader => 2,
        BuildingType::RunicForge | BuildingType::ArcaneDistillery | BuildingType::OpusForge
        | BuildingType::ManaReactor => 3,
        _ => 1,
    }
}

/// Footprint (width, height) of a building in grid cells.
pub open spec fn footprint_of(b: BuildingType) -> (i32, i32) {
    match b {
        BuildingType::TreeFarm | BuildingType::AlchemistLab | BuildingType::RunicForge
        | BuildingType::ArcaneDistillery | BuildingType::Constructor | BuildingType::Assembler
        | BuildingType::ImpCamp | BuildingType::BreedingPen | BuildingType::WarLodge
        | BuildingType::ManaReactor | BuildingType::Trader => (2, 2),
        BuildingType::SteelForge | BuildingType::CrystalRefinery => (2, 1),
        BuildingType::OpusForge => (3, 3),
        _ => (1, 1),
    }
}

/// Energy drawn by one running building, in whole energy units.
pub open spec fn energy_consumption_of(b: BuildingType) -> u32 {
    match b {
        BuildingType::Miner => 1,
        BuildingType::Smelter => 1,
        BuildingType::EnergySource => 0,
        BuildingType::IronMiner => 5,
        BuildingType::CopperMiner => 5,
        BuildingType::StoneQuarry => 4,
        BuildingType::WaterPump => 3,
        BuildingType::ObsidianDrill => 12,
        BuildingType::ManaExtractor => 15,
        BuildingType::LavaSiphon => 8,
        BuildingType::IronSmelter => 10,
        BuildingType::CopperSmelter => 10,
        BuildingType::TreeFarm => 8,
        BuildingType::Sawmill => 6,
        BuildingType::SteelForge | BuildingType::SteelSmelter => 18,
        BuildingType::Tannery => 12,
        BuildingType::CrystalRefinery => 20,
        BuildingType::AlchemistLab => 16,
        BuildingType::RunicForge => 30,
        BuildingType::ArcaneDistillery => 28,
        BuildingType::Constructor => 15,
        BuildingType::Toolmaker => 12,
        BuildingType::Assembler => 20,
        BuildingType::ImpCamp => 10,
        BuildingType::BreedingPen => 8,
        BuildingType::WarLodge => 18,
        BuildingType::WindTurbine => 0,
        BuildingType::WaterWheel => 0,
        BuildingType::LavaGenerator => 0,
        BuildingType::ManaReactor => 0,
        BuildingType::OpusForge => 40,
        BuildingType::Watchtower => 2,
        BuildingType::Trader => 5,
        BuildingType::SacrificeAltar => 3,
    }
}

/// Energy produced by one building, in whole energy units.
pub open spec fn energy_generation_of(b: BuildingType) -> u32 {
    match b {
        BuildingType::EnergySource => 1,
        BuildingType::WindTurbine => 20,
        BuildingType::WaterWheel => 25,
        BuildingType::LavaGenerator => 50,
        BuildingType::ManaReactor => 80,
        _ => 0,
    }
}

/// Whether the building is a mall (it builds building items).
pub open spec fn is_mall_spec(b: BuildingType) -> bool {
    b is Constructor || b is Toolmaker || b is Assembler
}

/// The group class of a single building.
pub open spec fn group_class_of(b: BuildingType) -> GroupClass {
    match b {
        BuildingType::IronMiner | BuildingType::CopperMiner | BuildingType::StoneQuarry
        | BuildingType::WaterPump | BuildingType::ObsidianDrill | BuildingType::ManaExtractor
        | BuildingType::LavaSiphon | BuildingType::Miner => GroupClass::Extraction,
        BuildingType::IronSmelter | BuildingType::CopperSmelter | BuildingType::TreeFarm
        | BuildingType::Sawmill | BuildingType::SteelForge | BuildingType::SteelSmelter
        | BuildingType::Tannery | BuildingType::CrystalRefinery | BuildingType::AlchemistLab
        | BuildingType::RunicForge | BuildingType::ArcaneDistillery
        | BuildingType::Smelter => GroupClass::Synthesis,
        BuildingType::Constructor | BuildingType::Toolmaker
        | BuildingType::Assembler => GroupClass::Mall,
        BuildingType::ImpCamp | BuildingType::BreedingPen
        | BuildingType::WarLodge => GroupClass::Combat,
        BuildingType::WindTurbine | BuildingType::WaterWheel | BuildingType::LavaGenerator
        | BuildingType::ManaReactor | BuildingType::EnergySource => GroupClass::Energy,
        BuildingType::OpusForge => GroupClass::Opus,
        BuildingType::Watchtower | BuildingType::Trader
        | BuildingType::SacrificeAltar => GroupClass::Utility,
    }
}

impl BuildingType {
    /// The terrain this building must be placed on, if any.
    pub fn terrain_req(self) -> (t: Option<TerrainType>)
        ensures
            t == terrain_req_of(self),
    {
        match self {
            BuildingType::IronMiner | BuildingType::Miner => Some(TerrainType::IronVein),
            BuildingType::CopperMiner => Some(TerrainType::CopperVein),
            BuildingType::StoneQuarry => Some(TerrainType::StoneDeposit),
            BuildingType::WaterPump => Some(TerrainType::WaterSource),
            BuildingType::ObsidianDrill => Some(TerrainType::ObsidianVein),
            BuildingType::ManaExtractor => Some(TerrainType::ManaNode),
            BuildingType::LavaSiphon => Some(TerrainType::LavaSource),
            BuildingType::WaterWheel => Some(TerrainType::WaterSource),
            BuildingType::LavaGenerator => Some(TerrainType::LavaSource),
            _ => None,
        }
    }

    /// The tier at which the building unlocks: 1, 2 or 3.
    pub fn tier(self) -> (t: u8)
        ensures
            t == tier_of(self),
            1 <= t <= 3,
    {
        match self {
            BuildingType::ObsidianDrill | BuildingType::ManaExtractor | BuildingType::LavaSiphon
            | BuildingType::SteelForge | BuildingType::SteelSmelter | BuildingType::Tannery
            | BuildingType::CrystalRefinery | BuildingType::AlchemistLab
            | BuildingType::Toolmaker | BuildingType::Assembler | BuildingType::WarLodge
            | BuildingType::LavaGenerator | BuildingType::Trader => 2,
            BuildingType::RunicForge | BuildingType::ArcaneDistillery | BuildingType::OpusForge
            | BuildingType::ManaReactor => 3,
            _ => 1,
        }
    }

    /// Footprint (width, height); both sides are between 1 and 3 cells.
    pub fn footprint(self) -> (wh: (i32, i32))
        ensures
            wh == footprint_of(self),
            1 <= wh.0 <= 3,
            1 <= wh.1 <= 3,
    {
        match self {
            BuildingType::TreeFarm | BuildingType::AlchemistLab | BuildingType::RunicForge
            | BuildingType::ArcaneDistillery | BuildingType::Constructor
            | BuildingType::Assembler | BuildingType::ImpCamp | BuildingType::BreedingPen
            | BuildingType::WarLodge | BuildingType::ManaReactor | BuildingType::Trader => (2, 2),
            BuildingType::SteelForge | BuildingType::CrystalRefinery => (2, 1),
            BuildingType::OpusForge => (3, 3),
            _ => (1, 1),
        }
    }

    /// Energy drawn by one running building, in whole energy units.
    pub fn energy_consumption(self) -> (e: u32)
        ensures
            e == energy_consumption_of(self),
    {
        match self {
            BuildingType::Miner => 1,
            BuildingType::Smelter => 1,
            BuildingType::EnergySource => 0,
            BuildingType::IronMiner => 5,
            BuildingType::CopperMiner => 5,
            BuildingType::StoneQuarry => 4,
            BuildingType::WaterPump => 3,
            BuildingType::ObsidianDrill => 12,
            BuildingType::ManaExtractor => 15,
            BuildingType::LavaSiphon => 8,
            BuildingType::IronSmelter => 10,
            BuildingType::CopperSmelter => 10,
            BuildingType::TreeFarm => 8,
            BuildingType::Sawmill => 6,
            BuildingType::SteelForge | BuildingType::SteelSmelter => 18,
            BuildingType::Tannery => 12,
            BuildingType::CrystalRefinery => 20,
            BuildingType::AlchemistLab => 16,
            BuildingType::RunicForge => 30,
            BuildingType::ArcaneDistillery => 28,
            BuildingType::Constructor => 15,
            BuildingType::Toolmaker => 12,
            BuildingType::Assembler => 20,
            BuildingType::ImpCamp => 10,
            BuildingType::BreedingPen => 8,
            BuildingType::WarLodge => 18,
            BuildingType::WindTurbine => 0,
            BuildingType::WaterWheel => 0,
            BuildingType::LavaGenerator => 0,
            BuildingType::ManaReactor => 0,
            BuildingType::OpusForge => 40,
            BuildingType::Watchtower => 2,
            BuildingType::Trader => 5,
            BuildingType::SacrificeAltar => 3,
        }
    }

    /// Energy produced by one building, in whole energy units.
    pub fn energy_generation(self) -> (e: u32)
        ensures
            e == energy_generation_of(self),
    {
        match self {
            BuildingType::EnergySource => 1,
            BuildingType::WindTurbine => 20,
            BuildingType::WaterWheel => 25,
            BuildingType::LavaGenerator => 50,
            BuildingType::ManaReactor => 80,
            _ => 0,
        }
    }

    /// True for the three mall buildings.
    pub fn is_mall(self) -> (m: bool)
        ensures
            m == is_mall_spec(self),
    {
        match self {
            BuildingType::Constructor | BuildingType::Toolmaker | BuildingType::Assembler => true,
            _ => false,
        }
    }

    /// The group class this building counts towards.
    pub fn group_class(self) -> (c: GroupClass)
        ensures
            c == group_class_of(self),
    {
        match self {
            BuildingType::IronMiner | BuildingType::CopperMiner | BuildingType::StoneQuarry
            | BuildingType::WaterPump | BuildingType::ObsidianDrill
            | BuildingType::ManaExtractor | BuildingType::LavaSiphon
            | BuildingType::Miner => GroupClass::Extraction,
            BuildingType::IronSmelter | BuildingType::CopperSmelter | BuildingType::TreeFarm
            | BuildingType::Sawmill | BuildingType::SteelForge | BuildingType::SteelSmelter
            | BuildingType::Tannery | BuildingType::CrystalRefinery
            | BuildingType::AlchemistLab | BuildingType::RunicForge
            | BuildingType::ArcaneDistillery | BuildingType::Smelter => GroupClass::Synthesis,
            BuildingType::Constructor | BuildingType::Toolmaker
            | BuildingType::Assembler => GroupClass::Mall,
            BuildingType::ImpCamp | BuildingType::BreedingPen
            | BuildingType::WarLodge => GroupClass::Combat,
            BuildingType::WindTurbine | BuildingType::WaterWheel | BuildingType::LavaGenerator
            | BuildingType::ManaReactor | BuildingType::EnergySource => GroupClass::Energy,
            BuildingType::OpusForge => GroupClass::Opus,
            BuildingType::Watchtower | BuildingType::Trader
            | BuildingType::SacrificeAltar => GroupClass::Utility,
        }
    }
}

/// Whether a resource travels as a liquid (by pipe) or as a solid (by rune path).
pub open spec fn class_of(r: ResourceType) -> ResourceClass {
    if r is Water || r is Lava { ResourceClass::Liquid } else { ResourceClass::Solid }
}

impl ResourceType {
    /// Water and lava are liquids; everything else is solid.
    pub fn class(self) -> (c: ResourceClass)
        ensures
            c == class_of(self),
    {
        match self {
            ResourceType::Water | ResourceType::Lava => ResourceClass::Liquid,
            _ => ResourceClass::Solid,
        }
    }
}

/// A building is a mall exactly when its group class is `Mall`.
pub proof fn lemma_mall_iff_mall_class(b: BuildingType)
    ensures
        is_mall_spec(b) <==> group_class_of(b) == GroupClass::Mall,
{
}

/// Exactly the energy-class buildings generate energy, and no generator draws any.
pub proof fn lemma_generators_are_energy_class(b: BuildingType)
    ensures
        energy_generation_of(b) > 0 <==> group_class_of(b) == GroupClass::Energy,
        energy_generation_of(b) > 0 ==> energy_consumption_of(b) == 0,
{
}

/// Only extractors and energy buildings are tied to a terrain, and every
/// extractor is.
pub proof fn lemma_terrain_bound_buildings(b: BuildingType)
    ensures
        terrain_req_of(b) is Some ==> (group_class_of(b) == GroupClass::Extraction
            || group_class_of(b) == GroupClass::Energy),
        group_class_of(b) == GroupClass::Extraction ==> terrain_req_of(b) is Some,
{
}

} // verus!
