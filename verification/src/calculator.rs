//! The production calculator: from a target item and rate to the chain of
//! buildings and the energy it needs.
use crate::building::{energy_consumption_of, BuildingType, ResourceType};
use crate::counts::{count_in, BuildingCounts};
use crate::fixed::{ceil_div, Milli64};
use crate::grid::Biome;
use vstd::prelude::*;

verus! {

/// Why the calculator refused a query.
#[derive(Clone, Copy, Debug, PartialEq, Eq, Structural)]
pub enum CalculatorErrorKind {
    TierLocked,
    BiomeUnavailable,
    UnknownResource,
}

/// A calculator query: the item wanted, how many per minute, and the run's
/// tier and biome.
#[derive(Clone, Copy, Debug)]
pub struct CalculatorQuery {
    pub target_resource: ResourceType,
    pub target_rate_per_min: Milli64,
    pub current_tier: u32,
    pub biome: Biome,
}

/// The calculator's answer: a building chain with its energy demand, or a
/// refusal with its reason.
pub enum CalculatorResult {
    Success {
        buildings_needed: BuildingCounts,
        energy_needed: u64,
        energy_buildings: BuildingCounts,
        notes: Vec<String>,
    },
    Error { kind: CalculatorErrorKind, message: String, required_tier: Option<u32> },
}

/// The mathematical content of a calculator answer.
pub enum CalcOutcome {
    Plan {
        buildings: Map<BuildingType, u32>,
        energy: int,
        energy_buildings: Map<BuildingType, u32>,
        notes: Seq<Seq<char>>,
    },
    Refused { kind: CalculatorErrorKind, message: Seq<char>, required_tier: Option<u32> },
}

impl View for CalculatorResult {
    type V = CalcOutcome;

    open spec fn view(&self) -> CalcOutcome {
        match self {
            CalculatorResult::Success { buildings_needed, energy_needed, energy_buildings, notes } => {
                CalcOutcome::Plan {
                    buildings: buildings_needed@,
                    energy: *energy_needed as int,
                    energy_buildings: energy_buildings@,
                    notes: notes@.map_values(|s: String| s@),
                }
            },
            CalculatorResult::Error { kind, message, required_tier } => CalcOutcome::Refused {
                kind: *kind,
                message: message@,
                required_tier: *required_tier,
            },
        }
    }
}

/// The name a resource is shown by.
pub open spec fn resource_name(r: ResourceType) -> Seq<char> {
    match r {
        ResourceType::IronOre => "IronOre"@,
        ResourceType::IronBar => "IronBar"@,
        ResourceType::CopperOre => "CopperOre"@,
        ResourceType::Stone => "Stone"@,
        ResourceType::Water => "Water"@,
        ResourceType::CopperBar => "CopperBar"@,
        ResourceType::Plank => "Plank"@,
        ResourceType::Wood => "Wood"@,
        ResourceType::Hide => "Hide"@,
        ResourceType::Herbs => "Herbs"@,
        ResourceType::BoneMeal => "BoneMeal"@,
        ResourceType::ObsidianShard => "ObsidianShard"@,
        ResourceType::ManaCrystal => "ManaCrystal"@,
        ResourceType::Lava => "Lava"@,
        ResourceType::SteelPlate => "SteelPlate"@,
        ResourceType::TreatedLeather => "TreatedLeather"@,
        ResourceType::RefinedCrystal => "RefinedCrystal"@,
        ResourceType::PotionBase => "PotionBase"@,
        ResourceType::Venom => "Venom"@,
        ResourceType::Sinew => "Sinew"@,
        ResourceType::RunicAlloy => "RunicAlloy"@,
        ResourceType::ArcaneEssence => "ArcaneEssence"@,
        ResourceType::OpusIngot => "OpusIngot"@,
        ResourceType::ItemIronMiner => "ItemIronMiner"@,
        ResourceType::ItemCopperMiner => "ItemCopperMiner"@,
        ResourceType::ItemStoneQuarry => "ItemStoneQuarry"@,
        ResourceType::ItemWindTurbine => "ItemWindTurbine"@,
        ResourceType::ItemWatchtower => "ItemWatchtower"@,
        ResourceType::ItemImpCamp => "ItemImpCamp"@,
        ResourceType::ItemBreedingPen => "ItemBreedingPen"@,
        ResourceType::ItemWaterPump => "ItemWaterPump"@,
        ResourceType::ItemIronSmelter => "ItemIronSmelter"@,
        ResourceType::ItemCopperSmelter => "ItemCopperSmelter"@,
        ResourceType::ItemTreeFarm => "ItemTreeFarm"@,
        ResourceType::ItemSawmill => "ItemSawmill"@,
        ResourceType::ItemWaterWheel => "ItemWaterWheel"@,
        ResourceType::ItemSacrificeAltar => "ItemSacrificeAltar"@,
        ResourceType::ItemToolmaker => "ItemToolmaker"@,
        ResourceType::ItemAssembler => "ItemAssembler"@,
        ResourceType::ItemObsidianDrill => "ItemObsidianDrill"@,
        ResourceType::ItemManaExtractor => "ItemManaExtractor"@,
        ResourceType::ItemWarLodge => "ItemWarLodge"@,
        ResourceType::ItemTrader => "ItemTrader"@,
        ResourceType::ItemSteelForge => "ItemSteelForge"@,
        ResourceType::ItemTannery => "ItemTannery"@,
        ResourceType::ItemCrystalRefinery => "ItemCrystalRefinery"@,
        ResourceType::ItemAlchemistLab => "ItemAlchemistLab"@,
        ResourceType::ItemLavaSiphon => "ItemLavaSiphon"@,
        ResourceType::ItemLavaGenerator => "ItemLavaGenerator"@,
        ResourceType::ItemRunicForge => "ItemRunicForge"@,
        ResourceType::ItemArcaneDistillery => "ItemArcaneDistillery"@,
        ResourceType::ItemOpusForge => "ItemOpusForge"@,
        ResourceType::ItemManaReactor => "ItemManaReactor"@,
    }
}

impl ResourceType {
    /// The name the resource is shown by, as written in its declaration.
    pub fn name(self) -> (s: &'static str)
        ensures
            s@ == resource_name(self),
    {
        match self {
            ResourceType::IronOre => "IronOre",
            ResourceType::IronBar => "IronBar",
            ResourceType::CopperOre => "CopperOre",
            ResourceType::Stone => "Stone",
            ResourceType::Water => "Water",
            ResourceType::CopperBar => "CopperBar",
            ResourceType::Plank => "Plank",
            ResourceType::Wood => "Wood",
            ResourceType::Hide => "Hide",
            ResourceType::Herbs => "Herbs",
            ResourceType::BoneMeal => "BoneMeal",
            ResourceType::ObsidianShard => "ObsidianShard",
            ResourceType::ManaCrystal => "ManaCrystal",
            ResourceType::Lava => "Lava",
            ResourceType::SteelPlate => "SteelPlate",
            ResourceType::TreatedLeather => "TreatedLeather",
            ResourceType::RefinedCrystal => "RefinedCrystal",
            ResourceType::PotionBase => "PotionBase",
            ResourceType::Venom => "Venom",
            ResourceType::Sinew => "Sinew",
            ResourceType::RunicAlloy => "RunicAlloy",
            ResourceType::ArcaneEssence => "ArcaneEssence",
            ResourceType::OpusIngot => "OpusIngot",
            ResourceType::ItemIronMiner => "ItemIronMiner",
            ResourceType::ItemCopperMiner => "ItemCopperMiner",
            ResourceType::ItemStoneQuarry => "ItemStoneQuarry",
            ResourceType::ItemWindTurbine => "ItemWindTurbine",
            ResourceType::ItemWatchtower => "ItemWatchtower",
            ResourceType::ItemImpCamp => "ItemImpCamp",
            ResourceType::ItemBreedingPen => "ItemBreedingPen",
            ResourceType::ItemWaterPump => "ItemWaterPump",
            ResourceType::ItemIronSmelter => "ItemIronSmelter",
            ResourceType::ItemCopperSmelter => "ItemCopperSmelter",
            ResourceType::ItemTreeFarm => "ItemTreeFarm",
            ResourceType::ItemSawmill => "ItemSawmill",
            ResourceType::ItemWaterWheel => "ItemWaterWheel",
            ResourceType::ItemSacrificeAltar => "ItemSacrificeAltar",
            ResourceType::ItemToolmaker => "ItemToolmaker",
            ResourceType::ItemAssembler => "ItemAssembler",
            ResourceType::ItemObsidianDrill => "ItemObsidianDrill",
            ResourceType::ItemManaExtractor => "ItemManaExtractor",
            ResourceType::ItemWarLodge => "ItemWarLodge",
            ResourceType::ItemTrader => "ItemTrader",
            ResourceType::ItemSteelForge => "ItemSteelForge",
            ResourceType::ItemTannery => "ItemTannery",
            ResourceType::ItemCrystalRefinery => "ItemCrystalRefinery",
            ResourceType::ItemAlchemistLab => "ItemAlchemistLab",
            ResourceType::ItemLavaSiphon => "ItemLavaSiphon",
            ResourceType::ItemLavaGenerator => "ItemLavaGenerator",
            ResourceType::ItemRunicForge => "ItemRunicForge",
            ResourceType::ItemArcaneDistillery => "ItemArcaneDistillery",
            ResourceType::ItemOpusForge => "ItemOpusForge",
            ResourceType::ItemManaReactor => "ItemManaReactor",
        }
    }
}


/// Whole production units needed for the query's rate (the rate rounded up).
pub open spec fn units(q: CalculatorQuery) -> int {
    ceil_div(q.target_rate_per_min.0 as int, 1000)
}

/// A building count as it is held: counts above `u32::MAX` are held as
/// `u32::MAX`.
pub open spec fn counted(n: int) -> int {
    if n > u32::MAX { u32::MAX as int } else { n }
}

/// The counts the query's chain multiplies stay within `u32`: for iron bars
/// twice the smelter count, for steel plates four times the forge count.
pub open spec fn calculator_computable(q: CalculatorQuery) -> bool {
    q.target_rate_per_min.0 > 0 ==> {
        &&& (q.target_resource == ResourceType::IronBar && q.current_tier >= 1) ==> 2 * counted(units(q))
            <= u32::MAX
        &&& (q.target_resource == ResourceType::SteelPlate && q.current_tier >= 2) ==> 4 * counted(
            units(q),
        ) <= u32::MAX
    }
}

/// A plan with no notes and no energy buildings.
pub open spec fn bare_plan(buildings: Map<BuildingType, u32>, energy: int) -> CalcOutcome {
    CalcOutcome::Plan {
        buildings,
        energy,
        energy_buildings: Map::empty(),
        notes: Seq::empty(),
    }
}

/// The note added to iron-bar plans in the volcanic biome.
pub open spec fn volcanic_note() -> Seq<char> {
    "HIGH quality iron_ore in volcanic biome — smelting outputs 1.0 + quality_bonus"@
}

/// The notes added to treated-leather plans.
pub open spec fn leather_notes() -> Seq<Seq<char>> {
    seq![
        "Requires combat group for organic resources (hide, herbs)"@,
        "Combat group needs iron_bar + herbs as input"@,
    ]
}

/// Iron bars: one smelter per bar a minute, two miners per smelter, the
/// energy the miners (5 each) and smelters (10 each) draw, and enough wind
/// turbines (20 energy each) for it.
pub open spec fn iron_bar_outcome(q: CalculatorQuery) -> CalcOutcome {
    if q.current_tier < 1 {
        CalcOutcome::Refused {
            kind: CalculatorErrorKind::TierLocked,
            message: "Requires T1"@,
            required_tier: Some(1),
        }
    } else {
        let smelters = counted(units(q));
        let miners = 2 * smelters;
        let energy = 5 * miners + 10 * smelters;
        CalcOutcome::Plan {
            buildings: Map::empty().insert(BuildingType::IronMiner, miners as u32).insert(
                BuildingType::IronSmelter,
                smelters as u32,
            ),
            energy,
            energy_buildings: Map::empty().insert(
                BuildingType::WindTurbine,
                ceil_div(energy, 20) as u32,
            ),
            notes: if q.biome == Biome::Volcanic {
                seq![volcanic_note()]
            } else {
                Seq::empty()
            },
        }
    }
}

/// Planks: one sawmill per two planks a minute, one tree farm per sawmill,
/// one water pump per tree farm, and the energy the pumps (3 each), farms
/// (8 each) and sawmills (6 each) draw.
pub open spec fn plank_outcome(q: CalculatorQuery) -> CalcOutcome {
    let saws = counted(ceil_div(units(q), 2));
    bare_plan(
        Map::empty().insert(BuildingType::WaterPump, saws as u32).insert(
            BuildingType::TreeFarm,
            saws as u32,
        ).insert(BuildingType::Sawmill, saws as u32),
        3 * saws + 8 * saws + 6 * saws,
    )
}

/// Steel plates (tier 2): one forge per plate a minute, fed by two iron
/// smelters and one copper smelter per forge and two miners per smelter; the
/// chain draws 68 energy per forge.
pub open spec fn steel_plate_outcome(q: CalculatorQuery) -> CalcOutcome {
    if q.current_tier < 2 {
        CalcOutcome::Refused {
            kind: CalculatorErrorKind::TierLocked,
            message: "Requires T2 — steel_forge not available at current tier"@,
            required_tier: Some(2),
        }
    } else {
        let forges = counted(units(q));
        bare_plan(
            Map::empty().insert(BuildingType::IronMiner, (4 * forges) as u32).insert(
                BuildingType::CopperMiner,
                (2 * forges) as u32,
            ).insert(BuildingType::IronSmelter, (2 * forges) as u32).insert(
                BuildingType::CopperSmelter,
                forges as u32,
            ).insert(BuildingType::SteelForge, forges as u32),
            68 * forges,
        )
    }
}

/// Treated leather (tier 2): one tannery per leather a minute, fed by one imp
/// camp and one breeding pen each, and the energy the camps (10 each), pens
/// (8 each) and tanneries (12 each) draw; the plan notes that it needs a
/// combat group.
pub open spec fn treated_leather_outcome(q: CalculatorQuery) -> CalcOutcome {
    if q.current_tier < 2 {
        CalcOutcome::Refused {
            kind: CalculatorErrorKind::TierLocked,
            message: "Requires T2 — tannery not available at current tier"@,
            required_tier: Some(2),
        }
    } else {
        let t = counted(units(q));
        CalcOutcome::Plan {
            buildings: Map::empty().insert(BuildingType::ImpCamp, t as u32).insert(
                BuildingType::BreedingPen,
                t as u32,
            ).insert(BuildingType::Tannery, t as u32),
            energy: 10 * t + 8 * t + 12 * t,
            energy_buildings: Map::empty(),
            notes: leather_notes(),
        }
    }
}

/// Runic alloy is always refused: its forge is a tier-3 building.
pub open spec fn runic_alloy_outcome() -> CalcOutcome {
    CalcOutcome::Refused {
        kind: CalculatorErrorKind::TierLocked,
        message: "Requires T3 — runic_forge not available at current tier"@,
        required_tier: Some(3),
    }
}

/// Obsidian shards are always refused: they need obsidian-vein terrain.
pub open spec fn obsidian_shard_outcome(q: CalculatorQuery) -> CalcOutcome {
    CalcOutcome::Refused {
        kind: CalculatorErrorKind::BiomeUnavailable,
        message: if q.biome == Biome::Forest {
            "obsidian_shard requires obsidian_vein terrain (not available in forest biome)"@
        } else {
            "obsidian_shard requires obsidian_vein terrain"@
        },
        required_tier: None,
    }
}

/// What the calculator answers to a query.
pub open spec fn calculator_outcome(q: CalculatorQuery) -> CalcOutcome {
    if q.target_rate_per_min.0 == 0 {
        bare_plan(Map::empty(), 0)
    } else {
        match q.target_resource {
            ResourceType::IronBar => iron_bar_outcome(q),
            ResourceType::Plank => plank_outcome(q),
            ResourceType::SteelPlate => steel_plate_outcome(q),
            ResourceType::TreatedLeather => treated_leather_outcome(q),
            ResourceType::RunicAlloy => runic_alloy_outcome(),
            ResourceType::ObsidianShard => obsidian_shard_outcome(q),
            _ => CalcOutcome::Refused {
                kind: CalculatorErrorKind::UnknownResource,
                message: "No recipe known for "@ + resource_name(q.target_resource),
                required_tier: None,
            },
        }
    }
}

fn refusal(kind: CalculatorErrorKind, message: &str, required_tier: Option<u32>) -> (r: CalculatorResult)
    ensures
        r@ == (CalcOutcome::Refused { kind, message: message@, required_tier }),
{
    CalculatorResult::Error { kind, message: message.to_owned(), required_tier }
}

fn bare_success(buildings_needed: BuildingCounts, energy_needed: u64) -> (r: CalculatorResult)
    ensures
        r@ == bare_plan(buildings_needed@, energy_needed as int),
{
    let energy_buildings = BuildingCounts::new();
    let notes: Vec<String> = Vec::new();
    let r = CalculatorResult::Success { buildings_needed, energy_needed, energy_buildings, notes };
    assert(notes@.map_values(|s: String| s@) =~= Seq::<Seq<char>>::empty());
    r
}

fn saturate_u32(n: u64) -> (c: u32)
    ensures
        c == counted(n as int),
{
    if n > 4294967295 {
        4294967295
    } else {
        n as u32
    }
}

fn calc_iron_bar_chain(query: &CalculatorQuery) -> (r: CalculatorResult)
    requires
        query.target_rate_per_min.0 > 0,
        calculator_computable(*query),
        query.target_resource == ResourceType::IronBar,
    ensures
        r@ == iron_bar_outcome(*query),
{
    if query.current_tier < 1 {
        return refusal(CalculatorErrorKind::TierLocked, "Requires T1", Some(1));
    }
    let smelter_count = saturate_u32(query.target_rate_per_min.ceil_units());
    let miner_count = smelter_count * 2;
    let energy = miner_count as u64 * 5 + smelter_count as u64 * 10;
    let turbine_count = ((energy + 19) / 20) as u32;
    let mut buildings = BuildingCounts::new();
    buildings.set(BuildingType::IronMiner, miner_count);
    buildings.set(BuildingType::IronSmelter, smelter_count);
    let mut energy_bldgs = BuildingCounts::new();
    energy_bldgs.set(BuildingType::WindTurbine, turbine_count);
    let mut notes: Vec<String> = Vec::new();
    if query.biome == Biome::Volcanic {
        notes.push(
            "HIGH quality iron_ore in volcanic biome — smelting outputs 1.0 + quality_bonus".to_owned(),
        );
    }
    let r = CalculatorResult::Success {
        buildings_needed: buildings,
        energy_needed: energy,
        energy_buildings: energy_bldgs,
        notes,
    };
    assert(ceil_div(energy as int, 20) == turbine_count);
    if query.biome == Biome::Volcanic {
        assert(notes@.map_values(|s: String| s@) =~= seq![volcanic_note()]);
    } else {
        assert(notes@.map_values(|s: String| s@) =~= Seq::<Seq<char>>::empty());
    }
    r
}

fn calc_plank_chain(query: &CalculatorQuery) -> (r: CalculatorResult)
    ensures
        r@ == plank_outcome(*query),
{
    let rate_units = query.target_rate_per_min.ceil_units();
    let sawmill_count = saturate_u32(rate_units / 2 + rate_units % 2);
    let tree_farm_count = sawmill_count;
    let water_pump_count = tree_farm_count;
    let energy = water_pump_count as u64 * 3 + tree_farm_count as u64 * 8 + sawmill_count as u64 * 6;
    let mut buildings = BuildingCounts::new();
    buildings.set(BuildingType::WaterPump, water_pump_count);
    buildings.set(BuildingType::TreeFarm, tree_farm_count);
    buildings.set(BuildingType::Sawmill, sawmill_count);
    bare_success(buildings, energy)
}

fn calc_steel_plate_chain(query: &CalculatorQuery) -> (r: CalculatorResult)
    requires
        query.target_rate_per_min.0 > 0,
        calculator_computable(*query),
        query.target_resource == ResourceType::SteelPlate,
    ensures
        r@ == steel_plate_outcome(*query),
{
    if query.current_tier < 2 {
        return refusal(
            CalculatorErrorKind::TierLocked,
            "Requires T2 — steel_forge not available at current tier",
            Some(2),
        );
    }
    let forge_count = saturate_u32(query.target_rate_per_min.ceil_units());
    let iron_smelter_count = forge_count * 2;
    let copper_smelter_count = forge_count;
    let iron_miner_count = iron_smelter_count * 2;
    let copper_miner_count = copper_smelter_count * 2;
    let energy = forge_count as u64 * 68;
    let mut buildings = BuildingCounts::new();
    buildings.set(BuildingType::IronMiner, iron_miner_count);
    buildings.set(BuildingType::CopperMiner, copper_miner_count);
    buildings.set(BuildingType::IronSmelter, iron_smelter_count);
    buildings.set(BuildingType::CopperSmelter, copper_smelter_count);
    buildings.set(BuildingType::SteelForge, forge_count);
    bare_success(buildings, energy)
}

fn calc_treated_leather_chain(query: &CalculatorQuery) -> (r: CalculatorResult)
    ensures
        r@ == treated_leather_outcome(*query),
{
    if query.current_tier < 2 {
        return refusal(
            CalculatorErrorKind::TierLocked,
            "Requires T2 — tannery not available at current tier",
            Some(2),
        );
    }
    let tannery_count = saturate_u32(query.target_rate_per_min.ceil_units());
    let imp_camp_count = tannery_count;
    let breeding_pen_count = tannery_count;
    let energy = imp_camp_count as u64 * 10 + breeding_pen_count as u64 * 8 + tannery_count as u64 * 12;
    let mut buildings = BuildingCounts::new();
    buildings.set(BuildingType::ImpCamp, imp_camp_count);
    buildings.set(BuildingType::BreedingPen, breeding_pen_count);
    buildings.set(BuildingType::Tannery, tannery_count);
    let energy_buildings = BuildingCounts::new();
    let mut notes: Vec<String> = Vec::new();
    notes.push("Requires combat group for organic resources (hide, herbs)".to_owned());
    notes.push("Combat group needs iron_bar + herbs as input".to_owned());
    let r = CalculatorResult::Success {
        buildings_needed: buildings,
        energy_needed: energy,
        energy_buildings,
        notes,
    };
    assert(notes@.map_values(|s: String| s@) =~= leather_notes());
    r
}

fn calc_runic_alloy_chain() -> (r: CalculatorResult)
    ensures
        r@ == runic_alloy_outcome(),
{
    refusal(
        CalculatorErrorKind::TierLocked,
        "Requires T3 — runic_forge not available at current tier",
        Some(3),
    )
}

fn calc_obsidian_shard_chain(query: &CalculatorQuery) -> (r: CalculatorResult)
    ensures
        r@ == obsidian_shard_outcome(*query),
{
    if query.biome == Biome::Forest {
        return refusal(
            CalculatorErrorKind::BiomeUnavailable,
            "obsidian_shard requires obsidian_vein terrain (not available in forest biome)",
            None,
        );
    }
    refusal(
        CalculatorErrorKind::BiomeUnavailable,
        "obsidian_shard requires obsidian_vein terrain",
        None,
    )
}

/// Computes the building chain and energy needed to make the query's item at
/// the query's rate.  A zero rate needs nothing; items without a known recipe,
/// items above the run's tier and items whose terrain the biome lacks are
/// refused with the reason.  Counts above `u32::MAX` are held as `u32::MAX`;
/// the iron and steel chains, which multiply their counts, need the products
/// to fit in `u32`.
pub fn run_calculator(query: &CalculatorQuery) -> (r: CalculatorResult)
    requires
        calculator_computable(*query),
    ensures
        r@ == calculator_outcome(*query),
{
    if query.target_rate_per_min.0 == 0 {
        return bare_success(BuildingCounts::new(), 0);
    }
    match query.target_resource {
        ResourceType::IronBar => calc_iron_bar_chain(query),
        ResourceType::Plank => calc_plank_chain(query),
        ResourceType::SteelPlate => calc_steel_plate_chain(query),
        ResourceType::TreatedLeather => calc_treated_leather_chain(query),
        ResourceType::RunicAlloy => calc_runic_alloy_chain(),
        ResourceType::ObsidianShard => calc_obsidian_shard_chain(query),
        _ => {
            let message = "No recipe known for ".to_owned().concat(query.target_resource.name());
            CalculatorResult::Error {
                kind: CalculatorErrorKind::UnknownResource,
                message,
                required_tier: None,
            }
        },
    }
}


/// The energy drawn by the buildings of kind `b` in `m`.
pub open spec fn energy_of_kind(m: Map<BuildingType, u32>, b: BuildingType) -> int {
    if count_in(m, b) == 0 {
        0
    } else {
        count_in(m, b) * energy_consumption_of(b)
    }
}

proof fn lemma_energy_of_kind(m: Map<BuildingType, u32>, b: BuildingType, n: int, c: int)
    requires
        count_in(m, b) == n,
        energy_consumption_of(b) == c,
    ensures
        energy_of_kind(m, b) == n * c,
{
    assert(count_in(m, b) * energy_consumption_of(b) == n * c) by (nonlinear_arith)
        requires
            count_in(m, b) == n,
            energy_consumption_of(b) == c,
    ;
}

/// The energy drawn by all the buildings of `m`, summed over every building kind.
pub open spec fn planned_energy(m: Map<BuildingType, u32>) -> int {
    energy_of_kind(m, BuildingType::Miner)
        + energy_of_kind(m, BuildingType::Smelter)
        + energy_of_kind(m, BuildingType::EnergySource)
        + energy_of_kind(m, BuildingType::IronMiner)
        + energy_of_kind(m, BuildingType::CopperMiner)
        + energy_of_kind(m, BuildingType::StoneQuarry)
        + energy_of_kind(m, BuildingType::WaterPump)
        + energy_of_kind(m, BuildingType::ObsidianDrill)
        + energy_of_kind(m, BuildingType::ManaExtractor)
        + energy_of_kind(m, BuildingType::LavaSiphon)
        + energy_of_kind(m, BuildingType::IronSmelter)
        + energy_of_kind(m, BuildingType::CopperSmelter)
        + energy_of_kind(m, BuildingType::TreeFarm)
        + energy_of_kind(m, BuildingType::Sawmill)
        + energy_of_kind(m, BuildingType::SteelForge)
        + energy_of_kind(m, BuildingType::SteelSmelter)
        + energy_of_kind(m, BuildingType::Tannery)
        + energy_of_kind(m, BuildingType::CrystalRefinery)
        + energy_of_kind(m, BuildingType::AlchemistLab)
        + energy_of_kind(m, BuildingType::RunicForge)
        + energy_of_kind(m, BuildingType::ArcaneDistillery)
        + energy_of_kind(m, BuildingType::Constructor)
        + energy_of_kind(m, BuildingType::Toolmaker)
        + energy_of_kind(m, BuildingType::Assembler)
        + energy_of_kind(m, BuildingType::ImpCamp)
        + energy_of_kind(m, BuildingType::BreedingPen)
        + energy_of_kind(m, BuildingType::WarLodge)
        + energy_of_kind(m, BuildingType::WindTurbine)
        + energy_of_kind(m, BuildingType::WaterWheel)
        + energy_of_kind(m, BuildingType::LavaGenerator)
        + energy_of_kind(m, BuildingType::ManaReactor)
        + energy_of_kind(m, BuildingType::OpusForge)
        + energy_of_kind(m, BuildingType::Watchtower)
        + energy_of_kind(m, BuildingType::Trader)
        + energy_of_kind(m, BuildingType::SacrificeAltar)
}

/// Held counts are whole numbers no larger than `u32::MAX`.
pub proof fn lemma_units_bound(q: CalculatorQuery)
    ensures
        0 <= units(q),
        0 <= counted(units(q)) <= u32::MAX,
        0 <= counted(ceil_div(units(q), 2)) <= u32::MAX,
{
}

/// A zero rate needs no buildings and no energy, whatever the item.
pub proof fn lemma_zero_rate_needs_nothing(q: CalculatorQuery)
    requires
        q.target_rate_per_min.0 == 0,
    ensures
        calculator_outcome(q) == bare_plan(Map::empty(), 0),
{
}

/// For iron bars, planks and treated leather, the energy of a plan is what
/// its buildings consume: the sum over all building kinds of the planned
/// count times the kind's consumption.  (The steel chain is excepted: it is
/// rated at 68 per forge, below the 78 its buildings consume.)
pub proof fn lemma_plan_energy_is_consumption(q: CalculatorQuery)
    requires
        q.target_resource == ResourceType::IronBar || q.target_resource == ResourceType::Plank
            || q.target_resource == ResourceType::TreatedLeather,
        calculator_computable(q),
    ensures
        calculator_outcome(q) matches CalcOutcome::Plan { buildings, energy, .. } ==> energy
            == planned_energy(buildings),
{
    lemma_units_bound(q);
    let s = counted(units(q));
    if q.target_rate_per_min.0 == 0 {
        assert(planned_energy(Map::empty()) == 0);
    } else if q.target_resource == ResourceType::IronBar {
        if q.current_tier >= 1 {
            let m = Map::empty().insert(BuildingType::IronMiner, (2 * s) as u32).insert(
                BuildingType::IronSmelter,
                s as u32,
            );
            lemma_energy_of_kind(m, BuildingType::IronMiner, 2 * s, 5);
            lemma_energy_of_kind(m, BuildingType::IronSmelter, s, 10);
            assert(planned_energy(m) == 20 * s);
        }
    } else if q.target_resource == ResourceType::Plank {
        let t = counted(ceil_div(units(q), 2));
        let m = Map::empty().insert(BuildingType::WaterPump, t as u32).insert(
            BuildingType::TreeFarm,
            t as u32,
        ).insert(BuildingType::Sawmill, t as u32);
        lemma_energy_of_kind(m, BuildingType::WaterPump, t, 3);
        lemma_energy_of_kind(m, BuildingType::TreeFarm, t, 8);
        lemma_energy_of_kind(m, BuildingType::Sawmill, t, 6);
        assert(planned_energy(m) == 17 * t);
    } else {
        if q.current_tier >= 2 {
            let m = Map::empty().insert(BuildingType::ImpCamp, s as u32).insert(
                BuildingType::BreedingPen,
                s as u32,
            ).insert(BuildingType::Tannery, s as u32);
            lemma_energy_of_kind(m, BuildingType::ImpCamp, s, 10);
            lemma_energy_of_kind(m, BuildingType::BreedingPen, s, 8);
            lemma_energy_of_kind(m, BuildingType::Tannery, s, 12);
            assert(planned_energy(m) == 30 * s);
        }
    }
}

/// The wind turbines of an iron-bar plan are the fewest whose 20 energy each
/// covers the plan's energy.
pub proof fn lemma_turbines_cover_energy(q: CalculatorQuery)
    requires
        q.target_resource == ResourceType::IronBar,
        calculator_computable(q),
    ensures
        calculator_outcome(q) matches CalcOutcome::Plan { energy, energy_buildings, .. } ==> {
            let t = count_in(energy_buildings, BuildingType::WindTurbine);
            &&& t * 20 >= energy
            &&& t == 0 || (t - 1) * 20 < energy
        },
{
    lemma_units_bound(q);
}

/// Raising the tier never changes a plan: what is planned at one tier is
/// planned the same at every higher tier.
pub proof fn lemma_plan_stable_under_higher_tier(q: CalculatorQuery, tier: u32)
    requires
        calculator_outcome(q) is Plan,
        q.current_tier <= tier,
    ensures
        calculator_outcome(CalculatorQuery { current_tier: tier, ..q }) == calculator_outcome(q),
{
}

/// Of two planned queries that differ only in rate, the higher rate never
/// needs fewer buildings of any kind, nor less energy.  (A zero rate is
/// planned empty even for items refused at every positive rate.)
pub proof fn lemma_counts_monotone_in_rate(q: CalculatorQuery, rate: Milli64, b: BuildingType)
    requires
        calculator_outcome(q) is Plan,
        calculator_outcome(CalculatorQuery { target_rate_per_min: rate, ..q }) is Plan,
        calculator_computable(CalculatorQuery { target_rate_per_min: rate, ..q }),
        q.target_rate_per_min.0 <= rate.0,
    ensures
        count_in(calculator_outcome(q)->buildings, b) <= count_in(
            calculator_outcome(CalculatorQuery { target_rate_per_min: rate, ..q })->buildings,
            b,
        ),
        calculator_outcome(q)->energy <= calculator_outcome(
            CalculatorQuery { target_rate_per_min: rate, ..q },
        )->energy,
{
    let q2 = CalculatorQuery { target_rate_per_min: rate, ..q };
    lemma_units_bound(q);
    lemma_units_bound(q2);
    lemma_ceil_div_monotone(q.target_rate_per_min.0 as int, rate.0 as int, 1000);
    lemma_ceil_div_monotone(units(q), units(q2), 2);
    assert(counted(units(q)) <= counted(units(q2)));
    assert(counted(ceil_div(units(q), 2)) <= counted(ceil_div(units(q2), 2)));
}

proof fn lemma_ceil_div_monotone(a: int, b: int, d: int)
    requires
        0 <= a <= b,
        0 < d,
    ensures
        ceil_div(a, d) <= ceil_div(b, d),
{
    assert(a / d <= b / d) by (nonlinear_arith)
        requires
            0 <= a <= b,
            0 < d,
    ;
    if a / d == b / d && a % d != 0 {
        assert(b % d != 0) by (nonlinear_arith)
            requires
                0 <= a <= b,
                0 < d,
                a / d == b / d,
                a % d != 0,
        ;
    }
}


/// An iron-bar plan for a positive rate at tier 1 or above has one smelter
/// per started bar a minute (the rate rounded up, so at least one), two
/// miners per smelter, 20 energy per smelter and one wind turbine per
/// smelter.
pub proof fn lemma_iron_plan_follows_rate(q: CalculatorQuery)
    requires
        q.target_resource == ResourceType::IronBar,
        q.current_tier >= 1,
        q.target_rate_per_min.0 > 0,
        calculator_computable(q),
    ensures
        calculator_outcome(q) matches CalcOutcome::Plan { buildings, energy, energy_buildings, notes } && {
            let s = count_in(buildings, BuildingType::IronSmelter);
            &&& s >= 1
            &&& s * 1000 >= q.target_rate_per_min.0
            &&& (s - 1) * 1000 < q.target_rate_per_min.0
            &&& count_in(buildings, BuildingType::IronMiner) == 2 * s
            &&& energy == 20 * s
            &&& count_in(energy_buildings, BuildingType::WindTurbine) == s
            &&& (notes.len() == 0 <==> q.biome != Biome::Volcanic)
        },
{
    lemma_units_bound(q);
    let r = q.target_rate_per_min.0 as int;
    let u = ceil_div(r, 1000);
    assert(u * 1000 >= r && (u - 1) * 1000 < r && u >= 1) by {
        assert(r == (r / 1000) * 1000 + r % 1000);
    }
}

/// A positive rate is never planned with no buildings: every plan for a
/// positive rate holds at least one building of some kind.
pub proof fn lemma_positive_rate_needs_buildings(q: CalculatorQuery)
    requires
        q.target_rate_per_min.0 > 0,
        calculator_computable(q),
    ensures
        calculator_outcome(q) matches CalcOutcome::Plan { buildings, .. } ==> exists|b: BuildingType|
            #[trigger] count_in(buildings, b) > 0,
{
    lemma_units_bound(q);
    let r = q.target_rate_per_min.0 as int;
    let u = ceil_div(r, 1000);
    assert(u >= 1) by {
        assert(r == (r / 1000) * 1000 + r % 1000);
    }
    assert(ceil_div(u, 2) >= 1) by {
        assert(u == (u / 2) * 2 + u % 2);
    }
    match q.target_resource {
        ResourceType::IronBar => {
            if calculator_outcome(q) is Plan {
                assert(count_in(calculator_outcome(q)->buildings, BuildingType::IronSmelter) > 0);
            }
        },
        ResourceType::Plank => {
            assert(count_in(calculator_outcome(q)->buildings, BuildingType::Sawmill) > 0);
        },
        ResourceType::SteelPlate => {
            if calculator_outcome(q) is Plan {
                assert(count_in(calculator_outcome(q)->buildings, BuildingType::SteelForge) > 0);
            }
        },
        ResourceType::TreatedLeather => {
            if calculator_outcome(q) is Plan {
                assert(count_in(calculator_outcome(q)->buildings, BuildingType::Tannery) > 0);
            }
        },
        _ => {},
    }
}


/// A plank plan for a positive rate has one sawmill per started two planks a
/// minute (held at `u32::MAX`), one tree farm and one water pump per sawmill,
/// and 17 energy per sawmill.
pub proof fn lemma_plank_plan_follows_rate(q: CalculatorQuery)
    requires
        q.target_resource == ResourceType::Plank,
        q.target_rate_per_min.0 > 0,
    ensures
        calculator_outcome(q) matches CalcOutcome::Plan { buildings, energy, energy_buildings, notes } && {
            let n = count_in(buildings, BuildingType::Sawmill);
            &&& n >= 1
            &&& n == u32::MAX || (n * 2000 >= q.target_rate_per_min.0 && (n - 1) * 2000
                < q.target_rate_per_min.0)
            &&& count_in(buildings, BuildingType::TreeFarm) == n
            &&& count_in(buildings, BuildingType::WaterPump) == n
            &&& energy == 17 * n
            &&& energy_buildings == Map::<BuildingType, u32>::empty()
            &&& notes.len() == 0
        },
{
    lemma_units_bound(q);
    let r = q.target_rate_per_min.0 as int;
    let u = ceil_div(r, 1000);
    assert(u * 1000 >= r && (u - 1) * 1000 < r && u >= 1) by {
        assert(r == (r / 1000) * 1000 + r % 1000);
    }
    let v = ceil_div(u, 2);
    assert(v * 2 >= u && (v - 1) * 2 < u && v >= 1) by {
        assert(u == (u / 2) * 2 + u % 2);
    }
}

/// A steel plan for a positive rate at tier 2 or above has one forge per
/// started plate a minute, two iron smelters, one copper smelter, four iron
/// miners and two copper miners per forge, and 68 energy per forge.
pub proof fn lemma_steel_plan_follows_rate(q: CalculatorQuery)
    requires
        q.target_resource == ResourceType::SteelPlate,
        q.current_tier >= 2,
        q.target_rate_per_min.0 > 0,
        calculator_computable(q),
    ensures
        calculator_outcome(q) matches CalcOutcome::Plan { buildings, energy, .. } && {
            let f = count_in(buildings, BuildingType::SteelForge);
            &&& f >= 1
            &&& f * 1000 >= q.target_rate_per_min.0
            &&& (f - 1) * 1000 < q.target_rate_per_min.0
            &&& count_in(buildings, BuildingType::IronSmelter) == 2 * f
            &&& count_in(buildings, BuildingType::CopperSmelter) == f
            &&& count_in(buildings, BuildingType::IronMiner) == 4 * f
            &&& count_in(buildings, BuildingType::CopperMiner) == 2 * f
            &&& energy == 68 * f
        },
{
    lemma_units_bound(q);
    let r = q.target_rate_per_min.0 as int;
    let u = ceil_div(r, 1000);
    assert(u * 1000 >= r && (u - 1) * 1000 < r && u >= 1) by {
        assert(r == (r / 1000) * 1000 + r % 1000);
    }
}

/// A treated-leather plan for a positive rate at tier 2 or above has one
/// tannery per started leather a minute (held at `u32::MAX`), one imp camp and
/// one breeding pen per tannery, 30 energy per tannery, and notes that it
/// needs a combat group.
pub proof fn lemma_leather_plan_follows_rate(q: CalculatorQuery)
    requires
        q.target_resource == ResourceType::TreatedLeather,
        q.current_tier >= 2,
        q.target_rate_per_min.0 > 0,
    ensures
        calculator_outcome(q) matches CalcOutcome::Plan { buildings, energy, notes, .. } && {
            let t = count_in(buildings, BuildingType::Tannery);
            &&& t >= 1
            &&& t == u32::MAX || (t * 1000 >= q.target_rate_per_min.0 && (t - 1) * 1000
                < q.target_rate_per_min.0)
            &&& count_in(buildings, BuildingType::ImpCamp) == t
            &&& count_in(buildings, BuildingType::BreedingPen) == t
            &&& energy == 30 * t
            &&& notes.len() == 2
        },
{
    lemma_units_bound(q);
    let r = q.target_rate_per_min.0 as int;
    let u = ceil_div(r, 1000);
    assert(u * 1000 >= r && (u - 1) * 1000 < r && u >= 1) by {
        assert(r == (r / 1000) * 1000 + r % 1000);
    }
}

} // verus!
