//! Meta progression: difficulty multipliers, trading rates, the unlock store
//! and the persistent wallet.
use crate::building::ResourceType;
use crate::fixed::Milli;
use vstd::prelude::*;

verus! {

/// Opus difficulty level.
#[derive(Clone, Copy, Debug, PartialEq, Eq, Hash, Structural)]
pub enum OpusDifficulty {
    Easy,
    Medium,
    Hard,
    Extreme,
}

impl OpusDifficulty {
    /// How much faster the opus milestones must be produced (1.0 = standard).
    pub fn rate_multiplier(self) -> (m: Milli)
        ensures
            m.0 == match self {
                OpusDifficulty::Easy => 700u32,
                OpusDifficulty::Medium => 1000u32,
                OpusDifficulty::Hard => 1400u32,
                OpusDifficulty::Extreme => 1800u32,
            },
    {
        match self {
            OpusDifficulty::Easy => Milli(700),
            OpusDifficulty::Medium => Milli(1000),
            OpusDifficulty::Hard => Milli(1400),
            OpusDifficulty::Extreme => Milli(1800),
        }
    }

    /// How much more meta currency a run of this difficulty earns.
    pub fn currency_multiplier(self) -> (m: Milli)
        ensures
            m.0 == match self {
                OpusDifficulty::Easy => 1000u32,
                OpusDifficulty::Medium => 1500u32,
                OpusDifficulty::Hard => 2000u32,
                OpusDifficulty::Extreme => 3000u32,
            },
    {
        match self {
            OpusDifficulty::Easy => Milli(1000),
            OpusDifficulty::Medium => Milli(1500),
            OpusDifficulty::Hard => Milli(2000),
            OpusDifficulty::Extreme => Milli(3000),
        }
    }
}

/// The three meta currencies.
#[derive(Clone, Copy, Debug, PartialEq, Eq, Hash, Structural)]
pub enum MetaCurrency {
    Gold,
    Souls,
    Knowledge,
}

/// What a resource trades for: a currency and a base rate per unit.
#[derive(Clone, Copy, Debug, PartialEq, Eq, Structural)]
pub struct TradingRateDef {
    pub currency: MetaCurrency,
    /// Base rate: currency earned per resource unit.
    pub rate: Milli,
}

/// The trading table: currency and base rate (in thousandths) per resource.
pub open spec fn trading_rate_of(r: ResourceType) -> Option<(MetaCurrency, u32)> {
    match r {
        ResourceType::IronOre => Some((MetaCurrency::Gold, 500)),
        ResourceType::CopperOre => Some((MetaCurrency::Gold, 500)),
        ResourceType::Stone => Some((MetaCurrency::Gold, 300)),
        ResourceType::Wood => Some((MetaCurrency::Gold, 400)),
        ResourceType::IronBar => Some((MetaCurrency::Gold, 1000)),
        ResourceType::CopperBar => Some((MetaCurrency::Gold, 1000)),
        ResourceType::Plank => Some((MetaCurrency::Gold, 600)),
        ResourceType::Hide => Some((MetaCurrency::Souls, 1500)),
        ResourceType::Herbs => Some((MetaCurrency::Souls, 1000)),
        ResourceType::BoneMeal => Some((MetaCurrency::Souls, 1200)),
        ResourceType::ObsidianShard => Some((MetaCurrency::Knowledge, 1500)),
        ResourceType::ManaCrystal => Some((MetaCurrency::Knowledge, 2000)),
        ResourceType::SteelPlate => Some((MetaCurrency::Knowledge, 2000)),
        ResourceType::TreatedLeather => Some((MetaCurrency::Souls, 2500)),
        ResourceType::RefinedCrystal => Some((MetaCurrency::Knowledge, 2500)),
        ResourceType::PotionBase => Some((MetaCurrency::Knowledge, 3000)),
        ResourceType::Venom => Some((MetaCurrency::Souls, 3000)),
        ResourceType::Sinew => Some((MetaCurrency::Souls, 2000)),
        ResourceType::RunicAlloy => Some((MetaCurrency::Knowledge, 5000)),
        ResourceType::ArcaneEssence => Some((MetaCurrency::Knowledge, 7000)),
        ResourceType::OpusIngot => Some((MetaCurrency::Knowledge, 10000)),
        _ => None,
    }
}

/// The trading rate of a resource, or `None` when it cannot be traded
/// (building items, water and lava).
pub fn find_trading_rate(resource: ResourceType) -> (r: Option<TradingRateDef>)
    ensures
        match trading_rate_of(resource) {
            Some((c, rate)) => r == Some(TradingRateDef { currency: c, rate: Milli(rate) }),
            None => r is None,
        },
{
    let t = match resource {
        ResourceType::IronOre => (MetaCurrency::Gold, 500),
        ResourceType::CopperOre => (MetaCurrency::Gold, 500),
        ResourceType::Stone => (MetaCurrency::Gold, 300),
        ResourceType::Wood => (MetaCurrency::Gold, 400),
        ResourceType::IronBar => (MetaCurrency::Gold, 1000),
        ResourceType::CopperBar => (MetaCurrency::Gold, 1000),
        ResourceType::Plank => (MetaCurrency::Gold, 600),
        ResourceType::Hide => (MetaCurrency::Souls, 1500),
        ResourceType::Herbs => (MetaCurrency::Souls, 1000),
        ResourceType::BoneMeal => (MetaCurrency::Souls, 1200),
        ResourceType::ObsidianShard => (MetaCurrency::Knowledge, 1500),
        ResourceType::ManaCrystal => (MetaCurrency::Knowledge, 2000),
        ResourceType::SteelPlate => (MetaCurrency::Knowledge, 2000),
        ResourceType::TreatedLeather => (MetaCurrency::Souls, 2500),
        ResourceType::RefinedCrystal => (MetaCurrency::Knowledge, 2500),
        ResourceType::PotionBase => (MetaCurrency::Knowledge, 3000),
        ResourceType::Venom => (MetaCurrency::Souls, 3000),
        ResourceType::Sinew => (MetaCurrency::Souls, 2000),
        ResourceType::RunicAlloy => (MetaCurrency::Knowledge, 5000),
        ResourceType::ArcaneEssence => (MetaCurrency::Knowledge, 7000),
        ResourceType::OpusIngot => (MetaCurrency::Knowledge, 10000),
        _ => {
            return None;
        },
    };
    Some(TradingRateDef { currency: t.0, rate: Milli(t.1) })
}

/// Building items, water and lava.
pub open spec fn untradeable(r: ResourceType) -> bool {
    r is Water || r is Lava || r is ItemIronMiner || r is ItemCopperMiner || r is ItemStoneQuarry
        || r is ItemWindTurbine || r is ItemWatchtower || r is ItemImpCamp || r is ItemBreedingPen
        || r is ItemWaterPump || r is ItemIronSmelter || r is ItemCopperSmelter || r is ItemTreeFarm
        || r is ItemSawmill || r is ItemWaterWheel || r is ItemSacrificeAltar || r is ItemToolmaker
        || r is ItemAssembler || r is ItemObsidianDrill || r is ItemManaExtractor || r is ItemWarLodge
        || r is ItemTrader || r is ItemSteelForge || r is ItemTannery || r is ItemCrystalRefinery
        || r is ItemAlchemistLab || r is ItemLavaSiphon || r is ItemLavaGenerator || r is ItemRunicForge
        || r is ItemArcaneDistillery || r is ItemOpusForge || r is ItemManaReactor
}

/// Organic resources (from combat groups), and treated leather, which is
/// made from them alone.
pub open spec fn organic(r: ResourceType) -> bool {
    r is Hide || r is Herbs || r is BoneMeal || r is Venom || r is Sinew || r is TreatedLeather
}

/// Tier-1 non-organic materials: the raw ores, stone and wood and what the
/// first smelters and sawmills make of them.
pub open spec fn tier_one_material(r: ResourceType) -> bool {
    r is IronOre || r is CopperOre || r is Stone || r is Wood || r is IronBar || r is CopperBar || r is Plank
}

/// The base rate (in thousandths) of a tradeable resource, 0 for the others.
pub open spec fn base_rate(r: ResourceType) -> int {
    match trading_rate_of(r) {
        Some((_, rate)) => rate as int,
        None => 0,
    }
}

/// Everything but building items, water and lava can be traded, at a positive
/// rate; organic resources trade for souls and raw or processed tier-1
/// non-organic resources for gold.
pub proof fn lemma_trading_table(r: ResourceType)
    ensures
        trading_rate_of(r) is None <==> untradeable(r),
        trading_rate_of(r) matches Some((_, rate)) ==> rate > 0,
        organic(r) ==> (trading_rate_of(r) matches Some((c, _)) && c == MetaCurrency::Souls),
        (r is IronOre || r is CopperOre || r is Stone || r is Wood || r is IronBar || r is CopperBar
            || r is Plank) ==> (trading_rate_of(r) matches Some((c, _)) && c == MetaCurrency::Gold),
{
}

/// The currency a resource trades for is fixed by what it is: organic
/// resources trade for souls, tier-1 materials for gold, and everything else
/// that can be traded (mana and obsidian materials, higher-tier processed
/// goods, the opus ingot) for knowledge.
pub proof fn lemma_trading_currency_by_kind(r: ResourceType)
    ensures
        trading_rate_of(r) matches Some((c, _)) ==> {
            &&& (c == MetaCurrency::Souls <==> organic(r))
            &&& (c == MetaCurrency::Gold <==> tier_one_material(r))
            &&& (c == MetaCurrency::Knowledge <==> !organic(r) && !tier_one_material(r))
        },
        !untradeable(r) ==> trading_rate_of(r) is Some,
{
}

/// A processed good trades above each of its inputs, and the opus ingot
/// trades above everything else.
pub proof fn lemma_processing_adds_value(r: ResourceType)
    ensures
        base_rate(ResourceType::IronBar) > base_rate(ResourceType::IronOre),
        base_rate(ResourceType::CopperBar) > base_rate(ResourceType::CopperOre),
        base_rate(ResourceType::Plank) > base_rate(ResourceType::Wood),
        base_rate(ResourceType::SteelPlate) > base_rate(ResourceType::IronBar),
        base_rate(ResourceType::SteelPlate) > base_rate(ResourceType::CopperBar),
        base_rate(ResourceType::TreatedLeather) > base_rate(ResourceType::Hide),
        base_rate(ResourceType::TreatedLeather) > base_rate(ResourceType::Herbs),
        base_rate(ResourceType::RefinedCrystal) > base_rate(ResourceType::ManaCrystal),
        base_rate(ResourceType::RunicAlloy) > base_rate(ResourceType::SteelPlate),
        r != ResourceType::OpusIngot ==> base_rate(r) < base_rate(ResourceType::OpusIngot),
{
}

/// Biome-and-opus difficulty category; it sets the run-end currency multiplier.
#[derive(Clone, Copy, Debug, PartialEq, Eq, Hash, Structural)]
pub enum DifficultyCategory {
    Easy,
    Medium,
    Hard,
    Extreme,
}

/// The category of a combined biome + opus difficulty score.
pub open spec fn category_of(score: u32) -> DifficultyCategory {
    if score <= 3 {
        DifficultyCategory::Easy
    } else if score == 4 {
        DifficultyCategory::Medium
    } else if score == 5 {
        DifficultyCategory::Hard
    } else {
        DifficultyCategory::Extreme
    }
}

/// The position of a category in the order Easy < Medium < Hard < Extreme.
pub open spec fn category_rank(c: DifficultyCategory) -> int {
    match c {
        DifficultyCategory::Easy => 0,
        DifficultyCategory::Medium => 1,
        DifficultyCategory::Hard => 2,
        DifficultyCategory::Extreme => 3,
    }
}

/// The run-end currency multiplier of a category, in thousandths.
pub open spec fn opus_multiplier_of(c: DifficultyCategory) -> u32 {
    match c {
        DifficultyCategory::Easy => 1000,
        DifficultyCategory::Medium => 1500,
        DifficultyCategory::Hard => 2000,
        DifficultyCategory::Extreme => 3000,
    }
}

impl DifficultyCategory {
    /// Scores up to 3 are Easy, 4 Medium, 5 Hard, 6 and above Extreme.
    pub fn from_score(score: u32) -> (c: Self)
        ensures
            c == category_of(score),
    {
        if score <= 3 {
            DifficultyCategory::Easy
        } else if score == 4 {
            DifficultyCategory::Medium
        } else if score == 5 {
            DifficultyCategory::Hard
        } else {
            DifficultyCategory::Extreme
        }
    }

    /// The multiplier applied to all meta currencies at run end.
    pub fn opus_multiplier(self) -> (m: Milli)
        ensures
            m.0 == opus_multiplier_of(self),
    {
        match self {
            DifficultyCategory::Easy => Milli(1000),
            DifficultyCategory::Medium => Milli(1500),
            DifficultyCategory::Hard => Milli(2000),
            DifficultyCategory::Extreme => Milli(3000),
        }
    }
}

/// A higher score never gives an easier category, and a harder category
/// always pays a larger multiplier.
pub proof fn lemma_difficulty_monotone(s1: u32, s2: u32)
    ensures
        s1 <= s2 ==> category_rank(category_of(s1)) <= category_rank(category_of(s2)),
        category_rank(category_of(s1)) < category_rank(category_of(s2)) ==> opus_multiplier_of(
            category_of(s1),
        ) < opus_multiplier_of(category_of(s2)),
{
}

} // verus!
