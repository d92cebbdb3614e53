use spike::building::ResourceType;
use spike::fixed::Milli64;
use spike::meta::{find_trading_rate, DifficultyCategory, MetaCurrency, OpusDifficulty};
use spike::store::{all_unlocks, find_unlock, unlock_catalog, MetaWallet, PurchasedUnlocks, UnlockCategory};

fn units(n: u64) -> Milli64 {
    Milli64::from_units(n)
}

fn multiplier_value(m: spike::fixed::Milli) -> f32 {
    m.0 as f32 / 1000.0
}

// ── AC2: Meta store displays available unlocks with currency costs ─────────────

#[test]
fn meta_store_displays_biome_unlock_with_multi_currency_cost() {
    let unlock = find_unlock("unlock_volcanic").expect("unlock_volcanic must exist");

    assert_eq!(unlock.name, "Ashen Caldera");
    assert_eq!(unlock.category, UnlockCategory::Biome);
    assert_eq!(unlock.cost_gold, 200);
    assert_eq!(unlock.cost_souls, 100);
    assert_eq!(unlock.cost_knowledge, 0);
}

#[test]
fn meta_store_displays_starting_bonus_unlocks() {
    let gift = find_unlock("extra_starting_miner").expect("extra_starting_miner must exist");
    let war = find_unlock("starting_combat").expect("starting_combat must exist");

    assert_eq!(gift.name, "Prospector's Gift");
    assert_eq!(gift.category, UnlockCategory::StartingBonus);
    assert_eq!(gift.cost_gold, 300);

    assert_eq!(war.name, "War Preparation");
    assert_eq!(war.category, UnlockCategory::StartingBonus);
    assert_eq!(war.cost_souls, 400);
}

#[test]
fn meta_store_displays_building_pool_unlocks() {
    let alchemist = find_unlock("unlock_alchemist_lab").expect("unlock_alchemist_lab must exist");
    let arcane = find_unlock("unlock_mana_reactor").expect("unlock_mana_reactor must exist");

    assert_eq!(alchemist.name, "Alchemist's Secret");
    assert_eq!(alchemist.category, UnlockCategory::BuildingPool);
    assert_eq!(alchemist.cost_knowledge, 500);

    assert_eq!(arcane.name, "Arcane Power");
    assert_eq!(arcane.category, UnlockCategory::BuildingPool);
    assert_eq!(arcane.cost_knowledge, 600);
    assert_eq!(arcane.cost_souls, 200);
}

#[test]
fn meta_store_displays_cosmetic_unlocks() {
    let golden = find_unlock("golden_rune_paths").expect("golden_rune_paths must exist");
    let spectral = find_unlock("spectral_minions").expect("spectral_minions must exist");

    assert_eq!(golden.name, "Golden Runes");
    assert_eq!(golden.category, UnlockCategory::Cosmetic);
    assert_eq!(golden.cost_gold, 100);

    assert_eq!(spectral.name, "Spectral Workers");
    assert_eq!(spectral.category, UnlockCategory::Cosmetic);
    assert_eq!(spectral.cost_souls, 150);
}

// ── AC3: Unlocked content persists across runs ────────────────────────────────

#[test]
fn purchased_unlock_persists_into_a_new_run_extra_starting_miner() {
    let mut purchased = PurchasedUnlocks::default();
    purchased.add("extra_starting_miner");

    let wallet = MetaWallet { gold: units(0), souls: units(0), knowledge: units(0), ..Default::default() };

    assert!(purchased.has("extra_starting_miner"), "unlock must still be owned");
    assert_eq!(wallet.gold, units(0));

    let extra_miners = if purchased.has("extra_starting_miner") { 1usize } else { 0 };
    assert_eq!(extra_miners, 1, "starting kit: 1 extra iron_miner");
}

#[test]
fn purchased_biome_unlock_is_available_for_run_selection() {
    let mut purchased = PurchasedUnlocks::default();
    purchased.add("unlock_volcanic");

    assert!(purchased.has("unlock_volcanic"), "volcanic biome selectable");
}

#[test]
fn multiple_unlocks_persist_across_runs() {
    let mut purchased = PurchasedUnlocks::default();
    purchased.add("unlock_volcanic");
    purchased.add("extra_starting_miner");
    purchased.add("golden_rune_paths");

    assert_eq!(purchased.ids.len(), 3);
    assert!(purchased.has("unlock_volcanic"));
    assert!(purchased.has("extra_starting_miner"));
    assert!(purchased.has("golden_rune_paths"));
}

// ── AC4: Opus multiplier is determined by biome-opus difficulty match ─────────

#[test]
fn forest_biome_with_short_opus_yields_easy_difficulty_multiplier_1_0() {
    let score = 1u32 + 1u32;
    let category = DifficultyCategory::from_score(score);
    let multiplier = multiplier_value(category.opus_multiplier());

    assert_eq!(score, 2);
    assert_eq!(category, DifficultyCategory::Easy);
    assert!((multiplier - 1.0).abs() < f32::EPSILON);
}

#[test]
fn ocean_biome_with_standard_opus_yields_medium_difficulty_multiplier_1_5() {
    let score = 2u32 + 2u32;
    let category = DifficultyCategory::from_score(score);
    let multiplier = multiplier_value(category.opus_multiplier());

    assert_eq!(score, 4);
    assert_eq!(category, DifficultyCategory::Medium);
    assert!((multiplier - 1.5).abs() < f32::EPSILON);
}

#[test]
fn desert_biome_with_grand_opus_yields_hard_difficulty_multiplier_2_0() {
    let score = 2u32 + 3u32;
    let category = DifficultyCategory::from_score(score);
    let multiplier = multiplier_value(category.opus_multiplier());

    assert_eq!(score, 5);
    assert_eq!(category, DifficultyCategory::Hard);
    assert!((multiplier - 2.0).abs() < f32::EPSILON);
}

#[test]
fn volcanic_biome_with_grand_opus_yields_extreme_difficulty_multiplier_3_0() {
    let score = 3u32 + 3u32;
    let category = DifficultyCategory::from_score(score);
    let multiplier = multiplier_value(category.opus_multiplier());

    assert_eq!(score, 6);
    assert_eq!(category, DifficultyCategory::Extreme);
    assert!((multiplier - 3.0).abs() < f32::EPSILON);
}

#[test]
fn forest_biome_with_standard_opus_yields_easy_difficulty_boundary_at_3() {
    let score = 1u32 + 2u32;
    let category = DifficultyCategory::from_score(score);
    let multiplier = multiplier_value(category.opus_multiplier());

    assert_eq!(score, 3);
    assert_eq!(category, DifficultyCategory::Easy);
    assert!((multiplier - 1.0).abs() < f32::EPSILON);
}

// ── AC5: Player can view total lifetime currency earnings and spending ─────────

#[test]
fn lifetime_stats_display_total_earnings_and_spending() {
    let wallet = MetaWallet {
        gold: units(500),
        souls: units(300),
        knowledge: units(200),
        lifetime_earned_gold: units(2000),
        lifetime_earned_souls: units(1500),
        lifetime_earned_knowledge: units(1000),
        lifetime_spent_gold: units(1500),
        lifetime_spent_souls: units(1200),
        lifetime_spent_knowledge: units(800),
    };

    assert_eq!(wallet.lifetime_earned_gold, units(2000));
    assert_eq!(wallet.lifetime_earned_souls, units(1500));
    assert_eq!(wallet.lifetime_earned_knowledge, units(1000));
    assert_eq!(wallet.lifetime_spent_gold, units(1500));
    assert_eq!(wallet.lifetime_spent_souls, units(1200));
    assert_eq!(wallet.lifetime_spent_knowledge, units(800));
    assert_eq!(wallet.gold, units(500));
    assert_eq!(wallet.souls, units(300));
    assert_eq!(wallet.knowledge, units(200));
}

#[test]
fn lifetime_stats_include_unlocks_purchased() {
    let mut purchased = PurchasedUnlocks::default();
    purchased.add("unlock_volcanic");
    purchased.add("extra_starting_miner");
    purchased.add("golden_rune_paths");

    assert_eq!(purchased.ids.len(), 3);
}

// ── Edge Case: Purchase fails with insufficient currency ──────────────────────

#[test]
fn purchase_fails_when_player_lacks_required_gold() {
    let mut wallet = MetaWallet { gold: units(100), souls: units(50), knowledge: units(0), ..Default::default() };
    let mut purchased = PurchasedUnlocks::default();

    let unlock = find_unlock("unlock_volcanic").unwrap();
    let success = unlock.try_purchase(&mut wallet, &mut purchased);

    assert!(!success);
    assert_eq!(wallet.gold, units(100));
    assert_eq!(wallet.souls, units(50));
    assert_eq!(wallet.knowledge, units(0));
}

#[test]
fn purchase_fails_when_player_lacks_one_of_multiple_required_currencies() {
    let mut wallet = MetaWallet { gold: units(300), souls: units(50), knowledge: units(0), ..Default::default() };
    let mut purchased = PurchasedUnlocks::default();

    let unlock = find_unlock("unlock_volcanic").unwrap();
    let success = unlock.try_purchase(&mut wallet, &mut purchased);

    assert!(!success, "Rejected: souls 50 < 100 required");
    assert_eq!(wallet.gold, units(300));
    assert_eq!(wallet.souls, units(50));
}

// ── Edge Case: Purchase is atomic ─────────────────────────────────────────────

#[test]
fn successful_purchase_deducts_exact_cost_atomically() {
    let mut wallet = MetaWallet { gold: units(250), souls: units(150), knowledge: units(50), ..Default::default() };
    let mut purchased = PurchasedUnlocks::default();

    let unlock = find_unlock("extra_starting_turbine").unwrap();
    let success = unlock.try_purchase(&mut wallet, &mut purchased);

    assert!(success);
    assert_eq!(wallet.gold, units(0));
    assert_eq!(wallet.souls, units(150));
    assert_eq!(wallet.knowledge, units(50));
    assert!(purchased.has("extra_starting_turbine"));
}

#[test]
fn multi_currency_purchase_deducts_all_currencies_atomically() {
    let mut wallet = MetaWallet { gold: units(200), souls: units(100), knowledge: units(500), ..Default::default() };
    let mut purchased = PurchasedUnlocks::default();

    let unlock = find_unlock("unlock_volcanic").unwrap();
    let success = unlock.try_purchase(&mut wallet, &mut purchased);

    assert!(success);
    assert_eq!(wallet.gold, units(0));
    assert_eq!(wallet.souls, units(0));
    assert_eq!(wallet.knowledge, units(500));
    assert!(purchased.has("unlock_volcanic"));
}

// ── Edge Case: Cannot purchase already-purchased unlock ───────────────────────

#[test]
fn cannot_re_purchase_an_already_owned_unlock() {
    let mut wallet = MetaWallet { gold: units(500), souls: units(500), knowledge: units(500), ..Default::default() };
    let mut purchased = PurchasedUnlocks::default();
    purchased.add("golden_rune_paths");

    let unlock = find_unlock("golden_rune_paths").unwrap();
    let success = unlock.try_purchase(&mut wallet, &mut purchased);

    assert!(!success, "Re-purchase rejected");
    assert_eq!(wallet.gold, units(500));
    assert_eq!(wallet.souls, units(500));
    assert_eq!(wallet.knowledge, units(500));
    assert_eq!(purchased.ids.iter().filter(|id| id.as_str() == "golden_rune_paths").count(), 1);
}

// ── Edge Case: Difficulty matrix boundary validation ──────────────────────────

#[test]
fn minimum_possible_difficulty_score_is_2_forest_plus_short() {
    let score = 1u32 + 1u32;
    assert_eq!(score, 2);
    assert_eq!(DifficultyCategory::from_score(score), DifficultyCategory::Easy);
}

#[test]
fn maximum_possible_difficulty_score_is_6_volcanic_plus_grand() {
    let score = 3u32 + 3u32;
    assert_eq!(score, 6);
    assert_eq!(DifficultyCategory::from_score(score), DifficultyCategory::Extreme);
}

// ── Catalog integrity checks ──────────────────────────────────────────────────

#[test]
fn all_11_unlocks_are_in_catalog() {
    let expected = [
        "unlock_volcanic", "unlock_desert", "unlock_ocean",
        "extra_starting_miner", "extra_starting_turbine", "starting_combat",
        "starting_watchtower_upgrade", "unlock_alchemist_lab", "unlock_mana_reactor",
        "golden_rune_paths", "spectral_minions",
    ];

    assert_eq!(all_unlocks().len(), expected.len());
    for id in &expected {
        assert!(find_unlock(id).is_some(), "Unlock '{id}' must exist");
    }
}

#[test]
fn trading_rates_catalog_covers_all_seed_resources() {
    let expected = [
        ResourceType::IronOre, ResourceType::CopperOre, ResourceType::Stone,
        ResourceType::Wood, ResourceType::IronBar, ResourceType::CopperBar,
        ResourceType::Plank, ResourceType::Hide, ResourceType::Herbs,
        ResourceType::BoneMeal, ResourceType::ObsidianShard, ResourceType::ManaCrystal,
        ResourceType::SteelPlate, ResourceType::TreatedLeather, ResourceType::RefinedCrystal,
        ResourceType::PotionBase, ResourceType::Venom, ResourceType::Sinew,
        ResourceType::RunicAlloy, ResourceType::ArcaneEssence, ResourceType::OpusIngot,
    ];

    for res in &expected {
        assert!(find_trading_rate(*res).is_some(), "Resource {res:?} must have a trading rate");
    }
}

#[test]
fn difficulty_multipliers_match_seed_data() {
    assert!((multiplier_value(DifficultyCategory::Easy.opus_multiplier()) - 1.0).abs() < f32::EPSILON);
    assert!((multiplier_value(DifficultyCategory::Medium.opus_multiplier()) - 1.5).abs() < f32::EPSILON);
    assert!((multiplier_value(DifficultyCategory::Hard.opus_multiplier()) - 2.0).abs() < f32::EPSILON);
    assert!((multiplier_value(DifficultyCategory::Extreme.opus_multiplier()) - 3.0).abs() < f32::EPSILON);
}

// ── Further cases ──────────────────────────────────────────────────────────

#[test]
fn unknown_unlock_is_not_found() {
    assert!(find_unlock("unlock_moon").is_none());
    assert!(find_unlock("").is_none());
}

#[test]
fn every_catalog_entry_is_found_by_its_id() {
    let catalog = unlock_catalog();
    let ids = all_unlocks();
    assert_eq!(catalog.len(), 11);
    for (k, u) in catalog.iter().enumerate() {
        assert_eq!(ids[k], u.id);
        let found = find_unlock(u.id).unwrap();
        assert_eq!(found.name, u.name);
        assert_eq!(found.cost_gold, u.cost_gold);
    }
}

#[test]
fn purchase_moves_cost_into_lifetime_spending() {
    let mut wallet = MetaWallet {
        gold: Milli64(950_500),
        souls: units(400),
        knowledge: units(700),
        lifetime_spent_souls: units(10),
        ..Default::default()
    };
    let mut purchased = PurchasedUnlocks::default();
    let unlock = find_unlock("unlock_mana_reactor").unwrap(); // 200 souls + 600 knowledge
    assert!(unlock.try_purchase(&mut wallet, &mut purchased));
    assert_eq!(wallet.gold, Milli64(950_500));
    assert_eq!(wallet.souls, units(200));
    assert_eq!(wallet.knowledge, units(100));
    assert_eq!(wallet.lifetime_spent_souls, units(210));
    assert_eq!(wallet.lifetime_spent_knowledge, units(600));
    assert_eq!(wallet.lifetime_spent_gold, units(0));
    // Balance plus lifetime spending is unchanged in every currency.
    assert_eq!(wallet.souls.0 + wallet.lifetime_spent_souls.0, 410_000);
    // A second purchase of the same unlock fails and changes nothing.
    let before = wallet;
    assert!(!unlock.try_purchase(&mut wallet, &mut purchased));
    assert_eq!(wallet.souls, before.souls);
    assert_eq!(purchased.ids.len(), 1);
}

#[test]
fn fractional_balance_just_short_of_cost_is_refused() {
    let mut wallet = MetaWallet { gold: Milli64(99_999), ..Default::default() };
    let mut purchased = PurchasedUnlocks::default();
    let unlock = find_unlock("golden_rune_paths").unwrap(); // 100 gold
    assert!(!unlock.try_purchase(&mut wallet, &mut purchased));
    assert_eq!(wallet.gold, Milli64(99_999));
    assert!(!purchased.has("golden_rune_paths"));
}

#[test]
fn trading_table_rates_and_currencies() {
    let iron = find_trading_rate(ResourceType::IronOre).unwrap();
    assert_eq!(iron.currency, MetaCurrency::Gold);
    assert_eq!(iron.rate.0, 500);
    let venom = find_trading_rate(ResourceType::Venom).unwrap();
    assert_eq!(venom.currency, MetaCurrency::Souls);
    assert_eq!(venom.rate.0, 3000);
    let opus = find_trading_rate(ResourceType::OpusIngot).unwrap();
    assert_eq!(opus.currency, MetaCurrency::Knowledge);
    assert_eq!(opus.rate.0, 10000);
    assert!(find_trading_rate(ResourceType::Water).is_none());
    assert!(find_trading_rate(ResourceType::ItemTrader).is_none());
}

#[test]
fn difficulty_scores_above_six_are_extreme_and_below_three_easy() {
    assert_eq!(DifficultyCategory::from_score(0), DifficultyCategory::Easy);
    assert_eq!(DifficultyCategory::from_score(100), DifficultyCategory::Extreme);
}

#[test]
fn opus_difficulty_multipliers() {
    assert_eq!(OpusDifficulty::Easy.rate_multiplier().0, 700);
    assert_eq!(OpusDifficulty::Extreme.rate_multiplier().0, 1800);
    assert_eq!(OpusDifficulty::Medium.currency_multiplier().0, 1500);
    assert_eq!(OpusDifficulty::Hard.currency_multiplier().0, 2000);
}
