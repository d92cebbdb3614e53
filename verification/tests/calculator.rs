use spike::building::{BuildingType, ResourceType};
use spike::calculator::{run_calculator, CalculatorErrorKind, CalculatorQuery, CalculatorResult};
use spike::fixed::Milli64;
use spike::grid::Biome;

fn iron_bar_query(rate: Milli64, tier: u32, biome: Biome) -> CalculatorQuery {
    CalculatorQuery {
        target_resource: ResourceType::IronBar,
        target_rate_per_min: rate,
        current_tier: tier,
        biome,
    }
}

fn per_min(units: u64) -> Milli64 {
    Milli64::from_units(units)
}

#[test]
fn calculator_computes_simple_t1_chain_iron_bars() {
    let query = iron_bar_query(per_min(2), 1, Biome::Forest);
    let result = run_calculator(&query);

    match result {
        CalculatorResult::Success { buildings_needed, energy_needed, energy_buildings, .. } => {
            assert_eq!(buildings_needed.get(BuildingType::IronMiner).unwrap_or(0), 4, "iron_miner count should be 4");
            assert_eq!(buildings_needed.get(BuildingType::IronSmelter).unwrap_or(0), 2, "iron_smelter count should be 2");
            assert_eq!(energy_needed, 40, "energy_needed should be 40");
            assert_eq!(energy_buildings.get(BuildingType::WindTurbine).unwrap_or(0), 2, "wind_turbine count should be 2");
        }
        CalculatorResult::Error { message, .. } => panic!("Expected success, got error: {message}"),
    }
}

#[test]
fn calculator_computes_t1_chain_planks_from_tree_farms() {
    let query = CalculatorQuery {
        target_resource: ResourceType::Plank,
        target_rate_per_min: per_min(4),
        current_tier: 1,
        biome: Biome::Forest,
    };
    let result = run_calculator(&query);

    match result {
        CalculatorResult::Success { buildings_needed, energy_needed, .. } => {
            assert_eq!(buildings_needed.get(BuildingType::WaterPump).unwrap_or(0), 2, "water_pump count should be 2");
            assert_eq!(buildings_needed.get(BuildingType::TreeFarm).unwrap_or(0), 2, "tree_farm count should be 2");
            assert_eq!(buildings_needed.get(BuildingType::Sawmill).unwrap_or(0), 2, "sawmill count should be 2");
            assert_eq!(energy_needed, 34, "energy_needed should be 34");
        }
        CalculatorResult::Error { message, .. } => panic!("Expected success, got error: {message}"),
    }
}

#[test]
fn calculator_computes_multi_step_t2_chain_steel_plates() {
    let query = CalculatorQuery {
        target_resource: ResourceType::SteelPlate,
        target_rate_per_min: per_min(1),
        current_tier: 2,
        biome: Biome::Forest,
    };
    let result = run_calculator(&query);

    match result {
        CalculatorResult::Success { buildings_needed, energy_needed, .. } => {
            assert_eq!(buildings_needed.get(BuildingType::IronMiner).unwrap_or(0), 4, "iron_miner count should be 4");
            assert_eq!(buildings_needed.get(BuildingType::CopperMiner).unwrap_or(0), 2, "copper_miner count should be 2");
            assert_eq!(buildings_needed.get(BuildingType::IronSmelter).unwrap_or(0), 2, "iron_smelter count should be 2");
            assert_eq!(buildings_needed.get(BuildingType::CopperSmelter).unwrap_or(0), 1, "copper_smelter count should be 1");
            assert_eq!(buildings_needed.get(BuildingType::SteelForge).unwrap_or(0), 1, "steel_forge count should be 1");
            assert_eq!(energy_needed, 68, "energy_needed should be 68");
        }
        CalculatorResult::Error { message, .. } => panic!("Expected success, got error: {message}"),
    }
}

#[test]
fn calculator_computes_organic_chain_requiring_combat_group() {
    let query = CalculatorQuery {
        target_resource: ResourceType::TreatedLeather,
        target_rate_per_min: per_min(1),
        current_tier: 2,
        biome: Biome::Forest,
    };
    let result = run_calculator(&query);

    match result {
        CalculatorResult::Success { buildings_needed, energy_needed, notes, .. } => {
            assert_eq!(buildings_needed.get(BuildingType::ImpCamp).unwrap_or(0), 1, "imp_camp count should be 1");
            assert_eq!(buildings_needed.get(BuildingType::BreedingPen).unwrap_or(0), 1, "breeding_pen count should be 1");
            assert_eq!(buildings_needed.get(BuildingType::Tannery).unwrap_or(0), 1, "tannery count should be 1");
            assert_eq!(energy_needed, 30, "energy_needed should be 30");
            let has_combat_note = notes.iter().any(|n| n.contains("combat group"));
            assert!(has_combat_note, "notes should contain 'combat group' reference");
        }
        CalculatorResult::Error { message, .. } => panic!("Expected success, got error: {message}"),
    }
}

#[test]
fn calculator_returns_zero_buildings_for_zero_rate() {
    let query = iron_bar_query(Milli64(0), 1, Biome::Forest);
    let result = run_calculator(&query);

    match result {
        CalculatorResult::Success { buildings_needed, energy_needed, .. } => {
            assert!(
                buildings_needed.is_empty(),
                "buildings_needed should be empty for zero rate, got {:?}",
                buildings_needed.to_vec()
            );
            assert_eq!(energy_needed, 0, "energy_needed should be 0 for zero rate");
        }
        CalculatorResult::Error { message, .. } => panic!("Expected empty success, got error: {message}"),
    }
}

#[test]
fn calculator_accounts_for_high_quality_resource_in_volcanic_biome() {
    let query = iron_bar_query(per_min(2), 1, Biome::Volcanic);
    let result = run_calculator(&query);

    match result {
        CalculatorResult::Success { buildings_needed, notes, .. } => {
            assert_eq!(buildings_needed.get(BuildingType::IronMiner).unwrap_or(0), 4, "iron_miner count should be 4 even in volcanic");
            assert_eq!(buildings_needed.get(BuildingType::IronSmelter).unwrap_or(0), 2, "iron_smelter count should be 2");
            let has_quality_note = notes.iter().any(|n| n.contains("HIGH quality iron_ore"));
            assert!(has_quality_note, "should have HIGH quality note for volcanic biome, notes: {:?}", notes);
        }
        CalculatorResult::Error { message, .. } => panic!("Expected success, got error: {message}"),
    }
}

#[test]
fn calculator_rejects_tier_locked_resource_request() {
    let query = CalculatorQuery {
        target_resource: ResourceType::RunicAlloy,
        target_rate_per_min: per_min(1),
        current_tier: 1,
        biome: Biome::Forest,
    };
    let result = run_calculator(&query);

    match result {
        CalculatorResult::Error { kind, message, required_tier } => {
            assert_eq!(kind, CalculatorErrorKind::TierLocked, "error kind should be TierLocked");
            assert!(message.contains("T3"), "message should mention T3, got: {message}");
            assert_eq!(required_tier, Some(3), "required_tier should be 3");
        }
        CalculatorResult::Success { .. } => panic!("Expected tier_locked error"),
    }
}

#[test]
fn calculator_rejects_resource_unavailable_in_current_biome() {
    let query = CalculatorQuery {
        target_resource: ResourceType::ObsidianShard,
        target_rate_per_min: per_min(1),
        current_tier: 2,
        biome: Biome::Forest,
    };
    let result = run_calculator(&query);

    match result {
        CalculatorResult::Error { kind, message, .. } => {
            assert_eq!(kind, CalculatorErrorKind::BiomeUnavailable, "error kind should be BiomeUnavailable");
            assert!(message.contains("obsidian_vein"), "message should mention obsidian_vein, got: {message}");
            assert!(message.contains("forest"), "message should mention forest biome, got: {message}");
        }
        CalculatorResult::Success { .. } => panic!("Expected biome_unavailable error"),
    }
}

#[test]
fn calculator_shows_normal_quality_when_biome_has_no_quality_bonus() {
    let query = iron_bar_query(per_min(2), 1, Biome::Forest);
    let result = run_calculator(&query);

    match result {
        CalculatorResult::Success { buildings_needed, notes, .. } => {
            assert_eq!(buildings_needed.get(BuildingType::IronMiner).unwrap_or(0), 4, "iron_miner count should be 4");
            assert_eq!(buildings_needed.get(BuildingType::IronSmelter).unwrap_or(0), 2, "iron_smelter count should be 2");
            let has_quality_note = notes.iter().any(|n| n.contains("quality"));
            assert!(
                !has_quality_note,
                "should not output a quality note for NORMAL quality in forest biome, notes: {:?}",
                notes
            );
        }
        CalculatorResult::Error { message, .. } => panic!("Expected success, got error: {message}"),
    }
}

#[test]
fn calculator_at_t2_can_compute_t1_and_t2_chains() {
    let iron_bar_result = run_calculator(&iron_bar_query(per_min(2), 2, Biome::Forest));
    match &iron_bar_result {
        CalculatorResult::Error { kind, .. } if *kind == CalculatorErrorKind::TierLocked => {
            panic!("Should NOT get tier_locked for iron_bar at T2");
        }
        _ => {}
    }

    let steel_result = run_calculator(&CalculatorQuery {
        target_resource: ResourceType::SteelPlate,
        target_rate_per_min: per_min(1),
        current_tier: 2,
        biome: Biome::Forest,
    });
    match &steel_result {
        CalculatorResult::Error { kind, .. } if *kind == CalculatorErrorKind::TierLocked => {
            panic!("Should NOT get tier_locked for steel_plate at T2");
        }
        _ => {}
    }
}

#[test]
fn calculator_at_t1_rejects_t2_resource_request() {
    let query = CalculatorQuery {
        target_resource: ResourceType::SteelPlate,
        target_rate_per_min: per_min(1),
        current_tier: 1,
        biome: Biome::Forest,
    };
    let result = run_calculator(&query);

    match result {
        CalculatorResult::Error { kind, required_tier, .. } => {
            assert_eq!(kind, CalculatorErrorKind::TierLocked, "should be tier_locked");
            assert_eq!(required_tier, Some(2), "required_tier should be 2");
        }
        CalculatorResult::Success { .. } => panic!("Expected tier_locked error for steel_plate at T1"),
    }
}

// ── Further cases ──────────────────────────────────────────────────────────

fn success_parts(r: CalculatorResult) -> (Vec<(BuildingType, u32)>, u64, Vec<(BuildingType, u32)>, Vec<String>) {
    match r {
        CalculatorResult::Success { buildings_needed, energy_needed, energy_buildings, notes } => {
            (buildings_needed.to_vec(), energy_needed, energy_buildings.to_vec(), notes)
        }
        CalculatorResult::Error { message, .. } => panic!("Expected success, got error: {message}"),
    }
}

fn count(v: &[(BuildingType, u32)], b: BuildingType) -> u32 {
    v.iter().find(|(k, _)| *k == b).map(|(_, n)| *n).unwrap_or(0)
}

#[test]
fn fractional_iron_rate_rounds_smelters_up() {
    // 2.5 bars a minute needs 3 smelters, 6 miners, 60 energy, 3 turbines.
    let (b, energy, e, notes) = success_parts(run_calculator(&iron_bar_query(Milli64(2500), 1, Biome::Desert)));
    assert_eq!(count(&b, BuildingType::IronSmelter), 3);
    assert_eq!(count(&b, BuildingType::IronMiner), 6);
    assert_eq!(energy, 60);
    assert_eq!(count(&e, BuildingType::WindTurbine), 3);
    assert!(notes.is_empty());
    assert_eq!(b.len(), 2);
}

#[test]
fn odd_plank_rate_rounds_sawmills_up() {
    // 3 planks a minute: ceil(3 / 2) = 2 sawmills, farms and pumps; 1.2 planks: 1 of each.
    let q = |rate: Milli64| CalculatorQuery {
        target_resource: ResourceType::Plank,
        target_rate_per_min: rate,
        current_tier: 1,
        biome: Biome::Forest,
    };
    let (b, energy, e, _) = success_parts(run_calculator(&q(per_min(3))));
    assert_eq!(count(&b, BuildingType::Sawmill), 2);
    assert_eq!(energy, 34);
    assert!(e.is_empty());
    let (b, energy, _, _) = success_parts(run_calculator(&q(Milli64(1200))));
    assert_eq!(count(&b, BuildingType::WaterPump), 1);
    assert_eq!(count(&b, BuildingType::TreeFarm), 1);
    assert_eq!(energy, 17);
}

#[test]
fn steel_chain_scales_per_forge() {
    let q = CalculatorQuery {
        target_resource: ResourceType::SteelPlate,
        target_rate_per_min: per_min(3),
        current_tier: 3,
        biome: Biome::Ocean,
    };
    let (b, energy, _, _) = success_parts(run_calculator(&q));
    assert_eq!(count(&b, BuildingType::SteelForge), 3);
    assert_eq!(count(&b, BuildingType::IronMiner), 12);
    assert_eq!(count(&b, BuildingType::CopperMiner), 6);
    assert_eq!(count(&b, BuildingType::IronSmelter), 6);
    assert_eq!(count(&b, BuildingType::CopperSmelter), 3);
    assert_eq!(energy, 204);
}

#[test]
fn leather_notes_are_both_present() {
    let q = CalculatorQuery {
        target_resource: ResourceType::TreatedLeather,
        target_rate_per_min: per_min(2),
        current_tier: 2,
        biome: Biome::Forest,
    };
    let (b, energy, _, notes) = success_parts(run_calculator(&q));
    assert_eq!(count(&b, BuildingType::Tannery), 2);
    assert_eq!(energy, 60);
    assert_eq!(
        notes,
        vec![
            "Requires combat group for organic resources (hide, herbs)".to_string(),
            "Combat group needs iron_bar + herbs as input".to_string(),
        ]
    );
}

#[test]
fn treated_leather_is_tier_locked_at_t1() {
    let q = CalculatorQuery {
        target_resource: ResourceType::TreatedLeather,
        target_rate_per_min: per_min(1),
        current_tier: 1,
        biome: Biome::Forest,
    };
    match run_calculator(&q) {
        CalculatorResult::Error { kind, message, required_tier } => {
            assert_eq!(kind, CalculatorErrorKind::TierLocked);
            assert_eq!(message, "Requires T2 — tannery not available at current tier");
            assert_eq!(required_tier, Some(2));
        }
        CalculatorResult::Success { .. } => panic!("Expected tier_locked error"),
    }
}

#[test]
fn iron_bars_are_tier_locked_at_tier_zero() {
    match run_calculator(&iron_bar_query(per_min(1), 0, Biome::Forest)) {
        CalculatorResult::Error { kind, message, required_tier } => {
            assert_eq!(kind, CalculatorErrorKind::TierLocked);
            assert_eq!(message, "Requires T1");
            assert_eq!(required_tier, Some(1));
        }
        CalculatorResult::Success { .. } => panic!("Expected tier_locked error"),
    }
}

#[test]
fn obsidian_outside_forest_has_the_short_message() {
    let q = CalculatorQuery {
        target_resource: ResourceType::ObsidianShard,
        target_rate_per_min: per_min(1),
        current_tier: 3,
        biome: Biome::Volcanic,
    };
    match run_calculator(&q) {
        CalculatorResult::Error { kind, message, required_tier } => {
            assert_eq!(kind, CalculatorErrorKind::BiomeUnavailable);
            assert_eq!(message, "obsidian_shard requires obsidian_vein terrain");
            assert_eq!(required_tier, None);
        }
        CalculatorResult::Success { .. } => panic!("Expected biome_unavailable error"),
    }
}

#[test]
fn unknown_resource_is_named_in_the_error() {
    let q = CalculatorQuery {
        target_resource: ResourceType::ManaCrystal,
        target_rate_per_min: per_min(1),
        current_tier: 3,
        biome: Biome::Forest,
    };
    match run_calculator(&q) {
        CalculatorResult::Error { kind, message, required_tier } => {
            assert_eq!(kind, CalculatorErrorKind::UnknownResource);
            assert_eq!(message, "No recipe known for ManaCrystal");
            assert_eq!(required_tier, None);
        }
        CalculatorResult::Success { .. } => panic!("Expected unknown_resource error"),
    }
    assert_eq!(ResourceType::ItemOpusForge.name(), format!("{:?}", ResourceType::ItemOpusForge));
}

#[test]
fn zero_rate_is_planned_empty_even_for_refused_items() {
    let q = CalculatorQuery {
        target_resource: ResourceType::RunicAlloy,
        target_rate_per_min: Milli64(0),
        current_tier: 1,
        biome: Biome::Forest,
    };
    let (b, energy, e, notes) = success_parts(run_calculator(&q));
    assert!(b.is_empty() && e.is_empty() && notes.is_empty());
    assert_eq!(energy, 0);
}

#[test]
fn plan_energy_equals_consumption_of_planned_buildings() {
    for (resource, tier) in [(ResourceType::IronBar, 1), (ResourceType::Plank, 1), (ResourceType::TreatedLeather, 2)] {
        let q = CalculatorQuery { target_resource: resource, target_rate_per_min: Milli64(3700), current_tier: tier, biome: Biome::Forest };
        let (b, energy, _, _) = success_parts(run_calculator(&q));
        let total: u64 = b.iter().map(|(k, n)| *n as u64 * k.energy_consumption() as u64).sum();
        assert_eq!(total, energy, "{resource:?}");
    }
}

#[test]
fn higher_rate_never_needs_fewer_buildings() {
    let low = success_parts(run_calculator(&iron_bar_query(Milli64(1500), 1, Biome::Forest)));
    let high = success_parts(run_calculator(&iron_bar_query(Milli64(4100), 1, Biome::Forest)));
    for (k, n) in &low.0 {
        assert!(count(&high.0, *k) >= *n);
    }
    assert!(high.1 >= low.1);
}

#[test]
fn raising_the_tier_keeps_the_plan() {
    let at1 = success_parts(run_calculator(&iron_bar_query(per_min(2), 1, Biome::Forest)));
    let at3 = success_parts(run_calculator(&iron_bar_query(per_min(2), 3, Biome::Forest)));
    assert_eq!(at1.0, at3.0);
    assert_eq!(at1.1, at3.1);
    assert_eq!(at1.2, at3.2);
}

#[test]
fn huge_rates_hold_counts_at_the_u32_limit() {
    // Ten billion planks a minute: the sawmill count is held at u32::MAX.
    let q = CalculatorQuery {
        target_resource: ResourceType::Plank,
        target_rate_per_min: per_min(10_000_000_000),
        current_tier: 1,
        biome: Biome::Forest,
    };
    let (b, energy, _, _) = success_parts(run_calculator(&q));
    assert_eq!(count(&b, BuildingType::Sawmill), u32::MAX);
    assert_eq!(energy, 17 * u32::MAX as u64);
    // Five million iron bars a minute is beyond the old u32-thousandths range
    // and still planned exactly.
    let (b, energy, e, _) = success_parts(run_calculator(&iron_bar_query(per_min(5_000_000), 1, Biome::Forest)));
    assert_eq!(count(&b, BuildingType::IronSmelter), 5_000_000);
    assert_eq!(count(&b, BuildingType::IronMiner), 10_000_000);
    assert_eq!(energy, 100_000_000);
    assert_eq!(count(&e, BuildingType::WindTurbine), 5_000_000);
}
