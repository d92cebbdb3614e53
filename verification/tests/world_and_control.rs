use spike::building::{BuildingType, ResourceClass, ResourceType, TerrainType};
use spike::control::{GroupControl, GroupPriority, GroupStatus};
use spike::fixed::Milli;
use spike::grid::{Biome, CurrentTier, FogMap, Grid, Inventory, TierState};
use spike::meta::OpusDifficulty;
use spike::run::RunConfig;
use spike::transport::TierStats;
use spike::world::{
    ActiveBiome, BiomeId, BiomeQualityMap, CurrentTierWorld, ResourceQuality, TerrainTypeWorld, Tier, TileVisibility,
};

#[test]
fn pause_then_resume_in_one_tick_leaves_group_active() {
    let mut ctrl = GroupControl::default();
    assert_eq!(ctrl.status, GroupStatus::Active);
    assert_eq!(ctrl.priority, GroupPriority::Medium);
    ctrl.apply_pause_resume(true, false);
    assert_eq!(ctrl.status, GroupStatus::Paused);
    ctrl.apply_pause_resume(false, false);
    assert_eq!(ctrl.status, GroupStatus::Paused);
    ctrl.apply_pause_resume(true, true);
    assert_eq!(ctrl.status, GroupStatus::Active);
    assert_eq!(ctrl.priority, GroupPriority::Medium);
}

#[test]
fn last_priority_command_wins() {
    let mut ctrl = GroupControl { priority: GroupPriority::Low, status: GroupStatus::Paused };
    ctrl.apply_priority_commands(&vec![GroupPriority::High, GroupPriority::Medium]);
    assert_eq!(ctrl.priority, GroupPriority::Medium);
    assert_eq!(ctrl.status, GroupStatus::Paused);
    ctrl.apply_priority_commands(&vec![]);
    assert_eq!(ctrl.priority, GroupPriority::Medium);
}

#[test]
fn world_terrain_buildability() {
    assert!(TerrainTypeWorld::default().is_buildable());
    assert!(!TerrainTypeWorld::Impassable.is_buildable());
    assert!(!TerrainTypeWorld::ShallowWater.is_buildable());
    assert!(TerrainTypeWorld::CoralReef.is_buildable());
    assert!(TerrainTypeWorld::LavaSource.is_buildable());
}

#[test]
fn world_defaults() {
    assert_eq!(TileVisibility::default(), TileVisibility::Hidden);
    assert_eq!(BiomeId::default(), BiomeId::Forest);
    assert_eq!(ResourceQuality::default(), ResourceQuality::Normal);
    assert_eq!(Tier::default(), Tier::T1);
    assert_eq!(ActiveBiome::default().id, BiomeId::Forest);
    assert_eq!(CurrentTierWorld::default().tier, Tier::T1);
}

#[test]
fn biome_quality_lookup_distinguishes_unknown_and_unavailable() {
    let mut q = BiomeQualityMap::default();
    assert_eq!(q.quality("iron_ore"), None);
    q.set("iron_ore", Some(ResourceQuality::High));
    q.set("obsidian_shard", None);
    assert_eq!(q.quality("iron_ore"), Some(Some(ResourceQuality::High)));
    assert_eq!(q.quality("obsidian_shard"), Some(None));
    assert_eq!(q.quality("wood"), None);
    q.set("iron_ore", Some(ResourceQuality::Low));
    assert_eq!(q.quality("iron_ore"), Some(Some(ResourceQuality::Low)));
}

#[test]
fn transport_tier_stats() {
    assert_eq!(TierStats::for_path(1), TierStats { capacity: 2, speed: Milli(1000) });
    assert_eq!(TierStats::for_path(2), TierStats { capacity: 5, speed: Milli(2000) });
    assert_eq!(TierStats::for_path(3), TierStats { capacity: 10, speed: Milli(3000) });
    assert_eq!(TierStats::for_path(9), TierStats::for_path(3));
    assert_eq!(TierStats::for_pipe(1), TierStats { capacity: 3, speed: Milli(1500) });
    assert_eq!(TierStats::for_pipe(2), TierStats { capacity: 8, speed: Milli(3000) });
    assert_eq!(TierStats::for_pipe(3), TierStats { capacity: 15, speed: Milli(4500) });
    assert_eq!(TierStats::for_pipe(0), TierStats::for_pipe(3));
    for t in 1..=3u8 {
        assert!(TierStats::for_pipe(t).capacity > TierStats::for_path(t).capacity);
    }
}

#[test]
fn run_config_defaults() {
    let c = RunConfig::default();
    assert_eq!(c.biome, Biome::Forest);
    assert_eq!(c.template_id, "standard");
    assert_eq!(c.difficulty, OpusDifficulty::Medium);
    assert_eq!(c.current_tick, 0);
    assert_eq!(c.max_ticks, 108000);
    assert_eq!(c.tps, 20);
    assert_eq!(c.sustain_window_ticks, 600);
    assert_eq!(c.sample_interval_ticks, 20);
    assert!(!c.abandoned);
}

#[test]
fn fog_reveal_all_covers_the_grid_only() {
    let mut fog = FogMap::new();
    assert!(!fog.is_visible(0, 0));
    fog.reveal_cell(-3, 7);
    fog.reveal_all(3, 2);
    for x in 0..3 {
        for y in 0..2 {
            assert!(fog.is_visible(x, y));
        }
    }
    assert!(!fog.is_visible(3, 0));
    assert!(!fog.is_visible(0, 2));
    assert!(fog.is_visible(-3, 7));
}

#[test]
fn inventory_add_and_consume() {
    let mut inv = Inventory::new();
    assert_eq!(inv.count_building(BuildingType::Sawmill), 0);
    assert!(!inv.consume_building(BuildingType::Sawmill));
    inv.add_building(BuildingType::Sawmill, 2);
    inv.add_building(BuildingType::Sawmill, 1);
    assert_eq!(inv.count_building(BuildingType::Sawmill), 3);
    assert!(inv.consume_building(BuildingType::Sawmill));
    assert_eq!(inv.count_building(BuildingType::Sawmill), 2);
}

#[test]
fn grid_terrain_and_bounds() {
    let mut g = Grid::new(3, 2);
    assert_eq!(g.terrain_at(1, 1), TerrainType::Grass);
    g.terrain.insert(1, 1, TerrainType::WaterSource);
    assert_eq!(g.terrain_at(1, 1), TerrainType::WaterSource);
    assert!(g.in_bounds(2, 1));
    assert!(!g.in_bounds(3, 1));
    assert!(!g.in_bounds(0, -1));
    assert_eq!(TierState::default().current_tier, 1);
    assert_eq!(CurrentTier::default().tier, 1);
    assert_eq!(Biome::default(), Biome::Forest);
}

#[test]
fn building_tables() {
    assert_eq!(BuildingType::IronMiner.terrain_req(), Some(TerrainType::IronVein));
    assert_eq!(BuildingType::Sawmill.terrain_req(), None);
    assert_eq!(BuildingType::RunicForge.tier(), 3);
    assert_eq!(BuildingType::Tannery.tier(), 2);
    assert_eq!(BuildingType::OpusForge.footprint(), (3, 3));
    assert_eq!(BuildingType::SteelForge.footprint(), (2, 1));
    assert_eq!(BuildingType::SteelForge.energy_consumption(), 18);
    assert_eq!(BuildingType::ManaReactor.energy_generation(), 80);
    assert_eq!(BuildingType::IronMiner.energy_generation(), 0);
    assert!(BuildingType::Assembler.is_mall());
    assert!(!BuildingType::Sawmill.is_mall());
    assert_eq!(ResourceType::Lava.class(), ResourceClass::Liquid);
    assert_eq!(ResourceType::Plank.class(), ResourceClass::Solid);
    // Generators are energy-class buildings that draw no energy themselves.
    for b in [BuildingType::WindTurbine, BuildingType::WaterWheel, BuildingType::LavaGenerator, BuildingType::ManaReactor] {
        assert!(b.energy_generation() > 0);
        assert_eq!(b.energy_consumption(), 0);
        assert_eq!(b.group_class(), spike::building::GroupClass::Energy);
    }
}

use spike::world::{WorldMap, WorldTileData};
use std::hash::{Hash, Hasher};

fn tile(t: TerrainTypeWorld) -> WorldTileData {
    WorldTileData { terrain: t, remaining: None, visibility: TileVisibility::Hidden }
}

#[test]
fn world_map_counts_terrain() {
    let mut m = WorldMap::new(4, 4, BiomeId::Volcanic, 7);
    assert_eq!(m.tiles.len(), 0);
    m.tiles.insert(0, 0, tile(TerrainTypeWorld::LavaSource));
    m.tiles.insert(1, 0, tile(TerrainTypeWorld::ScorchedRock));
    m.tiles.insert(2, 0, tile(TerrainTypeWorld::LavaSource));
    m.tiles.insert(1, 0, tile(TerrainTypeWorld::LavaSource)); // replaces
    assert_eq!(m.tiles.len(), 3);
    assert_eq!(m.count_terrain(TerrainTypeWorld::LavaSource), 3);
    assert_eq!(m.count_terrain(TerrainTypeWorld::ScorchedRock), 0);
    assert_eq!(m.tiles.get(1, 0).map(|d| d.terrain), Some(TerrainTypeWorld::LavaSource));
    assert_eq!(m.tiles.get(3, 3), None);
}

#[test]
fn terrain_hash_ignores_insertion_order_and_matches_sorted_pairs() {
    let mut a = WorldMap::new(3, 3, BiomeId::Forest, 1);
    a.tiles.insert(2, 1, tile(TerrainTypeWorld::IronVein));
    a.tiles.insert(0, 2, tile(TerrainTypeWorld::Grass));
    a.tiles.insert(0, 1, tile(TerrainTypeWorld::Ice));
    let mut b = WorldMap::new(3, 3, BiomeId::Forest, 99);
    b.tiles.insert(0, 1, tile(TerrainTypeWorld::Ice));
    b.tiles.insert(2, 1, tile(TerrainTypeWorld::IronVein));
    b.tiles.insert(0, 2, WorldTileData { terrain: TerrainTypeWorld::Grass, remaining: Some(Milli(5000)), visibility: TileVisibility::Visible });
    assert_eq!(a.sorted_terrain_pairs(), vec![((0, 1), 18u8), ((0, 2), 0u8), ((2, 1), 4u8)]);
    assert_eq!(a.terrain_hash(), b.terrain_hash());

    let mut expected = std::collections::hash_map::DefaultHasher::new();
    vec![((0, 1), 18u8), ((0, 2), 0u8), ((2, 1), 4u8)].hash(&mut expected);
    assert_eq!(a.terrain_hash(), expected.finish());

    b.tiles.insert(2, 1, tile(TerrainTypeWorld::CopperVein));
    assert_ne!(a.terrain_hash(), b.terrain_hash());
}

#[test]
fn all_sustained_needs_a_non_empty_all_true_path() {
    assert!(!spike::run::all_sustained(&vec![]));
    assert!(spike::run::all_sustained(&vec![true, true]));
    assert!(!spike::run::all_sustained(&vec![true, false, true]));
}

#[test]
fn placement_at_the_coordinate_edge_rejects_overflowing_footprints() {
    let mut grid = Grid::new(i32::MAX, 4);
    assert!(spike::placement::place_legacy(&mut grid, BuildingType::TreeFarm, i32::MAX - 1, 0).is_none());
    assert!(spike::placement::place_legacy(&mut grid, BuildingType::Miner, i32::MAX - 1, 0).is_some());
}
