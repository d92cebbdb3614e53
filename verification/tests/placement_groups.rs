use spike::building::{BuildingType, GroupClass, TerrainType};
use spike::footprint::{footprint_cells, Footprint};
use spike::grid::{FogMap, Grid, Inventory, TierState};
use spike::groups::{determine_group_class, form_groups, BuildingCells};
use spike::placement::{place_legacy, run_placement, PlacedBuilding, PlacementCommands, PlacementRequest};

/// Stands in for a building's production recipe, which placement carries through unchanged.
#[derive(Clone, Copy, Debug, PartialEq)]
struct Recipe(&'static str);

fn miner_recipe() -> Recipe {
    Recipe("iron_ore x1")
}

fn cells_of(placed: &[PlacedBuilding<Recipe>]) -> Vec<BuildingCells> {
    placed
        .iter()
        .map(|p| BuildingCells { building_type: p.building_type, cells: p.footprint.cells.clone() })
        .collect()
}

#[test]
fn test_three_adjacent_form_one_group() {
    let mut grid = Grid::new(16, 10);
    let mut cmds: PlacementCommands<Recipe> = PlacementCommands::new();
    cmds.queue.push((BuildingType::Miner, 0, 0, miner_recipe()));
    cmds.queue.push((BuildingType::Miner, 1, 0, miner_recipe()));
    cmds.queue.push((BuildingType::Miner, 2, 0, miner_recipe()));

    let placed = run_placement(&mut grid, &mut cmds, None, None, None);
    let groups = form_groups(&cells_of(&placed));
    let group_ids = groups.labels.clone();

    assert_eq!(group_ids.len(), 3, "all 3 buildings should have GroupMember");
    assert!(group_ids.iter().all(|&id| id == group_ids[0]), "all 3 should share the same group_id");
}

#[test]
fn test_remove_middle_splits_group() {
    let mut grid = Grid::new(16, 10);
    let mut cmds: PlacementCommands<Recipe> = PlacementCommands::new();
    cmds.queue.push((BuildingType::Miner, 0, 0, miner_recipe()));
    cmds.queue.push((BuildingType::Miner, 1, 0, miner_recipe()));
    cmds.queue.push((BuildingType::Miner, 2, 0, miner_recipe()));
    let placed = run_placement(&mut grid, &mut cmds, None, None, None);

    // Remove the middle building (at 1,0): free its cell and regroup the rest.
    let middle = placed.iter().position(|p| p.x == 1 && p.y == 0).expect("middle building should exist");
    grid.occupied.remove(1, 0);
    let remaining: Vec<PlacedBuilding<Recipe>> =
        placed.into_iter().enumerate().filter(|(i, _)| *i != middle).map(|(_, p)| p).collect();
    let groups = form_groups(&cells_of(&remaining));

    let labelled: Vec<(i32, usize)> = remaining.iter().zip(groups.labels.iter()).map(|(p, g)| (p.x, *g)).collect();
    assert_eq!(labelled.len(), 2, "should have 2 remaining buildings");
    let g0 = labelled.iter().find(|(x, _)| *x == 0).unwrap().1;
    let g2 = labelled.iter().find(|(x, _)| *x == 2).unwrap().1;
    assert_ne!(g0, g2, "buildings at (0,0) and (2,0) should be in different groups");
    assert!(!grid.occupied.contains(1, 0));
}

// ── Placement ──────────────────────────────────────────────────────────────

#[test]
fn legacy_queue_skips_occupied_and_out_of_bounds_cells() {
    let mut grid = Grid::new(4, 4);
    let mut cmds: PlacementCommands<Recipe> = PlacementCommands::new();
    cmds.queue.push((BuildingType::Miner, 0, 0, miner_recipe()));
    cmds.queue.push((BuildingType::Smelter, 0, 0, miner_recipe())); // occupied
    cmds.queue.push((BuildingType::Miner, 4, 0, miner_recipe())); // out of bounds
    cmds.queue.push((BuildingType::TreeFarm, 3, 3, miner_recipe())); // 2x2 would leave the grid
    cmds.queue.push((BuildingType::TreeFarm, 1, 1, miner_recipe()));
    let placed = run_placement(&mut grid, &mut cmds, None, None, None);
    let at: Vec<(BuildingType, i32, i32)> = placed.iter().map(|p| (p.building_type, p.x, p.y)).collect();
    assert_eq!(at, vec![(BuildingType::Miner, 0, 0), (BuildingType::TreeFarm, 1, 1)]);
    assert!(cmds.queue.is_empty());
    for (x, y) in [(0, 0), (1, 1), (2, 1), (1, 2), (2, 2)] {
        assert!(grid.occupied.contains(x, y), "({x},{y}) should be occupied");
    }
    assert!(!grid.occupied.contains(3, 3));
    assert_eq!(placed[1].footprint.cells, vec![(1, 1), (2, 1), (1, 2), (2, 2)]);
    assert_eq!(placed[1].recipe, miner_recipe());
}

#[test]
fn checked_request_needs_terrain_tier_inventory_and_fog() {
    let mut grid = Grid::new(8, 8);
    grid.terrain.insert(2, 2, TerrainType::IronVein);
    let mut fog = FogMap::new();
    fog.reveal_cell(2, 2);
    fog.reveal_cell(5, 5);
    let mut inventory = Inventory::new();
    inventory.add_building(BuildingType::IronMiner, 1);
    inventory.add_building(BuildingType::SteelForge, 1);
    let tier = TierState::default();

    let mut cmds: PlacementCommands<Recipe> = PlacementCommands::new();
    cmds.requests.push(PlacementRequest::new(BuildingType::IronMiner, 3, 3, miner_recipe())); // wrong terrain
    cmds.requests.push(PlacementRequest::new(BuildingType::IronMiner, 2, 2, miner_recipe())); // placed
    cmds.requests.push(PlacementRequest::new(BuildingType::SteelForge, 5, 5, miner_recipe())); // tier 2 at tier 1
    cmds.requests.push(PlacementRequest::new(BuildingType::Smelter, 5, 5, miner_recipe())); // none in inventory
    cmds.requests.push(PlacementRequest::new(BuildingType::IronMiner, 2, 2, miner_recipe())); // occupied, none left
    let mut unseen = PlacementRequest::new(BuildingType::Smelter, 6, 6, miner_recipe());
    unseen.skip_inventory_check = true; // passes inventory, fails fog
    cmds.requests.push(unseen);
    let mut free = PlacementRequest::new(BuildingType::Smelter, 6, 6, miner_recipe());
    free.skip_inventory_check = true;
    free.skip_fog_check = true;
    cmds.requests.push(free);

    let placed = run_placement(&mut grid, &mut cmds, Some(&tier), Some(&fog), Some(&mut inventory));
    assert_eq!(cmds.last_results, vec![false, true, false, false, false, false, true]);
    assert_eq!(placed.len(), 2);
    assert_eq!(inventory.count_building(BuildingType::IronMiner), 0);
    assert_eq!(inventory.count_building(BuildingType::SteelForge), 1);
    assert!(cmds.requests.is_empty());
}

#[test]
fn tier_two_allows_steel_forge_with_two_cell_footprint() {
    let mut grid = Grid::new(8, 8);
    let tier = TierState { current_tier: 2 };
    let mut cmds: PlacementCommands<Recipe> = PlacementCommands::new();
    cmds.requests.push(PlacementRequest::legacy(BuildingType::SteelForge, 6, 0, miner_recipe()));
    cmds.requests.push(PlacementRequest::legacy(BuildingType::SteelForge, 7, 0, miner_recipe())); // second cell off grid
    let placed = run_placement(&mut grid, &mut cmds, Some(&tier), None, None);
    assert_eq!(cmds.last_results, vec![true, false]);
    assert_eq!(placed[0].footprint.cells, vec![(6, 0), (7, 0)]);
}

#[test]
fn place_legacy_returns_footprint() {
    let mut grid = Grid::new(5, 5);
    let f = place_legacy(&mut grid, BuildingType::OpusForge, 1, 1).expect("fits");
    assert_eq!(f.cells.len(), 9);
    assert!(place_legacy(&mut grid, BuildingType::Miner, 3, 3).is_none());
    assert!(place_legacy(&mut grid, BuildingType::Miner, 4, 4).is_some());
}

#[test]
fn footprints_are_row_major_rectangles() {
    assert_eq!(footprint_cells(1, 2, 2, 2), vec![(1, 2), (2, 2), (1, 3), (2, 3)]);
    assert_eq!(Footprint::single(3, 4).cells, vec![(3, 4)]);
    assert_eq!(Footprint::rect(0, 0, 3, 1).cells, vec![(0, 0), (1, 0), (2, 0)]);
    assert!(footprint_cells(0, 0, 0, 5).is_empty());
}

// ── Groups ─────────────────────────────────────────────────────────────────

fn b(bt: BuildingType, cells: &[(i32, i32)]) -> BuildingCells {
    BuildingCells { building_type: bt, cells: cells.to_vec() }
}

#[test]
fn diagonal_neighbours_are_separate_groups() {
    let f = form_groups(&vec![b(BuildingType::Miner, &[(0, 0)]), b(BuildingType::Miner, &[(1, 1)])]);
    assert_ne!(f.labels[0], f.labels[1]);
    assert_eq!(f.groups.len(), 2);
}

#[test]
fn large_footprints_connect_through_any_side() {
    // A 2x2 tree farm touching a miner on its right edge and a turbine below.
    let f = form_groups(&vec![
        b(BuildingType::WindTurbine, &[(0, 2)]),
        b(BuildingType::TreeFarm, &[(0, 0), (1, 0), (0, 1), (1, 1)]),
        b(BuildingType::IronMiner, &[(2, 1)]),
        b(BuildingType::Watchtower, &[(5, 5)]),
    ]);
    assert_eq!(f.labels, vec![0, 0, 0, 1]);
    assert_eq!(f.groups.len(), 2);
    assert_eq!(f.groups[0].members, vec![0, 1, 2]);
    assert_eq!(f.groups[0].class, GroupClass::Extraction);
    assert_eq!(f.groups[1].members, vec![3]);
    assert_eq!(f.groups[1].class, GroupClass::Utility);
}

#[test]
fn group_class_priority_order() {
    assert_eq!(determine_group_class(&vec![BuildingType::IronMiner, BuildingType::ImpCamp]), GroupClass::Combat);
    assert_eq!(determine_group_class(&vec![BuildingType::IronSmelter, BuildingType::Assembler]), GroupClass::Mall);
    assert_eq!(determine_group_class(&vec![BuildingType::IronSmelter, BuildingType::IronMiner]), GroupClass::Extraction);
    assert_eq!(determine_group_class(&vec![BuildingType::WindTurbine, BuildingType::Sawmill]), GroupClass::Synthesis);
    assert_eq!(determine_group_class(&vec![BuildingType::WindTurbine, BuildingType::Trader]), GroupClass::Energy);
    assert_eq!(determine_group_class(&vec![BuildingType::OpusForge, BuildingType::Trader]), GroupClass::Opus);
    assert_eq!(determine_group_class(&vec![BuildingType::SacrificeAltar]), GroupClass::Utility);
    assert_eq!(determine_group_class(&vec![]), GroupClass::Synthesis);
}

#[test]
fn empty_building_list_has_no_groups() {
    let f = form_groups(&vec![]);
    assert!(f.labels.is_empty());
    assert!(f.groups.is_empty());
}

#[test]
fn touching_buildings_always_share_a_group() {
    // A snake of single cells: every one touches the next, so one group.
    let snake: Vec<BuildingCells> =
        [(0, 0), (0, 1), (1, 1), (2, 1), (2, 0), (3, 0)].iter().map(|c| b(BuildingType::Sawmill, &[*c])).collect();
    let f = form_groups(&snake);
    assert!(f.labels.iter().all(|l| *l == 0));
    assert_eq!(f.groups.len(), 1);
    assert_eq!(f.groups[0].members.len(), 6);
}

#[test]
fn groups_are_the_touching_clusters() {
    // Two clusters joined only diagonally stay apart; a chain links distant buildings.
    let f = form_groups(&vec![
        b(BuildingType::Miner, &[(0, 0)]),
        b(BuildingType::Miner, &[(5, 5)]),
        b(BuildingType::Miner, &[(1, 0)]),
        b(BuildingType::Miner, &[(2, 1)]),
        b(BuildingType::Miner, &[(2, 0)]),
        b(BuildingType::Miner, &[(6, 5)]),
    ]);
    assert_eq!(f.labels, vec![0, 1, 0, 0, 0, 1]);
    assert_eq!(f.groups.len(), 2);
    for (g, grp) in f.groups.iter().enumerate() {
        for (i, l) in f.labels.iter().enumerate() {
            assert_eq!(grp.members.contains(&i), *l == g);
        }
    }
}
