//! World-state resources of the placement simulation: the grid, the
//! building inventory, tiers and fog of war.
use crate::building::{BuildingType, TerrainType};
use crate::cells::{CellMap, CellSet};
use crate::counts::{count_in, BuildingCounts};
use vstd::prelude::*;

verus! {

/// The placement grid.
pub struct Grid {
    pub width: i32,
    pub height: i32,
    /// Cells currently occupied (one entry per cell, even for multi-cell footprints).
    pub occupied: CellSet,
    /// Terrain at each cell; a cell that is absent is grass.
    pub terrain: CellMap<TerrainType>,
}

/// Whether `(x, y)` lies inside a `width` by `height` grid.
pub open spec fn in_bounds_spec(width: i32, height: i32, x: i32, y: i32) -> bool {
    0 <= x < width && 0 <= y < height
}

/// The terrain recorded for a cell, grass when none is recorded.
pub open spec fn terrain_at_spec(terrain: Map<(i32, i32), TerrainType>, x: i32, y: i32) -> TerrainType {
    if terrain.contains_key((x, y)) { terrain[(x, y)] } else { TerrainType::Grass }
}

impl Grid {
    /// An empty grass grid of the given size.
    pub fn new(width: i32, height: i32) -> (g: Grid)
        ensures
            g.width == width,
            g.height == height,
            g.occupied@ == Set::<(i32, i32)>::empty(),
            g.terrain@ == Map::<(i32, i32), TerrainType>::empty(),
    {
        Grid { width, height, occupied: CellSet::new(), terrain: CellMap::new() }
    }

    /// The terrain at `(x, y)`, grass when none is recorded.
    pub fn terrain_at(&self, x: i32, y: i32) -> (t: TerrainType)
        ensures
            t == terrain_at_spec(self.terrain@, x, y),
    {
        match self.terrain.get(x, y) {
            Some(t) => t,
            None => TerrainType::default(),
        }
    }

    /// True if `(x, y)` is inside the grid bounds.
    pub fn in_bounds(&self, x: i32, y: i32) -> (b: bool)
        ensures
            b == in_bounds_spec(self.width, self.height, x, y),
    {
        x >= 0 && x < self.width && y >= 0 && y < self.height
    }
}

/// The player's building inventory: how many of each kind can still be placed.
pub struct Inventory {
    pub buildings: BuildingCounts,
}

impl Inventory {
    /// An inventory holding nothing.
    pub fn new() -> (inv: Inventory)
        ensures
            inv.buildings@ == Map::<BuildingType, u32>::empty(),
    {
        Inventory { buildings: BuildingCounts::new() }
    }

    /// Adds `count` buildings of kind `bt`.
    pub fn add_building(&mut self, bt: BuildingType, count: u32)
        requires
            count_in(old(self).buildings@, bt) + count <= u32::MAX,
        ensures
            final(self).buildings@ == old(self).buildings@.insert(
                bt,
                (count_in(old(self).buildings@, bt) + count) as u32,
            ),
    {
        let have = self.count_building(bt);
        self.buildings.set(bt, have + count);
    }

    /// How many buildings of kind `bt` are available.
    pub fn count_building(&self, bt: BuildingType) -> (n: u32)
        ensures
            n == count_in(self.buildings@, bt),
    {
        match self.buildings.get(bt) {
            Some(n) => n,
            None => 0,
        }
    }

    /// Takes one building of kind `bt`; false when none is available.  The
    /// kind is recorded (with count zero) even when nothing could be taken.
    pub fn consume_building(&mut self, bt: BuildingType) -> (ok: bool)
        ensures
            ok == (count_in(old(self).buildings@, bt) > 0),
            final(self).buildings@ == old(self).buildings@.insert(
                bt,
                if ok { (count_in(old(self).buildings@, bt) - 1) as u32 } else { 0 },
            ),
    {
        let have = self.count_building(bt);
        if have > 0 {
            self.buildings.set(bt, have - 1);
            true
        } else {
            self.buildings.set(bt, 0);
            false
        }
    }
}

/// Adding `n > 0` buildings of a kind makes one of them available to take,
/// and taking it leaves `n - 1` more than before.
pub proof fn lemma_add_then_consume(m: Map<BuildingType, u32>, bt: BuildingType, n: u32)
    requires
        n > 0,
        count_in(m, bt) + n <= u32::MAX,
    ensures
        ({
            let added = m.insert(bt, (count_in(m, bt) + n) as u32);
            &&& count_in(added, bt) > 0
            &&& count_in(added.insert(bt, (count_in(added, bt) - 1) as u32), bt) == count_in(m, bt)
                + n - 1
        }),
{
}

/// The current progression tier (1, 2 or 3), as used by placement.
pub struct TierState {
    pub current_tier: u8,
}

impl Default for TierState {
    fn default() -> (t: Self)
        ensures
            t.current_tier == 1,
    {
        TierState { current_tier: 1 }
    }
}

/// Fog of war: the set of revealed cells.
pub struct FogMap {
    pub revealed: CellSet,
}

/// The cells of the `width` by `height` rectangle at the origin.
pub open spec fn grid_rect(width: i32, height: i32) -> Set<(i32, i32)> {
    Set::new(|c: (i32, i32)| 0 <= c.0 < width && 0 <= c.1 < height)
}

impl FogMap {
    /// A map with nothing revealed.
    pub fn new() -> (f: FogMap)
        ensures
            f.revealed@ == Set::<(i32, i32)>::empty(),
    {
        FogMap { revealed: CellSet::new() }
    }

    /// True if the cell has been revealed.
    pub fn is_visible(&self, x: i32, y: i32) -> (b: bool)
        ensures
            b == self.revealed@.contains((x, y)),
    {
        self.revealed.contains(x, y)
    }

    /// Reveals one cell.
    pub fn reveal_cell(&mut self, x: i32, y: i32)
        ensures
            final(self).revealed@ == old(self).revealed@.insert((x, y)),
    {
        self.revealed.insert(x, y);
    }

    /// Reveals every cell of the `width` by `height` rectangle at the origin.
    pub fn reveal_all(&mut self, width: i32, height: i32)
        ensures
            final(self).revealed@ == old(self).revealed@.union(grid_rect(width, height)),
    {
        let ghost start = self.revealed@;
        let mut y: i32 = 0;
        while y < height
            invariant
                0 <= y,
                y <= height || y == 0,
                self.revealed@ == start.union(grid_rect(width, y)),
            decreases height - y,
        {
            let mut x: i32 = 0;
            while x < width
                invariant
                    0 <= x,
                    x <= width || x == 0,
                    0 <= y < height,
                    self.revealed@ == start.union(grid_rect(width, y)).union(
                        Set::new(|c: (i32, i32)| 0 <= c.0 < x && c.1 == y),
                    ),
                decreases width - x,
            {
                self.revealed.insert(x, y);
                x = x + 1;
                assert(self.revealed@ =~= start.union(grid_rect(width, y)).union(
                    Set::new(|c: (i32, i32)| 0 <= c.0 < x && c.1 == y),
                ));
            }
            let ghost row = Set::new(|c: (i32, i32)| 0 <= c.0 < x && c.1 == y);
            assert(self.revealed@ == start.union(grid_rect(width, y)).union(row));
            assert forall|c: (i32, i32)| #[trigger] self.revealed@.contains(c) <==> start.union(
                grid_rect(width, (y + 1) as i32),
            ).contains(c) by {
                assert(row.contains(c) <==> (0 <= c.0 < x && c.1 == y));
                assert(grid_rect(width, y).contains(c) <==> (0 <= c.0 < width && 0 <= c.1 < y));
                assert(grid_rect(width, (y + 1) as i32).contains(c) <==> (0 <= c.0 < width && 0
                    <= c.1 < y + 1));
            }
            y = y + 1;
            assert(self.revealed@ =~= start.union(grid_rect(width, y)));
        }
        assert forall|c: (i32, i32)| #[trigger] self.revealed@.contains(c) <==> start.union(
            grid_rect(width, height),
        ).contains(c) by {
            assert(grid_rect(width, y).contains(c) <==> (0 <= c.0 < width && 0 <= c.1 < y));
            assert(grid_rect(width, height).contains(c) <==> (0 <= c.0 < width && 0 <= c.1
                < height));
        }
        assert(self.revealed@ =~= start.union(grid_rect(width, height)));
    }
}

/// Once revealed, a cell stays revealed by any later reveal.
pub proof fn lemma_reveal_monotone(s: Set<(i32, i32)>, c: (i32, i32), x: i32, y: i32, w: i32, h: i32)
    requires
        s.contains(c),
    ensures
        s.insert((x, y)).contains(c),
        s.union(grid_rect(w, h)).contains(c),
{
}

/// The biome of the current run.
#[derive(Clone, Copy, Debug, PartialEq, Eq, Hash, Structural)]
pub enum Biome {
    Forest,
    Desert,
    Volcanic,
    Ocean,
}

impl Default for Biome {
    fn default() -> (b: Self)
        ensures
            b == Biome::Forest,
    {
        Biome::Forest
    }
}

/// The current game tier (1, 2 or 3); controls which buildings can be placed.
pub struct CurrentTier {
    pub tier: u32,
}

impl Default for CurrentTier {
    fn default() -> (t: Self)
        ensures
            t.tier == 1,
    {
        CurrentTier { tier: 1 }
    }
}

} // verus!
