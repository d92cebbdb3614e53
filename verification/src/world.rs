//! The world map feature: terrain of world tiles, biomes, resource quality
//! per biome and the world tier.
use crate::cells::CellMap;
use crate::fixed::Milli;
use crate::store::str_eq;
use std::collections::hash_map::DefaultHasher;
use std::hash::{Hash, Hasher};
use vstd::prelude::*;
use vstd::std_specs::hash::DefaultHasherAdditionalSpecFns;

verus! {

/// Terrain of a world tile, across all biomes.
#[derive(Clone, Copy, Debug, PartialEq, Eq, Hash, Structural)]
pub enum TerrainTypeWorld {
    Grass,
    DenseForest,
    WaterSource,
    StoneDeposit,
    IronVein,
    CopperVein,
    ManaNode,
    Impassable,
    ScorchedRock,
    LavaSource,
    ObsidianVein,
    Sand,
    Dune,
    Oasis,
    ShallowWater,
    CoralReef,
    DrySoil,
    WetSoil,
    Ice,
}

impl Default for TerrainTypeWorld {
    fn default() -> (t: Self)
        ensures
            t == TerrainTypeWorld::Grass,
    {
        TerrainTypeWorld::Grass
    }
}

/// Whether buildings may stand on the terrain: all but impassable ground and
/// shallow water.
pub open spec fn is_buildable_spec(t: TerrainTypeWorld) -> bool {
    !(t is Impassable || t is ShallowWater)
}

impl TerrainTypeWorld {
    /// Whether buildings may stand on this terrain.
    pub fn is_buildable(&self) -> (b: bool)
        ensures
            b == is_buildable_spec(*self),
    {
        match self {
            TerrainTypeWorld::Impassable | TerrainTypeWorld::ShallowWater => false,
            _ => true,
        }
    }
}

/// How much of a world tile the player can see.
#[derive(Clone, Copy, Debug, PartialEq, Eq, Hash, Structural)]
pub enum TileVisibility {
    Hidden,
    Revealed,
    Visible,
}

impl Default for TileVisibility {
    fn default() -> (v: Self)
        ensures
            v == TileVisibility::Hidden,
    {
        TileVisibility::Hidden
    }
}

/// The biomes a world can be generated in.
#[derive(Clone, Copy, Debug, PartialEq, Eq, Hash, Structural)]
pub enum BiomeId {
    Forest,
    Volcanic,
    Desert,
    Ocean,
}

impl Default for BiomeId {
    fn default() -> (b: Self)
        ensures
            b == BiomeId::Forest,
    {
        BiomeId::Forest
    }
}

/// The quality of a resource in a biome.
#[derive(Clone, Copy, Debug, PartialEq, Eq, Hash, Structural)]
pub enum ResourceQuality {
    Normal,
    High,
    Low,
}

impl Default for ResourceQuality {
    fn default() -> (q: Self)
        ensures
            q == ResourceQuality::Normal,
    {
        ResourceQuality::Normal
    }
}

/// The technology tiers of the world feature.
#[derive(Clone, Copy, Debug, PartialEq, Eq, Hash, Structural)]
pub enum Tier {
    T1,
    T2,
    T3,
}

impl Default for Tier {
    fn default() -> (t: Self)
        ensures
            t == Tier::T1,
    {
        Tier::T1
    }
}

/// The biome of the current run.
#[derive(Clone, Copy, Debug, PartialEq, Eq, Structural)]
pub struct ActiveBiome {
    pub id: BiomeId,
}

impl Default for ActiveBiome {
    fn default() -> (a: Self)
        ensures
            a.id == BiomeId::Forest,
    {
        ActiveBiome { id: BiomeId::Forest }
    }
}

/// The player's current world tier.
#[derive(Clone, Copy, Debug, PartialEq, Eq, Structural)]
pub struct CurrentTierWorld {
    pub tier: Tier,
}

impl Default for CurrentTierWorld {
    fn default() -> (c: Self)
        ensures
            c.tier == Tier::T1,
    {
        CurrentTierWorld { tier: Tier::T1 }
    }
}

/// The quality recorded for `resource` by the latest of `entries` that names
/// it: `Some(Some(q))` for quality `q`, `Some(None)` for a resource marked
/// unavailable, `None` when no entry names it.
pub open spec fn latest_quality(
    entries: Seq<(&'static str, Option<ResourceQuality>)>,
    resource: Seq<char>,
) -> Option<Option<ResourceQuality>>
    decreases entries.len(),
{
    if entries.len() == 0 {
        None
    } else if entries.last().0@ == resource {
        Some(entries.last().1)
    } else {
        latest_quality(entries.drop_last(), resource)
    }
}

/// Resource qualities of the current biome, by resource name; a resource
/// marked `None` is unavailable in the biome.  The records are a list in
/// which the latest record for a name wins, not a std `HashMap` keyed by the
/// names: vstd gives `HashMap` a contract only for keys whose hashing it
/// models (integers and `bool`), and a string key has none.
pub struct BiomeQualityMap {
    entries: Vec<(&'static str, Option<ResourceQuality>)>,
}

impl BiomeQualityMap {
    /// What the map records for a resource name.
    pub closed spec fn quality_of(&self, resource: Seq<char>) -> Option<Option<ResourceQuality>> {
        latest_quality(self.entries@, resource)
    }
}

impl Default for BiomeQualityMap {
    fn default() -> (m: Self)
        ensures
            forall|r: Seq<char>| #[trigger] m.quality_of(r) == None::<Option<ResourceQuality>>,
    {
        BiomeQualityMap { entries: Vec::new() }
    }
}

impl BiomeQualityMap {
    /// Records the quality of a resource (`None`: unavailable in the biome),
    /// replacing any earlier record for it.
    pub fn set(&mut self, resource: &'static str, quality: Option<ResourceQuality>)
        ensures
            final(self).quality_of(resource@) == Some(quality),
            forall|r: Seq<char>| r != resource@ ==> #[trigger] final(self).quality_of(r) == old(self).quality_of(r),
    {
        self.entries.push((resource, quality));
        proof {
            assert(self.entries@.drop_last() == old(self).entries@);
        }
    }

    /// `Some(Some(q))` if the resource has quality `q` here, `Some(None)` if
    /// it is unavailable here, `None` if the map does not know it.
    pub fn quality(&self, resource: &str) -> (q: Option<Option<ResourceQuality>>)
        ensures
            q == self.quality_of(resource@),
    {
        let mut i: usize = self.entries.len();
        assert(self.entries@.take(i as int) == self.entries@);
        while i > 0
            invariant
                i <= self.entries@.len(),
                latest_quality(self.entries@, resource@) == latest_quality(
                    self.entries@.take(i as int),
                    resource@,
                ),
            decreases i,
        {
            let (name, quality) = self.entries[i - 1];
            proof {
                assert(self.entries@.take(i as int).drop_last() == self.entries@.take(i - 1));
            }
            if str_eq(name, resource) {
                return Some(quality);
            }
            i = i - 1;
        }
        None
    }
}


/// The data of one world tile.
#[derive(Clone, Copy, Debug, PartialEq, Eq, Structural)]
pub struct WorldTileData {
    pub terrain: TerrainTypeWorld,
    /// Units left in a resource vein; `None` for an inexhaustible source.
    pub remaining: Option<Milli>,
    pub visibility: TileVisibility,
}

/// The tiles of a world map, by cell, with the cells that have a tile listed
/// once each.
pub struct WorldTiles {
    map: CellMap<WorldTileData>,
    cells: Vec<(i32, i32)>,
}

impl View for WorldTiles {
    type V = Map<(i32, i32), WorldTileData>;

    closed spec fn view(&self) -> Map<(i32, i32), WorldTileData> {
        self.map@
    }
}

impl WorldTiles {
    #[verifier::type_invariant]
    closed spec fn inv(self) -> bool {
        &&& self.cells@.no_duplicates()
        &&& forall|c: (i32, i32)| self.map@.contains_key(c) <==> #[trigger] self.cells@.contains(c)
    }

    /// No tiles.
    pub fn new() -> (t: WorldTiles)
        ensures
            t@ == Map::<(i32, i32), WorldTileData>::empty(),
    {
        WorldTiles { map: CellMap::new(), cells: Vec::new() }
    }

    /// The tile at `(x, y)`, if there is one.
    pub fn get(&self, x: i32, y: i32) -> (d: Option<WorldTileData>)
        ensures
            d == (if self@.contains_key((x, y)) { Some(self@[(x, y)]) } else { None }),
    {
        self.map.get(x, y)
    }

    /// Sets the tile at `(x, y)`, replacing any earlier one.
    pub fn insert(&mut self, x: i32, y: i32, d: WorldTileData)
        ensures
            final(self)@ == old(self)@.insert((x, y), d),
    {
        proof {
            use_type_invariant(&*self);
        }
        let fresh = self.map.get(x, y).is_none();
        let mut whole = WorldTiles::new();
        std::mem::swap(&mut whole, self);
        let WorldTiles { mut map, mut cells } = whole;
        let ghost old_cells = cells@;
        map.insert(x, y, d);
        if fresh {
            cells.push((x, y));
            proof {
                assert forall|i: int, j: int| 0 <= i < j < cells@.len() implies cells@[i] != cells@[j] by {
                    if j == old_cells.len() {
                        assert(old_cells.contains(cells@[i]));
                    }
                }
                assert forall|c: (i32, i32)| map@.contains_key(c) <==> #[trigger] cells@.contains(c) by {
                    if cells@.contains(c) && c != (x, y) {
                        let k = choose|k: int| 0 <= k < cells@.len() && cells@[k] == c;
                        assert(old_cells[k] == c);
                    }
                    if old_cells.contains(c) {
                        let k = choose|k: int| 0 <= k < old_cells.len() && old_cells[k] == c;
                        assert(cells@[k] == c);
                    }
                    if c == (x, y) {
                        assert(cells@[old_cells.len() as int] == c);
                    }
                }
            }
        }
        *self = WorldTiles { map, cells };
    }

    /// How many tiles there are.
    pub fn len(&self) -> (n: usize)
        ensures
            n == self@.dom().len(),
    {
        proof {
            use_type_invariant(self);
            self.cells@.unique_seq_to_set();
            assert(self.cells@.to_set() =~= self@.dom());
        }
        self.cells.len()
    }

    /// The cells that have a tile, each once, in the order they were first set.
    pub fn positions(&self) -> (v: Vec<(i32, i32)>)
        ensures
            v@.no_duplicates(),
            v@.to_set() == self@.dom(),
    {
        proof {
            use_type_invariant(self);
            assert(self.cells@.to_set() =~= self@.dom());
        }
        let mut v: Vec<(i32, i32)> = Vec::new();
        let mut i: usize = 0;
        while i < self.cells.len()
            invariant
                i <= self.cells@.len(),
                v@ == self.cells@.take(i as int),
            decreases self.cells@.len() - i,
        {
            v.push(self.cells[i]);
            i = i + 1;
            assert(v@ =~= self.cells@.take(i as int));
        }
        assert(v@ =~= self.cells@);
        v
    }
}

/// The world tilemap: the tiles of a `width` by `height` world of one biome,
/// generated from `seed`.
pub struct WorldMap {
    pub width: i32,
    pub height: i32,
    pub biome: BiomeId,
    pub seed: u64,
    pub tiles: WorldTiles,
}

/// The cells of `m` whose tile has terrain `t`.
pub open spec fn cells_with_terrain(m: Map<(i32, i32), WorldTileData>, t: TerrainTypeWorld) -> Set<(i32, i32)> {
    m.dom().filter(terrain_is(m, t))
}

/// Whether the tile of `m` at a cell has terrain `t`.
pub open spec fn terrain_is(m: Map<(i32, i32), WorldTileData>, t: TerrainTypeWorld) -> spec_fn((i32, i32)) -> bool {
    |c: (i32, i32)| m[c].terrain == t
}

/// The number of a terrain kind in declaration order, as the terrain hash
/// records it.
pub open spec fn terrain_code_spec(t: TerrainTypeWorld) -> u8 {
    match t {
        TerrainTypeWorld::Grass => 0,
        TerrainTypeWorld::DenseForest => 1,
        TerrainTypeWorld::WaterSource => 2,
        TerrainTypeWorld::StoneDeposit => 3,
        TerrainTypeWorld::IronVein => 4,
        TerrainTypeWorld::CopperVein => 5,
        TerrainTypeWorld::ManaNode => 6,
        TerrainTypeWorld::Impassable => 7,
        TerrainTypeWorld::ScorchedRock => 8,
        TerrainTypeWorld::LavaSource => 9,
        TerrainTypeWorld::ObsidianVein => 10,
        TerrainTypeWorld::Sand => 11,
        TerrainTypeWorld::Dune => 12,
        TerrainTypeWorld::Oasis => 13,
        TerrainTypeWorld::ShallowWater => 14,
        TerrainTypeWorld::CoralReef => 15,
        TerrainTypeWorld::DrySoil => 16,
        TerrainTypeWorld::WetSoil => 17,
        TerrainTypeWorld::Ice => 18,
    }
}

impl TerrainTypeWorld {
    /// The terrain's number in declaration order.
    pub fn code(self) -> (c: u8)
        ensures
            c == terrain_code_spec(self),
    {
        match self {
            TerrainTypeWorld::Grass => 0,
            TerrainTypeWorld::DenseForest => 1,
            TerrainTypeWorld::WaterSource => 2,
            TerrainTypeWorld::StoneDeposit => 3,
            TerrainTypeWorld::IronVein => 4,
            TerrainTypeWorld::CopperVein => 5,
            TerrainTypeWorld::ManaNode => 6,
            TerrainTypeWorld::Impassable => 7,
            TerrainTypeWorld::ScorchedRock => 8,
            TerrainTypeWorld::LavaSource => 9,
            TerrainTypeWorld::ObsidianVein => 10,
            TerrainTypeWorld::Sand => 11,
            TerrainTypeWorld::Dune => 12,
            TerrainTypeWorld::Oasis => 13,
            TerrainTypeWorld::ShallowWater => 14,
            TerrainTypeWorld::CoralReef => 15,
            TerrainTypeWorld::DrySoil => 16,
            TerrainTypeWorld::WetSoil => 17,
            TerrainTypeWorld::Ice => 18,
        }
    }
}

/// Cell `a` comes before cell `b`: by x, then by y.
pub open spec fn cell_before(a: (i32, i32), b: (i32, i32)) -> bool {
    a.0 < b.0 || (a.0 == b.0 && a.1 < b.1)
}

/// The pairs are in strictly increasing cell order.
pub open spec fn strictly_sorted(s: Seq<((i32, i32), u8)>) -> bool {
    forall|i: int, j: int| 0 <= i < j < s.len() ==> cell_before(#[trigger] s[i].0, #[trigger] s[j].0)
}

/// The (cell, terrain number) pairs of the tiles of `m`.
pub open spec fn terrain_pairs(m: Map<(i32, i32), WorldTileData>) -> Set<((i32, i32), u8)> {
    Set::new(|p: ((i32, i32), u8)| m.contains_key(p.0) && p.1 == terrain_code_spec(m[p.0].terrain))
}

/// The writes that hashing a list of (cell, terrain number) pairs appends to
/// a `DefaultHasher`, on the compile target (they hold the integers in the
/// target's byte order and a `usize` length prefix).
pub uninterp spec fn pair_list_hash_writes(pairs: Seq<((i32, i32), u8)>) -> Seq<Seq<u8>>;

/// Feeds the pair list to the hasher through `Hash for Vec<((i32, i32), u8)>`.
/// Trusted: on a given compile target the writes it makes depend on the pairs
/// alone; what they are is left unsaid, since std's `Hash` data is not
/// portable across byte orders and `usize` widths.
#[verifier::external_body]
fn hash_pair_list(pairs: &Vec<((i32, i32), u8)>, hasher: &mut DefaultHasher)
    ensures
        final(hasher)@ == old(hasher)@ + pair_list_hash_writes(pairs@),
{
    pairs.hash(hasher);
}

/// The terrain hash of a tile map: the default hasher's digest of its
/// (cell, terrain number) pairs in cell order.
pub open spec fn terrain_hash_of(pairs: Seq<((i32, i32), u8)>) -> u64 {
    DefaultHasher::spec_finish(pair_list_hash_writes(pairs))
}

/// Two strictly sorted lists with the same elements are the same list.
pub proof fn lemma_sorted_unique(a: Seq<((i32, i32), u8)>, b: Seq<((i32, i32), u8)>)
    requires
        strictly_sorted(a),
        strictly_sorted(b),
        a.to_set() == b.to_set(),
    ensures
        a == b,
    decreases a.len(),
{
    if a.len() == 0 {
        if b.len() > 0 {
            assert(b.to_set().contains(b[0]));
        }
        assert(b.len() == 0);
    } else {
        assert(a.to_set().contains(a[0]));
        assert(b.to_set().contains(a[0]));
        assert(b.len() > 0);
        assert(b.to_set().contains(b[0]));
        assert(a.to_set().contains(b[0]));
        let i = choose|i: int| 0 <= i < b.len() && b[i] == a[0];
        let j = choose|j: int| 0 <= j < a.len() && a[j] == b[0];
        if i > 0 {
            assert(cell_before(b[0].0, b[i].0));
            if j > 0 {
                assert(cell_before(a[0].0, a[j].0));
            }
        }
        assert(i == 0) by {
            if i > 0 {
                assert(cell_before(b[0].0, a[0].0));
                if j == 0 {
                    assert(b[0] == a[0]);
                } else {
                    assert(cell_before(a[0].0, b[0].0));
                }
            }
        }
        let ra = a.drop_first();
        let rb = b.drop_first();
        assert forall|x: ((i32, i32), u8)| ra.to_set().contains(x) <==> rb.to_set().contains(x) by {
            if ra.to_set().contains(x) {
                let k = choose|k: int| 0 <= k < ra.len() && ra[k] == x;
                assert(a[k + 1] == x);
                assert(a.to_set().contains(x));
                assert(b.to_set().contains(x));
                let l = choose|l: int| 0 <= l < b.len() && b[l] == x;
                assert(cell_before(a[0].0, a[k + 1].0));
                assert(l != 0);
                assert(rb[l - 1] == x);
            }
            if rb.to_set().contains(x) {
                let k = choose|k: int| 0 <= k < rb.len() && rb[k] == x;
                assert(b[k + 1] == x);
                assert(b.to_set().contains(x));
                assert(a.to_set().contains(x));
                let l = choose|l: int| 0 <= l < a.len() && a[l] == x;
                assert(cell_before(b[0].0, b[k + 1].0));
                assert(l != 0);
                assert(ra[l - 1] == x);
            }
        }
        assert(ra.to_set() =~= rb.to_set());
        lemma_sorted_unique(ra, rb);
        assert(a =~= b) by {
            assert(a == seq![a[0]] + ra);
            assert(b == seq![b[0]] + rb);
        }
    }
}

fn cell_lt(a: (i32, i32), b: (i32, i32)) -> (r: bool)
    ensures
        r == cell_before(a, b),
{
    a.0 < b.0 || (a.0 == b.0 && a.1 < b.1)
}

/// Inserts `p` into the strictly sorted list `v` at its place; `p`'s cell must
/// not be in the list.
fn insert_sorted(v: &mut Vec<((i32, i32), u8)>, p: ((i32, i32), u8))
    requires
        strictly_sorted(old(v)@),
        forall|k: int| 0 <= k < old(v)@.len() ==> (#[trigger] old(v)@[k]).0 != p.0,
    ensures
        strictly_sorted(final(v)@),
        final(v)@.to_set() == old(v)@.to_set().insert(p),
        final(v)@.len() == old(v)@.len() + 1,
{
    let mut i: usize = 0;
    while i < v.len() && !cell_lt(p.0, v[i].0)
        invariant
            i <= v@.len(),
            v@ == old(v)@,
            forall|k: int| 0 <= k < old(v)@.len() ==> (#[trigger] old(v)@[k]).0 != p.0,
            forall|k: int| 0 <= k < i ==> cell_before(#[trigger] v@[k].0, p.0),
        decreases v@.len() - i,
    {
        i = i + 1;
    }
    let ghost before = v@;
    v.insert(i, p);
    proof {
        assert(v@ == before.insert(i as int, p));
        if i < before.len() {
            assert(cell_before(p.0, before[i as int].0) || !(i < before.len()));
        }
        assert forall|a: int, b: int| 0 <= a < b < v@.len() implies cell_before(
            #[trigger] v@[a].0,
            #[trigger] v@[b].0,
        ) by {
            if b < i {
            } else if b == i {
            } else if a < i {
                assert(v@[b] == before[b - 1]);
                if i < before.len() {
                    assert(cell_before(p.0, before[i as int].0));
                }
                if a < i && b - 1 >= i as int {
                    assert(cell_before(before[a].0, p.0));
                }
            } else if a == i {
                assert(v@[b] == before[b - 1]);
                if b - 1 > i {
                    assert(cell_before(before[i as int].0, before[b - 1].0));
                }
            } else {
                assert(v@[a] == before[a - 1]);
                assert(v@[b] == before[b - 1]);
            }
        }
        assert forall|x: ((i32, i32), u8)| v@.to_set().contains(x) <==> before.to_set().insert(p).contains(x) by {
            if v@.to_set().contains(x) {
                let k = choose|k: int| 0 <= k < v@.len() && v@[k] == x;
                if k < i {
                    assert(before[k] == x);
                } else if k > i {
                    assert(before[k - 1] == x);
                }
            }
            if before.to_set().contains(x) {
                let k = choose|k: int| 0 <= k < before.len() && before[k] == x;
                if k < i {
                    assert(v@[k] == x);
                } else {
                    assert(v@[k + 1] == x);
                }
            }
            if x == p {
                assert(v@[i as int] == p);
            }
        }
        assert(v@.to_set() =~= before.to_set().insert(p));
    }
}

impl WorldMap {
    /// An empty map.
    pub fn new(width: i32, height: i32, biome: BiomeId, seed: u64) -> (m: Self)
        ensures
            m.width == width,
            m.height == height,
            m.biome == biome,
            m.seed == seed,
            m.tiles@ == Map::<(i32, i32), WorldTileData>::empty(),
    {
        WorldMap { width, height, biome, seed, tiles: WorldTiles::new() }
    }

    /// How many tiles have terrain `terrain`.
    pub fn count_terrain(&self, terrain: TerrainTypeWorld) -> (n: usize)
        ensures
            n == cells_with_terrain(self.tiles@, terrain).len(),
    {
        let cells = self.tiles.positions();
        let ghost m = self.tiles@;
        let ghost pred = terrain_is(m, terrain);
        let mut n: usize = 0;
        let mut i: usize = 0;
        proof {
            assert(cells@.take(0).to_set().filter(pred) =~= Set::<(i32, i32)>::empty());
        }
        while i < cells.len()
            invariant
                i <= cells@.len(),
                cells@.no_duplicates(),
                cells@.to_set() == m.dom(),
                m == self.tiles@,
                pred == terrain_is(m, terrain),
                n <= i,
                n == cells@.take(i as int).to_set().filter(pred).len(),
            decreases cells@.len() - i,
        {
            let c = cells[i];
            let ghost t0 = cells@.take(i as int);
            let ghost before = t0.to_set();
            proof {
                assert(cells@.take(i + 1) =~= t0 + seq![c]);
                Seq::lemma_to_set_insert_commutes(t0, c);
                assert(!before.contains(c)) by {
                    if before.contains(c) {
                        let k = choose|k: int| 0 <= k < t0.len() && t0[k] == c;
                        assert(cells@[k] == cells@[i as int]);
                    }
                }
                vstd::seq_lib::seq_to_set_is_finite(t0);
                assert(m.contains_key(c)) by {
                    assert(cells@.contains(c));
                    assert(cells@.to_set().contains(c));
                }
            }
            match self.tiles.get(c.0, c.1) {
                Some(d) => {
                    if d.terrain == terrain {
                        proof {
                            assert(before.insert(c).filter(pred) =~= before.filter(pred).insert(c));
                        }
                        n = n + 1;
                    } else {
                        proof {
                            assert(before.insert(c).filter(pred) =~= before.filter(pred));
                        }
                    }
                },
                None => {},
            }
            i = i + 1;
        }
        proof {
            assert(cells@.take(cells@.len() as int) == cells@);
        }
        n
    }

    /// The tiles' (cell, terrain number) pairs in cell order.
    pub fn sorted_terrain_pairs(&self) -> (v: Vec<((i32, i32), u8)>)
        ensures
            strictly_sorted(v@),
            v@.to_set() == terrain_pairs(self.tiles@),
    {
        let cells = self.tiles.positions();
        let ghost m = self.tiles@;
        let mut v: Vec<((i32, i32), u8)> = Vec::new();
        let mut i: usize = 0;
        while i < cells.len()
            invariant
                i <= cells@.len(),
                cells@.no_duplicates(),
                cells@.to_set() == m.dom(),
                m == self.tiles@,
                strictly_sorted(v@),
                forall|x: ((i32, i32), u8)| #[trigger] v@.to_set().contains(x) <==> (
                    cells@.take(i as int).contains(x.0) && x.1 == terrain_code_spec(m[x.0].terrain)),
            decreases cells@.len() - i,
        {
            let c = cells[i];
            proof {
                assert(cells@.to_set().contains(c));
            }
            match self.tiles.get(c.0, c.1) {
                Some(d) => {
                    let p = (c, d.terrain.code());
                    proof {
                        assert forall|k: int| 0 <= k < v@.len() implies (#[trigger] v@[k]).0 != p.0 by {
                            assert(v@.to_set().contains(v@[k]));
                            let j = choose|j: int| 0 <= j < i && cells@.take(i as int)[j] == v@[k].0;
                            if v@[k].0 == c {
                                assert(cells@[j] == cells@[i as int]);
                            }
                        }
                    }
                    let ghost before = v@;
                    insert_sorted(&mut v, p);
                    proof {
                        assert forall|x: ((i32, i32), u8)| #[trigger] v@.to_set().contains(x) <==> (
                            cells@.take(i + 1).contains(x.0) && x.1 == terrain_code_spec(m[x.0].terrain)) by {
                            let t0 = cells@.take(i as int);
                            let t1 = cells@.take(i + 1);
                            assert(t1 == t0.push(c));
                            if t1.contains(x.0) && x.0 != c {
                                let j = choose|j: int| 0 <= j < t1.len() && t1[j] == x.0;
                                assert(t0[j] == x.0);
                            }
                            if t0.contains(x.0) {
                                let j = choose|j: int| 0 <= j < t0.len() && t0[j] == x.0;
                                assert(t1[j] == x.0);
                            }
                            assert(t1[i as int] == c);
                        }
                    }
                },
                None => {},
            }
            i = i + 1;
        }
        proof {
            assert(cells@.take(cells@.len() as int) == cells@);
            assert forall|x: ((i32, i32), u8)| v@.to_set().contains(x) <==> terrain_pairs(m).contains(x) by {
                if m.contains_key(x.0) {
                    assert(cells@.to_set().contains(x.0));
                }
            }
            assert(v@.to_set() =~= terrain_pairs(m));
        }
        v
    }

    /// A digest of the terrain layout: the default hasher's hash of the
    /// tiles' (cell, terrain number) pairs in cell order.  Equal layouts give
    /// equal hashes, whatever order the tiles were set in.
    pub fn terrain_hash(&self) -> (h: u64)
        ensures
            exists|s: Seq<((i32, i32), u8)>|
                strictly_sorted(s) && s.to_set() == terrain_pairs(self.tiles@) && h == terrain_hash_of(s),
    {
        let pairs = self.sorted_terrain_pairs();
        let mut hasher = DefaultHasher::new();
        hash_pair_list(&pairs, &mut hasher);
        let h = hasher.finish();
        proof {
            assert(hasher@ == pair_list_hash_writes(pairs@));
        }
        h
    }
}

/// Two maps with the same tiles' terrain have the same terrain hash: the
/// hash depends only on which terrain lies on which cell.
pub proof fn lemma_terrain_hash_depends_on_layout_only(
    m1: Map<(i32, i32), WorldTileData>,
    m2: Map<(i32, i32), WorldTileData>,
    s1: Seq<((i32, i32), u8)>,
    s2: Seq<((i32, i32), u8)>,
)
    requires
        terrain_pairs(m1) == terrain_pairs(m2),
        strictly_sorted(s1),
        s1.to_set() == terrain_pairs(m1),
        strictly_sorted(s2),
        s2.to_set() == terrain_pairs(m2),
    ensures
        terrain_hash_of(s1) == terrain_hash_of(s2),
{
    lemma_sorted_unique(s1, s2);
}

} // verus!
