//! Building placement: validation of placement requests against the grid,
//! terrain, tier, inventory and fog, and the resulting grid updates.
use crate::building::{footprint_of, terrain_req_of, tier_of, BuildingType};
use crate::counts::count_in;
use crate::footprint::{footprint_cells, lemma_rect_cells, rect_cells, Footprint};
use crate::grid::{in_bounds_spec, terrain_at_spec, FogMap, Grid, Inventory, TierState};
use vstd::prelude::*;

verus! {

/// A single placement request; `recipe` is carried through to the placed building.
pub struct PlacementRequest<R> {
    pub building_type: BuildingType,
    pub x: i32,
    pub y: i32,
    pub recipe: R,
    /// If true, the inventory is neither checked nor drawn from.
    pub skip_inventory_check: bool,
    /// If true, the fog of war is not checked.
    pub skip_fog_check: bool,
}

impl<R> PlacementRequest<R> {
    /// A request that skips the inventory and fog checks.
    pub fn legacy(building_type: BuildingType, x: i32, y: i32, recipe: R) -> (r: Self)
        ensures
            r.building_type == building_type,
            r.x == x,
            r.y == y,
            r.recipe == recipe,
            r.skip_inventory_check,
            r.skip_fog_check,
    {
        PlacementRequest {
            building_type,
            x,
            y,
            recipe,
            skip_inventory_check: true,
            skip_fog_check: true,
        }
    }

    /// A request with every check enabled.
    pub fn new(building_type: BuildingType, x: i32, y: i32, recipe: R) -> (r: Self)
        ensures
            r.building_type == building_type,
            r.x == x,
            r.y == y,
            r.recipe == recipe,
            !r.skip_inventory_check,
            !r.skip_fog_check,
    {
        PlacementRequest {
            building_type,
            x,
            y,
            recipe,
            skip_inventory_check: false,
            skip_fog_check: false,
        }
    }
}

/// The cells a building of kind `bt` covers when its origin is `(x, y)`.
pub open spec fn footprint_set(bt: BuildingType, x: i32, y: i32) -> Set<(i32, i32)> {
    Set::new(
        |c: (i32, i32)|
            x <= c.0 < x + footprint_of(bt).0 && y <= c.1 < y + footprint_of(bt).1,
    )
}

/// Every cell of the footprint is inside the grid and free.
pub open spec fn fits_free(occ: Set<(i32, i32)>, w: i32, h: i32, bt: BuildingType, x: i32, y: i32) -> bool {
    forall|c: (i32, i32)| #[trigger]
        footprint_set(bt, x, y).contains(c) ==> in_bounds_spec(w, h, c.0, c.1) && !occ.contains(c)
}

/// When a request without extra checks places its building.
pub open spec fn legacy_ok(occ: Set<(i32, i32)>, w: i32, h: i32, bt: BuildingType, x: i32, y: i32) -> bool {
    &&& !occ.contains((x, y))
    &&& in_bounds_spec(w, h, x, y)
    &&& fits_free(occ, w, h, bt, x, y)
}

/// The tier placement runs at: the tier state's, or 1 without one.
pub open spec fn tier_or_one(tier: Option<TierState>) -> u8 {
    match tier {
        Some(t) => t.current_tier,
        None => 1,
    }
}

/// When a fully checked request places its building.
pub open spec fn request_ok(
    occ: Set<(i32, i32)>,
    w: i32,
    h: i32,
    terrain: Map<(i32, i32), crate::building::TerrainType>,
    current_tier: u8,
    fog: Option<Set<(i32, i32)>>,
    inv: Option<Map<BuildingType, u32>>,
    bt: BuildingType,
    x: i32,
    y: i32,
    skip_inventory: bool,
    skip_fog: bool,
) -> bool {
    &&& in_bounds_spec(w, h, x, y)
    &&& fits_free(occ, w, h, bt, x, y)
    &&& (terrain_req_of(bt) matches Some(t) ==> terrain_at_spec(terrain, x, y) == t)
    &&& tier_of(bt) <= current_tier
    &&& (!skip_inventory && inv is Some ==> count_in(inv.unwrap(), bt) > 0)
    &&& (!skip_fog && fog is Some ==> fog.unwrap().contains((x, y)))
}

/// The far corner of the footprint of a building of kind `bt` at `(x, y)` has
/// coordinates that fit in an `i32`, so its cells can be computed.
pub open spec fn corner_fits(bt: BuildingType, x: i32, y: i32) -> bool {
    x + footprint_of(bt).0 - 1 <= i32::MAX && y + footprint_of(bt).1 - 1 <= i32::MAX
}

/// An unchecked placement at `(x, y)` computes the footprint only when the
/// origin is free and in bounds; then the footprint's cells must fit in `i32`.
pub open spec fn legacy_computable(occ: Set<(i32, i32)>, w: i32, h: i32, bt: BuildingType, x: i32, y: i32) -> bool {
    !occ.contains((x, y)) && in_bounds_spec(w, h, x, y) ==> corner_fits(bt, x, y)
}

/// A checked placement at `(x, y)` computes the footprint whenever the origin
/// is in bounds; then the footprint's cells must fit in `i32`.
pub open spec fn request_computable(w: i32, h: i32, bt: BuildingType, x: i32, y: i32) -> bool {
    in_bounds_spec(w, h, x, y) ==> corner_fits(bt, x, y)
}

/// The set of cells listed in a sequence.
pub open spec fn listed(s: Seq<(i32, i32)>) -> Set<(i32, i32)> {
    Set::new(|c: (i32, i32)| s.contains(c))
}

proof fn lemma_footprint_fits(grid: &Grid, bt: BuildingType, x: i32, y: i32)
    requires
        corner_fits(bt, x, y),
        in_bounds_spec(grid.width, grid.height, x, y),
    ensures
        crate::footprint::rect_fits(x as int, y as int, footprint_of(bt).0 as int, footprint_of(bt).1 as int),
{
    let fw = footprint_of(bt).0;
    let fh = footprint_of(bt).1;
    assert(0 <= fw * fh <= 9) by (nonlinear_arith)
        requires
            1 <= fw <= 3,
            1 <= fh <= 3,
    ;
}

/// The footprint cells of a building at an in-bounds origin, and their set.
fn footprint_of_at(grid: &Grid, bt: BuildingType, x: i32, y: i32) -> (cells: Vec<(i32, i32)>)
    requires
        corner_fits(bt, x, y),
        in_bounds_spec(grid.width, grid.height, x, y),
    ensures
        cells@ == rect_cells(x as int, y as int, footprint_of(bt).0 as int, footprint_of(bt).1 as int),
        forall|c: (i32, i32)| cells@.contains(c) <==> footprint_set(bt, x, y).contains(c),
{
    let (fw, fh) = bt.footprint();
    proof {
        lemma_footprint_fits(grid, bt, x, y);
        lemma_rect_cells(x as int, y as int, fw as int, fh as int);
    }
    footprint_cells(x, y, fw, fh)
}

/// Whether every listed cell is in bounds and unoccupied.
fn all_cells_free(grid: &Grid, cells: &Vec<(i32, i32)>) -> (b: bool)
    ensures
        b == forall|c: (i32, i32)| cells@.contains(c) ==> in_bounds_spec(grid.width, grid.height, c.0, c.1)
            && !grid.occupied@.contains(c),
{
    let mut i: usize = 0;
    while i < cells.len()
        invariant
            i <= cells@.len(),
            forall|j: int| 0 <= j < i ==> in_bounds_spec(grid.width, grid.height, (#[trigger] cells@[j]).0, cells@[j].1)
                && !grid.occupied@.contains(cells@[j]),
        decreases cells@.len() - i,
    {
        let (cx, cy) = cells[i];
        if !grid.in_bounds(cx, cy) || grid.occupied.contains(cx, cy) {
            assert(cells@.contains(cells@[i as int]));
            return false;
        }
        assert(cells@[i as int] == (cx, cy));
        i = i + 1;
    }
    assert forall|c: (i32, i32)| cells@.contains(c) implies in_bounds_spec(grid.width, grid.height, c.0, c.1)
        && !grid.occupied@.contains(c) by {
        let j = choose|j: int| 0 <= j < cells@.len() && cells@[j] == c;
        assert(cells@[j] == c);
    }
    true
}

/// Marks every listed cell occupied.
fn occupy(grid: &mut Grid, cells: &Vec<(i32, i32)>)
    ensures
        final(grid).width == old(grid).width,
        final(grid).height == old(grid).height,
        final(grid).terrain@ == old(grid).terrain@,
        final(grid).occupied@ == old(grid).occupied@.union(listed(cells@)),
{
    let mut i: usize = 0;
    while i < cells.len()
        invariant
            i <= cells@.len(),
            grid.width == old(grid).width,
            grid.height == old(grid).height,
            grid.terrain@ == old(grid).terrain@,
            grid.occupied@ == old(grid).occupied@.union(listed(cells@.take(i as int))),
        decreases cells@.len() - i,
    {
        let (cx, cy) = cells[i];
        grid.occupied.insert(cx, cy);
        i = i + 1;
        assert(cells@.take(i as int) =~= cells@.take(i - 1).push(cells@[i - 1]));
        assert forall|c: (i32, i32)| #[trigger] listed(cells@.take(i as int)).contains(c) <==> (listed(
            cells@.take(i - 1),
        ).contains(c) || c == (cx, cy)) by {
            let t = cells@.take(i as int);
            if t.contains(c) {
                let j = choose|j: int| 0 <= j < t.len() && t[j] == c;
                if j < i - 1 {
                    assert(cells@.take(i - 1)[j] == c);
                }
            }
            if c == (cx, cy) {
                assert(t[i - 1] == c);
            }
            let p = cells@.take(i - 1);
            if p.contains(c) {
                let j = choose|j: int| 0 <= j < p.len() && p[j] == c;
                assert(t[j] == c);
            }
        }
        assert(grid.occupied@ =~= old(grid).occupied@.union(listed(cells@.take(i as int))));
    }
    assert(cells@.take(cells@.len() as int) =~= cells@);
    assert(listed(cells@.take(0)) =~= Set::<(i32, i32)>::empty());
}

/// Places a building without inventory or fog checks.  It is placed when its
/// origin is free and in bounds and its whole footprint is in bounds and free;
/// it then occupies its footprint.
pub fn place_legacy(grid: &mut Grid, bt: BuildingType, x: i32, y: i32) -> (placed: Option<Footprint>)
    requires
        legacy_computable(old(grid).occupied@, old(grid).width, old(grid).height, bt, x, y),
    ensures
        final(grid).width == old(grid).width,
        final(grid).height == old(grid).height,
        final(grid).terrain@ == old(grid).terrain@,
        placed is Some <==> legacy_ok(old(grid).occupied@, old(grid).width, old(grid).height, bt, x, y),
        placed matches Some(f) ==> f.cells@ == rect_cells(
            x as int,
            y as int,
            footprint_of(bt).0 as int,
            footprint_of(bt).1 as int,
        ),
        final(grid).occupied@ == (if placed is Some {
            old(grid).occupied@.union(footprint_set(bt, x, y))
        } else {
            old(grid).occupied@
        }),
{
    if grid.occupied.contains(x, y) {
        return None;
    }
    if !grid.in_bounds(x, y) {
        return None;
    }
    let cells = footprint_of_at(grid, bt, x, y);
    if !all_cells_free(grid, &cells) {
        return None;
    }
    occupy(grid, &cells);
    assert(listed(cells@) =~= footprint_set(bt, x, y));
    let (fw, fh) = bt.footprint();
    proof {
        lemma_footprint_fits(&*old(grid), bt, x, y);
    }
    Some(Footprint::rect(x, y, fw, fh))
}

/// The inventory after a placement: one building is drawn from it when a
/// building was placed with the inventory check on.
pub open spec fn inventory_after(
    inv: Map<BuildingType, u32>,
    bt: BuildingType,
    placed: bool,
    skip_inventory: bool,
) -> Map<BuildingType, u32> {
    if placed && !skip_inventory {
        inv.insert(bt, (count_in(inv, bt) - 1) as u32)
    } else {
        inv
    }
}

/// Places a building after every check that the request asks for: the origin
/// and the whole footprint must be in bounds and free, an extractor's origin
/// must lie on its terrain, the building's tier must not exceed the current
/// tier (1 without a tier state), the inventory (when there is one and the
/// check is on) must hold one, and the origin must be revealed (when there is
/// a fog map and the check is on).  A placed building occupies its footprint
/// and, with the inventory check on, is drawn from the inventory.
pub fn place_request<R>(
    grid: &mut Grid,
    req: &PlacementRequest<R>,
    tier: Option<&TierState>,
    fog: Option<&FogMap>,
    inventory: Option<&mut Inventory>,
) -> (placed: Option<Footprint>)
    requires
        request_computable(old(grid).width, old(grid).height, req.building_type, req.x, req.y),
    ensures
        final(grid).width == old(grid).width,
        final(grid).height == old(grid).height,
        final(grid).terrain@ == old(grid).terrain@,
        placed is Some <==> request_ok(
            old(grid).occupied@,
            old(grid).width,
            old(grid).height,
            old(grid).terrain@,
            tier_or_one(match tier { Some(t) => Some(*t), None => None }),
            match fog { Some(f) => Some(f.revealed@), None => None },
            match inventory { Some(i) => Some(i.buildings@), None => None },
            req.building_type,
            req.x,
            req.y,
            req.skip_inventory_check,
            req.skip_fog_check,
        ),
        placed matches Some(f) ==> f.cells@ == rect_cells(
            req.x as int,
            req.y as int,
            footprint_of(req.building_type).0 as int,
            footprint_of(req.building_type).1 as int,
        ),
        final(grid).occupied@ == (if placed is Some {
            old(grid).occupied@.union(footprint_set(req.building_type, req.x, req.y))
        } else {
            old(grid).occupied@
        }),
        match inventory {
            Some(i) => final(i).buildings@ == inventory_after(
                i.buildings@,
                req.building_type,
                placed is Some,
                req.skip_inventory_check,
            ),
            None => true,
        },
{
    let bt = req.building_type;
    let x = req.x;
    let y = req.y;
    if !grid.in_bounds(x, y) {
        return None;
    }
    let cells = footprint_of_at(grid, bt, x, y);
    let mut ok = all_cells_free(grid, &cells);
    if ok {
        match bt.terrain_req() {
            Some(required) => {
                if grid.terrain_at(x, y) != required {
                    ok = false;
                }
            },
            None => {},
        }
    }
    if ok {
        let current_tier: u8 = match tier {
            Some(t) => t.current_tier,
            None => 1,
        };
        if bt.tier() > current_tier {
            ok = false;
        }
    }
    if ok && !req.skip_inventory_check {
        match &inventory {
            Some(inv) => {
                if inv.count_building(bt) == 0 {
                    ok = false;
                }
            },
            None => {},
        }
    }
    if ok && !req.skip_fog_check {
        match fog {
            Some(f) => {
                if !f.is_visible(x, y) {
                    ok = false;
                }
            },
            None => {},
        }
    }
    if !ok {
        return None;
    }
    if !req.skip_inventory_check {
        match inventory {
            Some(inv) => {
                inv.consume_building(bt);
            },
            None => {},
        }
    }
    occupy(grid, &cells);
    assert(listed(cells@) =~= footprint_set(bt, x, y));
    let (fw, fh) = bt.footprint();
    proof {
        lemma_footprint_fits(&*old(grid), bt, x, y);
    }
    Some(Footprint::rect(x, y, fw, fh))
}

/// The placement queues of one tick.
pub struct PlacementCommands<R> {
    /// Buildings placed without inventory or fog checks, as (kind, x, y, recipe).
    pub queue: Vec<(BuildingType, i32, i32, R)>,
    /// Fully checked requests.
    pub requests: Vec<PlacementRequest<R>>,
    /// Whether each request of the last tick was placed, in request order.
    pub last_results: Vec<bool>,
}

impl<R> PlacementCommands<R> {
    /// Empty queues.
    pub fn new() -> (c: Self)
        ensures
            c.queue@.len() == 0,
            c.requests@.len() == 0,
            c.last_results@.len() == 0,
    {
        PlacementCommands { queue: Vec::new(), requests: Vec::new(), last_results: Vec::new() }
    }
}

/// A building that was placed, to be spawned into the world.
pub struct PlacedBuilding<R> {
    pub building_type: BuildingType,
    pub x: i32,
    pub y: i32,
    pub recipe: R,
    pub footprint: Footprint,
}

/// The occupancy after the unchecked queue, and the positions of the queued
/// buildings that were placed, processing the queue in order.
pub open spec fn legacy_run<R>(
    occ: Set<(i32, i32)>,
    w: i32,
    h: i32,
    items: Seq<(BuildingType, i32, i32, R)>,
) -> (Set<(i32, i32)>, Seq<int>)
    decreases items.len(),
{
    if items.len() == 0 {
        (occ, Seq::empty())
    } else {
        let prev = legacy_run(occ, w, h, items.drop_last());
        let it = items.last();
        if legacy_ok(prev.0, w, h, it.0, it.1, it.2) {
            (prev.0.union(footprint_set(it.0, it.1, it.2)), prev.1.push(items.len() - 1))
        } else {
            prev
        }
    }
}

/// The state threaded through the checked requests.
pub struct RequestState {
    pub occ: Set<(i32, i32)>,
    pub inv: Option<Map<BuildingType, u32>>,
    pub results: Seq<bool>,
    pub placed: Seq<int>,
}

/// The state after processing the checked requests in order, starting from
/// occupancy `occ` and inventory `inv` (when there is one).
pub open spec fn request_run<R>(
    occ: Set<(i32, i32)>,
    inv: Option<Map<BuildingType, u32>>,
    w: i32,
    h: i32,
    terrain: Map<(i32, i32), crate::building::TerrainType>,
    current_tier: u8,
    fog: Option<Set<(i32, i32)>>,
    reqs: Seq<PlacementRequest<R>>,
) -> RequestState
    decreases reqs.len(),
{
    if reqs.len() == 0 {
        RequestState { occ, inv, results: Seq::empty(), placed: Seq::empty() }
    } else {
        let prev = request_run(occ, inv, w, h, terrain, current_tier, fog, reqs.drop_last());
        let r = reqs.last();
        let ok = request_ok(
            prev.occ,
            w,
            h,
            terrain,
            current_tier,
            fog,
            prev.inv,
            r.building_type,
            r.x,
            r.y,
            r.skip_inventory_check,
            r.skip_fog_check,
        );
        RequestState {
            occ: if ok {
                prev.occ.union(footprint_set(r.building_type, r.x, r.y))
            } else {
                prev.occ
            },
            inv: match prev.inv {
                Some(m) => Some(inventory_after(m, r.building_type, ok, r.skip_inventory_check)),
                None => None,
            },
            results: prev.results.push(ok),
            placed: if ok { prev.placed.push(reqs.len() - 1) } else { prev.placed },
        }
    }
}

/// Every queued building whose turn comes with a free, in-bounds origin has a
/// footprint whose cells fit in `i32`.
pub open spec fn queue_computable<R>(
    occ: Set<(i32, i32)>,
    w: i32,
    h: i32,
    items: Seq<(BuildingType, i32, i32, R)>,
) -> bool {
    forall|k: int|
        0 <= k < items.len() ==> legacy_computable(
            legacy_run(occ, w, h, items.take(k)).0,
            w,
            h,
            (#[trigger] items[k]).0,
            items[k].1,
            items[k].2,
        )
}

/// Every checked request with an in-bounds origin has a footprint whose cells
/// fit in `i32`.
pub open spec fn requests_computable<R>(w: i32, h: i32, reqs: Seq<PlacementRequest<R>>) -> bool {
    forall|k: int|
        0 <= k < reqs.len() ==> request_computable(
            w,
            h,
            (#[trigger] reqs[k]).building_type,
            reqs[k].x,
            reqs[k].y,
        )
}

/// `b` describes the queued building `it` placed with its footprint.
pub open spec fn placed_from_queue<R>(b: PlacedBuilding<R>, it: (BuildingType, i32, i32, R)) -> bool {
    &&& b.building_type == it.0
    &&& b.x == it.1
    &&& b.y == it.2
    &&& b.recipe == it.3
    &&& b.footprint.cells@ == rect_cells(
        it.1 as int,
        it.2 as int,
        footprint_of(it.0).0 as int,
        footprint_of(it.0).1 as int,
    )
}

/// `b` describes the requested building `r` placed with its footprint.
pub open spec fn placed_from_request<R>(b: PlacedBuilding<R>, r: PlacementRequest<R>) -> bool {
    placed_from_queue(b, (r.building_type, r.x, r.y, r.recipe))
}

/// Runs one tick of placement: first the unchecked queue, then the checked
/// requests, each in order and each against the grid as the earlier ones
/// left it.  Both queues are emptied, `last_results` records whether each
/// request was placed, and the placed buildings are returned in the order
/// they were placed.
pub fn run_placement<R>(
    grid: &mut Grid,
    placement: &mut PlacementCommands<R>,
    tier: Option<&TierState>,
    fog: Option<&FogMap>,
    mut inventory: Option<&mut Inventory>,
) -> (placed: Vec<PlacedBuilding<R>>)
    requires
        queue_computable(old(grid).occupied@, old(grid).width, old(grid).height, old(placement).queue@),
        requests_computable(old(grid).width, old(grid).height, old(placement).requests@),
    ensures
        final(grid).width == old(grid).width,
        final(grid).height == old(grid).height,
        final(grid).terrain@ == old(grid).terrain@,
        final(placement).queue@.len() == 0,
        final(placement).requests@.len() == 0,
        ({
            let l = legacy_run(
                old(grid).occupied@,
                old(grid).width,
                old(grid).height,
                old(placement).queue@,
            );
            let r = request_run(
                l.0,
                match inventory { Some(i) => Some(i.buildings@), None => None },
                old(grid).width,
                old(grid).height,
                old(grid).terrain@,
                tier_or_one(match tier { Some(t) => Some(*t), None => None }),
                match fog { Some(f) => Some(f.revealed@), None => None },
                old(placement).requests@,
            );
            &&& final(grid).occupied@ == r.occ
            &&& final(placement).last_results@ == r.results
            &&& (match inventory {
                Some(i) => Some(final(i).buildings@) == r.inv,
                None => true,
            })
            &&& placed@.len() == l.1.len() + r.placed.len()
            &&& forall|k: int| 0 <= k < l.1.len() ==> placed_from_queue(
                #[trigger] placed@[k],
                old(placement).queue@[l.1[k]],
            )
            &&& forall|k: int| 0 <= k < r.placed.len() ==> placed_from_request(
                #[trigger] placed@[l.1.len() + k],
                old(placement).requests@[r.placed[k]],
            )
        }),
{
    placement.last_results.clear();
    let ghost occ0 = grid.occupied@;
    let ghost w = grid.width;
    let ghost h = grid.height;
    let ghost terrain = grid.terrain@;
    let mut queue: Vec<(BuildingType, i32, i32, R)> = Vec::new();
    std::mem::swap(&mut queue, &mut placement.queue);
    let ghost items = queue@;
    let mut placed: Vec<PlacedBuilding<R>> = Vec::new();
    let ghost mut k: int = 0;
    while queue.len() > 0
        invariant
            queue_computable(occ0, w, h, items),
            grid.width == w,
            grid.height == h,
            grid.terrain@ == terrain,
            0 <= k <= items.len(),
            queue@ == items.skip(k),
            grid.occupied@ == legacy_run(occ0, w, h, items.take(k)).0,
            placed@.len() == legacy_run(occ0, w, h, items.take(k)).1.len(),
            forall|j: int| 0 <= j < placed@.len() ==> placed_from_queue(
                #[trigger] placed@[j],
                items[legacy_run(occ0, w, h, items.take(k)).1[j]],
            ),
            forall|j: int| 0 <= j < legacy_run(occ0, w, h, items.take(k)).1.len() ==> 0
                <= #[trigger] legacy_run(occ0, w, h, items.take(k)).1[j] < k,
        decreases queue@.len(),
    {
        let ghost before = legacy_run(occ0, w, h, items.take(k));
        let (bt, x, y, recipe) = queue.remove(0);
        assert(items.take(k + 1).drop_last() =~= items.take(k));
        assert(items[k] == (bt, x, y, recipe));
        assert(legacy_computable(before.0, w, h, items[k].0, items[k].1, items[k].2));
        match place_legacy(grid, bt, x, y) {
            Some(f) => {
                placed.push(PlacedBuilding { building_type: bt, x, y, recipe, footprint: f });
            },
            None => {},
        }
        proof {
            k = k + 1;
            assert(queue@ =~= items.skip(k));
            let after = legacy_run(occ0, w, h, items.take(k));
            assert(items.take(k).last() == items[k - 1]);
            assert forall|j: int| 0 <= j < placed@.len() implies placed_from_queue(
                #[trigger] placed@[j],
                items[after.1[j]],
            ) by {
                if j < before.1.len() {
                    assert(after.1[j] == before.1[j]);
                }
            }
        }
    }
    assert(items.take(items.len() as int) =~= items);
    let ghost l = legacy_run(occ0, w, h, items);
    let ghost inv0 = match &inventory { Some(i) => Some(i.buildings@), None => None };
    let ghost inv_ref = inventory;
    let mut requests: Vec<PlacementRequest<R>> = Vec::new();
    std::mem::swap(&mut requests, &mut placement.requests);
    let ghost reqs = requests@;
    let ghost cur_tier = tier_or_one(match tier { Some(t) => Some(*t), None => None });
    let ghost fogs = match fog { Some(f) => Some(f.revealed@), None => None };
    let ghost mut n: int = 0;
    while requests.len() > 0
        invariant
            requests_computable(w, h, reqs),
            grid.width == w,
            grid.height == h,
            grid.terrain@ == terrain,
            0 <= n <= reqs.len(),
            requests@ == reqs.skip(n),
            cur_tier == tier_or_one(match tier { Some(t) => Some(*t), None => None }),
            fogs == (match fog { Some(f) => Some(f.revealed@), None => None }),
            match (inventory, inv_ref) {
                (Some(a), Some(b)) => *final(a) == *final(b),
                (None, None) => true,
                _ => false,
            },
            placement.queue@.len() == 0,
            placement.requests@.len() == 0,
            ({
                let r = request_run(l.0, inv0, w, h, terrain, cur_tier, fogs, reqs.take(n));
                &&& grid.occupied@ == r.occ
                &&& placement.last_results@ == r.results
                &&& (match &inventory { Some(i) => Some(i.buildings@), None => None }) == r.inv
                &&& placed@.len() == l.1.len() + r.placed.len()
                &&& forall|j: int| 0 <= j < l.1.len() ==> placed_from_queue(
                    #[trigger] placed@[j],
                    items[l.1[j]],
                )
                &&& forall|j: int| 0 <= j < r.placed.len() ==> placed_from_request(
                    #[trigger] placed@[l.1.len() + j],
                    reqs[r.placed[j]],
                )
                &&& forall|j: int| 0 <= j < r.placed.len() ==> 0 <= #[trigger] r.placed[j] < n
            }),
        decreases requests@.len(),
    {
        let ghost before = request_run(l.0, inv0, w, h, terrain, cur_tier, fogs, reqs.take(n));
        let req = requests.remove(0);
        assert(reqs.take(n + 1).drop_last() =~= reqs.take(n));
        assert(reqs[n] == req);
        assert(request_computable(w, h, reqs[n].building_type, reqs[n].x, reqs[n].y));
        let inv_now = match &mut inventory {
            Some(i) => Some(&mut **i),
            None => None,
        };
        assert((match &inv_now { Some(x) => Some(x.buildings@), None => None }) == before.inv);
        let result = place_request(grid, &req, tier, fog, inv_now);
        assert(result is Some <==> request_ok(before.occ, w, h, terrain, cur_tier, fogs, before.inv, req.building_type, req.x, req.y, req.skip_inventory_check, req.skip_fog_check));
        let ok = result.is_some();
        match result {
            Some(f) => {
                placed.push(
                    PlacedBuilding {
                        building_type: req.building_type,
                        x: req.x,
                        y: req.y,
                        recipe: req.recipe,
                        footprint: f,
                    },
                );
            },
            None => {},
        }
        placement.last_results.push(ok);
        proof {
            n = n + 1;
            assert(requests@ =~= reqs.skip(n));
            let after = request_run(l.0, inv0, w, h, terrain, cur_tier, fogs, reqs.take(n));
            assert(reqs.take(n).last() == reqs[n - 1]);
            assert(reqs.take(n).drop_last() == reqs.take(n - 1));
            assert(grid.occupied@ == after.occ);
            assert(placement.last_results@ == after.results);
            assert((match &inventory { Some(i) => Some(i.buildings@), None => None }) == after.inv);
            assert(placed@.len() == l.1.len() + after.placed.len());
            assert forall|j: int| 0 <= j < after.placed.len() implies placed_from_request(
                #[trigger] placed@[l.1.len() + j],
                reqs[after.placed[j]],
            ) by {
                if j < before.placed.len() {
                    assert(after.placed[j] == before.placed[j]);
                }
            }
        }
    }
    assert(reqs.take(reqs.len() as int) =~= reqs);
    placed
}

/// Cells inside the grid bounds.
pub open spec fn in_grid(w: i32, h: i32) -> Set<(i32, i32)> {
    Set::new(|c: (i32, i32)| in_bounds_spec(w, h, c.0, c.1))
}

/// Placement only ever adds occupied cells, and every cell it adds lies inside
/// the grid: if the occupied cells start inside the grid they stay inside it.
pub proof fn lemma_legacy_run_grows_in_bounds<R>(
    occ: Set<(i32, i32)>,
    w: i32,
    h: i32,
    items: Seq<(BuildingType, i32, i32, R)>,
)
    ensures
        occ.subset_of(legacy_run(occ, w, h, items).0),
        occ.subset_of(in_grid(w, h)) ==> legacy_run(occ, w, h, items).0.subset_of(in_grid(w, h)),
    decreases items.len(),
{
    if items.len() > 0 {
        lemma_legacy_run_grows_in_bounds(occ, w, h, items.drop_last());
    }
}

/// The same holds for the checked requests.
pub proof fn lemma_request_run_grows_in_bounds<R>(
    occ: Set<(i32, i32)>,
    inv: Option<Map<BuildingType, u32>>,
    w: i32,
    h: i32,
    terrain: Map<(i32, i32), crate::building::TerrainType>,
    current_tier: u8,
    fog: Option<Set<(i32, i32)>>,
    reqs: Seq<PlacementRequest<R>>,
)
    ensures
        occ.subset_of(request_run(occ, inv, w, h, terrain, current_tier, fog, reqs).occ),
        occ.subset_of(in_grid(w, h)) ==> request_run(
            occ,
            inv,
            w,
            h,
            terrain,
            current_tier,
            fog,
            reqs,
        ).occ.subset_of(in_grid(w, h)),
    decreases reqs.len(),
{
    if reqs.len() > 0 {
        lemma_request_run_grows_in_bounds(occ, inv, w, h, terrain, current_tier, fog, reqs.drop_last());
    }
}

/// A building is placed only on cells that were free: its footprint and the
/// cells occupied before it are disjoint, and both kinds of placement agree
/// on the grid part of that decision.
pub proof fn lemma_placed_on_free_cells(
    occ: Set<(i32, i32)>,
    w: i32,
    h: i32,
    terrain: Map<(i32, i32), crate::building::TerrainType>,
    current_tier: u8,
    fog: Option<Set<(i32, i32)>>,
    inv: Option<Map<BuildingType, u32>>,
    bt: BuildingType,
    x: i32,
    y: i32,
    skip_inventory: bool,
    skip_fog: bool,
)
    ensures
        legacy_ok(occ, w, h, bt, x, y) ==> footprint_set(bt, x, y).disjoint(occ),
        request_ok(occ, w, h, terrain, current_tier, fog, inv, bt, x, y, skip_inventory, skip_fog)
            ==> legacy_ok(occ, w, h, bt, x, y),
{
    if request_ok(occ, w, h, terrain, current_tier, fog, inv, bt, x, y, skip_inventory, skip_fog) {
        assert(footprint_set(bt, x, y).contains((x, y)));
    }
}


/// Whether request `r`, with outcome `ok`, draws a building of kind `b` from
/// the inventory.
pub open spec fn draws<R>(r: PlacementRequest<R>, ok: bool, b: BuildingType) -> bool {
    ok && !r.skip_inventory_check && r.building_type == b
}

/// How many of the first `n` requests drew a building of kind `b`, given
/// their outcomes.
pub open spec fn drawn_count<R>(reqs: Seq<PlacementRequest<R>>, results: Seq<bool>, b: BuildingType, n: int) -> int
    decreases n,
{
    if n <= 0 {
        0
    } else {
        drawn_count(reqs, results, b, n - 1) + if draws(reqs[n - 1], results[n - 1], b) {
            1int
        } else {
            0int
        }
    }
}

proof fn lemma_drawn_count_prefix<R>(
    reqs1: Seq<PlacementRequest<R>>,
    res1: Seq<bool>,
    reqs2: Seq<PlacementRequest<R>>,
    res2: Seq<bool>,
    b: BuildingType,
    n: int,
)
    requires
        forall|k: int| #![trigger reqs1[k]] 0 <= k < n ==> reqs1[k] == reqs2[k] && res1[k] == res2[k],
    ensures
        drawn_count(reqs1, res1, b, n) == drawn_count(reqs2, res2, b, n),
    decreases n,
{
    if n > 0 {
        lemma_drawn_count_prefix(reqs1, res1, reqs2, res2, b, n - 1);
        assert(reqs1[n - 1] == reqs2[n - 1] && res1[n - 1] == res2[n - 1]);
    }
}

/// Checked placement conserves the inventory: for every building kind, what
/// is left plus what the placed requests drew (one per request placed with
/// the inventory check on) is what there was before.
pub proof fn lemma_inventory_conserved<R>(
    occ: Set<(i32, i32)>,
    m0: Map<BuildingType, u32>,
    w: i32,
    h: i32,
    terrain: Map<(i32, i32), crate::building::TerrainType>,
    current_tier: u8,
    fog: Option<Set<(i32, i32)>>,
    reqs: Seq<PlacementRequest<R>>,
    b: BuildingType,
)
    ensures
        ({
            let r = request_run(occ, Some(m0), w, h, terrain, current_tier, fog, reqs);
            &&& r.inv is Some
            &&& r.results.len() == reqs.len()
            &&& count_in(r.inv.unwrap(), b) + drawn_count(reqs, r.results, b, reqs.len() as int)
                == count_in(m0, b)
        }),
    decreases reqs.len(),
{
    if reqs.len() > 0 {
        let prefix = reqs.drop_last();
        lemma_inventory_conserved(occ, m0, w, h, terrain, current_tier, fog, prefix, b);
        let prev = request_run(occ, Some(m0), w, h, terrain, current_tier, fog, prefix);
        let r = request_run(occ, Some(m0), w, h, terrain, current_tier, fog, reqs);
        let n = reqs.len() as int;
        let last = reqs.last();
        let pm = prev.inv.unwrap();
        assert(r.results == prev.results.push(r.results[n - 1]));
        assert forall|k: int| #![trigger reqs[k]] 0 <= k < n - 1 implies reqs[k] == prefix[k]
            && r.results[k] == prev.results[k] by {
            assert(prefix[k] == reqs[k]);
            assert(r.results[k] == prev.results[k]);
        }
        lemma_drawn_count_prefix(reqs, r.results, prefix, prev.results, b, n - 1);
        assert(last == reqs[n - 1]);
        if draws(last, r.results[n - 1], b) {
            assert(count_in(pm, b) > 0);
        }
    }
}


/// Every checked request that is placed meets the building's own needs,
/// whatever the request's skip flags: its origin is inside the grid, an
/// extractor's origin lies on the terrain it needs, and the building's tier is
/// available.  The skip flags only waive the inventory and fog checks.  Every
/// request gets exactly one result, in order.
pub proof fn lemma_placed_requests_meet_building_needs<R>(
    occ: Set<(i32, i32)>,
    inv: Option<Map<BuildingType, u32>>,
    w: i32,
    h: i32,
    terrain: Map<(i32, i32), crate::building::TerrainType>,
    current_tier: u8,
    fog: Option<Set<(i32, i32)>>,
    reqs: Seq<PlacementRequest<R>>,
)
    ensures
        request_run(occ, inv, w, h, terrain, current_tier, fog, reqs).results.len() == reqs.len(),
        forall|i: int|
            0 <= i < reqs.len() && #[trigger] request_run(occ, inv, w, h, terrain, current_tier, fog, reqs).results[i]
                ==> {
                let r = reqs[i];
                &&& 0 <= r.x < w && 0 <= r.y < h
                &&& (terrain_req_of(r.building_type) matches Some(t) ==> terrain_at_spec(terrain, r.x, r.y) == t)
                &&& tier_of(r.building_type) <= current_tier
                &&& (!r.skip_fog_check && fog is Some ==> fog.unwrap().contains((r.x, r.y)))
            },
    decreases reqs.len(),
{
    if reqs.len() > 0 {
        let prefix = reqs.drop_last();
        lemma_placed_requests_meet_building_needs(occ, inv, w, h, terrain, current_tier, fog, prefix);
        let prev = request_run(occ, inv, w, h, terrain, current_tier, fog, prefix);
        let cur = request_run(occ, inv, w, h, terrain, current_tier, fog, reqs);
        assert forall|i: int| 0 <= i < reqs.len() && #[trigger] cur.results[i] implies {
            let r = reqs[i];
            &&& 0 <= r.x < w && 0 <= r.y < h
            &&& (terrain_req_of(r.building_type) matches Some(t) ==> terrain_at_spec(terrain, r.x, r.y) == t)
            &&& tier_of(r.building_type) <= current_tier
            &&& (!r.skip_fog_check && fog is Some ==> fog.unwrap().contains((r.x, r.y)))
        } by {
            if i < reqs.len() - 1 {
                assert(cur.results[i] == prev.results[i]);
                assert(prefix[i] == reqs[i]);
                assert(prev.results[i]);
            } else {
                assert(reqs.last() == reqs[i]);
            }
        }
    }
}

} // verus!
