//! Group formation: buildings whose footprints touch along a side form one
//! production group, and each group gets the class of its dominant building.
use crate::building::{group_class_of, BuildingType, GroupClass};
use crate::cells::CellMap;
use vstd::prelude::*;

verus! {

/// A placed building as group formation sees it: its kind and its cells.
pub struct BuildingCells {
    pub building_type: BuildingType,
    pub cells: Vec<(i32, i32)>,
}

/// `m` with every cell of `cells` mapped to `v`.
pub open spec fn overlay(m: Map<(i32, i32), usize>, cells: Seq<(i32, i32)>, v: usize) -> Map<
    (i32, i32),
    usize,
> {
    Map::new(
        |c: (i32, i32)| m.contains_key(c) || cells.contains(c),
        |c: (i32, i32)| if cells.contains(c) { v } else { m[c] },
    )
}

/// Which building each cell belongs to; when footprints overlap, the later
/// building in the list owns the cell.
pub open spec fn owner_map(bs: Seq<Seq<(i32, i32)>>) -> Map<(i32, i32), usize>
    decreases bs.len(),
{
    if bs.len() == 0 {
        Map::empty()
    } else {
        overlay(owner_map(bs.drop_last()), bs.last(), (bs.len() - 1) as usize)
    }
}

/// Building `j` owns cell `c`.
pub open spec fn owns(bs: Seq<Seq<(i32, i32)>>, c: (i32, i32), j: int) -> bool {
    owner_map(bs).contains_key(c) && owner_map(bs)[c] == j
}

/// Building `j` owns a cell next to `c` (above, below, right or left).
pub open spec fn owns_neighbor(bs: Seq<Seq<(i32, i32)>>, c: (i32, i32), j: int) -> bool {
    ||| owns(bs, (c.0, (c.1 + 1) as i32), j)
    ||| owns(bs, (c.0, (c.1 - 1) as i32), j)
    ||| owns(bs, ((c.0 + 1) as i32, c.1), j)
    ||| owns(bs, ((c.0 - 1) as i32, c.1), j)
}

/// Building `j` is another building that owns a cell next to a cell of building `i`.
pub open spec fn adjacent(bs: Seq<Seq<(i32, i32)>>, i: int, j: int) -> bool {
    &&& i != j
    &&& exists|k: int| 0 <= k < bs[i].len() && #[trigger] owns_neighbor(bs, bs[i][k], j)
}

/// No cell lies on the edge of the coordinate range, so every cell has four
/// neighbors.
pub open spec fn cells_inside(bs: Seq<Seq<(i32, i32)>>) -> bool {
    forall|i: int, k: int|
        0 <= i < bs.len() && 0 <= k < bs[i].len() ==> i32::MIN < (#[trigger] bs[i][k]).0 < i32::MAX
            && i32::MIN < bs[i][k].1 < i32::MAX
}

/// The cell lists of the buildings.
pub open spec fn cell_lists(buildings: Seq<BuildingCells>) -> Seq<Seq<(i32, i32)>> {
    buildings.map_values(|b: BuildingCells| b.cells@)
}

proof fn lemma_overlay_step(m: Map<(i32, i32), usize>, cells: Seq<(i32, i32)>, k: int, v: usize)
    requires
        0 <= k < cells.len(),
    ensures
        overlay(m, cells.take(k + 1), v) == overlay(m, cells.take(k), v).insert(cells[k], v),
{
    let t1 = cells.take(k + 1);
    let t0 = cells.take(k);
    assert forall|c: (i32, i32)| #[trigger] t1.contains(c) <==> (t0.contains(c) || c == cells[k]) by {
        if t1.contains(c) {
            let j = choose|j: int| 0 <= j < t1.len() && t1[j] == c;
            if j < k {
                assert(t0[j] == c);
            }
        }
        if t0.contains(c) {
            let j = choose|j: int| 0 <= j < t0.len() && t0[j] == c;
            assert(t1[j] == c);
        }
        if c == cells[k] {
            assert(t1[k] == c);
        }
    }
    assert(overlay(m, cells.take(k + 1), v) =~= overlay(m, cells.take(k), v).insert(cells[k], v));
}

proof fn lemma_owner_map_values(bs: Seq<Seq<(i32, i32)>>)
    ensures
        forall|c: (i32, i32)| #[trigger] owner_map(bs).contains_key(c) ==> owner_map(bs)[c] < bs.len(),
    decreases bs.len(),
{
    if bs.len() > 0 {
        lemma_owner_map_values(bs.drop_last());
        assert forall|c: (i32, i32)| #[trigger] owner_map(bs).contains_key(c) implies owner_map(bs)[c]
            < bs.len() by {
            if !bs.last().contains(c) {
                assert(owner_map(bs.drop_last()).contains_key(c));
            }
        }
    } else {
        assert(owner_map(bs) =~= Map::<(i32, i32), usize>::empty());
    }
}

/// The cell-owner table of the buildings.
fn build_owner_map(buildings: &Vec<BuildingCells>) -> (m: CellMap<usize>)
    ensures
        m@ == owner_map(cell_lists(buildings@)),
{
    let ghost bs = cell_lists(buildings@);
    let mut m: CellMap<usize> = CellMap::new();
    let mut i: usize = 0;
    while i < buildings.len()
        invariant
            bs == cell_lists(buildings@),
            i <= buildings@.len(),
            m@ == owner_map(bs.take(i as int)),
        decreases buildings@.len() - i,
    {
        let cells = &buildings[i].cells;
        assert(bs[i as int] == cells@);
        let mut k: usize = 0;
        while k < cells.len()
            invariant
                bs == cell_lists(buildings@),
                i < buildings@.len(),
                bs[i as int] == cells@,
                k <= cells@.len(),
                m@ == overlay(owner_map(bs.take(i as int)), cells@.take(k as int), i),
            decreases cells@.len() - k,
        {
            let (cx, cy) = cells[k];
            proof {
                lemma_overlay_step(owner_map(bs.take(i as int)), cells@, k as int, i);
            }
            m.insert(cx, cy, i);
            k = k + 1;
        }
        proof {
            assert(cells@.take(cells@.len() as int) =~= cells@);
            assert(bs.take(i + 1).drop_last() =~= bs.take(i as int));
            assert(bs.take(i + 1).last() == cells@);
        }
        i = i + 1;
    }
    proof {
        assert(bs.take(buildings@.len() as int) =~= bs);
        if buildings@.len() == 0 {
            assert(owner_map(bs.take(0)) =~= Map::<(i32, i32), usize>::empty());
        }
    }
    m
}

proof fn lemma_push_contains(s: Seq<usize>)
    ensures
        forall|v: usize, j: usize| #[trigger] s.push(v).contains(j) <==> (s.contains(j) || j == v),
{
    assert forall|v: usize, j: usize| #[trigger] s.push(v).contains(j) <==> (s.contains(j) || j == v) by {
        if s.push(v).contains(j) {
            let m = choose|m: int| 0 <= m < s.push(v).len() && s.push(v)[m] == j;
            if m < s.len() {
                assert(s[m] == j);
            }
        }
        if s.contains(j) {
            let m = choose|m: int| 0 <= m < s.len() && s[m] == j;
            assert(s.push(v)[m] == j);
        }
        if j == v {
            assert(s.push(v)[s.len() as int] == j);
        }
    }
}

/// Appends the owner of cell `(x, y)` when it is another building than `cur`.
fn push_owner(map: &CellMap<usize>, x: i32, y: i32, cur: usize, out: &mut Vec<usize>)
    ensures
        ({
            let own = map@.contains_key((x, y)) && map@[(x, y)] != cur;
            final(out)@ == if own { old(out)@.push(map@[(x, y)]) } else { old(out)@ }
        }),
{
    match map.get(x, y) {
        Some(j) => {
            if j != cur {
                out.push(j);
            }
        },
        None => {},
    }
}

/// The buildings adjacent to building `cur`, in the order their cells are
/// met (each cell's neighbors above, below, right, left); a building may
/// appear more than once.
fn neighbors_of(map: &CellMap<usize>, buildings: &Vec<BuildingCells>, cur: usize) -> (out: Vec<usize>)
    requires
        map@ == owner_map(cell_lists(buildings@)),
        cur < buildings@.len(),
        cells_inside(cell_lists(buildings@)),
    ensures
        forall|j: usize| out@.contains(j) <==> (j < buildings@.len() && adjacent(cell_lists(buildings@), cur as int, j as int)),
        forall|k: int| 0 <= k < out@.len() ==> #[trigger] out@[k] < buildings@.len() && out@[k] != cur,
{
    let ghost bs = cell_lists(buildings@);
    proof {
        lemma_owner_map_values(bs);
    }
    let cells = &buildings[cur].cells;
    assert(bs[cur as int] == cells@);
    let mut out: Vec<usize> = Vec::new();
    let mut k: usize = 0;
    while k < cells.len()
        invariant
            bs == cell_lists(buildings@),
            map@ == owner_map(bs),
            forall|c: (i32, i32)| #[trigger] owner_map(bs).contains_key(c) ==> owner_map(bs)[c] < bs.len(),
            cur < buildings@.len(),
            cells_inside(bs),
            bs[cur as int] == cells@,
            k <= cells@.len(),
            forall|j: usize| #![trigger out@.contains(j)] j < bs.len() ==> (out@.contains(j) <==> (j != cur
                && exists|kk: int| 0 <= kk < k && #[trigger] owns_neighbor(bs, bs[cur as int][kk], j as int))),
            forall|m: int| 0 <= m < out@.len() ==> #[trigger] out@[m] < bs.len() && out@[m] != cur,
        decreases cells@.len() - k,
    {
        let (cx, cy) = cells[k];
        assert(bs[cur as int][k as int] == (cx, cy));
        let ghost before = out@;
        proof {
            assert(bs[cur as int][k as int] == (cx, cy));
            lemma_push_contains(out@);
        }
        push_owner(map, cx, cy + 1, cur, &mut out);
        proof { lemma_push_contains(out@); }
        push_owner(map, cx, cy - 1, cur, &mut out);
        proof { lemma_push_contains(out@); }
        push_owner(map, cx + 1, cy, cur, &mut out);
        proof { lemma_push_contains(out@); }
        push_owner(map, cx - 1, cy, cur, &mut out);
        proof {
            assert forall|j: usize| #![trigger out@.contains(j)] j < bs.len() implies (out@.contains(j) <==> (j != cur
                && exists|kk: int| 0 <= kk < k + 1 && #[trigger] owns_neighbor(bs, bs[cur as int][kk], j as int))) by {
                assert(out@.contains(j) <==> (before.contains(j) || (j != cur && owns_neighbor(bs, (cx, cy), j as int))));
                if j != cur && exists|kk: int| 0 <= kk < k + 1 && #[trigger] owns_neighbor(bs, bs[cur as int][kk], j as int) {
                    let kk = choose|kk: int| 0 <= kk < k + 1 && #[trigger] owns_neighbor(bs, bs[cur as int][kk], j as int);
                    if kk == k {
                        assert(owns_neighbor(bs, (cx, cy), j as int));
                    }
                }
                if before.contains(j) {
                    let kk = choose|kk: int| 0 <= kk < k && #[trigger] owns_neighbor(bs, bs[cur as int][kk], j as int);
                    assert(0 <= kk < k + 1);
                }
            }
            assert forall|m: int| 0 <= m < out@.len() implies #[trigger] out@[m] < bs.len() && out@[m] != cur by {
                assert(out@.contains(out@[m]));
            }
        }
        k = k + 1;
    }
    out
}

/// Some building in `types` has class `c`.
pub open spec fn has_class(types: Seq<BuildingType>, c: GroupClass) -> bool {
    exists|i: int| 0 <= i < types.len() && group_class_of(#[trigger] types[i]) == c
}

/// The class of a group with these building kinds: the first class present
/// in the order Combat, Mall, Extraction, Synthesis, Energy, Opus, Utility,
/// and Synthesis when there is none.
pub open spec fn dominant_class(types: Seq<BuildingType>) -> GroupClass {
    if has_class(types, GroupClass::Combat) {
        GroupClass::Combat
    } else if has_class(types, GroupClass::Mall) {
        GroupClass::Mall
    } else if has_class(types, GroupClass::Extraction) {
        GroupClass::Extraction
    } else if has_class(types, GroupClass::Synthesis) {
        GroupClass::Synthesis
    } else if has_class(types, GroupClass::Energy) {
        GroupClass::Energy
    } else if has_class(types, GroupClass::Opus) {
        GroupClass::Opus
    } else if has_class(types, GroupClass::Utility) {
        GroupClass::Utility
    } else {
        GroupClass::Synthesis
    }
}

fn any_of_class(types: &Vec<BuildingType>, c: GroupClass) -> (b: bool)
    ensures
        b == has_class(types@, c),
{
    let mut i: usize = 0;
    while i < types.len()
        invariant
            i <= types@.len(),
            forall|j: int| 0 <= j < i ==> group_class_of(#[trigger] types@[j]) != c,
        decreases types@.len() - i,
    {
        if types[i].group_class() == c {
            return true;
        }
        i = i + 1;
    }
    false
}

/// The dominant class of a group made of buildings of the given kinds.
pub fn determine_group_class(types: &Vec<BuildingType>) -> (c: GroupClass)
    ensures
        c == dominant_class(types@),
{
    if any_of_class(types, GroupClass::Combat) {
        GroupClass::Combat
    } else if any_of_class(types, GroupClass::Mall) {
        GroupClass::Mall
    } else if any_of_class(types, GroupClass::Extraction) {
        GroupClass::Extraction
    } else if any_of_class(types, GroupClass::Synthesis) {
        GroupClass::Synthesis
    } else if any_of_class(types, GroupClass::Energy) {
        GroupClass::Energy
    } else if any_of_class(types, GroupClass::Opus) {
        GroupClass::Opus
    } else if any_of_class(types, GroupClass::Utility) {
        GroupClass::Utility
    } else {
        GroupClass::Synthesis
    }
}

/// The class of a group follows a fixed priority over the classes of its
/// buildings: Combat, then Mall, Extraction, Synthesis, Energy, Opus and
/// Utility.  A group takes the first class in that order that one of its
/// buildings has, and Synthesis when it has no buildings.
pub proof fn lemma_group_class_priority(types: Seq<BuildingType>)
    ensures
        (exists|i: int| 0 <= i < types.len() && group_class_of(#[trigger] types[i]) == GroupClass::Combat)
            ==> dominant_class(types) == GroupClass::Combat,
        (exists|i: int| 0 <= i < types.len() && group_class_of(#[trigger] types[i]) == GroupClass::Mall)
            && (forall|i: int| 0 <= i < types.len() ==> group_class_of(#[trigger] types[i]) != GroupClass::Combat)
            ==> dominant_class(types) == GroupClass::Mall,
        (exists|i: int| 0 <= i < types.len() && group_class_of(#[trigger] types[i]) == GroupClass::Extraction)
            && (forall|i: int| 0 <= i < types.len() ==> group_class_of(#[trigger] types[i]) != GroupClass::Combat
            && group_class_of(types[i]) != GroupClass::Mall) ==> dominant_class(types) == GroupClass::Extraction,
        (forall|i: int| 0 <= i < types.len() ==> {
            let c = group_class_of(#[trigger] types[i]);
            c != GroupClass::Combat && c != GroupClass::Mall && c != GroupClass::Extraction
        }) ==> dominant_class(types) != GroupClass::Combat && dominant_class(types) != GroupClass::Mall
            && dominant_class(types) != GroupClass::Extraction,
        types.len() == 0 ==> dominant_class(types) == GroupClass::Synthesis,
        types.len() > 0 ==> exists|i: int| 0 <= i < types.len() && group_class_of(#[trigger] types[i])
            == dominant_class(types),
        forall|i: int| 0 <= i < types.len() ==> class_rank(dominant_class(types)) <= class_rank(
            group_class_of(#[trigger] types[i]),
        ),
{
    if types.len() > 0 {
        let c0 = group_class_of(types[0]);
        assert(has_class(types, c0));
        assert(has_class(types, dominant_class(types)));
    }
}

/// The place of a class in the priority order Combat, Mall, Extraction,
/// Synthesis, Energy, Opus, Utility.
pub open spec fn class_rank(c: GroupClass) -> int {
    match c {
        GroupClass::Combat => 0,
        GroupClass::Mall => 1,
        GroupClass::Extraction => 2,
        GroupClass::Synthesis => 3,
        GroupClass::Energy => 4,
        GroupClass::Opus => 5,
        GroupClass::Utility => 6,
    }
}

/// A production group: its buildings (indices into the building list, in the
/// order they were reached) and its class.
pub struct FormedGroup {
    pub members: Vec<usize>,
    pub class: GroupClass,
}

/// The grouping of a list of buildings.
pub struct GroupFormation {
    /// The group of each building.
    pub labels: Vec<usize>,
    pub groups: Vec<FormedGroup>,
}

/// The kinds of the listed buildings.
pub open spec fn member_types(buildings: Seq<BuildingCells>, members: Seq<usize>) -> Seq<BuildingType> {
    members.map_values(|m: usize| buildings[m as int].building_type)
}

/// Each member after the first is adjacent to an earlier member.
pub open spec fn chain_connected(bs: Seq<Seq<(i32, i32)>>, m: Seq<usize>) -> bool {
    forall|k: int| 1 <= k < m.len() ==> exists|p: int| 0 <= p < k
        && adjacent(bs, #[trigger] m[p] as int, #[trigger] m[k] as int)
}

/// `labels` and `gm` describe a grouping of `n` buildings into connected
/// groups: group `g` is listed in `gm[g]`, starting from its root, each later
/// member adjacent to an earlier one, and each root is the first building not
/// in an earlier group.
pub open spec fn grouping_ok(bs: Seq<Seq<(i32, i32)>>, labels: Seq<usize>, gm: Seq<Seq<usize>>) -> bool {
    &&& labels.len() == bs.len()
    &&& forall|i: int| 0 <= i < bs.len() ==> #[trigger] labels[i] < gm.len() && gm[labels[i] as int].contains(i as usize)
    &&& forall|g: int| 0 <= g < gm.len() ==> (#[trigger] gm[g]).len() > 0 && gm[g].no_duplicates()
    &&& forall|g: int, k: int| 0 <= g < gm.len() && 0 <= k < gm[g].len() ==> #[trigger] gm[g][k] < bs.len()
        && labels[gm[g][k] as int] == g
    &&& forall|g: int| 0 <= g < gm.len() ==> chain_connected(bs, #[trigger] gm[g])
    &&& forall|g: int, i: int| #![trigger gm[g][0], labels[i]] 0 <= g < gm.len() && 0 <= i < gm[g][0] ==> labels[i] < g
}

/// The member lists of the groups.
pub open spec fn members_of(groups: Seq<FormedGroup>) -> Seq<Seq<usize>> {
    groups.map_values(|g: FormedGroup| g.members@)
}

/// The state of group formation between two groups: `G` groups are done,
/// every building before `s` is in one of them, and every other building is
/// still unlabelled (label `n`).
pub open spec fn done_ok(
    buildings: Seq<BuildingCells>,
    labels: Seq<usize>,
    groups: Seq<FormedGroup>,
    s: int,
) -> bool {
    let bs = cell_lists(buildings);
    let gm = members_of(groups);
    let n = bs.len();
    let G = groups.len();
    &&& labels.len() == n
    &&& n <= usize::MAX
    &&& G <= s <= n
    &&& forall|i: int| 0 <= i < n ==> #[trigger] labels[i] < G || labels[i] == n
    &&& forall|i: int| 0 <= i < s ==> #[trigger] labels[i] < G
    &&& forall|i: int| 0 <= i < n && #[trigger] labels[i] < G ==> gm[labels[i] as int].contains(i as usize)
    &&& forall|g: int| 0 <= g < G ==> (#[trigger] gm[g]).len() > 0 && gm[g].no_duplicates()
    &&& forall|g: int, k: int| 0 <= g < G && 0 <= k < gm[g].len() ==> #[trigger] gm[g][k] < n
        && labels[gm[g][k] as int] == g
    &&& forall|g: int| 0 <= g < G ==> chain_connected(bs, #[trigger] gm[g])
    &&& forall|g: int, i: int| #![trigger gm[g][0], labels[i]] 0 <= g < G && 0 <= i < gm[g][0] ==> labels[i] < g
    &&& forall|i: int, j: int| 0 <= i < n && 0 <= j < n && #[trigger] labels[i] < G && #[trigger] adjacent(bs, i, j)
        ==> labels[j] <= labels[i]
    &&& forall|g: int| 0 <= g < G ==> #[trigger] groups[g].class == dominant_class(
        member_types(buildings, groups[g].members@),
    )
}

/// The state of group formation while group `g` (rooted at `s`) is being
/// filled: the finished groups are as in `done_ok`, and the buildings labelled
/// `g` are exactly `members`, each after the first adjacent to an earlier one.
pub open spec fn bfs_ok(
    buildings: Seq<BuildingCells>,
    labels: Seq<usize>,
    groups: Seq<FormedGroup>,
    s: int,
    members: Seq<usize>,
) -> bool {
    let bs = cell_lists(buildings);
    let gm = members_of(groups);
    let n = bs.len();
    let g = groups.len();
    &&& labels.len() == n
    &&& n <= usize::MAX
    &&& g <= s < n
    &&& members.len() > 0
    &&& members[0] == s
    &&& members.no_duplicates()
    &&& forall|k: int| 0 <= k < members.len() ==> #[trigger] members[k] < n && labels[members[k] as int] == g
    &&& forall|i: int| 0 <= i < n && #[trigger] labels[i] == g ==> members.contains(i as usize)
    &&& forall|i: int| 0 <= i < n ==> #[trigger] labels[i] <= g || labels[i] == n
    &&& forall|i: int| 0 <= i < s ==> #[trigger] labels[i] < g
    &&& forall|i: int| 0 <= i < n && #[trigger] labels[i] < g ==> gm[labels[i] as int].contains(i as usize)
    &&& forall|gg: int| 0 <= gg < g ==> (#[trigger] gm[gg]).len() > 0 && gm[gg].no_duplicates()
    &&& forall|gg: int, k: int| 0 <= gg < g && 0 <= k < gm[gg].len() ==> #[trigger] gm[gg][k] < n
        && labels[gm[gg][k] as int] == gg
    &&& forall|gg: int| 0 <= gg < g ==> chain_connected(bs, #[trigger] gm[gg])
    &&& forall|gg: int, i: int| #![trigger gm[gg][0], labels[i]] 0 <= gg < g && 0 <= i < gm[gg][0] ==> labels[i] < gg
    &&& forall|i: int, j: int| 0 <= i < n && 0 <= j < n && #[trigger] labels[i] < g && #[trigger] adjacent(bs, i, j)
        ==> labels[j] <= labels[i]
    &&& forall|gg: int| 0 <= gg < g ==> #[trigger] groups[gg].class == dominant_class(
        member_types(buildings, groups[gg].members@),
    )
    &&& chain_connected(bs, members)
}

/// Every neighbor of the first `h` members has been labelled.
pub open spec fn processed(bs: Seq<Seq<(i32, i32)>>, labels: Seq<usize>, members: Seq<usize>, h: int, g: int) -> bool {
    forall|p: int, j: int| 0 <= p < h && 0 <= j < bs.len() && #[trigger] adjacent(bs, members[p] as int, j)
        ==> labels[j] <= g
}

/// The indices below `n`.
pub open spec fn usize_range(n: usize) -> Set<usize> {
    Set::new(|i: usize| i < n)
}

proof fn lemma_usize_range(n: usize)
    ensures
        usize_range(n).finite(),
        usize_range(n).len() == n,
    decreases n,
{
    if n == 0 {
        assert(usize_range(0) =~= Set::<usize>::empty());
    } else {
        lemma_usize_range((n - 1) as usize);
        assert(usize_range((n - 1) as usize).insert((n - 1) as usize) =~= usize_range(n));
    }
}

/// Distinct indices below `n` number at most `n`.
proof fn lemma_distinct_bounded(s: Seq<usize>, n: usize)
    requires
        s.no_duplicates(),
        forall|k: int| 0 <= k < s.len() ==> #[trigger] s[k] < n,
    ensures
        s.len() <= n,
{
    s.unique_seq_to_set();
    lemma_usize_range(n);
    assert(s.to_set().subset_of(usize_range(n)));
    vstd::set_lib::lemma_len_subset(s.to_set(), usize_range(n));
}

proof fn lemma_bfs_start(buildings: Seq<BuildingCells>, labels: Seq<usize>, groups: Seq<FormedGroup>, s: int)
    requires
        done_ok(buildings, labels, groups, s),
        s < buildings.len(),
        labels[s] == buildings.len(),
    ensures
        bfs_ok(buildings, labels.update(s, groups.len() as usize), groups, s, seq![s as usize]),
        processed(cell_lists(buildings), labels.update(s, groups.len() as usize), seq![s as usize], 0, groups.len() as int),
{
    let bs = cell_lists(buildings);
    let l2 = labels.update(s, groups.len() as usize);
    let g = groups.len();
    let gm = members_of(groups);
    assert(seq![s as usize].contains(s as usize)) by {
        assert(seq![s as usize][0] == s as usize);
    }
    assert forall|i: int| 0 <= i < bs.len() && #[trigger] l2[i] == g implies seq![s as usize].contains(i as usize) by {
        assert(i == s);
    }
    assert forall|i: int, j: int| 0 <= i < bs.len() && 0 <= j < bs.len() && #[trigger] l2[i] < g && #[trigger] adjacent(bs, i, j)
        implies l2[j] <= l2[i] by {
        assert(labels[i] < g);
        assert(labels[j] <= labels[i]);
    }
    assert forall|gg: int, i: int| #![trigger gm[gg][0], l2[i]] 0 <= gg < g && 0 <= i < gm[gg][0] implies l2[i] < gg by {
        assert(labels[i] < gg);
    }
}

proof fn lemma_bfs_push(
    buildings: Seq<BuildingCells>,
    labels: Seq<usize>,
    groups: Seq<FormedGroup>,
    s: int,
    members: Seq<usize>,
    h: int,
    j: usize,
)
    requires
        bfs_ok(buildings, labels, groups, s, members),
        processed(cell_lists(buildings), labels, members, h - 1, groups.len() as int),
        1 <= h <= members.len(),
        j < buildings.len(),
        labels[j as int] == buildings.len(),
        adjacent(cell_lists(buildings), members[h - 1] as int, j as int),
    ensures
        bfs_ok(buildings, labels.update(j as int, groups.len() as usize), groups, s, members.push(j)),
        processed(cell_lists(buildings), labels.update(j as int, groups.len() as usize), members.push(j), h - 1, groups.len() as int),
        members.push(j)[h - 1] == members[h - 1],
{
    let bs = cell_lists(buildings);
    let n = bs.len();
    let g = groups.len();
    let gm = members_of(groups);
    let l2 = labels.update(j as int, g as usize);
    let m2 = members.push(j);
    assert(!members.contains(j)) by {
        if members.contains(j) {
            let k = choose|k: int| 0 <= k < members.len() && members[k] == j;
            assert(labels[members[k] as int] == g);
        }
    }
    assert forall|k: int| 0 <= k < m2.len() implies #[trigger] m2[k] < n && l2[m2[k] as int] == g by {
        if k < members.len() {
            assert(m2[k] == members[k]);
        }
    }
    assert forall|i: int| 0 <= i < n && #[trigger] l2[i] == g implies m2.contains(i as usize) by {
        if i == j {
            assert(m2[members.len() as int] == j);
        } else {
            assert(members.contains(i as usize));
            let k = choose|k: int| 0 <= k < members.len() && members[k] == i as usize;
            assert(m2[k] == i as usize);
        }
    }
    assert forall|i: int, jj: int| 0 <= i < n && 0 <= jj < n && #[trigger] l2[i] < g && #[trigger] adjacent(bs, i, jj)
        implies l2[jj] <= l2[i] by {
        assert(labels[i] < g);
        assert(labels[jj] <= labels[i]);
    }
    assert forall|gg: int, i: int| #![trigger gm[gg][0], l2[i]] 0 <= gg < g && 0 <= i < gm[gg][0] implies l2[i] < gg by {
        assert(labels[i] < gg);
    }
    assert forall|k: int| 1 <= k < m2.len() implies exists|p: int| 0 <= p < k
        && adjacent(bs, #[trigger] m2[p] as int, #[trigger] m2[k] as int) by {
        assert(chain_connected(bs, members));
        if k == members.len() {
            assert(m2[h - 1] == members[h - 1]);
            assert(adjacent(bs, m2[h - 1] as int, m2[k] as int));
        } else {
            let p = choose|p: int| 0 <= p < k && adjacent(bs, #[trigger] members[p] as int, #[trigger] members[k] as int);
            assert(m2[p] == members[p] && m2[k] == members[k]);
        }
    }
    assert forall|p: int, jj: int| 0 <= p < h - 1 && 0 <= jj < n && #[trigger] adjacent(bs, m2[p] as int, jj)
        implies l2[jj] <= g by {
        assert(m2[p] == members[p]);
    }
    assert(m2[0] == s);
    assert(m2.no_duplicates()) by {
        assert forall|a: int, b: int| 0 <= a < m2.len() && 0 <= b < m2.len() && a != b implies m2[a] != m2[b] by {
            if a == members.len() {
                assert(members.contains(m2[b]));
            } else if b == members.len() {
                assert(members.contains(m2[a]));
            }
        }
    }
    assert forall|i: int| 0 <= i < n implies #[trigger] l2[i] <= g || l2[i] == n by {}
    assert forall|i: int| 0 <= i < s implies #[trigger] l2[i] < g by {
        assert(labels[i] < g);
    }
    assert forall|i: int| 0 <= i < n && #[trigger] l2[i] < g implies gm[l2[i] as int].contains(i as usize) by {
        assert(labels[i] < g);
    }
    assert forall|gg: int, k: int| 0 <= gg < g && 0 <= k < gm[gg].len() implies #[trigger] gm[gg][k] < n
        && l2[gm[gg][k] as int] == gg by {
        assert(labels[gm[gg][k] as int] == gg);
    }
    assert(chain_connected(bs, m2));
}

proof fn lemma_finish_group(
    buildings: Seq<BuildingCells>,
    labels: Seq<usize>,
    groups: Seq<FormedGroup>,
    s: int,
    members: Seq<usize>,
    grp: FormedGroup,
)
    requires
        bfs_ok(buildings, labels, groups, s, members),
        processed(cell_lists(buildings), labels, members, members.len() as int, groups.len() as int),
        grp.members@ == members,
        grp.class == dominant_class(member_types(buildings, members)),
    ensures
        done_ok(buildings, labels, groups.push(grp), s + 1),
{
    let bs = cell_lists(buildings);
    let n = bs.len();
    let g = groups.len();
    let gm = members_of(groups);
    let g2 = groups.push(grp);
    let gm2 = members_of(g2);
    assert(gm2 =~= gm.push(members));
    assert forall|i: int| 0 <= i < s + 1 implies #[trigger] labels[i] < g + 1 by {
        if i == s {
            assert(labels[members[0] as int] == g);
        }
    }
    assert forall|i: int| 0 <= i < n && #[trigger] labels[i] < g + 1 implies gm2[labels[i] as int].contains(i as usize) by {
        if labels[i] == g {
            assert(members.contains(i as usize));
        }
    }
    assert forall|i: int, j: int| 0 <= i < n && 0 <= j < n && #[trigger] labels[i] < g + 1 && #[trigger] adjacent(bs, i, j)
        implies labels[j] <= labels[i] by {
        if labels[i] == g {
            assert(members.contains(i as usize));
            let p = choose|p: int| 0 <= p < members.len() && members[p] == i as usize;
            assert(members[p] as int == i);
            assert(adjacent(bs, members[p] as int, j));
        }
    }
    assert forall|gg: int, i: int| #![trigger gm2[gg][0], labels[i]] 0 <= gg < g + 1 && 0 <= i < gm2[gg][0] implies labels[i] < gg by {
        if gg < g {
            assert(gm2[gg] == gm[gg]);
        } else {
            assert(gm2[gg][0] == s);
        }
    }
    assert forall|gg: int| 0 <= gg < g + 1 implies chain_connected(bs, #[trigger] gm2[gg]) by {
        if gg < g {
            assert(gm2[gg] == gm[gg]);
        } else {
            assert(gm2[gg] == members);
        }
    }
    assert forall|gg: int| 0 <= gg < g + 1 implies #[trigger] g2[gg].class == dominant_class(
        member_types(buildings, g2[gg].members@)) by {
        if gg < g {
            assert(g2[gg] == groups[gg]);
        }
    }
    assert forall|gg: int| 0 <= gg < g + 1 implies (#[trigger] gm2[gg]).len() > 0 && gm2[gg].no_duplicates() by {
        if gg < g {
            assert(gm2[gg] == gm[gg]);
        }
    }
    assert forall|gg: int, k: int| 0 <= gg < g + 1 && 0 <= k < gm2[gg].len() implies #[trigger] gm2[gg][k] < n
        && labels[gm2[gg][k] as int] == gg by {
        if gg < g {
            assert(gm2[gg] == gm[gg]);
        }
    }
}

proof fn lemma_skip_labelled(buildings: Seq<BuildingCells>, labels: Seq<usize>, groups: Seq<FormedGroup>, s: int)
    requires
        done_ok(buildings, labels, groups, s),
        s < buildings.len(),
        labels[s] != buildings.len(),
    ensures
        done_ok(buildings, labels, groups, s + 1),
{
    let bs = cell_lists(buildings);
    assert(labels[s] < groups.len());
    assert(groups.len() <= s + 1);
}

proof fn lemma_done(buildings: Seq<BuildingCells>, labels: Seq<usize>, groups: Seq<FormedGroup>)
    requires
        done_ok(buildings, labels, groups, buildings.len() as int),
    ensures
        grouping_ok(cell_lists(buildings), labels, members_of(groups)),
        forall|i: int, j: int|
            0 <= i < buildings.len() && 0 <= j < buildings.len() && #[trigger] adjacent(
                cell_lists(buildings),
                i,
                j,
            ) ==> labels[j] <= labels[i],
{
    let bs = cell_lists(buildings);
    assert forall|i: int, j: int|
        0 <= i < buildings.len() && 0 <= j < buildings.len() && #[trigger] adjacent(bs, i, j)
        implies labels[j] <= labels[i] by {
        assert(labels[i] < groups.len());
    }
    assert forall|i: int| 0 <= i < bs.len() implies #[trigger] labels[i] < members_of(groups).len()
        && members_of(groups)[labels[i] as int].contains(i as usize) by {
        assert(labels[i] < groups.len());
    }
}

/// Splits the buildings into groups: two buildings are in the same group
/// when one can be reached from the other through buildings whose footprints
/// touch along a side.  Buildings are visited in list order; each building
/// not yet grouped starts a new group, which is filled breadth first.
pub fn form_groups(buildings: &Vec<BuildingCells>) -> (f: GroupFormation)
    requires
        cells_inside(cell_lists(buildings@)),
    ensures
        grouping_ok(cell_lists(buildings@), f.labels@, members_of(f.groups@)),
        forall|i: int, j: int|
            0 <= i < buildings@.len() && 0 <= j < buildings@.len() && #[trigger] adjacent(
                cell_lists(buildings@),
                i,
                j,
            ) ==> f.labels@[j] <= f.labels@[i],
        forall|g: int| 0 <= g < f.groups@.len() ==> #[trigger] f.groups@[g].class == dominant_class(
            member_types(buildings@, f.groups@[g].members@),
        ),
        footprints_disjoint(cell_lists(buildings@)) ==> forall|a: int, b: int|
            0 <= a < buildings@.len() && 0 <= b < buildings@.len() ==> (f.labels@[a] == f.labels@[b]
                <==> #[trigger] linked(cell_lists(buildings@), a, b)),
        forall|g: int, i: int|
            0 <= g < f.groups@.len() && 0 <= i < buildings@.len() ==> (
            #[trigger] f.groups@[g].members@.contains(i as usize) <==> f.labels@[i] == g),
{
    let ghost bs = cell_lists(buildings@);
    let n = buildings.len();
    let map = build_owner_map(buildings);
    let mut labels: Vec<usize> = Vec::new();
    let mut i: usize = 0;
    while i < n
        invariant
            n == buildings@.len(),
            i <= n,
            labels@.len() == i,
            forall|j: int| 0 <= j < i ==> labels@[j] == n,
        decreases n - i,
    {
        labels.push(n);
        i = i + 1;
    }
    let mut groups: Vec<FormedGroup> = Vec::new();
    assert(members_of(groups@) =~= Seq::<Seq<usize>>::empty());
    let mut s: usize = 0;
    while s < n
        invariant
            bs == cell_lists(buildings@),
            n == buildings@.len(),
            map@ == owner_map(bs),
            cells_inside(bs),
            s <= n,
            done_ok(buildings@, labels@, groups@, s as int),
        decreases n - s,
    {
        if labels[s] == n {
            let g = groups.len();
            proof {
                lemma_bfs_start(buildings@, labels@, groups@, s as int);
            }
            let mut members: Vec<usize> = Vec::new();
            members.push(s);
            labels.set(s, g);
            assert(members@ =~= seq![s]);
            let mut head: usize = 0;
            while head < members.len()
                invariant
                    bs == cell_lists(buildings@),
                    n == buildings@.len(),
                    map@ == owner_map(bs),
                    cells_inside(bs),
                    g == groups@.len(),
                    head <= members@.len(),
                    bfs_ok(buildings@, labels@, groups@, s as int, members@),
                    processed(bs, labels@, members@, head as int, g as int),
                    members@.len() <= n,
                decreases n - head,
            {
                let cur = members[head];
                head = head + 1;
                let nbrs = neighbors_of(&map, buildings, cur);
                let mut t: usize = 0;
                while t < nbrs.len()
                    invariant
                        bs == cell_lists(buildings@),
                        n == buildings@.len(),
                        g == groups@.len(),
                        1 <= head <= members@.len(),
                        members@[head - 1] == cur,
                        forall|j: usize| nbrs@.contains(j) <==> (j < n && adjacent(bs, cur as int, j as int)),
                        forall|k: int| 0 <= k < nbrs@.len() ==> #[trigger] nbrs@[k] < n && nbrs@[k] != cur,
                        t <= nbrs@.len(),
                        bfs_ok(buildings@, labels@, groups@, s as int, members@),
                        processed(bs, labels@, members@, head - 1, g as int),
                        forall|k: int| 0 <= k < t ==> labels@[#[trigger] nbrs@[k] as int] <= g,
                        members@.len() <= n,
                    decreases nbrs@.len() - t,
                {
                    let j = nbrs[t];
                    if labels[j] == n {
                        proof {
                            assert(nbrs@.contains(j));
                            lemma_bfs_push(buildings@, labels@, groups@, s as int, members@, head as int, j);
                        }
                        labels.set(j, g);
                        members.push(j);
                        proof {
                            lemma_distinct_bounded(members@, n);
                        }
                    }
                    t = t + 1;
                }
                proof {
                    assert forall|p: int, j: int| 0 <= p < head && 0 <= j < bs.len() && #[trigger] adjacent(bs, members@[p] as int, j)
                        implies labels@[j] <= g by {
                        if p == head - 1 {
                            assert(nbrs@.contains(j as usize));
                            let k = choose|k: int| 0 <= k < nbrs@.len() && nbrs@[k] == j as usize;
                            assert(labels@[nbrs@[k] as int] <= g);
                        }
                    }
                }
            }
            let mut types: Vec<BuildingType> = Vec::new();
            let mut k: usize = 0;
            while k < members.len()
                invariant
                    n == buildings@.len(),
                    k <= members@.len(),
                    forall|kk: int| 0 <= kk < members@.len() ==> #[trigger] members@[kk] < n,
                    types@ == member_types(buildings@, members@).take(k as int),
                decreases members@.len() - k,
            {
                types.push(buildings[members[k]].building_type);
                k = k + 1;
                assert(types@ =~= member_types(buildings@, members@).take(k as int));
            }
            assert(types@ =~= member_types(buildings@, members@));
            let class = determine_group_class(&types);
            let grp = FormedGroup { members, class };
            proof {
                lemma_finish_group(buildings@, labels@, groups@, s as int, grp.members@, grp);
            }
            groups.push(grp);
        } else {
            proof {
                lemma_skip_labelled(buildings@, labels@, groups@, s as int);
            }
        }
        s = s + 1;
    }
    proof {
        lemma_done(buildings@, labels@, groups@);
        let gm = members_of(groups@);
        lemma_groups_listed(bs, labels@, gm);
        assert forall|g: int| 0 <= g < groups@.len() implies #[trigger] groups@[g].members@ == gm[g] by {}
        if footprints_disjoint(bs) {
            lemma_groups_are_components(bs, labels@, gm);
        }
    }
    GroupFormation { labels, groups }
}

/// No cell belongs to two buildings.
pub open spec fn footprints_disjoint(bs: Seq<Seq<(i32, i32)>>) -> bool {
    forall|i: int, j: int, c: (i32, i32)|
        0 <= i < bs.len() && 0 <= j < bs.len() && i != j && #[trigger] bs[i].contains(c)
            ==> !#[trigger] bs[j].contains(c)
}

/// With disjoint footprints, a building owns exactly its own cells.
pub proof fn lemma_owner_is_footprint(bs: Seq<Seq<(i32, i32)>>)
    requires
        footprints_disjoint(bs),
        bs.len() <= usize::MAX,
    ensures
        forall|c: (i32, i32), j: int| 0 <= j < bs.len() ==> (owns(bs, c, j) <==> #[trigger] bs[j].contains(c)),
    decreases bs.len(),
{
    if bs.len() > 0 {
        let prev = bs.drop_last();
        assert(footprints_disjoint(prev)) by {
            assert forall|i: int, j: int, c: (i32, i32)|
                0 <= i < prev.len() && 0 <= j < prev.len() && i != j && #[trigger] prev[i].contains(c)
                    implies !#[trigger] prev[j].contains(c) by {
                assert(prev[i] == bs[i] && prev[j] == bs[j]);
            }
        }
        lemma_owner_is_footprint(prev);
        lemma_owner_map_values(prev);
        let last = (bs.len() - 1) as int;
        assert(owner_map(bs) == overlay(owner_map(prev), bs.last(), last as usize));
        assert(bs.last() == bs[last]);
        assert forall|c: (i32, i32), j: int| 0 <= j < bs.len() implies (owns(bs, c, j) <==> #[trigger] bs[j].contains(c)) by {
            let om = owner_map(bs);
            let pm = owner_map(prev);
            assert(om.contains_key(c) <==> (pm.contains_key(c) || bs[last].contains(c)));
            if bs[last].contains(c) {
                assert(om[c] == last);
                if j < last {
                    assert(!bs[j].contains(c));
                }
            } else {
                assert(om.contains_key(c) <==> pm.contains_key(c));
                if pm.contains_key(c) {
                    assert(om[c] == pm[c]);
                    assert(pm[c] < prev.len());
                }
                if j < last {
                    assert(prev[j] == bs[j]);
                    assert(owns(prev, c, j) <==> prev[j].contains(c));
                }
            }
        }
    }
}

/// With disjoint footprints, adjacency is symmetric.
pub proof fn lemma_adjacent_symmetric(bs: Seq<Seq<(i32, i32)>>, i: int, j: int)
    requires
        footprints_disjoint(bs),
        bs.len() <= usize::MAX,
        cells_inside(bs),
        0 <= i < bs.len(),
        0 <= j < bs.len(),
        adjacent(bs, i, j),
    ensures
        adjacent(bs, j, i),
{
    lemma_owner_is_footprint(bs);
    let k = choose|k: int| 0 <= k < bs[i].len() && #[trigger] owns_neighbor(bs, bs[i][k], j);
    let c = bs[i][k];
    assert(i32::MIN < c.0 < i32::MAX && i32::MIN < c.1 < i32::MAX);
    assert(bs[i].contains(c));
    let nb = if owns(bs, (c.0, (c.1 + 1) as i32), j) {
        (c.0, (c.1 + 1) as i32)
    } else if owns(bs, (c.0, (c.1 - 1) as i32), j) {
        (c.0, (c.1 - 1) as i32)
    } else if owns(bs, ((c.0 + 1) as i32, c.1), j) {
        ((c.0 + 1) as i32, c.1)
    } else {
        ((c.0 - 1) as i32, c.1)
    };
    assert(bs[j].contains(nb));
    let k2 = choose|k2: int| 0 <= k2 < bs[j].len() && bs[j][k2] == nb;
    assert(owns(bs, c, i));
    assert(owns_neighbor(bs, bs[j][k2], i));
}

/// Buildings whose footprints touch along a side end up in the same group,
/// provided no cell belongs to two buildings.
pub proof fn lemma_touching_buildings_share_group(bs: Seq<Seq<(i32, i32)>>, labels: Seq<usize>)
    requires
        footprints_disjoint(bs),
        bs.len() <= usize::MAX,
        cells_inside(bs),
        labels.len() == bs.len(),
        forall|i: int, j: int|
            0 <= i < bs.len() && 0 <= j < bs.len() && #[trigger] adjacent(bs, i, j) ==> labels[j] <= labels[i],
    ensures
        forall|i: int, j: int|
            0 <= i < bs.len() && 0 <= j < bs.len() && #[trigger] adjacent(bs, i, j) ==> labels[i] == labels[j],
{
    assert forall|i: int, j: int|
        0 <= i < bs.len() && 0 <= j < bs.len() && #[trigger] adjacent(bs, i, j) implies labels[i] == labels[j] by {
        lemma_adjacent_symmetric(bs, i, j);
    }
}


/// Step `i` of `p` goes from a building to one that touches it along a side.
pub open spec fn chain_step(bs: Seq<Seq<(i32, i32)>>, p: Seq<int>, i: int) -> bool {
    adjacent(bs, p[i - 1], p[i])
}

/// `p` lists buildings, each touching the next along a side.
pub open spec fn is_chain(bs: Seq<Seq<(i32, i32)>>, p: Seq<int>) -> bool {
    &&& p.len() > 0
    &&& forall|i: int| 0 <= i < p.len() ==> 0 <= #[trigger] p[i] < bs.len()
    &&& forall|i: int| 1 <= i < p.len() ==> #[trigger] chain_step(bs, p, i)
}

/// Buildings `a` and `b` are linked by a chain of buildings, each touching the
/// next along a side (diagonal contact does not count).
pub open spec fn linked(bs: Seq<Seq<(i32, i32)>>, a: int, b: int) -> bool {
    exists|p: Seq<int>| #[trigger] is_chain(bs, p) && p[0] == a && p.last() == b
}

proof fn lemma_linked_refl(bs: Seq<Seq<(i32, i32)>>, a: int)
    requires
        0 <= a < bs.len(),
    ensures
        linked(bs, a, a),
{
    let p = seq![a];
    assert(is_chain(bs, p));
}

proof fn lemma_linked_extend(bs: Seq<Seq<(i32, i32)>>, a: int, b: int, c: int)
    requires
        linked(bs, a, b),
        0 <= c < bs.len(),
        adjacent(bs, b, c),
    ensures
        linked(bs, a, c),
{
    let p = choose|p: Seq<int>| #[trigger] is_chain(bs, p) && p[0] == a && p.last() == b;
    let q = p.push(c);
    assert forall|i: int| 1 <= i < q.len() implies #[trigger] chain_step(bs, q, i) by {
        if i < p.len() {
            assert(chain_step(bs, p, i));
        }
    }
    assert(is_chain(bs, q));
}

proof fn lemma_linked_symmetric(bs: Seq<Seq<(i32, i32)>>, a: int, b: int)
    requires
        footprints_disjoint(bs),
        bs.len() <= usize::MAX,
        cells_inside(bs),
        linked(bs, a, b),
    ensures
        linked(bs, b, a),
{
    let p = choose|p: Seq<int>| #[trigger] is_chain(bs, p) && p[0] == a && p.last() == b;
    let n = p.len() as int;
    let q = Seq::new(p.len(), |i: int| p[n - 1 - i]);
    assert forall|i: int| 1 <= i < q.len() implies #[trigger] chain_step(bs, q, i) by {
        let j = n - i;
        assert(chain_step(bs, p, j));
        assert(0 <= p[j - 1] < bs.len() && 0 <= p[j] < bs.len());
        lemma_adjacent_symmetric(bs, p[j - 1], p[j]);
        assert(q[i - 1] == p[j] && q[i] == p[j - 1]);
    }
    assert forall|i: int| 0 <= i < q.len() implies 0 <= #[trigger] q[i] < bs.len() by {
        assert(q[i] == p[n - 1 - i]);
    }
    assert(is_chain(bs, q));
    assert(q[0] == b && q.last() == a);
}

proof fn lemma_linked_trans(bs: Seq<Seq<(i32, i32)>>, a: int, b: int, c: int)
    requires
        linked(bs, a, b),
        linked(bs, b, c),
    ensures
        linked(bs, a, c),
{
    let p = choose|p: Seq<int>| #[trigger] is_chain(bs, p) && p[0] == a && p.last() == b;
    let r = choose|r: Seq<int>| #[trigger] is_chain(bs, r) && r[0] == b && r.last() == c;
    let q = p + r.drop_first();
    let n = p.len() as int;
    assert forall|i: int| 0 <= i < q.len() implies 0 <= #[trigger] q[i] < bs.len() by {
        if i >= n {
            assert(q[i] == r[i - n + 1]);
        }
    }
    assert forall|i: int| 1 <= i < q.len() implies #[trigger] chain_step(bs, q, i) by {
        if i < n {
            assert(chain_step(bs, p, i));
        } else {
            assert(chain_step(bs, r, i - n + 1));
            assert(q[i] == r[i - n + 1]);
            if i == n {
                assert(q[i - 1] == p[n - 1]);
                assert(r[0] == p.last());
            } else {
                assert(q[i - 1] == r[i - n]);
            }
        }
    }
    assert(is_chain(bs, q));
    if r.len() == 1 {
        assert(q =~= p);
    } else {
        assert(q.last() == r.last());
    }
}

/// Along a chain every building carries the same label, when touching
/// buildings always do.
proof fn lemma_chain_same_label(bs: Seq<Seq<(i32, i32)>>, labels: Seq<usize>, p: Seq<int>, k: int)
    requires
        is_chain(bs, p),
        labels.len() == bs.len(),
        forall|i: int, j: int|
            0 <= i < bs.len() && 0 <= j < bs.len() && #[trigger] adjacent(bs, i, j) ==> labels[i] == labels[j],
        0 <= k < p.len(),
    ensures
        labels[p[k]] == labels[p[0]],
    decreases k,
{
    if k > 0 {
        lemma_chain_same_label(bs, labels, p, k - 1);
        assert(chain_step(bs, p, k));
        assert(0 <= p[k - 1] < bs.len() && 0 <= p[k] < bs.len());
    }
}

/// Every member of a chain-connected list is linked to its first member.
proof fn lemma_member_linked(bs: Seq<Seq<(i32, i32)>>, m: Seq<usize>, k: int)
    requires
        chain_connected(bs, m),
        forall|i: int| 0 <= i < m.len() ==> #[trigger] m[i] < bs.len(),
        0 <= k < m.len(),
    ensures
        linked(bs, m[0] as int, m[k] as int),
    decreases k,
{
    if k == 0 {
        lemma_linked_refl(bs, m[0] as int);
    } else {
        let p = choose|p: int| 0 <= p < k && adjacent(bs, #[trigger] m[p] as int, #[trigger] m[k] as int);
        lemma_member_linked(bs, m, p);
        lemma_linked_extend(bs, m[0] as int, m[p] as int, m[k] as int);
    }
}

/// In a grouping, group `g` lists exactly the buildings labelled `g`.
proof fn lemma_groups_listed(bs: Seq<Seq<(i32, i32)>>, labels: Seq<usize>, gm: Seq<Seq<usize>>)
    requires
        grouping_ok(bs, labels, gm),
    ensures
        forall|g: int, i: int|
            0 <= g < gm.len() && 0 <= i < bs.len() ==> (#[trigger] gm[g].contains(i as usize) <==> labels[i] == g),
{
    assert forall|g: int, i: int| 0 <= g < gm.len() && 0 <= i < bs.len() implies (
    #[trigger] gm[g].contains(i as usize) <==> labels[i] == g) by {
        if gm[g].contains(i as usize) {
            let k = choose|k: int| 0 <= k < gm[g].len() && gm[g][k] == i as usize;
            assert(labels[gm[g][k] as int] == g);
        }
        if labels[i] == g {
            assert(labels[i] < gm.len() && gm[labels[i] as int].contains(i as usize));
        }
    }
}

/// With disjoint footprints, the grouping found by `form_groups` is the split
/// into connected components: two buildings share a group exactly when a
/// chain of side-touching buildings links them, and group `g` lists exactly
/// the buildings labelled `g`, so there is one group per component.
pub proof fn lemma_groups_are_components(bs: Seq<Seq<(i32, i32)>>, labels: Seq<usize>, gm: Seq<Seq<usize>>)
    requires
        footprints_disjoint(bs),
        bs.len() <= usize::MAX,
        cells_inside(bs),
        grouping_ok(bs, labels, gm),
        forall|i: int, j: int|
            0 <= i < bs.len() && 0 <= j < bs.len() && #[trigger] adjacent(bs, i, j) ==> labels[j] <= labels[i],
    ensures
        forall|a: int, b: int|
            0 <= a < bs.len() && 0 <= b < bs.len() ==> (labels[a] == labels[b] <==> #[trigger] linked(bs, a, b)),
        forall|g: int, i: int|
            0 <= g < gm.len() && 0 <= i < bs.len() ==> (#[trigger] gm[g].contains(i as usize) <==> labels[i] == g),
{
    lemma_touching_buildings_share_group(bs, labels);
    assert forall|a: int, b: int| 0 <= a < bs.len() && 0 <= b < bs.len() implies (labels[a] == labels[b]
        <==> #[trigger] linked(bs, a, b)) by {
        if linked(bs, a, b) {
            let p = choose|p: Seq<int>| #[trigger] is_chain(bs, p) && p[0] == a && p.last() == b;
            lemma_chain_same_label(bs, labels, p, p.len() - 1);
        }
        if labels[a] == labels[b] {
            let g = labels[a] as int;
            let m = gm[g];
            assert(m.contains(a as usize) && m.contains(b as usize));
            let ka = choose|ka: int| 0 <= ka < m.len() && m[ka] == a as usize;
            let kb = choose|kb: int| 0 <= kb < m.len() && m[kb] == b as usize;
            assert forall|i: int| 0 <= i < m.len() implies #[trigger] m[i] < bs.len() by {
                assert(gm[g][i] < bs.len());
            }
            assert(chain_connected(bs, gm[g]));
            lemma_member_linked(bs, m, ka);
            lemma_member_linked(bs, m, kb);
            lemma_linked_symmetric(bs, m[0] as int, a);
            lemma_linked_trans(bs, a, m[0] as int, b);
        }
    }
    lemma_groups_listed(bs, labels, gm);
}

} // verus!
