//! Multi-cell building footprints.
use vstd::prelude::*;

verus! {

/// The cells `(ox, y) .. (ox + w - 1, y)` of one footprint row, left to right.
pub open spec fn row_cells(ox: int, y: int, w: int) -> Seq<(i32, i32)> {
    if w <= 0 {
        Seq::empty()
    } else {
        Seq::new(w as nat, |dx: int| ((ox + dx) as i32, y as i32))
    }
}

/// The cells of a `w` by `h` rectangle with origin `(ox, oy)`, row by row from
/// `oy` upwards, each row from `ox` rightwards; empty when a side is not positive.
pub open spec fn rect_cells(ox: int, oy: int, w: int, h: int) -> Seq<(i32, i32)>
    decreases h,
{
    if h <= 0 || w <= 0 {
        Seq::empty()
    } else {
        rect_cells(ox, oy, w, h - 1) + row_cells(ox, oy + h - 1, w)
    }
}

/// What `footprint_cells` and `Footprint::rect` need to run without overflow.
pub open spec fn rect_fits(ox: int, oy: int, w: int, h: int) -> bool {
    &&& i32::MIN <= ox <= i32::MAX
    &&& i32::MIN <= oy <= i32::MAX
    &&& i32::MIN <= w <= i32::MAX
    &&& i32::MIN <= h <= i32::MAX
    &&& 0 <= w * h <= i32::MAX
    &&& (w > 0 && h > 0) ==> (ox + w - 1 <= i32::MAX && oy + h - 1 <= i32::MAX)
}

/// A rectangle holds `w * h` cells, each exactly once, and a cell lies in it
/// exactly when it is inside the rectangle's bounds.
pub proof fn lemma_rect_cells(ox: int, oy: int, w: int, h: int)
    requires
        rect_fits(ox, oy, w, h),
    ensures
        (w > 0 && h >= 0) ==> rect_cells(ox, oy, w, h).len() == w * h,
        rect_cells(ox, oy, w, h).no_duplicates(),
        forall|c: (i32, i32)|
            rect_cells(ox, oy, w, h).contains(c) <==> (w > 0 && h > 0 && ox <= c.0 < ox + w && oy
                <= c.1 < oy + h),
    decreases h,
{
    if h <= 0 || w <= 0 {
        assert(rect_cells(ox, oy, w, h) =~= Seq::<(i32, i32)>::empty());
        assert forall|c: (i32, i32)| !rect_cells(ox, oy, w, h).contains(c) by {}
        assert(h == 0 ==> w * h == 0) by (nonlinear_arith);
    } else {
        assert(0 <= w * (h - 1) <= w * h) by (nonlinear_arith)
            requires
                w > 0,
                h > 0,
        ;
        lemma_rect_cells(ox, oy, w, h - 1);
        let prev = rect_cells(ox, oy, w, h - 1);
        let row = row_cells(ox, oy + h - 1, w);
        assert(rect_cells(ox, oy, w, h) == prev + row);
        assert(w * h == w * (h - 1) + w) by (nonlinear_arith);
        assert forall|c: (i32, i32)| row.contains(c) <==> (ox <= c.0 < ox + w && c.1 == oy + h
            - 1) by {
            if ox <= c.0 < ox + w && c.1 == oy + h - 1 {
                assert(row[c.0 - ox] == c);
            }
        }
        assert forall|i: int, j: int|
            0 <= i < (prev + row).len() && 0 <= j < (prev + row).len() && i != j implies (prev
            + row)[i] != (prev + row)[j] by {
            if i < prev.len() && j >= prev.len() {
                assert(prev.contains(prev[i]));
                assert(row.contains(row[j - prev.len()]));
            } else if i >= prev.len() && j < prev.len() {
                assert(prev.contains(prev[j]));
                assert(row.contains(row[i - prev.len()]));
            }
        }
        assert forall|c: (i32, i32)| (prev + row).contains(c) <==> (prev.contains(c)
            || row.contains(c)) by {
            if prev.contains(c) {
                let i = choose|i: int| 0 <= i < prev.len() && prev[i] == c;
                assert((prev + row)[i] == c);
            }
            if row.contains(c) {
                let i = choose|i: int| 0 <= i < row.len() && row[i] == c;
                assert((prev + row)[prev.len() + i] == c);
            }
        }
        assert forall|c: (i32, i32)| rect_cells(ox, oy, w, h).contains(c) <==> (w > 0 && h > 0
            && ox <= c.0 < ox + w && oy <= c.1 < oy + h) by {
            assert((prev + row).contains(c) <==> (prev.contains(c) || row.contains(c)));
            assert(prev.contains(c) <==> (w > 0 && h - 1 > 0 && ox <= c.0 < ox + w && oy <= c.1 < oy
                + h - 1));
            assert(row.contains(c) <==> (ox <= c.0 < ox + w && c.1 == oy + h - 1));
        }
    }
}

/// The cells covered by a `w` by `h` footprint whose origin is `(ox, oy)`.
pub fn footprint_cells(ox: i32, oy: i32, w: i32, h: i32) -> (v: Vec<(i32, i32)>)
    requires
        rect_fits(ox as int, oy as int, w as int, h as int),
    ensures
        v@ == rect_cells(ox as int, oy as int, w as int, h as int),
{
    let mut v: Vec<(i32, i32)> = Vec::with_capacity((w * h) as usize);
    if w <= 0 || h <= 0 {
        return v;
    }
    let mut dy: i32 = 0;
    while dy < h
        invariant
            rect_fits(ox as int, oy as int, w as int, h as int),
            w > 0,
            0 <= dy <= h,
            v@ == rect_cells(ox as int, oy as int, w as int, dy as int),
        decreases h - dy,
    {
        let ghost row = row_cells(ox as int, oy + dy, w as int);
        let mut dx: i32 = 0;
        while dx < w
            invariant
                rect_fits(ox as int, oy as int, w as int, h as int),
                w > 0,
                0 <= dy < h,
                0 <= dx <= w,
                row == row_cells(ox as int, oy + dy, w as int),
                v@ == rect_cells(ox as int, oy as int, w as int, dy as int) + row.take(dx as int),
            decreases w - dx,
        {
            v.push((ox + dx, oy + dy));
            assert(row.take(dx + 1) =~= row.take(dx as int).push(row[dx as int]));
            dx = dx + 1;
        }
        assert(row.take(w as int) =~= row);
        dy = dy + 1;
    }
    v
}

/// The cells a building occupies; the building's own entity carries it.
pub struct Footprint {
    pub cells: Vec<(i32, i32)>,
}

impl Footprint {
    /// A one-cell footprint.
    pub fn single(x: i32, y: i32) -> (f: Footprint)
        ensures
            f.cells@ == seq![(x, y)],
            f.cells@ == rect_cells(x as int, y as int, 1, 1),
    {
        let f = Footprint { cells: vec![(x, y)] };
        assert(rect_cells(x as int, y as int, 1, 1) =~= seq![(x, y)]) by {
            assert(rect_cells(x as int, y as int, 1, 0) =~= Seq::<(i32, i32)>::empty());
            assert(row_cells(x as int, y as int, 1) =~= seq![(x, y)]);
        }
        f
    }

    /// The `w` by `h` rectangle with origin `(ox, oy)`.
    pub fn rect(ox: i32, oy: i32, w: i32, h: i32) -> (f: Footprint)
        requires
            rect_fits(ox as int, oy as int, w as int, h as int),
        ensures
            f.cells@ == rect_cells(ox as int, oy as int, w as int, h as int),
    {
        Footprint { cells: footprint_cells(ox, oy, w, h) }
    }
}

} // verus!
