//! The layout engine: a window count and a bounding rectangle give the
//! sequence of tiles, one per window, in window order.
use vstd::prelude::*;

use crate::rect::Bounds;
use crate::{fits_i32, lemma_tdiv_mul_bound, tdiv};

verus! {

/// The point halfway from `lo` to `hi`, rounded towards `lo`.
pub open spec fn mid(lo: i32, hi: i32) -> int {
    lo + tdiv(hi - lo, 2)
}

/// The halfway point lies between the two ends.
pub proof fn lemma_mid_between(lo: i32, hi: i32)
    ensures
        lo <= hi ==> lo <= mid(lo, hi) <= hi,
        hi < lo ==> hi <= mid(lo, hi) <= lo,
{
}

/// The first half of `b`: its left half when `vertical` (the two halves stand
/// side by side), else its top half.
pub open spec fn first_half(b: Bounds, vertical: bool) -> Bounds {
    if vertical {
        Bounds { left: b.left, top: b.top, right: mid(b.left, b.right) as i32, bottom: b.bottom }
    } else {
        Bounds { left: b.left, top: b.top, right: b.right, bottom: mid(b.top, b.bottom) as i32 }
    }
}

/// The second half of `b`: its right half when `vertical`, else its bottom half.
pub open spec fn second_half(b: Bounds, vertical: bool) -> Bounds {
    if vertical {
        Bounds { left: mid(b.left, b.right) as i32, top: b.top, right: b.right, bottom: b.bottom }
    } else {
        Bounds { left: b.left, top: mid(b.top, b.bottom) as i32, right: b.right, bottom: b.bottom }
    }
}

/// Whether the split that makes room for window `i + 1` (`i >= 1`) is vertical.
pub open spec fn split_vertical(i: int) -> bool {
    i % 2 == 1
}

/// What is left of `b` for the windows from `k` on, after `k` splits.
pub open spec fn region(b: Bounds, k: nat) -> Bounds
    decreases k,
{
    if k == 0 {
        b
    } else {
        second_half(region(b, (k - 1) as nat), split_vertical(k as int))
    }
}

/// Dwindle: each window but the last takes the first half of what the earlier
/// ones left over, the split alternating vertical and horizontal; the last
/// takes the rest.
pub open spec fn dwindle_spec(b: Bounds, n: nat) -> Seq<Bounds> {
    Seq::new(
        n,
        |i: int|
            if i < n - 1 {
                first_half(region(b, i as nat), split_vertical(i + 1))
            } else {
                region(b, i as nat)
            },
    )
}

/// Monocle: every window takes the whole of `b`.
pub open spec fn monocle_spec(b: Bounds, n: nat) -> Seq<Bounds> {
    Seq::new(n, |i: int| b)
}

/// The width of each column when `b` is cut into `n` columns.
pub open spec fn column_width(b: Bounds, n: nat) -> int {
    tdiv(b.width(), n as int)
}

/// Columns: `n` strips of equal width and full height, the `i`-th starting at
/// `i` column widths from the screen origin.
pub open spec fn columns_spec(b: Bounds, n: nat) -> Seq<Bounds> {
    Seq::new(
        n,
        |i: int|
            Bounds {
                left: (i * column_width(b, n)) as i32,
                top: b.top,
                right: (i * column_width(b, n) + column_width(b, n)) as i32,
                bottom: b.bottom,
            },
    )
}

/// A quarter of the right edge: the width of a side column under Focus.
pub open spec fn quarter(b: Bounds) -> int {
    tdiv(b.right as int, 4)
}

/// The `p`-th of `k` equal cells stacked from the screen's top edge down to the
/// bottom of `b`, between the edges `left` and `right`.
pub open spec fn stacked(b: Bounds, left: int, right: int, k: int, p: int) -> Bounds {
    Bounds {
        left: left as i32,
        top: (tdiv(b.bottom as int, k) * p) as i32,
        right: right as i32,
        bottom: (tdiv(b.bottom as int, k) * p + tdiv(b.bottom as int, k)) as i32,
    }
}

/// Focus: one window takes everything; two share it three quarters to one;
/// from three on, window 0 takes the middle, the odd windows stack in the right
/// column and the other even ones in the left column.
pub open spec fn focus_tile(b: Bounds, n: int, i: int) -> Bounds {
    if n == 1 {
        b
    } else if n == 2 {
        if i == 0 {
            Bounds { left: b.left, top: b.top, right: (b.right - quarter(b)) as i32, bottom: b.bottom }
        } else {
            Bounds { left: (b.right - quarter(b)) as i32, top: b.top, right: b.right, bottom: b.bottom }
        }
    } else if i == 0 {
        Bounds {
            left: (b.left + quarter(b)) as i32,
            top: b.top,
            right: (b.right - quarter(b)) as i32,
            bottom: b.bottom,
        }
    } else if i % 2 == 1 {
        stacked(b, b.right - quarter(b), b.right as int, n / 2, (i - 1) / 2)
    } else {
        stacked(b, b.left as int, b.left + quarter(b), (n - 1) / 2, i / 2 - 1)
    }
}

pub open spec fn focus_spec(b: Bounds, n: nat) -> Seq<Bounds> {
    Seq::new(n, |i: int| focus_tile(b, n as int, i))
}

/// Whether Columns can tile `b` in machine integers: its width fits.
pub open spec fn columns_fit(b: Bounds) -> bool {
    fits_i32(b.width())
}

/// Whether Focus can tile `b` in machine integers: the master column's left
/// edge fits.
pub open spec fn focus_fits(b: Bounds) -> bool {
    fits_i32(b.left + quarter(b))
}

/// Cuts `bounds` into two halves, side by side when `vertical`, else one above
/// the other.
pub fn subdivide(bounds: Bounds, vertical: bool) -> (r: Vec<Bounds>)
    ensures
        r@ == seq![first_half(bounds, vertical), second_half(bounds, vertical)],
{
    let Bounds { left, top, right, bottom } = bounds;
    if vertical {
        proof {
            lemma_mid_between(left, right);
        }
        let mid_x = (left as i64 + (right as i64 - left as i64) / 2) as i32;
        vec![
            Bounds { left, top, right: mid_x, bottom },
            Bounds { left: mid_x, top, right, bottom },
        ]
    } else {
        proof {
            lemma_mid_between(top, bottom);
        }
        let mid_y = (top as i64 + (bottom as i64 - top as i64) / 2) as i32;
        vec![
            Bounds { left, top, right, bottom: mid_y },
            Bounds { left, top: mid_y, right, bottom },
        ]
    }
}

/// Dwindle layout of `n` windows in `bounds`.
pub fn dwindle(bounds: Bounds, n: usize) -> (r: Vec<Bounds>)
    ensures
        r@ == dwindle_spec(bounds, n as nat),
{
    let mut divisions: Vec<Bounds> = Vec::new();
    if n == 0 {
        proof {
            assert(divisions@ =~= dwindle_spec(bounds, 0));
        }
        return divisions;
    }
    let mut rest = bounds;
    let mut i: usize = 1;
    while i < n
        invariant
            1 <= i <= n,
            rest == region(bounds, (i - 1) as nat),
            divisions@.len() == i - 1,
            forall|j: int|
                0 <= j < i - 1 ==> divisions@[j] == first_half(
                    region(bounds, j as nat),
                    split_vertical(j + 1),
                ),
        decreases n - i,
    {
        let halves = subdivide(rest, i % 2 != 0);
        divisions.push(halves[0]);
        rest = halves[1];
        i = i + 1;
    }
    divisions.push(rest);
    proof {
        assert(divisions@ =~= dwindle_spec(bounds, n as nat));
    }
    divisions
}

/// Monocle layout of `n` windows in `bounds`.
pub fn monocle(bounds: Bounds, n: usize) -> (r: Vec<Bounds>)
    ensures
        r@ == monocle_spec(bounds, n as nat),
{
    let mut divisions: Vec<Bounds> = Vec::new();
    let mut i: usize = 0;
    while i < n
        invariant
            i <= n,
            divisions@ =~= monocle_spec(bounds, i as nat),
        decreases n - i,
    {
        divisions.push(bounds);
        i = i + 1;
    }
    divisions
}

/// Columns layout of `n` windows in `bounds`.
pub fn columns(bounds: Bounds, n: usize) -> (r: Vec<Bounds>)
    requires
        n > 0 ==> columns_fit(bounds),
    ensures
        r@ == columns_spec(bounds, n as nat),
{
    let mut divisions: Vec<Bounds> = Vec::new();
    if n == 0 {
        proof {
            assert(divisions@ =~= columns_spec(bounds, 0));
        }
        return divisions;
    }
    let w: i64 = bounds.right as i64 - bounds.left as i64;
    let ghost cw = column_width(bounds, n as nat);
    let column_width: i64 = if n as u64 > 0xFFFF_FFFFu64 {
        proof {
            assert(cw == 0) by (nonlinear_arith)
                requires
                    cw == tdiv(w as int, n as int),
                    n > 0xFFFF_FFFF,
                    -0x1_0000_0000 < w < 0x1_0000_0000,
            {}
        }
        0
    } else {
        w / (n as i64)
    };
    let mut x: i64 = 0;
    let mut i: usize = 0;
    while i < n
        invariant
            0 < n,
            i <= n,
            column_width == cw,
            cw == tdiv(w as int, n as int),
            w == bounds.width(),
            fits_i32(w as int),
            x == i * cw,
            divisions@ =~= columns_spec(bounds, n as nat).subrange(0, i as int),
        decreases n - i,
    {
        proof {
            lemma_tdiv_mul_bound(w as int, n as int, i as int);
            lemma_tdiv_mul_bound(w as int, n as int, i + 1);
            assert(i * cw + cw == (i + 1) * cw) by (nonlinear_arith);
        }
        let next: i64 = x + column_width;
        divisions.push(
            Bounds { left: x as i32, top: bounds.top, right: next as i32, bottom: bounds.bottom },
        );
        x = next;
        i = i + 1;
    }
    divisions
}

/// One tile of the Focus layout, for window `i` of `n`.
fn focus_tile_exec(bounds: Bounds, n: usize, i: usize) -> (r: Bounds)
    requires
        i < n,
        n > 2 ==> focus_fits(bounds),
    ensures
        r == focus_tile(bounds, n as int, i as int),
{
    let q: i32 = bounds.right / 4;
    if n == 1 {
        bounds
    } else if n == 2 {
        if i == 0 {
            Bounds { left: bounds.left, top: bounds.top, right: bounds.right - q, bottom: bounds.bottom }
        } else {
            Bounds { left: bounds.right - q, top: bounds.top, right: bounds.right, bottom: bounds.bottom }
        }
    } else if i == 0 {
        Bounds {
            left: bounds.left + q,
            top: bounds.top,
            right: bounds.right - q,
            bottom: bounds.bottom,
        }
    } else {
        let odd = i % 2 == 1;
        let k: usize = if odd { n / 2 } else { (n - 1) / 2 };
        let p: usize = if odd { (i - 1) / 2 } else { i / 2 - 1 };
        let h: i64 = bounds.bottom as i64 / k as i64;
        proof {
            lemma_tdiv_mul_bound(bounds.bottom as int, k as int, p as int);
            lemma_tdiv_mul_bound(bounds.bottom as int, k as int, p + 1);
            assert(h * p + h == h * (p + 1)) by (nonlinear_arith);
        }
        let top: i64 = h * p as i64;
        let bottom: i64 = top + h;
        if odd {
            Bounds { left: bounds.right - q, top: top as i32, right: bounds.right, bottom: bottom as i32 }
        } else {
            Bounds { left: bounds.left, top: top as i32, right: bounds.left + q, bottom: bottom as i32 }
        }
    }
}

/// Focus layout of `n` windows in `bounds`.
pub fn focus(bounds: Bounds, n: usize) -> (r: Vec<Bounds>)
    requires
        n > 2 ==> focus_fits(bounds),
    ensures
        r@ == focus_spec(bounds, n as nat),
{
    let mut divisions: Vec<Bounds> = Vec::new();
    let mut i: usize = 0;
    while i < n
        invariant
            i <= n,
            n > 2 ==> focus_fits(bounds),
            divisions@ =~= focus_spec(bounds, n as nat).subrange(0, i as int),
        decreases n - i,
    {
        let tile = focus_tile_exec(bounds, n, i);
        divisions.push(tile);
        i = i + 1;
    }
    divisions
}

/// The tiling policies that can be active.
#[derive(Clone, Copy, Debug, PartialEq, Eq, Structural)]
pub enum Layouts {
    Dwindle,
    Monocle,
    Columns,
    Focus,
}

/// The tiles that `layout` gives `n` windows in `b`.
pub open spec fn layout_spec(layout: Layouts, b: Bounds, n: nat) -> Seq<Bounds> {
    match layout {
        Layouts::Dwindle => dwindle_spec(b, n),
        Layouts::Monocle => monocle_spec(b, n),
        Layouts::Columns => if n == 0 { Seq::empty() } else { columns_spec(b, n) },
        Layouts::Focus => focus_spec(b, n),
    }
}

/// Whether `layout` can tile `b` for `n` windows in machine integers.
pub open spec fn layout_fits(layout: Layouts, b: Bounds, n: nat) -> bool {
    match layout {
        Layouts::Columns => n > 0 ==> columns_fit(b),
        Layouts::Focus => n > 2 ==> focus_fits(b),
        _ => true,
    }
}

/// Whether every layout can tile `b` in machine integers, whatever the count.
pub open spec fn tileable(b: Bounds) -> bool {
    columns_fit(b) && focus_fits(b)
}

/// Whether every layout can tile `b` in machine integers.
pub fn is_tileable(b: Bounds) -> (r: bool)
    ensures
        r == tileable(b),
{
    let w: i64 = b.right as i64 - b.left as i64;
    let l: i64 = b.left as i64 + (b.right / 4) as i64;
    i32::MIN as i64 <= w && w <= i32::MAX as i64 && i32::MIN as i64 <= l && l <= i32::MAX as i64
}

impl Layouts {
    /// The tiles for `n` windows in `bounds`, tile `k` for window `k`.
    pub fn arrange(&self, bounds: Bounds, n: usize) -> (r: Vec<Bounds>)
        requires
            layout_fits(*self, bounds, n as nat),
        ensures
            r@ == layout_spec(*self, bounds, n as nat),
            r@.len() == n,
    {
        match self {
            Layouts::Dwindle => dwindle(bounds, n),
            Layouts::Monocle => monocle(bounds, n),
            Layouts::Columns => {
                let r = columns(bounds, n);
                proof {
                    if n == 0 {
                        assert(r@ =~= Seq::<Bounds>::empty());
                    }
                }
                r
            },
            Layouts::Focus => focus(bounds, n),
        }
    }
}

/// The areas of the rectangles of `s`, added up.
pub open spec fn total_area(s: Seq<Bounds>) -> int
    decreases s.len(),
{
    if s.len() == 0 {
        0
    } else {
        total_area(s.drop_last()) + s.last().area()
    }
}

/// The two halves of a split add up to the whole.
pub proof fn lemma_halves_area(b: Bounds, vertical: bool)
    ensures
        first_half(b, vertical).area() + second_half(b, vertical).area() == b.area(),
{
    lemma_mid_between(b.left, b.right);
    lemma_mid_between(b.top, b.bottom);
    let m = if vertical { mid(b.left, b.right) } else { mid(b.top, b.bottom) };
    if vertical {
        assert((m - b.left) * b.height() + (b.right - m) * b.height() == b.width() * b.height())
            by (nonlinear_arith);
    } else {
        assert(b.width() * (m - b.top) + b.width() * (b.bottom - m) == b.width() * b.height())
            by (nonlinear_arith);
    }
}

/// The first `k` dwindle tiles and what is left after them add up to `b`.
proof fn lemma_dwindle_prefix_area(b: Bounds, k: nat)
    ensures
        total_area(Seq::new(k, |j: int| first_half(region(b, j as nat), split_vertical(j + 1))))
            + region(b, k).area() == b.area(),
    decreases k,
{
    if k > 0 {
        let k1 = (k - 1) as nat;
        lemma_dwindle_prefix_area(b, k1);
        let s = Seq::new(k, |j: int| first_half(region(b, j as nat), split_vertical(j + 1)));
        let s1 = Seq::new(k1, |j: int| first_half(region(b, j as nat), split_vertical(j + 1)));
        assert(s.drop_last() =~= s1);
        lemma_halves_area(region(b, k1), split_vertical(k as int));
    }
}

/// Dwindle gives exactly one tile per window, and the tiles' areas add up to
/// the area of the bounds.
pub proof fn lemma_dwindle_covers(b: Bounds, n: nat)
    requires
        n >= 1,
    ensures
        dwindle_spec(b, n).len() == n,
        total_area(dwindle_spec(b, n)) == b.area(),
{
    let k = (n - 1) as nat;
    let s = dwindle_spec(b, n);
    lemma_dwindle_prefix_area(b, k);
    assert(s.drop_last() =~= Seq::new(
        k,
        |j: int| first_half(region(b, j as nat), split_vertical(j + 1)),
    ));
}

/// Dwindle of one window is the bounds themselves; of two, the left and right
/// halves; of three, the left half, then the right half cut into its top and
/// bottom halves.
pub proof fn lemma_dwindle_first_steps(b: Bounds)
    ensures
        dwindle_spec(b, 1) == seq![b],
        dwindle_spec(b, 2) == seq![first_half(b, true), second_half(b, true)],
        dwindle_spec(b, 3) == seq![
            first_half(b, true),
            first_half(second_half(b, true), false),
            second_half(second_half(b, true), false),
        ],
{
    assert(region(b, 0) == b);
    assert(region(b, 1) == second_half(b, true));
    assert(region(b, 2) == second_half(second_half(b, true), false));
    assert(dwindle_spec(b, 1) =~= seq![b]);
    assert(dwindle_spec(b, 2) =~= seq![first_half(b, true), second_half(b, true)]);
    assert(dwindle_spec(b, 3) =~= seq![
        first_half(b, true),
        first_half(second_half(b, true), false),
        second_half(second_half(b, true), false),
    ]);
}

/// Under Columns, tile `i` starts `i` column widths from the origin and is one
/// column width wide, the column width being the width of the bounds divided
/// by `n` (truncated); every tile has the full height.
pub proof fn lemma_columns_tiles(b: Bounds, n: nat, i: int)
    requires
        columns_fit(b),
        0 <= i < n,
    ensures
        layout_spec(Layouts::Columns, b, n).len() == n,
        layout_spec(Layouts::Columns, b, n)[i].left == i * tdiv(b.width(), n as int),
        layout_spec(Layouts::Columns, b, n)[i].width() == tdiv(b.width(), n as int),
        layout_spec(Layouts::Columns, b, n)[i].top == b.top,
        layout_spec(Layouts::Columns, b, n)[i].bottom == b.bottom,
{
    let cw = tdiv(b.width(), n as int);
    lemma_tdiv_mul_bound(b.width(), n as int, i);
    lemma_tdiv_mul_bound(b.width(), n as int, i + 1);
    assert(i * cw + cw == (i + 1) * cw) by (nonlinear_arith);
}

/// Whether `b` has its left edge at most its right one and its top edge at
/// most its bottom one.
pub open spec fn ordered(b: Bounds) -> bool {
    b.left <= b.right && b.top <= b.bottom
}

/// Whether `a` lies inside `b`.
pub open spec fn within(a: Bounds, b: Bounds) -> bool {
    b.left <= a.left && a.right <= b.right && b.top <= a.top && a.bottom <= b.bottom
}

/// Whether `a` and `b` share no inner point: one lies wholly to one side of
/// the other.
pub open spec fn apart(a: Bounds, b: Bounds) -> bool {
    a.right <= b.left || b.right <= a.left || a.bottom <= b.top || b.bottom <= a.top
}

/// The two halves of an ordered rectangle are ordered, lie inside it and do
/// not overlap.
proof fn lemma_halves_inside(c: Bounds, vertical: bool)
    requires
        ordered(c),
    ensures
        ordered(first_half(c, vertical)),
        ordered(second_half(c, vertical)),
        within(first_half(c, vertical), c),
        within(second_half(c, vertical), c),
        apart(first_half(c, vertical), second_half(c, vertical)),
{
    lemma_mid_between(c.left, c.right);
    lemma_mid_between(c.top, c.bottom);
}

/// What is left after more splits lies inside what was left after fewer.
proof fn lemma_region_nested(b: Bounds, i: nat, k: nat)
    requires
        ordered(b),
        i <= k,
    ensures
        ordered(region(b, k)),
        within(region(b, k), region(b, i)),
    decreases k,
{
    if k > i {
        let k1 = (k - 1) as nat;
        lemma_region_nested(b, i, k1);
        lemma_halves_inside(region(b, k1), split_vertical(k as int));
    } else if k > 0 {
        lemma_region_nested(b, 0, (k - 1) as nat);
        lemma_halves_inside(region(b, (k - 1) as nat), split_vertical(k as int));
    }
}

/// Each dwindle tile lies inside what was left for it.
proof fn lemma_tile_in_region(b: Bounds, n: nat, j: int)
    requires
        ordered(b),
        0 <= j < n,
    ensures
        ordered(dwindle_spec(b, n)[j]),
        within(dwindle_spec(b, n)[j], region(b, j as nat)),
{
    lemma_region_nested(b, j as nat, j as nat);
    if j < n - 1 {
        lemma_halves_inside(region(b, j as nat), split_vertical(j + 1));
    }
}

/// Over an ordered rectangle, every dwindle tile lies inside the bounds and
/// no two tiles overlap: with the areas adding up, the tiles cover the bounds
/// exactly.
pub proof fn lemma_dwindle_partition(b: Bounds, n: nat, i: int, j: int)
    requires
        ordered(b),
        0 <= i < n,
        0 <= j < n,
    ensures
        within(dwindle_spec(b, n)[i], b),
        i != j ==> apart(dwindle_spec(b, n)[i], dwindle_spec(b, n)[j]),
{
    lemma_tile_in_region(b, n, i);
    lemma_region_nested(b, 0, i as nat);
    if i != j {
        let lo = if i < j { i } else { j };
        let hi = if i < j { j } else { i };
        let s = dwindle_spec(b, n);
        // the earlier tile is the first half of its region; the later tile
        // lies in the second half, which is what is left after it
        lemma_tile_in_region(b, n, hi);
        lemma_region_nested(b, (lo + 1) as nat, hi as nat);
        lemma_region_nested(b, lo as nat, lo as nat);
        lemma_halves_inside(region(b, lo as nat), split_vertical(lo + 1));
        assert(region(b, (lo + 1) as nat) == second_half(region(b, lo as nat), split_vertical(lo + 1)));
        assert(s[lo] == first_half(region(b, lo as nat), split_vertical(lo + 1)));
    }
}

} // verus!
