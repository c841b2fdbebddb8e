//! The row of siblings that an element stands in.
//!
//! This is what lets a selection grow to "the whole toolbar row" in flat trees,
//! whose items are direct children of the window with no row container.

use crate::ax_macos::pick::{is_nearly_all, nearly_all};
use crate::capture::{in_range, ScreenRect, LIMIT};
use vstd::prelude::*;

verus! {

/// How far two spans overlap.
pub open spec fn overlap(a0: int, a1: int, b0: int, b1: int) -> int {
    (if a1 < b1 {
        a1
    } else {
        b1
    }) - (if a0 > b0 {
        a0
    } else {
        b0
    })
}

/// The sibling is in the row of `current`: it overlaps more than half of its height,
/// and its own height differs by no more than three fifths.
pub open spec fn in_row(r: ScreenRect, current: ScreenRect) -> bool {
    let d = r.h - current.h;
    &&& r.w >= 64 && r.h >= 64
    &&& 2 * overlap(r.y as int, r.y + r.h, current.y as int, current.y + current.h) > current.h
    &&& 5 * d <= 3 * current.h && -5 * d <= 3 * current.h
}

/// The sibling at `i` is in the row of `current`.
pub open spec fn member(siblings: Seq<Option<ScreenRect>>, current: ScreenRect, i: int) -> bool {
    0 <= i < siblings.len() && (siblings[i] matches Some(r) && in_row(r, current))
}

/// The members from left to right; those with the same left edge in their order.
pub open spec fn left_to_right(
    siblings: Seq<Option<ScreenRect>>,
    current: ScreenRect,
    order: Seq<usize>,
) -> bool {
    &&& forall|k: int|
        0 <= k < order.len() ==> member(siblings, current, #[trigger] order[k] as int)
    &&& forall|i: int|
        #[trigger] member(siblings, current, i) ==> exists|k: int|
            0 <= k < order.len() && #[trigger] order[k] == i
    &&& forall|a: int, b: int|
        0 <= a < b < order.len() ==> before(siblings, #[trigger] order[a], #[trigger] order[b])
}

/// The sibling at `i` comes before the one at `j`.
pub open spec fn before(siblings: Seq<Option<ScreenRect>>, i: usize, j: usize) -> bool {
    siblings[i as int]->0.x < siblings[j as int]->0.x || (siblings[i as int]->0.x
        == siblings[j as int]->0.x && i < j)
}

proof fn sorted_alike(siblings: Seq<Option<ScreenRect>>, a: Seq<usize>, b: Seq<usize>)
    requires
        forall|i: int, j: int|
            0 <= i < j < a.len() ==> before(siblings, #[trigger] a[i], #[trigger] a[j]),
        forall|i: int, j: int|
            0 <= i < j < b.len() ==> before(siblings, #[trigger] b[i], #[trigger] b[j]),
        forall|x: usize| a.contains(x) <==> b.contains(x),
    ensures
        a == b,
    decreases a.len(),
{
    if a.len() == 0 {
        if b.len() > 0 {
            assert(b.contains(b[0]));
            assert(a.contains(b[0]));
        }
        assert(a =~= b);
    } else {
        let x = a.last();
        assert(a.contains(x));
        assert(b.contains(x));
        let k = choose|k: int| 0 <= k < b.len() && b[k] == x;
        let y = b.last();
        assert(b.contains(y));
        assert(a.contains(y));
        let j = choose|j: int| 0 <= j < a.len() && a[j] == y;
        if k < b.len() - 1 {
            assert(before(siblings, b[k], b[b.len() - 1]));
            if j < a.len() - 1 {
                assert(before(siblings, a[j], a[a.len() - 1]));
            }
        }
        assert(x == y);
        let sa = a.drop_last();
        let sb = b.drop_last();
        assert forall|v: usize| sa.contains(v) <==> sb.contains(v) by {
            if sa.contains(v) {
                let m = choose|m: int| 0 <= m < sa.len() && sa[m] == v;
                assert(a[m] == v);
                assert(a.contains(v));
                assert(b.contains(v));
                let n = choose|n: int| 0 <= n < b.len() && b[n] == v;
                assert(before(siblings, a[m], a[a.len() - 1]));
                assert(n < b.len() - 1);
                assert(sb[n] == v);
            }
            if sb.contains(v) {
                let m = choose|m: int| 0 <= m < sb.len() && sb[m] == v;
                assert(b[m] == v);
                assert(b.contains(v));
                assert(a.contains(v));
                let n = choose|n: int| 0 <= n < a.len() && a[n] == v;
                assert(before(siblings, b[m], b[b.len() - 1]));
                assert(n < a.len() - 1);
                assert(sa[n] == v);
            }
        }
        assert forall|i: int, j: int| 0 <= i < j < sa.len() implies before(
            siblings,
            #[trigger] sa[i],
            #[trigger] sa[j],
        ) by {
            assert(before(siblings, a[i], a[j]));
        }
        assert forall|i: int, j: int| 0 <= i < j < sb.len() implies before(
            siblings,
            #[trigger] sb[i],
            #[trigger] sb[j],
        ) by {
            assert(before(siblings, b[i], b[j]));
        }
        sorted_alike(siblings, sa, sb);
        assert(a =~= sa.push(x));
        assert(b =~= sb.push(y));
    }
}

/// There is one way only to take the members from left to right, and one band only
/// around them.
pub proof fn band_is_determined(
    siblings: Seq<Option<ScreenRect>>,
    current: ScreenRect,
    a: Seq<usize>,
    b: Seq<usize>,
    p: ScreenRect,
    q: ScreenRect,
)
    requires
        left_to_right(siblings, current, a),
        left_to_right(siblings, current, b),
    ensures
        a == b,
        hull(siblings, a, p) && hull(siblings, b, q) ==> p == q,
{
    assert forall|x: usize| a.contains(x) <==> b.contains(x) by {
        if a.contains(x) {
            assert(member(siblings, current, x as int));
            let k = choose|k: int| 0 <= k < b.len() && #[trigger] b[k] == x as int;
            assert(b[k] == x);
        }
        if b.contains(x) {
            assert(member(siblings, current, x as int));
            let k = choose|k: int| 0 <= k < a.len() && #[trigger] a[k] == x as int;
            assert(a[k] == x);
        }
    }
    sorted_alike(siblings, a, b);
}

/// The least rectangle around the members.
pub open spec fn hull(siblings: Seq<Option<ScreenRect>>, order: Seq<usize>, band: ScreenRect) -> bool {
    &&& forall|k: int|
        0 <= k < order.len() ==> {
            let r = siblings[#[trigger] order[k] as int]->0;
            band.x <= r.x && band.y <= r.y && r.x + r.w <= band.x + band.w && r.y + r.h <= band.y
                + band.h
        }
    &&& exists|k: int|
        0 <= k < order.len() && siblings[#[trigger] order[k] as int]->0.x == band.x
    &&& exists|k: int|
        0 <= k < order.len() && siblings[#[trigger] order[k] as int]->0.y == band.y
    &&& exists|k: int|
        0 <= k < order.len() && siblings[#[trigger] order[k] as int]->0.x
            + siblings[order[k] as int]->0.w == band.x + band.w
    &&& exists|k: int|
        0 <= k < order.len() && siblings[#[trigger] order[k] as int]->0.y
            + siblings[order[k] as int]->0.h == band.y + band.h
}

/// The band is worth selecting: at least half as wide again as the element, and not
/// essentially the whole parent.
pub open spec fn worthwhile(
    band: ScreenRect,
    current: ScreenRect,
    parent: Option<ScreenRect>,
) -> bool {
    &&& 2 * band.w >= 3 * current.w
    &&& !(parent matches Some(p) && nearly_all(band.area_units(), p.area_units()))
}

fn members_of(siblings: &Vec<Option<ScreenRect>>, current: &ScreenRect) -> (order: Vec<usize>)
    ensures
        left_to_right(siblings@, *current, order@),
{
    let mut order: Vec<usize> = Vec::new();
    for i in 0..siblings.len()
        invariant
            forall|k: int|
                0 <= k < order@.len() ==> member(
                    siblings@,
                    *current,
                    #[trigger] order@[k] as int,
                ) && order@[k] < i,
            forall|j: int|
                j < i && #[trigger] member(siblings@, *current, j) ==> exists|k: int|
                    0 <= k < order@.len() && #[trigger] order@[k] == j,
            forall|a: int, b: int|
                0 <= a < b < order@.len() ==> before(
                    siblings@,
                    #[trigger] order@[a],
                    #[trigger] order@[b],
                ),
    {
        if let Some(r) = siblings[i] {
            if row_member(&r, current) {
                let mut at: usize = order.len();
                while at > 0 && left_of(siblings, order[at - 1]) > r.x
                    invariant
                        at <= order@.len(),
                        i < siblings@.len(),
                        siblings@[i as int] == Some(r),
                        forall|k: int|
                            0 <= k < order@.len() ==> member(
                                siblings@,
                                *current,
                                #[trigger] order@[k] as int,
                            ) && order@[k] < i,
                        forall|k: int|
                            at <= k < order@.len() ==> siblings@[#[trigger] order@[k] as int]->0.x > r.x,
                    decreases at,
                {
                    at -= 1;
                }
                let ghost old_order = order@;
                proof {
                    assert forall|k: int| 0 <= k < at implies before(
                        siblings@,
                        #[trigger] old_order[k],
                        i,
                    ) by {
                        if k < at - 1 {
                            assert(before(siblings@, old_order[k], old_order[at - 1]));
                        }
                    }
                }
                order.insert(at, i);
                proof {
                    assert(order@ == old_order.insert(at as int, i));
                    assert(member(siblings@, *current, i as int));
                    assert forall|k: int| 0 <= k < order@.len() implies member(
                        siblings@,
                        *current,
                        #[trigger] order@[k] as int,
                    ) && order@[k] < i + 1 by {
                        if k < at {
                            assert(order@[k] == old_order[k]);
                        } else if k > at {
                            assert(order@[k] == old_order[k - 1]);
                        }
                    }
                    assert forall|j: int|
                        j < i + 1 && #[trigger] member(siblings@, *current, j) implies exists|k: int|
                        0 <= k < order@.len() && #[trigger] order@[k] == j by {
                        if j == i {
                            assert(order@[at as int] == j);
                        } else {
                            let k = choose|k: int| 0 <= k < old_order.len() && #[trigger] old_order[k] == j;
                            if k < at {
                                assert(order@[k] == j);
                            } else {
                                assert(order@[k + 1] == j);
                            }
                        }
                    }
                    assert forall|a: int, b: int| 0 <= a < b < order@.len() implies before(
                        siblings@,
                        #[trigger] order@[a],
                        #[trigger] order@[b],
                    ) by {
                        let oa = if a < at {
                            a
                        } else {
                            a - 1
                        };
                        let ob = if b < at {
                            b
                        } else {
                            b - 1
                        };
                        if a == at {
                            assert(order@[b] == old_order[ob]);
                        } else if b == at {
                            assert(order@[a] == old_order[oa]);
                        } else {
                            assert(order@[a] == old_order[oa]);
                            assert(order@[b] == old_order[ob]);
                        }
                    }
                }
            } else {
                assert(!member(siblings@, *current, i as int));
            }
        } else {
            assert(!member(siblings@, *current, i as int));
        }
    }
    order
}

fn left_of(siblings: &Vec<Option<ScreenRect>>, i: usize) -> (r: i64)
    requires
        i < siblings@.len(),
        siblings@[i as int] is Some,
    ensures
        r == siblings@[i as int]->0.x,
{
    match siblings[i] {
        Some(r) => r.x,
        None => 0,
    }
}

fn row_member(r: &ScreenRect, current: &ScreenRect) -> (b: bool)
    ensures
        b == in_row(*r, *current),
{
    if r.w < 64 || r.h < 64 {
        return false;
    }
    let r1: i128 = r.y as i128 + r.h as i128;
    let c1: i128 = current.y as i128 + current.h as i128;
    let low: i128 = if r1 < c1 {
        r1
    } else {
        c1
    };
    let high: i64 = if r.y > current.y {
        r.y
    } else {
        current.y
    };
    let shared: i128 = low - high as i128;
    let d: i128 = r.h as i128 - current.h as i128;
    2 * shared > current.h as i128 && 5 * d <= 3 * current.h as i128 && -(5 * d) <= 3
        * current.h as i128
}

fn hull_of(siblings: &Vec<Option<ScreenRect>>, order: &Vec<usize>) -> (band: ScreenRect)
    requires
        order@.len() > 0,
        forall|k: int|
            0 <= k < order@.len() ==> (#[trigger] order@[k]) < siblings@.len() && (
            siblings@[order@[k] as int] matches Some(r) && r.wf()),
    ensures
        hull(siblings@, order@, band),
        -4 * LIMIT <= band.w <= 4 * LIMIT,
        -4 * LIMIT <= band.h <= 4 * LIMIT,
{
    let first = match siblings[order[0]] {
        Some(r) => r,
        None => ScreenRect { x: 0, y: 0, w: 0, h: 0 },
    };
    let mut x0: i64 = first.x;
    let mut y0: i64 = first.y;
    let mut x1: i64 = first.x + first.w;
    let mut y1: i64 = first.y + first.h;
    assert(siblings@[order@[0] as int]->0 == first);
    for i in 0..order.len()
        invariant
            forall|k: int|
                0 <= k < order@.len() ==> (#[trigger] order@[k]) < siblings@.len() && (
                siblings@[order@[k] as int] matches Some(r) && r.wf()),
            in_range(x0),
            in_range(y0),
            -2 * LIMIT <= x1 <= 2 * LIMIT,
            -2 * LIMIT <= y1 <= 2 * LIMIT,
            order@.len() > 0,
            forall|k: int|
                0 <= k < i ==> {
                    let r = siblings@[#[trigger] order@[k] as int]->0;
                    x0 <= r.x && y0 <= r.y && r.x + r.w <= x1 && r.y + r.h <= y1
                },
            exists|k: int|
                0 <= k < order@.len() && siblings@[#[trigger] order@[k] as int]->0.x == x0,
            exists|k: int|
                0 <= k < order@.len() && siblings@[#[trigger] order@[k] as int]->0.y == y0,
            exists|k: int|
                0 <= k < order@.len() && siblings@[#[trigger] order@[k] as int]->0.x
                    + siblings@[order@[k] as int]->0.w == x1,
            exists|k: int|
                0 <= k < order@.len() && siblings@[#[trigger] order@[k] as int]->0.y
                    + siblings@[order@[k] as int]->0.h == y1,
    {
        let r = match siblings[order[i]] {
            Some(r) => r,
            None => ScreenRect { x: 0, y: 0, w: 0, h: 0 },
        };
        assert(siblings@[order@[i as int] as int]->0 == r);
        if r.x < x0 {
            x0 = r.x;
        }
        if r.y < y0 {
            y0 = r.y;
        }
        if r.x + r.w > x1 {
            x1 = r.x + r.w;
        }
        if r.y + r.h > y1 {
            y1 = r.y + r.h;
        }
    }
    ScreenRect { x: x0, y: y0, w: x1 - x0, h: y1 - y0 }
}

/// `band` is the band of an element: around its row of two or more, and worth
/// selecting.
pub open spec fn is_band(
    current: ScreenRect,
    siblings: Seq<Option<ScreenRect>>,
    parent: Option<ScreenRect>,
    band: ScreenRect,
) -> bool {
    &&& current.w >= 64 && current.h >= 64
    &&& worthwhile(band, current, parent)
    &&& exists|order: Seq<usize>|
        #[trigger] left_to_right(siblings, current, order) && order.len() >= 2 && hull(
            siblings,
            order,
            band,
        )
}

/// The band of an element, where it has one.
pub open spec fn band_of(
    current: ScreenRect,
    siblings: Seq<Option<ScreenRect>>,
    parent: Option<ScreenRect>,
) -> Option<ScreenRect> {
    if exists|band: ScreenRect| is_band(current, siblings, parent, band) {
        Some(choose|band: ScreenRect| is_band(current, siblings, parent, band))
    } else {
        None
    }
}

/// An element has one band at most.
pub proof fn a_band_is_the_band(
    current: ScreenRect,
    siblings: Seq<Option<ScreenRect>>,
    parent: Option<ScreenRect>,
    band: ScreenRect,
)
    requires
        is_band(current, siblings, parent, band),
    ensures
        band_of(current, siblings, parent) == Some(band),
{
    let other = choose|b: ScreenRect| is_band(current, siblings, parent, b);
    let a = choose|order: Seq<usize>|
        #[trigger] left_to_right(siblings, current, order) && order.len() >= 2 && hull(
            siblings,
            order,
            band,
        );
    let b = choose|order: Seq<usize>|
        #[trigger] left_to_right(siblings, current, order) && order.len() >= 2 && hull(
            siblings,
            order,
            other,
        );
    band_is_determined(siblings, current, a, b, band, other);
}

proof fn no_band(
    current: ScreenRect,
    siblings: Seq<Option<ScreenRect>>,
    parent: Option<ScreenRect>,
    order: Seq<usize>,
    band: ScreenRect,
)
    requires
        left_to_right(siblings, current, order),
        order.len() < 2 || (hull(siblings, order, band) && !worthwhile(band, current, parent)),
    ensures
        band_of(current, siblings, parent) is None,
{
    assert forall|other: ScreenRect| !is_band(current, siblings, parent, other) by {
        if is_band(current, siblings, parent, other) {
            let b = choose|b: Seq<usize>|
                #[trigger] left_to_right(siblings, current, b) && b.len() >= 2 && hull(
                    siblings,
                    b,
                    other,
                );
            band_is_determined(siblings, current, order, b, band, other);
        }
    }
}

/// Grow from an element to its sibling BAND: the run of same-parent children that
/// share its horizontal row. Gives the band's bounding rect and the places of its
/// members, left to right. `None` when there's no real band (under two members), the
/// band is hardly wider than the element, or it is essentially the parent.
pub fn sibling_band(
    current: &ScreenRect,
    siblings: &Vec<Option<ScreenRect>>,
    parent: Option<ScreenRect>,
) -> (r: Option<(ScreenRect, Vec<usize>)>)
    requires
        forall|i: int|
            0 <= i < siblings@.len() ==> (#[trigger] siblings@[i] matches Some(s) ==> s.wf()),
    ensures
        match r {
            Some((band, order)) => {
                &&& band_of(*current, siblings@, parent) == Some(band)
                &&& is_band(*current, siblings@, parent, band)
                &&& order@.len() >= 2
                &&& left_to_right(siblings@, *current, order@)
                &&& hull(siblings@, order@, band)
            },
            None => band_of(*current, siblings@, parent) is None,
        },
{
    if current.w < 64 || current.h < 64 {
        return None;
    }
    let order = members_of(siblings, current);
    if order.len() < 2 {
        proof {
            no_band(*current, siblings@, parent, order@, *current);
        }
        return None;
    }
    assert forall|k: int| 0 <= k < order@.len() implies (#[trigger] order@[k]) < siblings@.len() && (
    siblings@[order@[k] as int] matches Some(r) && r.wf()) by {
        assert(member(siblings@, *current, order@[k] as int));
    }
    let band = hull_of(siblings, &order);
    let mut dull = 2 * (band.w as i128) < 3 * (current.w as i128);
    if let Some(p) = parent {
        proof {
            crate::capture::product_fits(p.w, p.h);
        }
        if is_nearly_all(band.area(), p.area()) {
            dull = true;
        }
    }
    if dull {
        proof {
            no_band(*current, siblings@, parent, order@, band);
        }
        return None;
    }
    proof {
        assert(is_band(*current, siblings@, parent, band));
        a_band_is_the_band(*current, siblings@, parent, band);
    }
    Some((band, order))
}

// ---------------------------------------------------------------------------
// Which siblings stand in a row
// ---------------------------------------------------------------------------

/// An element of a point or more each way stands in its own row, and how far to the left
/// or right a sibling is makes no difference.
pub proof fn an_element_stands_in_its_own_row(r: ScreenRect, current: ScreenRect, x: i64)
    ensures
        current.w >= 64 && current.h >= 64 ==> in_row(current, current),
        in_row(ScreenRect { x, ..r }, current) == in_row(r, current),
        r.w < 64 || r.h < 64 ==> !in_row(r, current),
{
}

/// A sibling as high as the element stands in its row exactly where it is off by less
/// than half of that height, up or down.
pub proof fn siblings_in_a_row_overlap_by_half(r: ScreenRect, current: ScreenRect)
    requires
        r.w >= 64,
        r.h == current.h,
        current.h >= 64,
    ensures
        in_row(r, current) <==> 2 * (r.y - current.y) < current.h && 2 * (current.y - r.y)
            < current.h,
{
}

/// A sibling that begins where the element does stands in its row exactly where it is
/// more than half as high, and at most eight fifths.
pub proof fn siblings_in_a_row_are_alike_in_height(r: ScreenRect, current: ScreenRect)
    requires
        r.w >= 64 && r.h >= 64,
        current.h >= 64,
        r.y == current.y,
    ensures
        in_row(r, current) <==> 2 * r.h > current.h && 5 * r.h <= 8 * current.h,
{
}

/// A band is around every sibling in the row of the element, reaches no further than
/// they do, is half as wide again as the element, and not the parent again.
pub proof fn a_band_is_around_its_row(
    current: ScreenRect,
    siblings: Seq<Option<ScreenRect>>,
    parent: Option<ScreenRect>,
    band: ScreenRect,
    i: int,
)
    requires
        is_band(current, siblings, parent, band),
        0 <= i < siblings.len(),
    ensures
        siblings[i] matches Some(r) ==> in_row(r, current) ==> band.x <= r.x && band.y <= r.y
            && r.x + r.w <= band.x + band.w && r.y + r.h <= band.y + band.h,
        2 * band.w >= 3 * current.w,
        parent matches Some(p) ==> p.w > 0 && p.h > 0 ==> 10 * (band.w * band.h) < 9 * (p.w * p.h),
        exists|k: int|
            0 <= k < siblings.len() && (#[trigger] siblings[k] matches Some(r) && in_row(r, current)
                && r.x == band.x),
        exists|k: int|
            0 <= k < siblings.len() && (#[trigger] siblings[k] matches Some(r) && in_row(r, current)
                && r.x + r.w == band.x + band.w),
        exists|k: int|
            0 <= k < siblings.len() && (#[trigger] siblings[k] matches Some(r) && in_row(r, current)
                && r.y == band.y),
        exists|k: int|
            0 <= k < siblings.len() && (#[trigger] siblings[k] matches Some(r) && in_row(r, current)
                && r.y + r.h == band.y + band.h),
{
    let order = choose|order: Seq<usize>|
        #[trigger] left_to_right(siblings, current, order) && order.len() >= 2 && hull(
            siblings,
            order,
            band,
        );
    if siblings[i] is Some && in_row(siblings[i]->0, current) {
        assert(member(siblings, current, i));
        let k = choose|k: int| 0 <= k < order.len() && #[trigger] order[k] == i;
        assert(siblings[order[k] as int] == siblings[i]);
    }
    let a = choose|k: int|
        0 <= k < order.len() && siblings[#[trigger] order[k] as int]->0.x == band.x;
    assert(member(siblings, current, order[a] as int));
    let b = choose|k: int|
        0 <= k < order.len() && siblings[#[trigger] order[k] as int]->0.x + siblings[order[k] as int]->0.w
            == band.x + band.w;
    assert(member(siblings, current, order[b] as int));
    let c = choose|k: int|
        0 <= k < order.len() && siblings[#[trigger] order[k] as int]->0.y == band.y;
    assert(member(siblings, current, order[c] as int));
    let d = choose|k: int|
        0 <= k < order.len() && siblings[#[trigger] order[k] as int]->0.y + siblings[order[k] as int]->0.h
            == band.y + band.h;
    assert(member(siblings, current, order[d] as int));
    if let Some(p) = parent {
        if p.w > 0 && p.h > 0 {
            assert(p.w * p.h > 0) by (nonlinear_arith)
                requires
                    p.w > 0,
                    p.h > 0,
            ;
        }
    }
}

} // verus!
