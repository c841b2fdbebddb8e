//! Primitive types passed between modules.
//!
//! Coordinates are whole numbers of 1/64 point, the unit in which Chromium lays
//! pages out. What a system reports in other fractions of a point is rounded to it.

use crate::text::{
    copy_of, copy_of_opt, decimal, decimal_is_digits, decimal_is_nonempty, decimal_reads_back,
    decimal_text, digit, digit_value, is_number, opt_view, read_decimal, read_number,
};
use vstd::prelude::*;

verus! {

/// Units per point.
pub const UNIT: i64 = 64;

/// The largest coordinate, in units, that a rectangle may hold where a new
/// position is computed from it.
pub const LIMIT: i64 = 1099511627776;

/// A point in screen coordinates (top-left origin).
#[derive(Debug, Clone, Copy, PartialEq, Eq, Structural)]
pub struct ScreenPoint {
    pub x: i64,
    pub y: i64,
}

/// A rectangle in screen coordinates.
#[derive(Debug, Clone, Copy, PartialEq, Eq, Structural)]
pub struct ScreenRect {
    pub x: i64,
    pub y: i64,
    pub w: i64,
    pub h: i64,
}

/// `v` is a coordinate that can be added to others without leaving `i64`.
pub open spec fn in_range(v: i64) -> bool {
    -LIMIT <= v <= LIMIT
}

impl ScreenPoint {
    /// The coordinates are in range.
    pub open spec fn wf(self) -> bool {
        in_range(self.x) && in_range(self.y)
    }
}

impl ScreenRect {
    /// The coordinates are in range.
    pub open spec fn wf(self) -> bool {
        in_range(self.x) && in_range(self.y) && in_range(self.w) && in_range(self.h)
    }

    /// The rectangle covers the point, its edges included.
    pub open spec fn covers(self, p: ScreenPoint) -> bool {
        self.x <= p.x <= self.x + self.w && self.y <= p.y <= self.y + self.h
    }

    /// Width times height, in square units.
    pub open spec fn area_units(self) -> int {
        self.w * self.h
    }

    /// At least one point wide and one point high?
    pub fn is_valid(&self) -> (r: bool)
        ensures
            r == (self.w >= 64 && self.h >= 64),
    {
        self.w >= UNIT && self.h >= UNIT
    }

    /// The point in the middle. Where a side is an odd number of units the middle lies
    /// between two of them, and the lower one is taken.
    pub fn center(&self) -> (p: ScreenPoint)
        requires
            self.wf(),
        ensures
            p.x == self.x + self.w as int / 2,
            p.y == self.y + self.h as int / 2,
            -2 * LIMIT <= p.x <= 2 * LIMIT,
            -2 * LIMIT <= p.y <= 2 * LIMIT,
    {
        ScreenPoint { x: self.x + half_down(self.w), y: self.y + half_down(self.h) }
    }

    /// Does this rect contain the point (inclusive)? Used to sanity-check that an
    /// AX hit-test actually landed on the element under the click.
    pub fn contains(&self, p: ScreenPoint) -> (r: bool)
        ensures
            r == self.covers(p),
    {
        p.x >= self.x && p.x as i128 <= self.x as i128 + self.w as i128 && p.y >= self.y
            && p.y as i128 <= self.y as i128 + self.h as i128
    }

    /// Width times height, in square units.
    pub fn area(&self) -> (r: i128)
        ensures
            r == self.area_units(),
    {
        proof {
            product_fits(self.w, self.h);
        }
        self.w as i128 * self.h as i128
    }
}

/// The product of two coordinates fits 128 bits with room to spare.
pub proof fn product_fits(a: i64, b: i64)
    ensures
        -0x40000000_00000000_00000000_00000000 <= a * b <= 0x40000000_00000000_00000000_00000000,
{
    assert(-0x40000000_00000000_00000000_00000000 <= a * b
        <= 0x40000000_00000000_00000000_00000000) by (nonlinear_arith)
        requires
            -0x80000000_00000000 <= a <= 0x7fffffff_ffffffff,
            -0x80000000_00000000 <= b <= 0x7fffffff_ffffffff,
    ;
}

/// Half of `v`, rounded down.
fn half_down(v: i64) -> (r: i64)
    ensures
        r == v as int / 2,
{
    if v >= 0 {
        v / 2
    } else {
        let up: i64 = -((-(v + 1)) / 2);
        up - 1
    }
}

/// Information about the element the picker identified, used by the
/// dispatcher to decide which strategy to apply.
#[derive(Debug)]
pub struct PickedElement {
    /// Accessibility role (AXButton, AXGroup, AXWindow, etc. on macOS;
    /// ControlType.Button etc. on Windows).
    pub role: String,
    /// Sub-role / control sub-type when present.
    pub subrole: Option<String>,
    /// Best-effort name (AXTitle, AXDescription, AXLabel, AXValue chain).
    pub name: String,
    /// Accessibility identifier, when set by the app.
    pub identifier: Option<String>,
    /// Element bounds in screen coordinates.
    pub bounds: ScreenRect,
    /// PID of the process that owns the element.
    pub pid: i32,
    /// Bundle ID / executable path of the owning app. Used by the dispatcher
    /// to locate Info.plist, app.asar, etc.
    pub app_path: Option<String>,
    /// Best-effort title of the enclosing window.
    pub window_title: Option<String>,
    /// Enclosing window bounds, used for coordinate translation on the CDP path.
    pub window_bounds: Option<ScreenRect>,
    /// The exact screen point the user clicked/hovered when this element was
    /// picked. Always reliable, even when AX can't resolve a real leaf.
    pub click: Option<ScreenPoint>,
    /// True when the AX hit-test could NOT land on a real content element at the
    /// click. When set, do NOT trust `bounds`/`role`; re-resolve at `click`.
    pub ax_shallow: bool,
    /// Absolute path to a PNG of this element captured at pick time. `None` when
    /// that capture failed.
    pub crop_path: Option<String>,
    /// The element's accessibility subtree as JSON, where it was captured with
    /// the pick.
    pub ax_tree: Option<String>,
}

/// What a [`PickedElement`] holds.
#[verifier::ext_equal]
pub struct PickedView {
    pub role: Seq<char>,
    pub subrole: Option<Seq<char>>,
    pub name: Seq<char>,
    pub identifier: Option<Seq<char>>,
    pub bounds: ScreenRect,
    pub pid: i32,
    pub app_path: Option<Seq<char>>,
    pub window_title: Option<Seq<char>>,
    pub window_bounds: Option<ScreenRect>,
    pub click: Option<ScreenPoint>,
    pub ax_shallow: bool,
    pub crop_path: Option<Seq<char>>,
    pub ax_tree: Option<Seq<char>>,
}

impl View for PickedElement {
    type V = PickedView;

    open spec fn view(&self) -> PickedView {
        PickedView {
            role: self.role@,
            subrole: opt_view(self.subrole),
            name: self.name@,
            identifier: opt_view(self.identifier),
            bounds: self.bounds,
            pid: self.pid,
            app_path: opt_view(self.app_path),
            window_title: opt_view(self.window_title),
            window_bounds: self.window_bounds,
            click: self.click,
            ax_shallow: self.ax_shallow,
            crop_path: opt_view(self.crop_path),
            ax_tree: opt_view(self.ax_tree),
        }
    }
}

impl Clone for PickedElement {
    fn clone(&self) -> (r: Self)
        ensures
            r@ == self@,
    {
        PickedElement {
            role: copy_of(self.role.as_str()),
            subrole: copy_of_opt(&self.subrole),
            name: copy_of(self.name.as_str()),
            identifier: copy_of_opt(&self.identifier),
            bounds: self.bounds,
            pid: self.pid,
            app_path: copy_of_opt(&self.app_path),
            window_title: copy_of_opt(&self.window_title),
            window_bounds: self.window_bounds,
            click: self.click,
            ax_shallow: self.ax_shallow,
            crop_path: copy_of_opt(&self.crop_path),
            ax_tree: copy_of_opt(&self.ax_tree),
        }
    }
}

// ---------------------------------------------------------------------------
// Coordinates as text
// ---------------------------------------------------------------------------

/// `n / d` rounded to a whole number, a tie going to the even one.
pub open spec fn half_even(n: nat, d: nat) -> nat {
    let q = n / d;
    let r = n % d;
    if 2 * r < d {
        q
    } else if 2 * r > d {
        q + 1
    } else {
        q + q % 2
    }
}

/// The magnitude of `v`.
pub open spec fn magnitude(v: int) -> nat {
    if v < 0 {
        (-v) as nat
    } else {
        v as nat
    }
}

/// `s` with a minus sign where `v` is negative.
pub open spec fn signed(v: int, s: Seq<char>) -> Seq<char> {
    if v < 0 {
        seq!['-'] + s
    } else {
        s
    }
}

/// A coordinate as a whole number of points, a tie going to the even one. A
/// negative coordinate keeps its sign also where it rounds to zero.
pub open spec fn whole_points(v: int) -> Seq<char> {
    signed(v, decimal(half_even(magnitude(v), 64)))
}

/// The magnitude of `v`.
pub fn magnitude_of(v: i128) -> (r: u128)
    requires
        -0x40000000_00000000_00000000_00000000 <= v <= 0x40000000_00000000_00000000_00000000,
    ensures
        r == magnitude(v as int),
{
    if v < 0 {
        (-v) as u128
    } else {
        v as u128
    }
}

/// Append a coordinate as a whole number of points.
pub fn push_whole_points(out: &mut String, v: i128)
    requires
        -0x2_00000000_00000000 <= v <= 0x2_00000000_00000000,
    ensures
        final(out)@ == old(out)@ + whole_points(v as int),
{
    let ghost before = out@;
    let m = magnitude_of(v);
    let q: u64 = (m / 64) as u64;
    let rest: u64 = (m % 64) as u64;
    let rounded: u64 = if rest < 32 {
        q
    } else if rest > 32 {
        q + 1
    } else {
        q + q % 2
    };
    assert(rounded == half_even(magnitude(v as int), 64));
    if v < 0 {
        out.push('-');
    }
    let digits = decimal_text(rounded);
    out.push_str(digits.as_str());
    assert(out@ =~= before + whole_points(v as int));
}

/// A coordinate as a whole number of points.
pub fn whole_points_text(v: i64) -> (r: String)
    ensures
        r@ == whole_points(v as int),
{
    let mut out = String::new();
    push_whole_points(&mut out, v as i128);
    assert(out@ =~= whole_points(v as int));
    out
}

/// The decimals of `k` 64ths, `k` from 0 to 63: six digits at most, without
/// trailing zeros.
pub open spec fn decimals(k: nat, unit: nat) -> Seq<char>
    decreases unit,
{
    if k == 0 || unit == 0 {
        Seq::empty()
    } else {
        seq![digit((10 * k / 64) as int)] + decimals(10 * k % 64, (unit - 1) as nat)
    }
}

/// A coordinate in points, written exactly.
pub open spec fn exact_points(v: int) -> Seq<char> {
    let m = magnitude(v);
    signed(
        v,
        if m % 64 == 0 {
            decimal(m / 64)
        } else {
            decimal(m / 64).push('.') + decimals(m % 64, 6)
        },
    )
}

/// A coordinate in points, written exactly.
pub fn exact_points_text(v: i64) -> (r: String)
    ensures
        r@ == exact_points(v as int),
{
    let m = magnitude_of(v as i128);
    let mut out = String::new();
    if v < 0 {
        out.push('-');
    }
    let digits = decimal_text((m / 64) as u64);
    out.push_str(digits.as_str());
    let mut k: u32 = (m % 64) as u32;
    if k == 0 {
        assert(out@ =~= exact_points(v as int));
        return out;
    }
    out.push('.');
    let ghost head = out@;
    let ghost first = k as nat;
    let mut left: u32 = 6;
    assert(head + decimals(first, 6) =~= out@ + decimals(k as nat, left as nat));
    while k > 0 && left > 0
        invariant
            k < 64,
            left <= 6,
            head + decimals(first, 6) == out@ + decimals(k as nat, left as nat),
        decreases left,
    {
        let c: u8 = 48 + (10 * k / 64) as u8;
        let ghost rest = decimals((10 * k % 64) as nat, (left - 1) as nat);
        assert(decimals(k as nat, left as nat) == seq![c as char] + rest);
        assert(out@ + (seq![c as char] + rest) =~= out@.push(c as char) + rest);
        out.push(c as char);
        k = 10 * k % 64;
        left -= 1;
    }
    assert(out@ + decimals(k as nat, left as nat) =~= out@);
    assert(out@ =~= exact_points(v as int));
    out
}

// ---------------------------------------------------------------------------
// What coordinates come to
// ---------------------------------------------------------------------------

/// A text tells a coordinate in whole points: it is a number no further from the
/// coordinate than half a point, and even where two are as near.
pub open spec fn tells_points(s: Seq<char>, v: int) -> bool {
    let n = read_number(s);
    &&& is_number(s)
    &&& -32 <= 64 * n - v <= 32
    &&& 64 * n - v == 32 || 64 * n - v == -32 ==> n % 2 == 0
}

/// What is written as whole points tells the coordinate.
pub proof fn whole_points_read_back(v: int)
    ensures
        tells_points(whole_points(v), v),
        v < 0 <==> whole_points(v)[0] == '-',
{
    let m = magnitude(v);
    let n = half_even(m, 64);
    decimal_reads_back(n);
    decimal_is_digits(n);
    decimal_is_nonempty(n);
    assert(-32 <= 64 * n - m <= 32);
    if v < 0 {
        assert(whole_points(v).skip(1) =~= decimal(n));
    }
}

/// The millionths that the first `places` of the digits stand for.
pub open spec fn read_fraction(s: Seq<char>, places: nat) -> int
    decreases places,
{
    if s.len() == 0 || places == 0 {
        0
    } else {
        digit_value(s[0]) * power_of_ten((places - 1) as nat) + read_fraction(
            s.skip(1),
            (places - 1) as nat,
        )
    }
}

/// Ten times itself, so often.
pub open spec fn power_of_ten(n: nat) -> int
    decreases n,
{
    if n == 0 {
        1
    } else {
        10 * power_of_ten((n - 1) as nat)
    }
}

proof fn decimals_read_back(k: nat, unit: nat)
    requires
        k < 64,
        (k * power_of_ten(unit)) % 64 == 0,
    ensures
        64 * read_fraction(decimals(k, unit), unit) == k * power_of_ten(unit),
        forall|i: int|
            0 <= i < decimals(k, unit).len() ==> '0' <= #[trigger] decimals(k, unit)[i] <= '9',
    decreases unit,
{
    if k == 0 {
        assert(0 * power_of_ten(unit) == 0) by (nonlinear_arith);
    } else if unit == 0 {
        assert(k * 1 == k);
    } else {
        let p = power_of_ten((unit - 1) as nat);
        let d = (10 * k / 64) as int;
        let rest = (10 * k % 64) as nat;
        assert(10 * k == 64 * d + rest);
        assert(k * (10 * p) == 64 * (d * p) + rest * p) by (nonlinear_arith)
            requires
                10 * k == 64 * d + rest,
        ;
        assert((rest * p) % 64 == 0) by {
            let a = d * p;
            let whole = k * (10 * p);
            assert(rest * p == whole - 64 * a);
        }
        decimals_read_back(rest, (unit - 1) as nat);
        let s = decimals(k, unit);
        assert(s.skip(1) =~= decimals(rest, (unit - 1) as nat));
        assert forall|i: int| 0 <= i < s.len() implies '0' <= #[trigger] s[i] <= '9' by {
            if i > 0 {
                assert(s[i] == s.skip(1)[i - 1]);
            }
        }
    }
}

/// A text tells a magnitude by a point at `i`: the digits before it are the whole points,
/// and those after it, six at most, the millionths; a unit has 15625 of them.
pub open spec fn tells_fraction(t: Seq<char>, i: int, size: int) -> bool {
    &&& 0 < i < t.len()
    &&& t[i] == '.'
    &&& is_number(t.take(i))
    &&& 1000000 * read_decimal(t.take(i)) + read_fraction(t.skip(i + 1), 6) == 15625 * size
}

/// A text without the minus sign before it.
pub open spec fn unsigned(s: Seq<char>) -> Seq<char> {
    if s.len() > 0 && s[0] == '-' {
        s.skip(1)
    } else {
        s
    }
}

/// What is written exactly reads back exactly.
pub proof fn exact_points_read_back(v: int)
    ensures
        v < 0 <==> exact_points(v)[0] == '-',
        v % 64 == 0 ==> is_number(exact_points(v)) && 64 * read_number(exact_points(v)) == v,
        v % 64 != 0 && v >= 0 ==> exists|i: int|
            #[trigger] tells_fraction(unsigned(exact_points(v)), i, v),
        v % 64 != 0 && v < 0 ==> exists|i: int|
            #[trigger] tells_fraction(unsigned(exact_points(v)), i, -v),
{
    let s = exact_points(v);
    let m = magnitude(v);
    let whole = decimal(m / 64);
    decimal_reads_back(m / 64);
    decimal_is_digits(m / 64);
    decimal_is_nonempty(m / 64);
    let t = unsigned(s);
    if m % 64 == 0 {
        if v < 0 {
            assert(s.skip(1) =~= whole);
        }
    } else {
        let k = m % 64;
        reveal_with_fuel(power_of_ten, 7);
        assert(power_of_ten(6) == 1000000);
        assert((k * 1000000) % 64 == 0);
        decimals_read_back(k, 6);
        let i = whole.len() as int;
        assert(t =~= whole.push('.') + decimals(k, 6));
        assert(t[i] == '.');
        assert(t.take(i) =~= whole);
        assert(t.skip(i + 1) =~= decimals(k, 6));
        assert(tells_fraction(t, i, m as int));
    }
}

/// A rectangle covers its four corners, and no point beyond an edge.
pub proof fn corners_are_covered(r: ScreenRect, p: ScreenPoint)
    requires
        r.wf(),
        r.w >= 0,
        r.h >= 0,
    ensures
        r.covers(ScreenPoint { x: r.x, y: r.y }),
        r.covers(ScreenPoint { x: (r.x + r.w) as i64, y: r.y }),
        r.covers(ScreenPoint { x: r.x, y: (r.y + r.h) as i64 }),
        r.covers(ScreenPoint { x: (r.x + r.w) as i64, y: (r.y + r.h) as i64 }),
        p.x < r.x || p.x > r.x + r.w || p.y < r.y || p.y > r.y + r.h ==> !r.covers(p),
{
}

/// What lies between two covered points is covered.
pub proof fn cover_has_no_gap(r: ScreenRect, a: ScreenPoint, b: ScreenPoint, p: ScreenPoint)
    requires
        r.covers(a),
        r.covers(b),
        a.x <= p.x <= b.x,
        a.y <= p.y <= b.y,
    ensures
        r.covers(p),
{
}

/// A text tells a coordinate exactly, in points.
pub open spec fn tells_exactly(s: Seq<char>, v: int) -> bool {
    &&& v < 0 <==> s[0] == '-'
    &&& v % 64 == 0 ==> is_number(s) && 64 * read_number(s) == v
    &&& v % 64 != 0 && v >= 0 ==> exists|i: int| #[trigger] tells_fraction(unsigned(s), i, v)
    &&& v % 64 != 0 && v < 0 ==> exists|i: int| #[trigger] tells_fraction(unsigned(s), i, -v)
}

/// The area of a rectangle is the same on its side, twice as large at twice the width,
/// and its height or width where it is a unit the other way, wherever it is.
pub proof fn the_area_is_width_by_height(r: ScreenRect)
    ensures
        (ScreenRect { w: r.h, h: r.w, ..r }).area_units() == r.area_units(),
        2 * r.w <= i64::MAX && 2 * r.w >= i64::MIN ==> (ScreenRect {
            w: (2 * r.w) as i64,
            ..r
        }).area_units() == 2 * r.area_units(),
        (ScreenRect { w: 1, ..r }).area_units() == r.h,
        (ScreenRect { h: 1, ..r }).area_units() == r.w,
{
    assert(r.w * r.h == r.h * r.w) by (nonlinear_arith);
    assert((2 * r.w) * r.h == 2 * (r.w * r.h)) by (nonlinear_arith);
}

} // verus!
