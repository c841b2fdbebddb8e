//! Judging what a hit-test found, and going from there to the element that was
//! meant.

use crate::ax_macos::attrs::{best_name, copy_filled, filled, first_of, role_or_unknown};
use crate::ax_macos::resolve::Shapes;
use crate::capture::{
    exact_points, exact_points_text, product_fits, PickedElement, PickedView, ScreenPoint,
    ScreenRect,
};
use crate::text::{
    copy_of, copy_of_opt, decimal, decimal_int, decimal_int_text, decimal_text, opt_view, same,
};
use crate::windows_list::WindowInfo;
use vstd::prelude::*;

verus! {

// ---------------------------------------------------------------------------
// Shallow picks
// ---------------------------------------------------------------------------

/// A window-filling element is treated as shallow only when it has at most this many
/// AX children: the Electron signature (one big empty container because web content
/// isn't exposed to AX). A native window-sized group has far more.
pub const SHALLOW_MAX_CHILDREN: usize = 2;

/// A top-level container: never the target of a content click.
pub open spec fn top_level(role: Seq<char>) -> bool {
    role == "AXMenuBar"@ || role == "AXMenuBarItem"@ || role == "AXApplication"@ || role
        == "AXWindow"@
}

/// `part` is at least nine tenths of `whole`, which is not empty.
pub open spec fn nearly_all(part: int, whole: int) -> bool {
    whole > 0 && 10 * part >= 9 * whole
}

/// The element cannot be what was clicked: it does not cover the click, or is a
/// top-level container, or fills the window and holds next to nothing.
pub open spec fn shallow(
    role: Seq<char>,
    bounds: ScreenRect,
    click: ScreenPoint,
    window: Option<ScreenRect>,
    child_count: nat,
) -> bool {
    ||| !bounds.covers(click)
    ||| top_level(role)
    ||| window matches Some(win) && nearly_all(bounds.area_units(), win.area_units())
        && child_count <= SHALLOW_MAX_CHILDREN
}

/// Is `part` at least nine tenths of `whole`, which is not empty?
pub fn is_nearly_all(part: i128, whole: i128) -> (r: bool)
    requires
        -0x40000000_00000000_00000000_00000000 <= whole <= 0x40000000_00000000_00000000_00000000,
    ensures
        r == nearly_all(part as int, whole as int),
{
    if whole <= 0 {
        false
    } else if part >= whole {
        true
    } else if part < 0 {
        false
    } else {
        whole - part <= whole / 10
    }
}

/// Heuristic: did the AX hit-test fail to land on a real content element the user
/// could have meant? Such a result must NOT be committed as the pick: the caller
/// keeps the click point and re-resolves at it.
pub fn is_shallow_pick(
    role: &str,
    bounds: &ScreenRect,
    click: ScreenPoint,
    window_bounds: Option<&ScreenRect>,
    child_count: usize,
) -> (r: bool)
    ensures
        r == shallow(
            role@,
            *bounds,
            click,
            match window_bounds {
                Some(w) => Some(*w),
                None => None,
            },
            child_count as nat,
        ),
{
    if !bounds.contains(click) {
        return true;
    }
    if same(role, "AXMenuBar") || same(role, "AXMenuBarItem") || same(role, "AXApplication")
        || same(role, "AXWindow") {
        return true;
    }
    if let Some(win) = window_bounds {
        proof {
            product_fits(win.w, win.h);
        }
        if is_nearly_all(bounds.area(), win.area()) && child_count <= SHALLOW_MAX_CHILDREN {
            return true;
        }
    }
    false
}

/// A menu bar is never taken for what was clicked, even where it covers the click.
pub proof fn menu_bar_is_always_shallow(
    bounds: ScreenRect,
    click: ScreenPoint,
    window: Option<ScreenRect>,
    child_count: nat,
)
    ensures
        shallow("AXMenuBar"@, bounds, click, window, child_count),
{
}

/// A window-sized element with real content is a pick like any other.
pub proof fn rich_element_is_not_shallow(
    role: Seq<char>,
    bounds: ScreenRect,
    click: ScreenPoint,
    window: Option<ScreenRect>,
    child_count: nat,
)
    requires
        bounds.covers(click),
        !top_level(role),
        child_count > SHALLOW_MAX_CHILDREN,
    ensures
        !shallow(role, bounds, click, window, child_count),
{
}

/// How many children an element has: those of AXChildren, else those of AXContents.
pub fn child_count(children: usize, contents: usize) -> (r: usize)
    ensures
        r == (if children > 0 {
            children
        } else {
            contents
        }),
{
    if children > 0 {
        children
    } else {
        contents
    }
}

// ---------------------------------------------------------------------------
// Descending to the tightest child
// ---------------------------------------------------------------------------

/// How many levels a hit-test is deepened by at most.
pub const DEEPEN_LIMIT: u32 = 40;

/// The first of the smallest rectangles that cover the point.
pub open spec fn tightest(rects: Seq<Option<ScreenRect>>, p: ScreenPoint) -> Option<int>
    decreases rects.len(),
{
    if rects.len() == 0 {
        None
    } else {
        let head = tightest(rects.drop_last(), p);
        match rects.last() {
            Some(r) if r.covers(p) => match head {
                Some(j) if r.area_units() >= rects[j]->0.area_units() => head,
                _ => Some(rects.len() - 1),
            },
            _ => head,
        }
    }
}

/// The tightest child covers the point, and no child that covers it is smaller.
pub proof fn tightest_is_smallest(rects: Seq<Option<ScreenRect>>, p: ScreenPoint)
    ensures
        match tightest(rects, p) {
            Some(j) => {
                &&& 0 <= j < rects.len()
                &&& rects[j] matches Some(r) && r.covers(p)
                &&& forall|i: int|
                    0 <= i < rects.len() && (#[trigger] rects[i] matches Some(r) && r.covers(p))
                        ==> rects[j]->0.area_units() <= rects[i]->0.area_units()
            },
            None => forall|i: int|
                0 <= i < rects.len() ==> !(#[trigger] rects[i] matches Some(r) && r.covers(p)),
        },
    decreases rects.len(),
{
    if rects.len() > 0 {
        let short = rects.drop_last();
        tightest_is_smallest(short, p);
        assert forall|i: int| 0 <= i < short.len() implies short[i] == rects[i] by {}
        match tightest(rects, p) {
            Some(j) => {
                assert forall|i: int|
                    0 <= i < rects.len() && (#[trigger] rects[i] matches Some(r) && r.covers(
                        p,
                    )) implies rects[j]->0.area_units() <= rects[i]->0.area_units() by {
                    if i < short.len() {
                        assert(short[i] == rects[i]);
                    }
                }
            },
            None => {
                assert forall|i: int| 0 <= i < rects.len() implies !(#[trigger] rects[i] matches Some(
                    r,
                ) && r.covers(p)) by {
                    if i < short.len() {
                        assert(short[i] == rects[i]);
                    }
                }
            },
        }
    }
}

/// The first of the smallest rectangles that cover the point.
pub fn tightest_child(rects: &Vec<Option<ScreenRect>>, p: ScreenPoint) -> (r: Option<usize>)
    ensures
        match r {
            Some(j) => j < rects@.len() && tightest(rects@, p) == Some(j as int),
            None => tightest(rects@, p) is None,
        },
{
    let mut best: Option<usize> = None;
    let mut best_area: i128 = 0;
    for i in 0..rects.len()
        invariant
            match best {
                Some(j) => j < i && tightest(rects@.take(i as int), p) == Some(j as int)
                    && rects@[j as int] is Some && best_area == rects@[j as int]->0.area_units(),
                None => tightest(rects@.take(i as int), p) is None,
            },
    {
        assert(rects@.take(i + 1).drop_last() =~= rects@.take(i as int));
        if let Some(r) = rects[i] {
            if r.contains(p) {
                let area = r.area();
                if best.is_none() || area < best_area {
                    best = Some(i);
                    best_area = area;
                }
            }
        }
    }
    assert(rects@.take(rects@.len() as int) =~= rects@);
    best
}

/// The rectangles of elements.
pub open spec fn rects_of(g: Shapes, ids: Seq<u64>) -> Seq<Option<ScreenRect>> {
    ids.map_values(|id: u64| (g.rect)(id))
}

/// From an element down through the tightest child that covers the point, as far as
/// there is one and the limit allows.
pub open spec fn deepened(g: Shapes, p: ScreenPoint, id: u64, steps: nat) -> u64
    decreases steps,
{
    if steps == 0 {
        id
    } else {
        let kids = (g.kids)(id);
        match tightest(rects_of(g, kids), p) {
            Some(j) => deepened(g, p, kids[j], (steps - 1) as nat),
            None => id,
        }
    }
}

/// Deepening a hit-test, one level at a time.
#[derive(Debug)]
pub struct Deepen {
    point: ScreenPoint,
    current: u64,
    left: u32,
}

impl Deepen {
    /// The element that was reached.
    pub closed spec fn current(self) -> u64 {
        self.current
    }

    /// How many more levels may be gone down.
    pub closed spec fn left(self) -> nat {
        self.left as nat
    }

    /// The element that is reached in the end, given what the application answers.
    pub closed spec fn outcome(self, g: Shapes) -> u64 {
        deepened(g, self.point, self.current, self.left as nat)
    }

    /// Start at the element that a hit-test gave.
    pub fn start(point: ScreenPoint, id: u64) -> (r: Self)
        ensures
            r.current() == id,
            r.left() == DEEPEN_LIMIT,
            forall|g: Shapes|
                #[trigger] r.outcome(g) == deepened(g, point, id, DEEPEN_LIMIT as nat),
    {
        Deepen { point, current: id, left: DEEPEN_LIMIT }
    }

    /// The element whose children are wanted.
    pub fn wanted(&self) -> (r: Option<u64>)
        ensures
            r == (if self.left() > 0 {
                Some(self.current())
            } else {
                None
            }),
    {
        if self.left > 0 {
            Some(self.current)
        } else {
            None
        }
    }

    /// Take the children of the current element with their rectangles.
    pub fn supply(&mut self, kids: &Vec<u64>, rects: &Vec<Option<ScreenRect>>)
        requires
            kids@.len() == rects@.len(),
            old(self).left() > 0,
        ensures
            final(self).left() < old(self).left(),
            forall|g: Shapes|
                (g.kids)(old(self).current()) == kids@ && rects_of(g, kids@) == rects@
                    ==> #[trigger] final(self).outcome(g) == old(self).outcome(g),
    {
        match tightest_child(rects, self.point) {
            Some(j) => {
                self.current = kids[j];
                self.left = self.left - 1;
            },
            None => {
                self.left = 0;
            },
        }
    }

    /// The element that was reached, once nothing is wanted.
    pub fn finish(self) -> (r: u64)
        requires
            self.left() == 0,
        ensures
            forall|g: Shapes| #[trigger] self.outcome(g) == r,
    {
        self.current
    }
}

// ---------------------------------------------------------------------------
// Climbing to the window
// ---------------------------------------------------------------------------

/// How many parents are climbed at most.
pub const CLIMB_LIMIT: u32 = 50;

/// What an application answers, for each element: its role and its parent.
pub struct Lineage {
    pub role: spec_fn(u64) -> Seq<char>,
    pub parent: spec_fn(u64) -> Option<u64>,
}

/// The nearest window at or above an element, within the limit.
pub open spec fn enclosing(g: Lineage, id: u64, steps: nat) -> Option<u64>
    decreases steps,
{
    if (g.role)(id) == "AXWindow"@ {
        Some(id)
    } else if steps == 0 {
        None
    } else {
        match (g.parent)(id) {
            Some(p) => enclosing(g, p, (steps - 1) as nat),
            None => None,
        }
    }
}

/// What a climb comes to next.
#[derive(Debug, Clone, Copy, PartialEq, Eq, Structural)]
pub enum Climb {
    /// The role and parent of this element are wanted; so many parents may follow.
    At { id: u64, left: u32 },
    /// The climb is over.
    Done(Option<u64>),
}

impl Climb {
    /// The window that is found in the end, given what the application answers.
    pub open spec fn outcome(self, g: Lineage) -> Option<u64> {
        match self {
            Climb::At { id, left } => enclosing(g, id, left as nat),
            Climb::Done(r) => r,
        }
    }

    /// Start at an element.
    pub fn start(id: u64) -> (r: Self)
        ensures
            forall|g: Lineage| #[trigger] r.outcome(g) == enclosing(g, id, CLIMB_LIMIT as nat),
    {
        Climb::At { id, left: CLIMB_LIMIT }
    }

    /// Take the role and the parent of the current element. The parent counts only
    /// where the element is no window.
    pub fn step(self, role: &str, parent: Option<u64>) -> (r: Self)
        ensures
            match self {
                Climb::At { id, left } => forall|g: Lineage|
                    (g.role)(id) == role@ && (role@ != "AXWindow"@ ==> (g.parent)(id) == parent)
                        ==> #[trigger] r.outcome(g) == self.outcome(g),
                Climb::Done(_) => r == self,
            },
            r matches Climb::At { left, .. } ==> (self matches Climb::At { left: before, .. } && left
                < before),
    {
        match self {
            Climb::At { id, left } => {
                if same(role, "AXWindow") {
                    return Climb::Done(Some(id));
                }
                if left == 0 {
                    return Climb::Done(None);
                }
                match parent {
                    Some(p) => Climb::At { id: p, left: left - 1 },
                    None => Climb::Done(None),
                }
            },
            Climb::Done(_) => self,
        }
    }
}

// ---------------------------------------------------------------------------
// Climbing to the picked element
// ---------------------------------------------------------------------------

/// What an application answers, for each element: its bounds and its parent.
pub struct Places {
    pub rect: spec_fn(u64) -> Option<ScreenRect>,
    pub parent: spec_fn(u64) -> Option<u64>,
}

/// The first element at or above `id` that stands where the pick does, within the
/// limit.
pub open spec fn standing_at(g: Places, id: u64, bounds: ScreenRect, steps: nat) -> Option<u64>
    decreases steps,
{
    if (g.rect)(id) == Some(bounds) {
        Some(id)
    } else if steps == 0 {
        None
    } else {
        match (g.parent)(id) {
            Some(p) => standing_at(g, p, bounds, (steps - 1) as nat),
            None => None,
        }
    }
}

/// The element `k` parents above `id`.
pub open spec fn ancestor(g: Places, id: u64, k: nat) -> Option<u64>
    decreases k,
{
    if k == 0 {
        Some(id)
    } else {
        match (g.parent)(id) {
            Some(p) => ancestor(g, p, (k - 1) as nat),
            None => None,
        }
    }
}

/// What the search for a picked element comes to next.
#[derive(Debug, Clone, Copy, PartialEq, Eq, Structural)]
pub enum Seek {
    /// The bounds and parent of this element are wanted; so many parents may follow.
    At { id: u64, left: u32 },
    /// The search is over.
    Done(Option<u64>),
}

impl Seek {
    /// The element that is found in the end, given what the application answers.
    pub open spec fn outcome(self, g: Places, bounds: ScreenRect) -> Option<u64> {
        match self {
            Seek::At { id, left } => standing_at(g, id, bounds, left as nat),
            Seek::Done(r) => r,
        }
    }

    /// Start at the element under the click.
    pub fn start(id: u64) -> (r: Self)
        ensures
            r == (Seek::At { id, left: CLIMB_LIMIT }),
            forall|g: Places, bounds: ScreenRect| #[trigger]
                r.outcome(g, bounds) == standing_at(g, id, bounds, CLIMB_LIMIT as nat),
    {
        Seek::At { id, left: CLIMB_LIMIT }
    }

    /// Take the bounds and the parent of the current element. The parent counts only
    /// where the element stands elsewhere.
    pub fn step(self, rect: Option<ScreenRect>, parent: Option<u64>, bounds: ScreenRect) -> (r: Self)
        ensures
            match self {
                Seek::At { id, left } => forall|g: Places|
                    (g.rect)(id) == rect && (rect != Some(bounds) ==> (g.parent)(id) == parent)
                        ==> #[trigger] r.outcome(g, bounds) == self.outcome(g, bounds),
                Seek::Done(_) => r == self,
            },
            r matches Seek::At { left, .. } ==> (self matches Seek::At { left: before, .. } && left
                < before),
    {
        match self {
            Seek::At { id, left } => {
                if let Some(b) = rect {
                    if b == bounds {
                        return Seek::Done(Some(id));
                    }
                }
                if left == 0 {
                    return Seek::Done(None);
                }
                match parent {
                    Some(p) => Seek::At { id: p, left: left - 1 },
                    None => Seek::Done(None),
                }
            },
            Seek::Done(_) => self,
        }
    }
}

/// The element that is found is the first in the chain of parents that stands where
/// the pick does, and where none is found, none within the limit does.
pub proof fn the_nearest_is_found(g: Places, id: u64, bounds: ScreenRect, steps: nat)
    ensures
        match standing_at(g, id, bounds, steps) {
            Some(found) => exists|k: nat|
                k <= steps && #[trigger] ancestor(g, id, k) == Some(found) && (g.rect)(found)
                    == Some(bounds) && forall|j: nat|
                    j < k ==> (#[trigger] ancestor(g, id, j) matches Some(e) && (g.rect)(e) != Some(
                        bounds,
                    )),
            None => forall|j: nat|
                j <= steps ==> (#[trigger] ancestor(g, id, j) matches Some(e) ==> (g.rect)(e)
                    != Some(bounds)),
        },
    decreases steps,
{
    if (g.rect)(id) == Some(bounds) {
        assert(ancestor(g, id, 0) == Some(id));
    } else if steps > 0 {
        match (g.parent)(id) {
            Some(p) => {
                the_nearest_is_found(g, p, bounds, (steps - 1) as nat);
                match standing_at(g, id, bounds, steps) {
                    Some(found) => {
                        let k = choose|k: nat|
                            k <= steps - 1 && #[trigger] ancestor(g, p, k) == Some(found) && (
                            g.rect)(found) == Some(bounds) && forall|j: nat|
                                j < k ==> (#[trigger] ancestor(g, p, j) matches Some(e) && (
                                g.rect)(e) != Some(bounds));
                        assert(ancestor(g, id, (k + 1) as nat) == Some(found));
                        assert forall|j: nat| j < k + 1 implies (#[trigger] ancestor(
                            g,
                            id,
                            j,
                        ) matches Some(e) && (g.rect)(e) != Some(bounds)) by {
                            if j > 0 {
                                assert(ancestor(g, id, j) == ancestor(g, p, (j - 1) as nat));
                            }
                        }
                    },
                    None => {
                        assert forall|j: nat| j <= steps implies (#[trigger] ancestor(
                            g,
                            id,
                            j,
                        ) matches Some(e) ==> (g.rect)(e) != Some(bounds)) by {
                            if j > 0 {
                                assert(ancestor(g, id, j) == ancestor(g, p, (j - 1) as nat));
                            }
                        }
                    },
                }
            },
            None => {
                assert forall|j: nat| j <= steps implies (#[trigger] ancestor(g, id, j) matches Some(
                    e,
                ) ==> (g.rect)(e) != Some(bounds)) by {}
            },
        }
    } else {
        assert forall|j: nat| j <= steps implies (#[trigger] ancestor(g, id, j) matches Some(e)
            ==> (g.rect)(e) != Some(bounds)) by {}
    }
}

// ---------------------------------------------------------------------------
// The pick
// ---------------------------------------------------------------------------

/// What the application tells of an element that may be picked.
#[derive(Debug)]
pub struct ElementFacts {
    pub role: Option<String>,
    pub subrole: Option<String>,
    pub title: Option<String>,
    pub description: Option<String>,
    pub label: Option<String>,
    pub value: Option<String>,
    pub identifier: Option<String>,
    pub rect: Option<ScreenRect>,
    pub window_title: Option<String>,
    pub window_rect: Option<ScreenRect>,
    pub child_count: usize,
}

/// The role, empty where it is not reported.
pub open spec fn role_or_empty(role: Option<String>) -> Seq<char> {
    match role {
        Some(r) => r@,
        None => Seq::empty(),
    }
}

/// The element cannot be what was clicked. One without a rectangle cannot.
pub open spec fn facts_shallow(f: ElementFacts, click: ScreenPoint) -> bool {
    match f.rect {
        Some(b) => shallow(role_or_empty(f.role), b, click, f.window_rect, f.child_count as nat),
        None => true,
    }
}

/// Is the element one that cannot be what was clicked? Where it is, the
/// application's own tree is worth a search.
pub fn needs_rescue(f: &ElementFacts, click: ScreenPoint) -> (r: bool)
    ensures
        r == facts_shallow(*f, click),
{
    match &f.rect {
        Some(b) => {
            let role = match &f.role {
                Some(t) => t.as_str(),
                None => "",
            };
            proof {
                reveal_strlit("");
                assert(""@ =~= Seq::empty());
            }
            is_shallow_pick(role, b, click, f.window_rect.as_ref(), f.child_count)
        },
        None => true,
    }
}

/// Is the element that a search found to be taken in place of the first? Only where
/// the first is shallow and the other is not.
pub fn prefer_resolved(first: &ElementFacts, other: &ElementFacts, click: ScreenPoint) -> (r: bool)
    ensures
        r == (facts_shallow(*first, click) && !facts_shallow(*other, click)),
{
    needs_rescue(first, click) && !needs_rescue(other, click)
}

/// The picked element, where it has bounds.
pub open spec fn picked_view(
    f: ElementFacts,
    click: ScreenPoint,
    pid: i32,
    app_path: Option<Seq<char>>,
) -> PickedView {
    let role = role_or_unknown(opt_view(f.role));
    PickedView {
        role,
        subrole: filled(opt_view(f.subrole)),
        name: first_of(
            opt_view(f.title),
            opt_view(f.description),
            opt_view(f.label),
            opt_view(f.value),
        ),
        identifier: filled(opt_view(f.identifier)),
        bounds: f.rect->0,
        pid,
        app_path,
        window_title: opt_view(f.window_title),
        window_bounds: f.window_rect,
        click: Some(click),
        ax_shallow: shallow(role, f.rect->0, click, f.window_rect, f.child_count as nat),
        crop_path: None,
        ax_tree: None,
    }
}

/// The picked element; `None` where it has no bounds.
pub fn picked_element(
    f: &ElementFacts,
    click: ScreenPoint,
    pid: i32,
    app_path: Option<String>,
) -> (r: Option<PickedElement>)
    ensures
        match r {
            Some(p) => f.rect is Some && p@ == picked_view(*f, click, pid, opt_view(app_path)),
            None => f.rect is None,
        },
        f.rect matches Some(b) ==> (r matches Some(p) && {
            &&& p.bounds == b
            &&& p.window_bounds == f.window_rect
            &&& p.pid == pid
            &&& p.click == Some(click)
            &&& opt_view(p.window_title) == opt_view(f.window_title)
            &&& opt_view(p.app_path) == opt_view(app_path)
        }),
{
    let bounds = match f.rect {
        Some(b) => b,
        None => {
            return None;
        },
    };
    let role = match &f.role {
        Some(t) => copy_of(t.as_str()),
        None => copy_of("AXUnknown"),
    };
    let ax_shallow = is_shallow_pick(
        role.as_str(),
        &bounds,
        click,
        f.window_rect.as_ref(),
        f.child_count,
    );
    let p = PickedElement {
        role,
        subrole: copy_filled(&f.subrole),
        name: best_name(&f.title, &f.description, &f.label, &f.value),
        identifier: copy_filled(&f.identifier),
        bounds,
        pid,
        app_path,
        window_title: copy_of_opt(&f.window_title),
        window_bounds: f.window_rect,
        click: Some(click),
        ax_shallow,
        crop_path: None,
        ax_tree: None,
    };
    assert(p@ =~= picked_view(*f, click, pid, opt_view(app_path)));
    Some(p)
}

/// Why nothing was picked.
#[derive(Debug, Clone, Copy, PartialEq, Eq, Structural)]
pub enum PickError {
    /// The user has not granted access.
    Denied,
    /// Nothing is at the point.
    NoElement,
    /// What is at the point has no bounds.
    NoBounds,
}

impl PickError {
    /// The error in words. A pick in one app is told apart from one on the whole
    /// screen.
    pub open spec fn words(self, point: ScreenPoint, app_pid: Option<i32>) -> Seq<char> {
        match (self, app_pid) {
            (PickError::Denied, Some(_)) => "AX permission denied"@,
            (PickError::Denied, None) =>
                "AX permission denied — grant Accessibility access in System Settings then retry."@,
            (PickError::NoElement, Some(pid)) => "no AX element at ("@ + exact_points(
                point.x as int,
            ) + ","@ + exact_points(point.y as int) + ") in app pid "@ + decimal_int(pid as int),
            (PickError::NoElement, None) => "no AX element at ("@ + exact_points(point.x as int)
                + ", "@ + exact_points(point.y as int) + ")"@,
            (PickError::NoBounds, Some(_)) => "picked element has no bounds"@,
            (PickError::NoBounds, None) => "element has no bounds"@,
        }
    }

    /// The error in words.
    pub fn message(self, point: ScreenPoint, app_pid: Option<i32>) -> (r: String)
        ensures
            r@ == self.words(point, app_pid),
    {
        match (self, app_pid) {
            (PickError::Denied, Some(_)) => copy_of("AX permission denied"),
            (PickError::Denied, None) => copy_of(
                "AX permission denied — grant Accessibility access in System Settings then retry.",
            ),
            (PickError::NoElement, Some(pid)) => {
                let mut out = copy_of("no AX element at (");
                out.push_str(exact_points_text(point.x).as_str());
                out.push_str(",");
                out.push_str(exact_points_text(point.y).as_str());
                out.push_str(") in app pid ");
                out.push_str(decimal_int_text(pid as i64).as_str());
                out
            },
            (PickError::NoElement, None) => {
                let mut out = copy_of("no AX element at (");
                out.push_str(exact_points_text(point.x).as_str());
                out.push_str(", ");
                out.push_str(exact_points_text(point.y).as_str());
                out.push_str(")");
                out
            },
            (PickError::NoBounds, Some(_)) => copy_of("picked element has no bounds"),
            (PickError::NoBounds, None) => copy_of("element has no bounds"),
        }
    }
}

// ---------------------------------------------------------------------------
// Windows under a point
// ---------------------------------------------------------------------------

/// An on-screen window as the window server lists it, front to back.
#[derive(Debug, Clone, Copy, PartialEq, Eq, Structural)]
pub struct ScreenWindow {
    pub owner: Option<i32>,
    pub bounds: Option<ScreenRect>,
}

/// The window is a real one of another process, and covers the point.
pub open spec fn hit(w: ScreenWindow, p: ScreenPoint, skip_pid: i32) -> bool {
    &&& w.owner matches Some(pid) && pid != skip_pid && pid > 0
    &&& w.bounds matches Some(b) && b.w > 64 && b.h > 64 && b.covers(p)
}

/// The topmost on-screen window at `point` whose owner process is NOT `skip_pid`: its
/// owner and bounds. Used to bypass our own overlay window when hit-testing.
pub fn topmost_window_owner_at(windows: &Vec<ScreenWindow>, point: ScreenPoint, skip_pid: i32) -> (r:
    Option<(i32, ScreenRect)>)
    ensures
        match r {
            Some((pid, b)) => exists|i: int|
                0 <= i < windows@.len() && hit(#[trigger] windows@[i], point, skip_pid)
                    && windows@[i].owner == Some(pid) && windows@[i].bounds == Some(b) && forall|
                    k: int,
                |
                    0 <= k < i ==> !hit(#[trigger] windows@[k], point, skip_pid),
            None => forall|i: int|
                0 <= i < windows@.len() ==> !hit(#[trigger] windows@[i], point, skip_pid),
        },
{
    for i in 0..windows.len()
        invariant
            forall|k: int| 0 <= k < i ==> !hit(#[trigger] windows@[k], point, skip_pid),
    {
        let w = windows[i];
        if let Some(pid) = w.owner {
            if pid != skip_pid && pid > 0 {
                if let Some(b) = w.bounds {
                    if b.w > 64 && b.h > 64 && b.contains(point) {
                        assert(hit(windows@[i as int], point, skip_pid));
                        return Some((pid, b));
                    }
                }
            }
        }
    }
    None
}

/// How to pick which window of an app to walk.
#[derive(Debug)]
pub enum WindowSelector {
    /// Index into the app's `AXWindows` array (front-to-back order).
    Index(usize),
    /// Exact `AXTitle` match.
    Title(String),
    /// The app's main/focused window (falls back to the first window).
    Main,
    /// Match the Core Graphics window id by reconciling its bounds against the AX
    /// windows (best-effort).
    WindowId(u32),
}

/// A window as the application lists it.
#[derive(Debug)]
pub struct AxWindow {
    pub id: u64,
    pub title: Option<String>,
    pub rect: Option<ScreenRect>,
}

/// Why no window is selected.
#[derive(Debug)]
pub enum SelectError {
    /// The app exposes no windows.
    NoWindows,
    /// No window has the title.
    NoSuchTitle,
    /// The app has fewer windows.
    OutOfRange(usize),
}

impl SelectError {
    /// The error in words; `title` is the title that was asked for, quoted.
    pub open spec fn words(self, pid: i32, title: Seq<char>) -> Seq<char> {
        match self {
            SelectError::NoWindows => "app pid "@ + decimal_int(pid as int)
                + " exposes no AX windows (Electron may need waking, or none are open)"@,
            SelectError::NoSuchTitle => "no window titled "@ + title + " in pid "@ + decimal_int(
                pid as int,
            ),
            SelectError::OutOfRange(i) => "window index "@ + decimal(i as nat)
                + " out of range for pid "@ + decimal_int(pid as int),
        }
    }

    /// The error in words; `title` is the title that was asked for, quoted.
    pub fn message(&self, pid: i32, title: &str) -> (r: String)
        ensures
            r@ == self.words(pid, title@),
    {
        let process = decimal_int_text(pid as i64);
        match self {
            SelectError::NoWindows => {
                let mut out = copy_of("app pid ");
                out.push_str(process.as_str());
                out.push_str(" exposes no AX windows (Electron may need waking, or none are open)");
                out
            },
            SelectError::NoSuchTitle => {
                let mut out = copy_of("no window titled ");
                out.push_str(title);
                out.push_str(" in pid ");
                out.push_str(process.as_str());
                out
            },
            SelectError::OutOfRange(i) => {
                let mut out = copy_of("window index ");
                out.push_str(decimal_text(*i as u64).as_str());
                out.push_str(" out of range for pid ");
                out.push_str(process.as_str());
                out
            },
        }
    }
}

/// Within four points of each other.
pub open spec fn close(a: i64, b: i64) -> bool {
    -256 < a - b < 256
}

/// Loose rect equality (within 4pt): AX and window server bounds drift slightly.
pub open spec fn rects_close(a: ScreenRect, b: ScreenRect) -> bool {
    close(a.x, b.x) && close(a.y, b.y) && close(a.w, b.w) && close(a.h, b.h)
}

fn is_close(a: i64, b: i64) -> (r: bool)
    ensures
        r == close(a, b),
{
    let d: i128 = a as i128 - b as i128;
    -256 < d && d < 256
}

/// Loose rect equality (within 4pt).
pub fn rect_close(a: &ScreenRect, b: &ScreenRect) -> (r: bool)
    ensures
        r == rects_close(*a, *b),
{
    is_close(a.x, b.x) && is_close(a.y, b.y) && is_close(a.w, b.w) && is_close(a.h, b.h)
}

/// The first window with the title, at or after the `i`th.
pub open spec fn titled(windows: Seq<AxWindow>, title: Seq<char>, i: int) -> Option<int>
    decreases windows.len() - i,
{
    if i < 0 || i >= windows.len() {
        None
    } else if opt_view(windows[i].title) == Some(title) {
        Some(i)
    } else {
        titled(windows, title, i + 1)
    }
}

/// The first window near the rectangle, at or after the `i`th.
pub open spec fn near(windows: Seq<AxWindow>, target: ScreenRect, i: int) -> Option<int>
    decreases windows.len() - i,
{
    if i < 0 || i >= windows.len() {
        None
    } else if windows[i].rect matches Some(r) && rects_close(r, target) {
        Some(i)
    } else {
        near(windows, target, i + 1)
    }
}

/// The bounds of the first listed window with the id, at or after the `i`th.
pub open spec fn listed_bounds(listed: Seq<WindowInfo>, id: u32, i: int) -> Option<ScreenRect>
    decreases listed.len() - i,
{
    if i < 0 || i >= listed.len() {
        None
    } else if listed[i].window_id == id {
        Some(listed[i].bounds)
    } else {
        listed_bounds(listed, id, i + 1)
    }
}

/// The place of the selected window among those of the app.
pub open spec fn selected_place(
    sel: WindowSelector,
    windows: Seq<AxWindow>,
    listed: Seq<WindowInfo>,
) -> Option<int> {
    match sel {
        WindowSelector::Index(i) => Some(i as int),
        WindowSelector::Main => Some(0),
        WindowSelector::Title(t) => titled(windows, t@, 0),
        WindowSelector::WindowId(id) => match listed_bounds(listed, id, 0) {
            Some(target) => match near(windows, target, 0) {
                Some(i) => Some(i),
                None => Some(0),
            },
            None => Some(0),
        },
    }
}

/// The main or focused window, where it is what is asked for.
pub open spec fn main_window(sel: WindowSelector, main: Option<u64>, focused: Option<u64>) -> Option<
    u64,
> {
    match sel {
        WindowSelector::Main => if main is Some {
            main
        } else {
            focused
        },
        _ => None,
    }
}

fn find_titled(windows: &Vec<AxWindow>, title: &str) -> (r: Option<usize>)
    ensures
        match r {
            Some(i) => i < windows@.len() && titled(windows@, title@, 0) == Some(i as int),
            None => titled(windows@, title@, 0) is None,
        },
{
    for i in 0..windows.len()
        invariant
            titled(windows@, title@, 0) == titled(windows@, title@, i as int),
    {
        if let Some(t) = &windows[i].title {
            if same(t.as_str(), title) {
                return Some(i);
            }
        }
    }
    None
}

fn find_near(windows: &Vec<AxWindow>, target: &ScreenRect) -> (r: Option<usize>)
    ensures
        match r {
            Some(i) => i < windows@.len() && near(windows@, *target, 0) == Some(i as int),
            None => near(windows@, *target, 0) is None,
        },
{
    for i in 0..windows.len()
        invariant
            near(windows@, *target, 0) == near(windows@, *target, i as int),
    {
        if let Some(r) = &windows[i].rect {
            if rect_close(r, target) {
                return Some(i);
            }
        }
    }
    None
}

fn find_listed(listed: &Vec<WindowInfo>, id: u32) -> (r: Option<ScreenRect>)
    ensures
        r == listed_bounds(listed@, id, 0),
{
    for i in 0..listed.len()
        invariant
            listed_bounds(listed@, id, 0) == listed_bounds(listed@, id, i as int),
    {
        if listed[i].window_id == id {
            return Some(listed[i].bounds);
        }
    }
    None
}

/// The window to walk. The main or focused window is preferred directly where it is
/// asked for: it doesn't depend on the list being populated or ordered as expected.
pub fn select_window(
    sel: &WindowSelector,
    main: Option<u64>,
    focused: Option<u64>,
    windows: &Vec<AxWindow>,
    listed: &Vec<WindowInfo>,
) -> (r: Result<u64, SelectError>)
    ensures
        if main_window(*sel, main, focused) is Some {
            r matches Ok(id) && id == main_window(*sel, main, focused)->0
        } else if windows@.len() == 0 {
            r matches Err(SelectError::NoWindows)
        } else {
            match selected_place(*sel, windows@, listed@) {
                None => r matches Err(SelectError::NoSuchTitle),
                Some(i) => if i < windows@.len() {
                    r matches Ok(id) && id == windows@[i].id
                } else {
                    r matches Err(SelectError::OutOfRange(k)) && k == i
                },
            }
        },
{
    if let WindowSelector::Main = sel {
        if let Some(id) = main {
            return Ok(id);
        }
        if let Some(id) = focused {
            return Ok(id);
        }
    }
    if windows.len() == 0 {
        return Err(SelectError::NoWindows);
    }
    let place: usize = match sel {
        WindowSelector::Index(i) => *i,
        WindowSelector::Main => 0,
        WindowSelector::Title(t) => match find_titled(windows, t.as_str()) {
            Some(i) => i,
            None => {
                return Err(SelectError::NoSuchTitle);
            },
        },
        WindowSelector::WindowId(id) => match find_listed(listed, *id) {
            Some(target) => match find_near(windows, &target) {
                Some(i) => i,
                None => 0,
            },
            None => 0,
        },
    };
    if place >= windows.len() {
        return Err(SelectError::OutOfRange(place));
    }
    Ok(windows[place].id)
}

// ---------------------------------------------------------------------------
// What a pick is
// ---------------------------------------------------------------------------

/// What is picked is the element itself: its own rectangle, whatever the window's is, its
/// role, its names, its window and process, and the click that it was picked by.
pub proof fn a_pick_is_the_element_itself(
    f: ElementFacts,
    click: ScreenPoint,
    pid: i32,
    app_path: Option<Seq<char>>,
)
    requires
        f.rect is Some,
    ensures
        ({
            let p = picked_view(f, click, pid, app_path);
            &&& f.rect == Some(p.bounds)
            &&& p.window_bounds == f.window_rect
            &&& p.window_title == opt_view(f.window_title)
            &&& p.pid == pid
            &&& p.app_path == app_path
            &&& p.click == Some(click)
            &&& f.role matches Some(r) ==> p.role == r@
            &&& f.role is None ==> p.role == "AXUnknown"@
            &&& f.title matches Some(t) ==> p.name == t@
            &&& f.title is None ==> (f.description matches Some(t) ==> p.name == t@)
            &&& f.title is None && f.description is None ==> (f.label matches Some(t) ==> p.name
                == t@)
            &&& f.title is None && f.description is None && f.label is None ==> (
            f.value matches Some(t) ==> p.name == t@)
            &&& f.subrole matches Some(t) ==> t@.len() > 0 ==> p.subrole == Some(t@)
            &&& p.subrole matches Some(t) ==> t.len() > 0 && opt_view(f.subrole) == Some(t)
            &&& f.identifier matches Some(t) ==> t@.len() > 0 ==> p.identifier == Some(t@)
            &&& p.identifier matches Some(t) ==> t.len() > 0 && opt_view(f.identifier) == Some(t)
            &&& p.crop_path is None && p.ax_tree is None
        }),
{
}

/// A pick is in doubt exactly where it cannot be what was clicked: the click lies outside
/// of it, it is a menu bar, an application or a window, or it takes up nine tenths of the
/// window and holds two children at most.
pub proof fn a_pick_is_in_doubt_where_it_cannot_be_meant(
    f: ElementFacts,
    click: ScreenPoint,
    pid: i32,
    app_path: Option<Seq<char>>,
)
    requires
        f.rect is Some,
    ensures
        ({
            let b = f.rect->0;
            let p = picked_view(f, click, pid, app_path);
            let outside = click.x < b.x || click.x > b.x + b.w || click.y < b.y || click.y > b.y
                + b.h;
            let top = p.role == "AXMenuBar"@ || p.role == "AXMenuBarItem"@ || p.role
                == "AXApplication"@ || p.role == "AXWindow"@;
            let filling = f.window_rect matches Some(w) && w.w * w.h > 0 && 10 * (b.w * b.h) >= 9
                * (w.w * w.h);
            &&& outside ==> p.ax_shallow
            &&& top ==> p.ax_shallow
            &&& filling && f.child_count <= 2 ==> p.ax_shallow
            &&& !outside && !top && !filling ==> !p.ax_shallow
            &&& !outside && !top && f.child_count > 2 ==> !p.ax_shallow
        }),
{
}

/// Going down from a hit-test ends at an element that covers the point, or at the one it
/// started from; and it goes on as long as a child covers the point and the limit is not
/// reached.
pub proof fn deepening_stays_under_the_point(g: Shapes, p: ScreenPoint, id: u64, steps: nat)
    ensures
        ({
            let end = deepened(g, p, id, steps);
            &&& end == id || ((g.rect)(end) matches Some(r) && r.covers(p))
            &&& steps > 0 && (exists|i: int|
                0 <= i < (g.kids)(id).len() && ((g.rect)(#[trigger] (g.kids)(id)[i]) matches Some(
                    r,
                ) && r.covers(p))) ==> exists|i: int|
                0 <= i < (g.kids)(id).len() && ((g.rect)((g.kids)(id)[i]) matches Some(r)
                    && r.covers(p)) && end == deepened(
                    g,
                    p,
                    #[trigger] (g.kids)(id)[i],
                    (steps - 1) as nat,
                )
        }),
    decreases steps,
{
    if steps > 0 {
        let kids = (g.kids)(id);
        let rects = rects_of(g, kids);
        tightest_is_smallest(rects, p);
        match tightest(rects, p) {
            Some(j) => {
                assert(rects[j] == (g.rect)(kids[j]));
                deepening_stays_under_the_point(g, p, kids[j], (steps - 1) as nat);
            },
            None => {
                assert forall|i: int| 0 <= i < kids.len() implies !((g.rect)(
                    #[trigger] kids[i],
                ) matches Some(r) && r.covers(p)) by {
                    assert(rects[i] == (g.rect)(kids[i]));
                }
            },
        }
    }
}

/// The element `k` parents above `id`.
pub open spec fn forebear(g: Lineage, id: u64, k: nat) -> Option<u64>
    decreases k,
{
    if k == 0 {
        Some(id)
    } else {
        match (g.parent)(id) {
            Some(p) => forebear(g, p, (k - 1) as nat),
            None => None,
        }
    }
}

/// The window that an element is in is the nearest one at or above it, and where none is
/// given, none is within the limit.
pub proof fn the_nearest_window_is_found(g: Lineage, id: u64, steps: nat)
    ensures
        match enclosing(g, id, steps) {
            Some(found) => exists|k: nat|
                k <= steps && #[trigger] forebear(g, id, k) == Some(found) && (g.role)(found)
                    == "AXWindow"@ && forall|j: nat|
                    j < k ==> (#[trigger] forebear(g, id, j) matches Some(e) && (g.role)(e)
                        != "AXWindow"@),
            None => forall|j: nat|
                j <= steps ==> (#[trigger] forebear(g, id, j) matches Some(e) ==> (g.role)(e)
                    != "AXWindow"@),
        },
    decreases steps,
{
    if (g.role)(id) == "AXWindow"@ {
        assert(forebear(g, id, 0) == Some(id));
    } else if steps > 0 && (g.parent)(id) is Some {
        let p = (g.parent)(id)->0;
        the_nearest_window_is_found(g, p, (steps - 1) as nat);
        match enclosing(g, id, steps) {
            Some(found) => {
                let k = choose|k: nat|
                    k <= steps - 1 && #[trigger] forebear(g, p, k) == Some(found) && (g.role)(found)
                        == "AXWindow"@ && forall|j: nat|
                        j < k ==> (#[trigger] forebear(g, p, j) matches Some(e) && (g.role)(e)
                            != "AXWindow"@);
                assert(forebear(g, id, (k + 1) as nat) == Some(found));
                assert forall|j: nat| j < k + 1 implies (#[trigger] forebear(g, id, j) matches Some(
                    e,
                ) && (g.role)(e) != "AXWindow"@) by {
                    if j > 0 {
                        assert(forebear(g, id, j) == forebear(g, p, (j - 1) as nat));
                    }
                }
            },
            None => {
                assert forall|j: nat| j <= steps implies (#[trigger] forebear(g, id, j) matches Some(
                    e,
                ) ==> (g.role)(e) != "AXWindow"@) by {
                    if j > 0 {
                        assert(forebear(g, id, j) == forebear(g, p, (j - 1) as nat));
                    }
                }
            },
        }
    } else {
        assert forall|j: nat| j <= steps implies (#[trigger] forebear(g, id, j) matches Some(e) ==> (
        g.role)(e) != "AXWindow"@) by {}
    }
}

/// A window that is hit is one of another process, more than a point wide and high, and
/// lies under the point; and every such window is hit.
pub proof fn a_hit_is_a_foreign_window_under_the_point(w: ScreenWindow, p: ScreenPoint, skip_pid: i32)
    ensures
        hit(w, p, skip_pid) ==> w.owner is Some && w.bounds is Some,
        w.owner is Some && w.bounds is Some ==> {
            let (pid, b) = (w.owner->0, w.bounds->0);
            &&& pid == skip_pid || pid <= 0 ==> !hit(w, p, skip_pid)
            &&& b.w <= 64 || b.h <= 64 ==> !hit(w, p, skip_pid)
            &&& p.x < b.x || p.x - b.x > b.w || p.y < b.y || p.y - b.y > b.h ==> !hit(
                w,
                p,
                skip_pid,
            )
            &&& pid > 0 && pid != skip_pid && b.w > 64 && b.h > 64 && 0 <= p.x - b.x <= b.w && 0
                <= p.y - b.y <= b.h ==> hit(w, p, skip_pid)
        },
{
}

proof fn titled_is_first(windows: Seq<AxWindow>, title: Seq<char>, i: int)
    requires
        0 <= i,
    ensures
        match titled(windows, title, i) {
            Some(k) => i <= k < windows.len() && opt_view(windows[k].title) == Some(title)
                && forall|j: int|
                i <= j < k ==> opt_view((#[trigger] windows[j]).title) != Some(title),
            None => forall|j: int|
                i <= j < windows.len() ==> opt_view((#[trigger] windows[j]).title) != Some(title),
        },
    decreases windows.len() - i,
{
    if i < windows.len() && opt_view(windows[i].title) != Some(title) {
        titled_is_first(windows, title, i + 1);
    }
}

/// A window stands where another is told to: each edge and side within four points.
pub open spec fn stands_near(w: AxWindow, target: ScreenRect) -> bool {
    w.rect matches Some(r) && {
        &&& -256 < r.x - target.x < 256
        &&& -256 < r.y - target.y < 256
        &&& -256 < r.w - target.w < 256
        &&& -256 < r.h - target.h < 256
    }
}

proof fn near_is_first(windows: Seq<AxWindow>, target: ScreenRect, i: int)
    requires
        0 <= i,
    ensures
        match near(windows, target, i) {
            Some(k) => i <= k < windows.len() && stands_near(windows[k], target) && forall|j: int|
                i <= j < k ==> !stands_near(#[trigger] windows[j], target),
            None => forall|j: int|
                i <= j < windows.len() ==> !stands_near(#[trigger] windows[j], target),
        },
    decreases windows.len() - i,
{
    if i < windows.len() && !stands_near(windows[i], target) {
        near_is_first(windows, target, i + 1);
    }
}

proof fn listed_is_first(listed: Seq<WindowInfo>, id: u32, i: int)
    requires
        0 <= i,
    ensures
        match listed_bounds(listed, id, i) {
            Some(b) => exists|k: int|
                i <= k < listed.len() && (#[trigger] listed[k]).window_id == id && listed[k].bounds
                    == b && forall|j: int| i <= j < k ==> (#[trigger] listed[j]).window_id != id,
            None => forall|j: int|
                i <= j < listed.len() ==> (#[trigger] listed[j]).window_id != id,
        },
    decreases listed.len() - i,
{
    if i < listed.len() && listed[i].window_id != id {
        listed_is_first(listed, id, i + 1);
    }
}

/// A window is selected by what it is asked for by: the one at the index; the first with
/// the title; the first that stands where the window server lists the id; and the first
/// of all where no more is known.
pub proof fn a_window_is_selected_as_asked(
    sel: WindowSelector,
    windows: Seq<AxWindow>,
    listed: Seq<WindowInfo>,
)
    ensures
        match sel {
            WindowSelector::Index(i) => selected_place(sel, windows, listed) == Some(i as int),
            WindowSelector::Main => selected_place(sel, windows, listed) == Some(0int),
            WindowSelector::Title(t) => match selected_place(sel, windows, listed) {
                Some(k) => 0 <= k < windows.len() && opt_view(windows[k].title) == Some(t@)
                    && forall|j: int|
                    0 <= j < k ==> opt_view((#[trigger] windows[j]).title) != Some(t@),
                None => forall|j: int|
                    0 <= j < windows.len() ==> opt_view((#[trigger] windows[j]).title) != Some(t@),
            },
            WindowSelector::WindowId(id) => ((forall|n: int|
                0 <= n < listed.len() ==> (#[trigger] listed[n]).window_id != id)
                ==> selected_place(sel, windows, listed) == Some(0int)) && forall|n: int|
                0 <= n < listed.len() && (#[trigger] listed[n]).window_id == id && (forall|j: int|
                    0 <= j < n ==> (#[trigger] listed[j]).window_id != id) ==> {
                    let k = selected_place(sel, windows, listed)->0;
                    &&& selected_place(sel, windows, listed) is Some
                    &&& (exists|j: int|
                        0 <= j < windows.len() && stands_near(
                            #[trigger] windows[j],
                            listed[n].bounds,
                        )) ==> 0 <= k < windows.len() && stands_near(windows[k], listed[n].bounds)
                        && forall|j: int|
                        0 <= j < k ==> !stands_near(#[trigger] windows[j], listed[n].bounds)
                    &&& (forall|j: int|
                        0 <= j < windows.len() ==> !stands_near(
                            #[trigger] windows[j],
                            listed[n].bounds,
                        )) ==> k == 0
                },
        },
{
    match sel {
        WindowSelector::Title(t) => {
            titled_is_first(windows, t@, 0);
        },
        WindowSelector::WindowId(id) => {
            listed_is_first(listed, id, 0);
            if let Some(b) = listed_bounds(listed, id, 0) {
                near_is_first(windows, b, 0);
            }
        },
        _ => {},
    }
}

/// The main window is what is asked for by that, before any list; else the focused one.
pub proof fn the_main_window_comes_first(sel: WindowSelector, main: Option<u64>, focused: Option<u64>)
    ensures
        sel is Main && main is Some ==> main_window(sel, main, focused) == main,
        sel is Main && main is None ==> main_window(sel, main, focused) == focused,
        sel !is Main ==> main_window(sel, main, focused) is None,
{
}

} // verus!
