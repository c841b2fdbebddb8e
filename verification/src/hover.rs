//! Following the cursor in pick mode: what is outlined, and how the arrow keys move
//! through the tree.

use crate::ax_macos::attrs::{best_name, copy_filled, filled, first_of};
use crate::ax_macos::band::{band_of, sibling_band};
use crate::ax_macos::pick::{
    facts_shallow, is_shallow_pick, role_or_empty, shallow, ElementFacts,
};
use crate::capture::{in_range, PickedElement, PickedView, ScreenPoint, ScreenRect};
use crate::cdp::ProbeHit;
use crate::click::hit_accepted;
use crate::session::{hover_fits, PickSession, SessionView};
use crate::text::{copy_of, copy_of_opt, ends, opt_view};
use vstd::prelude::*;

verus! {

/// What the overlay draws.
#[derive(Debug)]
pub struct HoverPayload {
    pub bounds: Option<ScreenRect>,
    pub role: String,
    pub name: String,
    /// Where the crosshair is.
    pub cursor: ScreenPoint,
}

/// What a [`HoverPayload`] holds.
#[verifier::ext_equal]
pub struct HoverView {
    pub bounds: Option<ScreenRect>,
    pub role: Seq<char>,
    pub name: Seq<char>,
    pub cursor: ScreenPoint,
}

impl View for HoverPayload {
    type V = HoverView;

    open spec fn view(&self) -> HoverView {
        HoverView {
            bounds: self.bounds,
            role: self.role@,
            name: self.name@,
            cursor: self.cursor,
        }
    }
}

/// The cursor is on the screen: a reading below zero means that there was none.
pub fn on_screen(cursor: ScreenPoint) -> (r: bool)
    ensures
        r == (cursor.x >= 0 && cursor.y >= 0),
{
    cursor.x >= 0 && cursor.y >= 0
}

// ---------------------------------------------------------------------------
// Outlining what the page shows
// ---------------------------------------------------------------------------

/// The cursor moved more than three points since, or the widening changed.
pub open spec fn moved(last: Option<(ScreenPoint, u32)>, cursor: ScreenPoint, widen: u32) -> bool {
    match last {
        Some((p, w)) => cursor.x - p.x > 192 || p.x - cursor.x > 192 || cursor.y - p.y > 192 || p.y
            - cursor.y > 192 || w != widen,
        None => true,
    }
}

/// The cursor is over the window.
pub open spec fn over(win: ScreenRect, cursor: ScreenPoint) -> bool {
    0 <= cursor.x - win.x <= win.w && 0 <= cursor.y - win.y <= win.h
}

/// The element that a probe found, in screen coordinates.
pub open spec fn probed(
    hit: ProbeHit,
    win: ScreenRect,
    cursor: ScreenPoint,
    pid: Option<i32>,
    app_path: Option<Seq<char>>,
) -> PickedView {
    PickedView {
        role: if hit.role@.len() == 0 {
            "dom:"@ + hit.tag@
        } else {
            hit.role@
        },
        subrole: None,
        name: if hit.label@.len() == 0 {
            hit.tag@
        } else {
            hit.label@
        },
        identifier: None,
        bounds: ScreenRect {
            x: (hit.x + win.x) as i64,
            y: (hit.y + win.y) as i64,
            w: hit.w,
            h: hit.h,
        },
        pid: match pid {
            Some(p) => p,
            None => -1i32,
        },
        app_path,
        window_title: None,
        window_bounds: Some(win),
        click: Some(cursor),
        ax_shallow: false,
        crop_path: None,
        ax_tree: None,
    }
}

/// What the hover of an Electron target remembers between ticks.
#[derive(Debug)]
pub struct ProbeTracker {
    last: Option<(ScreenPoint, u32)>,
    outlined: Option<ScreenRect>,
}

impl ProbeTracker {
    /// Where and how wide the page was probed last.
    pub closed spec fn last(self) -> Option<(ScreenPoint, u32)> {
        self.last
    }

    /// What is outlined.
    pub closed spec fn outlined(self) -> Option<ScreenRect> {
        self.outlined
    }

    /// Nothing probed yet.
    pub fn new() -> (r: Self)
        ensures
            r.last() is None,
            r.outlined() is None,
    {
        ProbeTracker { last: None, outlined: None }
    }

    /// Where to probe the page at this tick, if anywhere: the cursor moved or the
    /// widening changed, and it is over the window.
    pub fn tick(&mut self, cursor: ScreenPoint, win: &ScreenRect, widen: u32) -> (r: Option<
        (i64, i64),
    >)
        ensures
            final(self).outlined() == old(self).outlined(),
            final(self).last() == (if moved(old(self).last(), cursor, widen) {
                Some((cursor, widen))
            } else {
                old(self).last()
            }),
            r == (if moved(old(self).last(), cursor, widen) && over(*win, cursor) {
                Some(((cursor.x - win.x) as i64, (cursor.y - win.y) as i64))
            } else {
                None
            }),
    {
        let due = match self.last {
            Some((p, w)) => {
                let dx: i128 = cursor.x as i128 - p.x as i128;
                let dy: i128 = cursor.y as i128 - p.y as i128;
                dx > 192 || dx < -192 || dy > 192 || dy < -192 || w != widen
            },
            None => true,
        };
        if !due {
            return None;
        }
        self.last = Some((cursor, widen));
        let vx: i128 = cursor.x as i128 - win.x as i128;
        let vy: i128 = cursor.y as i128 - win.y as i128;
        if vx >= 0 && vy >= 0 && vx <= win.w as i128 && vy <= win.h as i128 {
            Some((vx as i64, vy as i64))
        } else {
            None
        }
    }

    /// Take what a probe found. Where it found something that is outlined and what a
    /// click takes; else the last outline stays and only the crosshair moves.
    pub fn found(
        &mut self,
        hit: Option<ProbeHit>,
        win: ScreenRect,
        cursor: ScreenPoint,
        pid: Option<i32>,
        app_path: Option<String>,
    ) -> (r: (HoverPayload, Option<PickedElement>))
        requires
            win.wf(),
            hit matches Some(h) ==> in_range(h.x) && in_range(h.y),
        ensures
            final(self).last() == old(self).last(),
            match hit {
                Some(h) => {
                    let p = probed(h, win, cursor, pid, opt_view(app_path));
                    &&& r.1 matches Some(e) && e@ == p
                    &&& r.0@ == (HoverView {
                        bounds: Some(p.bounds),
                        role: p.role,
                        name: p.name,
                        cursor,
                    })
                    &&& final(self).outlined() == Some(p.bounds)
                },
                None => {
                    &&& r.1 is None
                    &&& r.0@ == (HoverView {
                        bounds: old(self).outlined(),
                        role: Seq::empty(),
                        name: Seq::empty(),
                        cursor,
                    })
                    &&& final(self).outlined() == old(self).outlined()
                },
            },
    {
        let h = match hit {
            Some(h) => h,
            None => {
                let payload = HoverPayload {
                    bounds: self.outlined,
                    role: String::new(),
                    name: String::new(),
                    cursor,
                };
                assert(payload@ =~= (HoverView {
                    bounds: self.outlined,
                    role: Seq::empty(),
                    name: Seq::empty(),
                    cursor,
                }));
                return (payload, None);
            },
        };
        let bounds = ScreenRect { x: h.x + win.x, y: h.y + win.y, w: h.w, h: h.h };
        let name = if h.label.as_str().is_empty() {
            copy_of(h.tag.as_str())
        } else {
            copy_of(h.label.as_str())
        };
        let role = if h.role.as_str().is_empty() {
            let mut s = copy_of("dom:");
            s.push_str(h.tag.as_str());
            s
        } else {
            copy_of(h.role.as_str())
        };
        let owner: i32 = match pid {
            Some(p) => p,
            None => -1,
        };
        let payload = HoverPayload {
            bounds: Some(bounds),
            role: copy_of(role.as_str()),
            name: copy_of(name.as_str()),
            cursor,
        };
        let picked = PickedElement {
            role,
            subrole: None,
            name,
            identifier: None,
            bounds,
            pid: owner,
            app_path,
            window_title: None,
            window_bounds: Some(win),
            click: Some(cursor),
            ax_shallow: false,
            crop_path: None,
            ax_tree: None,
        };
        self.outlined = Some(bounds);
        assert(picked@ =~= probed(h, win, cursor, pid, opt_view(app_path)));
        (payload, Some(picked))
    }
}

// ---------------------------------------------------------------------------
// Outlining what accessibility shows
// ---------------------------------------------------------------------------

/// The name of an element.
pub open spec fn facts_name(f: ElementFacts) -> Seq<char> {
    first_of(opt_view(f.title), opt_view(f.description), opt_view(f.label), opt_view(f.value))
}

fn role_copy(f: &ElementFacts) -> (r: String)
    ensures
        r@ == role_or_empty(f.role),
{
    match &f.role {
        Some(t) => copy_of(t.as_str()),
        None => {
            let s = String::new();
            assert(s@ =~= Seq::empty());
            s
        },
    }
}

/// What is outlined for an element under the cursor.
pub fn hover_payload(f: &ElementFacts, cursor: ScreenPoint) -> (r: HoverPayload)
    ensures
        r@ == (HoverView {
            bounds: f.rect,
            role: role_or_empty(f.role),
            name: facts_name(*f),
            cursor,
        }),
{
    HoverPayload {
        bounds: f.rect,
        role: role_copy(f),
        name: best_name(&f.title, &f.description, &f.label, &f.value),
        cursor,
    }
}

/// What is drawn where nothing is under the cursor: the crosshair.
pub fn crosshair(cursor: ScreenPoint) -> (r: HoverPayload)
    ensures
        r@ == (HoverView { bounds: None, role: Seq::empty(), name: Seq::empty(), cursor }),
{
    let r = HoverPayload { bounds: None, role: String::new(), name: String::new(), cursor };
    assert(r@ =~= (HoverView { bounds: None, role: Seq::empty(), name: Seq::empty(), cursor }));
    r
}

/// The element that a click takes while `f` is outlined.
pub open spec fn hovered(
    f: ElementFacts,
    cursor: ScreenPoint,
    pid: i32,
    app_path: Option<Seq<char>>,
) -> PickedView {
    PickedView {
        role: role_or_empty(f.role),
        subrole: filled(opt_view(f.subrole)),
        name: facts_name(f),
        identifier: filled(opt_view(f.identifier)),
        bounds: f.rect->0,
        pid,
        app_path,
        window_title: opt_view(f.window_title),
        window_bounds: f.window_rect,
        click: Some(cursor),
        ax_shallow: shallow(
            role_or_empty(f.role),
            f.rect->0,
            cursor,
            f.window_rect,
            f.child_count as nat,
        ),
        crop_path: None,
        ax_tree: None,
    }
}

/// The element that a click takes while `f` is outlined; `None` where it has no
/// bounds.
pub fn hovered_element(
    f: &ElementFacts,
    cursor: ScreenPoint,
    pid: i32,
    app_path: Option<String>,
) -> (r: Option<PickedElement>)
    ensures
        match r {
            Some(p) => f.rect is Some && p@ == hovered(*f, cursor, pid, opt_view(app_path)),
            None => f.rect is None,
        },
        f.rect matches Some(b) ==> (r matches Some(p) && p.bounds == b && p.window_bounds
            == f.window_rect && p.pid == pid && p.click == Some(cursor)),
{
    let bounds = match f.rect {
        Some(b) => b,
        None => {
            return None;
        },
    };
    let role = role_copy(f);
    let ax_shallow = is_shallow_pick(
        role.as_str(),
        &bounds,
        cursor,
        f.window_rect.as_ref(),
        f.child_count,
    );
    let p = PickedElement {
        role,
        subrole: copy_filled(&f.subrole),
        name: best_name(&f.title, &f.description, &f.label, &f.value),
        identifier: copy_filled(&f.identifier),
        bounds,
        pid,
        app_path,
        window_title: copy_of_opt(&f.window_title),
        window_bounds: f.window_rect,
        click: Some(cursor),
        ax_shallow,
        crop_path: None,
        ax_tree: None,
    };
    assert(p@ =~= hovered(*f, cursor, pid, opt_view(app_path)));
    Some(p)
}

/// What one look at the cursor does to the session: an element with bounds is what a
/// click takes from now on, nothing under the cursor means that a click takes nothing,
/// and a process that was met first is noted as woken.
pub open spec fn after_look(
    s: SessionView,
    hit: Option<ElementFacts>,
    cursor: ScreenPoint,
    pid: i32,
    app_path: Option<Seq<char>>,
) -> SessionView {
    match hit {
        Some(f) => SessionView {
            woken: if pid > 0 {
                s.woken.insert(pid)
            } else {
                s.woken
            },
            last_hover: if f.rect is Some {
                Some(hovered(f, cursor, pid, app_path))
            } else {
                s.last_hover
            },
            ..s
        },
        None => SessionView { last_hover: None, ..s },
    }
}

/// One look at the cursor. Gives what is outlined, and whether the process is to be
/// woken before looking again.
pub fn look(
    session: &mut PickSession,
    hit: &Option<ElementFacts>,
    cursor: ScreenPoint,
    pid: i32,
    app_path: Option<String>,
) -> (r: (HoverPayload, bool))
    ensures
        final(session)@ == after_look(old(session)@, *hit, cursor, pid, opt_view(app_path)),
        match hit {
            Some(f) => {
                &&& r.0@ == (HoverView {
                    bounds: f.rect,
                    role: role_or_empty(f.role),
                    name: facts_name(*f),
                    cursor,
                })
                &&& r.1 == (pid > 0 && !old(session)@.woken.contains(pid))
            },
            None => {
                &&& r.0@ == (HoverView {
                    bounds: None,
                    role: Seq::empty(),
                    name: Seq::empty(),
                    cursor,
                })
                &&& !r.1
            },
        },
{
    let f = match hit {
        Some(f) => f,
        None => {
            session.set_hover(None);
            return (crosshair(cursor), false);
        },
    };
    let wake = session.needs_wake(pid);
    assert(pid > 0 && !wake ==> old(session)@.woken.insert(pid) =~= old(session)@.woken);
    if let Some(p) = hovered_element(f, cursor, pid, app_path) {
        session.set_hover(Some(p));
    }
    (hover_payload(f, cursor), wake)
}

/// What is outlined after the process was woken: what is found now, where anything is,
/// named by title, description or label; else what was found before.
pub fn look_again(
    again: &Option<ElementFacts>,
    cursor: ScreenPoint,
    before: HoverPayload,
) -> (r: HoverPayload)
    ensures
        r@ == (match again {
            Some(f) => HoverView {
                bounds: f.rect,
                role: role_or_empty(f.role),
                name: first_of(
                    opt_view(f.title),
                    opt_view(f.description),
                    opt_view(f.label),
                    None,
                ),
                cursor,
            },
            None => before@,
        }),
{
    match again {
        Some(f) => {
            let r = HoverPayload {
                bounds: f.rect,
                role: role_copy(f),
                name: best_name(&f.title, &f.description, &f.label, &None),
                cursor,
            };
            assert(r@.name == first_of(
                opt_view(f.title),
                opt_view(f.description),
                opt_view(f.label),
                None,
            ));
            r
        },
        None => before,
    }
}

/// The arrow keys keep what they move to outlined.
pub fn walked_payload(picked: &PickedElement, cursor: ScreenPoint) -> (r: HoverPayload)
    ensures
        r@ == (HoverView {
            bounds: Some(picked.bounds),
            role: picked@.role,
            name: picked@.name,
            cursor,
        }),
{
    HoverPayload {
        bounds: Some(picked.bounds),
        role: copy_of(picked.role.as_str()),
        name: copy_of(picked.name.as_str()),
        cursor,
    }
}

/// What a click takes after a look is what the look outlined, where it outlined
/// anything and the look was at the target.
pub proof fn click_takes_what_is_outlined(
    s: SessionView,
    f: ElementFacts,
    cursor: ScreenPoint,
    pid: i32,
    app_path: Option<Seq<char>>,
    our_pid: i32,
)
    requires
        f.rect is Some,
        hit_accepted(Some(pid), s.target_pid, our_pid),
    ensures
        after_look(s, Some(f), cursor, pid, app_path).last_hover matches Some(h) && h.bounds
            == f.rect->0 && h.role == role_or_empty(f.role) && h.name == facts_name(f)
            && hover_fits(h, our_pid, s.target_pid),
{
}

// ---------------------------------------------------------------------------
// Moving through the tree
// ---------------------------------------------------------------------------

/// Why an arrow key moves nowhere.
#[derive(Debug)]
pub enum WalkError {
    /// The element has no parent.
    AtRoot,
    /// The parent has no usable bounds.
    NoParentBounds(String),
    /// The parent is of this process.
    OwnProcess,
    /// The child has no usable bounds.
    NoChildBounds(String),
    /// Nothing smaller is under the cursor.
    NoDeeper,
}

impl WalkError {
    /// The error in words.
    pub open spec fn words(self) -> Seq<char> {
        match self {
            WalkError::AtRoot => "already at AX root — can't go higher"@,
            WalkError::NoParentBounds(role) => "parent "@ + role@
                + " has no usable bounds — staying at current"@,
            WalkError::OwnProcess => "parent is in our own process — refusing to walk"@,
            WalkError::NoChildBounds(role) => "child "@ + role@ + " has no bounds"@,
            WalkError::NoDeeper => "no deeper element under cursor"@,
        }
    }

    /// The error in words.
    pub fn message(&self) -> (r: String)
        ensures
            r@ == self.words(),
    {
        match self {
            WalkError::AtRoot => copy_of("already at AX root — can't go higher"),
            WalkError::NoParentBounds(role) => {
                let mut out = copy_of("parent ");
                out.push_str(role.as_str());
                out.push_str(" has no usable bounds — staying at current");
                out
            },
            WalkError::OwnProcess => copy_of("parent is in our own process — refusing to walk"),
            WalkError::NoChildBounds(role) => {
                let mut out = copy_of("child ");
                out.push_str(role.as_str());
                out.push_str(" has no bounds");
                out
            },
            WalkError::NoDeeper => copy_of("no deeper element under cursor"),
        }
    }
}

/// The bounds, where they are at least one point wide and high.
pub open spec fn usable(rect: Option<ScreenRect>) -> Option<ScreenRect> {
    match rect {
        Some(b) if b.w >= 64 && b.h >= 64 => Some(b),
        _ => None,
    }
}

fn usable_rect(rect: Option<ScreenRect>) -> (r: Option<ScreenRect>)
    ensures
        r == usable(rect),
{
    match rect {
        Some(b) => {
            if b.is_valid() {
                Some(b)
            } else {
                None
            }
        },
        None => None,
    }
}

/// The element that an arrow key moves to. A deliberate move keeps the click and is
/// not shallow.
pub open spec fn walked_to(
    current: PickedView,
    f: ElementFacts,
    pid: Option<i32>,
    app_path: Option<Seq<char>>,
) -> PickedView {
    PickedView {
        role: role_or_empty(f.role),
        subrole: filled(opt_view(f.subrole)),
        name: facts_name(f),
        identifier: filled(opt_view(f.identifier)),
        bounds: f.rect->0,
        pid: match pid {
            Some(p) => p,
            None => -1i32,
        },
        app_path,
        window_title: None,
        window_bounds: f.window_rect,
        click: current.click,
        ax_shallow: false,
        crop_path: None,
        ax_tree: None,
    }
}

fn walked_element(
    current: &PickedElement,
    f: &ElementFacts,
    bounds: ScreenRect,
    pid: Option<i32>,
    app_path: Option<String>,
) -> (r: PickedElement)
    requires
        f.rect == Some(bounds),
    ensures
        r@ == walked_to(current@, *f, pid, opt_view(app_path)),
{
    let role = role_copy(f);
    let owner: i32 = match pid {
        Some(p) => p,
        None => -1,
    };
    let p = PickedElement {
        role,
        subrole: copy_filled(&f.subrole),
        name: best_name(&f.title, &f.description, &f.label, &f.value),
        identifier: copy_filled(&f.identifier),
        bounds,
        pid: owner,
        app_path,
        window_title: None,
        window_bounds: f.window_rect,
        click: current.click,
        ax_shallow: false,
        crop_path: None,
        ax_tree: None,
    };
    assert(p@ =~= walked_to(current@, *f, pid, opt_view(app_path)));
    p
}

/// Arrow up: the parent of the outlined element.
pub fn walk_up(
    current: &PickedElement,
    parent: &Option<ElementFacts>,
    pid: Option<i32>,
    our_pid: i32,
    app_path: Option<String>,
) -> (r: Result<PickedElement, WalkError>)
    ensures
        match parent {
            None => r matches Err(WalkError::AtRoot),
            Some(f) => if usable(f.rect) is None {
                r matches Err(WalkError::NoParentBounds(role)) && role@ == role_or_empty(f.role)
            } else if pid == Some(our_pid) || (pid is None && our_pid == -1) {
                r matches Err(WalkError::OwnProcess)
            } else {
                r matches Ok(p) && p@ == walked_to(current@, *f, pid, opt_view(app_path))
            },
        },
{
    let f = match parent {
        Some(f) => f,
        None => {
            return Err(WalkError::AtRoot);
        },
    };
    let bounds = match usable_rect(f.rect) {
        Some(b) => b,
        None => {
            return Err(WalkError::NoParentBounds(role_copy(f)));
        },
    };
    let owner: i32 = match pid {
        Some(p) => p,
        None => -1,
    };
    if owner == our_pid {
        return Err(WalkError::OwnProcess);
    }
    Ok(walked_element(current, f, bounds, pid, app_path))
}

/// The row that an element stands in, as a group of its own.
pub open spec fn row_of(current: PickedView, band: ScreenRect) -> PickedView {
    PickedView {
        role: "AXGroup"@,
        subrole: None,
        name: Seq::empty(),
        identifier: None,
        bounds: band,
        ax_shallow: false,
        crop_path: None,
        ax_tree: None,
        ..current
    }
}

/// The bounds of an element, where anything is known of it.
pub open spec fn rect_of(f: Option<ElementFacts>) -> Option<ScreenRect> {
    match f {
        Some(f) => f.rect,
        None => None,
    }
}

/// Arrow up: the row of siblings that the outlined element stands in, where there is
/// one, else its parent. `siblings` are the bounds of the parent's children.
pub fn step_up(
    current: &PickedElement,
    siblings: &Vec<Option<ScreenRect>>,
    parent: &Option<ElementFacts>,
    pid: Option<i32>,
    our_pid: i32,
    app_path: Option<String>,
) -> (r: Result<PickedElement, WalkError>)
    requires
        forall|i: int|
            0 <= i < siblings@.len() ==> (#[trigger] siblings@[i] matches Some(s) ==> s.wf()),
    ensures
        match (parent, band_of(current.bounds, siblings@, rect_of(*parent))) {
            (None, _) => r matches Err(WalkError::AtRoot),
            (Some(f), Some(band)) => if pid == Some(our_pid) || (pid is None && our_pid == -1) {
                if usable(f.rect) is None {
                    r matches Err(WalkError::NoParentBounds(role)) && role@ == role_or_empty(f.role)
                } else {
                    r matches Err(WalkError::OwnProcess)
                }
            } else {
                r matches Ok(p) && p@ == row_of(current@, band)
            },
            (Some(f), None) => if usable(f.rect) is None {
                r matches Err(WalkError::NoParentBounds(role)) && role@ == role_or_empty(f.role)
            } else if pid == Some(our_pid) || (pid is None && our_pid == -1) {
                r matches Err(WalkError::OwnProcess)
            } else {
                r matches Ok(p) && p@ == walked_to(current@, *f, pid, opt_view(app_path))
            },
        },
{
    let rect = match parent {
        Some(f) => f.rect,
        None => None,
    };
    let owner: i32 = match pid {
        Some(p) => p,
        None => -1,
    };
    if parent.is_some() && owner != our_pid {
        if let Some((band, _)) = sibling_band(&current.bounds, siblings, rect) {
            let mut row = current.clone();
            row.role = copy_of("AXGroup");
            row.subrole = None;
            row.name = String::new();
            row.identifier = None;
            row.bounds = band;
            row.ax_shallow = false;
            row.crop_path = None;
            row.ax_tree = None;
            assert(row@ =~= row_of(current@, band));
            return Ok(row);
        }
    }
    walk_up(current, parent, pid, our_pid, app_path)
}

/// Where arrow down looks for a child: at the cursor while it is over the outlined
/// element, else in its middle.
pub fn descend_point(current: &ScreenRect, cursor: ScreenPoint) -> (r: ScreenPoint)
    requires
        current.wf(),
    ensures
        r == (if current.covers(cursor) {
            cursor
        } else {
            ScreenPoint {
                x: (current.x + current.w as int / 2) as i64,
                y: (current.y + current.h as int / 2) as i64,
            }
        }),
{
    if current.contains(cursor) {
        cursor
    } else {
        current.center()
    }
}

/// Arrow down: the deepest element under the point, where it is smaller than the
/// outlined one.
pub fn walk_down(
    current: &PickedElement,
    deeper: &ElementFacts,
    pid: Option<i32>,
    app_path: Option<String>,
) -> (r: Result<PickedElement, WalkError>)
    ensures
        match usable(deeper.rect) {
            None => r matches Err(WalkError::NoChildBounds(role)) && role@ == role_or_empty(
                deeper.role,
            ),
            Some(b) => if b.w >= current.bounds.w && b.h >= current.bounds.h {
                r matches Err(WalkError::NoDeeper)
            } else {
                r matches Ok(p) && p@ == walked_to(current@, *deeper, pid, opt_view(app_path))
            },
        },
{
    let bounds = match usable_rect(deeper.rect) {
        Some(b) => b,
        None => {
            return Err(WalkError::NoChildBounds(role_copy(deeper)));
        },
    };
    if bounds.w >= current.bounds.w && bounds.h >= current.bounds.h {
        return Err(WalkError::NoDeeper);
    }
    Ok(walked_element(current, deeper, bounds, pid, app_path))
}

// ---------------------------------------------------------------------------
// What is outlined
// ---------------------------------------------------------------------------

/// What a probe found is outlined where it is on the screen: in its own place in the page,
/// moved by the window's corner, with its own size; and a click takes just that.
pub proof fn a_probed_element_is_where_the_page_shows_it(
    hit: ProbeHit,
    win: ScreenRect,
    cursor: ScreenPoint,
    pid: Option<i32>,
    app_path: Option<Seq<char>>,
)
    requires
        win.wf(),
        in_range(hit.x) && in_range(hit.y),
    ensures
        ({
            let p = probed(hit, win, cursor, pid, app_path);
            &&& p.bounds.x - win.x == hit.x && p.bounds.y - win.y == hit.y
            &&& p.bounds.w == hit.w && p.bounds.h == hit.h
            &&& p.window_bounds == Some(win)
            &&& p.click == Some(cursor)
            &&& pid matches Some(q) ==> p.pid == q
            &&& p.app_path == app_path
            &&& hit.role@.len() > 0 ==> p.role == hit.role@
            &&& hit.role@.len() == 0 ==> ends(p.role, hit.tag@)
            &&& hit.label@.len() > 0 ==> p.name == hit.label@
            &&& hit.label@.len() == 0 ==> p.name == hit.tag@
            &&& !p.ax_shallow
        }),
{
    let tagged = "dom:"@ + hit.tag@;
    assert(tagged.subrange(tagged.len() - hit.tag@.len(), tagged.len() as int) =~= hit.tag@);
}

/// What is outlined is what a click takes: the element itself, in its own rectangle and
/// its own window, by its own role and name, and where the cursor is.
pub proof fn a_hovered_element_is_the_element_itself(
    f: ElementFacts,
    cursor: ScreenPoint,
    pid: i32,
    app_path: Option<Seq<char>>,
)
    requires
        f.rect is Some,
    ensures
        ({
            let p = hovered(f, cursor, pid, app_path);
            &&& f.rect == Some(p.bounds)
            &&& p.window_bounds == f.window_rect
            &&& p.window_title == opt_view(f.window_title)
            &&& p.pid == pid && p.app_path == app_path && p.click == Some(cursor)
            &&& f.role matches Some(r) ==> p.role == r@
            &&& f.title matches Some(t) ==> p.name == t@
            &&& f.title is None ==> (f.description matches Some(t) ==> p.name == t@)
            &&& f.title is None && f.description is None ==> (f.label matches Some(t) ==> p.name
                == t@)
            &&& f.title is None && f.description is None && f.label is None ==> (
            f.value matches Some(t) ==> p.name == t@)
            &&& p.ax_shallow <==> facts_shallow(f, cursor)
        }),
{
}

/// An arrow key outlines the element it moves to, in its own rectangle, by its own role
/// and name, in its own window, and of its own process; the click stays.
pub proof fn an_arrow_key_goes_to_the_element_itself(
    current: PickedView,
    f: ElementFacts,
    pid: i32,
    app_path: Option<Seq<char>>,
)
    requires
        f.rect is Some,
    ensures
        ({
            let p = walked_to(current, f, Some(pid), app_path);
            &&& f.rect == Some(p.bounds)
            &&& p.window_bounds == f.window_rect
            &&& p.pid == pid && p.app_path == app_path && p.click == current.click
            &&& f.role matches Some(r) ==> p.role == r@
            &&& f.title matches Some(t) ==> p.name == t@
            &&& f.title is None ==> (f.description matches Some(t) ==> p.name == t@)
            &&& !p.ax_shallow
        }),
{
}

/// The row that an arrow key goes to is outlined as wide and as high as the row is, and
/// stays in the app, the window and at the click of what was outlined before.
pub proof fn a_row_stays_in_its_app(current: PickedView, band: ScreenRect)
    ensures
        ({
            let p = row_of(current, band);
            &&& p.bounds == band
            &&& p.pid == current.pid && p.app_path == current.app_path
            &&& p.window_bounds == current.window_bounds && p.window_title == current.window_title
            &&& p.click == current.click
            &&& p.role == "AXGroup"@ && !p.ax_shallow
        }),
{
}

/// A page is probed again only after a real move: of more than three points to any side,
/// or where the widening changed.
pub proof fn only_a_real_move_probes_again(p: ScreenPoint, cursor: ScreenPoint, w: u32, widen: u32)
    ensures
        moved(None, cursor, widen),
        w != widen ==> moved(Some((p, w)), cursor, widen),
        -192 <= cursor.x - p.x <= 192 && -192 <= cursor.y - p.y <= 192 ==> !moved(
            Some((p, widen)),
            cursor,
            widen,
        ),
        moved(Some((p, widen)), cursor, widen) == moved(Some((cursor, widen)), p, widen),
        cursor.x - p.x > 192 || cursor.y - p.y > 192 ==> moved(Some((p, w)), cursor, widen),
{
}

/// The cursor is over a window exactly where the window covers it.
pub proof fn over_means_covered(win: ScreenRect, cursor: ScreenPoint)
    ensures
        over(win, cursor) == win.covers(cursor),
{
}

/// Bounds count where they are at least a point each way, and then as they are.
pub proof fn usable_bounds_are_a_point_each_way(b: ScreenRect)
    ensures
        usable(None) is None,
        b.w < 64 || b.h < 64 ==> usable(Some(b)) is None,
        b.w >= 64 && b.h >= 64 ==> usable(Some(b)) == Some(b),
{
}

/// A look keeps what was selected and where picking is done: it changes only what is
/// outlined and which processes were woken, and forgets none of those.
pub proof fn a_look_keeps_the_session(
    s: SessionView,
    hit: Option<ElementFacts>,
    cursor: ScreenPoint,
    pid: i32,
    app_path: Option<Seq<char>>,
)
    ensures
        ({
            let t = after_look(s, hit, cursor, pid, app_path);
            &&& t.selected == s.selected && t.active == s.active && t.target_pid == s.target_pid
            &&& t.locked_pid == s.locked_pid && t.cdp_port == s.cdp_port && t.target_win
                == s.target_win && t.widen_level == s.widen_level
            &&& s.woken.subset_of(t.woken)
            &&& hit is Some && pid > 0 ==> t.woken.contains(pid)
            &&& hit is None ==> t.last_hover is None
            &&& hit matches Some(f) ==> f.rect is None ==> t.last_hover == s.last_hover
        }),
{
}

} // verus!
