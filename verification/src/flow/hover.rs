//! Following the cursor tick by tick, and the arrow keys.

use crate::capture::{PickedElement, ScreenPoint, ScreenRect};
use crate::freeze::{stopped, Freezer};
use crate::hover::{
    moved, on_screen, over, walked_payload, HoverPayload, HoverView, ProbeTracker, WalkError,
};
use crate::session::{pick_view, stepped, ClickError, PickSession, SessionView, WidenStep};
use crate::shell::{HOVER_LOST, NOTHING_HOVERED};
use crate::text::copy_of;
use vstd::prelude::*;

verus! {

/// What a tick of the hover calls for.
#[derive(Debug, Clone, Copy, PartialEq, Eq, Structural)]
pub enum HoverStep {
    /// Pick mode is off: the hover ends.
    End,
    /// Wait for the next tick.
    Wait,
    /// Probe the page at a point of the window.
    Probe { port: u16, win: ScreenRect, x: i64, y: i64, widen: u32 },
    /// Look at the accessibility element under the cursor.
    Look { target: Option<i32> },
}

/// What a tick calls for, given whether an app is stopped and where the page was
/// probed last. While an app is stopped the hover rests: it would get no answer.
pub open spec fn tick_step(
    s: SessionView,
    held: bool,
    last: Option<(ScreenPoint, u32)>,
    cursor: ScreenPoint,
) -> HoverStep {
    if !s.active {
        HoverStep::End
    } else if held {
        HoverStep::Wait
    } else if cursor.x < 0 || cursor.y < 0 {
        HoverStep::Wait
    } else {
        match (s.cdp_port, s.target_win) {
            (Some(port), Some(win)) => if moved(last, cursor, s.widen_level) && over(win, cursor) {
                HoverStep::Probe {
                    port,
                    win,
                    x: (cursor.x - win.x) as i64,
                    y: (cursor.y - win.y) as i64,
                    widen: s.widen_level,
                }
            } else {
                HoverStep::Wait
            },
            _ => HoverStep::Look { target: s.target_pid },
        }
    }
}

/// Where the page was probed last, after a tick. A place outside the window counts
/// too: the cursor must move on from there before the page is probed.
pub open spec fn tick_last(
    s: SessionView,
    held: bool,
    last: Option<(ScreenPoint, u32)>,
    cursor: ScreenPoint,
) -> Option<(ScreenPoint, u32)> {
    if s.active && !held && cursor.x >= 0 && cursor.y >= 0 && s.cdp_port is Some && s.target_win is Some
        && moved(last, cursor, s.widen_level) {
        Some((cursor, s.widen_level))
    } else {
        last
    }
}

/// One tick of the hover.
pub fn hover_tick(
    session: &PickSession,
    freezer: &Freezer,
    tracker: &mut ProbeTracker,
    cursor: ScreenPoint,
) -> (r: HoverStep)
    ensures
        r == tick_step(session@, stopped(freezer@) is Some, old(tracker).last(), cursor),
        final(tracker).outlined() == old(tracker).outlined(),
        final(tracker).last() == tick_last(
            session@,
            stopped(freezer@) is Some,
            old(tracker).last(),
            cursor,
        ),
{
    if !session.is_active() {
        return HoverStep::End;
    }
    if freezer.is_holding() {
        return HoverStep::Wait;
    }
    if !on_screen(cursor) {
        return HoverStep::Wait;
    }
    match session.probe_target() {
        Some((port, win, widen)) => match tracker.tick(cursor, &win, widen) {
            Some((x, y)) => HoverStep::Probe { port, win, x, y, widen },
            None => HoverStep::Wait,
        },
        None => HoverStep::Look { target: session.target() },
    }
}

/// A page is not probed twice at one place: a tick that follows a probe, with the
/// cursor and the widening as they were, calls for none.
pub proof fn a_place_is_probed_once(
    s: SessionView,
    last: Option<(ScreenPoint, u32)>,
    cursor: ScreenPoint,
)
    requires
        tick_step(s, false, last, cursor) is Probe,
    ensures
        tick_step(s, false, tick_last(s, false, last, cursor), cursor) is Wait,
{
}

/// What an arrow key calls for.
#[derive(Debug)]
pub enum WalkStep {
    /// Nothing, for this reason.
    Refused(String),
    /// The hover is widened or narrowed; the next probe shows it.
    Adjusted,
    /// Find the outlined element again at its middle, in the target where there is one.
    Find { current: PickedElement, at: ScreenPoint, target: Option<i32> },
}

/// Take an arrow key.
pub fn arrow(session: &mut PickSession, up: bool) -> (r: WalkStep)
    requires
        old(session)@.last_hover matches Some(h) ==> h.bounds.wf(),
    ensures
        final(session)@ == (if old(session)@.active && old(session)@.cdp_port is Some {
            SessionView { widen_level: stepped(old(session)@.widen_level, up), ..old(session)@ }
        } else {
            old(session)@
        }),
        if !old(session)@.active {
            r matches WalkStep::Refused(e) && e@ == ClickError::NotActive.words()
        } else if old(session)@.cdp_port is Some {
            r is Adjusted
        } else {
            match old(session)@.last_hover {
                None => r matches WalkStep::Refused(e) && e@ == NOTHING_HOVERED@,
                Some(h) => r matches WalkStep::Find { current, at, target } && current@ == h && at
                    == (ScreenPoint {
                    x: (h.bounds.x + h.bounds.w as int / 2) as i64,
                    y: (h.bounds.y + h.bounds.h as int / 2) as i64,
                }) && target == old(session)@.target_pid,
            }
        },
{
    match session.widen(up) {
        WidenStep::NotActive => WalkStep::Refused(ClickError::NotActive.message()),
        WidenStep::Adjusted => WalkStep::Adjusted,
        WidenStep::WalkTree => match session.hover() {
            Some(current) => {
                assert(pick_view(Some(current)) == old(session)@.last_hover);
                let at = current.bounds.center();
                WalkStep::Find { current, at, target: session.target() }
            },
            None => WalkStep::Refused(copy_of(NOTHING_HOVERED)),
        },
    }
}

/// Take where an arrow key moves to; `None` where the outlined element was not found
/// again. It is outlined, and what the next click takes.
pub fn arrive(
    session: &mut PickSession,
    walked: Option<Result<PickedElement, WalkError>>,
    cursor: ScreenPoint,
) -> (r: Result<HoverPayload, String>)
    ensures
        match walked {
            Some(Ok(p)) => {
                &&& final(session)@ == (SessionView { last_hover: Some(p@), ..old(session)@ })
                &&& r matches Ok(h) && h@ == (HoverView {
                    bounds: Some(p.bounds),
                    role: p@.role,
                    name: p@.name,
                    cursor,
                })
            },
            Some(Err(e)) => final(session)@ == old(session)@ && (r matches Err(m) && m@
                == e.words()),
            None => final(session)@ == old(session)@ && (r matches Err(m) && m@ == HOVER_LOST@),
        },
{
    match walked {
        Some(Ok(p)) => {
            let payload = walked_payload(&p, cursor);
            session.set_hover(Some(p));
            Ok(payload)
        },
        Some(Err(e)) => Err(e.message()),
        None => Err(copy_of(HOVER_LOST)),
    }
}

/// A page is probed where the cursor is: the probed point, from the window's corner on,
/// is the cursor, which is over the window; through the session's port and with its
/// widening.
pub proof fn a_page_is_probed_at_the_cursor(
    s: SessionView,
    held: bool,
    last: Option<(ScreenPoint, u32)>,
    cursor: ScreenPoint,
)
    requires
        cursor.wf(),
        s.target_win matches Some(b) ==> b.wf(),
    ensures
        tick_step(s, held, last, cursor) matches HoverStep::Probe { port, win, x, y, widen } ==> {
            &&& s.cdp_port == Some(port) && s.target_win == Some(win) && widen == s.widen_level
            &&& win.x + x == cursor.x && win.y + y == cursor.y
            &&& 0 <= x <= win.w && 0 <= y <= win.h
            &&& s.active && !held
        },
{
}

/// The hover ends exactly where pick mode is off, rests while an app is held or the cursor
/// is off the screen, and looks at the tree of the target where there is no page to probe.
pub proof fn the_hover_follows_the_session(
    s: SessionView,
    held: bool,
    last: Option<(ScreenPoint, u32)>,
    cursor: ScreenPoint,
)
    ensures
        tick_step(s, held, last, cursor) is End <==> !s.active,
        s.active && (held || cursor.x < 0 || cursor.y < 0) ==> tick_step(s, held, last, cursor)
            is Wait,
        s.active && !held && cursor.x >= 0 && cursor.y >= 0 && (s.cdp_port is None || s.target_win
            is None) ==> tick_step(s, held, last, cursor) == (HoverStep::Look {
            target: s.target_pid,
        }),
        s.active && !held && cursor.x >= 0 && cursor.y >= 0 && last is None ==> (
        s.target_win matches Some(win) ==> win.covers(cursor) ==> s.cdp_port is Some ==> tick_step(
            s,
            held,
            last,
            cursor,
        ) is Probe),
{
}

} // verus!
