//! Holding the picked app still.
//!
//! After a click the app that was picked in is stopped, so that a panel which closes
//! when the cursor leaves it stays as it was caught. A stopped app answers no
//! accessibility query: it runs while it is looked at, and is stopped again. It runs
//! on for good once the selection is locked, exported or given up.

use crate::capture::{PickedElement, PickedView, ScreenPoint};
use crate::session::pick_view;
use vstd::prelude::*;

verus! {

/// What happens to a pick, as far as the picked app's running goes.
#[derive(Debug, Clone, Copy, PartialEq, Eq, Structural)]
pub enum FreezeEvent {
    /// An element of the process was taken into the selection.
    Taken { pid: i32 },
    /// The app is about to be looked at.
    Look,
    /// The app has been looked at.
    Looked,
    /// The selection was locked, exported or given up.
    Release,
}

/// What is to be done, in this order.
#[derive(Debug, Clone, Copy, PartialEq, Eq, Structural)]
pub struct Signals {
    /// The process to let run again.
    pub resume: Option<i32>,
    /// The process to stop.
    pub suspend: Option<i32>,
}

/// What a [`Freezer`] holds.
#[verifier::ext_equal]
pub struct FreezeView {
    /// The process that is held.
    pub held: Option<i32>,
    /// It runs for the time being.
    pub thawed: bool,
}

/// The process that is stopped.
pub open spec fn stopped(v: FreezeView) -> Option<i32> {
    if v.thawed {
        None
    } else {
        v.held
    }
}

/// What an event makes of the state.
pub open spec fn after_event(v: FreezeView, e: FreezeEvent) -> FreezeView {
    match e {
        FreezeEvent::Taken { pid } => FreezeView {
            held: if pid > 0 {
                Some(pid)
            } else {
                None
            },
            thawed: false,
        },
        FreezeEvent::Look => FreezeView { thawed: true, ..v },
        FreezeEvent::Looked => FreezeView { thawed: false, ..v },
        FreezeEvent::Release => FreezeView { held: None, thawed: false },
    }
}

/// What is to be done where one process is stopped and another is to be.
pub open spec fn change(from: Option<i32>, to: Option<i32>) -> Signals {
    Signals {
        resume: if from != to {
            from
        } else {
            None
        },
        suspend: if from != to {
            to
        } else {
            None
        },
    }
}

/// Which process is held still, if any.
#[derive(Debug)]
pub struct Freezer {
    held: Option<i32>,
    thawed: bool,
}

impl View for Freezer {
    type V = FreezeView;

    closed spec fn view(&self) -> FreezeView {
        FreezeView { held: self.held, thawed: self.thawed }
    }
}

impl Freezer {
    /// Nothing is held.
    pub fn new() -> (r: Self)
        ensures
            r@ == (FreezeView { held: None, thawed: false }),
    {
        Freezer { held: None, thawed: false }
    }

    /// The process that is held, stopped or not: what has to run again where this
    /// program ends before its time.
    pub fn held(&self) -> (r: Option<i32>)
        ensures
            r == self@.held,
    {
        self.held
    }

    /// A process is stopped.
    pub fn is_holding(&self) -> (r: bool)
        ensures
            r == stopped(self@) is Some,
    {
        !self.thawed && self.held.is_some()
    }

    fn standing(&self) -> (r: Option<i32>)
        ensures
            r == stopped(self@),
    {
        if self.thawed {
            None
        } else {
            self.held
        }
    }

    /// Take an event; what is to be done comes back.
    pub fn on(&mut self, e: FreezeEvent) -> (r: Signals)
        ensures
            final(self)@ == after_event(old(self)@, e),
            r == change(stopped(old(self)@), stopped(final(self)@)),
    {
        let before = self.standing();
        match e {
            FreezeEvent::Taken { pid } => {
                self.held = if pid > 0 {
                    Some(pid)
                } else {
                    None
                };
                self.thawed = false;
            },
            FreezeEvent::Look => {
                self.thawed = true;
            },
            FreezeEvent::Looked => {
                self.thawed = false;
            },
            FreezeEvent::Release => {
                self.held = None;
                self.thawed = false;
            },
        }
        let now = self.standing();
        let same = match (before, now) {
            (Some(a), Some(b)) => a == b,
            (None, None) => true,
            _ => false,
        };
        if same {
            Signals { resume: None, suspend: None }
        } else {
            Signals { resume: before, suspend: now }
        }
    }
}

/// What a click may take of what is outlined. While an app is stopped the outline does
/// not follow the cursor, and counts only where the click lies in it.
pub open spec fn outline_at(
    v: FreezeView,
    outlined: Option<PickedView>,
    at: ScreenPoint,
) -> Option<PickedView> {
    match outlined {
        Some(h) if stopped(v) is None || h.bounds.covers(at) => Some(h),
        _ => None,
    }
}

/// What a click may take of what is outlined.
pub fn outline_for_click(
    freezer: &Freezer,
    outlined: Option<PickedElement>,
    at: ScreenPoint,
) -> (r: Option<PickedElement>)
    ensures
        pick_view(r) == outline_at(freezer@, pick_view(outlined), at),
{
    match outlined {
        Some(h) => if !freezer.is_holding() || h.bounds.contains(at) {
            Some(h)
        } else {
            None
        },
        None => None,
    }
}

/// The processes that are stopped once the signals were sent.
pub open spec fn sent(still: Set<i32>, s: Signals) -> Set<i32> {
    let fewer = match s.resume {
        Some(pid) => still.remove(pid),
        None => still,
    };
    match s.suspend {
        Some(pid) => fewer.insert(pid),
        None => fewer,
    }
}

/// The state after a run of events, from the start.
pub open spec fn run_state(events: Seq<FreezeEvent>) -> FreezeView
    decreases events.len(),
{
    if events.len() == 0 {
        FreezeView { held: None, thawed: false }
    } else {
        after_event(run_state(events.drop_last()), events.last())
    }
}

/// The processes that are stopped after a run of events whose signals were all sent.
pub open spec fn run_stopped(events: Seq<FreezeEvent>) -> Set<i32>
    decreases events.len(),
{
    if events.len() == 0 {
        Set::empty()
    } else {
        let before = run_state(events.drop_last());
        sent(
            run_stopped(events.drop_last()),
            change(stopped(before), stopped(after_event(before, events.last()))),
        )
    }
}

/// Whatever happens, the one process that is held and does not run for the time being
/// is stopped, and no other: none is forgotten.
pub proof fn no_process_is_forgotten(events: Seq<FreezeEvent>)
    ensures
        run_stopped(events) == (match stopped(run_state(events)) {
            Some(pid) => set![pid],
            None => Set::empty(),
        }),
    decreases events.len(),
{
    if events.len() > 0 {
        no_process_is_forgotten(events.drop_last());
        assert(run_stopped(events) =~= match stopped(run_state(events)) {
            Some(pid) => set![pid],
            None => Set::empty(),
        });
    }
}

/// While an app is looked at, and once the selection was locked, exported or given up,
/// nothing is stopped.
pub proof fn everything_runs_after_a_release(events: Seq<FreezeEvent>)
    requires
        events.len() > 0,
        events.last() == FreezeEvent::Release || events.last() == FreezeEvent::Look,
    ensures
        run_stopped(events) == Set::<i32>::empty(),
{
    no_process_is_forgotten(events);
}

/// A look leaves things as they were.
pub proof fn a_look_changes_nothing(v: FreezeView)
    requires
        !v.thawed,
    ensures
        after_event(after_event(v, FreezeEvent::Look), FreezeEvent::Looked) == v,
{
}

/// The app whose element was taken last is the one that is stopped, until it is looked at
/// or released; a look forgets no app.
pub proof fn the_picked_app_is_stopped(v: FreezeView, pid: i32)
    ensures
        pid > 0 ==> stopped(after_event(v, FreezeEvent::Taken { pid })) == Some(pid),
        pid <= 0 ==> stopped(after_event(v, FreezeEvent::Taken { pid })) is None,
        stopped(after_event(v, FreezeEvent::Look)) is None,
        after_event(v, FreezeEvent::Look).held == v.held,
        stopped(after_event(v, FreezeEvent::Looked)) == v.held,
        after_event(v, FreezeEvent::Release).held is None,
{
}

/// Signals are sent for a change only: what was stopped and is not to be any more runs
/// again, and what is to be stopped and was not is stopped.
pub proof fn signals_make_the_change(from: Option<i32>, to: Option<i32>)
    ensures
        from == to ==> change(from, to).resume is None && change(from, to).suspend is None,
        from != to ==> change(from, to).resume == from && change(from, to).suspend == to,
{
}

/// While nothing is stopped a click takes what is outlined; while an app is stopped, only
/// where the click lies in it.
pub proof fn a_frozen_outline_counts_where_it_is(v: FreezeView, h: PickedView, at: ScreenPoint)
    ensures
        stopped(v) is None ==> outline_at(v, Some(h), at) == Some(h),
        stopped(v) is Some ==> (outline_at(v, Some(h), at) is Some <==> h.bounds.x <= at.x
            <= h.bounds.x + h.bounds.w && h.bounds.y <= at.y <= h.bounds.y + h.bounds.h),
        outline_at(v, Some(h), at) matches Some(o) ==> o == h,
{
}

} // verus!
