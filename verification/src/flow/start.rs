//! Starting pick mode: the app to pick in, and what the hover is driven by.

use crate::capture::ScreenRect;
use crate::click::{
    choose_target, chosen, largest, largest_window_bounds_for_pid, the_largest_window_is_largest,
};
use crate::framework_detect::Framework;
use crate::session::{PickSession, SessionView};
use crate::shell::{hover_source, NOT_IN_DEBUG_MODE, PICK_MODE_ON};
use crate::windows_list::WindowInfo;
use vstd::prelude::*;

verus! {

/// What the outside answers while pick mode starts.
pub struct StartWorld {
    /// What a process is built with.
    pub framework: spec_fn(i32) -> Framework,
    /// The debug port that is open.
    pub port: Option<u16>,
    /// The windows on screen.
    pub windows: Seq<WindowInfo>,
}

/// How pick mode starts.
#[derive(Debug, Clone, Copy)]
pub struct StartPlan {
    /// The app to pick in.
    pub target: Option<i32>,
    /// The debug port that the hover goes through.
    pub port: Option<u16>,
    /// The window of the target, where the hover goes through its page.
    pub window: Option<ScreenRect>,
    /// What the user is told.
    pub toast: Option<&'static str>,
}

/// What a [`StartPlan`] holds.
#[verifier::ext_equal]
pub struct PlanView {
    pub target: Option<i32>,
    pub port: Option<u16>,
    pub window: Option<ScreenRect>,
    pub toast: Option<Seq<char>>,
}

impl View for StartPlan {
    type V = PlanView;

    open spec fn view(&self) -> PlanView {
        PlanView {
            target: self.target,
            port: self.port,
            window: self.window,
            toast: match self.toast {
                Some(t) => Some(t@),
                None => None,
            },
        }
    }
}

/// How pick mode starts in an Electron app, given its debug port.
pub open spec fn page_plan(pid: i32, port: Option<u16>, w: StartWorld) -> PlanView {
    PlanView {
        target: Some(pid),
        port,
        window: largest(w.windows, pid),
        toast: if port is None {
            Some(NOT_IN_DEBUG_MODE@)
        } else {
            None
        },
    }
}

/// How pick mode starts for a target. Without one it is armed all the same: the first
/// click says which app is meant.
pub open spec fn start_plan(target: Option<i32>, w: StartWorld) -> PlanView {
    match target {
        Some(pid) => if (w.framework)(pid) is Electron {
            page_plan(pid, w.port, w)
        } else {
            PlanView { target, port: None, window: None, toast: None }
        },
        None => PlanView { target, port: None, window: None, toast: Some(PICK_MODE_ON@) },
    }
}

/// A start of pick mode.
#[derive(Debug)]
pub enum StartFlow {
    /// Wake the target, wait, and find out what it is built with.
    Detect { pid: i32 },
    /// Look for a debug port.
    FindPort { pid: i32 },
    /// List the windows.
    ListWindows { pid: i32, port: Option<u16> },
    /// Start.
    Ready(StartPlan),
}

impl StartFlow {
    /// How pick mode starts, given what the outside answers.
    pub open spec fn outcome(self, w: StartWorld) -> PlanView {
        match self {
            StartFlow::Detect { pid } => start_plan(Some(pid), w),
            StartFlow::FindPort { pid } => page_plan(pid, w.port, w),
            StartFlow::ListWindows { pid, port } => page_plan(pid, port, w),
            StartFlow::Ready(plan) => plan@,
        }
    }

    /// Begin with the app in front: the one that the launch services name, else the one
    /// with the accessibility focus, else the last one in front that was not this one.
    pub fn begin(
        launch_services: Option<i32>,
        focused: Option<i32>,
        last_other: Option<i32>,
        our_pid: i32,
    ) -> (r: Self)
        ensures
            match chosen(launch_services, focused, last_other, our_pid) {
                Some(p) => r == (StartFlow::Detect { pid: p }),
                None => r is Ready,
            },
            forall|w: StartWorld| #[trigger]
                r.outcome(w) == start_plan(
                    chosen(launch_services, focused, last_other, our_pid),
                    w,
                ),
    {
        match choose_target(launch_services, focused, last_other, our_pid) {
            Some(pid) => StartFlow::Detect { pid },
            None => StartFlow::Ready(
                StartPlan { target: None, port: None, window: None, toast: Some(PICK_MODE_ON) },
            ),
        }
    }

    /// Take what the target is built with.
    pub fn on_framework(self, framework: Framework) -> (r: Self)
        requires
            self is Detect,
        ensures
            if framework is Electron {
                r == (StartFlow::FindPort { pid: self->Detect_pid })
            } else {
                r is Ready
            },
            forall|w: StartWorld|
                (w.framework)(self->Detect_pid) == framework ==> #[trigger] r.outcome(w) == self.outcome(w),
    {
        match self {
            StartFlow::Detect { pid } => {
                if framework == Framework::Electron {
                    StartFlow::FindPort { pid }
                } else {
                    let (port, window) = hover_source(false, None, None);
                    StartFlow::Ready(StartPlan { target: Some(pid), port, window, toast: None })
                }
            },
            other => other,
        }
    }

    /// Take the debug port.
    pub fn on_port(self, port: Option<u16>) -> (r: Self)
        requires
            self is FindPort,
        ensures
            r == (StartFlow::ListWindows { pid: self->FindPort_pid, port }),
            forall|w: StartWorld|
                w.port == port ==> #[trigger] r.outcome(w) == self.outcome(w),
    {
        match self {
            StartFlow::FindPort { pid } => StartFlow::ListWindows { pid, port },
            other => other,
        }
    }

    /// Take the windows.
    pub fn on_windows(self, windows: &Vec<WindowInfo>) -> (r: Self)
        requires
            self is ListWindows,
        ensures
            r is Ready,
            forall|w: StartWorld|
                w.windows == windows@ ==> #[trigger] r.outcome(w) == self.outcome(w),
    {
        match self {
            StartFlow::ListWindows { pid, port } => {
                let found = largest_window_bounds_for_pid(windows, pid);
                let (port, window) = hover_source(true, port, found);
                let toast = if port.is_none() {
                    Some(NOT_IN_DEBUG_MODE)
                } else {
                    None
                };
                StartFlow::Ready(StartPlan { target: Some(pid), port, window, toast })
            },
            other => other,
        }
    }
}

/// Turn pick mode on as planned.
pub fn start(session: &mut PickSession, plan: &StartPlan)
    ensures
        final(session)@.wf(),
        final(session)@ == (SessionView {
            active: true,
            starting: old(session)@.starting,
            selected: Seq::empty(),
            locked_pid: None,
            woken: Set::empty(),
            target_pid: plan.target,
            last_hover: None,
            cdp_port: plan.port,
            target_win: plan.window,
            widen_level: 0,
        }),
{
    session.begin(plan.target, plan.port, plan.window);
}

/// Pick mode never targets this process while another app is, or was last, in front.
pub proof fn target_is_another_app(
    launch_services: Option<i32>,
    focused: Option<i32>,
    last_other: Option<i32>,
    our_pid: i32,
    w: StartWorld,
)
    requires
        last_other != Some(our_pid),
    ensures
        start_plan(chosen(launch_services, focused, last_other, our_pid), w).target != Some(
            our_pid,
        ),
{
}

/// Pick mode starts in the target. The hover goes through the debug port that is open and
/// the window of the target only where the target is an Electron app; one without a port
/// is told to the user.
pub proof fn the_hover_is_driven_by_the_page(pid: i32, w: StartWorld)
    ensures
        ({
            let plan = start_plan(Some(pid), w);
            &&& plan.target == Some(pid)
            &&& (w.framework)(pid) is Electron ==> plan.port == w.port && (plan.toast is Some
                <==> w.port is None)
            &&& (w.framework)(pid) is Electron ==> (plan.window matches Some(b) ==> exists|i: int|
                0 <= i < w.windows.len() && (#[trigger] w.windows[i]).pid == pid
                    && w.windows[i].bounds == b)
            &&& (w.framework)(pid) !is Electron ==> plan.port is None && plan.window is None
                && plan.toast is None
        }),
        start_plan(None, w).target is None && start_plan(None, w).port is None && start_plan(
            None,
            w,
        ).window is None && start_plan(None, w).toast is Some,
{
    the_largest_window_is_largest(w.windows, pid);
}

} // verus!
