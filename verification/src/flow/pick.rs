//! Picking at a point: a hit-test, and a search of the app's own tree where that only
//! found an empty container.

use crate::ax_macos::pick::{
    facts_shallow, needs_rescue, picked_element, picked_view, prefer_resolved, ElementFacts,
    PickError,
};
use crate::capture::{PickedElement, PickedView, ScreenPoint};
use crate::text::opt_view;
use vstd::prelude::*;

verus! {

/// An element that was found, with its process.
#[derive(Debug)]
pub struct Hit {
    pub facts: ElementFacts,
    pub pid: Option<i32>,
}

/// What the outside answers during a pick.
pub struct PickWorld {
    /// The user has granted access.
    pub allowed: bool,
    /// The deepest element that a hit-test at a point leads to, in an app where one is
    /// given.
    pub hit: spec_fn(ScreenPoint, Option<i32>) -> Option<Hit>,
    /// The best element for a point that a search of a process's tree finds.
    pub search: spec_fn(ScreenPoint, i32) -> Option<Hit>,
    /// The executable of a process.
    pub path: spec_fn(i32) -> Option<Seq<char>>,
}

/// The process whose tree is searched: the one that is picked in, else that of the hit.
pub open spec fn searched(app_pid: Option<i32>, hit: Hit) -> Option<i32> {
    if app_pid is Some {
        app_pid
    } else {
        hit.pid
    }
}

/// The process that the pick is said to be of.
pub open spec fn owner(app_pid: Option<i32>, hit: Hit) -> i32 {
    match searched(app_pid, hit) {
        Some(pid) => pid,
        None => -1i32,
    }
}

/// The better of the hit and what a search finds.
pub open spec fn better(hit: Hit, found: Option<Hit>, point: ScreenPoint) -> Hit {
    match found {
        Some(o) if facts_shallow(hit.facts, point) && !facts_shallow(o.facts, point) => o,
        _ => hit,
    }
}

/// What is picked after the hit-test.
pub open spec fn rescued(hit: Hit, app_pid: Option<i32>, point: ScreenPoint, w: PickWorld) -> Hit {
    match searched(app_pid, hit) {
        Some(pid) if facts_shallow(hit.facts, point) => better(hit, (w.search)(point, pid), point),
        _ => hit,
    }
}

/// What a pick comes to once it is known which element it is.
pub open spec fn taken(hit: Hit, app_pid: Option<i32>, point: ScreenPoint, w: PickWorld) -> Result<
    PickedView,
    Seq<char>,
> {
    let pid = owner(app_pid, hit);
    if hit.facts.rect is Some {
        Ok(picked_view(hit.facts, point, pid, (w.path)(pid)))
    } else {
        Err(PickError::NoBounds.words(point, app_pid))
    }
}

/// What a hit-test comes to.
pub open spec fn hit_end(app_pid: Option<i32>, point: ScreenPoint, w: PickWorld) -> Result<
    PickedView,
    Seq<char>,
> {
    match (w.hit)(point, app_pid) {
        Some(hit) => taken(rescued(hit, app_pid, point, w), app_pid, point, w),
        None => Err(PickError::NoElement.words(point, app_pid)),
    }
}

/// What a pick comes to.
pub open spec fn pick_result(app_pid: Option<i32>, point: ScreenPoint, w: PickWorld) -> Result<
    PickedView,
    Seq<char>,
> {
    if w.allowed {
        hit_end(app_pid, point, w)
    } else {
        Err(PickError::Denied.words(point, app_pid))
    }
}

/// What is to be done next.
#[derive(Debug)]
pub enum PickStage {
    /// Find out whether access is granted.
    CheckPermission,
    /// Test what is at the point, in the app or past this process's own windows, and go
    /// down from there.
    HitTest,
    /// Search the tree of the process.
    Search { hit: Hit, pid: i32 },
    /// Find the executable of the process.
    FindPath { facts: ElementFacts, pid: i32 },
    /// The element is picked.
    Done(PickedElement),
    /// Nothing is picked.
    Failed(String),
}

/// A pick under way.
#[derive(Debug)]
pub struct PickFlow {
    pub point: ScreenPoint,
    /// The app to pick in, where one is given.
    pub app_pid: Option<i32>,
    pub stage: PickStage,
}

impl PickFlow {
    /// A search is only asked for where the hit needs one.
    pub open spec fn wf(self) -> bool {
        match self.stage {
            PickStage::Search { hit, pid } => searched(self.app_pid, hit) == Some(pid)
                && facts_shallow(hit.facts, self.point),
            PickStage::FindPath { facts, pid } => facts.rect is Some,
            _ => true,
        }
    }

    /// What the pick comes to, given what the outside answers.
    pub open spec fn outcome(self, w: PickWorld) -> Result<PickedView, Seq<char>> {
        match self.stage {
            PickStage::CheckPermission => pick_result(self.app_pid, self.point, w),
            PickStage::HitTest => hit_end(self.app_pid, self.point, w),
            PickStage::Search { hit, pid } => taken(
                better(hit, (w.search)(self.point, pid), self.point),
                self.app_pid,
                self.point,
                w,
            ),
            PickStage::FindPath { facts, pid } => Ok(
                picked_view(facts, self.point, pid, (w.path)(pid)),
            ),
            PickStage::Done(p) => Ok(p@),
            PickStage::Failed(e) => Err(e@),
        }
    }

    /// How many answers are left at most.
    pub open spec fn rank(self) -> nat {
        match self.stage {
            PickStage::CheckPermission => 4,
            PickStage::HitTest => 3,
            PickStage::Search { .. } => 2,
            PickStage::FindPath { .. } => 1,
            _ => 0,
        }
    }

    fn failed(point: ScreenPoint, app_pid: Option<i32>, e: PickError) -> (r: Self)
        ensures
            r.wf(),
            r.rank() == 0,
            r.point == point && r.app_pid == app_pid,
            forall|w: PickWorld| #[trigger]
                r.outcome(w) == Err::<PickedView, Seq<char>>(e.words(point, app_pid)),
    {
        let words = e.message(point, app_pid);
        PickFlow { point, app_pid, stage: PickStage::Failed(words) }
    }

    fn settle(point: ScreenPoint, app_pid: Option<i32>, hit: Hit) -> (r: Self)
        ensures
            r.wf(),
            r.rank() <= 1,
            r.point == point && r.app_pid == app_pid,
            forall|w: PickWorld| #[trigger] r.outcome(w) == taken(hit, app_pid, point, w),
    {
        let own = match app_pid {
            Some(pid) => Some(pid),
            None => hit.pid,
        };
        let pid: i32 = match own {
            Some(pid) => pid,
            None => -1,
        };
        assert(pid == owner(app_pid, hit));
        if hit.facts.rect.is_some() {
            PickFlow { point, app_pid, stage: PickStage::FindPath { facts: hit.facts, pid } }
        } else {
            PickFlow::failed(point, app_pid, PickError::NoBounds)
        }
    }

    /// Begin a pick, in one app or on the whole screen.
    pub fn begin(point: ScreenPoint, app_pid: Option<i32>) -> (r: Self)
        ensures
            r.wf(),
            r.stage is CheckPermission,
            r.point == point && r.app_pid == app_pid,
            forall|w: PickWorld| #[trigger] r.outcome(w) == pick_result(app_pid, point, w),
    {
        PickFlow { point, app_pid, stage: PickStage::CheckPermission }
    }

    /// Take whether access is granted.
    pub fn on_permission(self, allowed: bool) -> (r: Self)
        requires
            self.wf(),
            self.stage is CheckPermission,
        ensures
            r.wf(),
            r.rank() < self.rank(),
            r.point == self.point && r.app_pid == self.app_pid,
            forall|w: PickWorld|
                w.allowed == allowed ==> #[trigger] r.outcome(w) == self.outcome(w),
    {
        if allowed {
            PickFlow { point: self.point, app_pid: self.app_pid, stage: PickStage::HitTest }
        } else {
            PickFlow::failed(self.point, self.app_pid, PickError::Denied)
        }
    }

    /// Take what the hit-test led to.
    pub fn on_hit(self, answer: Option<Hit>) -> (r: Self)
        requires
            self.wf(),
            self.stage is HitTest,
        ensures
            r.wf(),
            r.rank() < self.rank(),
            r.point == self.point && r.app_pid == self.app_pid,
            forall|w: PickWorld|
                (w.hit)(self.point, self.app_pid) == answer ==> #[trigger] r.outcome(w)
                    == self.outcome(w),
    {
        let hit = match answer {
            Some(hit) => hit,
            None => {
                return PickFlow::failed(self.point, self.app_pid, PickError::NoElement);
            },
        };
        let own = match self.app_pid {
            Some(pid) => Some(pid),
            None => hit.pid,
        };
        match own {
            Some(pid) => {
                if needs_rescue(&hit.facts, self.point) {
                    PickFlow {
                        point: self.point,
                        app_pid: self.app_pid,
                        stage: PickStage::Search { hit, pid },
                    }
                } else {
                    PickFlow::settle(self.point, self.app_pid, hit)
                }
            },
            None => PickFlow::settle(self.point, self.app_pid, hit),
        }
    }

    /// Take what the search found.
    pub fn on_search(self, answer: Option<Hit>) -> (r: Self)
        requires
            self.wf(),
            self.stage is Search,
        ensures
            r.wf(),
            r.rank() < self.rank(),
            r.point == self.point && r.app_pid == self.app_pid,
            forall|w: PickWorld|
                (w.search)(self.point, self.stage->Search_pid) == answer ==> #[trigger] r.outcome(w)
                    == self.outcome(w),
    {
        match self.stage {
            PickStage::Search { hit, pid: _ } => {
                let best = match answer {
                    Some(found) => {
                        if prefer_resolved(&hit.facts, &found.facts, self.point) {
                            found
                        } else {
                            hit
                        }
                    },
                    None => hit,
                };
                PickFlow::settle(self.point, self.app_pid, best)
            },
            other => PickFlow { point: self.point, app_pid: self.app_pid, stage: other },
        }
    }

    /// Take the executable of the process.
    pub fn on_path(self, answer: Option<String>) -> (r: Self)
        requires
            self.wf(),
            self.stage is FindPath,
        ensures
            r.stage is Done,
            forall|w: PickWorld|
                (w.path)(self.stage->FindPath_pid) == opt_view(answer)
                    ==> #[trigger] r.outcome(w) == self.outcome(w),
    {
        match self.stage {
            PickStage::FindPath { facts, pid } => {
                match picked_element(&facts, self.point, pid, answer) {
                    Some(p) => PickFlow {
                        point: self.point,
                        app_pid: self.app_pid,
                        stage: PickStage::Done(p),
                    },
                    None => PickFlow::failed(self.point, self.app_pid, PickError::NoBounds),
                }
            },
            other => PickFlow { point: self.point, app_pid: self.app_pid, stage: other },
        }
    }
}

/// A pick in an app is of that app and anchored to the point, whatever was found.
pub proof fn pick_in_an_app_is_of_it(pid: i32, point: ScreenPoint, w: PickWorld)
    requires
        pick_result(Some(pid), point, w) is Ok,
    ensures
        pick_result(Some(pid), point, w)->Ok_0.pid == pid,
        pick_result(Some(pid), point, w)->Ok_0.click == Some(point),
{
}

/// A search is never worse than the hit: what was no empty container stays.
pub proof fn a_real_hit_is_kept(hit: Hit, app_pid: Option<i32>, point: ScreenPoint, w: PickWorld)
    requires
        !facts_shallow(hit.facts, point),
    ensures
        rescued(hit, app_pid, point, w) == hit,
{
}

/// A pick is the element under the point, in its own bounds: that of the hit-test, unless
/// it is an empty container and a search found one that is not. It is of the app to pick
/// in, and where none is given of the app that the hit is of.
pub proof fn a_pick_is_what_was_hit(app_pid: Option<i32>, point: ScreenPoint, w: PickWorld)
    requires
        w.allowed,
        (w.hit)(point, app_pid) is Some,
    ensures
        ({
            let hit = (w.hit)(point, app_pid)->0;
            let pid = searched(app_pid, hit);
            &&& !facts_shallow(hit.facts, point) ==> (pick_result(app_pid, point, w) matches Ok(p)
                ==> hit.facts.rect == Some(p.bounds) && p.window_bounds == hit.facts.window_rect)
            &&& !facts_shallow(hit.facts, point) ==> (pick_result(app_pid, point, w) is Ok
                <==> hit.facts.rect is Some)
            &&& facts_shallow(hit.facts, point) ==> (pid matches Some(q) ==> ((w.search)(
                point,
                q,
            ) matches Some(o) ==> !facts_shallow(o.facts, point) ==> (pick_result(
                app_pid,
                point,
                w,
            ) matches Ok(p) ==> o.facts.rect == Some(p.bounds))))
            &&& app_pid is None && !facts_shallow(hit.facts, point) ==> (hit.pid matches Some(q)
                ==> (pick_result(app_pid, point, w) matches Ok(p) ==> p.pid == q && p.app_path
                == (w.path)(q)))
            &&& app_pid matches Some(q) ==> (pick_result(app_pid, point, w) matches Ok(p) ==> p.pid
                == q && p.app_path == (w.path)(q))
        }),
{
}

/// Nothing is picked without access, nor where nothing was hit.
pub proof fn nothing_is_picked_in_vain(app_pid: Option<i32>, point: ScreenPoint, w: PickWorld)
    ensures
        !w.allowed || (w.hit)(point, app_pid) is None ==> pick_result(app_pid, point, w) is Err,
{
}

} // verus!
