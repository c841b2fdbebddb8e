//! From a click to the element that is committed.

use crate::ax_macos::walk::{
    a_whole_tree_is_unmarked_and_ends_in_time, is_whole, levels, unmarked, whole,
};
use crate::ax_macos::{Node, NodeView};
use crate::capture::{PickedElement, PickedView, ScreenPoint};
use crate::click::{after_retry, anchor_click, click_box, retry_due};
use crate::session::pick_view;
use crate::shell::{click_ignored, ignored_words, OVER_OURSELVES, OWN_PROCESS};
use crate::text::{copy_of, occurs, opt_view};
use vstd::prelude::*;

verus! {

/// How deep the tree below a pick is walked: far deeper than any real one.
pub const PICK_TREE_DEPTH: u32 = 256;

/// What the outside answers while a click is resolved.
pub struct ClickWorld {
    /// What a hit-test at a point picks.
    pub fresh: spec_fn(ScreenPoint) -> Result<PickedView, Seq<char>>,
    /// What a second hit-test at a point picks in a process, once it was woken.
    pub again: spec_fn(ScreenPoint, i32) -> Option<PickedView>,
    /// Where the picture of an element is kept.
    pub crop: spec_fn(PickedView) -> Option<Seq<char>>,
    /// The tree below an element, walked to [`PICK_TREE_DEPTH`], and its text.
    pub tree: spec_fn(PickedView) -> Option<(NodeView, Seq<char>)>,
}

/// What a click comes to.
#[verifier::ext_equal]
pub enum ClickEnd {
    /// The element is committed.
    Commit(PickedView),
    /// Nothing is, and the user is told why.
    Refused { toast: Seq<char>, error: Seq<char> },
}

/// The pick after a second try, where one is due: an empty container of an app whose
/// tree may only have been asleep.
pub open spec fn retried(picked: PickedView, point: ScreenPoint, w: ClickWorld) -> PickedView {
    if picked.ax_shallow && picked.pid > 0 {
        match (w.again)(point, picked.pid) {
            Some(p) if !p.ax_shallow => p,
            _ => picked,
        }
    } else {
        picked
    }
}

/// The pick, anchored to the click.
pub open spec fn anchored(picked: PickedView, point: ScreenPoint) -> PickedView {
    PickedView {
        click: Some(point),
        bounds: if picked.ax_shallow {
            click_box(point)
        } else {
            picked.bounds
        },
        ..picked
    }
}

/// The pick with its picture. What could not be resolved has none: its box holds some
/// slice of the screen.
pub open spec fn pictured(picked: PickedView, w: ClickWorld) -> PickedView {
    if picked.ax_shallow {
        picked
    } else {
        with_crop(picked, (w.crop)(picked))
    }
}

/// The pick with a picture, where one was taken.
pub open spec fn with_crop(picked: PickedView, crop: Option<Seq<char>>) -> PickedView {
    PickedView {
        crop_path: if crop is Some {
            crop
        } else {
            picked.crop_path
        },
        ..picked
    }
}

/// The pick with the tree below it as it was when it was picked, where that is the
/// full tree. What could not be resolved has none, and neither has what was too
/// large to walk to its end.
pub open spec fn with_tree(
    picked: PickedView,
    tree: Option<(NodeView, Seq<char>)>,
) -> PickedView {
    PickedView {
        ax_tree: match tree {
            Some((node, text)) => if whole(node, PICK_TREE_DEPTH as nat) {
                Some(text)
            } else {
                None
            },
            None => None,
        },
        ..picked
    }
}

/// The pick with the tree below it, unless it could not be resolved.
pub open spec fn treed(picked: PickedView, w: ClickWorld) -> PickedView {
    if picked.ax_shallow {
        with_tree(picked, None)
    } else {
        with_tree(picked, (w.tree)(picked))
    }
}

/// The pick as it is committed: anchored to the click, with its picture and its tree.
pub open spec fn completed(picked: PickedView, point: ScreenPoint, w: ClickWorld) -> PickedView {
    treed(pictured(anchored(picked, point), w), w)
}

/// What a pick comes to.
pub open spec fn pick_end(
    picked: PickedView,
    point: ScreenPoint,
    our_pid: i32,
    w: ClickWorld,
) -> ClickEnd {
    if picked.pid == our_pid {
        ClickEnd::Refused { toast: OVER_OURSELVES@, error: OWN_PROCESS@ }
    } else {
        ClickEnd::Commit(completed(retried(picked, point, w), point, w))
    }
}

/// What a click comes to: what is outlined is taken without a hit-test.
pub open spec fn click_end(
    outlined: Option<PickedView>,
    point: ScreenPoint,
    our_pid: i32,
    w: ClickWorld,
) -> ClickEnd {
    match outlined {
        Some(h) => pick_end(h, point, our_pid, w),
        None => match (w.fresh)(point) {
            Ok(p) => pick_end(p, point, our_pid, w),
            Err(e) => ClickEnd::Refused { toast: ignored_words(e), error: e },
        },
    }
}

/// A tree and its text.
pub open spec fn tree_view(tree: Option<(Node, String)>) -> Option<(NodeView, Seq<char>)> {
    match tree {
        Some((node, text)) => Some((node@, text@)),
        None => None,
    }
}

/// A click that is being resolved.
#[derive(Debug)]
pub enum ClickFlow {
    /// Pick at the point.
    Pick { point: ScreenPoint, our_pid: i32 },
    /// Wake the process of what was picked, wait, and pick in it again.
    PickAgain { point: ScreenPoint, picked: PickedElement },
    /// Keep a picture of the element.
    Crop { picked: PickedElement },
    /// Walk the tree below the element, to [`PICK_TREE_DEPTH`].
    Tree { picked: PickedElement },
    /// Commit the element.
    Commit(PickedElement),
    /// Tell the user.
    Refused { toast: String, error: String },
}

impl ClickFlow {
    /// The click is in range.
    pub open spec fn wf(self) -> bool {
        match self {
            ClickFlow::Pick { point, .. } => point.wf(),
            ClickFlow::PickAgain { point, picked } => point.wf() && picked.ax_shallow && picked.pid
                > 0,
            ClickFlow::Crop { picked } => !picked.ax_shallow,
            ClickFlow::Tree { picked } => !picked.ax_shallow,
            _ => true,
        }
    }

    /// What the click comes to, given what the outside answers.
    pub open spec fn outcome(self, w: ClickWorld) -> ClickEnd {
        match self {
            ClickFlow::Pick { point, our_pid } => click_end(None, point, our_pid, w),
            ClickFlow::PickAgain { point, picked } => ClickEnd::Commit(
                completed(retried(picked@, point, w), point, w),
            ),
            ClickFlow::Crop { picked } => ClickEnd::Commit(treed(pictured(picked@, w), w)),
            ClickFlow::Tree { picked } => ClickEnd::Commit(treed(picked@, w)),
            ClickFlow::Commit(picked) => ClickEnd::Commit(picked@),
            ClickFlow::Refused { toast, error } => ClickEnd::Refused {
                toast: toast@,
                error: error@,
            },
        }
    }

    fn settle(picked: PickedElement, point: ScreenPoint) -> (r: Self)
        requires
            point.wf(),
        ensures
            r.wf(),
            r is Crop || r is Commit,
            forall|w: ClickWorld| #[trigger]
                r.outcome(w) == ClickEnd::Commit(completed(picked@, point, w)),
    {
        let mut anchored_pick = anchor_click(picked, point);
        assert(anchored_pick@ =~= anchored(picked@, point));
        if anchored_pick.ax_shallow {
            anchored_pick.ax_tree = None;
            assert(anchored_pick@ =~= with_tree(anchored(picked@, point), None));
            ClickFlow::Commit(anchored_pick)
        } else {
            ClickFlow::Crop { picked: anchored_pick }
        }
    }

    fn take(picked: PickedElement, point: ScreenPoint, our_pid: i32) -> (r: Self)
        requires
            point.wf(),
        ensures
            r.wf(),
            r !is Pick,
            forall|w: ClickWorld| #[trigger]
                r.outcome(w) == pick_end(picked@, point, our_pid, w),
    {
        if picked.pid == our_pid {
            return ClickFlow::Refused {
                toast: copy_of(OVER_OURSELVES),
                error: copy_of(OWN_PROCESS),
            };
        }
        if retry_due(&picked) {
            ClickFlow::PickAgain { point, picked }
        } else {
            ClickFlow::settle(picked, point)
        }
    }

    /// Begin with what is outlined, where anything is that a click may take.
    pub fn begin(outlined: Option<PickedElement>, point: ScreenPoint, our_pid: i32) -> (r: Self)
        requires
            point.wf(),
        ensures
            r.wf(),
            forall|w: ClickWorld| #[trigger]
                r.outcome(w) == click_end(pick_view(outlined), point, our_pid, w),
    {
        match outlined {
            Some(h) => ClickFlow::take(h, point, our_pid),
            None => ClickFlow::Pick { point, our_pid },
        }
    }

    /// Take what the hit-test picked.
    pub fn on_pick(self, answer: Result<PickedElement, String>) -> (r: Self)
        requires
            self.wf(),
            self is Pick,
        ensures
            r.wf(),
            r !is Pick,
            forall|w: ClickWorld|
                (w.fresh)(self->Pick_point) == (match answer {
                    Ok(p) => Ok::<PickedView, Seq<char>>(p@),
                    Err(e) => Err::<PickedView, Seq<char>>(e@),
                }) ==> #[trigger] r.outcome(w) == self.outcome(w),
    {
        match self {
            ClickFlow::Pick { point, our_pid } => match answer {
                Ok(p) => ClickFlow::take(p, point, our_pid),
                Err(e) => ClickFlow::Refused { toast: click_ignored(e.as_str()), error: e },
            },
            other => other,
        }
    }

    /// Take what the second hit-test picked.
    pub fn on_again(self, answer: Option<PickedElement>) -> (r: Self)
        requires
            self.wf(),
            self is PickAgain,
        ensures
            r.wf(),
            r is Crop || r is Commit,
            forall|w: ClickWorld|
                (w.again)(self->PickAgain_point, self->PickAgain_picked.pid) == pick_view(answer)
                    ==> #[trigger] r.outcome(w) == self.outcome(w),
    {
        match self {
            ClickFlow::PickAgain { point, picked } => {
                let ghost first = picked;
                let best = after_retry(picked, answer);
                assert(forall|w: ClickWorld|
                    (w.again)(point, first.pid) == pick_view(answer) ==> #[trigger] retried(
                        first@,
                        point,
                        w,
                    ) == best@);
                ClickFlow::settle(best, point)
            },
            other => other,
        }
    }

    /// Take where the picture is kept; `None` where none could be taken.
    pub fn on_crop(self, answer: Option<String>) -> (r: Self)
        requires
            self.wf(),
            self is Crop,
        ensures
            r.wf(),
            r is Tree,
            forall|w: ClickWorld|
                (w.crop)(self->Crop_picked@) == opt_view(answer) ==> #[trigger] r.outcome(w)
                    == self.outcome(w),
    {
        match self {
            ClickFlow::Crop { picked } => {
                let ghost first = picked@;
                let mut out = picked;
                if answer.is_some() {
                    out.crop_path = answer;
                }
                assert(out@ =~= with_crop(first, opt_view(answer)));
                ClickFlow::Tree { picked: out }
            },
            other => other,
        }
    }

    /// Take the tree below the element with its text; `None` where it could not be
    /// walked.
    pub fn on_tree(self, answer: Option<(Node, String)>) -> (r: Self)
        requires
            self.wf(),
            self is Tree,
        ensures
            r is Commit,
            forall|w: ClickWorld|
                (w.tree)(self->Tree_picked@) == tree_view(answer) ==> #[trigger] r.outcome(w)
                    == self.outcome(w),
    {
        match self {
            ClickFlow::Tree { picked } => {
                let ghost first = picked@;
                let mut out = picked;
                let ghost tree = tree_view(answer);
                out.ax_tree = match answer {
                    Some((node, text)) => if is_whole(&node, PICK_TREE_DEPTH) {
                        Some(text)
                    } else {
                        None
                    },
                    None => None,
                };
                assert(out@ =~= with_tree(first, tree));
                ClickFlow::Commit(out)
            },
            other => other,
        }
    }
}

/// A committed element is anchored to the click and never of this process. One that
/// could not be resolved is a box around the click.
pub proof fn commit_is_anchored(
    outlined: Option<PickedView>,
    point: ScreenPoint,
    our_pid: i32,
    w: ClickWorld,
)
    requires
        forall|pid: i32| #[trigger] (w.again)(point, pid) matches Some(p) ==> p.pid == pid,
    ensures
        click_end(outlined, point, our_pid, w) matches ClickEnd::Commit(p) ==> {
            &&& p.click == Some(point)
            &&& p.pid != our_pid
            &&& p.ax_shallow ==> p.bounds == click_box(point)
        },
{
    let first = match outlined {
        Some(h) => h,
        None => (w.fresh)(point)->Ok_0,
    };
    assert((w.again)(point, first.pid) matches Some(p) ==> p.pid == first.pid);
}

/// A committed element carries the full tree below it, as it was walked when the
/// element was picked, and none where the element could not be resolved, where
/// nothing could be walked, or where the walk left anything out.
pub proof fn commit_carries_the_tree(
    outlined: Option<PickedView>,
    point: ScreenPoint,
    our_pid: i32,
    w: ClickWorld,
)
    ensures
        click_end(outlined, point, our_pid, w) matches ClickEnd::Commit(p) ==> {
            let asked = (w.tree)(PickedView { ax_tree: before_tree(outlined, point, w), ..p });
            &&& p.ax_shallow ==> p.ax_tree is None
            &&& !p.ax_shallow ==> (p.ax_tree matches Some(text) ==> asked matches Some((n, t)) && t
                == text && whole(n, PICK_TREE_DEPTH as nat))
            &&& !p.ax_shallow && p.ax_tree is None ==> (asked matches Some((n, t)) ==> !whole(
                n,
                PICK_TREE_DEPTH as nat,
            ))
        },
{
    let first = match outlined {
        Some(h) => h,
        None => (w.fresh)(point)->Ok_0,
    };
    let p = completed(retried(first, point, w), point, w);
    let q = pictured(anchored(retried(first, point, w), point), w);
    assert(PickedView { ax_tree: before_tree(outlined, point, w), ..p } =~= q);
}

/// The tree that came with what was picked.
pub open spec fn before_tree(
    outlined: Option<PickedView>,
    point: ScreenPoint,
    w: ClickWorld,
) -> Option<Seq<char>> {
    match outlined {
        Some(h) => retried(h, point, w).ax_tree,
        None => retried((w.fresh)(point)->Ok_0, point, w).ax_tree,
    }
}

/// What a click commits is what was picked, and not something of its surroundings: its
/// role and name, its process and its window are kept, and its bounds where it could be
/// resolved. What is outlined is taken before anything else at the point.
pub proof fn a_click_commits_what_was_picked(
    h: PickedView,
    point: ScreenPoint,
    our_pid: i32,
    w: ClickWorld,
)
    requires
        h.pid != our_pid,
        !h.ax_shallow,
    ensures
        click_end(Some(h), point, our_pid, w) matches ClickEnd::Commit(p) && {
            &&& p.bounds == h.bounds
            &&& p.role == h.role && p.subrole == h.subrole && p.name == h.name && p.identifier
                == h.identifier
            &&& p.pid == h.pid && p.app_path == h.app_path
            &&& p.window_title == h.window_title && p.window_bounds == h.window_bounds
            &&& p.click == Some(point)
            &&& !p.ax_shallow
            &&& (w.crop)(PickedView { click: Some(point), ..h }) matches Some(c) ==> p.crop_path
                == Some(c)
        },
        (w.fresh)(point) == Ok::<PickedView, Seq<char>>(h) ==> click_end(None, point, our_pid, w)
            == click_end(Some(h), point, our_pid, w),
{
}

/// An empty container gives way to what a second hit-test finds, where that is none; else
/// it is committed as a box around the click, without a picture of its own.
pub proof fn an_empty_container_gives_way(
    h: PickedView,
    point: ScreenPoint,
    our_pid: i32,
    w: ClickWorld,
)
    requires
        h.pid != our_pid,
        h.ax_shallow,
    ensures
        h.pid > 0 ==> ((w.again)(point, h.pid) matches Some(p) ==> !p.ax_shallow ==> (click_end(
            Some(h),
            point,
            our_pid,
            w,
        ) matches ClickEnd::Commit(c) && c.bounds == p.bounds && c.role == p.role && c.name
            == p.name)),
        h.pid <= 0 || (w.again)(point, h.pid) is None ==> (click_end(
            Some(h),
            point,
            our_pid,
            w,
        ) matches ClickEnd::Commit(c) && c.bounds == click_box(point) && c.role == h.role
            && c.crop_path == h.crop_path && c.ax_shallow),
{
}

/// Nothing is committed of this process, nor where nothing was found; the user is told
/// what went wrong.
pub proof fn nothing_is_committed_in_vain(point: ScreenPoint, our_pid: i32, w: ClickWorld)
    ensures
        (w.fresh)(point) matches Err(e) ==> (click_end(
            None,
            point,
            our_pid,
            w,
        ) matches ClickEnd::Refused { toast, error } && error == e && occurs(toast, e)),
        (w.fresh)(point) matches Ok(p) ==> p.pid == our_pid ==> click_end(
            None,
            point,
            our_pid,
            w,
        ) is Refused,
{
    broadcast use crate::text::group_parts;

}

/// The tree of a committed element has no more than 256 levels, and nothing was left out
/// of it.
pub proof fn a_committed_tree_is_whole(h: PickedView, point: ScreenPoint, our_pid: i32, w: ClickWorld)
    requires
        h.pid != our_pid,
        !h.ax_shallow,
    ensures
        click_end(Some(h), point, our_pid, w) matches ClickEnd::Commit(p) && (p.ax_tree is Some
            ==> exists|asked: PickedView, n: NodeView|
            (#[trigger] (w.tree)(asked)) == Some((n, p.ax_tree->0)) && #[trigger] unmarked(n)
                && levels(n) <= 256),
{
    let p = click_end(Some(h), point, our_pid, w)->Commit_0;
    let asked = pictured(anchored(h, point), w);
    if p.ax_tree is Some {
        let n = ((w.tree)(asked)->0).0;
        a_whole_tree_is_unmarked_and_ends_in_time(n, PICK_TREE_DEPTH as nat);
        assert((w.tree)(asked) == Some((n, p.ax_tree->0)));
    }
}

} // verus!
