//! Relaunching the app of a pick: by the standing answer, or by the one that the user
//! gives.

use crate::relaunch::{
    after_dialog, already_relaunching, already_words, answered, called_for, cannot_relaunch,
    cannot_words, failed_words, pref_step, ready_words, relaunch_failed, relaunched_ready,
    ElectronRelaunchPref, PrefStep, RelaunchDialogChoice, RelaunchOutcome,
};
use crate::text::{occurs, opt_view};
use vstd::prelude::*;

verus! {

/// What the outside answers during a relaunch.
pub struct RelaunchWorld {
    /// The standing answer.
    pub pref: ElectronRelaunchPref,
    /// What the user answers in the dialog; `None` where no answer comes.
    pub choice: Option<RelaunchDialogChoice>,
    /// The app can be told to quit, or why not.
    pub target: Result<(), Seq<char>>,
    /// The app came back with a debug port, or why not.
    pub relaunch: Result<(), Seq<char>>,
}

/// What a relaunch came to.
#[derive(Debug)]
pub struct RelaunchEnd {
    pub outcome: RelaunchOutcome,
    /// What the user is told.
    pub toast: Option<String>,
}

/// What a [`RelaunchEnd`] holds, with the answer to keep for the app.
#[verifier::ext_equal]
pub struct RelaunchEndView {
    pub outcome: RelaunchOutcome,
    pub toast: Option<Seq<char>>,
    pub kept: Option<ElectronRelaunchPref>,
}

/// Whether to relaunch, and the answer to keep.
pub open spec fn decided(w: RelaunchWorld) -> (bool, Option<ElectronRelaunchPref>) {
    match called_for(w.pref) {
        PrefStep::Decided(proceed) => (proceed, None),
        PrefStep::ShowDialog => answered(w.choice),
    }
}

/// What a relaunch that is wanted comes to.
pub open spec fn wanted_end(
    name: Seq<char>,
    kept: Option<ElectronRelaunchPref>,
    w: RelaunchWorld,
) -> RelaunchEndView {
    match w.target {
        Err(e) => RelaunchEndView {
            outcome: RelaunchOutcome::UseAxFallback,
            toast: Some(cannot_words(name, e)),
            kept,
        },
        Ok(_) => reopened_end(name, kept, w),
    }
}

/// What a relaunch that is under way comes to.
pub open spec fn reopened_end(
    name: Seq<char>,
    kept: Option<ElectronRelaunchPref>,
    w: RelaunchWorld,
) -> RelaunchEndView {
    match w.relaunch {
        Ok(_) => RelaunchEndView {
            outcome: RelaunchOutcome::RelaunchedRearmed,
            toast: Some(ready_words(name)),
            kept,
        },
        Err(e) => RelaunchEndView {
            outcome: RelaunchOutcome::UseAxFallback,
            toast: Some(failed_words(name, e)),
            kept,
        },
    }
}

/// What an answer comes to.
pub open spec fn answer_end(
    answer: (bool, Option<ElectronRelaunchPref>),
    name: Seq<char>,
    w: RelaunchWorld,
) -> RelaunchEndView {
    if answer.0 {
        wanted_end(name, answer.1, w)
    } else {
        RelaunchEndView { outcome: RelaunchOutcome::UseAxFallback, toast: None, kept: answer.1 }
    }
}

/// What a relaunch comes to, given whether the one place for it was claimed.
pub open spec fn relaunch_end(claimed: bool, name: Seq<char>, w: RelaunchWorld) -> RelaunchEndView {
    if claimed {
        answer_end(decided(w), name, w)
    } else {
        RelaunchEndView {
            outcome: RelaunchOutcome::UseAxFallback,
            toast: Some(already_words(name)),
            kept: None,
        }
    }
}

/// What is to be done next.
#[derive(Debug)]
pub enum RelaunchStage {
    /// Leave pick mode, and read the standing answer.
    ReadPref,
    /// Show the dialog.
    ShowDialog,
    /// Find out how the app is told to quit.
    FindTarget,
    /// Quit the app and open it with a debug port.
    Relaunch,
    /// Nothing.
    Done(RelaunchEnd),
}

/// A relaunch under way.
#[derive(Debug)]
pub struct RelaunchFlow {
    pub stage: RelaunchStage,
    /// The answer to keep for the app.
    pub kept: Option<ElectronRelaunchPref>,
}

impl RelaunchFlow {
    /// What the relaunch comes to, given what the outside answers.
    pub open spec fn outcome(self, name: Seq<char>, w: RelaunchWorld) -> RelaunchEndView {
        match self.stage {
            RelaunchStage::ReadPref => relaunch_end(true, name, w),
            RelaunchStage::ShowDialog => answer_end(answered(w.choice), name, w),
            RelaunchStage::FindTarget => wanted_end(name, self.kept, w),
            RelaunchStage::Relaunch => reopened_end(name, self.kept, w),
            RelaunchStage::Done(end) => RelaunchEndView {
                outcome: end.outcome,
                toast: opt_view(end.toast),
                kept: self.kept,
            },
        }
    }

    fn fallback(kept: Option<ElectronRelaunchPref>, toast: Option<String>) -> (r: Self)
        ensures
            r.stage is Done,
            r.kept == kept,
            forall|name: Seq<char>, w: RelaunchWorld| #[trigger]
                r.outcome(name, w) == (RelaunchEndView {
                    outcome: RelaunchOutcome::UseAxFallback,
                    toast: opt_view(toast),
                    kept,
                }),
    {
        let end = RelaunchEnd { outcome: RelaunchOutcome::UseAxFallback, toast };
        RelaunchFlow { stage: RelaunchStage::Done(end), kept }
    }

    fn decide(answer: (bool, Option<ElectronRelaunchPref>)) -> (r: Self)
        ensures
            if answer.0 {
                r.stage is FindTarget
            } else {
                r.stage is Done
            },
            r.kept == answer.1,
            forall|name: Seq<char>, w: RelaunchWorld| #[trigger]
                r.outcome(name, w) == answer_end(answer, name, w),
    {
        if answer.0 {
            RelaunchFlow { stage: RelaunchStage::FindTarget, kept: answer.1 }
        } else {
            RelaunchFlow::fallback(answer.1, None)
        }
    }

    /// Begin, given whether the one place for a relaunch was claimed.
    pub fn begin(claimed: bool, name: &str) -> (r: Self)
        ensures
            if claimed {
                r.stage is ReadPref
            } else {
                r.stage is Done
            },
            r.kept is None,
            forall|w: RelaunchWorld| #[trigger]
                r.outcome(name@, w) == relaunch_end(claimed, name@, w),
    {
        if claimed {
            RelaunchFlow { stage: RelaunchStage::ReadPref, kept: None }
        } else {
            RelaunchFlow::fallback(None, Some(already_relaunching(name)))
        }
    }

    /// Take the standing answer.
    pub fn on_pref(self, pref: ElectronRelaunchPref) -> (r: Self)
        requires
            self.stage is ReadPref,
        ensures
            match called_for(pref) {
                PrefStep::ShowDialog => r.stage is ShowDialog,
                PrefStep::Decided(true) => r.stage is FindTarget,
                PrefStep::Decided(false) => r.stage is Done,
            },
            r.kept is None,
            forall|name: Seq<char>, w: RelaunchWorld|
                w.pref == pref ==> #[trigger] r.outcome(name, w) == self.outcome(name, w),
    {
        match pref_step(pref) {
            PrefStep::ShowDialog => RelaunchFlow { stage: RelaunchStage::ShowDialog, kept: None },
            PrefStep::Decided(proceed) => RelaunchFlow::decide((proceed, None)),
        }
    }

    /// Take the answer of the dialog.
    pub fn on_choice(self, choice: Option<RelaunchDialogChoice>) -> (r: Self)
        requires
            self.stage is ShowDialog,
        ensures
            if answered(choice).0 {
                r.stage is FindTarget
            } else {
                r.stage is Done
            },
            r.kept == answered(choice).1,
            forall|name: Seq<char>, w: RelaunchWorld|
                w.choice == choice ==> #[trigger] r.outcome(name, w) == self.outcome(name, w),
    {
        RelaunchFlow::decide(after_dialog(choice))
    }

    /// Take whether the app can be told to quit.
    pub fn on_target(self, name: &str, answer: Result<(), String>) -> (r: Self)
        requires
            self.stage is FindTarget,
        ensures
            match answer {
                Ok(_) => r.stage is Relaunch,
                Err(_) => r.stage is Done,
            },
            r.kept == self.kept,
            forall|w: RelaunchWorld|
                (match answer {
                    Ok(_) => w.target is Ok,
                    Err(e) => w.target == Err::<(), Seq<char>>(e@),
                }) ==> #[trigger] r.outcome(name@, w) == self.outcome(name@, w),
    {
        match answer {
            Ok(_) => RelaunchFlow { stage: RelaunchStage::Relaunch, kept: self.kept },
            Err(e) => RelaunchFlow::fallback(self.kept, Some(cannot_relaunch(name, e.as_str()))),
        }
    }

    /// Take whether the app came back with a debug port.
    pub fn on_relaunch(self, name: &str, answer: Result<(), String>) -> (r: Self)
        requires
            self.stage is Relaunch,
        ensures
            r.stage is Done,
            r.kept == self.kept,
            forall|w: RelaunchWorld|
                (match answer {
                    Ok(_) => w.relaunch is Ok,
                    Err(e) => w.relaunch == Err::<(), Seq<char>>(e@),
                }) ==> #[trigger] r.outcome(name@, w) == self.outcome(name@, w),
    {
        match answer {
            Ok(_) => {
                let end = RelaunchEnd {
                    outcome: RelaunchOutcome::RelaunchedRearmed,
                    toast: Some(relaunched_ready(name)),
                };
                RelaunchFlow { stage: RelaunchStage::Done(end), kept: self.kept }
            },
            Err(e) => {
                let end = RelaunchEnd {
                    outcome: RelaunchOutcome::UseAxFallback,
                    toast: Some(relaunch_failed(name, e.as_str())),
                };
                RelaunchFlow { stage: RelaunchStage::Done(end), kept: self.kept }
            },
        }
    }
}

/// No app is relaunched without the user's consent: the standing answer is yes, or
/// the user was asked and accepted.
pub proof fn relaunch_needs_consent(claimed: bool, name: Seq<char>, w: RelaunchWorld)
    requires
        relaunch_end(claimed, name, w).outcome is RelaunchedRearmed,
    ensures
        claimed,
        w.pref is AlwaysYes || (w.pref is Ask && (w.choice matches Some(c) && c.accept)),
        w.target is Ok,
        w.relaunch is Ok,
{
}

/// An answer is only kept where the user was asked and wants it kept.
pub proof fn only_given_answers_are_kept(claimed: bool, name: Seq<char>, w: RelaunchWorld)
    requires
        relaunch_end(claimed, name, w).kept is Some,
    ensures
        w.pref is Ask,
        w.choice matches Some(c) && c.dont_ask,
{
}

/// Where the user declines, nothing is relaunched and nothing more is said; where another
/// relaunch is under way, the user is told.
pub proof fn a_declined_relaunch_is_dropped(name: Seq<char>, w: RelaunchWorld)
    ensures
        w.pref is AlwaysNo || (w.pref is Ask && (w.choice matches Some(c) ==> !c.accept))
            ==> relaunch_end(true, name, w).outcome is UseAxFallback && relaunch_end(
            true,
            name,
            w,
        ).toast is None,
        relaunch_end(false, name, w).outcome is UseAxFallback,
        relaunch_end(false, name, w).toast matches Some(t) && occurs(t, name),
{
    broadcast use crate::text::group_parts;

}

/// A relaunch that the user wants is made, and succeeds exactly where the app can be told
/// to quit and comes back. The user is told which app it was, and why it failed where it
/// did.
pub proof fn a_wanted_relaunch_is_made(name: Seq<char>, w: RelaunchWorld)
    requires
        w.pref is AlwaysYes || (w.pref is Ask && (w.choice matches Some(c) && c.accept)),
    ensures
        ({
            let end = relaunch_end(true, name, w);
            &&& end.outcome is RelaunchedRearmed <==> w.target is Ok && w.relaunch is Ok
            &&& end.toast matches Some(t) && occurs(t, name)
            &&& w.target matches Err(e) ==> occurs(end.toast->0, e)
            &&& w.target is Ok ==> (w.relaunch matches Err(e) ==> occurs(end.toast->0, e))
            &&& w.pref is Ask ==> (end.kept is Some <==> (w.choice->0).dont_ask)
        }),
{
    broadcast use crate::text::group_parts;

    assert(occurs(ready_words(name), name));
}

} // verus!
