//! An export: a first extraction, and a second one where the app was not relaunched.

use crate::dispatcher::{ErrorView, ExtractError};
use crate::output::{CaptureResult, CaptureView};
use crate::relaunch::{
    must_repick, only_a_screenshot, repick_words, screenshot_words, RelaunchOutcome,
};
use crate::shell::{export_step, only_screenshot, ExportStep};
use crate::text::{begins, occurs, opt_view};
use vstd::prelude::*;

verus! {

/// What the outside answers during an export.
pub struct ExportWorld {
    /// What the first extraction comes to, of the whole window or of the selection.
    pub first: spec_fn(bool) -> Result<CaptureView, ErrorView>,
    /// What asking for a relaunch of an app comes to, by its bundle and its name.
    pub relaunch: spec_fn(Seq<char>, Seq<char>) -> RelaunchOutcome,
    /// What the second extraction comes to, which asks for no relaunch.
    pub second: spec_fn(bool) -> Result<CaptureView, ErrorView>,
}

/// What the answer says of an extraction.
pub open spec fn extraction(answer: Result<CaptureResult, ExtractError>) -> Result<
    CaptureView,
    ErrorView,
> {
    match answer {
        Ok(c) => Ok(c@),
        Err(e) => Err(e@),
    }
}

/// What an export comes to: the result, with what the user is told beside it; or the
/// error in words.
pub type ExportEndView = Result<(CaptureView, Option<Seq<char>>), Seq<char>>;

/// What the second extraction comes to. Where that of a selection was down to a
/// screenshot, the user is told what would help.
pub open spec fn second_end(whole: bool, name: Seq<char>, w: ExportWorld) -> ExportEndView {
    match (w.second)(whole) {
        Ok(c) => Ok(
            (
                c,
                if !whole && occurs(c.strategy, "screenshot_only"@) {
                    Some(screenshot_words(name))
                } else {
                    None
                },
            ),
        ),
        Err(e) => Err(e.words()),
    }
}

/// What a relaunch comes to for the export.
pub open spec fn relaunched_end(
    whole: bool,
    bundle_id: Seq<char>,
    name: Seq<char>,
    w: ExportWorld,
) -> ExportEndView {
    match (w.relaunch)(bundle_id, name) {
        RelaunchOutcome::RelaunchedRearmed => Err(repick_words(name)),
        RelaunchOutcome::UseAxFallback => second_end(whole, name, w),
    }
}

/// What an export of the selection, or of the whole window, comes to.
pub open spec fn export_end(whole: bool, w: ExportWorld) -> ExportEndView {
    match (w.first)(whole) {
        Ok(c) => Ok((c, None)),
        Err(e) => match e {
            ErrorView::ElectronNeedsRelaunch { bundle_id, display_name, .. } => relaunched_end(
                whole,
                bundle_id,
                display_name,
                w,
            ),
            _ => Err(e.words()),
        },
    }
}

/// An export under way.
#[derive(Debug)]
pub enum ExportFlow {
    /// Extract.
    Extract { whole: bool },
    /// Ask for a relaunch of the app.
    Relaunch { whole: bool, bundle_id: String, display_name: String },
    /// Extract again, without asking for a relaunch.
    ExtractAnyway { whole: bool, display_name: String },
    /// It is done; the user is told something beside the result, where anything.
    Done { result: CaptureResult, toast: Option<String> },
    /// It failed.
    Failed(String),
}

impl ExportFlow {
    /// What the export comes to, given what the outside answers.
    pub open spec fn outcome(self, w: ExportWorld) -> ExportEndView {
        match self {
            ExportFlow::Extract { whole } => export_end(whole, w),
            ExportFlow::Relaunch { whole, bundle_id, display_name } => relaunched_end(
                whole,
                bundle_id@,
                display_name@,
                w,
            ),
            ExportFlow::ExtractAnyway { whole, display_name } => second_end(
                whole,
                display_name@,
                w,
            ),
            ExportFlow::Done { result, toast } => Ok((result@, opt_view(toast))),
            ExportFlow::Failed(e) => Err(e@),
        }
    }

    /// Begin an export, of the whole window or of the selection.
    pub fn begin(whole: bool) -> (r: Self)
        ensures
            r == (ExportFlow::Extract { whole }),
            forall|w: ExportWorld| #[trigger] r.outcome(w) == export_end(whole, w),
    {
        ExportFlow::Extract { whole }
    }

    /// Take what the first extraction came to.
    pub fn on_first(self, answer: Result<CaptureResult, ExtractError>) -> (r: Self)
        requires
            self is Extract,
        ensures
            match answer {
                Err(ExtractError::ElectronNeedsRelaunch { bundle_id, display_name, .. }) => r == (
                ExportFlow::Relaunch { whole: self->Extract_whole, bundle_id, display_name }),
                _ => r is Done || r is Failed,
            },
            forall|w: ExportWorld|
                (w.first)(self->Extract_whole) == extraction(answer) ==> #[trigger] r.outcome(w) == self.outcome(w),
    {
        match self {
            ExportFlow::Extract { whole } => match export_step(answer) {
                ExportStep::Done(result) => ExportFlow::Done { result, toast: None },
                ExportStep::Relaunch { bundle_id, display_name } => ExportFlow::Relaunch {
                    whole,
                    bundle_id,
                    display_name,
                },
                ExportStep::Failed(e) => ExportFlow::Failed(e),
            },
            other => other,
        }
    }

    /// Take what asking for a relaunch came to.
    pub fn on_relaunch(self, answer: RelaunchOutcome) -> (r: Self)
        requires
            self is Relaunch,
        ensures
            answer is UseAxFallback ==> r == (ExportFlow::ExtractAnyway {
                whole: self->Relaunch_whole,
                display_name: self->Relaunch_display_name,
            }),
            r is Failed == answer is RelaunchedRearmed,
            forall|w: ExportWorld|
                (w.relaunch)(self->Relaunch_bundle_id@, self->Relaunch_display_name@) == answer
                    ==> #[trigger] r.outcome(w) == self.outcome(w),
    {
        match self {
            ExportFlow::Relaunch { whole, bundle_id: _, display_name } => match answer {
                RelaunchOutcome::RelaunchedRearmed => ExportFlow::Failed(
                    must_repick(display_name.as_str()),
                ),
                RelaunchOutcome::UseAxFallback => ExportFlow::ExtractAnyway { whole, display_name },
            },
            other => other,
        }
    }

    /// Take what the second extraction came to.
    pub fn on_second(self, answer: Result<CaptureResult, ExtractError>) -> (r: Self)
        requires
            self is ExtractAnyway,
        ensures
            r is Done || r is Failed,
            forall|w: ExportWorld|
                (w.second)(self->ExtractAnyway_whole) == extraction(answer) ==> #[trigger] r.outcome(w) == self.outcome(w),
    {
        match self {
            ExportFlow::ExtractAnyway { whole, display_name } => match answer {
                Ok(result) => {
                    let toast = if !whole && only_screenshot(&result) {
                        Some(only_a_screenshot(display_name.as_str()))
                    } else {
                        None
                    };
                    ExportFlow::Done { result, toast }
                },
                Err(e) => ExportFlow::Failed(e.message()),
            },
            other => other,
        }
    }
}

/// Where the user declines the relaunch, or it fails, the export still gives what the
/// second extraction gives.
pub proof fn declined_relaunch_still_exports(whole: bool, w: ExportWorld)
    requires
        (w.first)(whole) matches Err(ErrorView::ElectronNeedsRelaunch { bundle_id, display_name, .. })
            && (w.relaunch)(bundle_id, display_name) is UseAxFallback,
        (w.second)(whole) is Ok,
    ensures
        export_end(whole, w) matches Ok((c, _)) && c == (w.second)(whole)->Ok_0,
{
}

/// What the first extraction gives is what the export gives, and nothing is asked.
pub proof fn a_first_success_is_the_export(whole: bool, w: ExportWorld)
    requires
        (w.first)(whole) is Ok,
    ensures
        export_end(whole, w) matches Ok((c, toast)) && Ok::<CaptureView, ErrorView>(c) == (w.first)(
            whole,
        ) && toast is None,
{
}

/// Where the app was relaunched there is no export: the user is told to pick again, in
/// which app.
pub proof fn a_relaunched_app_is_picked_in_again(whole: bool, w: ExportWorld)
    requires
        (w.first)(whole) matches Err(ErrorView::ElectronNeedsRelaunch { bundle_id, display_name, .. })
            && (w.relaunch)(bundle_id, display_name) is RelaunchedRearmed,
    ensures
        export_end(whole, w) matches Err(e) && begins(
            e,
            ((w.first)(whole)->Err_0)->ElectronNeedsRelaunch_display_name,
        ),
{
    broadcast use crate::text::group_parts;

}

/// Any other failure is the export's: no second try is made.
pub proof fn another_failure_ends_the_export(whole: bool, w: ExportWorld)
    requires
        (w.first)(whole) matches Err(e) && e !is ElectronNeedsRelaunch,
    ensures
        export_end(whole, w) matches Err(e) && e == ((w.first)(whole)->Err_0).words(),
{
}

/// The user is told of a mere screenshot only after a second extraction of a selection
/// came down to one; what is told names the app.
pub proof fn a_mere_screenshot_is_told(whole: bool, name: Seq<char>, w: ExportWorld)
    ensures
        second_end(whole, name, w) matches Ok((c, toast)) ==> {
            &&& toast is Some <==> !whole && occurs(c.strategy, "screenshot_only"@)
            &&& toast matches Some(t) ==> begins(t, name)
        },
        (w.second)(whole) matches Err(e) ==> second_end(whole, name, w) == Err::<
            (CaptureView, Option<Seq<char>>),
            Seq<char>,
        >(e.words()),
{
    broadcast use crate::text::group_parts;

}

} // verus!
