//! Relaunching an Electron app with a debug port: whether to, and what is said about
//! it. The app itself is quit and started by the caller.

use crate::text::{begins, copy_of, occurs, same};
use vstd::prelude::*;

verus! {

/// The user's standing answer for an app.
#[derive(Debug, Clone, Copy, PartialEq, Eq, Structural)]
pub enum ElectronRelaunchPref {
    Ask,
    AlwaysYes,
    AlwaysNo,
}

/// A preference by its name.
pub open spec fn named_pref(name: Seq<char>) -> Option<ElectronRelaunchPref> {
    if name == "ask"@ {
        Some(ElectronRelaunchPref::Ask)
    } else if name == "always_yes"@ {
        Some(ElectronRelaunchPref::AlwaysYes)
    } else if name == "always_no"@ {
        Some(ElectronRelaunchPref::AlwaysNo)
    } else {
        None
    }
}

/// A preference by its name.
pub fn parse_pref(name: &str) -> (r: Result<ElectronRelaunchPref, String>)
    ensures
        match named_pref(name@) {
            Some(p) => r == Ok::<ElectronRelaunchPref, String>(p),
            None => r matches Err(e) && e@ == "unknown pref '"@ + name@ + "'"@,
        },
{
    if same(name, "ask") {
        return Ok(ElectronRelaunchPref::Ask);
    }
    if same(name, "always_yes") {
        return Ok(ElectronRelaunchPref::AlwaysYes);
    }
    if same(name, "always_no") {
        return Ok(ElectronRelaunchPref::AlwaysNo);
    }
    let mut out = copy_of("unknown pref '");
    out.push_str(name);
    out.push_str("'");
    Err(out)
}

/// What the user answered in the dialog.
#[derive(Debug, Clone, Copy, PartialEq, Eq, Structural)]
pub struct RelaunchDialogChoice {
    pub accept: bool,
    /// Keep the answer for this app.
    pub dont_ask: bool,
}

/// What the dialog shows.
#[derive(Debug)]
pub struct RelaunchDialogInfo {
    pub bundle_id: String,
    pub display_name: String,
    pub known: bool,
}

/// What the standing answer calls for.
#[derive(Debug, Clone, Copy, PartialEq, Eq, Structural)]
pub enum PrefStep {
    /// Show the dialog.
    ShowDialog,
    /// Relaunch without asking, or do not.
    Decided(bool),
}

/// What the standing answer calls for.
pub open spec fn called_for(pref: ElectronRelaunchPref) -> PrefStep {
    match pref {
        ElectronRelaunchPref::AlwaysNo => PrefStep::Decided(false),
        ElectronRelaunchPref::AlwaysYes => PrefStep::Decided(true),
        ElectronRelaunchPref::Ask => PrefStep::ShowDialog,
    }
}

/// What the standing answer calls for.
pub fn pref_step(pref: ElectronRelaunchPref) -> (r: PrefStep)
    ensures
        r == called_for(pref),
{
    match pref {
        ElectronRelaunchPref::AlwaysNo => PrefStep::Decided(false),
        ElectronRelaunchPref::AlwaysYes => PrefStep::Decided(true),
        ElectronRelaunchPref::Ask => PrefStep::ShowDialog,
    }
}

/// What an answer in the dialog comes to: whether to relaunch, and the preference to
/// keep, where one is to be kept. No answer counts as a refusal.
pub open spec fn answered(choice: Option<RelaunchDialogChoice>) -> (
    bool,
    Option<ElectronRelaunchPref>,
) {
    match choice {
        Some(c) => (
            c.accept,
            if !c.dont_ask {
                None
            } else if c.accept {
                Some(ElectronRelaunchPref::AlwaysYes)
            } else {
                Some(ElectronRelaunchPref::AlwaysNo)
            },
        ),
        None => (false, None),
    }
}

/// What an answer in the dialog comes to: whether to relaunch, and the preference to
/// keep, where one is to be kept. No answer counts as a refusal.
pub fn after_dialog(choice: Option<RelaunchDialogChoice>) -> (r: (
    bool,
    Option<ElectronRelaunchPref>,
))
    ensures
        r == answered(choice),
{
    match choice {
        Some(c) => {
            let kept = if !c.dont_ask {
                None
            } else if c.accept {
                Some(ElectronRelaunchPref::AlwaysYes)
            } else {
                Some(ElectronRelaunchPref::AlwaysNo)
            };
            (c.accept, kept)
        },
        None => (false, None),
    }
}

/// An answer that is kept is given again without asking.
pub proof fn kept_answer_is_given_again(choice: Option<RelaunchDialogChoice>)
    requires
        answered(choice).1 is Some,
    ensures
        called_for(answered(choice).1->0) == PrefStep::Decided(answered(choice).0),
{
}

/// What a relaunch came to.
#[derive(Debug, Clone, Copy, PartialEq, Eq, Structural)]
pub enum RelaunchOutcome {
    /// Relaunched and pick mode is armed again: the user must re-pick.
    RelaunchedRearmed,
    /// Declined or failed: extract again without asking, through accessibility.
    UseAxFallback,
}

/// Something that is done one at a time.
#[derive(Debug)]
pub struct SingleFlight {
    busy: bool,
}

impl View for SingleFlight {
    type V = bool;

    closed spec fn view(&self) -> bool {
        self.busy
    }
}

impl SingleFlight {
    /// Nothing under way.
    pub fn new() -> (r: Self)
        ensures
            !r@,
    {
        SingleFlight { busy: false }
    }

    /// Claim the one place; `false` where it is taken.
    pub fn claim(&mut self) -> (r: bool)
        ensures
            r == !old(self)@,
            final(self)@,
    {
        let free = !self.busy;
        self.busy = true;
        free
    }

    /// Give the place back.
    pub fn release(&mut self)
        ensures
            !final(self)@,
    {
        self.busy = false;
    }
}

/// The dialog that waits for an answer, by the number of its request.
#[derive(Debug)]
pub struct DialogSlot {
    pending: Option<u64>,
}

impl View for DialogSlot {
    type V = Option<u64>;

    closed spec fn view(&self) -> Option<u64> {
        self.pending
    }
}

impl DialogSlot {
    /// No dialog is up.
    pub fn new() -> (r: Self)
        ensures
            r@ is None,
    {
        DialogSlot { pending: None }
    }

    /// A dialog goes up. Gives the request that waited before, which is to be refused.
    pub fn open(&mut self, request: u64) -> (r: Option<u64>)
        ensures
            r == old(self)@,
            final(self)@ == Some(request),
    {
        let before = self.pending;
        self.pending = Some(request);
        before
    }

    /// An answer came in, or none will. Gives the request it is for.
    pub fn take(&mut self) -> (r: Option<u64>)
        ensures
            r == old(self)@,
            final(self)@ is None,
    {
        let before = self.pending;
        self.pending = None;
        before
    }
}

// ---------------------------------------------------------------------------
// Words
// ---------------------------------------------------------------------------

/// A relaunch of the app is under way.
pub open spec fn already_words(name: Seq<char>) -> Seq<char> {
    "Already relaunching "@ + name + " — please wait…"@
}

/// A relaunch of the app is under way.
pub fn already_relaunching(name: &str) -> (r: String)
    ensures
        r@ == already_words(name@),
{
    let mut out = copy_of("Already relaunching ");
    out.push_str(name);
    out.push_str(" — please wait…");
    out
}

/// The app cannot be relaunched.
pub open spec fn cannot_words(name: Seq<char>, error: Seq<char>) -> Seq<char> {
    "Can't relaunch "@ + name + ": "@ + error
}

/// The app cannot be relaunched.
pub fn cannot_relaunch(name: &str, error: &str) -> (r: String)
    ensures
        r@ == cannot_words(name@, error@),
{
    let mut out = copy_of("Can't relaunch ");
    out.push_str(name);
    out.push_str(": ");
    out.push_str(error);
    out
}

/// The app is back with a debug port.
pub open spec fn ready_words(name: Seq<char>) -> Seq<char> {
    name + " is ready — press ⌘⇧S then re-pick your element"@
}

/// The app is back with a debug port.
pub fn relaunched_ready(name: &str) -> (r: String)
    ensures
        r@ == ready_words(name@),
{
    let mut out = copy_of(name);
    out.push_str(" is ready — press ⌘⇧S then re-pick your element");
    out
}

/// The relaunch failed.
pub open spec fn failed_words(name: Seq<char>, error: Seq<char>) -> Seq<char> {
    "Couldn't restart "@ + name + ": "@ + error + " — using AX path"@
}

/// The relaunch failed.
pub fn relaunch_failed(name: &str, error: &str) -> (r: String)
    ensures
        r@ == failed_words(name@, error@),
{
    let mut out = copy_of("Couldn't restart ");
    out.push_str(name);
    out.push_str(": ");
    out.push_str(error);
    out.push_str(" — using AX path");
    out
}

/// The export ends here: the user must re-pick.
pub open spec fn repick_words(name: Seq<char>) -> Seq<char> {
    name + " restarted in debug mode — re-pick your element then press ⌘⇧E"@
}

/// The export ends here: the user must re-pick.
pub fn must_repick(name: &str) -> (r: String)
    ensures
        r@ == repick_words(name@),
{
    let mut out = copy_of(name);
    out.push_str(" restarted in debug mode — re-pick your element then press ⌘⇧E");
    out
}

/// Only a screenshot was captured.
pub open spec fn screenshot_words(name: Seq<char>) -> Seq<char> {
    name
        + "'s AX tree was empty — only a screenshot was captured. For real DOM, accept the restart prompt or set 'Always' in Settings → Electron Apps."@
}

/// Only a screenshot was captured.
pub fn only_a_screenshot(name: &str) -> (r: String)
    ensures
        r@ == screenshot_words(name@),
{
    let mut out = copy_of(name);
    out.push_str(
        "'s AX tree was empty — only a screenshot was captured. For real DOM, accept the restart prompt or set 'Always' in Settings → Electron Apps.",
    );
    out
}

// ---------------------------------------------------------------------------
// What the answers mean
// ---------------------------------------------------------------------------

/// Each preference has one name, and no other text names any.
pub proof fn preferences_go_by_their_names(name: Seq<char>)
    ensures
        named_pref(name) == Some(ElectronRelaunchPref::Ask) <==> name == "ask"@,
        named_pref(name) == Some(ElectronRelaunchPref::AlwaysYes) <==> name == "always_yes"@,
        named_pref(name) == Some(ElectronRelaunchPref::AlwaysNo) <==> name == "always_no"@,
{
    reveal_strlit("ask");
    reveal_strlit("always_yes");
    reveal_strlit("always_no");
    assert("ask"@.len() == 3 && "always_yes"@.len() == 10 && "always_no"@.len() == 9);
}

/// The dialog comes up exactly where the user wants to be asked; else the standing answer
/// is the one that is named.
pub proof fn a_standing_answer_is_followed(pref: ElectronRelaunchPref)
    ensures
        called_for(pref) is ShowDialog <==> pref is Ask,
        called_for(pref) == PrefStep::Decided(true) <==> pref is AlwaysYes,
        called_for(pref) == PrefStep::Decided(false) <==> pref is AlwaysNo,
{
}

/// An app is relaunched exactly where the user accepts, and the answer is kept exactly
/// where the user wants no more questions.
pub proof fn an_answer_is_the_users(choice: Option<RelaunchDialogChoice>)
    ensures
        answered(choice).0 <==> (choice matches Some(c) && c.accept),
        answered(choice).1 is Some <==> (choice matches Some(c) && c.dont_ask),
{
}

/// What the user is told names the app, and the error where there is one.
pub proof fn the_user_is_told_which_app(name: Seq<char>, error: Seq<char>)
    ensures
        occurs(already_words(name), name),
        occurs(cannot_words(name, error), name) && occurs(cannot_words(name, error), error),
        begins(ready_words(name), name),
        occurs(failed_words(name, error), name) && occurs(failed_words(name, error), error),
        begins(repick_words(name), name),
        begins(screenshot_words(name), name),
{
    broadcast use crate::text::group_parts;

}

} // verus!
