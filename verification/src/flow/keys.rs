//! What the hotkeys do, and what the user is told after.

use crate::click::{target_label, target_text};
use crate::session::{picks, ExportClaim, PickSession, SessionView, StartClaim};
use crate::shell::{
    asked, export_failed, failure_words, hotkey_of, raises_main, start_failed, start_failed_words,
    Hotkey, ALREADY_STARTING, CAPTURED, PICK_MODE_ARMED,
};
use crate::text::{copy_of, decimal, decimal_text, occurs, opt_view};
use vstd::prelude::*;

verus! {

/// What a key press calls for.
#[derive(Debug, Clone, Copy, PartialEq, Eq, Structural)]
pub enum KeyAction {
    /// Nothing.
    Nothing,
    /// Start pick mode, after stopping the session that is on.
    Start { stop_first: bool },
    /// Start pick mode in place of an export.
    StartInstead,
    /// Tell the user that pick mode is starting already.
    AlreadyStarting,
    /// Export the selection.
    Export { was_active: bool },
    /// Extract the whole window.
    Window,
    /// End pick mode and raise the main window.
    Stop,
    /// Walk to the parent, or to the child under the cursor.
    Walk { up: bool },
    /// Lock the selection.
    Lock,
}

/// Pick mode is off and nothing is selected.
pub open spec fn idle(s: SessionView) -> bool {
    !s.active && s.selected.len() == 0
}

/// What a hotkey calls for.
pub open spec fn called(s: SessionView, key: Option<Hotkey>) -> KeyAction {
    match key {
        None => KeyAction::Nothing,
        Some(Hotkey::Pick) => if s.starting {
            KeyAction::Nothing
        } else {
            KeyAction::Start { stop_first: s.active }
        },
        Some(Hotkey::Export) => if !idle(s) {
            KeyAction::Export { was_active: s.active }
        } else if s.starting {
            KeyAction::AlreadyStarting
        } else {
            KeyAction::StartInstead
        },
        Some(Hotkey::Window) => KeyAction::Window,
        Some(Hotkey::Stop) => KeyAction::Stop,
        Some(Hotkey::Walk { up }) => KeyAction::Walk { up },
        Some(Hotkey::Lock) => KeyAction::Lock,
    }
}

/// What a hotkey does to the session: it claims the start that it calls for.
pub open spec fn after_key(s: SessionView, key: Option<Hotkey>) -> SessionView {
    SessionView {
        starting: s.starting || called(s, key) is Start || called(s, key) is StartInstead,
        ..s
    }
}

/// Take a key press.
pub fn pressed(session: &mut PickSession, combo: &str) -> (r: KeyAction)
    ensures
        r == called(old(session)@, asked(combo@)),
        final(session)@ == after_key(old(session)@, asked(combo@)),
{
    match hotkey_of(combo) {
        None => KeyAction::Nothing,
        Some(Hotkey::Pick) => match session.claim_start() {
            StartClaim::Ignored => KeyAction::Nothing,
            StartClaim::Start { stop_first } => KeyAction::Start { stop_first },
        },
        Some(Hotkey::Export) => match session.claim_export() {
            ExportClaim::AutoStart => KeyAction::StartInstead,
            ExportClaim::AlreadyStarting => KeyAction::AlreadyStarting,
            ExportClaim::Export { was_active } => KeyAction::Export { was_active },
        },
        Some(Hotkey::Window) => KeyAction::Window,
        Some(Hotkey::Stop) => KeyAction::Stop,
        Some(Hotkey::Walk { up }) => KeyAction::Walk { up },
        Some(Hotkey::Lock) => KeyAction::Lock,
    }
}

/// However fast the keys are pressed, one start is under way at a time: after a press
/// that starts pick mode no other press does, until the start has come to an end.
pub proof fn one_start_at_a_time(s: SessionView, first: Option<Hotkey>, second: Option<Hotkey>)
    requires
        called(s, first) is Start || called(s, first) is StartInstead,
    ensures
        after_key(s, first).starting,
        called(after_key(s, first), second) !is Start,
        called(after_key(s, first), second) !is StartInstead,
{
}

/// A press while a start is under way leaves it so.
pub proof fn presses_keep_a_start(s: SessionView, key: Option<Hotkey>)
    requires
        s.starting,
    ensures
        after_key(s, key) == s,
{
}

/// What the user is told after pick mode was started: only where that stood in for an
/// export.
pub fn start_toast(instead: bool, started: &Result<(), String>) -> (r: Option<String>)
    ensures
        opt_view(r) == (if !instead {
            None
        } else {
            Some(
                match started {
                    Ok(_) => PICK_MODE_ARMED@,
                    Err(e) => start_failed_words(e@),
                },
            )
        }),
{
    if !instead {
        return None;
    }
    match started {
        Ok(_) => Some(copy_of(PICK_MODE_ARMED)),
        Err(e) => Some(start_failed(e.as_str())),
    }
}

/// What follows an export.
#[derive(Debug)]
pub struct Aftermath {
    /// What the user is told.
    pub toast: Option<String>,
    /// The main window is raised.
    pub raise: bool,
    /// The result of an earlier export is taken off the main window.
    pub clear: bool,
}

/// What follows an export that the hotkey asked for. `error` is why it failed.
pub fn export_aftermath(error: &Option<String>, was_active: bool) -> (r: Aftermath)
    ensures
        r.raise == (error is None || !was_active),
        r.clear == error is Some,
        opt_view(r.toast) == (match error {
            Some(e) => Some(failure_words(e@, was_active)),
            None => if was_active {
                Some(CAPTURED@)
            } else {
                None
            },
        }),
{
    match error {
        Some(e) => Aftermath {
            toast: Some(export_failed(e.as_str(), was_active)),
            raise: raises_main(false, was_active),
            clear: true,
        },
        None => {
            let toast = if was_active {
                Some(copy_of(CAPTURED))
            } else {
                None
            };
            Aftermath { toast, raise: raises_main(true, was_active), clear: false }
        },
    }
}

/// What the user is told where a key press calls for it.
pub fn key_toast(action: KeyAction) -> (r: Option<&'static str>)
    ensures
        match r {
            Some(t) => action is AlreadyStarting && t@ == ALREADY_STARTING@,
            None => action !is AlreadyStarting,
        },
{
    match action {
        KeyAction::AlreadyStarting => Some(ALREADY_STARTING),
        _ => None,
    }
}

/// There is a selection to lock: pick mode is on and something is selected.
pub open spec fn lockable(s: SessionView) -> bool {
    s.active && s.selected.len() > 0
}

/// What the user is told of a locked selection: how much of which app, and what is
/// next.
pub open spec fn locked_words(n: nat, label: Seq<char>) -> Seq<char> {
    "✓ "@ + decimal(n) + " selected from "@ + label + " — next: run /replicate-ui"@
}

/// Lock the selection: picking ends, and what is selected stays. `name` is that of the
/// app it is of. Nothing happens where nothing is there to lock.
pub fn lock_selection(session: &mut PickSession, name: &Option<String>) -> (r: Option<String>)
    ensures
        if lockable(old(session)@) {
            &&& final(session)@ == (SessionView {
                active: false,
                last_hover: None,
                ..old(session)@
            })
            &&& opt_view(r) == Some(
                locked_words(
                    old(session)@.selected.len(),
                    target_text(*name, Some(old(session)@.selected[0].pid)),
                ),
            )
        } else {
            final(session)@ == old(session)@ && r is None
        },
{
    let selected = session.selection();
    assert(selected@.len() == session@.selected.len());
    if !session.is_active() || selected.len() == 0 {
        return None;
    }
    assert(picks(selected@)[0] == selected@[0]@);
    let pid = selected[0].pid;
    session.suspend();
    let mut out = copy_of("✓ ");
    out.push_str(decimal_text(selected.len() as u64).as_str());
    out.push_str(" selected from ");
    out.push_str(target_label(name, Some(pid)).as_str());
    out.push_str(" — next: run /replicate-ui");
    Some(out)
}

/// A locked selection is all there, and can still be exported.
pub proof fn a_locked_selection_can_be_exported(s: SessionView)
    requires
        lockable(s),
    ensures
        ({
            let locked = SessionView { active: false, last_hover: None, ..s };
            &&& locked.selected == s.selected
            &&& called(locked, Some(Hotkey::Export)) == KeyAction::Export { was_active: false }
        }),
{
}

/// A key never does what another is for: each action comes of its own key only, and of a
/// press that is no hotkey comes nothing.
pub proof fn each_action_has_its_key(s: SessionView, key: Option<Hotkey>)
    ensures
        called(s, key) is Start ==> key == Some(Hotkey::Pick),
        called(s, key) is Export || called(s, key) is StartInstead || called(s, key)
            is AlreadyStarting <==> key == Some(Hotkey::Export),
        called(s, key) is Window <==> key == Some(Hotkey::Window),
        called(s, key) is Stop <==> key == Some(Hotkey::Stop),
        called(s, key) is Lock <==> key == Some(Hotkey::Lock),
        forall|up: bool|
            called(s, key) == (KeyAction::Walk { up }) <==> key == Some(Hotkey::Walk { up }),
        key is None ==> called(s, key) is Nothing,
{
}

/// The export key exports exactly where pick mode is on or something is selected, and
/// says whether pick mode was on; the pick key starts afresh unless a start is under way,
/// and stops a session that is on.
pub proof fn keys_go_by_the_session(s: SessionView)
    ensures
        s.active || s.selected.len() > 0 ==> called(s, Some(Hotkey::Export)) == (
        KeyAction::Export { was_active: s.active }),
        !s.active && s.selected.len() == 0 && !s.starting ==> called(s, Some(Hotkey::Export))
            is StartInstead,
        !s.starting ==> called(s, Some(Hotkey::Pick)) == (KeyAction::Start { stop_first: s.active }),
{
}

/// A press changes nothing of the session but that a start is claimed.
pub proof fn a_press_claims_a_start_only(s: SessionView, key: Option<Hotkey>)
    ensures
        ({
            let t = after_key(s, key);
            &&& t.active == s.active && t.selected == s.selected && t.locked_pid == s.locked_pid
            &&& t.woken == s.woken && t.target_pid == s.target_pid && t.last_hover == s.last_hover
            &&& t.cdp_port == s.cdp_port && t.target_win == s.target_win && t.widen_level
                == s.widen_level
            &&& t.starting && !s.starting ==> key == Some(Hotkey::Pick) || key == Some(
                Hotkey::Export,
            )
            &&& s.starting ==> t.starting
        }),
{
}

/// The user is told how many elements are locked, and of which app.
pub proof fn a_lock_is_told(n: nat, label: Seq<char>)
    ensures
        occurs(locked_words(n, label), decimal(n)),
        occurs(locked_words(n, label), label),
{
    broadcast use crate::text::group_parts;

}

} // verus!
