use vibe_extract::capture::{PickedElement, ScreenRect};
use vibe_extract::dispatcher::ExtractError;
use vibe_extract::output::CaptureResult;
use vibe_extract::relaunch::{
    after_dialog, already_relaunching, cannot_relaunch, must_repick, only_a_screenshot, parse_pref,
    pref_step, relaunch_failed, relaunched_ready, DialogSlot,
    ElectronRelaunchPref, PrefStep, RelaunchDialogChoice, SingleFlight,
};
use vibe_extract::shell::{
    autostart, capture_failed, click_ignored, export_failed, export_may_begin, export_step,
    hotkey_of, hover_source, only_screenshot, parse_pid, printed_name, printed_pid, raises_main,
    selection_payload, selection_summary, split_lines, start_failed, unquote, window_failed,
    window_payload, ExportRefusal, ExportStep, Hotkey,
};

fn picked(role: &str, name: &str) -> PickedElement {
    PickedElement {
        role: role.to_string(),
        subrole: None,
        name: name.to_string(),
        identifier: None,
        bounds: ScreenRect { x: 0, y: 0, w: 64, h: 64 },
        pid: 1,
        app_path: None,
        window_title: None,
        window_bounds: None,
        click: None,
        ax_shallow: false,
        crop_path: None,
        ax_tree: None,
    }
}

#[test]
fn hotkeys_are_told_apart_by_their_key() {
    assert_eq!(hotkey_of("shift+super+KeyS"), Some(Hotkey::Pick));
    assert_eq!(hotkey_of("shift+super+KeyE"), Some(Hotkey::Export));
    assert_eq!(hotkey_of("shift+super+KeyX"), Some(Hotkey::Window));
    assert_eq!(hotkey_of("Escape"), Some(Hotkey::Stop));
    assert_eq!(hotkey_of("ArrowUp"), Some(Hotkey::Walk { up: true }));
    assert_eq!(hotkey_of("ArrowDown"), Some(Hotkey::Walk { up: false }));
    assert_eq!(hotkey_of("Enter"), Some(Hotkey::Lock));
    assert_eq!(hotkey_of("KeyQ"), None);
}

#[test]
fn lines_are_split() {
    assert_eq!(split_lines("a\nbc\n"), ["a", "bc", ""]);
    assert_eq!(split_lines(""), [""]);
}

#[test]
fn process_numbers_parse_as_integers_do() {
    for s in [
        "0", "12345", "-7", "+8", "2147483647", "2147483648", "-2147483648", "-2147483649", "",
        "-", "+", "1 2", "12a", "0007", "99999999999999999999999", "１２",
    ] {
        assert_eq!(parse_pid(s), s.parse::<i32>().ok(), "{s:?}");
    }
}

#[test]
fn the_front_process_is_read_from_what_is_printed() {
    assert_eq!(printed_pid("\"pid\"=12345\n"), Some(12345));
    assert_eq!(printed_pid("[ NULL ]\n\"x\"=abc\n\"pid\"= 7 \r\n\"pid\"=8"), Some(7));
    assert_eq!(printed_pid("no value here"), None);
    assert_eq!(printed_pid("a=1=2"), None);
}

#[test]
fn the_app_name_is_read_without_its_quotes() {
    assert_eq!(printed_name("\"LSDisplayName\"=\"Google Chrome\"\n").as_deref(), Some("Google Chrome"));
    assert_eq!(printed_name("\"a\"=\"\"\n\"b\"=  x\"y  ").as_deref(), Some("x\"y"));
    assert_eq!(printed_name("\"a\"=\"\"\n"), None);
    assert_eq!(unquote("\"\"q\"\"\""), "q");
    assert_eq!(unquote("\"\"\""), "");
}

#[test]
fn a_selection_is_summed_up() {
    let sel = vec![picked("AXButton", "Send"), picked("AXImage", "")];
    assert_eq!(selection_summary(&sel), "AXButton \"Send\" + AXImage \"\"");
    let mut r = CaptureResult::empty("cdp", "f");
    r.toon = "t".to_string();
    r.html = "h".to_string();
    r.screenshot_png_b64 = Some("s".to_string());
    r.diagnostics = vec!["d".to_string()];
    let p = selection_payload(r.clone(), &sel);
    assert_eq!((p.strategy.as_str(), p.fidelity.as_str(), p.toon.as_str(), p.html.as_str()), ("cdp", "f", "t", "h"));
    assert_eq!(p.screenshot_png_b64.as_deref(), Some("s"));
    assert_eq!(p.diagnostics, ["d"]);
    assert_eq!(p.count, 2);
    assert_eq!(p.picked_summary, "AXButton \"Send\" + AXImage \"\"");
    let w = window_payload(r);
    assert_eq!((w.picked_summary.as_str(), w.count), ("entire frontmost window", 1));
}

#[test]
fn an_export_begins_only_alone_and_with_a_selection() {
    let sel = vec![picked("AXButton", "")];
    assert_eq!(export_may_begin(false, &sel), Some(ExportRefusal::InProgress));
    assert_eq!(export_may_begin(true, &vec![]), Some(ExportRefusal::NothingSelected));
    assert_eq!(export_may_begin(true, &sel), None);
    assert_eq!(
        ExportRefusal::InProgress.message(),
        "an export is already in progress — give it a moment to finish"
    );
    assert_eq!(ExportRefusal::NothingSelected.message(), "nothing selected");
}

#[test]
fn a_missing_port_leads_to_a_relaunch() {
    let needs = ExtractError::ElectronNeedsRelaunch {
        bundle_id: "b".to_string(),
        display_name: "Slack".to_string(),
        pid: 1,
        app_path: "p".to_string(),
    };
    match export_step(Err(needs)) {
        ExportStep::Relaunch { bundle_id, display_name } => {
            assert_eq!((bundle_id.as_str(), display_name.as_str()), ("b", "Slack"))
        }
        other => panic!("{other:?}"),
    }
    match export_step(Err(ExtractError::NoAxPermission)) {
        ExportStep::Failed(m) => assert_eq!(
            m,
            "AX permission denied — grant Accessibility access in System Settings and retry."
        ),
        other => panic!("{other:?}"),
    }
    assert!(matches!(export_step(Ok(CaptureResult::empty("a", "b"))), ExportStep::Done(_)));
    assert!(only_screenshot(&CaptureResult::empty("screenshot_only (×2)", "")));
    assert!(!only_screenshot(&CaptureResult::empty("cdp", "")));
}

#[test]
fn the_page_drives_the_hover_of_electron_apps_only() {
    let w = Some(ScreenRect { x: 0, y: 0, w: 64, h: 64 });
    assert_eq!(hover_source(true, Some(9222), w), (Some(9222), w));
    assert_eq!(hover_source(false, Some(9222), w), (None, None));
}

#[test]
fn the_server_starts_unless_switched_off() {
    assert!(autostart(false, false));
    assert!(!autostart(false, true));
    assert!(autostart(true, true));
    assert!(raises_main(true, true) && raises_main(false, false) && !raises_main(false, true));
}

#[test]
fn what_the_user_is_told() {
    assert_eq!(
        export_failed("x", true),
        "Export failed: x — Hover over an element first, then click before pressing ⌘⇧E."
    );
    assert_eq!(
        export_failed("x", false),
        "Export failed: x — Press ⌘⇧E again to start picking, click an element, then ⌘⇧E to capture."
    );
    assert_eq!(window_failed("x"), "Failed: x");
    assert_eq!(
        start_failed("x"),
        "Couldn't start pick mode: x — click on the target app first, then retry."
    );
    assert_eq!(
        click_ignored("x"),
        "Click ignored: x — make sure the target app is frontmost and your cursor is over a real UI element."
    );
    assert_eq!(capture_failed("x"), "Click capture failed: x");
    assert_eq!(already_relaunching("Slack"), "Already relaunching Slack — please wait…");
    assert_eq!(cannot_relaunch("Slack", "x"), "Can't relaunch Slack: x");
    assert_eq!(relaunched_ready("Slack"), "Slack is ready — press ⌘⇧S then re-pick your element");
    assert_eq!(relaunch_failed("Slack", "x"), "Couldn't restart Slack: x — using AX path");
    assert_eq!(
        must_repick("Slack"),
        "Slack restarted in debug mode — re-pick your element then press ⌘⇧E"
    );
    assert_eq!(
        only_a_screenshot("Slack"),
        "Slack's AX tree was empty — only a screenshot was captured. For real DOM, accept the restart prompt or set 'Always' in Settings → Electron Apps."
    );
}

#[test]
fn preferences_parse_by_name() {
    assert_eq!(parse_pref("ask").unwrap(), ElectronRelaunchPref::Ask);
    assert_eq!(parse_pref("always_yes").unwrap(), ElectronRelaunchPref::AlwaysYes);
    assert_eq!(parse_pref("always_no").unwrap(), ElectronRelaunchPref::AlwaysNo);
    assert_eq!(parse_pref("Ask").unwrap_err(), "unknown pref 'Ask'");
}

#[test]
fn an_answer_is_kept_only_where_it_is_meant_to_be() {
    for accept in [true, false] {
        let (go, kept) = after_dialog(Some(RelaunchDialogChoice { accept, dont_ask: false }));
        assert_eq!((go, kept), (accept, None));
        let (go, kept) = after_dialog(Some(RelaunchDialogChoice { accept, dont_ask: true }));
        assert_eq!(go, accept);
        // What is kept is given again without asking.
        assert_eq!(pref_step(kept.unwrap()), PrefStep::Decided(accept));
    }
    assert_eq!(after_dialog(None), (false, None));
    assert_eq!(pref_step(ElectronRelaunchPref::Ask), PrefStep::ShowDialog);
}

#[test]
fn one_at_a_time() {
    let mut f = SingleFlight::new();
    assert!(f.claim());
    assert!(!f.claim());
    f.release();
    assert!(f.claim());
    let mut d = DialogSlot::new();
    assert_eq!(d.take(), None);
    assert_eq!(d.open(1), None);
    assert_eq!(d.open(2), Some(1));
    assert_eq!(d.take(), Some(2));
    assert_eq!(d.take(), None);
}
