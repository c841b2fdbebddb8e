use vibe_extract::ax_macos::pick::ElementFacts;
use vibe_extract::ax_macos::Node;
use vibe_extract::capture::{PickedElement, ScreenPoint, ScreenRect};
use vibe_extract::dispatcher::ExtractError;
use vibe_extract::flow::click::{ClickFlow, PICK_TREE_DEPTH};
use vibe_extract::flow::export::ExportFlow;
use vibe_extract::flow::hover::{arrive, arrow, hover_tick, HoverStep, WalkStep};
use vibe_extract::flow::keys::{export_aftermath, key_toast, lock_selection, pressed, start_toast, KeyAction};
use vibe_extract::flow::pick::{Hit, PickFlow, PickStage};
use vibe_extract::flow::relaunch::{RelaunchFlow, RelaunchStage};
use vibe_extract::flow::start::{start, StartFlow};
use vibe_extract::framework_detect::Framework;
use vibe_extract::freeze::{outline_for_click, FreezeEvent, Freezer};
use vibe_extract::hover::{ProbeTracker, WalkError};
use vibe_extract::output::CaptureResult;
use vibe_extract::relaunch::{ElectronRelaunchPref, RelaunchDialogChoice, RelaunchOutcome};
use vibe_extract::session::PickSession;
use vibe_extract::shell::{NOT_IN_DEBUG_MODE, PICK_MODE_ON};
use vibe_extract::windows_list::WindowInfo;

const OURS: i32 = 99;

fn rect(x: i64, y: i64, w: i64, h: i64) -> ScreenRect {
    ScreenRect { x: x * 64, y: y * 64, w: w * 64, h: h * 64 }
}

fn point(x: i64, y: i64) -> ScreenPoint {
    ScreenPoint { x: x * 64, y: y * 64 }
}

fn picked(role: &str, pid: i32, shallow: bool) -> PickedElement {
    PickedElement {
        role: role.to_string(),
        subrole: None,
        name: String::new(),
        identifier: None,
        bounds: rect(10, 20, 30, 40),
        pid,
        app_path: None,
        window_title: None,
        window_bounds: None,
        click: None,
        ax_shallow: shallow,
        crop_path: None,
        ax_tree: None,
    }
}

fn capture(strategy: &str) -> CaptureResult {
    CaptureResult::empty(strategy, "f")
}

fn committed(flow: ClickFlow) -> PickedElement {
    match flow {
        ClickFlow::Commit(p) => p,
        other => panic!("{other:?}"),
    }
}

#[test]
fn a_click_takes_the_outline_and_keeps_its_picture() {
    let flow = ClickFlow::begin(Some(picked("AXButton", 7, false)), point(12, 25), OURS);
    assert!(matches!(flow, ClickFlow::Crop { .. }));
    let flow = flow.on_crop(Some("/c.png".to_string()));
    assert!(matches!(flow, ClickFlow::Tree { .. }));
    let p = committed(flow.on_tree(None));
    assert_eq!(p.role, "AXButton");
    assert_eq!(p.click, Some(point(12, 25)));
    assert_eq!(p.bounds, rect(10, 20, 30, 40));
    assert_eq!(p.crop_path.as_deref(), Some("/c.png"));
}

#[test]
fn a_click_without_an_outline_picks_afresh() {
    let flow = ClickFlow::begin(None, point(12, 25), OURS);
    assert!(matches!(flow, ClickFlow::Pick { .. }));
    let p = committed(flow.on_pick(Ok(picked("AXLink", 7, false))).on_crop(None).on_tree(None));
    assert_eq!((p.role.as_str(), p.crop_path), ("AXLink", None));

    let flow = ClickFlow::begin(None, point(12, 25), OURS).on_pick(Err("no element".to_string()));
    match flow {
        ClickFlow::Refused { toast, error } => {
            assert_eq!(error, "no element");
            assert_eq!(toast, "Click ignored: no element — make sure the target app is frontmost and your cursor is over a real UI element.");
        }
        other => panic!("{other:?}"),
    }
}

#[test]
fn a_click_on_ourselves_is_refused() {
    let flow = ClickFlow::begin(None, point(1, 1), OURS).on_pick(Ok(picked("AXGroup", OURS, true)));
    match flow {
        ClickFlow::Refused { toast, error } => {
            assert_eq!(error, "fresh hit was our own process");
            assert_eq!(toast, "Cursor is over VibeExtract itself — click on the target app.");
        }
        other => panic!("{other:?}"),
    }
}

#[test]
fn an_empty_container_is_tried_again_and_boxed_where_it_stays_empty() {
    let again = || ClickFlow::begin(Some(picked("AXMenuBar", 7, true)), point(100, 100), OURS);
    assert!(matches!(again(), ClickFlow::PickAgain { .. }));

    let p = committed(again().on_again(Some(picked("AXRow", 7, false))).on_crop(None).on_tree(None));
    assert_eq!((p.role.as_str(), p.bounds), ("AXRow", rect(10, 20, 30, 40)));

    for answer in [None, Some(picked("AXWindow", 7, true))] {
        let p = committed(again().on_again(answer));
        assert_eq!(p.role, "AXMenuBar");
        assert_eq!(p.bounds, rect(10, 76, 180, 48));
        assert_eq!(p.crop_path, None);
    }
    // Without a process to wake there is no second try.
    let p = committed(ClickFlow::begin(Some(picked("AXMenuBar", -1, true)), point(100, 100), OURS));
    assert_eq!(p.bounds, rect(10, 76, 180, 48));
}

fn node(truncated: bool, children: Vec<Node>) -> Node {
    Node {
        role: "AXGroup".to_string(),
        subrole: None,
        name: String::new(),
        identifier: None,
        value: None,
        role_description: None,
        bounds: None,
        bg: None,
        state: vec![],
        min_value: None,
        max_value: None,
        truncated,
        child_source: None,
        children,
    }
}

#[test]
fn a_pick_carries_the_full_tree_below_it() {
    let at_tree = |old: Option<&str>| {
        let mut p = picked("AXButton", 7, false);
        p.ax_tree = old.map(|t| t.to_string());
        ClickFlow::begin(Some(p), point(12, 25), OURS).on_crop(None)
    };
    let full = node(false, vec![node(false, vec![])]);
    let p = committed(at_tree(None).on_tree(Some((full, "{}".to_string()))));
    assert_eq!(p.ax_tree.as_deref(), Some("{}"));
    // What the walk did not get to the end of is no full tree.
    let cut = node(false, vec![node(true, vec![])]);
    let p = committed(at_tree(Some("old")).on_tree(Some((cut, "{}".to_string()))));
    assert_eq!(p.ax_tree, None);
    let mut deep = node(false, vec![]);
    for _ in 0..PICK_TREE_DEPTH {
        deep = node(false, vec![deep]);
    }
    let p = committed(at_tree(None).on_tree(Some((deep, "{}".to_string()))));
    assert_eq!(p.ax_tree, None);
    assert_eq!(committed(at_tree(Some("old")).on_tree(None)).ax_tree, None);
    // What could not be resolved has none.
    let mut shallow = picked("AXMenuBar", -1, true);
    shallow.ax_tree = Some("old".to_string());
    assert_eq!(committed(ClickFlow::begin(Some(shallow), point(1, 1), OURS)).ax_tree, None);
}

fn relaunch_toast(flow: RelaunchFlow) -> (RelaunchOutcome, Option<String>) {
    match flow.stage {
        RelaunchStage::Done(end) => (end.outcome, end.toast),
        other => panic!("{other:?}"),
    }
}

#[test]
fn a_relaunch_follows_the_standing_answer() {
    let yes = RelaunchFlow::begin(true, "Slack").on_pref(ElectronRelaunchPref::AlwaysYes);
    assert!(matches!(yes.stage, RelaunchStage::FindTarget));
    let yes = yes.on_target("Slack", Ok(()));
    assert!(matches!(yes.stage, RelaunchStage::Relaunch));
    let (outcome, toast) = relaunch_toast(yes.on_relaunch("Slack", Ok(())));
    assert_eq!(outcome, RelaunchOutcome::RelaunchedRearmed);
    assert_eq!(toast.as_deref(), Some("Slack is ready — press ⌘⇧S then re-pick your element"));

    let no = RelaunchFlow::begin(true, "Slack").on_pref(ElectronRelaunchPref::AlwaysNo);
    assert_eq!(relaunch_toast(no), (RelaunchOutcome::UseAxFallback, None));
}

#[test]
fn a_relaunch_asks_and_keeps_the_answer_that_is_meant_to_be_kept() {
    let asked = || RelaunchFlow::begin(true, "Slack").on_pref(ElectronRelaunchPref::Ask);
    assert!(matches!(asked().stage, RelaunchStage::ShowDialog));
    let once = asked().on_choice(Some(RelaunchDialogChoice { accept: true, dont_ask: false }));
    assert!(matches!(once.stage, RelaunchStage::FindTarget));
    assert_eq!(once.kept, None);
    let always = asked().on_choice(Some(RelaunchDialogChoice { accept: true, dont_ask: true }));
    assert_eq!(always.kept, Some(ElectronRelaunchPref::AlwaysYes));
    let never = asked().on_choice(Some(RelaunchDialogChoice { accept: false, dont_ask: true }));
    assert_eq!(never.kept, Some(ElectronRelaunchPref::AlwaysNo));
    assert_eq!(relaunch_toast(never), (RelaunchOutcome::UseAxFallback, None));
    assert_eq!(relaunch_toast(asked().on_choice(None)), (RelaunchOutcome::UseAxFallback, None));
}

#[test]
fn a_relaunch_that_cannot_be_says_why() {
    let busy = RelaunchFlow::begin(false, "Slack");
    assert_eq!(
        relaunch_toast(busy),
        (RelaunchOutcome::UseAxFallback, Some("Already relaunching Slack — please wait…".to_string()))
    );
    let flow = || RelaunchFlow::begin(true, "Slack").on_pref(ElectronRelaunchPref::AlwaysYes);
    assert_eq!(
        relaunch_toast(flow().on_target("Slack", Err("no name".to_string()))),
        (RelaunchOutcome::UseAxFallback, Some("Can't relaunch Slack: no name".to_string()))
    );
    let failed = flow().on_target("Slack", Ok(())).on_relaunch("Slack", Err("timeout".to_string()));
    assert_eq!(
        relaunch_toast(failed),
        (
            RelaunchOutcome::UseAxFallback,
            Some("Couldn't restart Slack: timeout — using AX path".to_string())
        )
    );
}

fn needs_relaunch() -> ExtractError {
    ExtractError::ElectronNeedsRelaunch {
        bundle_id: "com.slack".to_string(),
        display_name: "Slack".to_string(),
        pid: 7,
        app_path: "/Slack".to_string(),
    }
}

#[test]
fn an_export_is_done_or_fails_at_once() {
    match ExportFlow::begin(false).on_first(Ok(capture("cdp"))) {
        ExportFlow::Done { result, toast } => {
            assert_eq!((result.strategy.as_str(), toast), ("cdp", None))
        }
        other => panic!("{other:?}"),
    }
    match ExportFlow::begin(true).on_first(Err(ExtractError::AllStrategiesFailed("x".to_string()))) {
        ExportFlow::Failed(e) => assert_eq!(e, "no extractor succeeded; last error: x"),
        other => panic!("{other:?}"),
    }
}

#[test]
fn an_export_goes_on_after_a_declined_relaunch() {
    let asked = |whole: bool| ExportFlow::begin(whole).on_first(Err(needs_relaunch()));
    match asked(false) {
        ExportFlow::Relaunch { bundle_id, display_name, .. } => {
            assert_eq!((bundle_id.as_str(), display_name.as_str()), ("com.slack", "Slack"))
        }
        other => panic!("{other:?}"),
    }
    match asked(false).on_relaunch(RelaunchOutcome::RelaunchedRearmed) {
        ExportFlow::Failed(e) => {
            assert_eq!(e, "Slack restarted in debug mode — re-pick your element then press ⌘⇧E")
        }
        other => panic!("{other:?}"),
    }
    let told = |whole: bool, strategy: &str| {
        let anyway = asked(whole).on_relaunch(RelaunchOutcome::UseAxFallback);
        assert!(matches!(anyway, ExportFlow::ExtractAnyway { .. }));
        match anyway.on_second(Ok(capture(strategy))) {
            ExportFlow::Done { result, toast } => {
                assert_eq!(result.strategy, strategy);
                toast.is_some()
            }
            other => panic!("{other:?}"),
        }
    };
    assert!(told(false, "screenshot_only"));
    assert!(told(false, "screenshot_only (×2)"));
    assert!(!told(false, "native_ax"));
    assert!(!told(true, "screenshot_only"));
    match asked(false)
        .on_relaunch(RelaunchOutcome::UseAxFallback)
        .on_second(Err(ExtractError::Other("gone".to_string())))
    {
        ExportFlow::Failed(e) => assert_eq!(e, "gone"),
        other => panic!("{other:?}"),
    }
}

#[test]
fn keys_call_for_one_start_at_a_time() {
    let mut s = PickSession::new();
    assert_eq!(pressed(&mut s, "super+KeyS"), KeyAction::Start { stop_first: false });
    assert_eq!(pressed(&mut s, "super+KeyS"), KeyAction::Nothing);
    assert_eq!(pressed(&mut s, "super+KeyE"), KeyAction::AlreadyStarting);
    s.begin(Some(7), None, None);
    s.start_settled();
    assert_eq!(pressed(&mut s, "super+KeyS"), KeyAction::Start { stop_first: true });
    s.start_settled();
    assert_eq!(pressed(&mut s, "super+KeyE"), KeyAction::Export { was_active: true });
    s.stop();
    assert_eq!(pressed(&mut s, "super+KeyE"), KeyAction::StartInstead);
    assert_eq!(pressed(&mut s, "super+KeyX"), KeyAction::Window);
    assert_eq!(pressed(&mut s, "Escape"), KeyAction::Stop);
    assert_eq!(pressed(&mut s, "ArrowDown"), KeyAction::Walk { up: false });
    assert_eq!(pressed(&mut s, "KeyQ"), KeyAction::Nothing);
}

#[test]
fn a_lock_ends_picking_and_keeps_the_selection() {
    let mut s = PickSession::new();
    assert_eq!(pressed(&mut s, "Enter"), KeyAction::Lock);
    assert_eq!(lock_selection(&mut s, &None), None);
    s.begin(Some(7), None, None);
    assert_eq!(lock_selection(&mut s, &None), None);
    assert!(s.is_active());
    s.commit(picked("AXButton", 7, false), false).unwrap();
    s.commit(picked("AXLink", 7, false), true).unwrap();
    assert_eq!(
        lock_selection(&mut s, &Some("Slack".to_string())).as_deref(),
        Some("✓ 2 selected from Slack — next: run /replicate-ui")
    );
    assert!(!s.is_active());
    assert_eq!(s.selection().len(), 2);
    assert_eq!(pressed(&mut s, "super+KeyE"), KeyAction::Export { was_active: false });
    let mut s = PickSession::new();
    s.begin(Some(7), None, None);
    s.commit(picked("AXButton", 7, false), false).unwrap();
    assert_eq!(
        lock_selection(&mut s, &None).as_deref(),
        Some("✓ 1 selected from pid 7 — next: run /replicate-ui")
    );
}

#[test]
fn what_follows_a_key() {
    assert_eq!(
        key_toast(KeyAction::AlreadyStarting),
        Some("Pick mode is already starting — give it a moment, then click.")
    );
    assert_eq!(key_toast(KeyAction::Window), None);
    assert_eq!(start_toast(false, &Err("x".to_string())), None);
    assert_eq!(
        start_toast(true, &Ok(())).as_deref(),
        Some("Pick mode armed — click an element, then press ⌘⇧E again to capture.")
    );
    assert_eq!(
        start_toast(true, &Err("x".to_string())).as_deref(),
        Some("Couldn't start pick mode: x — click on the target app first, then retry.")
    );
    let a = export_aftermath(&None, true);
    assert_eq!((a.raise, a.clear), (true, false));
    assert_eq!(
        a.toast.as_deref(),
        Some("✓ Captured — pick mode is still on; click again or press Esc to end")
    );
    let a = export_aftermath(&None, false);
    assert_eq!((a.toast, a.raise, a.clear), (None, true, false));
    let a = export_aftermath(&Some("nothing selected".to_string()), true);
    assert_eq!((a.raise, a.clear), (false, true));
    assert_eq!(
        a.toast.as_deref(),
        Some("Export failed: nothing selected — Hover over an element first, then click before pressing ⌘⇧E.")
    );
    assert!(export_aftermath(&Some("x".to_string()), false).raise);
}

#[test]
fn pick_mode_starts_without_a_target() {
    match StartFlow::begin(Some(OURS), None, None, OURS) {
        StartFlow::Ready(plan) => {
            assert_eq!((plan.target, plan.port, plan.window), (None, None, None));
            assert_eq!(plan.toast, Some(PICK_MODE_ON));
        }
        other => panic!("{other:?}"),
    }
}

#[test]
fn pick_mode_goes_through_the_page_of_electron_apps() {
    let begun = || StartFlow::begin(Some(OURS), Some(7), Some(8), OURS);
    assert!(matches!(begun(), StartFlow::Detect { pid: 7 }));
    match begun().on_framework(Framework::AppKitNative) {
        StartFlow::Ready(plan) => {
            assert_eq!((plan.target, plan.port, plan.window), (Some(7), None, None));
            assert_eq!(plan.toast, None);
        }
        other => panic!("{other:?}"),
    }
    let window = WindowInfo {
        pid: 7,
        app_name: String::new(),
        title: String::new(),
        bounds: rect(0, 25, 800, 600),
        window_id: 1,
        layer: 0,
    };
    let windows = vec![window];
    for (port, toast) in [(Some(9222), None), (None, Some(NOT_IN_DEBUG_MODE))] {
        match begun().on_framework(Framework::Electron).on_port(port).on_windows(&windows) {
            StartFlow::Ready(plan) => {
                assert_eq!(plan.target, Some(7));
                assert_eq!(plan.port, port);
                assert_eq!(plan.window, Some(rect(0, 25, 800, 600)));
                assert_eq!(plan.toast, toast);
                let mut s = PickSession::new();
                start(&mut s, &plan);
                assert!(s.is_active());
                assert_eq!(s.target(), Some(7));
                let probed = port.map(|p| (p, rect(0, 25, 800, 600), 0));
                assert_eq!(s.probe_target(), probed);
            }
            other => panic!("{other:?}"),
        }
    }
}

#[test]
fn the_hover_probes_a_place_once() {
    let mut s = PickSession::new();
    let mut f = Freezer::new();
    let mut t = ProbeTracker::new();
    assert_eq!(hover_tick(&s, &f, &mut t, point(5, 5)), HoverStep::End);
    s.begin(Some(7), None, None);
    assert_eq!(hover_tick(&s, &f, &mut t, point(-1, -1)), HoverStep::Wait);
    assert_eq!(hover_tick(&s, &f, &mut t, point(5, 5)), HoverStep::Look { target: Some(7) });
    let win = rect(100, 100, 50, 50);
    s.begin(Some(7), Some(9222), Some(win));
    assert_eq!(hover_tick(&s, &f, &mut t, point(5, 5)), HoverStep::Wait);
    let probe = HoverStep::Probe { port: 9222, win, x: 640, y: 1280, widen: 0 };
    assert_eq!(hover_tick(&s, &f, &mut t, point(110, 120)), probe);
    assert_eq!(hover_tick(&s, &f, &mut t, point(110, 120)), HoverStep::Wait);
    assert!(matches!(arrow(&mut s, true), WalkStep::Adjusted));
    let wider = HoverStep::Probe { port: 9222, win, x: 640, y: 1280, widen: 1 };
    // It rests while an app is held.
    f.on(FreezeEvent::Taken { pid: 7 });
    assert_eq!(hover_tick(&s, &f, &mut t, point(110, 120)), HoverStep::Wait);
    f.on(FreezeEvent::Release);
    assert_eq!(hover_tick(&s, &f, &mut t, point(110, 120)), wider);
    f.on(FreezeEvent::Taken { pid: 7 });
    s.stop();
    assert_eq!(hover_tick(&s, &f, &mut t, point(110, 120)), HoverStep::End);
}

#[test]
fn a_held_outline_counts_only_under_the_click() {
    let mut f = Freezer::new();
    let at = |f: &Freezer, x: i64, y: i64| {
        outline_for_click(f, Some(picked("AXButton", 7, false)), point(x, y)).is_some()
    };
    assert!(at(&f, 12, 25) && at(&f, 500, 500));
    f.on(FreezeEvent::Taken { pid: 7 });
    assert!(at(&f, 12, 25) && !at(&f, 500, 500));
    assert!(outline_for_click(&f, None, point(12, 25)).is_none());
    f.on(FreezeEvent::Look);
    assert!(at(&f, 500, 500));
}

#[test]
fn arrows_move_the_outline_that_a_click_takes() {
    let mut s = PickSession::new();
    match arrow(&mut s, true) {
        WalkStep::Refused(e) => assert_eq!(e, "pick mode not active"),
        other => panic!("{other:?}"),
    }
    s.begin(Some(7), None, None);
    match arrow(&mut s, true) {
        WalkStep::Refused(e) => assert_eq!(e, "no hovered element to walk from"),
        other => panic!("{other:?}"),
    }
    s.set_hover(Some(picked("AXButton", 7, false)));
    match arrow(&mut s, true) {
        WalkStep::Find { current, at, target } => {
            assert_eq!(current.role, "AXButton");
            assert_eq!(at, point(25, 40));
            assert_eq!(target, Some(7));
        }
        other => panic!("{other:?}"),
    }
    let payload = arrive(&mut s, Some(Ok(picked("AXGroup", 7, false))), point(1, 2)).unwrap();
    assert_eq!((payload.role.as_str(), payload.bounds), ("AXGroup", Some(rect(10, 20, 30, 40))));
    assert_eq!(s.cached_hover(OURS).unwrap().role, "AXGroup");
    let e = arrive(&mut s, Some(Err(WalkError::NoDeeper)), point(1, 2)).unwrap_err();
    assert_eq!(e, "no deeper element under cursor");
    let e = arrive(&mut s, None, point(1, 2)).unwrap_err();
    assert_eq!(e, "couldn't re-acquire AX handle for current hover");
    assert_eq!(s.hover().unwrap().role, "AXGroup");
}

fn facts(role: &str, r: Option<ScreenRect>) -> ElementFacts {
    ElementFacts {
        role: Some(role.to_string()),
        subrole: None,
        title: Some("t".to_string()),
        description: None,
        label: None,
        value: None,
        identifier: None,
        rect: r,
        window_title: None,
        window_rect: None,
        child_count: 0,
    }
}

fn hit(role: &str, r: Option<ScreenRect>, pid: Option<i32>) -> Option<Hit> {
    Some(Hit { facts: facts(role, r), pid })
}

fn pick_error(flow: PickFlow) -> String {
    match flow.stage {
        PickStage::Failed(e) => e,
        other => panic!("{other:?}"),
    }
}

fn pick_done(flow: PickFlow) -> PickedElement {
    match flow.stage {
        PickStage::Done(p) => p,
        other => panic!("{other:?}"),
    }
}

#[test]
fn a_pick_says_why_it_fails() {
    let denied = "AX permission denied";
    assert_eq!(pick_error(PickFlow::begin(point(1, 2), Some(7)).on_permission(false)), denied);
    let tested = |pid| PickFlow::begin(point(1, 2), pid).on_permission(true);
    assert_eq!(pick_error(tested(Some(7)).on_hit(None)), "no AX element at (1,2) in app pid 7");
    assert_eq!(pick_error(tested(None).on_hit(None)), "no AX element at (1, 2)");
    // Without bounds, and without a process to search.
    assert_eq!(pick_error(tested(None).on_hit(hit("AXGroup", None, None))), "element has no bounds");
    let searched = tested(Some(7)).on_hit(hit("AXGroup", None, None));
    assert!(matches!(searched.stage, PickStage::Search { pid: 7, .. }));
    assert_eq!(pick_error(searched.on_search(None)), "picked element has no bounds");
}

#[test]
fn a_pick_searches_the_tree_only_behind_an_empty_container() {
    let tested = |pid| PickFlow::begin(point(12, 25), pid).on_permission(true);
    let b = Some(rect(10, 20, 30, 40));
    let direct = tested(Some(7)).on_hit(hit("AXButton", b, Some(8)));
    assert!(matches!(direct.stage, PickStage::FindPath { pid: 7, .. }));
    let p = pick_done(direct.on_path(Some("/A".to_string())));
    assert_eq!((p.role.as_str(), p.pid, p.app_path.as_deref()), ("AXButton", 7, Some("/A")));
    assert_eq!((p.click, p.ax_shallow), (Some(point(12, 25)), false));

    let searched = || tested(None).on_hit(hit("AXMenuBar", b, Some(8)));
    assert!(matches!(searched().stage, PickStage::Search { pid: 8, .. }));
    let p = pick_done(searched().on_search(hit("AXLink", b, Some(9))).on_path(None));
    assert_eq!((p.role.as_str(), p.pid, p.ax_shallow), ("AXLink", 9, false));
    for worse in [None, hit("AXWindow", b, Some(9)), hit("AXLink", None, Some(9))] {
        let p = pick_done(searched().on_search(worse).on_path(None));
        assert_eq!((p.role.as_str(), p.pid, p.ax_shallow), ("AXMenuBar", 8, true));
    }
}
