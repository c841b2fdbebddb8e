use vibe_extract::ax_macos::Node;
use vibe_extract::bundle_macos::BundleSummary;
use vibe_extract::capture::{PickedElement, ScreenPoint, ScreenRect};
use vibe_extract::dispatcher::merge::{
    element_dir, gather, merge_ax_tree, merge_results, stops_run, Extracted, Gathered,
};
use vibe_extract::dispatcher::native::{
    native_result, repick_attempts, repick_failure, whole_window, WindowError,
};
use vibe_extract::dispatcher::{ExtractError, Ladder, LadderInput, Next, Request};
use vibe_extract::framework_detect::Framework;
use vibe_extract::json::{Json, JsonNumber};
use vibe_extract::output::CaptureResult;

fn rect(x: i64, y: i64, w: i64, h: i64) -> ScreenRect {
    ScreenRect { x: x * 64, y: y * 64, w: w * 64, h: h * 64 }
}

fn picked() -> PickedElement {
    PickedElement {
        role: "AXButton".to_string(),
        subrole: None,
        name: "Send".to_string(),
        identifier: None,
        bounds: rect(110, 220, 10, 20),
        pid: 42,
        app_path: Some("/Applications/Slack.app/Contents/MacOS/Slack".to_string()),
        window_title: None,
        window_bounds: Some(rect(100, 200, 800, 600)),
        click: None,
        ax_shallow: false,
        crop_path: None,
        ax_tree: None,
    }
}

fn input(framework: Framework) -> LadderInput {
    LadderInput {
        picked: picked(),
        framework,
        bundle_id: Some("com.slack".to_string()),
        display_name: None,
        folder_name: Some("Slack".to_string()),
        skip_relaunch: false,
        macos: true,
    }
}

fn go(n: Next) -> Ladder {
    match n {
        Next::Go(l) => l,
        Next::Done(r) => panic!("over: {:?}", r.map(|c| c.strategy)),
    }
}

fn done(n: Next) -> Result<CaptureResult, ExtractError> {
    match n {
        Next::Go(l) => panic!("goes on: {:?}", l.request()),
        Next::Done(r) => r,
    }
}

#[test]
fn an_open_port_is_used_at_the_middle_of_the_element() {
    let l = Ladder::new(input(Framework::Electron));
    assert_eq!(l.request(), Request::DiscoverPort);
    let l = go(l.on_port(Some(9222)));
    assert_eq!(l.request(), Request::Metrics { port: 9222, x: 15 * 64, y: 30 * 64 });
    let l = go(l.on_metrics(Ok((5, 6))));
    assert_eq!(l.request(), Request::Viewport { port: 9222, x: 5, y: 6 });
    let r = done(l.on_viewport(Ok(CaptureResult::empty("cdp", "f")))).unwrap();
    assert_eq!(r.strategy, "cdp");
    assert_eq!(r.diagnostics, ["Auto-dispatched: framework=Electron, strategy=cdp@9222"]);
}

#[test]
fn an_electron_app_without_a_port_asks_for_a_relaunch() {
    let l = Ladder::new(input(Framework::Electron));
    match done(l.on_port(None)).unwrap_err() {
        ExtractError::ElectronNeedsRelaunch { bundle_id, display_name, pid, app_path } => {
            assert_eq!(bundle_id, "com.slack");
            assert_eq!(display_name, "Slack");
            assert_eq!(pid, 42);
            assert_eq!(app_path, "/Applications/Slack.app/Contents/MacOS/Slack");
        }
        other => panic!("{other:?}"),
    }
    // The display name comes before the folder's.
    let mut named = input(Framework::Electron);
    named.display_name = Some("Slack for Desktop".to_string());
    match done(Ladder::new(named).on_port(None)).unwrap_err() {
        ExtractError::ElectronNeedsRelaunch { display_name, .. } => assert_eq!(display_name, "Slack for Desktop"),
        other => panic!("{other:?}"),
    }
}

#[test]
fn a_settled_relaunch_is_not_asked_for_again() {
    let mut i = input(Framework::Electron);
    i.skip_relaunch = true;
    assert_eq!(go(Ladder::new(i).on_port(None)).request(), Request::Native);
    // Nor is one where the app is not known well enough.
    let mut i = input(Framework::Electron);
    i.bundle_id = None;
    assert_eq!(go(Ladder::new(i).on_port(None)).request(), Request::Native);
}

#[test]
fn other_apps_go_straight_to_accessibility() {
    for f in [Framework::Qt, Framework::AppKitNative, Framework::DotNet, Framework::Unknown] {
        let l = Ladder::new(input(f));
        assert_eq!(l.request(), Request::Native);
        let r = done(l.on_native(Ok(CaptureResult::empty("native_ax", "")))).unwrap();
        assert_eq!(r.strategy, "native_ax");
    }
    let mut i = input(Framework::Win32Native);
    i.macos = false;
    assert_eq!(Ladder::new(i).request(), Request::Screenshot);
}

#[test]
fn each_failure_leads_one_rung_down_and_the_last_is_told() {
    let l = go(Ladder::new(input(Framework::Electron)).on_port(Some(9222)));
    let l = go(l.on_metrics(Err("slow".to_string())));
    assert_eq!(l.request(), Request::Native);
    let l = go(l.on_native(Err("empty".to_string())));
    assert_eq!(l.request(), Request::Screenshot);
    let e = l.on_screenshot(Err("denied".to_string())).unwrap_err();
    assert_eq!(e.message(), "no extractor succeeded; last error: native_ax: empty; screenshot: denied");

    let mut i = input(Framework::Electron);
    i.macos = false;
    let l = go(go(Ladder::new(i).on_port(Some(9222))).on_metrics(Ok((1, 2))));
    let l = go(l.on_viewport(Err("boom".to_string())));
    assert_eq!(l.request(), Request::Screenshot);
    let r = l.on_screenshot(Ok(Some(b"junk".to_vec()))).unwrap();
    assert_eq!(r.strategy, "screenshot_only");
    assert_eq!(r.fidelity, "Visual only — no DOM extracted (Electron AX is too shallow)");
    assert_eq!(r.screenshot_png_b64.as_deref(), Some("anVuaw=="));
    assert!(r.html.contains("<img src=\"data:image/png;base64,anVuaw==\" alt=\"captured region\">"));
    assert!(r.toon.contains("role: AXButton\nname: \"Send\"\nbounds: 10x20 @ (110,220)\nframework: Electron\npid: 42\n"));
    assert_eq!(r.diagnostics[0], "All structural strategies failed.");
    assert_eq!(
        r.diagnostics[1],
        format!("Framework: Electron, app_path: {:?}", Some("/Applications/Slack.app/Contents/MacOS/Slack"))
    );
    assert_eq!(r.diagnostics[2], "Last error: cdp: boom");
    assert_eq!(r.diagnostics.len(), 4);
}

#[test]
fn a_screenshot_that_cannot_be_read_back_leaves_the_page_empty() {
    let mut i = input(Framework::Unknown);
    i.macos = false;
    let r = Ladder::new(i).on_screenshot(Ok(None)).unwrap();
    assert!(r.html.is_empty() && r.toon.is_empty() && r.screenshot_png_b64.is_none());
    assert_eq!(r.diagnostics[2], "Last error: ");
}

#[test]
fn a_port_without_a_window_is_of_no_use() {
    let mut i = input(Framework::Electron);
    i.picked.window_bounds = None;
    assert_eq!(go(Ladder::new(i).on_port(Some(9222))).request(), Request::Native);
}

#[test]
fn errors_in_words() {
    assert_eq!(
        ExtractError::NoAxPermission.message(),
        "AX permission denied — grant Accessibility access in System Settings and retry."
    );
    assert_eq!(ExtractError::Other("x".to_string()).message(), "x");
    assert_eq!(
        ExtractError::AllStrategiesFailed("x".to_string()).message(),
        "no extractor succeeded; last error: x"
    );
    let e = ExtractError::ElectronNeedsRelaunch {
        bundle_id: String::new(),
        display_name: String::new(),
        pid: 0,
        app_path: String::new(),
    };
    assert_eq!(e.message(), "Electron app needs to restart with --remote-debugging-port");
    assert_eq!(
        WindowError::NoElement.message(),
        "no AX element at cursor — hover over the target window before pressing Cmd+Shift+X"
    );
    assert_eq!(WindowError::NoWindow.message(), "no enclosing AXWindow");
    assert_eq!(WindowError::NoBounds.message(), "window has no bounds");
}

// --- several elements ---

fn result(strategy: &str, tree: Option<&str>) -> CaptureResult {
    let mut r = CaptureResult::empty(strategy, "fid");
    r.toon = format!("toon-{strategy}");
    r.html = format!("<p>{strategy}</p>");
    r.diagnostics = vec![format!("diag-{strategy}")];
    r.ax_tree = tree.map(|t| t.to_string());
    r
}

fn relaunch() -> ExtractError {
    ExtractError::ElectronNeedsRelaunch {
        bundle_id: "b".to_string(),
        display_name: "d".to_string(),
        pid: 1,
        app_path: "p".to_string(),
    }
}

#[test]
fn gathering_settles_what_needs_no_merging() {
    match gather(0, vec![]) {
        Gathered::Settled(Err(e)) => assert_eq!(e.message(), "no extractor succeeded; last error: no elements selected"),
        other => panic!("{other:?}"),
    }
    match gather(1, vec![Ok(result("a", None))]) {
        Gathered::Settled(Ok(r)) => assert_eq!(r.strategy, "a"),
        other => panic!("{other:?}"),
    }
    match gather(3, vec![Ok(result("a", None)), Err(relaunch())]) {
        Gathered::Settled(Err(e)) => assert!(stops_run(&Err(e))),
        other => panic!("{other:?}"),
    }
    match gather(2, vec![Err(ExtractError::Other("x".to_string())), Err(ExtractError::Other("y".to_string()))]) {
        Gathered::Settled(Err(e)) => {
            assert_eq!(e.message(), "no extractor succeeded; last error: element 0: x; element 1: y")
        }
        other => panic!("{other:?}"),
    }
    assert!(!stops_run(&Err(ExtractError::NoAxPermission)));
    assert_eq!(element_dir(1, 0), None);
    assert_eq!(element_dir(2, 1).as_deref(), Some("elem-1"));
}

#[test]
fn several_results_are_merged_in_order() {
    let outcomes = vec![
        Ok(result("a", None)),
        Err(ExtractError::Other("x".to_string())),
        Ok(result("b", Some("{}"))),
    ];
    let (items, errors) = match gather(3, outcomes) {
        Gathered::Several { items, errors } => (items, errors),
        other => panic!("{other:?}"),
    };
    assert_eq!(items.iter().map(|i| i.place).collect::<Vec<_>>(), [0, 2]);
    assert_eq!(errors, ["element 1: x"]);
    let mut second = picked();
    second.role = "AX<Image>".to_string();
    second.name = "\"q\"".to_string();
    let all = vec![picked(), picked(), second];
    let merged = merge_results(&all, &items, &errors, Some("[]".to_string()));
    assert_eq!(merged.strategy, "a (×2)");
    assert_eq!(merged.fidelity, "fid");
    assert_eq!(
        merged.toon,
        "# VibeExtract — multi-element capture (2 elements)\n\n\
         ## Element 1 of 2 — AXButton \"Send\"\n\ntoon-a\n\n---\n\n\
         ## Element 2 of 2 — AX<Image> \"\"q\"\"\n\ntoon-b\n\n---\n\n"
    );
    assert!(merged.html.contains("AX&lt;Image&gt;"));
    assert!(merged.html.contains("&lt;p&gt;b&lt;/p&gt;"));
    assert_eq!(
        merged.diagnostics,
        ["--- element 1 (AXButton) ---", "diag-a", "--- element 2 (AX<Image>) ---", "diag-b", "element 1: x"]
    );
    assert_eq!(merged.ax_tree.as_deref(), Some("[]"));
}

#[test]
fn trees_are_merged_into_one_list() {
    let all = vec![picked(), picked()];
    let items = |a: Option<&str>, b: Option<&str>| {
        vec![Extracted { place: 0, result: result("a", a) }, Extracted { place: 1, result: result("b", b) }]
    };
    assert!(merge_ax_tree(&all, &items(None, None), &vec![None, None]).is_none());
    let trees = vec![None, Some(Json::Bool(true))];
    match merge_ax_tree(&all, &items(None, Some("true")), &trees).unwrap() {
        Json::List(entries) => {
            assert_eq!(entries.len(), 2);
            assert!(matches!(entries[0].get("ax_tree"), Some(Json::Null)));
            assert!(matches!(entries[1].get("ax_tree"), Some(Json::Bool(true))));
            assert!(matches!(entries[1].get("element"), Some(Json::Number(JsonNumber::Whole(2)))));
            assert_eq!(entries[0].get_str("role"), Some("AXButton"));
            assert_eq!(entries[0].get_str("name"), Some("Send"));
        }
        other => panic!("{other:?}"),
    }
}

// --- accessibility captures ---

#[test]
fn a_picked_element_is_looked_for_at_its_middle_and_corners() {
    let p = |x: i64, y: i64| ScreenPoint { x: x * 64, y: y * 64 };
    let mut e = picked();
    assert_eq!(
        repick_attempts(&e),
        [
            (p(115, 230), Some(42)), (p(115, 230), None),
            (p(115, 225), Some(42)), (p(115, 225), None),
            (p(115, 225), Some(42)), (p(115, 225), None),
            (p(115, 235), Some(42)), (p(115, 235), None),
        ]
    );
    e.pid = -1;
    assert_eq!(repick_attempts(&e).len(), 4);
    e.bounds.x = 32;
    assert_eq!(
        repick_failure(&e),
        "re-pick at center+corners all failed (pid=-1, bounds=ScreenRect { x: 0.5, y: 220.0, w: 10.0, h: 20.0 })"
    );
}

fn node() -> Node {
    Node {
        role: "AXGroup".to_string(),
        subrole: None,
        name: String::new(),
        identifier: None,
        value: None,
        role_description: None,
        bounds: Some(rect(110, 220, 10, 20)),
        bg: Some((1, 2, 3)),
        state: vec![],
        min_value: None,
        max_value: None,
        truncated: false,
        child_source: None,
        children: vec![],
    }
}

#[test]
fn a_native_capture_names_its_sources() {
    let r = native_result(&node(), &[(1, 2, 3)], &picked(), &None, b"junk", Some("{}".to_string()));
    assert_eq!(r.strategy, "native_ax");
    assert_eq!(r.fidelity, "Native AX + sampled colors + screenshot");
    assert_eq!(r.diagnostics, ["Captured 1 AX nodes"]);
    assert_eq!(r.screenshot_png_b64.as_deref(), Some("anVuaw=="));
    assert!(r.html.contains("base64,anVuaw=="));
    assert!(r.toon.contains("#010203"));
    assert_eq!(r.ax_tree.as_deref(), Some("{}"));
    let bundle = BundleSummary {
        bundle_id: Some("com.a".to_string()),
        display_name: Some("A".to_string()),
        nibs: vec!["Main".to_string()],
        has_assets_car: true,
        diagnostics: vec!["note".to_string()],
    };
    let r = native_result(&node(), &[], &picked(), &Some(bundle), b"", None);
    assert_eq!(r.fidelity, "Native AX + NIB-resolved + sampled colors");
    assert_eq!(r.diagnostics, ["Captured 1 AX nodes", "Bundle: 1 nibs, assets_car=true", "note"]);
    assert_eq!(r.screenshot_png_b64.as_deref(), Some(""));
}

#[test]
fn a_whole_window_is_a_deliberate_pick() {
    let w = whole_window(rect(0, 0, 9, 9), Some("T".to_string()), None, None);
    assert_eq!((w.role.as_str(), w.name.as_str(), w.pid), ("AXWindow", "T", -1));
    assert_eq!(w.window_bounds, Some(rect(0, 0, 9, 9)));
    assert!(!w.ax_shallow && w.click.is_none());
    assert_eq!(whole_window(rect(0, 0, 9, 9), None, Some(3), None).name, "");
}
