use vibe_extract::ax_macos::pick::ElementFacts;
use vibe_extract::capture::{PickedElement, ScreenPoint, ScreenRect};
use vibe_extract::cdp::ProbeHit;
use vibe_extract::click::{
    accepts_hit, after_retry, anchor_click, choose_target, crop_name, is_foreign,
    is_synthetic_click, largest_window_bounds_for_pid, owning_window, retry_due, selected_text,
    target_label,
};
use vibe_extract::freeze::{FreezeEvent, Freezer, Signals};
use vibe_extract::hover::{
    crosshair, descend_point, hovered_element, look, look_again, on_screen, step_up, walk_down,
    walk_up,
    walked_payload, ProbeTracker, WalkError,
};
use vibe_extract::json::{Json, JsonNumber};
use vibe_extract::mcp::answers::selection_answer;
use vibe_extract::mcp::selection::{commit_pick, picked_json, selection_json};
use vibe_extract::session::{ClickError, ExportClaim, PickSession, StartClaim, WidenStep};
use vibe_extract::windows_list::WindowInfo;

fn rect(x: i64, y: i64, w: i64, h: i64) -> ScreenRect {
    ScreenRect { x: x * 64, y: y * 64, w: w * 64, h: h * 64 }
}

fn point(x: i64, y: i64) -> ScreenPoint {
    ScreenPoint { x: x * 64, y: y * 64 }
}

fn picked(role: &str, pid: i32, crop: Option<&str>) -> PickedElement {
    PickedElement {
        role: role.to_string(),
        subrole: None,
        name: String::new(),
        identifier: None,
        bounds: rect(10, 20, 30, 40),
        pid,
        app_path: None,
        window_title: None,
        window_bounds: None,
        click: None,
        ax_shallow: false,
        crop_path: crop.map(|c| c.to_string()),
        ax_tree: None,
    }
}

fn facts(role: Option<&str>, r: Option<ScreenRect>) -> ElementFacts {
    ElementFacts {
        role: role.map(|s| s.to_string()),
        subrole: None,
        title: None,
        description: None,
        label: None,
        value: Some("v".to_string()),
        identifier: None,
        rect: r,
        window_title: None,
        window_rect: None,
        child_count: 0,
    }
}

// --- the session ---

#[test]
fn a_double_press_starts_once() {
    let mut s = PickSession::new();
    assert_eq!(s.claim_start(), StartClaim::Start { stop_first: false });
    assert_eq!(s.claim_start(), StartClaim::Ignored);
    s.begin(Some(5), None, None);
    s.start_settled();
    assert!(s.is_active());
    assert_eq!(s.target(), Some(5));
    assert_eq!(s.claim_start(), StartClaim::Start { stop_first: true });
}

#[test]
fn the_export_key_starts_picking_where_nothing_is_there_to_export() {
    let mut s = PickSession::new();
    assert_eq!(s.claim_export(), ExportClaim::AutoStart);
    assert_eq!(s.claim_export(), ExportClaim::AlreadyStarting);
    s.start_settled();
    assert_eq!(s.claim_export(), ExportClaim::AutoStart);
    s.begin(None, None, None);
    s.start_settled();
    assert_eq!(s.claim_export(), ExportClaim::Export { was_active: true });
    s.commit(picked("AXButton", 5, None), false).unwrap();
    s.suspend();
    assert_eq!(s.claim_export(), ExportClaim::Export { was_active: false });
    assert_eq!(s.selection().len(), 1);
}

#[test]
fn a_selection_is_of_one_app() {
    let mut s = PickSession::new();
    let e = s.commit(picked("AXButton", 5, None), false).unwrap_err();
    assert_eq!(e, ClickError::NotActive);
    assert_eq!(e.message(), "pick mode not active");
    s.begin(Some(5), None, None);
    assert!(s.commit(picked("AXButton", 5, Some("a.png")), true).unwrap().is_empty());
    assert!(s.commit(picked("AXImage", 5, None), true).unwrap().is_empty());
    let e = s.commit(picked("AXLink", 6, None), true).unwrap_err();
    assert_eq!(e, ClickError::CrossApp(5));
    assert_eq!(
        e.message(),
        "Cross-app selection not allowed (locked to pid 5). Press Escape to start over."
    );
    assert_eq!(s.selection().iter().map(|p| p.role.clone()).collect::<Vec<_>>(), ["AXButton", "AXImage"]);
    // Without shift the click replaces the selection, of any app, and drops its crops.
    assert_eq!(s.commit(picked("AXLink", 6, Some("b.png")), false).unwrap(), ["a.png"]);
    assert_eq!(s.selection().len(), 1);
    assert_eq!(s.commit(picked("AXLink", 5, None), true).unwrap_err(), ClickError::CrossApp(6));
}

#[test]
fn what_was_committed_is_what_the_tool_reports() {
    let mut s = PickSession::new();
    assert_eq!(
        commit_pick(&mut s, picked("AXButton", 5, None), false).unwrap_err(),
        ClickError::NotActive
    );
    s.begin(Some(5), None, None);
    let first = commit_pick(&mut s, picked("AXButton", 5, Some("a.png")), false).unwrap();
    assert!(first.dropped.is_empty());
    let both = commit_pick(&mut s, picked("AXImage", 5, None), true).unwrap();
    assert!(both.dropped.is_empty());
    assert_eq!(format!("{:?}", both.stored), format!("{:?}", selection_json(&s.selection())));
    let answer = selection_answer(true, Some(both.stored), Some(3));
    assert!(matches!(answer.get("present"), Some(Json::Bool(true))));
    assert_eq!(answer.get("count").and_then(|n| n.as_u64()), Some(2));
    match answer.get("elements") {
        Some(Json::List(l)) => {
            assert_eq!(l[0].get_str("role"), Some("AXButton"));
            assert_eq!(l[0].get_str("crop_path"), Some("a.png"));
            assert_eq!(l[1].get_str("role"), Some("AXImage"));
            assert!(matches!(l[1].get("crop_path"), Some(Json::Null)));
        }
        other => panic!("{other:?}"),
    }
    assert_eq!(
        commit_pick(&mut s, picked("AXLink", 6, None), true).unwrap_err(),
        ClickError::CrossApp(5)
    );
    let last = commit_pick(&mut s, picked("AXLink", 6, None), false).unwrap();
    assert_eq!(last.dropped, ["a.png"]);
    assert!(matches!(last.stored, Json::List(ref l) if l.len() == 1));
    // Without a file, or with one that is no JSON, nothing is present.
    for answer in [selection_answer(false, None, None), selection_answer(true, None, Some(1))] {
        assert!(matches!(answer.get("present"), Some(Json::Bool(false))));
        assert_eq!(answer.get("count").and_then(|n| n.as_u64()), Some(0));
        assert!(matches!(answer.get("elements"), Some(Json::List(l)) if l.is_empty()));
    }
}

#[test]
fn an_element_is_kept_with_all_that_is_known_of_it() {
    let mut p = picked("AXRow", -1, None);
    p.click = Some(point(3, 4));
    p.window_bounds = Some(rect(1, 2, 3, 4));
    p.subrole = Some("s".to_string());
    p.ax_tree = Some("{}".to_string());
    p.ax_shallow = true;
    let j = picked_json(&p);
    let units = |v: Option<&Json>| match v {
        Some(Json::Number(JsonNumber::Units(u))) => Some(*u),
        _ => None,
    };
    assert_eq!(units(j.get("click").and_then(|c| c.get("y"))), Some(4 * 64));
    assert_eq!(units(j.get("window_bounds").and_then(|c| c.get("w"))), Some(3 * 64));
    assert_eq!(units(j.get("bounds").and_then(|c| c.get("h"))), Some(p.bounds.h));
    assert!(matches!(j.get("pid"), Some(Json::Number(JsonNumber::Negative(-1)))));
    assert!(matches!(picked_json(&picked("AXRow", 7, None)).get("pid"), Some(Json::Number(JsonNumber::Whole(7)))));
    assert_eq!((j.get_str("subrole"), j.get_str("ax_tree")), (Some("s"), Some("{}")));
    assert!(matches!(j.get("ax_shallow"), Some(Json::Bool(true))));
    let keys: Vec<&str> = match &j {
        Json::Object(m) => m.iter().map(|(k, _)| k.as_str()).collect(),
        other => panic!("{other:?}"),
    };
    assert_eq!(
        keys,
        [
            "role", "subrole", "name", "identifier", "bounds", "pid", "app_path", "window_title",
            "window_bounds", "click", "ax_shallow", "crop_path", "ax_tree",
        ]
    );
}

#[test]
fn stopping_drops_the_selection_and_exporting_readies_the_next() {
    let mut s = PickSession::new();
    s.begin(Some(5), None, None);
    s.commit(picked("AXButton", 5, None), false).unwrap();
    s.set_hover(Some(picked("AXButton", 5, None)));
    s.after_export();
    assert!(s.is_active());
    assert!(s.selection().is_empty() && s.hover().is_none());
    s.commit(picked("AXButton", 5, None), false).unwrap();
    s.stop();
    assert!(!s.is_active() && s.selection().is_empty());
    // After a stop any app may be picked in.
    s.begin(None, None, None);
    assert!(s.commit(picked("AXLink", 9, None), true).is_ok());
}

#[test]
fn a_click_takes_what_is_outlined_only_where_it_is_of_the_target() {
    let mut s = PickSession::new();
    s.begin(Some(5), None, None);
    assert!(s.cached_hover(1).is_none());
    s.set_hover(Some(picked("AXButton", 5, None)));
    assert_eq!(s.cached_hover(1).unwrap().role, "AXButton");
    assert!(s.cached_hover(5).is_none());
    s.set_hover(Some(picked("AXButton", 6, None)));
    assert!(s.cached_hover(1).is_none());
    s.begin(None, None, None);
    s.set_hover(Some(picked("AXButton", 6, None)));
    assert!(s.cached_hover(1).is_some());
}

#[test]
fn a_process_is_woken_once_per_session() {
    let mut s = PickSession::new();
    s.begin(None, None, None);
    assert!(s.needs_wake(7));
    assert!(!s.needs_wake(7));
    assert!(!s.needs_wake(-1));
    assert!(!s.needs_wake(0));
    s.note_woken(8);
    assert!(!s.needs_wake(8));
    s.begin(None, None, None);
    assert!(s.needs_wake(7));
}

#[test]
fn arrows_widen_an_electron_hover_and_walk_other_trees() {
    let mut s = PickSession::new();
    assert_eq!(s.widen(true), WidenStep::NotActive);
    s.begin(Some(5), None, None);
    assert_eq!(s.widen(true), WidenStep::WalkTree);
    s.begin(Some(5), Some(9222), Some(rect(0, 0, 10, 10)));
    assert_eq!(s.widen(false), WidenStep::Adjusted);
    assert_eq!(s.probe_target(), Some((9222, rect(0, 0, 10, 10), 0)));
    s.widen(true);
    s.widen(true);
    s.widen(false);
    assert_eq!(s.probe_target(), Some((9222, rect(0, 0, 10, 10), 1)));
    s.begin(Some(5), Some(9222), None);
    assert_eq!(s.probe_target(), None);
}

// --- clicks ---

#[test]
fn the_target_is_the_app_in_front_that_is_not_us() {
    assert_eq!(choose_target(Some(2), Some(3), Some(4), 1), Some(2));
    assert_eq!(choose_target(Some(1), Some(3), Some(4), 1), Some(3));
    assert_eq!(choose_target(Some(1), Some(1), Some(4), 1), Some(4));
    assert_eq!(choose_target(None, None, None, 1), None);
    assert!(is_foreign(2, 1) && !is_foreign(1, 1) && !is_foreign(-1, 1) && !is_foreign(0, 1));
    assert_eq!(target_label(&Some("Slack".to_string()), Some(3)), "Slack");
    assert_eq!(target_label(&None, Some(3)), "pid 3");
    assert_eq!(target_label(&None, None), "pid -1");
}

fn win(pid: i32, id: u32, layer: i32, b: ScreenRect) -> WindowInfo {
    WindowInfo { pid, app_name: String::new(), title: String::new(), bounds: b, window_id: id, layer }
}

#[test]
fn the_largest_window_gives_the_page_origin() {
    let windows = vec![
        win(1, 1, 0, rect(0, 0, 10, 10)),
        win(1, 2, 0, rect(5, 5, 20, 10)),
        win(2, 3, 0, rect(0, 0, 99, 99)),
        win(1, 4, 0, rect(7, 7, 10, 20)),
        win(1, 5, 0, ScreenRect { x: 0, y: 0, w: 63, h: 64000 }),
    ];
    // The last of equally large ones.
    assert_eq!(largest_window_bounds_for_pid(&windows, 1), Some(rect(7, 7, 10, 20)));
    assert_eq!(largest_window_bounds_for_pid(&windows, 3), None);
}

#[test]
fn clicks_at_the_very_origin_are_not_the_users() {
    assert!(is_synthetic_click(ScreenPoint { x: 0, y: 0 }));
    assert!(is_synthetic_click(ScreenPoint { x: -63, y: 63 }));
    assert!(!is_synthetic_click(ScreenPoint { x: 64, y: 0 }));
    assert!(!is_synthetic_click(ScreenPoint { x: 0, y: -64 }));
}

#[test]
fn hits_of_other_processes_are_refused() {
    assert!(accepts_hit(Some(5), Some(5), 1));
    assert!(!accepts_hit(Some(6), Some(5), 1));
    assert!(!accepts_hit(None, Some(5), 1));
    assert!(!accepts_hit(Some(1), Some(1), 1));
    assert!(accepts_hit(Some(6), None, 1));
    assert!(!accepts_hit(Some(1), None, 1));
    assert!(accepts_hit(None, None, 1));
}

#[test]
fn a_shallow_click_is_retried_and_boxed() {
    let mut p = picked("AXMenuBar", 5, None);
    assert!(!retry_due(&p));
    p.ax_shallow = true;
    assert!(retry_due(&p));
    p.pid = -1;
    assert!(!retry_due(&p));
    let mut better = picked("AXButton", 5, None);
    assert_eq!(after_retry(p.clone(), Some(better.clone())).role, "AXButton");
    better.ax_shallow = true;
    assert_eq!(after_retry(p.clone(), Some(better)).role, "AXMenuBar");
    assert_eq!(after_retry(p.clone(), None).role, "AXMenuBar");
    let boxed = anchor_click(p, point(150, 400));
    assert_eq!(boxed.bounds, rect(60, 376, 180, 48));
    assert_eq!(boxed.bounds.center(), point(150, 400));
    assert_eq!(boxed.click, Some(point(150, 400)));
    let real = anchor_click(picked("AXButton", 5, None), point(1, 1));
    assert_eq!(real.bounds, rect(10, 20, 30, 40));
    assert_eq!(real.click, Some(point(1, 1)));
}

#[test]
fn the_owning_window_is_found_layer_by_layer() {
    let elem = rect(10, 10, 10, 10);
    let normal = win(1, 1, 0, rect(0, 0, 100, 100));
    let menu = win(1, 2, 101, rect(0, 0, 50, 50));
    let away = win(1, 3, 0, rect(500, 500, 9, 9));
    let panel = win(1, 4, 3, rect(500, 500, 9, 9));
    let ids = |v: Vec<WindowInfo>| owning_window(&v, 1, elem).map(|w| w.0);
    let copy = |w: &WindowInfo| win(w.pid, w.window_id, w.layer, w.bounds);
    assert_eq!(ids(vec![copy(&menu), copy(&away), copy(&normal)]), Some(1));
    assert_eq!(ids(vec![copy(&away), copy(&menu)]), Some(2));
    assert_eq!(ids(vec![copy(&panel), copy(&away)]), Some(3));
    assert_eq!(ids(vec![copy(&panel)]), Some(4));
    assert_eq!(ids(vec![win(2, 9, 0, rect(0, 0, 100, 100))]), None);
}

#[test]
fn names_and_answers_of_a_click() {
    assert_eq!(crop_name(77, 1700000000000, 3), "pick-crop-77-1700000000000-3.png");
    assert_eq!(crop_name(-7, 1, 13), "pick-crop--7-1-13.png");
    assert_ne!(crop_name(7, 1, 13), crop_name(7, 11, 3));
    assert_eq!(selected_text(2, "AXButton"), "selected 2 (AXButton)");
}

// --- hovering ---

fn hit(role: &str, label: &str) -> ProbeHit {
    ProbeHit {
        x: 64,
        y: 128,
        w: 640,
        h: 320,
        role: role.to_string(),
        tag: "div".to_string(),
        label: label.to_string(),
    }
}

#[test]
fn the_page_is_probed_only_after_a_real_move() {
    let w = rect(100, 100, 50, 50);
    let mut t = ProbeTracker::new();
    assert_eq!(t.tick(point(110, 120), &w, 0), Some((640, 1280)));
    assert_eq!(t.tick(point(113, 117), &w, 0), None);
    assert_eq!(t.tick(point(114, 120), &w, 0), Some((896, 1280)));
    assert_eq!(t.tick(point(114, 120), &w, 1), Some((896, 1280)));
    // Outside the window nothing is probed, but the place is remembered.
    assert_eq!(t.tick(point(10, 10), &w, 1), None);
    assert_eq!(t.tick(point(10, 10), &w, 1), None);
    assert_eq!(t.tick(point(150, 150), &w, 1), Some((3200, 3200)));
    assert_eq!(t.tick(point(151, 155), &w, 1), None);
}

#[test]
fn a_probe_outlines_what_it_found_or_keeps_the_outline() {
    let w = rect(100, 100, 50, 50);
    let mut t = ProbeTracker::new();
    let (payload, p) = t.found(None, w, point(5, 5), None, None);
    assert!(p.is_none() && payload.bounds.is_none());
    let (payload, p) = t.found(Some(hit("", "")), w, point(5, 5), Some(9), Some("/x".to_string()));
    let p = p.unwrap();
    assert_eq!(payload.bounds, Some(rect(101, 102, 10, 5)));
    assert_eq!((payload.role.as_str(), payload.name.as_str()), ("dom:div", "div"));
    assert_eq!((p.role.as_str(), p.name.as_str(), p.pid), ("dom:div", "div", 9));
    assert_eq!(p.bounds, rect(101, 102, 10, 5));
    assert_eq!(p.window_bounds, Some(w));
    assert_eq!(p.click, Some(point(5, 5)));
    assert_eq!(p.app_path.as_deref(), Some("/x"));
    let (_, p) = t.found(Some(hit("button", "Send")), w, point(5, 5), None, None);
    let p = p.unwrap();
    assert_eq!((p.role.as_str(), p.name.as_str(), p.pid), ("button", "Send", -1));
    let (payload, p) = t.found(None, w, point(6, 6), None, None);
    assert!(p.is_none());
    assert_eq!(payload.bounds, Some(rect(101, 102, 10, 5)));
    assert_eq!((payload.role.as_str(), payload.name.as_str()), ("", ""));
    assert_eq!(payload.cursor, point(6, 6));
}

#[test]
fn a_look_outlines_and_keeps_what_a_click_takes() {
    let mut s = PickSession::new();
    s.begin(Some(5), None, None);
    let (payload, wake) = look(&mut s, &Some(facts(Some("AXButton"), Some(rect(0, 0, 10, 10)))), point(5, 5), 5, None);
    assert!(wake);
    assert_eq!((payload.role.as_str(), payload.name.as_str()), ("AXButton", "v"));
    let h = s.cached_hover(1).unwrap();
    assert_eq!((h.role.as_str(), h.name.as_str(), h.bounds), ("AXButton", "v", rect(0, 0, 10, 10)));
    assert!(!h.ax_shallow);
    // An element without bounds is shown, but a click still takes the one before.
    let (payload, wake) = look(&mut s, &Some(facts(None, None)), point(5, 5), 5, None);
    assert!(!wake && payload.bounds.is_none() && payload.role.is_empty());
    assert_eq!(s.hover().unwrap().role, "AXButton");
    // Nothing under the cursor: a click takes nothing.
    let (payload, wake) = look(&mut s, &None, point(7, 7), 5, None);
    assert!(!wake && payload.bounds.is_none());
    assert_eq!(payload.cursor, point(7, 7));
    assert!(s.hover().is_none());
    assert!(hovered_element(&facts(None, None), point(0, 0), 1, None).is_none());
}

#[test]
fn a_second_look_prefers_what_it_finds() {
    let first = crosshair(point(1, 1));
    let again = look_again(&Some(facts(Some("AXGroup"), Some(rect(0, 0, 1, 1)))), point(2, 2), first);
    assert_eq!((again.role.as_str(), again.name.as_str()), ("AXGroup", ""));
    let kept = look_again(&None, point(3, 3), again);
    assert_eq!((kept.role.as_str(), kept.cursor), ("AXGroup", point(2, 2)));
    assert!(on_screen(point(0, 0)) && !on_screen(ScreenPoint { x: -1, y: 0 }));
}

#[test]
fn arrow_up_goes_to_the_row_before_the_parent() {
    let mut current = picked("AXButton", 5, Some("c.png"));
    current.bounds = rect(10, 10, 20, 10);
    current.click = Some(point(12, 12));
    current.subrole = Some("s".to_string());
    let row = vec![
        Some(rect(10, 10, 20, 10)),
        None,
        Some(rect(40, 11, 20, 10)),
        Some(rect(70, 9, 20, 10)),
        Some(rect(10, 60, 200, 10)),
    ];
    let parent = Some(facts(Some("AXWindow"), Some(rect(0, 0, 400, 300))));
    let p = step_up(&current, &row, &parent, Some(5), 1, None).unwrap();
    assert_eq!(p.bounds, rect(10, 9, 80, 12));
    assert_eq!((p.role.as_str(), p.name.as_str(), p.pid), ("AXGroup", "", 5));
    assert_eq!((p.click, p.subrole, p.crop_path), (Some(point(12, 12)), None, None));
    // From the row it goes on to the parent.
    let mut outlined = picked("AXGroup", 5, None);
    outlined.bounds = rect(10, 9, 80, 12);
    let p = step_up(&outlined, &row, &parent, Some(5), 1, None).unwrap();
    assert_eq!((p.role.as_str(), p.bounds), ("AXWindow", rect(0, 0, 400, 300)));
    // Without a row, or with one that is the parent, it goes to the parent.
    let p = step_up(&current, &vec![Some(current.bounds)], &parent, Some(5), 1, None).unwrap();
    assert_eq!(p.role, "AXWindow");
    let tight = Some(facts(Some("AXToolbar"), Some(rect(10, 9, 80, 12))));
    let p = step_up(&current, &row, &tight, Some(5), 1, None).unwrap();
    assert_eq!(p.role, "AXToolbar");
    assert!(matches!(step_up(&current, &row, &None, None, 1, None), Err(WalkError::AtRoot)));
    assert!(matches!(step_up(&current, &row, &parent, Some(1), 1, None), Err(WalkError::OwnProcess)));
    let flat = Some(facts(Some("AXGroup"), None));
    assert!(step_up(&current, &row, &flat, Some(5), 1, None).is_ok());
    assert!(matches!(
        step_up(&current, &vec![], &flat, Some(5), 1, None),
        Err(WalkError::NoParentBounds(_))
    ));
}

#[test]
fn arrow_up_goes_to_a_usable_parent() {
    let current = picked("AXButton", 5, None);
    assert!(matches!(walk_up(&current, &None, Some(5), 1, None), Err(WalkError::AtRoot)));
    let flat = Some(facts(Some("AXGroup"), Some(ScreenRect { x: 0, y: 0, w: 63, h: 99 })));
    let e = walk_up(&current, &flat, Some(5), 1, None).unwrap_err();
    assert_eq!(e.message(), "parent AXGroup has no usable bounds — staying at current");
    let parent = Some(facts(Some("AXGroup"), Some(rect(0, 0, 100, 100))));
    let e = walk_up(&current, &parent, Some(1), 1, None).unwrap_err();
    assert_eq!(e.message(), "parent is in our own process — refusing to walk");
    let p = walk_up(&current, &parent, Some(5), 1, None).unwrap();
    assert_eq!((p.role.as_str(), p.bounds, p.pid, p.ax_shallow), ("AXGroup", rect(0, 0, 100, 100), 5, false));
    let shown = walked_payload(&p, point(3, 3));
    assert_eq!(shown.bounds, Some(rect(0, 0, 100, 100)));
    assert_eq!(WalkError::AtRoot.message(), "already at AX root — can't go higher");
}

#[test]
fn arrow_down_goes_to_something_smaller() {
    let current = picked("AXGroup", 5, None);
    let e = walk_down(&current, &facts(Some("AXImage"), None), Some(5), None).unwrap_err();
    assert_eq!(e.message(), "child AXImage has no bounds");
    let same = facts(Some("AXGroup"), Some(rect(0, 0, 30, 40)));
    let e = walk_down(&current, &same, Some(5), None).unwrap_err();
    assert_eq!(e.message(), "no deeper element under cursor");
    let narrow = facts(Some("AXImage"), Some(rect(10, 20, 29, 90)));
    assert_eq!(walk_down(&current, &narrow, None, None).unwrap().pid, -1);
    assert_eq!(descend_point(&current.bounds, point(15, 25)), point(15, 25));
    assert_eq!(descend_point(&current.bounds, point(0, 0)), point(25, 40));
}

#[test]
fn the_picked_app_is_held_until_the_selection_is_settled() {
    let signals = |resume, suspend| Signals { resume, suspend };
    let mut f = Freezer::new();
    assert_eq!(f.on(FreezeEvent::Look), signals(None, None));
    assert_eq!(f.on(FreezeEvent::Taken { pid: 7 }), signals(None, Some(7)));
    assert!(f.is_holding());
    // It runs while it is looked at.
    assert_eq!(f.on(FreezeEvent::Look), signals(Some(7), None));
    assert!(!f.is_holding());
    assert_eq!(f.held(), Some(7));
    assert_eq!(f.on(FreezeEvent::Looked), signals(None, Some(7)));
    assert_eq!(f.on(FreezeEvent::Looked), signals(None, None));
    // A click in another app holds that one instead.
    assert_eq!(f.on(FreezeEvent::Taken { pid: 7 }), signals(None, None));
    assert_eq!(f.on(FreezeEvent::Taken { pid: 8 }), signals(Some(7), Some(8)));
    assert_eq!(f.on(FreezeEvent::Release), signals(Some(8), None));
    assert_eq!(f.held(), None);
    assert_eq!(f.on(FreezeEvent::Release), signals(None, None));
    assert_eq!(f.on(FreezeEvent::Taken { pid: -1 }), signals(None, None));
    assert!(!f.is_holding());
}
