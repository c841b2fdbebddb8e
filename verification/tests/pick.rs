use vibe_extract::ax_macos::pick::{
    child_count, needs_rescue, picked_element, prefer_resolved, rect_close, select_window,
    tightest_child, topmost_window_owner_at, AxWindow, Climb, Deepen, ElementFacts, PickError,
    ScreenWindow, Seek, SelectError, WindowSelector, CLIMB_LIMIT, DEEPEN_LIMIT,
};
use vibe_extract::capture::{ScreenPoint, ScreenRect};
use vibe_extract::windows_list::{windows_of, WindowInfo};

fn rect(x: i64, y: i64, w: i64, h: i64) -> ScreenRect {
    ScreenRect { x: x * 64, y: y * 64, w: w * 64, h: h * 64 }
}

fn point(x: i64, y: i64) -> ScreenPoint {
    ScreenPoint { x: x * 64, y: y * 64 }
}

fn facts(role: &str, r: Option<ScreenRect>, children: usize) -> ElementFacts {
    ElementFacts {
        role: Some(role.to_string()),
        subrole: None,
        title: None,
        description: None,
        label: None,
        value: None,
        identifier: None,
        rect: r,
        window_title: None,
        window_rect: None,
        child_count: children,
    }
}

fn window(pid: i32, id: u32, b: ScreenRect) -> WindowInfo {
    WindowInfo { pid, app_name: "a".to_string(), title: "t".to_string(), bounds: b, window_id: id, layer: 0 }
}

#[test]
fn contents_stand_in_for_children() {
    assert_eq!(child_count(3, 9), 3);
    assert_eq!(child_count(0, 9), 9);
}

#[test]
fn the_tightest_child_is_the_smallest_that_covers() {
    let rects = vec![
        Some(rect(0, 0, 10, 10)),
        None,
        Some(rect(4, 4, 2, 2)),
        Some(rect(5, 4, 2, 2)),
        Some(rect(50, 50, 1, 1)),
    ];
    assert_eq!(tightest_child(&rects, point(5, 5)), Some(2));
    assert_eq!(tightest_child(&rects, point(1, 1)), Some(0));
    assert_eq!(tightest_child(&rects, point(99, 99)), None);
}

#[test]
fn a_hit_is_deepened_through_the_tightest_children() {
    let mut d = Deepen::start(point(5, 5), 1);
    let mut asked = vec![];
    while let Some(id) = d.wanted() {
        asked.push(id);
        match id {
            1 => d.supply(&vec![2, 3], &vec![Some(rect(0, 0, 9, 9)), Some(rect(0, 0, 8, 8))]),
            3 => d.supply(&vec![4], &vec![Some(rect(0, 0, 20, 20))]),
            _ => d.supply(&vec![], &vec![]),
        }
    }
    assert_eq!(asked, [1, 3, 4]);
    assert_eq!(d.finish(), 4);
}

#[test]
fn deepening_ends_at_the_limit() {
    let mut d = Deepen::start(point(0, 0), 0);
    let mut steps = 0;
    while let Some(id) = d.wanted() {
        steps += 1;
        d.supply(&vec![id + 1], &vec![Some(rect(0, 0, 1, 1))]);
    }
    assert_eq!(steps, DEEPEN_LIMIT);
    assert_eq!(d.finish(), DEEPEN_LIMIT as u64);
}

fn climb(id: u64, role: &dyn Fn(u64) -> &'static str, parent: &dyn Fn(u64) -> Option<u64>) -> Option<u64> {
    let mut c = Climb::start(id);
    loop {
        match c {
            Climb::At { id, .. } => c = c.step(role(id), parent(id)),
            Climb::Done(r) => return r,
        }
    }
}

#[test]
fn the_enclosing_window_is_the_nearest_one() {
    assert_eq!(climb(1, &|_| "AXWindow", &|_| None), Some(1));
    assert_eq!(climb(1, &|id| if id >= 3 { "AXWindow" } else { "AXGroup" }, &|id| Some(id + 1)), Some(3));
    assert_eq!(climb(1, &|_| "AXGroup", &|id| if id < 4 { Some(id + 1) } else { None }), None);
    // So many parents and no more.
    let far = CLIMB_LIMIT as u64;
    assert_eq!(climb(0, &|id| if id == far { "AXWindow" } else { "AXGroup" }, &|id| Some(id + 1)), Some(far));
    assert_eq!(climb(0, &|id| if id == far + 1 { "AXWindow" } else { "AXGroup" }, &|id| Some(id + 1)), None);
}

#[test]
fn a_shallow_hit_gives_way_to_a_real_one_only() {
    let click = point(5, 5);
    let bar = facts("AXMenuBar", Some(rect(0, 0, 100, 30)), 9);
    let button = facts("AXButton", Some(rect(0, 0, 10, 10)), 0);
    let nowhere = facts("AXButton", None, 0);
    assert!(needs_rescue(&bar, click));
    assert!(needs_rescue(&nowhere, click));
    assert!(!needs_rescue(&button, click));
    assert!(prefer_resolved(&bar, &button, click));
    assert!(!prefer_resolved(&bar, &nowhere, click));
    assert!(!prefer_resolved(&button, &button, click));
}

#[test]
fn a_pick_holds_what_the_app_tells() {
    let mut f = facts("AXButton", Some(rect(1, 2, 3, 4)), 0);
    f.label = Some("L".to_string());
    f.value = Some("V".to_string());
    f.identifier = Some("".to_string());
    f.window_title = Some("".to_string());
    f.window_rect = Some(rect(0, 0, 100, 100));
    let p = picked_element(&f, point(2, 3), 42, Some("/Applications/A.app".to_string())).unwrap();
    assert_eq!(p.role, "AXButton");
    assert_eq!(p.name, "L");
    assert_eq!(p.identifier, None);
    assert_eq!(p.window_title.as_deref(), Some(""));
    assert_eq!(p.window_bounds, Some(rect(0, 0, 100, 100)));
    assert_eq!(p.click, Some(point(2, 3)));
    assert_eq!(p.pid, 42);
    assert!(!p.ax_shallow);
    f.role = None;
    assert_eq!(picked_element(&f, point(0, 0), 1, None).unwrap().role, "AXUnknown");
    assert!(picked_element(&f, point(0, 0), 1, None).unwrap().ax_shallow);
    f.rect = None;
    assert!(picked_element(&f, point(0, 0), 1, None).is_none());
}

#[test]
fn pick_errors_in_words() {
    let p = ScreenPoint { x: 96, y: -64 };
    assert_eq!(PickError::Denied.message(p, Some(1)), "AX permission denied");
    assert_eq!(
        PickError::Denied.message(p, None),
        "AX permission denied — grant Accessibility access in System Settings then retry."
    );
    assert_eq!(PickError::NoElement.message(p, Some(77)), "no AX element at (1.5,-1) in app pid 77");
    assert_eq!(PickError::NoElement.message(p, None), "no AX element at (1.5, -1)");
    assert_eq!(PickError::NoBounds.message(p, Some(1)), "picked element has no bounds");
    assert_eq!(PickError::NoBounds.message(p, None), "element has no bounds");
}

#[test]
fn the_topmost_foreign_window_is_found() {
    let w = |owner: Option<i32>, bounds: Option<ScreenRect>| ScreenWindow { owner, bounds };
    let windows = vec![
        w(Some(1), Some(rect(0, 0, 100, 100))),  // ours
        w(None, Some(rect(0, 0, 100, 100))),     // no owner
        w(Some(-3), Some(rect(0, 0, 100, 100))), // no real owner
        w(Some(5), None),                        // no bounds
        w(Some(5), Some(rect(0, 0, 1, 100))),    // too thin
        w(Some(5), Some(rect(50, 50, 10, 10))),  // elsewhere
        w(Some(7), Some(rect(0, 0, 20, 20))),
        w(Some(8), Some(rect(0, 0, 20, 20))),
    ];
    assert_eq!(topmost_window_owner_at(&windows, point(5, 5), 1), Some((7, rect(0, 0, 20, 20))));
    assert_eq!(topmost_window_owner_at(&windows, point(500, 5), 1), None);
}

#[test]
fn rectangles_within_four_points_are_close() {
    let a = rect(10, 10, 10, 10);
    assert!(rect_close(&a, &ScreenRect { x: a.x + 255, ..a }));
    assert!(!rect_close(&a, &ScreenRect { x: a.x + 256, ..a }));
    assert!(!rect_close(&a, &ScreenRect { h: a.h - 256, ..a }));
}

#[test]
fn a_window_is_selected() {
    let windows = vec![
        AxWindow { id: 11, title: Some("One".to_string()), rect: Some(rect(0, 0, 50, 50)) },
        AxWindow { id: 12, title: Some("Two".to_string()), rect: Some(rect(100, 0, 50, 50)) },
    ];
    let listed = vec![window(1, 900, rect(101, 1, 50, 49))];
    let go = |sel: WindowSelector, main: Option<u64>, focused: Option<u64>| {
        select_window(&sel, main, focused, &windows, &listed)
    };
    assert_eq!(go(WindowSelector::Main, Some(7), Some(8)).unwrap(), 7);
    assert_eq!(go(WindowSelector::Main, None, Some(8)).unwrap(), 8);
    assert_eq!(go(WindowSelector::Main, None, None).unwrap(), 11);
    assert_eq!(go(WindowSelector::Index(1), Some(7), None).unwrap(), 12);
    assert_eq!(go(WindowSelector::Title("Two".to_string()), None, None).unwrap(), 12);
    assert_eq!(go(WindowSelector::WindowId(900), None, None).unwrap(), 12);
    assert_eq!(go(WindowSelector::WindowId(901), None, None).unwrap(), 11);
    let e = go(WindowSelector::Index(2), None, None).unwrap_err();
    assert!(matches!(e, SelectError::OutOfRange(2)));
    assert_eq!(e.message(5, ""), "window index 2 out of range for pid 5");
    let e = go(WindowSelector::Title("Three".to_string()), None, None).unwrap_err();
    assert!(matches!(e, SelectError::NoSuchTitle));
    assert_eq!(e.message(5, "\"Three\""), "no window titled \"Three\" in pid 5");
    let e = select_window(&WindowSelector::Index(0), None, None, &vec![], &listed).unwrap_err();
    assert!(matches!(e, SelectError::NoWindows));
    assert_eq!(
        e.message(5, ""),
        "app pid 5 exposes no AX windows (Electron may need waking, or none are open)"
    );
}

#[test]
fn windows_are_filtered_by_process() {
    let all = || vec![window(1, 10, rect(0, 0, 1, 1)), window(2, 20, rect(0, 0, 1, 1)), window(1, 30, rect(0, 0, 1, 1))];
    let ids = |v: Vec<WindowInfo>| v.iter().map(|w| w.window_id).collect::<Vec<u32>>();
    assert_eq!(ids(windows_of(all(), Some(1))), [10, 30]);
    assert_eq!(ids(windows_of(all(), None)), [10, 20, 30]);
    assert!(windows_of(all(), Some(-1)).is_empty());
}

fn seek(id: u64, bounds: ScreenRect, at: &dyn Fn(u64) -> (Option<ScreenRect>, Option<u64>)) -> Option<u64> {
    let mut s = Seek::start(id);
    loop {
        match s {
            Seek::At { id, .. } => {
                let (rect, parent) = at(id);
                s = s.step(rect, parent, bounds);
            }
            Seek::Done(found) => return found,
        }
    }
}

#[test]
fn the_nearest_element_that_stands_where_the_pick_does_is_found() {
    let bounds = rect(1, 2, 3, 4);
    let chain = |id: u64| match id {
        1 => (Some(rect(0, 0, 1, 1)), Some(2)),
        2 => (None, Some(3)),
        3 => (Some(bounds), Some(4)),
        4 => (Some(bounds), Some(5)),
        _ => (Some(rect(0, 0, 9, 9)), None),
    };
    assert_eq!(seek(1, bounds, &chain), Some(3));
    assert_eq!(seek(4, bounds, &chain), Some(4));
    assert_eq!(seek(5, bounds, &chain), None);
    assert_eq!(seek(1, rect(7, 7, 7, 7), &chain), None);
    // It looks no further up than the limit.
    let last = CLIMB_LIMIT as u64;
    let long = |id: u64| (if id == last { Some(bounds) } else { None }, Some(id + 1));
    assert_eq!(seek(0, bounds, &long), Some(last));
    let longer = |id: u64| (if id == last + 1 { Some(bounds) } else { None }, Some(id + 1));
    assert_eq!(seek(0, bounds, &longer), None);
}
