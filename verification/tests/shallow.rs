use vibe_extract::ax_macos::is_shallow_pick;
use vibe_extract::capture::{ScreenPoint, ScreenRect};

fn pt(v: f64) -> i64 {
    (v * 64.0).round() as i64
}

fn rect(x: f64, y: f64, w: f64, h: f64) -> ScreenRect {
    ScreenRect { x: pt(x), y: pt(y), w: pt(w), h: pt(h) }
}

fn point(x: f64, y: f64) -> ScreenPoint {
    ScreenPoint { x: pt(x), y: pt(y) }
}

#[test]
fn menu_bar_is_shallow_even_when_it_contains_the_click() {
    // A sidebar click that resolves to the menu bar strip.
    let menubar = rect(0.0, 0.0, 1440.0, 30.0);
    assert!(is_shallow_pick("AXMenuBar", &menubar, point(700.0, 10.0), None, 5));
}

#[test]
fn click_outside_bounds_is_shallow() {
    let menubar = rect(0.0, 0.0, 1440.0, 30.0);
    // A click far below the menu bar: the bounds don't contain it.
    assert!(is_shallow_pick("AXMenuBar", &menubar, point(150.0, 400.0), None, 0));
}

#[test]
fn real_button_containing_click_is_not_shallow() {
    let btn = rect(100.0, 380.0, 220.0, 34.0);
    let win = rect(0.0, 25.0, 1440.0, 875.0);
    assert!(!is_shallow_pick("AXButton", &btn, point(150.0, 400.0), Some(&win), 0));
}

#[test]
fn empty_window_sized_element_is_shallow() {
    // One window-filling container with next to no children.
    let win = rect(0.0, 25.0, 1440.0, 875.0);
    let huge = rect(0.0, 25.0, 1440.0, 870.0);
    assert!(is_shallow_pick("AXGroup", &huge, point(150.0, 400.0), Some(&win), 0));
}

#[test]
fn rich_window_sized_native_group_is_not_shallow() {
    // It fills the window but holds twelve grids: a legitimate pick.
    let win = rect(0.0, 25.0, 935.0, 598.0);
    let area = rect(0.0, 25.0, 935.0, 595.0);
    assert!(!is_shallow_pick("AXGroup", &area, point(400.0, 300.0), Some(&win), 12));
}

#[test]
fn nine_tenths_of_the_window_is_the_edge_of_shallow() {
    let win = rect(0.0, 0.0, 100.0, 100.0);
    let at = point(5.0, 5.0);
    assert!(is_shallow_pick("AXGroup", &rect(0.0, 0.0, 100.0, 90.0), at, Some(&win), 2));
    assert!(!is_shallow_pick("AXGroup", &rect(0.0, 0.0, 100.0, 90.0), at, Some(&win), 3));
    assert!(!is_shallow_pick("AXGroup", &rect(0.0, 0.0, 100.0, 89.0), at, Some(&win), 0));
    // A window without extent says nothing.
    assert!(!is_shallow_pick("AXGroup", &rect(0.0, 0.0, 9.0, 9.0), at, Some(&rect(0.0, 0.0, 0.0, 0.0)), 0));
}

#[test]
fn top_level_containers_are_shallow() {
    let r = rect(0.0, 0.0, 10.0, 10.0);
    for role in ["AXMenuBar", "AXMenuBarItem", "AXApplication", "AXWindow"] {
        assert!(is_shallow_pick(role, &r, point(5.0, 5.0), None, 50));
    }
    assert!(!is_shallow_pick("AXSheet", &r, point(5.0, 5.0), None, 0));
}
