use vibe_extract::capture::{
    exact_points_text, whole_points_text, PickedElement, ScreenPoint, ScreenRect,
};
use vibe_extract::output::CaptureResult;

fn pt(v: f64) -> i64 {
    (v * 64.0) as i64
}

#[test]
fn rect_contains_point_inclusive() {
    let r = ScreenRect { x: pt(10.0), y: pt(20.0), w: pt(100.0), h: pt(40.0) };
    assert!(r.contains(ScreenPoint { x: pt(50.0), y: pt(30.0) })); // inside
    assert!(r.contains(ScreenPoint { x: pt(10.0), y: pt(20.0) })); // top-left corner
    assert!(r.contains(ScreenPoint { x: pt(110.0), y: pt(60.0) })); // bottom-right corner
    assert!(!r.contains(ScreenPoint { x: pt(5.0), y: pt(30.0) })); // left of
    assert!(!r.contains(ScreenPoint { x: pt(50.0), y: pt(61.0) })); // below
}

#[test]
fn rect_is_valid_from_one_point_on() {
    assert!(ScreenRect { x: 0, y: 0, w: 64, h: 64 }.is_valid());
    assert!(!ScreenRect { x: 0, y: 0, w: 63, h: 64 }.is_valid());
    assert!(!ScreenRect { x: 0, y: 0, w: 64, h: 0 }.is_valid());
}

#[test]
fn rect_center_is_the_middle() {
    let r = ScreenRect { x: pt(10.0), y: pt(-20.0), w: pt(5.0), h: pt(3.0) };
    assert_eq!(r.center(), ScreenPoint { x: pt(12.5), y: pt(-18.5) });
    // A negative extent is halved downwards.
    let odd = ScreenRect { x: 0, y: 0, w: -3, h: 3 };
    assert_eq!(odd.center(), ScreenPoint { x: -2, y: 1 });
    assert_eq!(odd.area(), -9);
}

#[test]
fn whole_points_round_as_formatting_does() {
    for v in [-7.5, -6.5, -1.5, -0.5, -0.25, 0.0, 0.5, 1.5, 2.5, 2.53125, 2.46875, 1440.0] {
        assert_eq!(whole_points_text(pt(v)), format!("{:.0}", v));
    }
}

#[test]
fn exact_points_are_written_as_displayed() {
    for k in -200..200 {
        let v = k as f64 / 64.0;
        assert_eq!(exact_points_text(k), format!("{}", v));
    }
    assert_eq!(exact_points_text(pt(1512.328125)), "1512.328125");
}

#[test]
fn clones_hold_the_same() {
    let p = PickedElement {
        role: "AXButton".to_string(),
        subrole: Some("AXToolbarButton".to_string()),
        name: "Send".to_string(),
        identifier: Some("send".to_string()),
        bounds: ScreenRect { x: 1, y: 2, w: 3, h: 4 },
        pid: 7,
        app_path: Some("/a".to_string()),
        window_title: Some("w".to_string()),
        window_bounds: Some(ScreenRect { x: 5, y: 6, w: 7, h: 8 }),
        click: Some(ScreenPoint { x: 9, y: 10 }),
        ax_shallow: true,
        crop_path: Some("c.png".to_string()),
        ax_tree: Some("{}".to_string()),
    };
    assert_eq!(format!("{:?}", p.clone()), format!("{:?}", p));
}

#[test]
fn an_empty_result_holds_nothing_but_its_labels() {
    let r = CaptureResult::empty("cdp", "Pixel-perfect");
    assert_eq!(r.strategy, "cdp");
    assert_eq!(r.fidelity, "Pixel-perfect");
    assert!(r.toon.is_empty() && r.html.is_empty() && r.diagnostics.is_empty());
    assert!(r.screenshot_png_b64.is_none() && r.ax_tree.is_none());
    assert_eq!(format!("{:?}", r.clone()), format!("{:?}", r));
}
