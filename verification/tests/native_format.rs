use vibe_extract::ax_macos::Node;
use vibe_extract::capture::{PickedElement, ScreenRect};
use vibe_extract::native_format::{
    emit_html, emit_toon, guess_font_size, label_short, render_dom, role_to_html,
};

fn pt(v: f64) -> i64 {
    (v * 64.0).round() as i64
}

fn make_node(role: &str, children: Vec<Node>) -> Node {
    Node {
        role: role.to_string(),
        subrole: None,
        name: String::new(),
        identifier: None,
        value: None,
        role_description: None,
        bounds: Some(ScreenRect { x: 0, y: 0, w: pt(100.0), h: pt(100.0) }),
        bg: None,
        state: vec![],
        min_value: None,
        max_value: None,
        truncated: false,
        child_source: None,
        children,
    }
}

fn make_picked(role: &str, w: f64, h: f64) -> PickedElement {
    PickedElement {
        role: role.to_string(),
        subrole: None,
        name: String::new(),
        identifier: None,
        bounds: ScreenRect { x: 0, y: 0, w: pt(w), h: pt(h) },
        pid: 1234,
        app_path: None,
        window_title: None,
        window_bounds: None,
        click: None,
        ax_shallow: false,
        crop_path: None,
        ax_tree: None,
    }
}

#[test]
fn toon_header_includes_picked_summary_and_capture_target() {
    let root = make_node("AXButton", vec![]);
    let picked = make_picked("AXButton", 48.0, 48.0);
    let out = emit_toon(&root, &vec![], &picked, None);
    assert!(out.contains("- Picked: AXButton"), "missing Picked line: {}", out);
    assert!(
        out.contains("- Capture target: 48 × 48 pt @ (0, 0)"),
        "missing Capture target line: {}", out
    );
    assert!(
        out.contains("- AX nodes captured: 1"),
        "missing AX nodes captured line: {}", out
    );
}

#[test]
fn toon_emits_shallow_tree_note_when_big_bounds_few_nodes() {
    // A huge region with a single node.
    let root = make_node("AXGroup", vec![]);
    let picked = make_picked("AXGroup", 67.0, 658.0);
    let out = emit_toon(&root, &vec![], &picked, None);
    assert!(
        out.contains("## Note — shallow AX tree"),
        "shallow-tree note missing: {}", out
    );
    assert!(
        out.contains("--remote-debugging-port"),
        "shallow-tree note should mention the relaunch fix: {}", out
    );
}

#[test]
fn toon_skips_shallow_note_for_rich_trees() {
    let children: Vec<Node> = (0..10).map(|_| make_node("AXButton", vec![])).collect();
    let root = make_node("AXWindow", children);
    let picked = make_picked("AXWindow", 800.0, 600.0);
    let out = emit_toon(&root, &vec![], &picked, None);
    assert!(
        !out.contains("## Note — shallow AX tree"),
        "shallow-tree note must NOT appear on rich tree: {}", out
    );
}

#[test]
fn toon_skips_shallow_note_for_tiny_bounds() {
    let root = make_node("AXButton", vec![]);
    let picked = make_picked("AXButton", 48.0, 48.0);
    let out = emit_toon(&root, &vec![], &picked, None);
    assert!(
        !out.contains("## Note — shallow AX tree"),
        "shallow-tree note must NOT appear on small bounds: {}", out
    );
}

#[test]
fn toon_picked_includes_subrole_and_name_quotes() {
    let root = make_node("AXButton", vec![]);
    let mut picked = make_picked("AXButton", 48.0, 48.0);
    picked.subrole = Some("AXToolbarButton".to_string());
    picked.name = "Send".to_string();
    let out = emit_toon(&root, &vec![], &picked, None);
    assert!(
        out.contains(r#"- Picked: AXButton:AXToolbarButton "Send""#),
        "subrole+name not formatted: {}", out
    );
}

#[test]
fn html_default_shows_screenshot_at_full_opacity() {
    let root = make_node("AXGroup", vec![]);
    let picked = make_picked("AXGroup", 100.0, 100.0);
    let out = emit_html(&root, "FAKE_B64", picked.bounds);
    assert!(
        out.contains(".ve-bg") && out.contains("opacity: 1;"),
        ".ve-bg must default to opacity: 1 (full visible). Got:\n{}", out
    );
    assert!(
        !out.contains("opacity: 0.30"),
        "old ghost overlay rule (.ve-bg opacity: 0.30) must be removed. Got:\n{}", out
    );
}

#[test]
fn html_default_hides_ax_overlay() {
    let root = make_node("AXGroup", vec![]);
    let picked = make_picked("AXGroup", 100.0, 100.0);
    let out = emit_html(&root, "FAKE_B64", picked.bounds);
    assert!(
        out.contains("body:not(.show-ax) .ve-el { display: none; }"),
        "AX overlay must be hidden by default. Got:\n{}", out
    );
    assert!(
        out.contains(r#"id="toggle-ax""#) && out.contains("Show AX structure overlay"),
        "Toggle checkbox must be 'Show AX structure overlay' with id toggle-ax. Got:\n{}", out
    );
}

#[test]
fn html_embeds_screenshot_base64() {
    let root = make_node("AXGroup", vec![]);
    let picked = make_picked("AXGroup", 100.0, 100.0);
    let out = emit_html(&root, "MY_SCREENSHOT_B64", picked.bounds);
    assert!(
        out.contains(r#"<img class="ve-bg" src="data:image/png;base64,MY_SCREENSHOT_B64">"#),
        "screenshot PNG must be embedded as base64 data URI. Got:\n{}", out
    );
}

#[test]
fn html_old_toggle_ref_no_longer_exists() {
    let root = make_node("AXGroup", vec![]);
    let picked = make_picked("AXGroup", 100.0, 100.0);
    let out = emit_html(&root, "B64", picked.bounds);
    assert!(
        !out.contains("toggle-ref") && !out.contains("show-ref"),
        "toggle-ref / show-ref class names must be gone (toggle-ax / show-ax). Got:\n{}", out
    );
}

#[test]
fn toon_lists_the_tree_with_what_is_known() {
    let mut kid = make_node("AXButton", vec![]);
    kid.name = "Se\"nd".to_string();
    kid.subrole = Some("AXToolbarButton".to_string());
    kid.bg = Some((255, 0, 16));
    kid.bounds = Some(ScreenRect { x: pt(1.5), y: pt(2.0), w: pt(30.0), h: pt(20.0) });
    let root = make_node("AXWindow", vec![kid]);
    let out = emit_toon(&root, &[(255, 0, 16)], &make_picked("AXWindow", 48.0, 48.0), None);
    assert!(out.contains("#ff0010"), "{out}");
    assert!(out.contains("AXButton:AXToolbarButton"), "{out}");
    assert!(out.contains("pos=(2,2) size=(30x20)"), "{out}");
    assert!(out.contains("- AX nodes captured: 2"), "{out}");
}

#[test]
fn html_escapes_what_the_app_says() {
    let mut kid = make_node("AXStaticText", vec![]);
    kid.name = "<script>\"&".to_string();
    let root = make_node("AXGroup", vec![kid]);
    let out = emit_html(&root, "B64", ScreenRect { x: 0, y: 0, w: pt(100.0), h: pt(100.0) });
    assert!(out.contains("&lt;script&gt;&quot;&amp;"), "{out}");
    assert!(!out.contains("<script>\"&"), "{out}");
}

#[test]
fn font_sizes_follow_height_and_role() {
    for k in -500..30000 {
        let height = k as f64 / 64.0;
        let text = format!("{:.0}px", (height / 1.3).round().max(10.0));
        assert_eq!(guess_font_size("AXStaticText", k), text, "{height}");
        assert_eq!(guess_font_size("AXHeading", k), text, "{height}");
        let button = format!("{:.0}px", ((height - 16.0) / 1.3).max(11.0));
        assert_eq!(guess_font_size("AXButton", k), button, "{height}");
        assert_eq!(guess_font_size("AXLink", k), button, "{height}");
    }
    assert_eq!(guess_font_size("AXGroup", 6400), "");
}

#[test]
fn roles_become_tags() {
    for (role, tag, class) in [
        ("AXButton", "button", "ve-button"), ("AXCheckBox", "button", "ve-button"),
        ("AXDecrementor", "button", "ve-button"), ("AXHeading", "span", "ve-text"),
        ("AXSearchField", "input", "ve-input"), ("AXLink", "a", "ve-link"),
        ("AXIcon", "img", "ve-image"), ("AXCell", "div", "ve-group"), ("AXOdd", "div", "ve-group"),
    ] {
        assert_eq!(role_to_html(role), (tag, class));
    }
}

#[test]
fn labels_are_short() {
    let mut n = make_node("AXGroup", vec![]);
    assert_eq!(label_short(&n), "AXGroup");
    n.name = "é".repeat(60);
    assert_eq!(label_short(&n), "é".repeat(40));
}

#[test]
fn html_places_elements_from_the_corner_of_the_capture() {
    let mut text = make_node("AXStaticText", vec![]);
    text.value = Some("v".to_string());
    text.bounds = Some(ScreenRect { x: pt(110.0), y: pt(220.0), w: pt(30.0), h: pt(26.0) });
    text.bg = Some((10, 20, 30));
    let mut unplaced = make_node("AXGroup", vec![text]);
    unplaced.bounds = None;
    let mut root = make_node("AXGroup", vec![unplaced]);
    root.bounds = Some(ScreenRect { x: pt(100.0), y: pt(200.0), w: pt(300.0), h: pt(100.0) });
    let out = emit_html(&root, "B64", root.bounds.unwrap());
    assert!(
        out.contains("<span class=\"ve-el ve-text\" data-role=\"AXStaticText\" style=\"left:10px; top:20px; width:30px; height:26px; background-color: rgb(10, 20, 30); color: #fff; font-size: 20px;\">v</span>\n"),
        "{out}"
    );
}

#[test]
fn html_puts_the_children_of_a_placeless_node_in_its_place() {
    let button = |x: f64| {
        let mut b = make_node("AXButton", vec![]);
        b.bounds = Some(ScreenRect { x: pt(x), y: 0, w: pt(10.0), h: pt(10.0) });
        b
    };
    let at = ScreenRect { x: 0, y: 0, w: pt(100.0), h: pt(100.0) };
    let plain = make_node("AXGroup", vec![button(1.0), button(2.0), button(3.0), button(4.0)]);
    let expected = emit_html(&plain, "B64", at);
    for bounds in [
        None,
        Some(ScreenRect { x: 0, y: 0, w: pt(0.5), h: pt(50.0) }),
        Some(ScreenRect { x: 0, y: 0, w: pt(50.0), h: pt(0.5) }),
    ] {
        let mut placeless = make_node("AXGroup", vec![button(2.0), button(3.0)]);
        placeless.bounds = bounds;
        let nested = make_node("AXGroup", vec![button(1.0), placeless, button(4.0)]);
        assert_eq!(emit_html(&nested, "B64", at), expected);
        let placeless = &nested.children[1];
        let mut whole = "x".to_string();
        render_dom(placeless, &at, &mut whole, "  ");
        let mut parts = "x".to_string();
        for kid in &placeless.children {
            render_dom(kid, &at, &mut parts, "  ");
        }
        assert_eq!(whole, parts);
    }
}

#[test]
fn text_on_a_colour_follows_its_luminance_in_doubles() {
    let white = |r: u8, g: u8, b: u8| {
        let mut n = make_node("AXStaticText", vec![]);
        n.bg = Some((r, g, b));
        emit_html(&n, "B64", n.bounds.unwrap()).contains("color: #fff;")
    };
    // Its exact luminance is 128; the doubles add up to less.
    assert!(white(8, 200, 72));
    for r in (0..=255u8).step_by(5) {
        for g in (0..=255u8).step_by(3) {
            let rest = 128_000 - 299 * r as i64 - 587 * g as i64;
            let b = (rest / 114).clamp(0, 255) as u8;
            let lum = 0.299 * r as f64 + 0.587 * g as f64 + 0.114 * b as f64;
            assert_eq!(white(r, g, b), lum < 128.0, "{r} {g} {b}");
        }
    }
    let mut met = 0;
    for r in 0..=255u8 {
        for g in 0..=255u8 {
            let rest = 128_000 - 299 * r as i64 - 587 * g as i64;
            if rest >= 0 && rest % 114 == 0 && rest / 114 <= 255 {
                let b = (rest / 114) as u8;
                let lum = 0.299 * r as f64 + 0.587 * g as f64 + 0.114 * b as f64;
                assert_eq!(white(r, g, b), lum < 128.0, "{r} {g} {b}");
                met += 1;
            }
        }
    }
    assert_eq!(met, 111);
}
