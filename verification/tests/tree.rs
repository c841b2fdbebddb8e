use vibe_extract::ax_macos::attrs::{element_rect, value_text, Fetched, NodeAttrs, RawValue, SingleAttrs};
use vibe_extract::ax_macos::band::sibling_band;
use vibe_extract::ax_macos::children::ChildScan;
use vibe_extract::ax_macos::resolve::{Found, Resolve, RESOLVE_BUDGET};
use vibe_extract::ax_macos::walk::{child_cap, is_whole, Walk, OPAQUE_WEB, WALK_NODE_BUDGET};
use vibe_extract::ax_macos::{count_nodes, Node};
use vibe_extract::capture::{ScreenPoint, ScreenRect};

fn rect(x: i64, y: i64, w: i64, h: i64) -> ScreenRect {
    ScreenRect { x: x * 64, y: y * 64, w: w * 64, h: h * 64 }
}

fn point(x: i64, y: i64) -> ScreenPoint {
    ScreenPoint { x: x * 64, y: y * 64 }
}

fn attrs(role: &str) -> NodeAttrs {
    NodeAttrs {
        role: Some(role.to_string()),
        subrole: None,
        title: None,
        description: None,
        label: None,
        value: None,
        identifier: None,
        role_description: None,
        position: None,
        size: None,
        focused: None,
        selected: None,
        enabled: None,
        expanded: None,
        min_value: None,
        max_value: None,
    }
}

/// Walk a tree in which element `id` has the given role and children.
fn walk(root: u64, depth: u32, answer: &dyn Fn(u64) -> (&'static str, Vec<u64>)) -> Node {
    let mut w = Walk::start(root, depth);
    while let Some((id, kids_wanted)) = w.wanted() {
        let (role, kids) = answer(id);
        let mut a = attrs(role);
        a.title = Some(id.to_string());
        w.supply(Fetched::Batch(a), if kids_wanted { kids } else { vec![] }, None);
    }
    w.finish().unwrap()
}

fn names(n: &Node) -> Vec<String> {
    let mut out = vec![n.name.clone()];
    for k in &n.children {
        out.extend(names(k));
    }
    out
}

fn depth_of(n: &Node) -> usize {
    n.children.iter().map(|k| 1 + depth_of(k)).max().unwrap_or(0)
}

#[test]
fn a_walk_emits_each_element_once_though_relations_loop() {
    // 1 → 2, 3; 2 → 3, 1; 3 → 2.
    let tree = walk(1, 10, &|id| match id {
        1 => ("AXWindow", vec![2, 3]),
        2 => ("AXGroup", vec![3, 1]),
        _ => ("AXGroup", vec![2]),
    });
    assert_eq!(names(&tree), ["1", "2", "3"]);
    assert_eq!(tree.children.len(), 1);
    assert_eq!(tree.children[0].children[0].name, "3");
    assert_eq!(count_nodes(&tree), 3);
    assert!(!tree.truncated);
}

#[test]
fn a_walk_keeps_the_depth() {
    let endless = |id: u64| ("AXGroup", vec![id + 1]);
    assert_eq!(depth_of(&walk(1, 0, &endless)), 0);
    assert_eq!(depth_of(&walk(1, 5, &endless)), 5);
}

#[test]
fn children_beyond_the_cap_are_dropped_and_marked() {
    let tree = walk(1, 1, &|id| match id {
        1 => ("AXButton", (2..53).collect()),
        _ => ("AXImage", vec![]),
    });
    assert_eq!(tree.children.len(), 50);
    assert!(tree.truncated);
    let exact = walk(1, 1, &|id| match id {
        1 => ("AXButton", (2..52).collect()),
        _ => ("AXImage", vec![]),
    });
    assert_eq!(exact.children.len(), 50);
    assert!(!exact.truncated);
}

#[test]
fn a_walk_keeps_the_budget() {
    // Every element has 400 fresh children: three levels are far over the budget.
    let tree = walk(1, 3, &|id| ("AXGroup", (0..400).map(|k| id * 400 + k + 1).collect()));
    assert_eq!(count_nodes(&tree), WALK_NODE_BUDGET);
    assert!(tree.truncated);
}

#[test]
fn a_walk_counts_its_root() {
    // The root and as many children as the budget allows besides, over two levels.
    let fits = |id: u64| match id {
        0 => ("AXTable", (1..=10).collect()),
        1..=9 => ("AXTable", (id * 100_000..id * 100_000 + 9_999).collect()),
        10 => ("AXTable", (10 * 100_000..10 * 100_000 + 9_998).collect()),
        _ => ("AXCell", vec![]),
    };
    let tree = walk(0, 3, &fits);
    assert_eq!(count_nodes(&tree), 11 + 9 * 9_999 + 9_998);
    assert_eq!(count_nodes(&tree), WALK_NODE_BUDGET);
    assert!(is_whole(&tree, 3));
    let over = |id: u64| match id {
        10 => ("AXTable", (10 * 100_000..10 * 100_000 + 9_999).collect()),
        _ => fits(id),
    };
    let tree = walk(0, 3, &over);
    assert_eq!(count_nodes(&tree), WALK_NODE_BUDGET);
    assert!(!tree.truncated && !tree.children[8].truncated && tree.children[9].truncated);
    assert!(!is_whole(&tree, 3));
}

#[test]
fn a_whole_tree_leaves_nothing_out() {
    let chain = |id: u64| ("AXGroup", if id < 5 { vec![id + 1] } else { vec![] });
    assert!(is_whole(&walk(1, 5, &chain), 5));
    assert!(!is_whole(&walk(1, 4, &chain), 4));
    assert!(!is_whole(&walk(1, 0, &chain), 0));
    let looped = |id: u64| ("AXGroup", vec![id % 3, (id + 1) % 3]);
    assert!(is_whole(&walk(0, 9, &looped), 9));
    let capped = walk(1, 3, &|id| match id {
        1 => ("AXWindow", vec![2]),
        2 => ("AXButton", (100..200).collect()),
        _ => ("AXImage", vec![]),
    });
    assert!(!capped.truncated && capped.children[0].truncated);
    assert!(!is_whole(&capped, 3));
}

#[test]
fn opaque_web_content_is_marked_in_the_tree() {
    let tree = walk(1, 4, &|id| match id {
        1 => ("AXWindow", vec![2, 3]),
        2 => ("AXWebArea", vec![]),
        _ => ("AXGroup", vec![]),
    });
    assert_eq!(tree.children[0].child_source.as_deref(), Some(OPAQUE_WEB));
    assert_eq!(tree.children[0].child_source.as_deref(), Some("empty:web-content-opaque-to-AX (needs CDP)"));
    assert_eq!(tree.children[1].child_source, None);
    // At the depth limit nothing is known of what is below.
    let shallow = walk(1, 0, &|_| ("AXWebArea", vec![]));
    assert_eq!(shallow.child_source, None);
}

#[test]
fn caps_go_by_role() {
    for (role, cap) in [
        ("AXOutline", 10_000), ("AXTable", 10_000), ("AXGrid", 10_000), ("AXBrowser", 10_000),
        ("AXRow", 5_000), ("AXColumn", 5_000), ("AXList", 2_000),
        ("AXMenu", 500), ("AXMenuBar", 500), ("AXMenuBarItem", 500),
        ("AXToolbar", 1_000), ("AXTabGroup", 1_000), ("AXSplitGroup", 1_000),
        ("AXScrollArea", 1_000), ("AXGroup", 1_000),
        ("AXButton", 50), ("AXMenuButton", 50), ("AXStaticText", 50), ("AXTextField", 50),
        ("AXCheckBox", 50), ("AXRadioButton", 50), ("AXImage", 50), ("AXAnything", 1_000),
    ] {
        assert_eq!(child_cap(role), cap, "{role}");
    }
}

#[test]
fn a_node_is_made_of_its_attributes() {
    let mut a = attrs("AXCheckBox");
    a.subrole = Some("".to_string());
    a.description = Some("Mute".to_string());
    a.value = Some("1".to_string());
    a.identifier = Some("mute".to_string());
    a.position = Some(point(3, 4));
    a.size = Some((64, 128));
    a.focused = Some(true);
    a.selected = Some(false);
    a.expanded = Some(true);
    a.enabled = Some(false);
    a.min_value = Some(0.0f64.to_bits());
    let n = Fetched::Batch(a).node();
    assert_eq!(n.role, "AXCheckBox");
    assert_eq!(n.subrole, None);
    assert_eq!(n.name, "Mute");
    assert_eq!(n.value.as_deref(), Some("on"));
    assert_eq!(n.identifier.as_deref(), Some("mute"));
    assert_eq!(n.bounds, Some(rect(3, 4, 1, 2)));
    assert_eq!(n.state, ["focused", "expanded", "disabled"]);
    assert_eq!(n.min_value, Some(0));
    assert_eq!(n.max_value, None);
}

#[test]
fn a_value_that_repeats_the_name_is_left_out() {
    let mut a = attrs("AXTextField");
    a.value = Some("hello".to_string());
    let n = Fetched::Batch(a).node();
    assert_eq!(n.name, "hello");
    assert_eq!(n.value, None);
    let s = SingleAttrs {
        role: None,
        subrole: None,
        title: Some("t".to_string()),
        description: None,
        label: None,
        value: Some("2".to_string()),
        identifier: None,
        role_description: Some("thing".to_string()),
        rect: Some(rect(0, 0, 1, 1)),
    };
    let n = Fetched::Single(s).node();
    assert_eq!(n.role, "AXUnknown");
    assert_eq!(n.value.as_deref(), Some("2"));
    assert_eq!(n.role_description.as_deref(), Some("thing"));
    assert_eq!(n.bounds, Some(rect(0, 0, 1, 1)));
}

#[test]
fn two_state_values_are_in_words() {
    for (role, value, shown) in [
        ("AXRadioButton", "0", "off"),
        ("AXToggleButton", "1", "on"),
        ("AXDisclosureTriangle", "2", "mixed"),
        ("AXCheckBox", "3", "3"),
        ("AXSlider", "1", "1"),
    ] {
        let mut a = attrs(role);
        a.title = Some("x".to_string());
        a.value = Some(value.to_string());
        assert_eq!(Fetched::Batch(a).node().value.as_deref(), Some(shown));
    }
}

#[test]
fn raw_values_are_written_as_text() {
    assert_eq!(value_text(RawValue::Text("a".to_string())).as_deref(), Some("a"));
    assert_eq!(value_text(RawValue::Flag(true)).as_deref(), Some("1"));
    assert_eq!(value_text(RawValue::Flag(false)).as_deref(), Some("0"));
    assert_eq!(value_text(RawValue::Whole(-12)).as_deref(), Some("-12"));
    assert_eq!(value_text(RawValue::Decimal("0.5".to_string())).as_deref(), Some("0.5"));
    assert_eq!(value_text(RawValue::Other), None);
}

#[test]
fn the_frame_comes_before_position_and_size() {
    let f = Some(rect(1, 2, 3, 4));
    assert_eq!(element_rect(f, Some(point(9, 9)), Some((64, 64))), f);
    assert_eq!(element_rect(None, Some(point(9, 9)), Some((64, 64))), Some(rect(9, 9, 1, 1)));
    assert_eq!(element_rect(None, Some(point(9, 9)), None), None);
}

// --- children ---

fn scan(role: &str, answer: &dyn Fn(&str) -> Vec<u64>) -> (Vec<u64>, Option<String>, Vec<String>) {
    let mut s = ChildScan::new(role);
    let mut asked = vec![];
    while let Some(rel) = s.wanted() {
        asked.push(rel.to_string());
        s.supply(answer(rel));
    }
    let (kids, source) = s.finish();
    (kids, source, asked)
}

#[test]
fn visible_children_come_before_children() {
    let (kids, source, asked) = scan("AXGroup", &|rel| match rel {
        "AXVisibleChildren" => vec![3, 1],
        "AXChildren" => vec![9],
        _ => vec![],
    });
    assert_eq!(kids, [3, 1]);
    assert_eq!(source, None);
    assert_eq!(asked, ["AXVisibleChildren"]);
}

#[test]
fn a_role_adds_each_element_once_to_no_children_at_all() {
    let (kids, source, _) = scan("AXWindow", &|rel| match rel {
        "AXSheets" => vec![4, 4, 5, 4],
        _ => vec![],
    });
    assert_eq!(kids, [4, 5]);
    assert_eq!(source.as_deref(), Some("AXChildren+AXSheets"));
    // A relation that stands in for children is taken as it is.
    let (kids, source, _) = scan("AXGroup", &|rel| match rel {
        "AXContents" => vec![4, 4],
        _ => vec![],
    });
    assert_eq!(kids, [4, 4]);
    assert_eq!(source.as_deref(), Some("AXContents"));
}

#[test]
fn a_window_keeps_its_children_and_its_sheets() {
    let (kids, source, asked) = scan("AXWindow", &|rel| match rel {
        "AXChildren" => vec![1, 2],
        "AXSheets" => vec![2, 7],
        _ => vec![],
    });
    assert_eq!(kids, [1, 2, 7]);
    assert_eq!(source.as_deref(), Some("AXChildren+AXSheets"));
    assert_eq!(asked, ["AXVisibleChildren", "AXChildren", "AXSheets"]);
}

#[test]
fn visible_rows_come_before_all_rows() {
    let (kids, source, _) = scan("AXTable", &|rel| match rel {
        "AXChildren" => vec![1],
        "AXVisibleRows" => vec![2],
        "AXRows" => vec![2, 3, 4],
        _ => vec![],
    });
    assert_eq!(kids, [1, 2]);
    assert_eq!(source.as_deref(), Some("AXChildren+AXVisibleRows"));
    // Visible rows that are children already add nothing: all rows are tried.
    let (kids, source, _) = scan("AXTable", &|rel| match rel {
        "AXChildren" => vec![1, 2],
        "AXVisibleRows" => vec![2],
        "AXRows" => vec![2, 3],
        _ => vec![],
    });
    assert_eq!(kids, [1, 2, 3]);
    assert_eq!(source.as_deref(), Some("AXChildren+AXRows"));
}

#[test]
fn a_split_group_has_two_further_relations() {
    let (kids, source, _) = scan("AXSplitGroup", &|rel| match rel {
        "AXChildren" => vec![1],
        "AXSplitters" => vec![2],
        "AXContents" => vec![1, 3],
        _ => vec![],
    });
    assert_eq!(kids, [1, 2, 3]);
    assert_eq!(source.as_deref(), Some("AXChildren+AXSplitters+AXContents"));
    let (kids, source, _) = scan("AXTabGroup", &|rel| if rel == "AXTabs" { vec![5] } else { vec![] });
    assert_eq!((kids, source.as_deref()), (vec![5], Some("AXChildren+AXTabs")));
    let (kids, source, _) = scan("AXRow", &|rel| if rel == "AXCells" { vec![6] } else { vec![] });
    assert_eq!((kids, source.as_deref()), (vec![6], Some("AXChildren+AXCells")));
}

#[test]
fn last_ditch_relations_are_tried_in_order() {
    let (kids, source, asked) = scan("AXScrollArea", &|rel| if rel == "AXSections" { vec![4, 4] } else { vec![] });
    assert_eq!(kids, [4, 4]);
    assert_eq!(source.as_deref(), Some("AXSections"));
    assert_eq!(asked, ["AXVisibleChildren", "AXChildren", "AXContents", "AXRows", "AXSections"]);
    let (kids, source, _) = scan("AXScrollArea", &|_| vec![]);
    assert!(kids.is_empty());
    assert_eq!(source, None);
}

// --- resolving ---

fn resolve(
    p: ScreenPoint,
    roots: Vec<u64>,
    answer: &dyn Fn(u64) -> (&'static str, Option<ScreenRect>, Vec<u64>),
) -> (Option<Found>, usize) {
    let mut r = Resolve::start(p, &roots);
    let mut looked = 0;
    while let Some(id) = r.wanted() {
        looked += 1;
        let (role, rect, kids) = answer(id);
        r.supply(role, rect, &kids);
    }
    (r.finish(), looked)
}

#[test]
fn the_deepest_element_under_the_point_wins() {
    let (found, _) = resolve(point(5, 5), vec![1], &|id| match id {
        1 => ("AXWindow", Some(rect(0, 0, 10, 10)), vec![2, 3]),
        2 => ("AXGroup", Some(rect(0, 0, 9, 9)), vec![4]),
        3 => ("AXButton", Some(rect(4, 4, 2, 2)), vec![]),
        _ => ("AXImage", Some(rect(0, 0, 8, 8)), vec![]),
    });
    let f = found.unwrap();
    assert_eq!((f.id, f.depth), (4, 2));
}

#[test]
fn at_equal_depth_the_smaller_then_the_content_wins() {
    let (found, _) = resolve(point(5, 5), vec![1], &|id| match id {
        1 => ("AXWindow", None, vec![2, 3]),
        2 => ("AXButton", Some(rect(0, 0, 9, 9)), vec![]),
        _ => ("AXGroup", Some(rect(0, 0, 6, 6)), vec![]),
    });
    assert_eq!(found.unwrap().id, 3);
    let (found, _) = resolve(point(5, 5), vec![1], &|id| match id {
        1 => ("AXWindow", None, vec![2, 3, 4]),
        2 => ("AXGroup", Some(rect(0, 0, 6, 6)), vec![]),
        3 => ("AXButton", Some(rect(0, 0, 6, 6)), vec![]),
        _ => ("AXButton", Some(rect(0, 0, 6, 6)), vec![]),
    });
    // The first of equally good ones.
    assert_eq!(found.unwrap().id, 3);
}

#[test]
fn what_does_not_cover_the_point_is_not_found() {
    let (found, looked) = resolve(point(50, 5), vec![1, 1, 2], &|id| match id {
        1 => ("AXWindow", Some(rect(0, 0, 10, 10)), vec![2]),
        _ => ("AXButton", None, vec![1]),
    });
    assert_eq!(found, None);
    assert_eq!(looked, 2);
}

#[test]
fn a_search_keeps_the_budget() {
    let (_, looked) = resolve(point(5, 5), vec![1], &|id| ("AXGroup", None, vec![id + 1]));
    assert_eq!(looked, RESOLVE_BUDGET);
}

// --- bands ---

#[test]
fn a_band_runs_over_the_row_from_left_to_right() {
    let current = rect(100, 10, 20, 10);
    let siblings = vec![
        Some(rect(200, 11, 20, 10)),
        Some(current),
        Some(rect(0, 9, 20, 12)),
        Some(rect(0, 300, 20, 10)), // another row
        None,
        Some(rect(50, 10, 20, 40)), // too high
    ];
    let (band, order) = sibling_band(&current, &siblings, Some(rect(0, 0, 1000, 1000))).unwrap();
    assert_eq!(order, [2, 1, 0]);
    assert_eq!(band, rect(0, 9, 220, 12));
}

#[test]
fn there_is_no_band_without_a_row() {
    let current = rect(100, 10, 20, 10);
    // Alone.
    assert!(sibling_band(&current, &vec![Some(current)], None).is_none());
    // Hardly wider than the element.
    assert!(sibling_band(&current, &vec![Some(current), Some(rect(100, 10, 29, 10))], None).is_none());
    assert!(sibling_band(&current, &vec![Some(current), Some(rect(100, 10, 30, 10))], None).is_some());
    // Essentially the parent.
    let row = vec![Some(current), Some(rect(120, 10, 20, 10))];
    assert!(sibling_band(&current, &row, Some(rect(100, 10, 40, 11))).is_none());
    assert!(sibling_band(&current, &row, Some(rect(100, 10, 40, 12))).is_some());
    // Without extent.
    assert!(sibling_band(&rect(0, 0, 0, 5), &row, None).is_none());
}
