use vibe_extract::cdp::{
    call_step, discover_port, discover_target, dom_to_node, dom_tree_expression, evaluated,
    evaluation_value, harvest_command, harvest_manifest, probe_expression, query_command,
    two_decimals_text, viewport_command, viewport_export, viewport_point, viewport_result,
    viewport_tree_command, visible_hit, CallStep, CdpError, DomNode, ImageFill, Incoming,
    PageTarget, ProbeHit, ARM_JS, EXPORT_JS, METRICS_JS,
};
use vibe_extract::double::{double_bits, nearest_double};
use vibe_extract::json::{Json, JsonNumber};

fn text(s: &str) -> Json {
    Json::Text(s.to_string())
}

fn whole(n: u64) -> Json {
    Json::Number(JsonNumber::Whole(n))
}

fn object(members: Vec<(&str, Json)>) -> Json {
    Json::Object(members.into_iter().map(|(k, v)| (k.to_string(), v)).collect())
}

fn value(v: Json) -> Json {
    object(vec![("result", object(vec![("value", v)]))])
}

fn show(j: &Json) -> String {
    format!("{j:?}")
}

#[test]
fn the_lowest_open_port_wins() {
    assert_eq!(discover_port(&vec![None, Some(9229), Some(9222), None]), Some(9222));
    assert_eq!(discover_port(&vec![Some(9222), Some(9229)]), Some(9222));
    assert_eq!(discover_port(&vec![None, None]), None);
}

fn page(kind: &str, url: Option<&str>) -> PageTarget {
    PageTarget {
        target_type: kind.to_string(),
        title: String::new(),
        url: String::new(),
        ws_url: url.map(|u| u.to_string()),
    }
}

#[test]
fn only_pages_that_can_be_attached_to_count() {
    let targets = vec![page("worker", Some("w")), page("page", None), page("page", Some("a")), page("page", Some("b"))];
    assert_eq!(discover_target(&targets, 9222, 0).unwrap(), "a");
    assert_eq!(discover_target(&targets, 9222, 1).unwrap(), "b");
    let e = discover_target(&targets, 9222, 2).unwrap_err();
    assert_eq!(e.message(""), "target_index 2 out of range");
    let e = discover_target(&vec![page("worker", Some("w"))], 9222, 0).unwrap_err();
    assert_eq!(e.message(""), "no page targets on port 9222");
}

#[test]
fn a_reply_is_told_by_its_id() {
    let reply = |id: u64| object(vec![("id", whole(id)), ("result", text("r"))]);
    assert!(matches!(call_step(3, "M", Incoming::Text(Some(reply(2)))), CallStep::Wait));
    assert!(matches!(call_step(3, "M", Incoming::Text(Some(text("event")))), CallStep::Wait));
    assert!(matches!(call_step(3, "M", Incoming::Ignored), CallStep::Wait));
    match call_step(3, "M", Incoming::Text(Some(reply(3)))) {
        CallStep::Done(Ok(r)) => assert_eq!(r.as_str(), Some("r")),
        other => panic!("{other:?}"),
    }
    match call_step(3, "M", Incoming::Text(Some(object(vec![("id", whole(3))])))) {
        CallStep::Done(Ok(Json::Null)) => {}
        other => panic!("{other:?}"),
    }
    let failing = object(vec![("id", whole(3)), ("error", text("no")), ("result", text("r"))]);
    match call_step(3, "M", Incoming::Text(Some(failing))) {
        CallStep::Done(Err(e)) => assert_eq!(e.message("\"no\""), "CDP M returned error: \"no\""),
        other => panic!("{other:?}"),
    }
    for (incoming, words) in [
        (Incoming::End, "CDP stream closed"),
        (Incoming::Failed, "CDP recv"),
        (Incoming::Close, "CDP socket closed"),
        (Incoming::Text(None), "CDP JSON parse"),
    ] {
        match call_step(3, "M", incoming) {
            CallStep::Done(Err(e)) => assert_eq!(e.message(""), words),
            other => panic!("{other:?}"),
        }
    }
}

#[test]
fn an_exception_is_an_error() {
    assert!(evaluated(value(whole(1))).is_ok());
    let e = evaluated(object(vec![("exceptionDetails", text("x"))])).unwrap_err();
    assert_eq!(e.message("\"x\""), "Runtime.evaluate threw: \"x\"");
    assert_eq!(evaluation_value(&value(whole(7))).and_then(|v| v.as_u64()), Some(7));
    assert!(evaluation_value(&object(vec![("result", whole(1))])).is_none());
}

#[test]
fn an_extraction_sends_seven_commands() {
    let methods: Vec<String> = (0..8)
        .filter_map(|i| viewport_command(i, 64, 96, "SCRIPT"))
        .map(|c| format!("{} {}", c.id, c.method))
        .collect();
    assert_eq!(
        methods,
        [
            "1 Runtime.enable",
            "2 Page.enable",
            "3 Runtime.evaluate",
            "4 Runtime.evaluate",
            "5 Input.dispatchMouseEvent",
            "6 Input.dispatchMouseEvent",
            "7 Runtime.evaluate",
        ]
    );
    let inject = viewport_command(2, 64, 96, "SCRIPT").unwrap().params;
    assert_eq!(
        inject.get_str("expression"),
        Some("(function(){try{SCRIPT\n}catch(e){console.warn('[VibeExtract cdp] inject:',e);}})();")
    );
    assert!(matches!(inject.get("awaitPromise"), Some(Json::Bool(false))));
    assert_eq!(viewport_command(3, 0, 0, "").unwrap().params.get_str("expression"), Some(ARM_JS));
    let press = viewport_command(4, 64, 96, "").unwrap().params;
    assert_eq!(press.get_str("type"), Some("mousePressed"));
    assert!(matches!(press.get("y"), Some(Json::Number(JsonNumber::Units(96)))));
    assert_eq!(press.get("buttons").and_then(|b| b.as_u64()), Some(1));
    let release = viewport_command(5, 64, 96, "").unwrap().params;
    assert_eq!(release.get_str("type"), Some("mouseReleased"));
    assert_eq!(release.get("buttons").and_then(|b| b.as_u64()), Some(0));
    let export = viewport_command(6, 0, 0, "").unwrap().params;
    assert_eq!(export.get_str("expression"), Some(EXPORT_JS));
    assert!(matches!(export.get("awaitPromise"), Some(Json::Bool(true))));
    let tree = viewport_tree_command(64, 96);
    assert_eq!(tree.id, 8);
    assert_eq!(tree.params.get_str("expression").map(|s| s.to_string()), Some(dom_tree_expression(64, 96, 20, 1500)));
}

#[test]
fn queries_and_harvests_enable_the_page_first() {
    let q: Vec<String> = (0..3).filter_map(|i| query_command(i, METRICS_JS)).map(|c| c.method).collect();
    assert_eq!(q, ["Runtime.enable", "Runtime.evaluate"]);
    assert_eq!(query_command(1, METRICS_JS).unwrap().params.get_str("expression"), Some(METRICS_JS));
    let h: Vec<String> = (0..4).filter_map(|i| harvest_command(i, "H")).map(|c| c.method).collect();
    assert_eq!(h, ["Runtime.enable", "Page.enable", "Runtime.evaluate"]);
    assert!(matches!(harvest_command(2, "H").unwrap().params.get("awaitPromise"), Some(Json::Bool(true))));
    assert_eq!(harvest_manifest(&value(text("m"))).unwrap().as_str(), Some("m"));
    assert_eq!(harvest_manifest(&object(vec![])).unwrap_err().message(""), "asset harvester returned no value");
}

#[test]
fn an_export_is_read_from_the_reply() {
    let ok = value(object(vec![("toon", text("t")), ("html", text("h"))]));
    assert_eq!(viewport_export(&ok).unwrap(), ("t".to_string(), "h".to_string()));
    let half = value(object(vec![("html", text("h"))]));
    assert_eq!(viewport_export(&half).unwrap(), (String::new(), "h".to_string()));
    let failed = value(object(vec![("error", text("late")), ("html", text("h"))]));
    assert_eq!(viewport_export(&failed).unwrap_err().message(""), "export failed: late");
    let empty = value(object(vec![("toon", text("")), ("html", whole(1))]));
    assert_eq!(viewport_export(&empty).unwrap_err().message(""), "export returned empty");
    let e = viewport_export(&Json::Null).unwrap_err();
    assert!(matches!(e, CdpError::NoResult));
    assert_eq!(e.message(""), "no result");
    let r = viewport_result("t".to_string(), "h".to_string(), Some("x".to_string()));
    assert_eq!((r.strategy.as_str(), r.fidelity.as_str()), ("cdp", "Pixel-perfect (runtime CDP)"));
    assert_eq!(r.ax_tree.as_deref(), Some("x"));
}

#[test]
fn coordinates_are_written_with_two_decimals() {
    for k in [-129, -64, -3, -1, 0, 1, 2, 3, 31, 33, 6432, 100001] {
        let v = k as f64 / 64.0;
        assert_eq!(two_decimals_text(k), format!("{v:.2}"));
    }
    let p = probe_expression(96, -64, 3);
    assert!(p.contains("var x=1.50, y=-1.00, widen=3;"));
    assert!(!p.contains("__"));
    let d = dom_tree_expression(64, 128, 20, 1500);
    assert!(d.contains("var x=1.00, y=2.00, MAXD=20, BUDGET=1500, count=0;"));
}

#[test]
fn a_hit_without_extent_is_none() {
    let hit = |w: i64, h: i64| Some(ProbeHit {
        x: 0, y: 0, w, h,
        role: String::new(), tag: String::new(), label: String::new(),
    });
    assert!(visible_hit(hit(64, 64)).is_some());
    assert!(visible_hit(hit(63, 64)).is_none());
    assert!(visible_hit(None).is_none());
}

#[test]
fn a_dom_tree_becomes_a_node_tree() {
    let dom = |role: &str, children: Vec<DomNode>| DomNode {
        role: role.to_string(),
        name: "n".to_string(),
        ident: String::new(),
        tag: "div".to_string(),
        x: 10,
        y: 20,
        w: 30,
        h: 40,
        truncated: role.is_empty(),
        children,
    };
    let n = dom_to_node(&dom("", vec![dom("AXLink", vec![])]), 1000, 2000);
    assert_eq!(n.role, "AXGroup");
    assert!(n.truncated && n.identifier.is_none());
    assert_eq!(n.role_description.as_deref(), Some("div"));
    assert_eq!(n.child_source.as_deref(), Some("CDP-DOM"));
    let b = n.children[0].bounds.unwrap();
    assert_eq!((b.x, b.y, b.w, b.h), (1010, 2020, 30, 40));
    assert_eq!(n.children[0].role, "AXLink");
}

#[test]
fn the_bars_of_a_window_are_above_the_page() {
    assert_eq!(viewport_point(5, 5000, Some(6000), Some(4200)), (5, 3200));
    assert_eq!(viewport_point(5, 5000, Some(4000), Some(4200)), (5, 5000));
    assert_eq!(viewport_point(5, 5000, None, None), (5, 5000));
}

// --- harvesting ---

fn image(base64: Option<&str>, rect: Option<(u64, u64)>) -> Json {
    let mut m = vec![("label", text("l"))];
    if let Some(b) = base64 {
        m.push(("base64", text(b)));
    }
    if let Some((w, h)) = rect {
        m.push(("rect", object(vec![("x", whole(1)), ("y", whole(2)), ("w", whole(w)), ("h", whole(h))])));
    }
    object(m)
}

#[test]
fn only_unreadable_images_are_captured() {
    let manifest = object(vec![
        ("dpr", Json::Number(JsonNumber::Double(2.5f64.to_bits()))),
        (
            "images",
            Json::List(vec![
                image(Some("AAAA"), Some((9, 9))), // readable
                image(None, None),                 // nowhere
                image(None, Some((9, 9))),
                image(None, Some((0, 9))),         // no extent
                image(None, Some((5, 5))),
            ]),
        ),
    ]);
    let mut fill = ImageFill::new(&manifest, 4);
    let c = fill.wanted().unwrap();
    assert_eq!((c.id, c.method.as_str()), (4, "Page.captureScreenshot"));
    let clip = c.params.get("clip").unwrap();
    assert_eq!(double(clip.get("width")), Some(9.0));
    assert_eq!(double(clip.get("x")), Some(1.0));
    assert!(matches!(clip.get("scale"), Some(Json::Number(JsonNumber::Double(b))) if *b == 2.5f64.to_bits()));
    fill.supply(Some("PIXELS".to_string()));
    assert_eq!(fill.wanted().unwrap().id, 5);
    fill.supply(None);
    assert!(fill.wanted().is_none());
    let out = fill.finish(manifest.clone());
    let images = match out.get("images") {
        Some(Json::List(l)) => l,
        other => panic!("{other:?}"),
    };
    assert_eq!(images[2].get_str("base64"), Some("PIXELS"));
    assert_eq!(images[2].get_str("mime"), Some("image/png"));
    assert_eq!(images[2].get_str("via"), Some("captureScreenshot"));
    // The others are as the page reported them.
    if let Some(Json::List(before)) = manifest.get("images") {
        for i in [0, 1, 3, 4] {
            assert_eq!(show(&images[i]), show(&before[i]));
        }
    }
}

#[test]
fn a_pixel_ratio_below_one_counts_as_one() {
    let manifest = object(vec![
        ("dpr", Json::Number(JsonNumber::Double(0.5f64.to_bits()))),
        ("images", Json::List(vec![image(None, Some((1, 1)))])),
    ]);
    let c = ImageFill::new(&manifest, 1).wanted().unwrap();
    assert_eq!(double(c.params.get("clip").and_then(|c| c.get("scale"))), Some(1.0));
    // A manifest without images is left as it is.
    let none = ImageFill::new(&text("m"), 1);
    assert!(none.wanted().is_none());
    assert_eq!(none.finish(text("m")).as_str(), Some("m"));
}

fn double(v: Option<&Json>) -> Option<f64> {
    match v {
        Some(Json::Number(JsonNumber::Double(bits))) => Some(f64::from_bits(*bits)),
        _ => None,
    }
}

#[test]
fn clips_are_sent_as_doubles() {
    let rect = Json::Object(vec![
        ("x".to_string(), Json::Number(JsonNumber::Negative(-3))),
        ("w".to_string(), whole(u64::MAX)),
        ("h".to_string(), whole(1)),
    ]);
    let image = Json::Object(vec![("rect".to_string(), rect)]);
    let manifest = Json::Object(vec![
        ("dpr".to_string(), whole(2)),
        ("images".to_string(), Json::List(vec![image])),
    ]);
    let fill = ImageFill::new(&manifest, 7);
    let command = fill.wanted().unwrap();
    let clip = command.params.get("clip").unwrap();
    assert_eq!(double(clip.get("x")), Some(-3.0));
    assert_eq!(double(clip.get("y")), Some(0.0));
    assert_eq!(double(clip.get("width")), Some(u64::MAX as f64));
    assert_eq!(double(clip.get("height")), Some(1.0));
    assert_eq!(double(clip.get("scale")), Some(2.0));
}

#[test]
fn whole_numbers_become_the_nearest_double() {
    for n in [
        0, 1, 2, 3, 10, 4095, 1 << 52, (1 << 53) - 1, 1 << 53, (1 << 53) + 1, (1 << 53) + 2,
        (1 << 53) + 3, (1 << 54) + 2, (1 << 54) + 6, (1 << 60) + 128, (1 << 60) + 129,
        (1 << 60) + 384, u64::MAX, u64::MAX - 1023, u64::MAX - 1024, u64::MAX - 1025,
    ] {
        assert_eq!(double_bits(n), (n as f64).to_bits(), "{n}");
        assert_eq!(nearest_double(n as u128), n as f64 as u128, "{n}");
    }
    let mut n: u64 = 88172645463325252;
    for _ in 0..10_000 {
        n ^= n << 13;
        n ^= n >> 7;
        n ^= n << 17;
        for k in [n, n >> 5, n >> 11, n >> 40] {
            assert_eq!(double_bits(k), (k as f64).to_bits(), "{k}");
        }
    }
}
