use base64::engine::general_purpose::STANDARD;
use base64::Engine;
use vibe_extract::dispatcher::ExtractError;
use vibe_extract::json::{Json, JsonNumber};
use vibe_extract::mcp::answers::{
    color_answer, font_entry, fonts_to_write, harvest_answer, image_entry, images_to_write,
    palette_answer, replica_event, selection_answer, shown_answer, svg_icons_to_write,
};
use vibe_extract::mcp::assets::{plan_fonts, plan_images, slugify, unique_name, HarvestedFont, HarvestedImage};
use vibe_extract::mcp::messages::{
    cdp_url, extract_refusal, load_image_arg, no_debug_port, no_such_window, relaunch_hint, relaunch_refusal,
    shot_name, unreadable_image, ImageArg,
};
use vibe_extract::mcp::params::{
    AxTreeParam, ExtractAssetsParam, ExtractComponentParam, PaletteParam, PointParam, RectParam,
    RelaunchParam, SampleColorParam, SubtreeParam, WindowShotParam,
};
use vibe_extract::mcp::replica::{
    data_uri, inline_replica_assets, local_file, mime_for, replace_css_urls, replace_quoted, Asset,
};
use vibe_extract::mcp::server::{
    allowed_hosts, pick_free_mcp_port, server_url, McpServerState, ServerStep,
};

fn text(s: &str) -> Json {
    Json::Text(s.to_string())
}

fn whole(n: u64) -> Json {
    Json::Number(JsonNumber::Whole(n))
}

fn object(members: Vec<(&str, Json)>) -> Json {
    Json::Object(members.into_iter().map(|(k, v)| (k.to_string(), v)).collect())
}

fn show(j: &Json) -> String {
    format!("{j:?}")
}

// --- the server ---

#[test]
fn the_server_listens_on_this_machine_only() {
    assert_eq!(server_url(8765), "http://127.0.0.1:8765/mcp");
    assert_eq!(
        allowed_hosts(8766),
        ["localhost", "127.0.0.1", "::1", "127.0.0.1:8766", "localhost:8766", "[::1]:8766"]
    );
}

#[test]
fn the_first_free_port_is_taken() {
    assert_eq!(pick_free_mcp_port(&vec![true]), 8765);
    assert_eq!(pick_free_mcp_port(&vec![false, false, true, true]), 8767);
    assert_eq!(pick_free_mcp_port(&vec![false; 21]), 8765);
    assert_eq!(pick_free_mcp_port(&vec![]), 8765);
}

#[test]
fn the_server_is_switched() {
    let mut s = McpServerState::new();
    assert_eq!((s.on_start(), s.on_toggle()), (ServerStep::Start, ServerStep::Start));
    let shown = s.snapshot();
    assert!(!shown.running && shown.port.is_none() && shown.url.is_none());
    s.started(8770);
    assert_eq!((s.on_start(), s.on_toggle()), (ServerStep::Keep, ServerStep::Stop));
    let shown = s.snapshot();
    assert_eq!((shown.running, shown.port, shown.url.as_deref()), (true, Some(8770), Some("http://127.0.0.1:8770/mcp")));
    assert_eq!(s.stop(), Some(8770));
    assert_eq!(s.stop(), None);
}

// --- what the tools take ---

#[test]
fn what_is_not_said_has_a_default() {
    assert_eq!(AxTreeParam { pid: 1, max_depth: None, window_index: None }.depth(), 12);
    assert_eq!(AxTreeParam { pid: 1, max_depth: Some(3), window_index: None }.depth(), 3);
    assert_eq!(SubtreeParam { x: 0, y: 0, max_depth: None }.depth(), 12);
    assert_eq!(PaletteParam { pid: 1, max_depth: Some(0) }.depth(), 0);
    assert_eq!(WindowShotParam { pid: 1, window_index: None }.index(), 0);
    assert_eq!(ExtractAssetsParam { target_index: Some(2), out_subdir: None }.target(), 2);
    assert_eq!(ExtractAssetsParam { target_index: None, out_subdir: None }.subdir(), "assets");
    assert_eq!(ExtractAssetsParam { target_index: None, out_subdir: Some("x".to_string()) }.subdir(), "x");
    let b = RectParam { x: 1, y: 2, w: 3, h: 4 }.bounds();
    assert_eq!((b.x, b.y, b.w, b.h), (1, 2, 3, 4));
    let p = SampleColorParam { x: 5, y: 6 }.point();
    assert_eq!((p.x, p.y), (5, 6));
}

// --- what the tools answer ---

#[test]
fn a_relaunch_has_to_be_confirmed() {
    let p = |confirm: bool| RelaunchParam { bundle_id: "b".to_string(), display_name: "d".to_string(), confirm };
    assert_eq!(relaunch_refusal(&p(true)), None);
    assert_eq!(
        relaunch_refusal(&p(false)),
        Some("Refusing to relaunch: this quits and reopens the target app and could close unsaved work. Re-call with confirm=true to proceed.")
    );
    assert_eq!(
        relaunch_hint("com.x", "X"),
        "This is an Electron app and its Chromium debug port isn't open. Call relaunch_with_debug_port with bundle_id=\"com.x\", display_name=\"X\", confirm=true, then retry — or pass skip_relaunch=true to settle for the shallow AX/screenshot path."
    );
    assert!(no_debug_port().starts_with("No Chromium debug port found on 9220–9230."));
    assert_eq!(no_such_window(3, -1), "no window #3 for pid -1");
    assert_eq!(cdp_url(9222), "http://127.0.0.1:9222/json");
    assert_eq!(shot_name("region", 4), "mcp-region-4.png");
    assert_eq!(unreadable_image("a", "/x", "gone"), "reading a_path /x: gone");
}

#[test]
fn an_image_comes_from_a_path_or_from_base64() {
    match load_image_arg("a", Some("/x.png".to_string()), Some("anVuaw==".to_string())) {
        Ok(ImageArg::File(f)) => assert_eq!(f, "/x.png"),
        other => panic!("{other:?}"),
    }
    match load_image_arg("a", None, Some("anVuaw==".to_string())) {
        Ok(ImageArg::Bytes(b)) => assert_eq!(b, b"junk"),
        other => panic!("{other:?}"),
    }
    let e = load_image_arg("b", None, Some("!".to_string())).unwrap_err();
    assert_eq!(e, format!("b_png_b64 is not valid base64: {}", STANDARD.decode("!").unwrap_err()));
    assert_eq!(load_image_arg("b", None, None).unwrap_err(), "provide b_path or b_png_b64");
}

#[test]
fn the_selection_is_answered_with_its_count() {
    let two = Json::List(vec![text("a"), text("b")]);
    let a = selection_answer(true, Some(two), Some(7));
    assert!(matches!(a.get("present"), Some(Json::Bool(true))));
    assert_eq!(a.get("count").and_then(|c| c.as_u64()), Some(2));
    assert_eq!(a.get("age_seconds").and_then(|c| c.as_u64()), Some(7));
    let a = selection_answer(true, None, None);
    assert!(matches!(a.get("present"), Some(Json::Bool(false))));
    assert!(matches!(a.get("age_seconds"), Some(Json::Null)));
    assert!(matches!(a.get("elements"), Some(Json::List(l)) if l.is_empty()));
    let a = selection_answer(true, Some(text("odd")), None);
    assert_eq!(a.get("count").and_then(|c| c.as_u64()), Some(0));
    assert_eq!(a.get_str("elements"), Some("odd"));
    let a = selection_answer(false, Some(text("odd")), Some(1));
    assert!(a.get("age_seconds").is_none());
    assert!(matches!(a.get("elements"), Some(Json::List(l)) if l.is_empty()));
}

#[test]
fn a_palette_is_given_by_name_and_by_parts() {
    let a = palette_answer(&[(1, 255, 16), (0, 0, 0)]);
    let names = match a.get("palette_hex") {
        Some(Json::List(l)) => l,
        other => panic!("{other:?}"),
    };
    let names: Vec<&str> = names.iter().map(|n| n.as_str().unwrap()).collect();
    assert_eq!(names, ["#01ff10", "#000000"]);
    let parts = match a.get("palette_rgb") {
        Some(Json::List(l)) => l,
        other => panic!("{other:?}"),
    };
    assert_eq!(parts.len(), 2);
    match &parts[0] {
        Json::List(l) => {
            let l: Vec<u64> = l.iter().map(|n| n.as_u64().unwrap()).collect();
            assert_eq!(l, [1, 255, 16]);
        }
        other => panic!("{other:?}"),
    }
}

#[test]
fn a_colour_is_answered_twice() {
    let a = color_answer((1, 255, 16));
    assert_eq!(a.get_str("hex"), Some("#01ff10"));
    assert_eq!(show(a.get("rgb").unwrap()), show(&Json::List(vec![whole(1), whole(255), whole(16)])));
}

#[test]
fn a_replica_is_handed_over_with_its_source() {
    let r = replica_event("<p>", "<b>", &None, None, "/d/x");
    assert_eq!(r.get_str("html"), Some("<p>"));
    assert_eq!(r.get_str("source"), Some("<b>"));
    assert!(matches!(r.get("ax_tree"), Some(Json::Null)));
    assert_eq!(r.get_str("title"), Some("replica"));
    assert_eq!(r.get_str("dir"), Some("/d/x"));
    let r = replica_event("", "", &Some("{}".to_string()), Some("x"), "/d/x");
    assert_eq!((r.get_str("ax_tree"), r.get_str("title")), (Some("{}"), Some("x")));
    let a = shown_answer("/d/x", true);
    assert!(matches!(a.get("shown"), Some(Json::Bool(true))));
    assert!(matches!(a.get("ax_tree"), Some(Json::Bool(true))));
    assert_eq!(a.get_str("dir"), Some("/d/x"));
}

#[test]
fn a_refused_extraction_says_how_to_go_on() {
    let e = ExtractError::ElectronNeedsRelaunch {
        bundle_id: "com.x".to_string(),
        display_name: "X".to_string(),
        pid: 1,
        app_path: String::new(),
    };
    assert_eq!(extract_refusal(&e), relaunch_hint("com.x", "X"));
    assert_eq!(extract_refusal(&ExtractError::Other("gone".to_string())), "gone");
}

// --- assets ---

#[test]
fn slugs_are_safe() {
    assert_eq!(slugify("Slack-Lato  Pro!"), "slack-lato-pro");
    assert_eq!(slugify("--A__b--"), "a-b");
    assert_eq!(slugify("é"), "");
    assert_eq!(slugify(&"x".repeat(60)).len(), 48);
    let long = format!("{} y", "x".repeat(47));
    assert_eq!(slugify(&long), format!("{}-", "x".repeat(47)));
}

#[test]
fn taken_names_get_a_number() {
    let mut used = vec![];
    assert_eq!(unique_name(&mut used, "a"), "a");
    assert_eq!(unique_name(&mut used, "a"), "a-1");
    assert_eq!(unique_name(&mut used, "a-1"), "a-1-1");
    assert_eq!(unique_name(&mut used, "a"), "a-2");
    assert_eq!(used, ["a", "a-1", "a-1-1", "a-2"]);
}

fn font(base64: Option<&str>, family: Option<&str>, format: Option<&str>) -> HarvestedFont {
    HarvestedFont {
        base64: base64.map(|s| s.to_string()),
        family: family.map(|s| s.to_string()),
        weight: None,
        style: None,
        format: format.map(|s| s.to_string()),
    }
}

#[test]
fn fonts_are_named_apart() {
    let files = plan_fonts(&vec![
        font(Some("anVuaw=="), Some("Slack Icons"), Some("woff")),
        font(Some("!"), Some("Broken"), None),
        font(None, Some("Missing"), None),
        font(Some("anVuaw=="), Some("slack-icons"), Some("opentype")),
        font(Some(""), None, Some("truetype")),
        font(Some(""), None, None),
    ]);
    let names: Vec<&str> = files.iter().map(|f| f.file.as_str()).collect();
    assert_eq!(
        names,
        ["slack-icons-400-normal.woff", "slack-icons-400-normal-1.otf", "font-400-normal.ttf", "font-400-normal-1.woff2"]
    );
    assert_eq!(files[0].bytes, b"junk");
    assert_eq!((files[0].family.as_str(), files[3].family.as_str(), files[3].format.as_str()), ("Slack Icons", "font", "woff2"));
}

#[test]
fn images_are_named_apart() {
    let image = |base64: &str, label: Option<&str>, mime: Option<&str>| HarvestedImage {
        base64: Some(base64.to_string()),
        label: label.map(|s| s.to_string()),
        mime: mime.map(|s| s.to_string()),
        via: None,
    };
    let files = plan_images(&vec![
        image("anVuaw==", Some("Ann"), Some("image/jpeg")),
        image("!", Some("Ann"), None),
        image("anVuaw==", Some("ann!"), Some("image/gif")),
        image("anVuaw==", Some("é"), Some("image/svg+xml")),
        image("anVuaw==", None, Some("image/webp")),
        image("anVuaw==", None, Some("text/plain")),
    ]);
    let names: Vec<&str> = files.iter().map(|f| f.file.as_str()).collect();
    assert_eq!(names, ["ann.jpg", "ann-1.gif", "image-3.svg", "image.webp", "image-1.png"]);
    assert_eq!(files.iter().map(|f| f.source).collect::<Vec<_>>(), [0, 2, 3, 4, 5]);
    assert_eq!(files[0].via, "fetch");
}

#[test]
fn a_harvest_is_read_and_reported() {
    let rect = object(vec![("x", whole(1))]);
    let manifest = object(vec![
        ("fonts", Json::List(vec![
            object(vec![("base64", text("anVuaw==")), ("family", text("F")), ("weight", text("700"))]),
            text("odd"),
        ])),
        ("images", Json::List(vec![
            text("odd"),
            object(vec![("base64", text("anVuaw==")), ("label", text("L")), ("via", text("canvas")), ("rect", rect.clone())]),
        ])),
        ("icons", text("I")),
    ]);
    let fonts = fonts_to_write(&manifest);
    assert_eq!(fonts.len(), 1);
    assert_eq!(fonts[0].file, "f-700-normal.woff2");
    let images = images_to_write(&manifest);
    assert_eq!(images.len(), 1);
    assert_eq!(images[0].file, "l.png");
    let f = font_entry(&fonts[0], "/out/f");
    assert_eq!(
        show(&f),
        show(&object(vec![
            ("family", text("F")), ("weight", text("700")), ("style", text("normal")),
            ("format", text("woff2")), ("file", text("/out/f")), ("bytes", whole(4)),
        ]))
    );
    let i = image_entry(&images[0], "/out/i", &manifest);
    assert_eq!(
        show(&i),
        show(&object(vec![
            ("label", text("L")), ("file", text("/out/i")), ("rect_points", rect),
            ("via", text("canvas")), ("bytes", whole(4)),
        ]))
    );
    let answer = harvest_answer(9222, "/out", vec![f], vec![i], &manifest);
    assert_eq!(answer.get("port").and_then(|p| p.as_u64()), Some(9222));
    assert_eq!(answer.get_str("assets_dir"), Some("/out"));
    assert_eq!(answer.get_str("icons"), Some("I"));
    assert!(matches!(answer.get("warnings"), Some(Json::List(l)) if l.is_empty()));
    assert!(matches!(answer.get("svgIcons"), Some(Json::List(l)) if l.is_empty()));
    assert!(fonts_to_write(&Json::Null).is_empty() && images_to_write(&object(vec![("images", text("x"))])).is_empty());
}

#[test]
fn inline_icons_are_written_as_they_stand() {
    let svg = "<svg fill=\"currentColor\"><path d=\"M0 0\"/></svg>";
    let manifest = object(vec![(
        "svgIcons",
        Json::List(vec![
            object(vec![("data-qa", text("Close Button")), ("markup", text(svg)), ("color", text("rgb(0, 0, 0)"))]),
            object(vec![("svg", text("<svg/>")), ("data-qa", text("close button"))]),
            object(vec![("data-qa", text("none"))]),
            text("<svg/>"),
            object(vec![("html", text("<svg id='b'/>")), ("data-qa", text("--"))]),
            object(vec![("html", text("<svg id='c'/>"))]),
        ]),
    )]);
    let files = svg_icons_to_write(&manifest);
    let got: Vec<(usize, &str, &str)> =
        files.iter().map(|f| (f.source, f.file.as_str(), f.markup.as_str())).collect();
    assert_eq!(
        got,
        [
            (0, "close-button.svg", svg),
            (1, "close-button-1.svg", "<svg/>"),
            (4, "icon-4.svg", "<svg id='b'/>"),
            (5, "icon-5.svg", "<svg id='c'/>"),
        ]
    );
    let answer = harvest_answer(9222, "/out", vec![], vec![], &manifest);
    assert!(matches!(answer.get("svgIcons"), Some(Json::List(l)) if l.len() == 6));
    assert!(svg_icons_to_write(&Json::Null).is_empty());
    assert!(svg_icons_to_write(&object(vec![("svgIcons", text("x"))])).is_empty());
}

// --- replicas ---

#[test]
fn media_types_go_by_extension() {
    for (path, mime) in [
        ("a.PNG", "image/png"), ("a.jpg", "image/jpeg"), ("a.jpeg", "image/jpeg"),
        ("a.svg", "image/svg+xml"), ("a.gif", "image/gif"), ("a.webp", "image/webp"),
        ("a.woff2", "font/woff2"), ("a.woff", "font/woff"), ("a.ttf", "font/ttf"),
        ("a.otf", "font/otf"), ("a.css", "application/octet-stream"),
    ] {
        assert_eq!(mime_for(path), mime);
    }
    assert_eq!(data_uri("x.png", b"junk"), "data:image/png;base64,anVuaw==");
}

#[test]
fn only_local_references_name_files() {
    for r in ["", "  ", "data:x", "http://a", "https://a", "//cdn", "/abs", "#top"] {
        assert_eq!(local_file(r), None, "{r:?}");
    }
    assert_eq!(local_file(" icons/x.svg?v=2#f ").as_deref(), Some("icons/x.svg"));
    assert_eq!(local_file("a#b").as_deref(), Some("a"));
    assert_eq!(local_file("?q").as_deref(), Some(""));
}

#[test]
fn references_out_of_the_folder_name_no_file() {
    for r in ["../secret.png", "..", "a/../../b.png", "./../x", "a//../..", " ../x?y ", "../../etc/x#f"] {
        assert_eq!(local_file(r), None, "{r:?}");
    }
    for r in ["a/../b.png", "./x.png", "a/./b/../c.svg", "..x/y", "...", "a/..", "a?/../../b"] {
        assert!(local_file(r).is_some(), "{r:?}");
    }
    let html = "<img src=\"../secret.png\"> url('../../x.css')";
    assert_eq!(inline_replica_assets(html, &vec![]).unwrap(), html);
}

fn asset(path: &str, uri: Option<&str>) -> Asset {
    Asset { path: path.to_string(), uri: uri.map(|u| u.to_string()) }
}

#[test]
fn references_are_replaced_by_what_was_read() {
    let assets = vec![asset("a.png", Some("U")), asset("gone.png", None)];
    assert_eq!(
        replace_quoted("<img src=\"a.png\"><img src=\"gone.png\"><a src=\"http://x\"", "src=\"", &assets).unwrap(),
        "<img src=\"U\"><img src=\"gone.png\"><a src=\"http://x\""
    );
    assert_eq!(replace_quoted("<img src=\"a.png", "src=\"", &assets).unwrap(), "<img src=\"a.png");
    assert_eq!(
        replace_css_urls("url(a.png) url('a.png') url(\"gone.png\") url(a.png", &assets).unwrap(),
        "url(U) url('U') url(\"gone.png\") url(a.png"
    );
}

#[test]
fn a_replica_asks_for_each_file_once_and_is_made_self_contained() {
    let html = "<link href='s.css'><img src=\"i/x.png?1\"><p style=\"background:url('i/x.png')\"><img src=\"no.png\">";
    let mut assets: Vec<Asset> = vec![];
    let mut asked: Vec<String> = vec![];
    let out = loop {
        match inline_replica_assets(html, &assets) {
            Ok(out) => break out,
            Err(path) => {
                let uri = if path == "no.png" { None } else { Some(data_uri(&path, b"junk")) };
                asked.push(path.clone());
                assets.push(Asset { path, uri });
            }
        }
    };
    let mut sorted = asked.clone();
    sorted.sort();
    assert_eq!(sorted, ["i/x.png", "no.png", "s.css"]);
    assert_eq!(
        out,
        "<link href='data:application/octet-stream;base64,anVuaw=='><img src=\"data:image/png;base64,anVuaw==\"><p style=\"background:url('data:image/png;base64,anVuaw==')\"><img src=\"no.png\">"
    );
}

#[test]
fn a_replica_without_readable_files_is_unchanged() {
    let html = "<img src=\"a.png\"> url(a.png) é";
    let assets = vec![asset("a.png", None)];
    assert_eq!(inline_replica_assets(html, &assets).unwrap(), html);
}

#[test]
fn json_values_are_read_by_key() {
    let j = object(vec![("a", whole(1)), ("b", text("t")), ("a", whole(2))]);
    assert_eq!(j.get("a").and_then(|v| v.as_u64()), Some(1));
    assert_eq!(j.get_str("b"), Some("t"));
    assert_eq!(j.get_str("a"), None);
    assert!(j.get("c").is_none() && text("x").get("a").is_none());
    assert_eq!(Json::Number(JsonNumber::Negative(-1)).as_u64(), None);
    assert_eq!(show(&j.clone()), show(&j));
}

#[test]
fn points_are_taken_as_given() {
    let p = PointParam { x: 64, y: -128, pid: Some(3) }.point();
    assert_eq!((p.x, p.y), (64, -128));
    let p = SubtreeParam { x: 1, y: 2, max_depth: None }.point();
    assert_eq!((p.x, p.y), (1, 2));
    let p = ExtractComponentParam { x: 5, y: 6, pid: None, skip_relaunch: true }.point();
    assert_eq!((p.x, p.y), (5, 6));
}

#[test]
fn no_two_files_of_a_harvest_are_the_same() {
    let font = |weight: &str, format: &str| HarvestedFont {
        base64: Some("anVuaw==".to_string()),
        family: Some("F".to_string()),
        weight: Some(weight.to_string()),
        style: Some("".to_string()),
        format: Some(format.to_string()),
    };
    let files = plan_fonts(&vec![
        font("400", "woff"),
        font("400", "woff2"),
        font("400", "woff"),
        font("400-", "woff"),
        font("400.woff2", "woff"),
    ]);
    let mut names: Vec<String> = files.into_iter().map(|f| f.file).collect();
    assert_eq!(names.len(), 5);
    names.sort();
    names.dedup();
    assert_eq!(names.len(), 5);
}
