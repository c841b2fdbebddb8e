//! What the tools answer: the user's selection, and what a harvest of a page came to.

use crate::json::{
    a_member_is_the_first_with_its_key, field, list_view, list_view_pointwise, members_view,
    members_view_pointwise, text, Json, JsonNumber, JsonView,
};
use crate::mcp::assets::{
    font_files, font_views, icon_files, icon_views, image_files, image_views, plan_fonts,
    plan_icons, plan_images, FontFile, FontFileView, FontView, HarvestedFont, HarvestedIcon,
    HarvestedImage, IconFile, IconView, ImageFile, ImageFileView, ImageView,
};
use crate::text::{
    begins, copy_of, hex_color, hex_color_reads_back, hex_color_text, hex_value, opt_view,
    starts_with,
};
use vstd::prelude::*;

verus! {

fn whole(n: u64) -> (r: Json)
    ensures
        r@ == JsonView::Number(JsonNumber::Whole(n)),
{
    Json::Number(JsonNumber::Whole(n))
}

// ---------------------------------------------------------------------------
// The selection
// ---------------------------------------------------------------------------

/// The selected elements: what the file holds, or none where it holds no JSON.
pub open spec fn kept(parsed: Option<JsonView>) -> JsonView {
    match parsed {
        Some(v) => v,
        None => JsonView::List(Seq::empty()),
    }
}

/// How many elements are selected: none where it is no list.
pub open spec fn count_of(elements: JsonView) -> nat {
    match elements {
        JsonView::List(l) => l.len(),
        _ => 0,
    }
}

/// An optional number, null where it is missing.
pub open spec fn number_or_null(n: Option<u64>) -> JsonView {
    match n {
        Some(v) => JsonView::Number(JsonNumber::Whole(v)),
        None => JsonView::Null,
    }
}

/// The answer of the selection tool.
pub open spec fn selection_view(read: bool, parsed: Option<JsonView>, age: Option<u64>) -> JsonView {
    let elements = kept(parsed);
    if read {
        JsonView::Object(
            seq![
                ("present"@, JsonView::Bool(count_of(elements) > 0)),
                ("count"@, JsonView::Number(JsonNumber::Whole(count_of(elements) as u64))),
                ("age_seconds"@, number_or_null(age)),
                ("elements"@, elements),
            ],
        )
    } else {
        JsonView::Object(
            seq![
                ("present"@, JsonView::Bool(false)),
                ("count"@, JsonView::Number(JsonNumber::Whole(0))),
                ("elements"@, JsonView::List(Seq::empty())),
            ],
        )
    }
}

/// What an optional value holds.
pub open spec fn opt_json(v: Option<Json>) -> Option<JsonView> {
    match v {
        Some(j) => Some(j@),
        None => None,
    }
}

/// The answer of the selection tool: `read` says whether the file was there, `parsed`
/// is what it holds, where that is JSON, and `age` how many seconds ago it was written,
/// where that is known.
pub fn selection_answer(read: bool, parsed: Option<Json>, age: Option<u64>) -> (r: Json)
    ensures
        r@ == selection_view(read, opt_json(parsed), age),
{
    let mut members: Vec<(String, Json)> = Vec::new();
    if !read {
        field(&mut members, "present", Json::Bool(false));
        field(&mut members, "count", whole(0));
        let none: Vec<Json> = Vec::new();
        assert(list_view(none@) =~= Seq::empty());
        field(&mut members, "elements", Json::List(none));
        assert(members_view(members@) =~= seq![
            ("present"@, JsonView::Bool(false)),
            ("count"@, JsonView::Number(JsonNumber::Whole(0))),
            ("elements"@, JsonView::List(Seq::empty())),
        ]);
        return Json::Object(members);
    }
    let ghost was = opt_json(parsed);
    let elements = match parsed {
        Some(v) => v,
        None => {
            let none: Vec<Json> = Vec::new();
            assert(list_view(none@) =~= Seq::empty());
            Json::List(none)
        },
    };
    assert(elements@ == kept(was));
    let count: u64 = match &elements {
        Json::List(l) => {
            proof {
                list_view_pointwise(l@);
            }
            l.len() as u64
        },
        _ => 0,
    };
    let age_value = match age {
        Some(n) => whole(n),
        None => Json::Null,
    };
    field(&mut members, "present", Json::Bool(count > 0));
    field(&mut members, "count", whole(count));
    field(&mut members, "age_seconds", age_value);
    field(&mut members, "elements", elements);
    assert(members_view(members@) =~= seq![
        ("present"@, JsonView::Bool(count_of(kept(was)) > 0)),
        ("count"@, JsonView::Number(JsonNumber::Whole(count_of(kept(was)) as u64))),
        ("age_seconds"@, number_or_null(age)),
        ("elements"@, kept(was)),
    ]);
    Json::Object(members)
}

/// A colour as a list of its parts.
pub open spec fn rgb_view(rgb: (u8, u8, u8)) -> JsonView {
    JsonView::List(
        seq![
            JsonView::Number(JsonNumber::Whole(rgb.0 as u64)),
            JsonView::Number(JsonNumber::Whole(rgb.1 as u64)),
            JsonView::Number(JsonNumber::Whole(rgb.2 as u64)),
        ],
    )
}

fn rgb_json(rgb: (u8, u8, u8)) -> (r: Json)
    ensures
        r@ == rgb_view(rgb),
{
    let mut parts: Vec<Json> = Vec::new();
    parts.push(whole(rgb.0 as u64));
    parts.push(whole(rgb.1 as u64));
    parts.push(whole(rgb.2 as u64));
    proof {
        list_view_pointwise(parts@);
        assert(list_view(parts@) =~= rgb_view(rgb)->List_0);
    }
    Json::List(parts)
}

/// The answer of the color tool.
pub open spec fn color_view(rgb: (u8, u8, u8)) -> JsonView {
    JsonView::Object(
        seq![("rgb"@, rgb_view(rgb)), ("hex"@, JsonView::Text(hex_color_text(rgb)))],
    )
}

/// The answer of the color tool.
pub fn color_answer(rgb: (u8, u8, u8)) -> (r: Json)
    ensures
        r@ == color_view(rgb),
{
    let mut members: Vec<(String, Json)> = Vec::new();
    field(&mut members, "rgb", rgb_json(rgb));
    field(&mut members, "hex", Json::Text(hex_color(rgb)));
    assert(members_view(members@) =~= color_view(rgb)->Object_0);
    Json::Object(members)
}

/// The answer of the palette tool: the colours by name and by their parts.
pub open spec fn palette_view(colors: Seq<(u8, u8, u8)>) -> JsonView {
    JsonView::Object(
        seq![
            (
                "palette_hex"@,
                JsonView::List(
                    colors.map_values(|c: (u8, u8, u8)| JsonView::Text(hex_color_text(c))),
                ),
            ),
            (
                "palette_rgb"@,
                JsonView::List(colors.map_values(|c: (u8, u8, u8)| rgb_view(c))),
            ),
        ],
    )
}

/// The answer of the palette tool.
pub fn palette_answer(colors: &[(u8, u8, u8)]) -> (r: Json)
    ensures
        r@ == palette_view(colors@),
{
    let mut names: Vec<Json> = Vec::new();
    let mut parts: Vec<Json> = Vec::new();
    for i in 0..colors.len()
        invariant
            names@.len() == i,
            parts@.len() == i,
            forall|k: int|
                0 <= k < i ==> #[trigger] names@[k]@ == JsonView::Text(hex_color_text(colors@[k])),
            forall|k: int| 0 <= k < i ==> #[trigger] parts@[k]@ == rgb_view(colors@[k]),
    {
        names.push(Json::Text(hex_color(colors[i])));
        parts.push(rgb_json(colors[i]));
    }
    proof {
        list_view_pointwise(names@);
        list_view_pointwise(parts@);
        assert(list_view(names@) =~= colors@.map_values(
            |c: (u8, u8, u8)| JsonView::Text(hex_color_text(c)),
        ));
        assert(list_view(parts@) =~= colors@.map_values(|c: (u8, u8, u8)| rgb_view(c)));
    }
    let mut members: Vec<(String, Json)> = Vec::new();
    field(&mut members, "palette_hex", Json::List(names));
    field(&mut members, "palette_rgb", Json::List(parts));
    assert(members_view(members@) =~= palette_view(colors@)->Object_0);
    Json::Object(members)
}

// ---------------------------------------------------------------------------
// The replica
// ---------------------------------------------------------------------------

/// An optional text, null where it is missing.
pub open spec fn text_or_null(t: Option<Seq<char>>) -> JsonView {
    match t {
        Some(s) => JsonView::Text(s),
        None => JsonView::Null,
    }
}

/// What the main window is handed to show a replica: the page with its files in it, its
/// source as it stands, and the tree that lies beside it.
pub open spec fn replica_view(
    html: Seq<char>,
    source: Seq<char>,
    ax_tree: Option<Seq<char>>,
    title: Option<Seq<char>>,
    dir: Seq<char>,
) -> JsonView {
    JsonView::Object(
        seq![
            ("html"@, JsonView::Text(html)),
            ("source"@, JsonView::Text(source)),
            ("ax_tree"@, text_or_null(ax_tree)),
            (
                "title"@,
                JsonView::Text(
                    match title {
                        Some(t) => t,
                        None => "replica"@,
                    },
                ),
            ),
            ("dir"@, JsonView::Text(dir)),
        ],
    )
}

/// What the main window is handed to show a replica.
pub fn replica_event(
    html: &str,
    source: &str,
    ax_tree: &Option<String>,
    title: Option<&str>,
    dir: &str,
) -> (r: Json)
    ensures
        r@ == replica_view(
            html@,
            source@,
            opt_view(*ax_tree),
            match title {
                Some(t) => Some(t@),
                None => None,
            },
            dir@,
        ),
{
    let tree = match ax_tree {
        Some(t) => text(t.as_str()),
        None => Json::Null,
    };
    let named = match title {
        Some(t) => text(t),
        None => text("replica"),
    };
    let ghost want = replica_view(
        html@,
        source@,
        opt_view(*ax_tree),
        match title {
            Some(t) => Some(t@),
            None => None,
        },
        dir@,
    );
    let mut members: Vec<(String, Json)> = Vec::new();
    field(&mut members, "html", text(html));
    field(&mut members, "source", text(source));
    field(&mut members, "ax_tree", tree);
    field(&mut members, "title", named);
    field(&mut members, "dir", text(dir));
    assert(members_view(members@) =~= want->Object_0);
    Json::Object(members)
}

/// The answer of the tool that shows a replica.
pub open spec fn shown_view(dir: Seq<char>, with_tree: bool) -> JsonView {
    JsonView::Object(
        seq![
            ("shown"@, JsonView::Bool(true)),
            ("dir"@, JsonView::Text(dir)),
            ("ax_tree"@, JsonView::Bool(with_tree)),
            (
                "note"@,
                JsonView::Text(
                    "Replica is now in the app's result panel (Preview / HTML / AX Tree)."@,
                ),
            ),
        ],
    )
}

/// The answer of the tool that shows a replica.
pub fn shown_answer(dir: &str, with_tree: bool) -> (r: Json)
    ensures
        r@ == shown_view(dir@, with_tree),
{
    let mut members: Vec<(String, Json)> = Vec::new();
    field(&mut members, "shown", Json::Bool(true));
    field(&mut members, "dir", text(dir));
    field(&mut members, "ax_tree", Json::Bool(with_tree));
    field(
        &mut members,
        "note",
        text("Replica is now in the app's result panel (Preview / HTML / AX Tree)."),
    );
    assert(members_view(members@) =~= shown_view(dir@, with_tree)->Object_0);
    Json::Object(members)
}

// ---------------------------------------------------------------------------
// The harvest
// ---------------------------------------------------------------------------

/// The values of a member that is a list.
pub open spec fn listed(v: JsonView, key: Seq<char>) -> Seq<JsonView> {
    match v.member(key) {
        Some(JsonView::List(l)) => l,
        _ => Seq::empty(),
    }
}

/// A font of the harvest.
pub open spec fn font_in(v: JsonView) -> FontView {
    FontView {
        base64: v.member_text("base64"@),
        family: v.member_text("family"@),
        weight: v.member_text("weight"@),
        style: v.member_text("style"@),
        format: v.member_text("format"@),
    }
}

/// The fonts of the harvest.
pub open spec fn fonts_in(manifest: JsonView) -> Seq<FontView> {
    listed(manifest, "fonts"@).map_values(|v: JsonView| font_in(v))
}

/// An image of the harvest.
pub open spec fn image_in(v: JsonView) -> ImageView {
    ImageView {
        base64: v.member_text("base64"@),
        label: v.member_text("label"@),
        mime: v.member_text("mime"@),
        via: v.member_text("via"@),
    }
}

/// The images of the harvest.
pub open spec fn images_in(manifest: JsonView) -> Seq<ImageView> {
    listed(manifest, "images"@).map_values(|v: JsonView| image_in(v))
}

fn text_in(v: &Json, key: &str) -> (r: Option<String>)
    ensures
        opt_view(r) == v@.member_text(key@),
{
    match v.get_str(key) {
        Some(s) => Some(copy_of(s)),
        None => None,
    }
}

/// The font files that a harvest calls for.
pub fn fonts_to_write(manifest: &Json) -> (r: Vec<FontFile>)
    ensures
        r@.map_values(|f: FontFile| f@) == font_files(fonts_in(manifest@)),
{
    let mut fonts: Vec<HarvestedFont> = Vec::new();
    if let Some(Json::List(list)) = manifest.get("fonts") {
        proof {
            list_view_pointwise(list@);
        }
        for i in 0..list.len()
            invariant
                list_view(list@).len() == list@.len(),
                forall|k: int| 0 <= k < list@.len() ==> #[trigger] list_view(list@)[k] == list@[k]@,
                fonts@.len() == i,
                forall|k: int|
                    0 <= k < i ==> #[trigger] fonts@[k]@ == font_in(list_view(list@)[k]),
        {
            let f = &list[i];
            fonts.push(
                HarvestedFont {
                    base64: text_in(f, "base64"),
                    family: text_in(f, "family"),
                    weight: text_in(f, "weight"),
                    style: text_in(f, "style"),
                    format: text_in(f, "format"),
                },
            );
            assert(fonts@[i as int]@ =~= font_in(list_view(list@)[i as int]));
        }
    }
    assert(font_views(fonts@) =~= fonts_in(manifest@));
    plan_fonts(&fonts)
}

/// The image files that a harvest calls for.
pub fn images_to_write(manifest: &Json) -> (r: Vec<ImageFile>)
    ensures
        r@.map_values(|f: ImageFile| f@) == image_files(images_in(manifest@)),
{
    let mut images: Vec<HarvestedImage> = Vec::new();
    if let Some(Json::List(list)) = manifest.get("images") {
        proof {
            list_view_pointwise(list@);
        }
        for i in 0..list.len()
            invariant
                list_view(list@).len() == list@.len(),
                forall|k: int| 0 <= k < list@.len() ==> #[trigger] list_view(list@)[k] == list@[k]@,
                images@.len() == i,
                forall|k: int|
                    0 <= k < i ==> #[trigger] images@[k]@ == image_in(list_view(list@)[k]),
        {
            let im = &list[i];
            images.push(
                HarvestedImage {
                    base64: text_in(im, "base64"),
                    label: text_in(im, "label"),
                    mime: text_in(im, "mime"),
                    via: text_in(im, "via"),
                },
            );
            assert(images@[i as int]@ =~= image_in(list_view(list@)[i as int]));
        }
    }
    assert(image_views(images@) =~= images_in(manifest@));
    plan_images(&images)
}

/// The first text among the members, from the `i`th on, that is an `<svg>` element.
pub open spec fn svg_from(members: Seq<(Seq<char>, JsonView)>, i: int) -> Option<Seq<char>>
    decreases members.len() - i,
{
    if i < 0 || i >= members.len() {
        None
    } else {
        match members[i].1 {
            JsonView::Text(t) => if begins(t, "<svg"@) {
                Some(t)
            } else {
                svg_from(members, i + 1)
            },
            _ => svg_from(members, i + 1),
        }
    }
}

/// The `<svg>` element that an icon of the harvest holds.
pub open spec fn svg_in(v: JsonView) -> Option<Seq<char>> {
    match v {
        JsonView::Object(members) => svg_from(members, 0),
        _ => None,
    }
}

/// An inline icon of the harvest.
pub open spec fn icon_in(v: JsonView) -> IconView {
    IconView { markup: svg_in(v), data_qa: v.member_text("data-qa"@) }
}

/// The inline icons of the harvest.
pub open spec fn svg_icons_in(manifest: JsonView) -> Seq<IconView> {
    listed(manifest, "svgIcons"@).map_values(|v: JsonView| icon_in(v))
}

fn svg_of(v: &Json) -> (r: Option<String>)
    ensures
        opt_view(r) == svg_in(v@),
{
    match v {
        Json::Object(members) => {
            let ghost views = members_view(members@);
            proof {
                members_view_pointwise(members@);
            }
            for i in 0..members.len()
                invariant
                    views == members_view(members@),
                    views.len() == members@.len(),
                    forall|k: int|
                        0 <= k < members@.len() ==> #[trigger] views[k] == (
                            members@[k].0@,
                            members@[k].1@,
                        ),
                    svg_from(views, 0) == svg_from(views, i as int),
                    v@ == JsonView::Object(views),
            {
                assert(views[i as int] == (members@[i as int].0@, members@[i as int].1@));
                if let Json::Text(t) = &members[i].1 {
                    if starts_with(t.as_str(), "<svg") {
                        return Some(copy_of(t.as_str()));
                    }
                }
            }
            None
        },
        _ => None,
    }
}

/// The icon files that a harvest calls for.
pub fn svg_icons_to_write(manifest: &Json) -> (r: Vec<IconFile>)
    ensures
        r@.map_values(|f: IconFile| f@) == icon_files(svg_icons_in(manifest@)),
{
    let mut icons: Vec<HarvestedIcon> = Vec::new();
    if let Some(Json::List(list)) = manifest.get("svgIcons") {
        proof {
            list_view_pointwise(list@);
        }
        for i in 0..list.len()
            invariant
                list_view(list@).len() == list@.len(),
                forall|k: int| 0 <= k < list@.len() ==> #[trigger] list_view(list@)[k] == list@[k]@,
                icons@.len() == i,
                forall|k: int|
                    0 <= k < i ==> #[trigger] icons@[k]@ == icon_in(list_view(list@)[k]),
        {
            let ic = &list[i];
            icons.push(HarvestedIcon { markup: svg_of(ic), data_qa: text_in(ic, "data-qa") });
            assert(icons@[i as int]@ =~= icon_in(list_view(list@)[i as int]));
        }
    }
    assert(icon_views(icons@) =~= svg_icons_in(manifest@));
    plan_icons(&icons)
}

/// The report of a font file that was written to `path`.
pub open spec fn font_entry_view(f: FontFileView, path: Seq<char>) -> JsonView {
    JsonView::Object(
        seq![
            ("family"@, JsonView::Text(f.family)),
            ("weight"@, JsonView::Text(f.weight)),
            ("style"@, JsonView::Text(f.style)),
            ("format"@, JsonView::Text(f.format)),
            ("file"@, JsonView::Text(path)),
            ("bytes"@, JsonView::Number(JsonNumber::Whole(f.bytes.len() as u64))),
        ],
    )
}

/// The report of a font file that was written to `path`.
pub fn font_entry(f: &FontFile, path: &str) -> (r: Json)
    ensures
        r@ == font_entry_view(f@, path@),
{
    let mut members: Vec<(String, Json)> = Vec::new();
    field(&mut members, "family", text(f.family.as_str()));
    field(&mut members, "weight", text(f.weight.as_str()));
    field(&mut members, "style", text(f.style.as_str()));
    field(&mut members, "format", text(f.format.as_str()));
    field(&mut members, "file", text(path));
    field(&mut members, "bytes", whole(f.bytes.len() as u64));
    assert(members_view(members@) =~= font_entry_view(f@, path@)->Object_0);
    Json::Object(members)
}

/// Where the image stood on the page, null where the harvest does not say.
pub open spec fn rect_in(manifest: JsonView, source: int) -> JsonView {
    let images = listed(manifest, "images"@);
    if 0 <= source < images.len() {
        match images[source].member("rect"@) {
            Some(v) => v,
            None => JsonView::Null,
        }
    } else {
        JsonView::Null
    }
}

fn rect_of(manifest: &Json, source: usize) -> (r: Json)
    ensures
        r@ == rect_in(manifest@, source as int),
{
    if let Some(Json::List(list)) = manifest.get("images") {
        proof {
            list_view_pointwise(list@);
        }
        if source < list.len() {
            assert(list_view(list@)[source as int] == list@[source as int]@);
            if let Some(v) = list[source].get("rect") {
                return v.clone();
            }
        }
    }
    Json::Null
}

/// The report of an image file that was written to `path`.
pub open spec fn image_entry_view(f: ImageFileView, path: Seq<char>, manifest: JsonView) -> JsonView {
    JsonView::Object(
        seq![
            ("label"@, JsonView::Text(f.label)),
            ("file"@, JsonView::Text(path)),
            ("rect_points"@, rect_in(manifest, f.source)),
            ("via"@, JsonView::Text(f.via)),
            ("bytes"@, JsonView::Number(JsonNumber::Whole(f.bytes.len() as u64))),
        ],
    )
}

/// The report of an image file that was written to `path`.
pub fn image_entry(f: &ImageFile, path: &str, manifest: &Json) -> (r: Json)
    ensures
        r@ == image_entry_view(f@, path@, manifest@),
{
    let mut members: Vec<(String, Json)> = Vec::new();
    field(&mut members, "label", text(f.label.as_str()));
    field(&mut members, "file", text(path));
    field(&mut members, "rect_points", rect_of(manifest, f.source));
    field(&mut members, "via", text(f.via.as_str()));
    field(&mut members, "bytes", whole(f.bytes.len() as u64));
    assert(members_view(members@) =~= image_entry_view(f@, path@, manifest@)->Object_0);
    Json::Object(members)
}

/// A member, or an empty list where there is none.
pub open spec fn member_or_none(v: JsonView, key: Seq<char>) -> JsonView {
    match v.member(key) {
        Some(m) => m,
        None => JsonView::List(Seq::empty()),
    }
}

fn member_copy(v: &Json, key: &str) -> (r: Json)
    ensures
        r@ == member_or_none(v@, key@),
{
    match v.get(key) {
        Some(m) => m.clone(),
        None => {
            let none: Vec<Json> = Vec::new();
            assert(list_view(none@) =~= Seq::empty());
            Json::List(none)
        },
    }
}

/// The answer of the harvest tool.
pub open spec fn harvest_view(
    port: u16,
    assets_dir: Seq<char>,
    fonts: Seq<JsonView>,
    images: Seq<JsonView>,
    manifest: JsonView,
) -> JsonView {
    JsonView::Object(
        seq![
            ("port"@, JsonView::Number(JsonNumber::Whole(port as u64))),
            ("assets_dir"@, JsonView::Text(assets_dir)),
            ("fonts"@, JsonView::List(fonts)),
            ("images"@, JsonView::List(images)),
            ("icons"@, member_or_none(manifest, "icons"@)),
            ("svgIcons"@, member_or_none(manifest, "svgIcons"@)),
            ("warnings"@, member_or_none(manifest, "warnings"@)),
        ],
    )
}

/// The answer of the harvest tool, given the reports of the files that were written.
pub fn harvest_answer(
    port: u16,
    assets_dir: &str,
    fonts: Vec<Json>,
    images: Vec<Json>,
    manifest: &Json,
) -> (r: Json)
    ensures
        r@ == harvest_view(
            port,
            assets_dir@,
            list_view(fonts@),
            list_view(images@),
            manifest@,
        ),
{
    let ghost view = harvest_view(
        port,
        assets_dir@,
        list_view(fonts@),
        list_view(images@),
        manifest@,
    );
    let mut members: Vec<(String, Json)> = Vec::new();
    field(&mut members, "port", whole(port as u64));
    field(&mut members, "assets_dir", text(assets_dir));
    field(&mut members, "fonts", Json::List(fonts));
    field(&mut members, "images", Json::List(images));
    field(&mut members, "icons", member_copy(manifest, "icons"));
    field(&mut members, "svgIcons", member_copy(manifest, "svgIcons"));
    field(&mut members, "warnings", member_copy(manifest, "warnings"));
    assert(members_view(members@) =~= view->Object_0);
    Json::Object(members)
}

// ---------------------------------------------------------------------------
// What the answers tell
// ---------------------------------------------------------------------------

proof fn color_keys_differ()
    ensures
        "rgb"@ != "hex"@,
        "palette_hex"@ != "palette_rgb"@,
{
    reveal_strlit("rgb");
    reveal_strlit("hex");
    reveal_strlit("palette_hex");
    reveal_strlit("palette_rgb");
    assert("rgb"@.len() == 3 && "hex"@.len() == 3 && "palette_hex"@.len() == 11 && "palette_rgb"@.len() == 11);
    assert("hex"@[0] == 'h' && "palette_hex"@[8] == 'h' && "palette_rgb"@[8] == 'r' && "rgb"@[0] == 'r');
}

proof fn replica_keys_differ()
    ensures
        "html"@ != "source"@,
        "html"@ != "ax_tree"@,
        "html"@ != "title"@,
        "html"@ != "dir"@,
        "source"@ != "ax_tree"@,
        "source"@ != "title"@,
        "source"@ != "dir"@,
        "ax_tree"@ != "title"@,
        "ax_tree"@ != "dir"@,
        "title"@ != "dir"@,
        "shown"@ != "dir"@,
        "shown"@ != "ax_tree"@,
        "shown"@ != "note"@,
        "dir"@ != "ax_tree"@,
        "dir"@ != "note"@,
        "ax_tree"@ != "note"@,
{
    reveal_strlit("html");
    reveal_strlit("source");
    reveal_strlit("ax_tree");
    reveal_strlit("title");
    reveal_strlit("dir");
    reveal_strlit("shown");
    reveal_strlit("note");
    assert("html"@.len() == 4 && "source"@.len() == 6 && "ax_tree"@.len() == 7 && "title"@.len() == 5 && "dir"@.len() == 3 && "shown"@.len() == 5 && "note"@.len() == 4);
}

proof fn file_keys_differ()
    ensures
        "family"@ != "weight"@,
        "family"@ != "style"@,
        "family"@ != "format"@,
        "family"@ != "file"@,
        "family"@ != "bytes"@,
        "weight"@ != "style"@,
        "weight"@ != "format"@,
        "weight"@ != "file"@,
        "weight"@ != "bytes"@,
        "style"@ != "format"@,
        "style"@ != "file"@,
        "style"@ != "bytes"@,
        "format"@ != "file"@,
        "format"@ != "bytes"@,
        "file"@ != "bytes"@,
        "label"@ != "file"@,
        "label"@ != "rect_points"@,
        "label"@ != "via"@,
        "label"@ != "bytes"@,
        "file"@ != "rect_points"@,
        "file"@ != "via"@,
        "rect_points"@ != "via"@,
        "rect_points"@ != "bytes"@,
        "via"@ != "bytes"@,
{
    reveal_strlit("family");
    reveal_strlit("weight");
    reveal_strlit("style");
    reveal_strlit("format");
    reveal_strlit("file");
    reveal_strlit("bytes");
    reveal_strlit("label");
    reveal_strlit("rect_points");
    reveal_strlit("via");
    assert("family"@.len() == 6 && "weight"@.len() == 6 && "style"@.len() == 5 && "format"@.len() == 6 && "file"@.len() == 4 && "bytes"@.len() == 5 && "label"@.len() == 5 && "rect_points"@.len() == 11 && "via"@.len() == 3);
    assert("bytes"@[0] == 'b' && "family"@[0] == 'f' && "family"@[1] == 'a' && "format"@[0] == 'f' && "format"@[1] == 'o' && "label"@[0] == 'l' && "style"@[0] == 's' && "weight"@[0] == 'w');
}

proof fn harvest_keys_differ()
    ensures
        "port"@ != "assets_dir"@,
        "port"@ != "fonts"@,
        "port"@ != "images"@,
        "port"@ != "icons"@,
        "port"@ != "svgIcons"@,
        "port"@ != "warnings"@,
        "assets_dir"@ != "fonts"@,
        "assets_dir"@ != "images"@,
        "assets_dir"@ != "icons"@,
        "assets_dir"@ != "svgIcons"@,
        "assets_dir"@ != "warnings"@,
        "fonts"@ != "images"@,
        "fonts"@ != "icons"@,
        "fonts"@ != "svgIcons"@,
        "fonts"@ != "warnings"@,
        "images"@ != "icons"@,
        "images"@ != "svgIcons"@,
        "images"@ != "warnings"@,
        "icons"@ != "svgIcons"@,
        "icons"@ != "warnings"@,
        "svgIcons"@ != "warnings"@,
{
    reveal_strlit("port");
    reveal_strlit("assets_dir");
    reveal_strlit("fonts");
    reveal_strlit("images");
    reveal_strlit("icons");
    reveal_strlit("svgIcons");
    reveal_strlit("warnings");
    assert("port"@.len() == 4 && "assets_dir"@.len() == 10 && "fonts"@.len() == 5 && "images"@.len() == 6 && "icons"@.len() == 5 && "svgIcons"@.len() == 8 && "warnings"@.len() == 8);
    assert("fonts"@[0] == 'f' && "icons"@[0] == 'i' && "svgIcons"@[0] == 's' && "warnings"@[0] == 'w');
}

/// A text names a colour: a hash, and two hexadecimal digits each for its red, its green
/// and its blue.
pub open spec fn names_color(s: Seq<char>, rgb: (u8, u8, u8)) -> bool {
    &&& s.len() == 7 && s[0] == '#'
    &&& 16 * hex_value(s[1]) + hex_value(s[2]) == rgb.0
    &&& 16 * hex_value(s[3]) + hex_value(s[4]) == rgb.1
    &&& 16 * hex_value(s[5]) + hex_value(s[6]) == rgb.2
}

/// A value gives a colour by its parts: red, green and blue.
pub open spec fn gives_parts(v: JsonView, rgb: (u8, u8, u8)) -> bool {
    v matches JsonView::List(l) && l.len() == 3 && l[0].whole() == Some(rgb.0 as u64)
        && l[1].whole() == Some(rgb.1 as u64) && l[2].whole() == Some(rgb.2 as u64)
}

/// The color tool tells the colour by its parts and by its name.
pub proof fn the_color_is_told_twice(rgb: (u8, u8, u8))
    ensures
        color_view(rgb).member("rgb"@) matches Some(v) && gives_parts(v, rgb),
        color_view(rgb).member_text("hex"@) matches Some(s) && names_color(s, rgb),
{
    color_keys_differ();
    hex_color_reads_back(rgb);
    let m = color_view(rgb)->Object_0;
    a_member_is_the_first_with_its_key(m, "rgb"@, 0);
    a_member_is_the_first_with_its_key(m, "hex"@, 1);
}

/// The palette tool tells every colour by its name and by its parts, in one order.
pub proof fn every_color_is_told_twice(colors: Seq<(u8, u8, u8)>, i: int)
    requires
        0 <= i < colors.len(),
    ensures
        palette_view(colors).member("palette_hex"@) matches Some(JsonView::List(l)) && l.len()
            == colors.len() && (l[i] matches JsonView::Text(s) && names_color(s, colors[i])),
        palette_view(colors).member("palette_rgb"@) matches Some(JsonView::List(l)) && l.len()
            == colors.len() && gives_parts(l[i], colors[i]),
{
    color_keys_differ();
    hex_color_reads_back(colors[i]);
    let m = palette_view(colors)->Object_0;
    a_member_is_the_first_with_its_key(m, "palette_hex"@, 0);
    a_member_is_the_first_with_its_key(m, "palette_rgb"@, 1);
}

/// The main window is handed the page, its source, its tree, its title and its folder, each
/// by its name; a page without a title goes by `replica`.
pub proof fn a_replica_is_handed_by_name(
    html: Seq<char>,
    source: Seq<char>,
    ax_tree: Option<Seq<char>>,
    title: Option<Seq<char>>,
    dir: Seq<char>,
)
    ensures
        ({
            let v = replica_view(html, source, ax_tree, title, dir);
            &&& v.member_text("html"@) == Some(html)
            &&& v.member_text("source"@) == Some(source)
            &&& v.member_text("ax_tree"@) == ax_tree
            &&& ax_tree is None ==> v.member("ax_tree"@) == Some(JsonView::Null)
            &&& v.member_text("title"@) == Some(
                if title is Some {
                    title->0
                } else {
                    "replica"@
                },
            )
            &&& v.member_text("dir"@) == Some(dir)
        }),
{
    replica_keys_differ();
    let m = replica_view(html, source, ax_tree, title, dir)->Object_0;
    a_member_is_the_first_with_its_key(m, "html"@, 0);
    a_member_is_the_first_with_its_key(m, "source"@, 1);
    a_member_is_the_first_with_its_key(m, "ax_tree"@, 2);
    a_member_is_the_first_with_its_key(m, "title"@, 3);
    a_member_is_the_first_with_its_key(m, "dir"@, 4);
}

/// The tool that shows a replica says that it did, which one, and whether it has a tree.
pub proof fn a_shown_replica_is_told(dir: Seq<char>, with_tree: bool)
    ensures
        shown_view(dir, with_tree).member("shown"@) == Some(JsonView::Bool(true)),
        shown_view(dir, with_tree).member_text("dir"@) == Some(dir),
        shown_view(dir, with_tree).member("ax_tree"@) == Some(JsonView::Bool(with_tree)),
{
    replica_keys_differ();
    let m = shown_view(dir, with_tree)->Object_0;
    a_member_is_the_first_with_its_key(m, "shown"@, 0);
    a_member_is_the_first_with_its_key(m, "dir"@, 1);
    a_member_is_the_first_with_its_key(m, "ax_tree"@, 2);
}

/// What the harvest says of a font, an image or an icon is read by its name.
pub proof fn what_is_harvested_is_read_by_name(v: JsonView, t: Seq<char>)
    ensures
        v.member("base64"@) == Some(JsonView::Text(t)) ==> font_in(v).base64 == Some(t) && image_in(
            v,
        ).base64 == Some(t),
        v.member("family"@) == Some(JsonView::Text(t)) ==> font_in(v).family == Some(t),
        v.member("weight"@) == Some(JsonView::Text(t)) ==> font_in(v).weight == Some(t),
        v.member("style"@) == Some(JsonView::Text(t)) ==> font_in(v).style == Some(t),
        v.member("format"@) == Some(JsonView::Text(t)) ==> font_in(v).format == Some(t),
        v.member("label"@) == Some(JsonView::Text(t)) ==> image_in(v).label == Some(t),
        v.member("mime"@) == Some(JsonView::Text(t)) ==> image_in(v).mime == Some(t),
        v.member("via"@) == Some(JsonView::Text(t)) ==> image_in(v).via == Some(t),
        v.member("data-qa"@) == Some(JsonView::Text(t)) ==> icon_in(v).data_qa == Some(t),
        v.member("family"@) is None ==> font_in(v).family is None,
        v.member("label"@) is None ==> image_in(v).label is None,
{
}

/// Each font, image and icon of the harvest is read, in order.
pub proof fn all_that_is_harvested_is_read(manifest: JsonView, l: Seq<JsonView>, i: int)
    requires
        0 <= i < l.len(),
    ensures
        manifest.member("fonts"@) == Some(JsonView::List(l)) ==> fonts_in(manifest).len() == l.len()
            && fonts_in(manifest)[i] == font_in(l[i]),
        manifest.member("images"@) == Some(JsonView::List(l)) ==> images_in(manifest).len()
            == l.len() && images_in(manifest)[i] == image_in(l[i]),
        manifest.member("svgIcons"@) == Some(JsonView::List(l)) ==> svg_icons_in(manifest).len()
            == l.len() && svg_icons_in(manifest)[i] == icon_in(l[i]),
{
}

proof fn svg_from_is_first(members: Seq<(Seq<char>, JsonView)>, from: int, i: int)
    requires
        0 <= from <= i < members.len(),
        members[i].1 matches JsonView::Text(t) && begins(t, "<svg"@),
        forall|j: int|
            from <= j < i ==> ((#[trigger] members[j]).1 matches JsonView::Text(t) ==> !begins(
                t,
                "<svg"@,
            )),
    ensures
        svg_from(members, from) == Some(members[i].1->Text_0),
    decreases i - from,
{
    if from < i {
        assert(members[from].1 matches JsonView::Text(t) ==> !begins(t, "<svg"@));
        svg_from_is_first(members, from + 1, i);
    }
}

/// The markup of an icon is the first of its texts that is an `<svg>` element, as it
/// stands.
pub proof fn the_first_svg_is_the_markup(members: Seq<(Seq<char>, JsonView)>, i: int)
    requires
        0 <= i < members.len(),
        members[i].1 matches JsonView::Text(t) && begins(t, "<svg"@),
        forall|j: int|
            0 <= j < i ==> ((#[trigger] members[j]).1 matches JsonView::Text(t) ==> !begins(
                t,
                "<svg"@,
            )),
    ensures
        icon_in(JsonView::Object(members)).markup == Some(members[i].1->Text_0),
{
    svg_from_is_first(members, 0, i);
}

/// The report of a font tells it by name, where it was written, and how many bytes it has.
pub proof fn a_font_is_reported(f: FontFileView, path: Seq<char>)
    requires
        f.bytes.len() <= u64::MAX,
    ensures
        ({
            let v = font_entry_view(f, path);
            &&& v.member_text("family"@) == Some(f.family)
            &&& v.member_text("weight"@) == Some(f.weight)
            &&& v.member_text("style"@) == Some(f.style)
            &&& v.member_text("format"@) == Some(f.format)
            &&& v.member_text("file"@) == Some(path)
            &&& v.member("bytes"@) matches Some(n) && (n.whole() matches Some(k) && k as nat
                == f.bytes.len())
        }),
{
    file_keys_differ();
    let m = font_entry_view(f, path)->Object_0;
    a_member_is_the_first_with_its_key(m, "family"@, 0);
    a_member_is_the_first_with_its_key(m, "weight"@, 1);
    a_member_is_the_first_with_its_key(m, "style"@, 2);
    a_member_is_the_first_with_its_key(m, "format"@, 3);
    a_member_is_the_first_with_its_key(m, "file"@, 4);
    a_member_is_the_first_with_its_key(m, "bytes"@, 5);
}

/// The report of an image tells its label, where it was written, where it stood on the
/// page, how it was read, and how many bytes it has.
pub proof fn an_image_is_reported(
    f: ImageFileView,
    path: Seq<char>,
    manifest: JsonView,
    l: Seq<JsonView>,
)
    requires
        f.bytes.len() <= u64::MAX,
        manifest.member("images"@) == Some(JsonView::List(l)),
        0 <= f.source < l.len(),
    ensures
        ({
            let v = image_entry_view(f, path, manifest);
            &&& v.member_text("label"@) == Some(f.label)
            &&& v.member_text("file"@) == Some(path)
            &&& l[f.source].member("rect"@) matches Some(r) ==> v.member("rect_points"@) == Some(r)
            &&& l[f.source].member("rect"@) is None ==> v.member("rect_points"@) == Some(
                JsonView::Null,
            )
            &&& v.member_text("via"@) == Some(f.via)
            &&& v.member("bytes"@) matches Some(n) && (n.whole() matches Some(k) && k as nat
                == f.bytes.len())
        }),
{
    file_keys_differ();
    let m = image_entry_view(f, path, manifest)->Object_0;
    a_member_is_the_first_with_its_key(m, "label"@, 0);
    a_member_is_the_first_with_its_key(m, "file"@, 1);
    a_member_is_the_first_with_its_key(m, "rect_points"@, 2);
    a_member_is_the_first_with_its_key(m, "via"@, 3);
    a_member_is_the_first_with_its_key(m, "bytes"@, 4);
}

/// The answer of the harvest tool tells the port, the folder, and by name what was found;
/// what the page says of its icons and warnings is passed on as it is.
pub proof fn a_harvest_is_told(
    port: u16,
    assets_dir: Seq<char>,
    fonts: Seq<JsonView>,
    images: Seq<JsonView>,
    manifest: JsonView,
)
    ensures
        ({
            let v = harvest_view(port, assets_dir, fonts, images, manifest);
            &&& v.member("port"@) matches Some(n) && n.whole() == Some(port as u64)
            &&& v.member_text("assets_dir"@) == Some(assets_dir)
            &&& v.member("fonts"@) == Some(JsonView::List(fonts))
            &&& v.member("images"@) == Some(JsonView::List(images))
            &&& manifest.member("icons"@) is Some ==> v.member("icons"@) == manifest.member(
                "icons"@,
            )
            &&& manifest.member("svgIcons"@) is Some ==> v.member("svgIcons"@) == manifest.member(
                "svgIcons"@,
            )
            &&& manifest.member("warnings"@) is Some ==> v.member("warnings"@) == manifest.member(
                "warnings"@,
            )
            &&& manifest.member("warnings"@) is None ==> v.member("warnings"@) == Some(
                JsonView::List(Seq::empty()),
            )
        }),
{
    harvest_keys_differ();
    let m = harvest_view(port, assets_dir, fonts, images, manifest)->Object_0;
    a_member_is_the_first_with_its_key(m, "port"@, 0);
    a_member_is_the_first_with_its_key(m, "assets_dir"@, 1);
    a_member_is_the_first_with_its_key(m, "fonts"@, 2);
    a_member_is_the_first_with_its_key(m, "images"@, 3);
    a_member_is_the_first_with_its_key(m, "icons"@, 4);
    a_member_is_the_first_with_its_key(m, "svgIcons"@, 5);
    a_member_is_the_first_with_its_key(m, "warnings"@, 6);
}

} // verus!
