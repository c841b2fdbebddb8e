//! TOON + HTML emission for native captures.

use crate::ax_macos::{count_nodes, size, Node};
use crate::bundle_macos::BundleSummary;
use crate::capture::{
    half_even, push_whole_points, tells_points, whole_points, whole_points_read_back,
    whole_points_text, PickedElement, ScreenRect,
};
use crate::double::{nearest, nearest_double, nearest_is_near};
use crate::text::{
    begins, copy_of, decimal, decimal_reads_back, decimal_text, ends, escape_quotes, hex_color,
    hex_color_text, html_escape, html_text, join, joined, joined_holds_each, min_len, occurs,
    occurs_in_first, occurs_in_itself, occurs_in_second, occurs_through, part_occurs, quoted_text,
    read_decimal, same, take_chars, texts,
};
use vstd::prelude::*;

verus! {

// ---------------------------------------------------------------------------
// TOON
// ---------------------------------------------------------------------------

/// `before`, `s` and `after`, where there is an `s`.
pub open spec fn around(before: Seq<char>, s: Option<String>, after: Seq<char>) -> Seq<char> {
    match s {
        Some(t) => before + t@ + after,
        None => Seq::empty(),
    }
}

/// The first 80 characters of `s` between `before` and a quote, its quotes escaped;
/// nothing where `s` is empty.
pub open spec fn quoted_field(before: Seq<char>, s: Seq<char>) -> Seq<char> {
    if s.len() == 0 {
        Seq::empty()
    } else {
        before + quoted_text(s.take(min_len(80, s.len() as int))) + "\""@
    }
}

/// A node's position and size.
pub open spec fn toon_bounds(b: Option<ScreenRect>) -> Seq<char> {
    match b {
        Some(b) => " pos=("@ + whole_points(b.x as int) + ","@ + whole_points(b.y as int)
            + ") size=("@ + whole_points(b.w as int) + "x"@ + whole_points(b.h as int) + ")"@,
        None => Seq::empty(),
    }
}

/// A node's background colour.
pub open spec fn toon_bg(bg: Option<(u8, u8, u8)>) -> Seq<char> {
    match bg {
        Some(rgb) => " bg="@ + hex_color_text(rgb),
        None => Seq::empty(),
    }
}

/// One line for a node, without its end: role, name, value, bounds, colour,
/// identifier and description.
pub open spec fn toon_line(n: Node, pad: Seq<char>) -> Seq<char> {
    pad + n.role@ + around(":"@, n.subrole, ""@) + quoted_field(" \""@, n.name@) + (match n.value {
        Some(v) => quoted_field(" value=\""@, v@),
        None => Seq::empty(),
    }) + toon_bounds(n.bounds) + toon_bg(n.bg) + around(" #"@, n.identifier, ""@) + around(
        " ("@,
        n.role_description,
        ")"@,
    )
}

/// A node with what is below it: one line for a leaf; for others the children, each
/// two blanks further in, between braces.
pub open spec fn toon_node(n: Node, pad: Seq<char>) -> Seq<char>
    decreases n,
{
    if n.children@.len() == 0 {
        toon_line(n, pad) + "\n"@
    } else {
        toon_line(n, pad) + " {\n"@ + toon_nodes(n.children@, pad + "  "@) + pad + "}\n"@
    }
}

/// Nodes one below the other.
pub open spec fn toon_nodes(s: Seq<Node>, pad: Seq<char>) -> Seq<char>
    decreases s,
{
    if s.len() == 0 {
        Seq::empty()
    } else {
        toon_nodes(s.drop_last(), pad) + toon_node(s.last(), pad)
    }
}

fn push_around(out: &mut String, before: &str, s: &Option<String>, after: &str)
    ensures
        final(out)@ == old(out)@ + around(before@, *s, after@),
{
    let ghost start = out@;
    if let Some(t) = s {
        out.push_str(before);
        out.push_str(t.as_str());
        out.push_str(after);
    }
    assert(out@ =~= start + around(before@, *s, after@));
}

fn push_quoted_field(out: &mut String, before: &str, s: &str)
    ensures
        final(out)@ == old(out)@ + quoted_field(before@, s@),
{
    let ghost start = out@;
    if !s.is_empty() {
        out.push_str(before);
        out.push_str(escape_quotes(take_chars(s, 80).as_str()).as_str());
        out.push_str("\"");
    }
    assert(out@ =~= start + quoted_field(before@, s@));
}

fn toon_bounds_text(b: &Option<ScreenRect>) -> (r: String)
    ensures
        r@ == toon_bounds(*b),
{
    match b {
        Some(b) => {
            let mut out = copy_of(" pos=(");
            push_whole_points(&mut out, b.x as i128);
            out.push_str(",");
            push_whole_points(&mut out, b.y as i128);
            out.push_str(") size=(");
            push_whole_points(&mut out, b.w as i128);
            out.push_str("x");
            push_whole_points(&mut out, b.h as i128);
            out.push_str(")");
            out
        },
        None => String::new(),
    }
}

fn toon_bg_text(bg: &Option<(u8, u8, u8)>) -> (r: String)
    ensures
        r@ == toon_bg(*bg),
{
    match bg {
        Some(rgb) => {
            let mut out = copy_of(" bg=");
            out.push_str(hex_color(*rgb).as_str());
            out
        },
        None => String::new(),
    }
}

fn toon_line_text(n: &Node, pad: &str) -> (r: String)
    ensures
        r@ == toon_line(*n, pad@),
{
    let mut line = copy_of(pad);
    line.push_str(n.role.as_str());
    push_around(&mut line, ":", &n.subrole, "");
    push_quoted_field(&mut line, " \"", n.name.as_str());
    let ghost so_far = line@;
    if let Some(v) = &n.value {
        push_quoted_field(&mut line, " value=\"", v.as_str());
    }
    assert(line@ =~= so_far + (match n.value {
        Some(v) => quoted_field(" value=\""@, v@),
        None => Seq::empty(),
    }));
    line.push_str(toon_bounds_text(&n.bounds).as_str());
    line.push_str(toon_bg_text(&n.bg).as_str());
    push_around(&mut line, " #", &n.identifier, "");
    push_around(&mut line, " (", &n.role_description, ")");
    line
}

fn emit_toon_node(node: &Node, pad: &str, out: &mut String)
    ensures
        final(out)@ == old(out)@ + toon_node(*node, pad@),
    decreases node,
{
    let ghost before = out@;
    let line = toon_line_text(node, pad);
    if node.children.len() == 0 {
        out.push_str(line.as_str());
        out.push_str("\n");
        assert(out@ =~= before + toon_node(*node, pad@));
        return;
    }
    out.push_str(line.as_str());
    out.push_str(" {\n");
    let ghost head = out@;
    let mut inner = copy_of(pad);
    inner.push_str("  ");
    assert(head =~= head + toon_nodes(node.children@.take(0), inner@));
    for i in 0..node.children.len()
        invariant
            inner@ == pad@ + "  "@,
            out@ == head + toon_nodes(node.children@.take(i as int), inner@),
    {
        proof {
            let t = node.children@.take(i + 1);
            assert(t.drop_last() =~= node.children@.take(i as int));
        }
        emit_toon_node(&node.children[i], inner.as_str(), out);
        assert(out@ =~= head + toon_nodes(node.children@.take(i + 1), inner@));
    }
    assert(node.children@.take(node.children@.len() as int) =~= node.children@);
    out.push_str(pad);
    out.push_str("}\n");
    assert(out@ =~= before + toon_node(*node, pad@));
}

/// What a reference is to, where there is one.
pub open spec fn held<A>(r: Option<&A>) -> Option<A> {
    match r {
        Some(a) => Some(*a),
        None => None,
    }
}

/// What the bundle adds to the header.
pub open spec fn toon_bundle(bundle: Option<BundleSummary>) -> Seq<char> {
    match bundle {
        Some(b) => around("- Bundle-ID: "@, b.bundle_id, "\n"@) + around(
            "- App name: "@,
            b.display_name,
            "\n"@,
        ) + (if b.nibs@.len() == 0 {
            Seq::empty()
        } else {
            "- NIBs recovered: "@ + joined(texts(b.nibs@), ", "@) + "\n"@
        }),
        None => Seq::empty(),
    }
}

/// The picked element's role, with the sub-role where there is one.
pub open spec fn picked_role(p: PickedElement) -> Seq<char> {
    match p.subrole {
        Some(sub) if sub@.len() > 0 => p.role@ + ":"@ + sub@,
        _ => p.role@,
    }
}

/// The picked element's name in quotes.
pub open spec fn picked_name(p: PickedElement) -> Seq<char> {
    if p.name@.len() == 0 {
        Seq::empty()
    } else {
        " \""@ + quoted_text(p.name@) + "\""@
    }
}

/// The header: where the capture comes from, what was picked and how much was
/// captured.
pub open spec fn toon_header(
    nodes: nat,
    picked: PickedElement,
    bundle: Option<BundleSummary>,
) -> Seq<char> {
    "# VibeExtract — Native Desktop Capture\n\n## Source\n"@ + around(
        "- App: "@,
        picked.app_path,
        "\n"@,
    ) + around("- Window: \""@, picked.window_title, "\"\n"@) + toon_bundle(bundle) + "- Picked: "@
        + picked_role(picked) + picked_name(picked) + "\n- Capture target: "@ + whole_points(
        picked.bounds.w as int,
    ) + " × "@ + whole_points(picked.bounds.h as int) + " pt @ ("@ + whole_points(
        picked.bounds.x as int,
    ) + ", "@ + whole_points(picked.bounds.y as int) + ")\n- AX nodes captured: "@ + decimal(nodes)
        + "\n\n"@
}

/// The note on a region whose accessibility tree is nearly empty.
pub const SHALLOW_NOTE: &'static str = "## Note — shallow AX tree
This capture region is large but its accessibility tree is nearly empty —
typical for Electron apps (Slack, WhatsApp, Discord, VS Code, …) that
weren't launched with --remote-debugging-port. The structure below is
everything macOS exposed; the actual UI content isn't reachable via AX.

For pixel-perfect HTML + CSS, accept the relaunch dialog that appears
when you press ⌘⇧E (or set this app to 'Always' in Settings → Electron Apps).

";

/// The captured region is large (over 5000 square points) but holds under five
/// nodes.
pub open spec fn tree_is_shallow(nodes: nat, bounds: ScreenRect) -> bool {
    nodes < 5 && bounds.area_units() > 5000 * 4096
}

/// The colours, numbered from 1.
pub open spec fn palette_lines(palette: Seq<(u8, u8, u8)>) -> Seq<char>
    decreases palette.len(),
{
    if palette.len() == 0 {
        Seq::empty()
    } else {
        palette_lines(palette.drop_last()) + ".c"@ + decimal(palette.len()) + ": "@
            + hex_color_text(palette.last()) + "\n"@
    }
}

/// The palette section, where there are colours.
pub open spec fn toon_palette(palette: Seq<(u8, u8, u8)>) -> Seq<char> {
    if palette.len() == 0 {
        Seq::empty()
    } else {
        "## Palette\n"@ + palette_lines(palette) + "\n"@
    }
}

/// The whole capture as TOON.
pub open spec fn toon_text(
    root: Node,
    palette: Seq<(u8, u8, u8)>,
    picked: PickedElement,
    bundle: Option<BundleSummary>,
) -> Seq<char> {
    toon_header(size(root@), picked, bundle) + (if tree_is_shallow(size(root@), picked.bounds) {
        SHALLOW_NOTE@
    } else {
        Seq::empty()
    }) + toon_palette(palette) + "## Structure\n"@ + toon_node(root, ""@)
}

fn toon_bundle_text(bundle: Option<&BundleSummary>) -> (r: String)
    ensures
        r@ == toon_bundle(held(bundle)),
{
    let mut out = String::new();
    if let Some(b) = bundle {
        push_around(&mut out, "- Bundle-ID: ", &b.bundle_id, "\n");
        push_around(&mut out, "- App name: ", &b.display_name, "\n");
        if b.nibs.len() > 0 {
            out.push_str("- NIBs recovered: ");
            out.push_str(join(&b.nibs, ", ").as_str());
            out.push_str("\n");
        }
    }
    assert(out@ =~= toon_bundle(held(bundle)));
    out
}

fn toon_header_text(nodes: usize, picked: &PickedElement, bundle: Option<&BundleSummary>) -> (r:
    String)
    ensures
        r@ == toon_header(nodes as nat, *picked, held(bundle)),
{
    let mut s = copy_of("# VibeExtract — Native Desktop Capture\n\n## Source\n");
    push_around(&mut s, "- App: ", &picked.app_path, "\n");
    push_around(&mut s, "- Window: \"", &picked.window_title, "\"\n");
    s.push_str(toon_bundle_text(bundle).as_str());
    s.push_str("- Picked: ");
    let mut role = copy_of(picked.role.as_str());
    if let Some(sub) = &picked.subrole {
        if !sub.as_str().is_empty() {
            role.push_str(":");
            role.push_str(sub.as_str());
        }
    }
    assert(role@ == picked_role(*picked));
    s.push_str(role.as_str());
    let mut name = String::new();
    if !picked.name.as_str().is_empty() {
        name = copy_of(" \"");
        name.push_str(escape_quotes(picked.name.as_str()).as_str());
        name.push_str("\"");
    }
    assert(name@ =~= picked_name(*picked));
    s.push_str(name.as_str());
    s.push_str("\n- Capture target: ");
    push_whole_points(&mut s, picked.bounds.w as i128);
    s.push_str(" × ");
    push_whole_points(&mut s, picked.bounds.h as i128);
    s.push_str(" pt @ (");
    push_whole_points(&mut s, picked.bounds.x as i128);
    s.push_str(", ");
    push_whole_points(&mut s, picked.bounds.y as i128);
    s.push_str(")\n- AX nodes captured: ");
    s.push_str(decimal_text(nodes as u64).as_str());
    s.push_str("\n\n");
    s
}

fn toon_palette_text(palette: &[(u8, u8, u8)]) -> (r: String)
    ensures
        r@ == toon_palette(palette@),
{
    if palette.len() == 0 {
        return String::new();
    }
    let mut s = copy_of("## Palette\n");
    let ghost head = s@;
    assert(head =~= head + palette_lines(palette@.take(0)));
    for i in 0..palette.len()
        invariant
            s@ == head + palette_lines(palette@.take(i as int)),
    {
        assert(palette@.take(i + 1).drop_last() =~= palette@.take(i as int));
        s.push_str(".c");
        s.push_str(decimal_text(i as u64 + 1).as_str());
        s.push_str(": ");
        s.push_str(hex_color(palette[i]).as_str());
        s.push_str("\n");
        assert(s@ =~= head + palette_lines(palette@.take(i + 1)));
    }
    assert(palette@.take(palette@.len() as int) =~= palette@);
    s.push_str("\n");
    s
}

/// The whole capture as TOON: a header, a note where the tree is nearly empty, the
/// palette, and the structure.
pub fn emit_toon(
    root: &Node,
    palette: &[(u8, u8, u8)],
    picked: &PickedElement,
    bundle: Option<&BundleSummary>,
) -> (r: String)
    requires
        size(root@) <= usize::MAX,
    ensures
        r@ == toon_text(*root, palette@, *picked, held(bundle)),
{
    let nodes = count_nodes(root);
    let mut s = toon_header_text(nodes, picked, bundle);
    let ghost head = s@;
    if nodes < 5 && picked.bounds.area() > 20480000 {
        s.push_str(SHALLOW_NOTE);
    }
    assert(s@ =~= head + (if tree_is_shallow(size(root@), picked.bounds) {
        SHALLOW_NOTE@
    } else {
        Seq::empty()
    }));
    s.push_str(toon_palette_text(palette).as_str());
    s.push_str("## Structure\n");
    emit_toon_node(root, "", &mut s);
    s
}

// ---------------------------------------------------------------------------
// HTML
// ---------------------------------------------------------------------------

/// A role that is shown as a push button.
pub open spec fn button_role(role: Seq<char>) -> bool {
    role == "AXButton"@ || role == "AXPopUpButton"@ || role == "AXMenuButton"@ || role
        == "AXRadioButton"@ || role == "AXCheckBox"@ || role == "AXDisclosureTriangle"@ || role
        == "AXIncrementor"@ || role == "AXDecrementor"@
}

/// A role that is shown as text.
pub open spec fn text_role(role: Seq<char>) -> bool {
    role == "AXStaticText"@ || role == "AXHeading"@
}

/// A role that is shown as an input field.
pub open spec fn input_role(role: Seq<char>) -> bool {
    role == "AXTextField"@ || role == "AXTextArea"@ || role == "AXSearchField"@ || role
        == "AXComboBox"@
}

/// A role that is shown as an image.
pub open spec fn image_role(role: Seq<char>) -> bool {
    role == "AXImage"@ || role == "AXIcon"@
}

/// A role whose children are shown inside it.
pub open spec fn container_role(role: Seq<char>) -> bool {
    role == "AXGroup"@ || role == "AXScrollArea"@ || role == "AXSplitGroup"@ || role
        == "AXTabGroup"@ || role == "AXToolbar"@ || role == "AXOutline"@ || role == "AXList"@
        || role == "AXTable"@ || role == "AXRow"@ || role == "AXColumn"@ || role == "AXMenuBar"@
        || role == "AXMenu"@ || role == "AXWindow"@ || role == "AXSheet"@ || role
        == "AXLayoutArea"@ || role == "AXLayoutItem"@
}

/// The HTML tag and the CSS class that a role is shown with.
pub open spec fn html_of_role(role: Seq<char>) -> (Seq<char>, Seq<char>) {
    if button_role(role) {
        ("button"@, "ve-button"@)
    } else if text_role(role) {
        ("span"@, "ve-text"@)
    } else if input_role(role) {
        ("input"@, "ve-input"@)
    } else if role == "AXLink"@ {
        ("a"@, "ve-link"@)
    } else if image_role(role) {
        ("img"@, "ve-image"@)
    } else {
        ("div"@, "ve-group"@)
    }
}

fn is_text_role(role: &str) -> (r: bool)
    ensures
        r == text_role(role@),
{
    same(role, "AXStaticText") || same(role, "AXHeading")
}

fn is_image_role(role: &str) -> (r: bool)
    ensures
        r == image_role(role@),
{
    same(role, "AXImage") || same(role, "AXIcon")
}

fn is_input_role(role: &str) -> (r: bool)
    ensures
        r == input_role(role@),
{
    same(role, "AXTextField") || same(role, "AXTextArea") || same(role, "AXSearchField") || same(
        role,
        "AXComboBox",
    )
}

fn is_button_role(role: &str) -> (r: bool)
    ensures
        r == button_role(role@),
{
    same(role, "AXButton") || same(role, "AXPopUpButton") || same(role, "AXMenuButton") || same(
        role,
        "AXRadioButton",
    ) || same(role, "AXCheckBox") || same(role, "AXDisclosureTriangle") || same(
        role,
        "AXIncrementor",
    ) || same(role, "AXDecrementor")
}

fn is_container_role(role: &str) -> (r: bool)
    ensures
        r == container_role(role@),
{
    same(role, "AXGroup") || same(role, "AXScrollArea") || same(role, "AXSplitGroup") || same(
        role,
        "AXTabGroup",
    ) || same(role, "AXToolbar") || same(role, "AXOutline") || same(role, "AXList") || same(
        role,
        "AXTable",
    ) || same(role, "AXRow") || same(role, "AXColumn") || same(role, "AXMenuBar") || same(
        role,
        "AXMenu",
    ) || same(role, "AXWindow") || same(role, "AXSheet") || same(role, "AXLayoutArea") || same(
        role,
        "AXLayoutItem",
    )
}

/// Map AX role → HTML tag + CSS class.
pub fn role_to_html(role: &str) -> (r: (&'static str, &'static str))
    ensures
        (r.0@, r.1@) == html_of_role(role@),
{
    if is_button_role(role) {
        ("button", "ve-button")
    } else if is_text_role(role) {
        ("span", "ve-text")
    } else if is_input_role(role) {
        ("input", "ve-input")
    } else if same(role, "AXLink") {
        ("a", "ve-link")
    } else if is_image_role(role) {
        ("img", "ve-image")
    } else {
        ("div", "ve-group")
    }
}

/// The font size, in pixels, that an element's height suggests. Text is as high as
/// its font with some 30% of line spacing, and at least 10; a button or link has 16
/// points of padding besides, and at least 11.
pub open spec fn font_pixels(role: Seq<char>, height: int) -> Option<nat> {
    if text_role(role) {
        let rounded = (20 * height + 832) / 1664;
        Some(
            if rounded < 10 {
                10
            } else {
                rounded as nat
            },
        )
    } else if role == "AXButton"@ || role == "AXLink"@ {
        let inner = height - 16 * 64;
        Some(
            if 10 * inner < 11 * 832 {
                11
            } else {
                half_even((10 * inner) as nat, 832)
            },
        )
    } else {
        None
    }
}

/// The font size that an element's height suggests, as CSS; empty for roles that
/// show no text of their own.
pub open spec fn font_size_text(role: Seq<char>, height: int) -> Seq<char> {
    match font_pixels(role, height) {
        Some(px) => decimal(px) + "px"@,
        None => Seq::empty(),
    }
}

/// Heuristic font-size guess based on element height + role.
pub fn guess_font_size(role: &str, height: i64) -> (r: String)
    ensures
        r@ == font_size_text(role@, height as int),
{
    let px: u64;
    if is_text_role(role) {
        let up: i128 = 20 * height as i128 + 832;
        if up < 16640 {
            px = 10;
        } else {
            px = (up / 1664) as u64;
        }
    } else if same(role, "AXButton") || same(role, "AXLink") {
        let inner: i128 = height as i128 - 1024;
        if 10 * inner < 9152 {
            px = 11;
        } else {
            let n: i128 = 10 * inner;
            let q: u64 = (n / 832) as u64;
            let rest: i128 = n % 832;
            if rest < 416 {
                px = q;
            } else if rest > 416 {
                px = q + 1;
            } else {
                px = q + q % 2;
            }
            assert(px == half_even(n as nat, 832));
        }
    } else {
        return String::new();
    }
    let mut out = decimal_text(px);
    out.push_str("px");
    out
}

/// How much each part of a colour counts for its luminance: the doubles 0.299, 0.587
/// and 0.114, in units of two to the power of minus 56.
pub const RED_WEIGHT: u128 = 0x4c8b4395810624;

pub const GREEN_WEIGHT: u128 = 0x9645a1cac08310;

pub const BLUE_WEIGHT: u128 = 0x1d2f1a9fbe76c9;

/// One half of 256, in the same units.
pub const HALF_LIGHT: u128 = 0x8000000000000000;

/// The luminance of a colour as doubles add it up, in the units of the weights.
pub open spec fn luminance(rgb: (u8, u8, u8)) -> nat {
    let red = nearest((RED_WEIGHT * rgb.0) as nat);
    let green = nearest((GREEN_WEIGHT * rgb.1) as nat);
    let blue = nearest((BLUE_WEIGHT * rgb.2) as nat);
    nearest(nearest(red + green) + blue)
}

/// The colour is dark: its luminance is under one half of 256.
pub open spec fn dark(rgb: (u8, u8, u8)) -> bool {
    luminance(rgb) < HALF_LIGHT
}

fn is_dark(rgb: (u8, u8, u8)) -> (r: bool)
    ensures
        r == dark(rgb),
{
    let red: u128 = nearest_double(RED_WEIGHT * rgb.0 as u128);
    let green: u128 = nearest_double(GREEN_WEIGHT * rgb.1 as u128);
    let blue: u128 = nearest_double(BLUE_WEIGHT * rgb.2 as u128);
    let warm: u128 = nearest_double(red + green);
    nearest_double(warm + blue) < HALF_LIGHT
}

/// The colours of an element as CSS: its background, and a text colour that can be
/// read on it.
pub open spec fn color_style(bg: Option<(u8, u8, u8)>) -> Seq<char> {
    match bg {
        Some(rgb) => " background-color: rgb("@ + decimal(rgb.0 as nat) + ", "@ + decimal(
            rgb.1 as nat,
        ) + ", "@ + decimal(rgb.2 as nat) + ");"@ + (if dark(rgb) {
            " color: #fff;"@
        } else {
            " color: #111;"@
        }),
        None => Seq::empty(),
    }
}

/// An element's inline style: its place relative to the root, its size, colours and
/// font size.
pub open spec fn style_text(n: Node, b: ScreenRect, root: ScreenRect) -> Seq<char> {
    let font = font_size_text(n.role@, b.h as int);
    "left:"@ + whole_points(b.x - root.x) + "px; top:"@ + whole_points(b.y - root.y)
        + "px; width:"@ + whole_points(b.w as int) + "px; height:"@ + whole_points(b.h as int)
        + "px;"@ + color_style(n.bg) + (if font.len() == 0 {
        Seq::empty()
    } else {
        " font-size: "@ + font + ";"@
    })
}

/// What an element says: its name, else its value.
pub open spec fn inner_text(n: Node) -> Seq<char> {
    if n.name@.len() > 0 {
        html_text(n.name@)
    } else {
        match n.value {
            Some(v) => html_text(v@),
            None => Seq::empty(),
        }
    }
}

/// An element that is shown without children.
pub open spec fn leaf_html(n: Node, b: ScreenRect, root: ScreenRect, pad: Seq<char>) -> Seq<char> {
    let (tag, class) = html_of_role(n.role@);
    if image_role(n.role@) {
        pad + "<img class=\"ve-el ve-image\" data-role=\""@ + html_text(n.role@) + "\" alt=\""@
            + inner_text(n) + "\" style=\""@ + style_text(n, b, root) + "\">\n"@
    } else if input_role(n.role@) {
        pad + "<input class=\"ve-el "@ + class + "\" data-role=\""@ + html_text(n.role@)
            + "\" value=\""@ + inner_text(n) + "\" style=\""@ + style_text(n, b, root) + "\">\n"@
    } else {
        pad + "<"@ + tag + " class=\"ve-el "@ + class + "\" data-role=\""@ + html_text(n.role@)
            + "\" style=\""@ + style_text(n, b, root) + "\">"@ + inner_text(n) + "</"@ + tag
            + ">\n"@
    }
}

/// The start of an element that holds others.
pub open spec fn open_tag(n: Node, b: ScreenRect, root: ScreenRect, pad: Seq<char>) -> Seq<char> {
    let (tag, class) = html_of_role(n.role@);
    pad + "<"@ + tag + " class=\"ve-el "@ + class + "\" data-role=\""@ + html_text(n.role@)
        + "\" style=\""@ + style_text(n, b, root) + "\">\n"@
}

/// A node tree as HTML elements, each at its captured place relative to the root. A
/// node without bounds, or under one point in either direction, is left out and its
/// children stand in its place.
pub open spec fn dom(n: Node, root: ScreenRect, pad: Seq<char>) -> Seq<char>
    decreases n,
{
    match n.bounds {
        Some(b) => if b.w < 64 || b.h < 64 {
            dom_all(n.children@, root, pad)
        } else if container_role(n.role@) && n.children@.len() > 0 {
            open_tag(n, b, root, pad) + dom_all(n.children@, root, pad + "  "@) + pad + "</"@
                + html_of_role(n.role@).0 + ">\n"@
        } else {
            leaf_html(n, b, root, pad)
        },
        None => dom_all(n.children@, root, pad),
    }
}

/// Node trees one after the other.
pub open spec fn dom_all(s: Seq<Node>, root: ScreenRect, pad: Seq<char>) -> Seq<char>
    decreases s,
{
    if s.len() == 0 {
        Seq::empty()
    } else {
        dom_all(s.drop_last(), root, pad) + dom(s.last(), root, pad)
    }
}

fn color_style_text(bg: &Option<(u8, u8, u8)>) -> (r: String)
    ensures
        r@ == color_style(*bg),
{
    match bg {
        Some(rgb) => {
            let mut out = copy_of(" background-color: rgb(");
            out.push_str(decimal_text(rgb.0 as u64).as_str());
            out.push_str(", ");
            out.push_str(decimal_text(rgb.1 as u64).as_str());
            out.push_str(", ");
            out.push_str(decimal_text(rgb.2 as u64).as_str());
            out.push_str(");");
            if is_dark(*rgb) {
                out.push_str(" color: #fff;");
            } else {
                out.push_str(" color: #111;");
            }
            out
        },
        None => String::new(),
    }
}

fn style_of(n: &Node, b: &ScreenRect, root: &ScreenRect) -> (r: String)
    ensures
        r@ == style_text(*n, *b, *root),
{
    let mut s = copy_of("left:");
    push_whole_points(&mut s, b.x as i128 - root.x as i128);
    s.push_str("px; top:");
    push_whole_points(&mut s, b.y as i128 - root.y as i128);
    s.push_str("px; width:");
    push_whole_points(&mut s, b.w as i128);
    s.push_str("px; height:");
    push_whole_points(&mut s, b.h as i128);
    s.push_str("px;");
    s.push_str(color_style_text(&n.bg).as_str());
    let ghost so_far = s@;
    let font = guess_font_size(n.role.as_str(), b.h);
    let mut font_style = String::new();
    if !font.as_str().is_empty() {
        font_style = copy_of(" font-size: ");
        font_style.push_str(font.as_str());
        font_style.push_str(";");
    }
    s.push_str(font_style.as_str());
    assert(s@ =~= style_text(*n, *b, *root));
    s
}

fn inner_text_of(n: &Node) -> (r: String)
    ensures
        r@ == inner_text(*n),
{
    if !n.name.as_str().is_empty() {
        html_escape(n.name.as_str())
    } else if let Some(v) = &n.value {
        html_escape(v.as_str())
    } else {
        String::new()
    }
}

fn leaf_html_text(n: &Node, b: &ScreenRect, root: &ScreenRect, pad: &str) -> (r: String)
    ensures
        r@ == leaf_html(*n, *b, *root, pad@),
{
    let (tag, class) = role_to_html(n.role.as_str());
    let role = html_escape(n.role.as_str());
    let text = inner_text_of(n);
    let style = style_of(n, b, root);
    let mut out = copy_of(pad);
    if is_image_role(n.role.as_str()) {
        out.push_str("<img class=\"ve-el ve-image\" data-role=\"");
        out.push_str(role.as_str());
        out.push_str("\" alt=\"");
        out.push_str(text.as_str());
        out.push_str("\" style=\"");
        out.push_str(style.as_str());
        out.push_str("\">\n");
    } else if is_input_role(n.role.as_str()) {
        out.push_str("<input class=\"ve-el ");
        out.push_str(class);
        out.push_str("\" data-role=\"");
        out.push_str(role.as_str());
        out.push_str("\" value=\"");
        out.push_str(text.as_str());
        out.push_str("\" style=\"");
        out.push_str(style.as_str());
        out.push_str("\">\n");
    } else {
        out.push_str("<");
        out.push_str(tag);
        out.push_str(" class=\"ve-el ");
        out.push_str(class);
        out.push_str("\" data-role=\"");
        out.push_str(role.as_str());
        out.push_str("\" style=\"");
        out.push_str(style.as_str());
        out.push_str("\">");
        out.push_str(text.as_str());
        out.push_str("</");
        out.push_str(tag);
        out.push_str(">\n");
    }
    out
}

fn open_tag_text(n: &Node, b: &ScreenRect, root: &ScreenRect, pad: &str) -> (r: String)
    ensures
        r@ == open_tag(*n, *b, *root, pad@),
{
    let (tag, class) = role_to_html(n.role.as_str());
    let mut out = copy_of(pad);
    out.push_str("<");
    out.push_str(tag);
    out.push_str(" class=\"ve-el ");
    out.push_str(class);
    out.push_str("\" data-role=\"");
    out.push_str(html_escape(n.role.as_str()).as_str());
    out.push_str("\" style=\"");
    out.push_str(style_of(n, b, root).as_str());
    out.push_str("\">\n");
    out
}

fn render_all(s: &Vec<Node>, root: &ScreenRect, out: &mut String, pad: &str)
    ensures
        final(out)@ == old(out)@ + dom_all(s@, *root, pad@),
    decreases s,
{
    let ghost before = out@;
    assert(before =~= before + dom_all(s@.take(0), *root, pad@));
    for i in 0..s.len()
        invariant
            out@ == before + dom_all(s@.take(i as int), *root, pad@),
    {
        assert(s@.take(i + 1).drop_last() =~= s@.take(i as int));
        render_dom(&s[i], root, out, pad);
        assert(out@ =~= before + dom_all(s@.take(i + 1), *root, pad@));
    }
    assert(s@.take(s@.len() as int) =~= s@);
}

/// Render an AX node tree into real HTML elements. Each node becomes a tag that
/// matches its semantic role, with absolute positioning + sampled colors as inline
/// styles.
pub fn render_dom(node: &Node, root: &ScreenRect, out: &mut String, pad: &str)
    ensures
        final(out)@ == old(out)@ + dom(*node, *root, pad@),
    decreases node,
{
    let ghost before = out@;
    let b = match &node.bounds {
        Some(b) => b,
        None => {
            render_all(&node.children, root, out, pad);
            return;
        },
    };
    if b.w < 64 || b.h < 64 {
        render_all(&node.children, root, out, pad);
        return;
    }
    if is_container_role(node.role.as_str()) && node.children.len() > 0 {
        out.push_str(open_tag_text(node, b, root, pad).as_str());
        let mut inner = copy_of(pad);
        inner.push_str("  ");
        render_all(&node.children, root, out, inner.as_str());
        out.push_str(pad);
        out.push_str("</");
        out.push_str(role_to_html(node.role.as_str()).0);
        out.push_str(">\n");
        assert(out@ =~= before + dom(*node, *root, pad@));
    } else {
        out.push_str(leaf_html_text(node, b, root, pad).as_str());
    }
}

/// The page up to the width of the canvas.
pub const PAGE_TOP: &'static str = "<!DOCTYPE html>
<html>
<head>
  <meta charset=\"UTF-8\">
  <title>VibeExtract — Native Capture</title>
  <style>
    html, body { margin: 0; padding: 0; font-family: -apple-system, BlinkMacSystemFont, \"Segoe UI\", Helvetica, Arial, sans-serif; background: #fff; color: #111; }
    .ve-toolbar { position: fixed; top: 0; left: 0; right: 0; padding: 8px 12px; background: rgba(10,20,56,0.96); color: #f0f9ff; font-size: 12px; z-index: 1000; display: flex; gap: 12px; align-items: center; border-bottom: 1px solid rgba(56,189,248,0.3); }
    .ve-toolbar label { display: inline-flex; align-items: center; gap: 4px; cursor: pointer; }
    .ve-toolbar kbd { background: rgba(255,255,255,0.1); padding: 1px 6px; border-radius: 3px; font-family: ui-monospace, Menlo, monospace; font-size: 11px; }
    .ve-stage { margin-top: 44px; padding: 24px; }
    .ve-canvas { position: relative; width: ";

/// Between the width and the height of the canvas.
pub const PAGE_HEIGHT: &'static str = "px; height: ";

/// The styles after the size of the canvas, up to the size in the toolbar.
pub const PAGE_STYLE: &'static str = "px; background: #fafafa; box-shadow: 0 2px 12px rgba(0,0,0,0.12); border-radius: 6px; overflow: hidden; }
    /* Screenshot is the BACKGROUND of the canvas, shown at full opacity by
       default so the user sees exactly what they captured — images, icons,
       text, colours. The AX-derived overlay is opt-in (toggle below). */
    .ve-canvas .ve-bg { position: absolute; inset: 0; width: 100%; height: 100%; opacity: 1; transition: opacity 200ms; pointer-events: none; z-index: 0; }

    /* Real-DOM children — each AX element rendered as a semantic HTML tag,
       absolutely positioned at the captured bounds. Hidden by default; tick
       \"Show AX structure overlay\" in the toolbar to inspect them on top of
       the screenshot. */
    .ve-el { position: absolute; box-sizing: border-box; z-index: 1; opacity: 0.85; }
    body:not(.show-ax) .ve-el { display: none; }
    .ve-button {
      display: inline-flex; align-items: center; justify-content: center;
      border: 1px solid rgba(0,0,0,0.12); border-radius: 6px; cursor: pointer;
      font: inherit;
      box-shadow: 0 1px 2px rgba(0,0,0,0.05);
    }
    .ve-text { display: flex; align-items: center; white-space: nowrap; overflow: hidden; text-overflow: ellipsis; }
    .ve-input { border: 1px solid rgba(0,0,0,0.15); border-radius: 4px; padding: 2px 6px; font: inherit; box-sizing: border-box; }
    .ve-link { color: #2563eb; text-decoration: underline; cursor: pointer; }
    .ve-image { background: rgba(0,0,0,0.05); border-radius: 4px; }
    .ve-group { /* container — no default border/bg, just a positional shell */ }
  </style>
</head>
<body>
  <div class=\"ve-toolbar\">
    <strong>VibeExtract — Native Capture</strong>
    <span style=\"opacity: 0.55;\">root: ";

/// Between the width and the height in the toolbar.
pub const PAGE_BY: &'static str = " × ";

/// The rest of the toolbar, up to the screenshot.
pub const PAGE_STAGE: &'static str = " pt</span>
    <label style=\"margin-left:auto;\"><input type=\"checkbox\" id=\"toggle-ax\"> Show AX structure overlay</label>
  </div>
  <div class=\"ve-stage\">
    <div class=\"ve-canvas\">
      <img class=\"ve-bg\" src=\"data:image/png;base64,";

/// Between the screenshot and the elements.
pub const PAGE_SHOT: &'static str = "\">
      ";

/// The end of the page.
pub const PAGE_END: &'static str = "
    </div>
  </div>
  <script>
    document.getElementById('toggle-ax').addEventListener('change', e => {
      document.body.classList.toggle('show-ax', e.target.checked);
    });
  </script>
</body>
</html>
";

/// The capture as a page: the screenshot at full opacity, and the elements on top of
/// it, hidden until the toggle in the toolbar shows them.
pub open spec fn html_page(root: Node, screenshot_b64: Seq<char>, bounds: ScreenRect) -> Seq<char> {
    let w = whole_points(bounds.w as int);
    let h = whole_points(bounds.h as int);
    PAGE_TOP@ + w + PAGE_HEIGHT@ + h + PAGE_STYLE@ + w + PAGE_BY@ + h + PAGE_STAGE@
        + screenshot_b64 + PAGE_SHOT@ + dom(root, bounds, "      "@) + PAGE_END@
}

/// The capture as a self-contained page.
pub fn emit_html(root: &Node, screenshot_b64: &str, root_bounds: ScreenRect) -> (r: String)
    ensures
        r@ == html_page(*root, screenshot_b64@, root_bounds),
{
    let w = whole_points_text(root_bounds.w);
    let h = whole_points_text(root_bounds.h);
    let mut out = copy_of(PAGE_TOP);
    out.push_str(w.as_str());
    out.push_str(PAGE_HEIGHT);
    out.push_str(h.as_str());
    out.push_str(PAGE_STYLE);
    out.push_str(w.as_str());
    out.push_str(PAGE_BY);
    out.push_str(h.as_str());
    out.push_str(PAGE_STAGE);
    out.push_str(screenshot_b64);
    out.push_str(PAGE_SHOT);
    render_dom(root, &root_bounds, &mut out, "      ");
    out.push_str(PAGE_END);
    out
}

/// A node's name cut to 40 characters, or its role where it has no name.
pub fn label_short(node: &Node) -> (r: String)
    ensures
        r@ == (if node.name@.len() > 0 {
            node.name@.take(min_len(40, node.name@.len() as int))
        } else {
            node.role@
        }),
{
    if !node.name.as_str().is_empty() {
        take_chars(node.name.as_str(), 40)
    } else {
        copy_of(node.role.as_str())
    }
}

proof fn dom_all_of_both(a: Seq<Node>, b: Seq<Node>, root: ScreenRect, pad: Seq<char>)
    ensures
        dom_all(a + b, root, pad) == dom_all(a, root, pad) + dom_all(b, root, pad),
    decreases b.len(),
{
    if b.len() == 0 {
        assert(a + b =~= a);
        assert(dom_all(a, root, pad) + dom_all(b, root, pad) =~= dom_all(a, root, pad));
    } else {
        dom_all_of_both(a, b.drop_last(), root, pad);
        assert((a + b).drop_last() =~= a + b.drop_last());
        assert(dom_all(a + b, root, pad) =~= dom_all(a, root, pad) + dom_all(b, root, pad));
    }
}

/// A node without bounds, or under one point in either direction, leaves no trace of
/// its own: what it gives is what its children give, in their order and at its own
/// indentation, and among its siblings its children stand in its place.
pub proof fn placeless_nodes_give_way_to_their_children(
    n: Node,
    before: Seq<Node>,
    after: Seq<Node>,
    root: ScreenRect,
    pad: Seq<char>,
)
    requires
        n.bounds matches Some(b) ==> b.w < 64 || b.h < 64,
    ensures
        dom(n, root, pad) == dom_all(n.children@, root, pad),
        dom_all(before + seq![n] + after, root, pad) == dom_all(
            before + n.children@ + after,
            root,
            pad,
        ),
{
    let one = seq![n];
    assert(one.drop_last() =~= Seq::<Node>::empty());
    assert(dom_all(one.drop_last(), root, pad) =~= Seq::<char>::empty());
    assert(dom_all(one, root, pad) =~= dom(n, root, pad));
    dom_all_of_both(before + one, after, root, pad);
    dom_all_of_both(before, one, root, pad);
    dom_all_of_both(before + n.children@, after, root, pad);
    dom_all_of_both(before, n.children@, root, pad);
}

// ---------------------------------------------------------------------------
// What a capture in TOON tells
// ---------------------------------------------------------------------------

/// A position and a size as a line of TOON gives them.
pub open spec fn place_text(x: Seq<char>, y: Seq<char>, w: Seq<char>, h: Seq<char>) -> Seq<char> {
    " pos=("@ + x + ","@ + y + ") size=("@ + w + "x"@ + h + ")"@
}

/// The text gives a position and a size that read back as the rectangle's: left and top
/// in the position, width and height in the size, each rounded to whole points.
pub open spec fn tells_place(s: Seq<char>, b: ScreenRect) -> bool {
    exists|x: Seq<char>, y: Seq<char>, w: Seq<char>, h: Seq<char>|
        #[trigger] place_text(x, y, w, h) == s && tells_points(x, b.x as int) && tells_points(
            y,
            b.y as int,
        ) && tells_points(w, b.w as int) && tells_points(h, b.h as int)
}

/// A text with another put in at a place.
pub open spec fn inserted(s: Seq<char>, i: int, t: Seq<char>) -> Seq<char> {
    s.take(i) + t + s.skip(i)
}

/// A node's line differs from that of the same node without bounds by a text that tells
/// the bounds.
pub proof fn a_line_tells_the_bounds(n: Node, pad: Seq<char>)
    requires
        n.bounds is Some,
    ensures
        exists|i: int, place: Seq<char>|
            #[trigger] inserted(toon_line(Node { bounds: None, ..n }, pad), i, place) == toon_line(
                n,
                pad,
            ) && tells_place(place, n.bounds->0),
{
    let b = n.bounds->0;
    let bare = Node { bounds: None, ..n };
    let (x, y) = (whole_points(b.x as int), whole_points(b.y as int));
    let (w, h) = (whole_points(b.w as int), whole_points(b.h as int));
    whole_points_read_back(b.x as int);
    whole_points_read_back(b.y as int);
    whole_points_read_back(b.w as int);
    whole_points_read_back(b.h as int);
    let place = toon_bounds(n.bounds);
    assert(place =~= place_text(x, y, w, h));
    let head = pad + n.role@ + around(":"@, n.subrole, ""@) + quoted_field(" \""@, n.name@) + (
    match n.value {
        Some(v) => quoted_field(" value=\""@, v@),
        None => Seq::empty(),
    });
    let tail = toon_bg(n.bg) + around(" #"@, n.identifier, ""@) + around(
        " ("@,
        n.role_description,
        ")"@,
    );
    let i = head.len() as int;
    assert(toon_line(bare, pad) =~= head + tail);
    assert(toon_line(bare, pad).take(i) =~= head);
    assert(toon_line(bare, pad).skip(i) =~= tail);
    assert(toon_line(n, pad) =~= head + place + tail);
    assert(inserted(toon_line(bare, pad), i, place) == toon_line(n, pad));
}

/// The first characters of a text, so many at most.
pub open spec fn first_chars(s: Seq<char>, n: int) -> Seq<char> {
    if s.len() <= n {
        s
    } else {
        s.take(n)
    }
}

/// A node's line starts with its role, after the indentation, and holds what else is
/// known of the node, each with its own mark: the sub-role, the first 80 characters of
/// the name and the value, the colour, the identifier and the description.
pub proof fn a_line_tells_what_is_known(n: Node, pad: Seq<char>)
    ensures
        begins(toon_line(n, pad), pad + n.role@),
        n.subrole matches Some(t) ==> begins(toon_line(n, pad), pad + n.role@ + ":"@ + t@),
        n.name@.len() > 0 ==> occurs(
            toon_line(n, pad),
            " \""@ + quoted_text(first_chars(n.name@, 80)) + "\""@,
        ),
        n.value matches Some(v) ==> v@.len() > 0 ==> occurs(
            toon_line(n, pad),
            " value=\""@ + quoted_text(first_chars(v@, 80)) + "\""@,
        ),
        n.bg matches Some(rgb) ==> occurs(toon_line(n, pad), " bg="@ + hex_color_text(rgb)),
        n.identifier matches Some(t) ==> occurs(toon_line(n, pad), " #"@ + t@),
        n.role_description matches Some(t) ==> occurs(toon_line(n, pad), " ("@ + t@ + ")"@),
{
    broadcast use crate::text::group_parts;

    if let Some(t) = n.subrole {
        reveal_strlit("");
        let head = pad + n.role@;
        assert(":"@ + t@ + ""@ =~= ":"@ + t@);
        assert(head + (":"@ + t@) =~= pad + n.role@ + ":"@ + t@);
    }
    if n.name@.len() > 0 {
        assert(first_chars(n.name@, 80) =~= n.name@.take(min_len(80, n.name@.len() as int)));
    }
    if let Some(v) = n.value {
        assert(first_chars(v@, 80) =~= v@.take(min_len(80, v@.len() as int)));
    }
}

/// `m` stands `d` levels below `n`.
pub open spec fn stands_below(n: Node, m: Node, d: nat) -> bool
    decreases d,
{
    if d == 0 {
        m == n
    } else {
        exists|i: int|
            0 <= i < n.children@.len() && stands_below(
                #[trigger] n.children@[i],
                m,
                (d - 1) as nat,
            )
    }
}

/// The indentation `d` levels further in: two blanks for each.
pub open spec fn further_in(pad: Seq<char>, d: nat) -> Seq<char>
    decreases d,
{
    if d == 0 {
        pad
    } else {
        further_in(pad + "  "@, (d - 1) as nat)
    }
}

proof fn toon_nodes_hold_each(s: Seq<Node>, i: int, pad: Seq<char>)
    requires
        0 <= i < s.len(),
    ensures
        occurs(toon_nodes(s, pad), toon_node(s[i], pad)),
    decreases s.len(),
{
    let empty = Seq::<char>::empty();
    let head = toon_nodes(s.drop_last(), pad);
    let last = toon_node(s.last(), pad);
    if i == s.len() - 1 {
        assert(toon_nodes(s, pad) =~= head + last + empty);
        part_occurs(head, last, empty);
    } else {
        toon_nodes_hold_each(s.drop_last(), i, pad);
        assert(toon_nodes(s, pad) =~= empty + head + last);
        part_occurs(empty, head, last);
        occurs_through(toon_nodes(s, pad), head, toon_node(s[i], pad));
    }
}

/// The structure of a tree holds the line of every node below it, however deep, indented
/// by its level.
pub proof fn every_node_has_its_line(n: Node, m: Node, d: nat, pad: Seq<char>)
    requires
        stands_below(n, m, d),
    ensures
        occurs(toon_node(n, pad), toon_line(m, further_in(pad, d))),
    decreases d,
{
    broadcast use crate::text::group_parts;

    if d > 0 {
        let i = choose|i: int|
            0 <= i < n.children@.len() && stands_below(
                #[trigger] n.children@[i],
                m,
                (d - 1) as nat,
            );
        let kid = n.children@[i];
        let inner = pad + "  "@;
        every_node_has_its_line(kid, m, (d - 1) as nat, inner);
        toon_nodes_hold_each(n.children@, i, inner);
        occurs_through(
            toon_nodes(n.children@, inner),
            toon_node(kid, inner),
            toon_line(m, further_in(pad, d)),
        );
    }
}

/// Nodes stand one below the other in their order.
pub proof fn nodes_keep_their_order(a: Seq<Node>, b: Seq<Node>, pad: Seq<char>)
    ensures
        toon_nodes(a + b, pad) == toon_nodes(a, pad) + toon_nodes(b, pad),
    decreases b.len(),
{
    if b.len() == 0 {
        assert(a + b =~= a);
        assert(toon_nodes(a, pad) + toon_nodes(b, pad) =~= toon_nodes(a, pad));
    } else {
        nodes_keep_their_order(a, b.drop_last(), pad);
        assert((a + b).drop_last() =~= a + b.drop_last());
        assert(toon_nodes(a + b, pad) =~= toon_nodes(a, pad) + toon_nodes(b, pad));
    }
}

/// The size and place of what was picked, as the header of a capture gives them.
pub open spec fn target_text(x: Seq<char>, y: Seq<char>, w: Seq<char>, h: Seq<char>) -> Seq<char> {
    "\n- Capture target: "@ + w + " × "@ + h + " pt @ ("@ + x + ", "@ + y
        + ")\n- AX nodes captured: "@
}

/// The text tells the size and place of what was picked.
pub open spec fn tells_target(s: Seq<char>, b: ScreenRect) -> bool {
    exists|x: Seq<char>, y: Seq<char>, w: Seq<char>, h: Seq<char>|
        occurs(s, #[trigger] target_text(x, y, w, h)) && tells_points(x, b.x as int)
            && tells_points(y, b.y as int) && tells_points(w, b.w as int) && tells_points(
            h,
            b.h as int,
        )
}

proof fn nine_in_a_row(
    z: Seq<char>,
    a: Seq<char>,
    b: Seq<char>,
    c: Seq<char>,
    d: Seq<char>,
    e: Seq<char>,
    f: Seq<char>,
    g: Seq<char>,
    h: Seq<char>,
    i: Seq<char>,
)
    ensures
        occurs(
            z + a + b + c + d + e + f + g + h + i,
            a + b + c + d + e + f + g + h + i,
        ),
{
    let all = z + a + b + c + d + e + f + g + h + i;
    let run = a + b + c + d + e + f + g + h + i;
    assert(all =~= z + run + Seq::<char>::empty());
    part_occurs(z, run, Seq::empty());
}

proof fn three_in_a_row(z: Seq<char>, a: Seq<char>, b: Seq<char>, c: Seq<char>)
    ensures
        occurs(z + a + b + c, a + b + c),
        occurs(z + a + b, a + b),
{
    let empty = Seq::<char>::empty();
    assert(z + a + b + c =~= z + (a + b + c) + empty);
    assert(z + a + b =~= z + (a + b) + empty);
    part_occurs(z, a + b + c, empty);
    part_occurs(z, a + b, empty);
}

proof fn header_tells_the_target(nodes: nat, picked: PickedElement, bundle: Option<BundleSummary>)
    ensures
        tells_target(toon_header(nodes, picked, bundle), picked.bounds),
        occurs(
            toon_header(nodes, picked, bundle),
            ")\n- AX nodes captured: "@ + decimal(nodes) + "\n\n"@,
        ),
{
    let (x, y) = (whole_points(picked.bounds.x as int), whole_points(picked.bounds.y as int));
    let (w, h) = (whole_points(picked.bounds.w as int), whole_points(picked.bounds.h as int));
    whole_points_read_back(picked.bounds.x as int);
    whole_points_read_back(picked.bounds.y as int);
    whole_points_read_back(picked.bounds.w as int);
    whole_points_read_back(picked.bounds.h as int);
    let head = "# VibeExtract — Native Desktop Capture\n\n## Source\n"@ + around(
        "- App: "@,
        picked.app_path,
        "\n"@,
    ) + around("- Window: \""@, picked.window_title, "\"\n"@) + toon_bundle(bundle) + "- Picked: "@
        + picked_role(picked) + picked_name(picked);
    nine_in_a_row(
        head,
        "\n- Capture target: "@,
        w,
        " × "@,
        h,
        " pt @ ("@,
        x,
        ", "@,
        y,
        ")\n- AX nodes captured: "@,
    );
    let before = head + "\n- Capture target: "@ + w + " × "@ + h + " pt @ ("@ + x + ", "@ + y;
    three_in_a_row(before, ")\n- AX nodes captured: "@, decimal(nodes), "\n\n"@);
    occurs_in_first(before + ")\n- AX nodes captured: "@, decimal(nodes), target_text(x, y, w, h));
    occurs_in_first(
        before + ")\n- AX nodes captured: "@ + decimal(nodes),
        "\n\n"@,
        target_text(x, y, w, h),
    );
    assert(occurs(toon_header(nodes, picked, bundle), target_text(x, y, w, h)));
}

proof fn header_tells_the_source(nodes: nat, picked: PickedElement, bundle: Option<BundleSummary>)
    ensures
        ({
            let t = toon_header(nodes, picked, bundle);
            &&& picked.app_path matches Some(p) ==> occurs(t, "- App: "@ + p@ + "\n"@)
            &&& picked.window_title matches Some(w) ==> occurs(t, "- Window: \""@ + w@ + "\"\n"@)
            &&& occurs(t, "- Picked: "@ + picked.role@)
            &&& picked.name@.len() > 0 ==> occurs(t, " \""@ + quoted_text(picked.name@) + "\""@)
            &&& bundle matches Some(b) ==> {
                &&& b.bundle_id matches Some(id) ==> occurs(t, "- Bundle-ID: "@ + id@ + "\n"@)
                &&& b.display_name matches Some(name) ==> occurs(t, "- App name: "@ + name@ + "\n"@)
            }
        }),
{
    broadcast use crate::text::group_parts;

    let head = "# VibeExtract — Native Desktop Capture\n\n## Source\n"@ + around(
        "- App: "@,
        picked.app_path,
        "\n"@,
    ) + around("- Window: \""@, picked.window_title, "\"\n"@) + toon_bundle(bundle);
    let role = picked_role(picked);
    let shown = head + "- Picked: "@ + role;
    let first = "- Picked: "@ + picked.role@;
    assert(occurs("- Picked: "@ + role, first)) by {
        match picked.subrole {
            Some(sub) if sub@.len() > 0 => {
                assert("- Picked: "@ + role =~= first + ":"@ + sub@);
            },
            _ => {},
        }
    }
    assert(shown =~= head + ("- Picked: "@ + role));
    assert(occurs(shown, first));
}

/// A capture in TOON tells where it comes from: the app, the window, what was picked
/// with its size and place, how many nodes were captured, and at its end the structure,
/// which is the tree's.
pub proof fn a_capture_tells_its_source(
    root: Node,
    palette: Seq<(u8, u8, u8)>,
    picked: PickedElement,
    bundle: Option<BundleSummary>,
)
    ensures
        ({
            let t = toon_text(root, palette, picked, bundle);
            &&& picked.app_path matches Some(p) ==> occurs(t, "- App: "@ + p@ + "\n"@)
            &&& picked.window_title matches Some(w) ==> occurs(t, "- Window: \""@ + w@ + "\"\n"@)
            &&& occurs(t, "- Picked: "@ + picked.role@)
            &&& picked.name@.len() > 0 ==> occurs(t, " \""@ + quoted_text(picked.name@) + "\""@)
            &&& bundle matches Some(b) ==> {
                &&& b.bundle_id matches Some(id) ==> occurs(t, "- Bundle-ID: "@ + id@ + "\n"@)
                &&& b.display_name matches Some(name) ==> occurs(t, "- App name: "@ + name@ + "\n"@)
            }
            &&& tells_target(t, picked.bounds)
            &&& occurs(t, ")\n- AX nodes captured: "@ + decimal(size(root@)) + "\n\n"@)
            &&& palette.len() > 0 ==> occurs(t, palette_lines(palette))
            &&& size(root@) <= 4 && picked.bounds.area_units() > 5000 * 64 * 64 ==> occurs(
                t,
                SHALLOW_NOTE@,
            )
            &&& ends(t, "## Structure\n"@ + toon_node(root, ""@))
        }),
{
    let header = toon_header(size(root@), picked, bundle);
    header_tells_the_target(size(root@), picked, bundle);
    header_tells_the_source(size(root@), picked, bundle);
    let note = if tree_is_shallow(size(root@), picked.bounds) {
        SHALLOW_NOTE@
    } else {
        Seq::empty()
    };
    let colors = toon_palette(palette);
    let tree = toon_node(root, ""@);
    five_parts(header, note, colors, "## Structure\n"@, tree);
    occurs_in_itself(note);
    if palette.len() > 0 {
        part_occurs("## Palette\n"@, palette_lines(palette), "\n"@);
    }
}

proof fn five_parts(a: Seq<char>, b: Seq<char>, c: Seq<char>, d: Seq<char>, e: Seq<char>)
    ensures
        forall|n: Seq<char>| occurs(a, n) ==> #[trigger] occurs(a + b + c + d + e, n),
        forall|n: Seq<char>| occurs(b, n) ==> #[trigger] occurs(a + b + c + d + e, n),
        forall|n: Seq<char>| occurs(c, n) ==> #[trigger] occurs(a + b + c + d + e, n),
        ends(a + b + c + d + e, d + e),
{
    broadcast use crate::text::group_parts;

    let all = a + b + c + d + e;
    assert(all.subrange(all.len() - (d + e).len(), all.len() as int) =~= d + e);
}

/// The palette lists every colour, numbered from one.
pub proof fn the_palette_lists_every_color(palette: Seq<(u8, u8, u8)>, i: int)
    requires
        0 <= i < palette.len(),
    ensures
        occurs(
            palette_lines(palette),
            ".c"@ + decimal((i + 1) as nat) + ": "@ + hex_color_text(palette[i]) + "\n"@,
        ),
        occurs(toon_palette(palette), palette_lines(palette)),
    decreases palette.len(),
{
    let empty = Seq::<char>::empty();
    let lines = palette_lines(palette);
    let head = palette_lines(palette.drop_last());
    let last = ".c"@ + decimal(palette.len()) + ": "@ + hex_color_text(palette.last()) + "\n"@;
    assert(lines =~= head + last + empty);
    part_occurs("## Palette\n"@, lines, "\n"@);
    if i == palette.len() - 1 {
        part_occurs(head, last, empty);
    } else {
        the_palette_lists_every_color(palette.drop_last(), i);
        assert(lines =~= empty + head + last);
        part_occurs(empty, head, last);
        occurs_through(
            lines,
            head,
            ".c"@ + decimal((i + 1) as nat) + ": "@ + hex_color_text(palette[i]) + "\n"@,
        );
    }
}

/// The note on a nearly empty tree goes by points: it stands for a region of over 5000
/// square points of which under five nodes were captured, and for no other.
pub proof fn the_note_goes_by_points(nodes: nat, bounds: ScreenRect, w: int, h: int)
    requires
        bounds.w == 64 * w,
        bounds.h == 64 * h,
    ensures
        tree_is_shallow(nodes, bounds) <==> nodes <= 4 && w * h > 5000,
{
    assert((64 * w) * (64 * h) == 4096 * (w * h)) by (nonlinear_arith);
}

// ---------------------------------------------------------------------------
// What a capture in HTML shows
// ---------------------------------------------------------------------------

/// The roles of elements that are shown around what they hold.
pub open spec fn holding_roles() -> Seq<Seq<char>> {
    seq![
        "AXGroup"@, "AXScrollArea"@, "AXSplitGroup"@, "AXTabGroup"@, "AXToolbar"@,
        "AXOutline"@, "AXList"@, "AXTable"@, "AXRow"@, "AXColumn"@, "AXMenuBar"@, "AXMenu"@,
        "AXWindow"@, "AXSheet"@, "AXLayoutArea"@, "AXLayoutItem"@,
    ]
}

/// A node has a place to be shown at: bounds of at least one point each way.
pub open spec fn has_place(n: Node) -> bool {
    n.bounds matches Some(b) && b.w >= 64 && b.h >= 64
}

/// An element with a place that holds others, by its role, is shown with all of them
/// inside, one level further in and in their order, between its own start and its end.
pub proof fn containers_hold_their_children(n: Node, root: ScreenRect, pad: Seq<char>)
    requires
        has_place(n),
        holding_roles().contains(n.role@),
        n.children@.len() > 0,
    ensures
        exists|head: Seq<char>, tail: Seq<char>|
            #[trigger] (head + dom_all(n.children@, root, pad + "  "@) + tail) == dom(n, root, pad)
                && occurs(head, "data-role=\""@ + html_text(n.role@) + "\""@) && occurs(
                tail,
                "</"@ + html_of_role(n.role@).0 + ">"@,
            ),
{
    broadcast use crate::text::group_parts;

    let k = choose|k: int| 0 <= k < holding_roles().len() && holding_roles()[k] == n.role@;
    assert(container_role(n.role@));
    let b = n.bounds->0;
    let head = open_tag(n, b, root, pad);
    let tag = html_of_role(n.role@).0;
    let all = dom_all(n.children@, root, pad + "  "@);
    let tail = pad + "</"@ + tag + ">\n"@;
    assert(head + all + tail =~= dom(n, root, pad));
    element_is_marked(n, b, root, pad);
    reveal_strlit(">\n");
    reveal_strlit(">");
    let shut = "</"@ + tag + ">"@;
    assert(tail =~= pad + shut + "\n"@) by {
        reveal_strlit("\n");
    }
}

/// An element whose role holds no others is shown without what is below it.
pub proof fn leaves_are_shown_alone(n: Node, m: Node, root: ScreenRect, pad: Seq<char>)
    requires
        has_place(n),
        !holding_roles().contains(n.role@),
        m == (Node { children: m.children, ..n }),
    ensures
        dom(n, root, pad) == dom(m, root, pad),
{
    let all = holding_roles();
    assert(all[0] == "AXGroup"@);
    assert(all[1] == "AXScrollArea"@);
    assert(all[2] == "AXSplitGroup"@);
    assert(all[3] == "AXTabGroup"@);
    assert(all[4] == "AXToolbar"@);
    assert(all[5] == "AXOutline"@);
    assert(all[6] == "AXList"@);
    assert(all[7] == "AXTable"@);
    assert(all[8] == "AXRow"@);
    assert(all[9] == "AXColumn"@);
    assert(all[10] == "AXMenuBar"@);
    assert(all[11] == "AXMenu"@);
    assert(all[12] == "AXWindow"@);
    assert(all[13] == "AXSheet"@);
    assert(all[14] == "AXLayoutArea"@);
    assert(all[15] == "AXLayoutItem"@);
    assert(!container_role(n.role@));
}

/// A place relative to the captured region, as an element's style gives it.
pub open spec fn style_place(l: Seq<char>, t: Seq<char>, w: Seq<char>, h: Seq<char>) -> Seq<char> {
    "left:"@ + l + "px; top:"@ + t + "px; width:"@ + w + "px; height:"@ + h + "px;"@
}

/// A style starts with the place of a rectangle: from the left and the top edge of the
/// captured region, with its width and its height.
pub open spec fn styles_place(s: Seq<char>, b: ScreenRect, root: ScreenRect) -> bool {
    exists|l: Seq<char>, t: Seq<char>, w: Seq<char>, h: Seq<char>|
        begins(s, #[trigger] style_place(l, t, w, h)) && tells_points(l, b.x - root.x)
            && tells_points(t, b.y - root.y) && tells_points(w, b.w as int) && tells_points(
            h,
            b.h as int,
        )
}

/// An element's style starts with its place in the captured region.
pub proof fn a_style_tells_the_place(n: Node, b: ScreenRect, root: ScreenRect)
    ensures
        styles_place(style_text(n, b, root), b, root),
{
    broadcast use crate::text::group_parts;

    whole_points_read_back(b.x - root.x);
    whole_points_read_back(b.y - root.y);
    whole_points_read_back(b.w as int);
    whole_points_read_back(b.h as int);
    let place = style_place(
        whole_points(b.x - root.x),
        whole_points(b.y - root.y),
        whole_points(b.w as int),
        whole_points(b.h as int),
    );
    assert(begins(style_text(n, b, root), place));
}

/// A background colour as a style gives it.
pub open spec fn background(r: Seq<char>, g: Seq<char>, b: Seq<char>) -> Seq<char> {
    " background-color: rgb("@ + r + ", "@ + g + ", "@ + b + ");"@
}

/// A style gives an element's colour as the background, part by part, and no background
/// where there is no colour.
pub proof fn a_style_tells_the_color(rgb: (u8, u8, u8))
    ensures
        exists|r: Seq<char>, g: Seq<char>, b: Seq<char>|
            begins(color_style(Some(rgb)), #[trigger] background(r, g, b)) && read_decimal(r)
                == rgb.0 && read_decimal(g) == rgb.1 && read_decimal(b) == rgb.2,
        color_style(None).len() == 0,
{
    broadcast use crate::text::group_parts;

    decimal_reads_back(rgb.0 as nat);
    decimal_reads_back(rgb.1 as nat);
    decimal_reads_back(rgb.2 as nat);
    let shown = background(
        decimal(rgb.0 as nat),
        decimal(rgb.1 as nat),
        decimal(rgb.2 as nat),
    );
    assert(begins(color_style(Some(rgb)), shown));
}

/// What an element says: its name, or its value where it has no name.
pub open spec fn said(n: Node) -> Seq<char> {
    if n.name@.len() > 0 {
        n.name@
    } else if n.value is Some {
        n.value->0@
    } else {
        Seq::empty()
    }
}

proof fn element_is_marked(n: Node, b: ScreenRect, root: ScreenRect, pad: Seq<char>)
    ensures
        occurs(open_tag(n, b, root, pad), "data-role=\""@ + html_text(n.role@) + "\""@),
        occurs(leaf_html(n, b, root, pad), "data-role=\""@ + html_text(n.role@) + "\""@),
        occurs(open_tag(n, b, root, pad), style_text(n, b, root)),
        occurs(leaf_html(n, b, root, pad), style_text(n, b, root)),
        occurs(leaf_html(n, b, root, pad), html_text(said(n))),
{
    broadcast use crate::text::group_parts;

    let (tag, class) = html_of_role(n.role@);
    let role = html_text(n.role@);
    let mark = "data-role=\""@ + role + "\""@;
    reveal_strlit("\" data-role=\"");
    reveal_strlit("data-role=\"");
    reveal_strlit("\" style=\"");
    reveal_strlit("\" alt=\"");
    reveal_strlit("\" value=\"");
    reveal_strlit("<img class=\"ve-el ve-image\" data-role=\"");
    reveal_strlit("\"");
    assert(inner_text(n) == html_text(said(n)));
    let a = pad + "<"@ + tag + " class=\"ve-el "@ + class;
    mark_is_there(a, "\" data-role=\""@, role, "\" style=\""@);
    let i = pad + "<input class=\"ve-el "@ + class;
    mark_is_there(i, "\" data-role=\""@, role, "\" value=\""@);
    mark_is_there(pad, "<img class=\"ve-el ve-image\" data-role=\""@, role, "\" alt=\""@);
}

proof fn mark_is_there(a: Seq<char>, before: Seq<char>, role: Seq<char>, after: Seq<char>)
    requires
        before.len() >= 11,
        before.skip(before.len() - 11) =~= "data-role=\""@,
        after.len() >= 1,
        after[0] == '"',
    ensures
        occurs(a + before + role + after, "data-role=\""@ + role + "\""@),
{
    reveal_strlit("data-role=\"");
    reveal_strlit("\"");
    let mark = "data-role=\""@ + role + "\""@;
    let head = a + before.take(before.len() - 11);
    assert(before =~= before.take(before.len() - 11) + "data-role=\""@);
    assert(after =~= "\""@ + after.skip(1));
    assert(a + before + role + after =~= head + mark + after.skip(1));
    part_occurs(head, mark, after.skip(1));
}

/// A node with a place is shown on a page, with its role, and at its place.
pub open spec fn is_shown(page: Seq<char>, n: Node, root: ScreenRect) -> bool {
    &&& occurs(page, "data-role=\""@ + html_text(n.role@) + "\""@)
    &&& exists|style: Seq<char>|
        #[trigger] occurs(page, style) && styles_place(style, n.bounds->0, root)
}

/// A node with a place is shown in what is made of it, with its role and at its place;
/// where it holds no others, with what it says.
pub proof fn a_node_with_a_place_is_shown(n: Node, root: ScreenRect, pad: Seq<char>)
    requires
        has_place(n),
    ensures
        is_shown(dom(n, root, pad), n, root),
        !holding_roles().contains(n.role@) || n.children@.len() == 0 ==> occurs(
            dom(n, root, pad),
            html_text(said(n)),
        ),
{
    broadcast use crate::text::group_parts;

    let b = n.bounds->0;
    element_is_marked(n, b, root, pad);
    a_style_tells_the_place(n, b, root);
    let style = style_text(n, b, root);
    let mark = "data-role=\""@ + html_text(n.role@) + "\""@;
    let page = dom(n, root, pad);
    if container_role(n.role@) && n.children@.len() > 0 {
        let all = holding_roles();
        assert(all[0] == "AXGroup"@);
        assert(all[1] == "AXScrollArea"@);
        assert(all[2] == "AXSplitGroup"@);
        assert(all[3] == "AXTabGroup"@);
        assert(all[4] == "AXToolbar"@);
        assert(all[5] == "AXOutline"@);
        assert(all[6] == "AXList"@);
        assert(all[7] == "AXTable"@);
        assert(all[8] == "AXRow"@);
        assert(all[9] == "AXColumn"@);
        assert(all[10] == "AXMenuBar"@);
        assert(all[11] == "AXMenu"@);
        assert(all[12] == "AXWindow"@);
        assert(all[13] == "AXSheet"@);
        assert(all[14] == "AXLayoutArea"@);
        assert(all[15] == "AXLayoutItem"@);
        assert(all.contains(n.role@));
        assert(occurs(page, style));
        assert(occurs(page, mark));
    } else {
        assert(page == leaf_html(n, b, root, pad));
    }
}

/// `m` is shown within `n`, `d` levels below: every node on the way down holds others, by
/// its role, or has no place and gives way to what it holds.
pub open spec fn shown_below(n: Node, m: Node, d: nat) -> bool
    decreases d,
{
    if d == 0 {
        m == n
    } else {
        (holding_roles().contains(n.role@) || !has_place(n)) && exists|i: int|
            0 <= i < n.children@.len() && shown_below(
                #[trigger] n.children@[i],
                m,
                (d - 1) as nat,
            )
    }
}

proof fn dom_all_holds_each(s: Seq<Node>, i: int, root: ScreenRect, pad: Seq<char>)
    requires
        0 <= i < s.len(),
    ensures
        occurs(dom_all(s, root, pad), dom(s[i], root, pad)),
    decreases s.len(),
{
    let head = dom_all(s.drop_last(), root, pad);
    let last = dom(s.last(), root, pad);
    if i == s.len() - 1 {
        occurs_in_itself(last);
        occurs_in_second(head, last, last);
    } else {
        dom_all_holds_each(s.drop_last(), i, root, pad);
        occurs_in_first(head, last, dom(s[i], root, pad));
    }
}

/// Every node with a place that is not below a button, a text, an input, a link or an
/// image is on the page, with its role and at its place, however deep it stands.
pub proof fn every_node_in_sight_is_shown(n: Node, m: Node, d: nat, root: ScreenRect, pad: Seq<char>)
    requires
        shown_below(n, m, d),
        has_place(m),
    ensures
        is_shown(dom(n, root, pad), m, root),
    decreases d,
{
    if d == 0 {
        a_node_with_a_place_is_shown(n, root, pad);
    } else {
        let i = choose|i: int|
            0 <= i < n.children@.len() && shown_below(
                #[trigger] n.children@[i],
                m,
                (d - 1) as nat,
            );
        let kid = n.children@[i];
        let inner = if has_place(n) {
            pad + "  "@
        } else {
            pad
        };
        every_node_in_sight_is_shown(kid, m, (d - 1) as nat, root, inner);
        dom_all_holds_each(n.children@, i, root, inner);
        let all = dom_all(n.children@, root, inner);
        let page = dom(n, root, pad);
        if has_place(n) {
            containers_hold_their_children(n, root, pad);
            let (head, tail) = choose|head: Seq<char>, tail: Seq<char>|
                #[trigger] (head + dom_all(n.children@, root, pad + "  "@) + tail) == page
                    && occurs(head, "data-role=\""@ + html_text(n.role@) + "\""@) && occurs(
                    tail,
                    "</"@ + html_of_role(n.role@).0 + ">"@,
                );
            part_occurs(head, all, tail);
        } else {
            occurs_in_itself(page);
        }
        let inside = dom(kid, root, inner);
        occurs_through(page, all, inside);
        occurs_through(page, inside, "data-role=\""@ + html_text(m.role@) + "\""@);
        let style = choose|style: Seq<char>|
            #[trigger] occurs(inside, style) && styles_place(style, m.bounds->0, root);
        occurs_through(page, inside, style);
    }
}

proof fn shown_roles_differ(r: Seq<char>)
    ensures
        button_role(r) ==> !text_role(r) && !input_role(r) && r != "AXLink"@ && !image_role(r)
            && !container_role(r),
        text_role(r) ==> !input_role(r) && r != "AXLink"@ && !image_role(r) && !container_role(r),
        input_role(r) ==> r != "AXLink"@ && !image_role(r) && !container_role(r),
        r == "AXLink"@ ==> !image_role(r) && !container_role(r),
        image_role(r) ==> !container_role(r),
{
    reveal_strlit("AXGroup");
    reveal_strlit("AXScrollArea");
    reveal_strlit("AXSplitGroup");
    reveal_strlit("AXTabGroup");
    reveal_strlit("AXToolbar");
    reveal_strlit("AXOutline");
    reveal_strlit("AXList");
    reveal_strlit("AXTable");
    reveal_strlit("AXRow");
    reveal_strlit("AXColumn");
    reveal_strlit("AXMenuBar");
    reveal_strlit("AXMenu");
    reveal_strlit("AXWindow");
    reveal_strlit("AXSheet");
    reveal_strlit("AXLayoutArea");
    reveal_strlit("AXLayoutItem");
    reveal_strlit("AXButton");
    reveal_strlit("AXPopUpButton");
    reveal_strlit("AXMenuButton");
    reveal_strlit("AXRadioButton");
    reveal_strlit("AXCheckBox");
    reveal_strlit("AXDisclosureTriangle");
    reveal_strlit("AXIncrementor");
    reveal_strlit("AXDecrementor");
    reveal_strlit("AXStaticText");
    reveal_strlit("AXHeading");
    reveal_strlit("AXTextField");
    reveal_strlit("AXTextArea");
    reveal_strlit("AXSearchField");
    reveal_strlit("AXComboBox");
    reveal_strlit("AXImage");
    reveal_strlit("AXIcon");
    reveal_strlit("AXLink");
    assert("AXGroup"@.len() == 7 && "AXGroup"@[2] == 'G' && "AXGroup"@[3] == 'r' && "AXGroup"@[4] == 'o');
    assert("AXScrollArea"@.len() == 12 && "AXScrollArea"@[2] == 'S' && "AXScrollArea"@[3] == 'c' && "AXScrollArea"@[4] == 'r');
    assert("AXSplitGroup"@.len() == 12 && "AXSplitGroup"@[2] == 'S' && "AXSplitGroup"@[3] == 'p' && "AXSplitGroup"@[4] == 'l');
    assert("AXTabGroup"@.len() == 10 && "AXTabGroup"@[2] == 'T' && "AXTabGroup"@[3] == 'a' && "AXTabGroup"@[4] == 'b');
    assert("AXToolbar"@.len() == 9 && "AXToolbar"@[2] == 'T' && "AXToolbar"@[3] == 'o' && "AXToolbar"@[4] == 'o');
    assert("AXOutline"@.len() == 9 && "AXOutline"@[2] == 'O' && "AXOutline"@[3] == 'u' && "AXOutline"@[4] == 't');
    assert("AXList"@.len() == 6 && "AXList"@[2] == 'L' && "AXList"@[3] == 'i' && "AXList"@[4] == 's');
    assert("AXTable"@.len() == 7 && "AXTable"@[2] == 'T' && "AXTable"@[3] == 'a' && "AXTable"@[4] == 'b');
    assert("AXRow"@.len() == 5 && "AXRow"@[2] == 'R' && "AXRow"@[3] == 'o' && "AXRow"@[4] == 'w');
    assert("AXColumn"@.len() == 8 && "AXColumn"@[2] == 'C' && "AXColumn"@[3] == 'o' && "AXColumn"@[4] == 'l');
    assert("AXMenuBar"@.len() == 9 && "AXMenuBar"@[2] == 'M' && "AXMenuBar"@[3] == 'e' && "AXMenuBar"@[4] == 'n');
    assert("AXMenu"@.len() == 6 && "AXMenu"@[2] == 'M' && "AXMenu"@[3] == 'e' && "AXMenu"@[4] == 'n');
    assert("AXWindow"@.len() == 8 && "AXWindow"@[2] == 'W' && "AXWindow"@[3] == 'i' && "AXWindow"@[4] == 'n');
    assert("AXSheet"@.len() == 7 && "AXSheet"@[2] == 'S' && "AXSheet"@[3] == 'h' && "AXSheet"@[4] == 'e');
    assert("AXLayoutArea"@.len() == 12 && "AXLayoutArea"@[2] == 'L' && "AXLayoutArea"@[3] == 'a' && "AXLayoutArea"@[4] == 'y');
    assert("AXLayoutItem"@.len() == 12 && "AXLayoutItem"@[2] == 'L' && "AXLayoutItem"@[3] == 'a' && "AXLayoutItem"@[4] == 'y');
    assert("AXButton"@.len() == 8 && "AXButton"@[2] == 'B' && "AXButton"@[3] == 'u' && "AXButton"@[4] == 't');
    assert("AXPopUpButton"@.len() == 13 && "AXPopUpButton"@[2] == 'P' && "AXPopUpButton"@[3] == 'o' && "AXPopUpButton"@[4] == 'p');
    assert("AXMenuButton"@.len() == 12 && "AXMenuButton"@[2] == 'M' && "AXMenuButton"@[3] == 'e' && "AXMenuButton"@[4] == 'n');
    assert("AXRadioButton"@.len() == 13 && "AXRadioButton"@[2] == 'R' && "AXRadioButton"@[3] == 'a' && "AXRadioButton"@[4] == 'd');
    assert("AXCheckBox"@.len() == 10 && "AXCheckBox"@[2] == 'C' && "AXCheckBox"@[3] == 'h' && "AXCheckBox"@[4] == 'e');
    assert("AXDisclosureTriangle"@.len() == 20 && "AXDisclosureTriangle"@[2] == 'D' && "AXDisclosureTriangle"@[3] == 'i' && "AXDisclosureTriangle"@[4] == 's');
    assert("AXIncrementor"@.len() == 13 && "AXIncrementor"@[2] == 'I' && "AXIncrementor"@[3] == 'n' && "AXIncrementor"@[4] == 'c');
    assert("AXDecrementor"@.len() == 13 && "AXDecrementor"@[2] == 'D' && "AXDecrementor"@[3] == 'e' && "AXDecrementor"@[4] == 'c');
    assert("AXStaticText"@.len() == 12 && "AXStaticText"@[2] == 'S' && "AXStaticText"@[3] == 't' && "AXStaticText"@[4] == 'a');
    assert("AXHeading"@.len() == 9 && "AXHeading"@[2] == 'H' && "AXHeading"@[3] == 'e' && "AXHeading"@[4] == 'a');
    assert("AXTextField"@.len() == 11 && "AXTextField"@[2] == 'T' && "AXTextField"@[3] == 'e' && "AXTextField"@[4] == 'x');
    assert("AXTextArea"@.len() == 10 && "AXTextArea"@[2] == 'T' && "AXTextArea"@[3] == 'e' && "AXTextArea"@[4] == 'x');
    assert("AXSearchField"@.len() == 13 && "AXSearchField"@[2] == 'S' && "AXSearchField"@[3] == 'e' && "AXSearchField"@[4] == 'a');
    assert("AXComboBox"@.len() == 10 && "AXComboBox"@[2] == 'C' && "AXComboBox"@[3] == 'o' && "AXComboBox"@[4] == 'm');
    assert("AXImage"@.len() == 7 && "AXImage"@[2] == 'I' && "AXImage"@[3] == 'm' && "AXImage"@[4] == 'a');
    assert("AXIcon"@.len() == 6 && "AXIcon"@[2] == 'I' && "AXIcon"@[3] == 'c' && "AXIcon"@[4] == 'o');
    assert("AXLink"@.len() == 6 && "AXLink"@[2] == 'L' && "AXLink"@[3] == 'i' && "AXLink"@[4] == 'n');
}

/// Elements are shown with the tag of their kind: buttons as buttons, texts as spans,
/// fields as inputs, links as links, images as images, and anything else as a division.
pub proof fn elements_are_tagged_by_role(n: Node, root: ScreenRect, pad: Seq<char>)
    requires
        has_place(n),
    ensures
        ({
            let page = dom(n, root, pad);
            let role = html_text(n.role@);
            &&& seq![
                "AXButton"@, "AXPopUpButton"@, "AXMenuButton"@, "AXRadioButton"@,
                "AXCheckBox"@, "AXDisclosureTriangle"@, "AXIncrementor"@, "AXDecrementor"@,
            ].contains(n.role@) ==> occurs(
                page,
                "<"@ + "button"@ + " class=\"ve-el "@ + "ve-button"@ + "\" data-role=\""@ + role,
            )
            &&& seq![
                "AXStaticText"@, "AXHeading"@,
            ].contains(n.role@) ==> occurs(
                page,
                "<"@ + "span"@ + " class=\"ve-el "@ + "ve-text"@ + "\" data-role=\""@ + role,
            )
            &&& seq![
                "AXTextField"@, "AXTextArea"@, "AXSearchField"@, "AXComboBox"@,
            ].contains(n.role@) ==> occurs(
                page,
                "<input class=\"ve-el "@ + "ve-input"@ + "\" data-role=\""@ + role
                    + "\" value=\""@ + html_text(said(n)) + "\""@,
            )
            &&& n.role@ == "AXLink"@ ==> occurs(
                page,
                "<"@ + "a"@ + " class=\"ve-el "@ + "ve-link"@ + "\" data-role=\""@ + role,
            )
            &&& seq![
                "AXImage"@, "AXIcon"@,
            ].contains(n.role@) ==> occurs(
                page,
                "<img class=\"ve-el ve-image\" data-role=\""@ + role + "\" alt=\""@ + html_text(
                    said(n),
                ) + "\""@,
            )
            &&& holding_roles().contains(n.role@) ==> occurs(
                page,
                "<"@ + "div"@ + " class=\"ve-el "@ + "ve-group"@ + "\" data-role=\""@ + role,
            )
        }),
{
    broadcast use crate::text::group_parts;

    shown_roles_differ(n.role@);
    let b = n.bounds->0;
    let (tag, class) = html_of_role(n.role@);
    let role = html_text(n.role@);
    let said_text = html_text(said(n));
    assert(inner_text(n) == said_text);
    let style = style_text(n, b, root);
    five_in_a_row(pad, "<"@, tag, " class=\"ve-el "@, class, "\" data-role=\""@, role);
    reveal_strlit("\" style=\"");
    reveal_strlit("\"");
    let q = "\" style=\""@;
    assert(q =~= "\""@ + q.skip(1));
    let input = "<input class=\"ve-el "@ + class + "\" data-role=\""@ + role + "\" value=\""@
        + said_text;
    let image = "<img class=\"ve-el ve-image\" data-role=\""@ + role + "\" alt=\""@ + said_text;
    if input_role(n.role@) {
        assert(dom(n, root, pad) == leaf_html(n, b, root, pad)) by {
            assert(!container_role(n.role@));
        }
        let shown = input + "\""@;
        assert(dom(n, root, pad) =~= pad + shown + (q.skip(1) + style + "\">\n"@));
        part_occurs(pad, shown, q.skip(1) + style + "\">\n"@);
    }
    if image_role(n.role@) {
        let shown = image + "\""@;
        assert(dom(n, root, pad) =~= pad + shown + (q.skip(1) + style + "\">\n"@));
        part_occurs(pad, shown, q.skip(1) + style + "\">\n"@);
    }
}

proof fn five_in_a_row(
    z: Seq<char>,
    a: Seq<char>,
    b: Seq<char>,
    c: Seq<char>,
    d: Seq<char>,
    e: Seq<char>,
    f: Seq<char>,
)
    ensures
        occurs(z + a + b + c + d + e + f, a + b + c + d + e + f),
{
    let run = a + b + c + d + e + f;
    assert(z + a + b + c + d + e + f =~= z + run + Seq::<char>::empty());
    part_occurs(z, run, Seq::empty());
}

/// The screenshot and the elements are on the page, on a canvas as wide and as high as the
/// captured region.
pub proof fn a_page_shows_the_capture(root: Node, screenshot_b64: Seq<char>, bounds: ScreenRect)
    ensures
        ({
            let page = html_page(root, screenshot_b64, bounds);
            &&& occurs(page, screenshot_b64)
            &&& occurs(page, dom(root, bounds, "      "@))
            &&& exists|w: Seq<char>, h: Seq<char>|
                occurs(page, #[trigger] (w + "px; height: "@ + h)) && tells_points(
                    w,
                    bounds.w as int,
                ) && tells_points(h, bounds.h as int)
            &&& exists|w: Seq<char>, h: Seq<char>|
                occurs(page, #[trigger] (w + " × "@ + h)) && tells_points(w, bounds.w as int)
                    && tells_points(h, bounds.h as int)
        }),
{
    broadcast use crate::text::group_parts;

    let page = html_page(root, screenshot_b64, bounds);
    let (w, h) = (whole_points(bounds.w as int), whole_points(bounds.h as int));
    whole_points_read_back(bounds.w as int);
    whole_points_read_back(bounds.h as int);
    three_in_a_row(PAGE_TOP@, w, PAGE_HEIGHT@, h);
    three_in_a_row(PAGE_TOP@ + w + PAGE_HEIGHT@ + h + PAGE_STYLE@, w, PAGE_BY@, h);
    assert(occurs(page, w + "px; height: "@ + h));
    assert(occurs(page, w + " × "@ + h));
}

/// Text is shown in a font that fills its line: the height is 1.3 times the font, within
/// the rounding, and the font is never under 10. A button or a link has 16 points of
/// padding besides, and a font of at least 11. Nothing else gets a font.
pub proof fn fonts_follow_the_height(role: Seq<char>, height: int)
    ensures
        role == "AXStaticText"@ || role == "AXHeading"@ ==> (font_pixels(role, height) matches Some(
            px,
        ) && px >= 10 && (px > 10 ==> -832 <= 20 * height - 1664 * px <= 832) && (px == 10 ==> 20
            * height <= 16640 + 832)),
        role == "AXButton"@ || role == "AXLink"@ ==> (font_pixels(role, height) matches Some(px)
            && px >= 11 && (px > 11 ==> -832 <= 20 * (height - 1024) - 1664 * px <= 832) && (px == 11
            ==> 20 * (height - 1024) <= 18304 + 832)),
        role != "AXStaticText"@ && role != "AXHeading"@ && role != "AXButton"@ && role != "AXLink"@
            ==> font_pixels(role, height) is None,
{
    shown_roles_differ(role);
}

/// Text on a colour can be read: it is white on what is darker than one half, and dark on
/// what is lighter.
pub proof fn text_can_be_read_on_its_color(rgb: (u8, u8, u8))
    ensures
        299 * rgb.0 + 587 * rgb.1 + 114 * rgb.2 < 128000 - 1 ==> ends(
            color_style(Some(rgb)),
            " color: #fff;"@,
        ),
        299 * rgb.0 + 587 * rgb.1 + 114 * rgb.2 > 128000 + 1 ==> ends(
            color_style(Some(rgb)),
            " color: #111;"@,
        ),
{
    let (r, g, b) = (RED_WEIGHT * rgb.0, GREEN_WEIGHT * rgb.1, BLUE_WEIGHT * rgb.2);
    nearest_is_near(r as nat);
    nearest_is_near(g as nat);
    nearest_is_near(b as nat);
    let (red, green, blue) = (nearest(r as nat), nearest(g as nat), nearest(b as nat));
    nearest_is_near(red + green);
    let warm = nearest(red + green);
    nearest_is_near(warm + blue);
    let shown = color_style(Some(rgb));
    let end = if dark(rgb) {
        " color: #fff;"@
    } else {
        " color: #111;"@
    };
    let head = " background-color: rgb("@ + decimal(rgb.0 as nat) + ", "@ + decimal(rgb.1 as nat)
        + ", "@ + decimal(rgb.2 as nat) + ");"@;
    assert(shown == head + end);
    assert(shown.subrange(shown.len() - end.len(), shown.len() as int) =~= end);
}

/// Every nib that was recovered is named.
pub proof fn every_nib_is_named(b: BundleSummary, i: int)
    requires
        0 <= i < b.nibs@.len(),
    ensures
        occurs(toon_bundle(Some(b)), b.nibs@[i]@),
        occurs(toon_bundle(Some(b)), "- NIBs recovered: "@),
{
    broadcast use crate::text::group_parts;

    let names = texts(b.nibs@);
    joined_holds_each(names, ", "@, i);
    assert(names[i] == b.nibs@[i]@);
}

/// The picked element is told by its role and its sub-role, where it has one.
pub proof fn the_picked_role_is_told(p: PickedElement)
    ensures
        begins(picked_role(p), p.role@),
        p.subrole matches Some(s) ==> s@.len() > 0 ==> ends(picked_role(p), ":"@ + s@),
        p.subrole is None ==> picked_role(p) == p.role@,
{
    broadcast use crate::text::group_parts;

    if let Some(s) = p.subrole {
        let tail = ":"@ + s@;
        if s@.len() > 0 {
            let all = picked_role(p);
            assert(all =~= p.role@ + tail);
            assert(all.subrange(all.len() - tail.len(), all.len() as int) =~= tail);
        }
    }
}

} // verus!
