//! Capturing through the accessibility tree: where to look for the element again,
//! and what is made of its tree.

use crate::ax_macos::{count_nodes, size, Node};
use crate::bundle_macos::BundleSummary;
use crate::capture::{
    exact_points, exact_points_read_back, exact_points_text, magnitude, magnitude_of, tells_exactly,
    PickedElement, ScreenPoint, ScreenRect,
};
use crate::encoding::{base64_encode, base64_fits, base64_text};
use crate::native_format::{
    a_capture_tells_its_source, a_page_shows_the_capture, dom, emit_html, emit_toon, html_page,
    tells_target, toon_node, toon_text,
};
use crate::output::{CaptureResult, CaptureView};
use crate::text::{
    copy_of, decimal, decimal_int, decimal_int_text, decimal_text, ends, is_number, occurs,
    occurs_at, opt_view, read_number, texts,
};
use vstd::prelude::*;

verus! {

/// How deep the tree below a picked element is walked.
pub const NATIVE_DEPTH: u32 = 12;

/// Where to look for a picked element again: its middle, then three of its corners,
/// five points inside. Apps move and redraw between pick and export, so a single
/// point can miss.
pub open spec fn repick_points(b: ScreenRect) -> Seq<ScreenPoint> {
    seq![
        ScreenPoint { x: (b.x + b.w as int / 2) as i64, y: (b.y + b.h as int / 2) as i64 },
        ScreenPoint { x: (b.x + 320) as i64, y: (b.y + 320) as i64 },
        ScreenPoint { x: (b.x + b.w - 320) as i64, y: (b.y + 320) as i64 },
        ScreenPoint { x: (b.x + 320) as i64, y: (b.y + b.h - 320) as i64 },
    ]
}

/// The hit-tests to make, in order, until one finds an element. At each point the
/// test inside the element's own process comes first, where it is known.
pub open spec fn repick_tests(points: Seq<ScreenPoint>, pid: i32) -> Seq<(ScreenPoint, Option<i32>)>
    decreases points.len(),
{
    if points.len() == 0 {
        Seq::empty()
    } else {
        let head = repick_tests(points.drop_last(), pid);
        if pid > 0 {
            head.push((points.last(), Some(pid))).push((points.last(), None))
        } else {
            head.push((points.last(), None))
        }
    }
}

/// The hit-tests to make, in order, until one finds an element. `Some` is the
/// process to test inside; `None` tests the whole screen.
pub fn repick_attempts(picked: &PickedElement) -> (r: Vec<(ScreenPoint, Option<i32>)>)
    requires
        picked.bounds.wf(),
    ensures
        r@ == repick_tests(repick_points(picked.bounds), picked.pid),
{
    let b = picked.bounds;
    let mut points: Vec<ScreenPoint> = Vec::new();
    points.push(b.center());
    points.push(ScreenPoint { x: b.x + 320, y: b.y + 320 });
    points.push(ScreenPoint { x: b.x + b.w - 320, y: b.y + 320 });
    points.push(ScreenPoint { x: b.x + 320, y: b.y + b.h - 320 });
    assert(points@ =~= repick_points(b));
    let mut out: Vec<(ScreenPoint, Option<i32>)> = Vec::new();
    for i in 0..points.len()
        invariant
            out@ == repick_tests(points@.take(i as int), picked.pid),
    {
        assert(points@.take(i + 1).drop_last() =~= points@.take(i as int));
        if picked.pid > 0 {
            out.push((points[i], Some(picked.pid)));
        }
        out.push((points[i], None));
    }
    assert(points@.take(points@.len() as int) =~= points@);
    out
}

/// A coordinate as it is written for debugging: with at least one decimal.
pub open spec fn debug_points(v: int) -> Seq<char> {
    if magnitude(v) % 64 == 0 {
        exact_points(v) + ".0"@
    } else {
        exact_points(v)
    }
}

fn debug_points_text(v: i64) -> (r: String)
    ensures
        r@ == debug_points(v as int),
{
    let mut out = exact_points_text(v);
    if magnitude_of(v as i128) % 64 == 0 {
        out.push_str(".0");
    }
    out
}

/// What goes with an element that no hit-test finds again.
pub open spec fn repick_failure_text(pid: i32, b: ScreenRect) -> Seq<char> {
    "re-pick at center+corners all failed (pid="@ + decimal_int(pid as int)
        + ", bounds=ScreenRect { x: "@ + debug_points(b.x as int) + ", y: "@ + debug_points(
        b.y as int,
    ) + ", w: "@ + debug_points(b.w as int) + ", h: "@ + debug_points(b.h as int) + " })"@
}

/// What goes with an element that no hit-test finds again.
pub fn repick_failure(picked: &PickedElement) -> (r: String)
    ensures
        r@ == repick_failure_text(picked.pid, picked.bounds),
{
    let mut s = copy_of("re-pick at center+corners all failed (pid=");
    s.push_str(decimal_int_text(picked.pid as i64).as_str());
    s.push_str(", bounds=ScreenRect { x: ");
    s.push_str(debug_points_text(picked.bounds.x).as_str());
    s.push_str(", y: ");
    s.push_str(debug_points_text(picked.bounds.y).as_str());
    s.push_str(", w: ");
    s.push_str(debug_points_text(picked.bounds.w).as_str());
    s.push_str(", h: ");
    s.push_str(debug_points_text(picked.bounds.h).as_str());
    s.push_str(" })");
    s
}

/// The fidelity of a capture through the accessibility tree.
pub open spec fn native_fidelity(bundle: Option<BundleSummary>) -> Seq<char> {
    match bundle {
        Some(b) if b.nibs@.len() > 0 => "Native AX + NIB-resolved + sampled colors"@,
        _ => "Native AX + sampled colors + screenshot"@,
    }
}

/// A flag as it is written.
pub open spec fn bool_text(b: bool) -> Seq<char> {
    if b {
        "true"@
    } else {
        "false"@
    }
}

/// How much was captured, and what the bundle added.
pub open spec fn native_diagnostics(nodes: nat, bundle: Option<BundleSummary>) -> Seq<Seq<char>> {
    let captured = "Captured "@ + decimal(nodes) + " AX nodes"@;
    match bundle {
        Some(b) => seq![
            captured,
            "Bundle: "@ + decimal(b.nibs@.len()) + " nibs, assets_car="@ + bool_text(
                b.has_assets_car,
            ),
        ] + texts(b.diagnostics@),
        None => seq![captured],
    }
}

/// A capture through the accessibility tree.
pub open spec fn native_view(
    node: Node,
    palette: Seq<(u8, u8, u8)>,
    picked: PickedElement,
    bundle: Option<BundleSummary>,
    png: Seq<u8>,
    ax_tree: Option<Seq<char>>,
) -> CaptureView {
    CaptureView {
        strategy: "native_ax"@,
        fidelity: native_fidelity(bundle),
        toon: toon_text(node, palette, picked, bundle),
        html: html_page(node, base64_text(png), picked.bounds),
        screenshot_png_b64: Some(base64_text(png)),
        diagnostics: native_diagnostics(size(node@), bundle),
        ax_tree,
    }
}

fn native_diagnostics_list(nodes: usize, bundle: &Option<BundleSummary>) -> (r: Vec<String>)
    ensures
        texts(r@) == native_diagnostics(nodes as nat, *bundle),
{
    let mut first = copy_of("Captured ");
    first.push_str(decimal_text(nodes as u64).as_str());
    first.push_str(" AX nodes");
    let mut out: Vec<String> = Vec::new();
    out.push(first);
    if let Some(b) = bundle {
        let mut line = copy_of("Bundle: ");
        line.push_str(decimal_text(b.nibs.len() as u64).as_str());
        line.push_str(" nibs, assets_car=");
        if b.has_assets_car {
            line.push_str("true");
        } else {
            line.push_str("false");
        }
        out.push(line);
        let ghost head = texts(out@);
        for i in 0..b.diagnostics.len()
            invariant
                head.len() == 2,
                out@.len() == 2 + i,
                out@[0]@ == head[0],
                out@[1]@ == head[1],
                forall|k: int| 0 <= k < i ==> #[trigger] out@[k + 2]@ == b.diagnostics@[k]@,
        {
            let ghost before = out@;
            out.push(copy_of(b.diagnostics[i].as_str()));
            assert forall|k: int| 0 <= k < i + 1 implies #[trigger] out@[k + 2]@
                == b.diagnostics@[k]@ by {
                if k < i {
                    assert(out@[k + 2] == before[k + 2]);
                }
            }
        }
        assert forall|k: int| 2 <= k < out@.len() implies texts(out@)[k] == texts(
            b.diagnostics@,
        )[k - 2] by {
            assert(out@[(k - 2) + 2]@ == b.diagnostics@[k - 2]@);
        }
        assert(texts(out@) =~= head + texts(b.diagnostics@));
        assert(head =~= native_diagnostics(nodes as nat, *bundle).take(2));
        assert(texts(out@) =~= native_diagnostics(nodes as nat, *bundle));
    } else {
        assert(texts(out@) =~= native_diagnostics(nodes as nat, *bundle));
    }
    out
}

/// A capture through the accessibility tree. `node` carries the sampled colours,
/// `png` is the screenshot of the picked bounds and `ax_tree` the tree as JSON.
pub fn native_result(
    node: &Node,
    palette: &[(u8, u8, u8)],
    picked: &PickedElement,
    bundle: &Option<BundleSummary>,
    png: &[u8],
    ax_tree: Option<String>,
) -> (r: CaptureResult)
    requires
        size(node@) <= usize::MAX,
        base64_fits(png@.len()),
    ensures
        r@ == native_view(*node, palette@, *picked, *bundle, png@, opt_view(ax_tree)),
{
    let toon = emit_toon(node, palette, picked, bundle.as_ref());
    let shot = base64_encode(png);
    let html = emit_html(node, shot.as_str(), picked.bounds);
    let resolved = match bundle {
        Some(b) => b.nibs.len() > 0,
        None => false,
    };
    let fidelity = if resolved {
        copy_of("Native AX + NIB-resolved + sampled colors")
    } else {
        copy_of("Native AX + sampled colors + screenshot")
    };
    let diagnostics = native_diagnostics_list(count_nodes(node), bundle);
    let r = CaptureResult {
        strategy: copy_of("native_ax"),
        fidelity,
        toon,
        html,
        screenshot_png_b64: Some(shot),
        diagnostics,
        ax_tree,
    };
    assert(r@ =~= native_view(*node, palette@, *picked, *bundle, png@, opt_view(ax_tree)));
    r
}

/// Why the window under the cursor cannot be captured.
#[derive(Debug, Clone, Copy, PartialEq, Eq, Structural)]
pub enum WindowError {
    /// Nothing is under the cursor.
    NoElement,
    /// What is under the cursor is in no window.
    NoWindow,
    /// The window has no bounds.
    NoBounds,
}

impl WindowError {
    /// The error in words.
    pub open spec fn words(self) -> Seq<char> {
        match self {
            WindowError::NoElement =>
            "no AX element at cursor — hover over the target window before pressing Cmd+Shift+X"@,
            WindowError::NoWindow => "no enclosing AXWindow"@,
            WindowError::NoBounds => "window has no bounds"@,
        }
    }

    /// The error in words.
    pub fn message(self) -> (r: &'static str)
        ensures
            r@ == self.words(),
    {
        match self {
            WindowError::NoElement =>
            "no AX element at cursor — hover over the target window before pressing Cmd+Shift+X",
            WindowError::NoWindow => "no enclosing AXWindow",
            WindowError::NoBounds => "window has no bounds",
        }
    }
}

/// A whole window as a picked element: a deliberate capture, not a click.
pub fn whole_window(
    bounds: ScreenRect,
    title: Option<String>,
    pid: Option<i32>,
    app_path: Option<String>,
) -> (r: PickedElement)
    ensures
        r.role@ == "AXWindow"@,
        r.subrole is None,
        r.name@ == (match title {
            Some(t) => t@,
            None => Seq::empty(),
        }),
        r.identifier is None,
        r.bounds == bounds,
        r.pid == (match pid {
            Some(p) => p,
            None => -1i32,
        }),
        r.app_path == app_path,
        r.window_title == title,
        r.window_bounds == Some(bounds),
        r.click is None,
        !r.ax_shallow,
        r.crop_path is None,
        r.ax_tree is None,
{
    let name = match &title {
        Some(t) => copy_of(t.as_str()),
        None => String::new(),
    };
    let owner: i32 = match pid {
        Some(p) => p,
        None => -1,
    };
    PickedElement {
        role: copy_of("AXWindow"),
        subrole: None,
        name,
        identifier: None,
        bounds,
        pid: owner,
        app_path,
        window_title: title,
        window_bounds: Some(bounds),
        click: None,
        ax_shallow: false,
        crop_path: None,
        ax_tree: None,
    }
}

// ---------------------------------------------------------------------------
// What a walk of the tree gives
// ---------------------------------------------------------------------------

/// An element is looked for where it was picked: first in its middle, then five points
/// from its top left, top right and bottom left corner, each inside of it where it is at
/// least ten points wide and high.
pub proof fn an_element_is_looked_for_inside_of_it(b: ScreenRect, i: int)
    requires
        b.wf(),
        0 <= i < repick_points(b).len(),
    ensures
        repick_points(b).len() == 4,
        ({
            let m = repick_points(b)[0];
            &&& 0 <= (b.x + b.w - m.x) - (m.x - b.x) <= 1
            &&& 0 <= (b.y + b.h - m.y) - (m.y - b.y) <= 1
        }),
        b.w >= 640 && b.h >= 640 ==> b.covers(repick_points(b)[i]),
        ({
            let (l, r, d) = (repick_points(b)[1], repick_points(b)[2], repick_points(b)[3]);
            &&& l.x - b.x == 320 && l.y - b.y == 320
            &&& b.x + b.w - r.x == 320 && r.y - b.y == 320
            &&& d.x - b.x == 320 && b.y + b.h - d.y == 320
        }),
{
}

/// At each point the element's own process is tried before the whole screen, where it is
/// known, and the points are tried in their order.
pub proof fn the_own_process_is_tried_first(points: Seq<ScreenPoint>, pid: i32, i: int)
    requires
        0 <= i < points.len(),
    ensures
        pid > 0 ==> {
            let tests = repick_tests(points, pid);
            &&& tests.len() == 2 * points.len()
            &&& tests[2 * i] == (points[i], Some(pid))
            &&& tests[2 * i + 1] == (points[i], None::<i32>)
        },
        pid <= 0 ==> {
            let tests = repick_tests(points, pid);
            &&& tests.len() == points.len()
            &&& tests[i] == (points[i], None::<i32>)
        },
    decreases points.len(),
{
    if points.len() == 1 {
        assert(repick_tests(points.drop_last(), pid).len() == 0);
    } else {
        let short = points.drop_last();
        if i < short.len() {
            the_own_process_is_tried_first(short, pid, i);
        } else {
            the_own_process_is_tried_first(short, pid, i - 1);
        }
    }
}

/// A capture through the accessibility tree holds the tree, as TOON and on a page, with
/// the screenshot of the picked bounds, and tells how many nodes were captured.
pub proof fn a_native_capture_holds_the_tree(
    node: Node,
    palette: Seq<(u8, u8, u8)>,
    picked: PickedElement,
    bundle: Option<BundleSummary>,
    png: Seq<u8>,
    ax_tree: Option<Seq<char>>,
)
    ensures
        ({
            let r = native_view(node, palette, picked, bundle, png, ax_tree);
            &&& r.strategy == "native_ax"@
            &&& ends(r.toon, "## Structure\n"@ + toon_node(node, ""@))
            &&& tells_target(r.toon, picked.bounds)
            &&& occurs(r.html, dom(node, picked.bounds, "      "@))
            &&& occurs(r.html, base64_text(png))
            &&& r.screenshot_png_b64 == Some(base64_text(png))
            &&& r.ax_tree == ax_tree
            &&& r.diagnostics.len() > 0
            &&& r.diagnostics[0] == "Captured "@ + decimal(size(node@)) + " AX nodes"@
            &&& bundle matches Some(b) ==> b.nibs@.len() > 0 ==> occurs(r.fidelity, "NIB-resolved"@)
            &&& bundle matches Some(b) ==> forall|i: int|
                0 <= i < b.diagnostics@.len() ==> r.diagnostics.contains(
                    (#[trigger] b.diagnostics@[i])@,
                )
        }),
{
    a_capture_tells_its_source(node, palette, picked, bundle);
    a_page_shows_the_capture(node, base64_text(png), picked.bounds);
    let r = native_view(node, palette, picked, bundle, png, ax_tree);
    reveal_strlit("NIB-resolved");
    reveal_strlit("Native AX + NIB-resolved + sampled colors");
    let full = "Native AX + NIB-resolved + sampled colors"@;
    assert(full.subrange(12, 24) =~= "NIB-resolved"@);
    assert(occurs_at(full, "NIB-resolved"@, 12));
    if let Some(b) = bundle {
        assert forall|i: int| 0 <= i < b.diagnostics@.len() implies r.diagnostics.contains(
            (#[trigger] b.diagnostics@[i])@,
        ) by {
            assert(texts(b.diagnostics@)[i] == b.diagnostics@[i]@);
            assert(r.diagnostics[i + 2] == b.diagnostics@[i]@);
        }
    }
}

/// A text tells a rectangle for debugging: its left edge, its top, its width and its
/// height, each by name.
pub open spec fn rect_debugged(x: Seq<char>, y: Seq<char>, w: Seq<char>, h: Seq<char>) -> Seq<char> {
    ", bounds=ScreenRect { x: "@ + x + ", y: "@ + y + ", w: "@ + w + ", h: "@ + h + " })"@
}

/// A text tells a coordinate for debugging: exactly, and with a decimal in any case.
pub open spec fn debugs(s: Seq<char>, v: i64) -> bool {
    if v % 64 == 0 {
        ends(s, ".0"@) && is_number(s.take(s.len() - 2)) && 64 * read_number(s.take(s.len() - 2))
            == v
    } else {
        tells_exactly(s, v as int)
    }
}

proof fn debug_points_tell(v: i64)
    ensures
        debugs(debug_points(v as int), v),
{
    exact_points_read_back(v as int);
    let e = exact_points(v as int);
    let s = e + ".0"@;
    reveal_strlit(".0");
    assert(s.take(s.len() - 2) =~= e);
    assert(s.subrange(s.len() - 2, s.len() as int) =~= ".0"@);
}

proof fn ten_after_two(
    a: Seq<char>,
    p: Seq<char>,
    b: Seq<char>,
    x: Seq<char>,
    c: Seq<char>,
    y: Seq<char>,
    d: Seq<char>,
    w: Seq<char>,
    e: Seq<char>,
    h: Seq<char>,
    f: Seq<char>,
)
    ensures
        a + p + b + x + c + y + d + w + e + h + f == a + p + (b + x + c + y + d + w + e + h + f),
{
    assert(a + p + b + x + c + y + d + w + e + h + f =~= a + p + (b + x + c + y + d + w + e + h
        + f));
}

/// What is said of an element that is not found again tells its process and its rectangle.
pub proof fn a_lost_element_is_told(pid: i32, b: ScreenRect)
    ensures
        occurs(repick_failure_text(pid, b), decimal_int(pid as int)),
        exists|x: Seq<char>, y: Seq<char>, w: Seq<char>, h: Seq<char>|
            #[trigger] occurs(repick_failure_text(pid, b), rect_debugged(x, y, w, h)) && debugs(
                x,
                b.x,
            ) && debugs(y, b.y) && debugs(w, b.w) && debugs(h, b.h),
{
    broadcast use crate::text::group_parts;

    debug_points_tell(b.x);
    debug_points_tell(b.y);
    debug_points_tell(b.w);
    debug_points_tell(b.h);
    let (x, y) = (debug_points(b.x as int), debug_points(b.y as int));
    let (w, h) = (debug_points(b.w as int), debug_points(b.h as int));
    let n = decimal_int(pid as int);
    let head = "re-pick at center+corners all failed (pid="@;
    ten_after_two(
        head,
        n,
        ", bounds=ScreenRect { x: "@,
        x,
        ", y: "@,
        y,
        ", w: "@,
        w,
        ", h: "@,
        h,
        " })"@,
    );
    assert(repick_failure_text(pid, b) == head + n + rect_debugged(x, y, w, h));
    assert(occurs(repick_failure_text(pid, b), rect_debugged(x, y, w, h)));
}

/// What the bundle added is told: how many nibs, and whether there is an asset catalog.
pub proof fn the_bundle_is_told(nodes: nat, b: BundleSummary)
    ensures
        ({
            let d = native_diagnostics(nodes, Some(b));
            &&& d.len() == 2 + b.diagnostics@.len()
            &&& occurs(d[1], decimal(b.nibs@.len()))
            &&& b.has_assets_car ==> ends(d[1], "assets_car=true"@)
            &&& !b.has_assets_car ==> ends(d[1], "assets_car=false"@)
        }),
        native_diagnostics(nodes, None).len() == 1,
{
    broadcast use crate::text::group_parts;

    let d = native_diagnostics(nodes, Some(b));
    let flag = bool_text(b.has_assets_car);
    reveal_strlit(" nibs, assets_car=");
    reveal_strlit("assets_car=true");
    reveal_strlit("assets_car=false");
    reveal_strlit("true");
    reveal_strlit("false");
    let tail = " nibs, assets_car="@ + flag;
    let head = "Bundle: "@ + decimal(b.nibs@.len());
    assert(d[1] =~= head + tail);
    let k: int = if b.has_assets_car {
        15
    } else {
        16
    };
    let wanted = if b.has_assets_car {
        "assets_car=true"@
    } else {
        "assets_car=false"@
    };
    assert(tail.subrange(tail.len() - k, tail.len() as int) =~= wanted);
    assert(d[1].subrange(d[1].len() - k, d[1].len() as int) =~= wanted);
}

} // verus!
