//! Strategy-ladder dispatch. Given a picked element, strategies are tried in
//! fidelity order and the first that succeeds gives the [`CaptureResult`].
//!
//! ```text
//! Picked element
//!     │
//!     ▼
//! Framework probe (Electron / .NET / Qt / AppKit / Win32)
//!     │
//!     ▼
//! CDP (Electron)        if a remote debugging port is open
//!     │
//!     ▼
//! AX + bundle resources always works on any app with accessibility (macOS)
//!     │
//!     ▼
//! Screenshot-only       last-ditch fallback
//! ```
//!
//! A [`Ladder`] decides; the caller does what it asks for and hands back what came
//! of it.

use crate::capture::{
    exact_points, exact_points_read_back, exact_points_text, tells_exactly, PickedElement,
    PickedView, ScreenRect, LIMIT,
};
use crate::encoding::{base64_encode, base64_fits, base64_text};
use crate::framework_detect::Framework;
use crate::output::{CaptureResult, CaptureView};
use crate::text::{
    copy_of, copy_of_opt, decimal, decimal_int, decimal_int_text, decimal_text, occurs, opt_view,
    part_occurs,
};
use vstd::prelude::*;

pub mod merge;
pub mod native;

verus! {

#[derive(Debug, Clone, Copy, PartialEq, Eq, Structural)]
pub enum Strategy {
    Asar,
    Cdp,
    DotNetXaml,
    MacosBundle,
    QtResources,
    NativeAx,
    ScreenshotOnly,
}

/// Why nothing was extracted.
#[derive(Debug)]
pub enum ExtractError {
    NoAxPermission,
    AllStrategiesFailed(String),
    /// An Electron app is frontmost but has no debug port open. The caller is
    /// expected to prompt the user to relaunch, and to try again with
    /// `skip_relaunch` once the relaunch landed or was declined. The library never
    /// quits or relaunches apps on its own.
    ElectronNeedsRelaunch {
        bundle_id: String,
        display_name: String,
        pid: i32,
        app_path: String,
    },
    Other(String),
}

/// What an [`ExtractError`] holds.
pub enum ErrorView {
    NoAxPermission,
    AllStrategiesFailed(Seq<char>),
    ElectronNeedsRelaunch {
        bundle_id: Seq<char>,
        display_name: Seq<char>,
        pid: i32,
        app_path: Seq<char>,
    },
    Other(Seq<char>),
}

impl View for ExtractError {
    type V = ErrorView;

    open spec fn view(&self) -> ErrorView {
        match self {
            ExtractError::NoAxPermission => ErrorView::NoAxPermission,
            ExtractError::AllStrategiesFailed(s) => ErrorView::AllStrategiesFailed(s@),
            ExtractError::ElectronNeedsRelaunch { bundle_id, display_name, pid, app_path } =>
            ErrorView::ElectronNeedsRelaunch {
                bundle_id: bundle_id@,
                display_name: display_name@,
                pid: *pid,
                app_path: app_path@,
            },
            ExtractError::Other(s) => ErrorView::Other(s@),
        }
    }
}

impl ErrorView {
    /// The error in words.
    pub open spec fn words(self) -> Seq<char> {
        match self {
            ErrorView::NoAxPermission =>
            "AX permission denied — grant Accessibility access in System Settings and retry."@,
            ErrorView::AllStrategiesFailed(s) => "no extractor succeeded; last error: "@ + s,
            ErrorView::ElectronNeedsRelaunch { .. } =>
            "Electron app needs to restart with --remote-debugging-port"@,
            ErrorView::Other(s) => s,
        }
    }
}

impl ExtractError {
    /// The error in words.
    pub fn message(&self) -> (r: String)
        ensures
            r@ == self@.words(),
    {
        match self {
            ExtractError::NoAxPermission => copy_of(
                "AX permission denied — grant Accessibility access in System Settings and retry.",
            ),
            ExtractError::AllStrategiesFailed(s) => {
                let mut out = copy_of("no extractor succeeded; last error: ");
                out.push_str(s.as_str());
                out
            },
            ExtractError::ElectronNeedsRelaunch { .. } => copy_of(
                "Electron app needs to restart with --remote-debugging-port",
            ),
            ExtractError::Other(s) => copy_of(s.as_str()),
        }
    }
}

/// What an extraction came to.
pub open spec fn result_view(r: Result<CaptureResult, ExtractError>) -> Result<
    CaptureView,
    ErrorView,
> {
    match r {
        Ok(c) => Ok(c@),
        Err(e) => Err(e@),
    }
}

// ---------------------------------------------------------------------------
// The ladder
// ---------------------------------------------------------------------------

/// What the ladder decides on.
#[derive(Debug)]
pub struct LadderInput {
    pub picked: PickedElement,
    /// The framework of the picked element's app.
    pub framework: Framework,
    /// The bundle's identifier and display name, where they could be read.
    pub bundle_id: Option<String>,
    pub display_name: Option<String>,
    /// The name of the app's folder without its extension: stands in for a display
    /// name.
    pub folder_name: Option<String>,
    /// The user already accepted or declined a relaunch.
    pub skip_relaunch: bool,
    /// Whether the platform has an accessibility walk.
    pub macos: bool,
}

impl LadderInput {
    /// The positions are in range.
    pub open spec fn wf(self) -> bool {
        self.picked.bounds.wf() && (self.picked.window_bounds matches Some(w) ==> w.wf())
    }

    /// The name to show for the app.
    pub open spec fn name(self) -> Option<Seq<char>> {
        if self.display_name is Some {
            opt_view(self.display_name)
        } else {
            opt_view(self.folder_name)
        }
    }

    /// The request to relaunch, where one is due: a relaunch was not settled yet and
    /// the app is known well enough to name it.
    pub open spec fn relaunch(self) -> Option<ErrorView> {
        match (opt_view(self.bundle_id), self.name()) {
            (Some(bundle_id), Some(display_name)) if self.macos && !self.skip_relaunch => Some(
                ErrorView::ElectronNeedsRelaunch {
                    bundle_id,
                    display_name,
                    pid: self.picked.pid,
                    app_path: match self.picked.app_path {
                        Some(p) => p@,
                        None => Seq::empty(),
                    },
                },
            ),
            _ => None,
        }
    }
}

/// What the outside answers.
pub struct World {
    /// The open debug port.
    pub port: Option<u16>,
    /// Where a point of the window is in the page behind a port.
    pub metrics: spec_fn(u16, i64, i64) -> Result<(i64, i64), Seq<char>>,
    /// The extraction through a port, at a point of the page.
    pub viewport: spec_fn(u16, i64, i64) -> Result<CaptureView, Seq<char>>,
    /// The accessibility walk of a picked element.
    pub native: spec_fn(PickedView) -> Result<CaptureView, Seq<char>>,
    /// The bytes of a screenshot of a part of the screen; `None` where they could not
    /// be read back.
    pub shot: spec_fn(ScreenRect) -> Result<Option<Seq<u8>>, Seq<char>>,
}

/// The result of the debug port, with a note on how it was reached.
pub open spec fn noted(r: CaptureView, framework: Framework, port: u16) -> CaptureView {
    CaptureView {
        diagnostics: r.diagnostics.push(
            "Auto-dispatched: framework="@ + framework.label_text() + ", strategy=cdp@"@ + decimal(
                port as nat,
            ),
        ),
        ..r
    }
}

/// What is left to try, and what to remember of what failed.
pub enum Stage {
    Port,
    Metrics { port: u16 },
    Viewport { port: u16, x: i64, y: i64 },
    Native,
    Screenshot,
}

/// The ladder from a stage on, with the last error so far.
pub open spec fn ladder_from(
    input: LadderInput,
    stage: Stage,
    last_error: Seq<char>,
    w: World,
) -> Result<CaptureView, ErrorView>
    decreases
        match stage {
            Stage::Port => 4int,
            Stage::Metrics { .. } => 3,
            Stage::Viewport { .. } => 2,
            Stage::Native => 1,
            Stage::Screenshot => 0,
        },
{
    match stage {
        Stage::Port => match w.port {
            Some(port) => if input.picked.window_bounds is Some {
                ladder_from(input, Stage::Metrics { port }, last_error, w)
            } else {
                ladder_from(input, Stage::Native, last_error, w)
            },
            None => match input.relaunch() {
                Some(e) => Err(e),
                None => ladder_from(input, Stage::Native, last_error, w),
            },
        },
        Stage::Metrics { port } => match (w.metrics)(
            port,
            window_x(input.picked) as i64,
            window_y(input.picked) as i64,
        ) {
            Ok((x, y)) => ladder_from(input, Stage::Viewport { port, x, y }, last_error, w),
            Err(e) => ladder_from(input, Stage::Native, "cdp metrics: "@ + e, w),
        },
        Stage::Viewport { port, x, y } => match (w.viewport)(port, x, y) {
            Ok(r) => Ok(noted(r, input.framework, port)),
            Err(e) => ladder_from(input, Stage::Native, "cdp: "@ + e, w),
        },
        Stage::Native => if input.macos {
            match (w.native)(input.picked@) {
                Ok(r) => Ok(r),
                Err(e) => ladder_from(input, Stage::Screenshot, "native_ax: "@ + e, w),
            }
        } else {
            ladder_from(input, Stage::Screenshot, last_error, w)
        },
        Stage::Screenshot => match (w.shot)(input.picked.bounds) {
            Ok(bytes) => Ok(fallback_view(input, bytes, last_error)),
            Err(e) => Err(ErrorView::AllStrategiesFailed(last_error + "; screenshot: "@ + e)),
        },
    }
}

/// The whole ladder: the debug port for Electron apps only.
pub open spec fn ladder(input: LadderInput, w: World) -> Result<CaptureView, ErrorView> {
    if input.framework == Framework::Electron {
        ladder_from(input, Stage::Port, Seq::empty(), w)
    } else {
        ladder_from(input, Stage::Native, Seq::empty(), w)
    }
}

/// The screenshot-only page up to the screenshot.
pub const FALLBACK_TOP: &'static str = "<!DOCTYPE html><html><head><meta charset=\"UTF-8\"><style>
html,body{margin:0;padding:0;background:#0a1438;font-family:-apple-system,sans-serif;color:#f0f9ff;}
.banner{position:fixed;top:0;left:0;right:0;padding:10px 16px;background:rgba(251,113,133,0.18);border-bottom:1px solid rgba(251,113,133,0.4);font-size:13px;line-height:1.5;}
.banner strong{color:#fb7185;}
.shot{margin-top:64px;padding:24px;text-align:center;}
.shot img{max-width:100%;border-radius:8px;box-shadow:0 8px 32px rgba(0,0,0,0.5);}
</style></head><body>
<div class=\"banner\"><strong>Screenshot-only capture.</strong> No DOM was extracted — this app's AX tree is too shallow for native extraction, and Chromium's debug port isn't open. Restart the app via the dialog (or set <em>Always</em> in Settings) for pixel-perfect HTML+CSS.</div>
<div class=\"shot\"><img src=\"data:image/png;base64,";

/// The screenshot-only page after the screenshot.
pub const FALLBACK_END: &'static str = "\" alt=\"captured region\"></div>
</body></html>";

/// The base64 text of a screenshot, empty where it could not be read back.
pub open spec fn shot_text(bytes: Option<Seq<u8>>) -> Seq<char> {
    match bytes {
        Some(b) => base64_text(b),
        None => Seq::empty(),
    }
}

/// The TOON of a screenshot-only capture.
pub open spec fn fallback_toon(input: LadderInput) -> Seq<char> {
    let p = input.picked;
    "# VibeExtract — screenshot-only capture (no DOM)\n\nrole: "@ + p.role@ + "\nname: \""@
        + p.name@ + "\"\nbounds: "@ + exact_points(p.bounds.w as int) + "x"@ + exact_points(
        p.bounds.h as int,
    ) + " @ ("@ + exact_points(p.bounds.x as int) + ","@ + exact_points(p.bounds.y as int)
        + ")\nframework: "@ + input.framework.label_text() + "\npid: "@ + decimal_int(p.pid as int)
        + FALLBACK_WHY@
}

/// Why a screenshot-only capture holds no structure.
pub const FALLBACK_WHY: &'static str = "

# Why empty?
#   The app's AX tree didn't have walkable children, AND Chromium's debug
#   port wasn't open. Use the relaunch dialog (or Always-restart in Settings)
#   to get pixel-perfect HTML+CSS from Electron apps.
";

/// How to do better than a screenshot.
pub const FALLBACK_HINT: &'static str = "For Electron apps (Slack/Discord/VS Code/Notion/etc.): use the relaunch dialog when ⌘⇧E is pressed, or set the per-app preference to 'Always' in Settings.";

/// How an optional text is written for debugging.
pub uninterp spec fn debug_text(s: Option<Seq<char>>) -> Seq<char>;

/// The `Debug` form that `format!` writes of an `Option<String>`. It is a function of
/// the text.
#[verifier::external_body]
fn debug_opt(s: &Option<String>) -> (r: String)
    ensures
        r@ == debug_text(opt_view(*s)),
{
    format!("{:?}", s)
}

/// A screenshot-only capture. Where the screenshot can be read back it is shown in a
/// page that says why there is no structure.
pub open spec fn fallback_view(
    input: LadderInput,
    bytes: Option<Seq<u8>>,
    last_error: Seq<char>,
) -> CaptureView {
    let shot = shot_text(bytes);
    CaptureView {
        strategy: "screenshot_only"@,
        fidelity: "Visual only — no DOM extracted (Electron AX is too shallow)"@,
        toon: if shot.len() > 0 {
            fallback_toon(input)
        } else {
            Seq::empty()
        },
        html: if shot.len() > 0 {
            FALLBACK_TOP@ + shot + FALLBACK_END@
        } else {
            Seq::empty()
        },
        screenshot_png_b64: if shot.len() > 0 {
            Some(shot)
        } else {
            None
        },
        diagnostics: seq![
            "All structural strategies failed."@,
            "Framework: "@ + input.framework.label_text() + ", app_path: "@ + debug_text(
                opt_view(input.picked.app_path),
            ),
            "Last error: "@ + last_error,
            FALLBACK_HINT@,
        ],
        ax_tree: None,
    }
}

fn fallback_toon_text(input: &LadderInput) -> (r: String)
    ensures
        r@ == fallback_toon(*input),
{
    let p = &input.picked;
    let mut s = copy_of("# VibeExtract — screenshot-only capture (no DOM)\n\nrole: ");
    s.push_str(p.role.as_str());
    s.push_str("\nname: \"");
    s.push_str(p.name.as_str());
    s.push_str("\"\nbounds: ");
    s.push_str(exact_points_text(p.bounds.w).as_str());
    s.push_str("x");
    s.push_str(exact_points_text(p.bounds.h).as_str());
    s.push_str(" @ (");
    s.push_str(exact_points_text(p.bounds.x).as_str());
    s.push_str(",");
    s.push_str(exact_points_text(p.bounds.y).as_str());
    s.push_str(")\nframework: ");
    s.push_str(input.framework.label());
    s.push_str("\npid: ");
    s.push_str(decimal_int_text(p.pid as i64).as_str());
    s.push_str(FALLBACK_WHY);
    s
}

/// A screenshot-only capture.
pub fn screenshot_only(input: &LadderInput, bytes: &Option<Vec<u8>>, last_error: &str) -> (r:
    CaptureResult)
    requires
        bytes matches Some(b) ==> base64_fits(b@.len()),
    ensures
        r@ == fallback_view(
            *input,
            match bytes {
                Some(b) => Some(b@),
                None => None,
            },
            last_error@,
        ),
        match bytes {
            Some(b) if b@.len() > 0 => {
                &&& r@.screenshot_png_b64 == Some(base64_text(b@))
                &&& r@.html == FALLBACK_TOP@ + base64_text(b@) + FALLBACK_END@
                &&& r@.toon == fallback_toon(*input)
            },
            _ => {
                &&& r@.screenshot_png_b64 is None
                &&& r@.html.len() == 0
                &&& r@.toon.len() == 0
            },
        },
{
    let shot = match bytes {
        Some(b) => base64_encode(b.as_slice()),
        None => String::new(),
    };
    let mut fallback = CaptureResult::empty(
        "screenshot_only",
        "Visual only — no DOM extracted (Electron AX is too shallow)",
    );
    if !shot.as_str().is_empty() {
        let mut html = copy_of(FALLBACK_TOP);
        html.push_str(shot.as_str());
        html.push_str(FALLBACK_END);
        fallback.html = html;
        fallback.toon = fallback_toon_text(input);
        fallback.screenshot_png_b64 = Some(shot);
    }
    let mut probe = copy_of("Framework: ");
    probe.push_str(input.framework.label());
    probe.push_str(", app_path: ");
    probe.push_str(debug_opt(&input.picked.app_path).as_str());
    let mut last = copy_of("Last error: ");
    last.push_str(last_error);
    fallback.diagnostics.push(copy_of("All structural strategies failed."));
    fallback.diagnostics.push(probe);
    fallback.diagnostics.push(last);
    fallback.diagnostics.push(copy_of(FALLBACK_HINT));
    proof {
        let want = fallback_view(
            *input,
            match bytes {
                Some(b) => Some(b@),
                None => None,
            },
            last_error@,
        );
        assert(fallback@.diagnostics =~= want.diagnostics);
        assert(fallback@ =~= want);
    }
    fallback
}

/// What the ladder asks for.
#[derive(Debug, Clone, Copy, PartialEq, Eq, Structural)]
pub enum Request {
    /// Find an open debug port.
    DiscoverPort,
    /// Translate a point of the window to one of the page.
    Metrics { port: u16, x: i64, y: i64 },
    /// Extract through the debug port at a point of the page.
    Viewport { port: u16, x: i64, y: i64 },
    /// Walk the accessibility tree.
    Native,
    /// Capture the picked bounds as pixels.
    Screenshot,
}

/// Where a run of the strategies stands.
pub struct Ladder {
    pub input: LadderInput,
    pub stage: Stage,
    pub last_error: String,
}

/// What follows an answer.
pub enum Next {
    /// Ask on.
    Go(Ladder),
    /// The run is over.
    Done(Result<CaptureResult, ExtractError>),
}

impl Ladder {
    /// The stage fits the input: a window point is only asked for where there is a
    /// window.
    pub open spec fn wf(self) -> bool {
        self.input.wf() && (self.stage is Metrics ==> self.input.picked.window_bounds is Some) && (
        self.stage is Native ==> self.input.macos)
    }

    /// What the run comes to, given what the outside answers.
    pub open spec fn outcome(self, w: World) -> Result<CaptureView, ErrorView> {
        ladder_from(self.input, self.stage, self.last_error@, w)
    }

    /// How many stages are left at most.
    pub open spec fn rank(self) -> nat {
        match self.stage {
            Stage::Port => 4,
            Stage::Metrics { .. } => 3,
            Stage::Viewport { .. } => 2,
            Stage::Native => 1,
            Stage::Screenshot => 0,
        }
    }
}

impl Next {
    /// What the run comes to, given what the outside answers.
    pub open spec fn outcome(self, w: World) -> Result<CaptureView, ErrorView> {
        match self {
            Next::Go(l) => l.outcome(w),
            Next::Done(r) => result_view(r),
        }
    }

    /// What goes on can go on.
    pub open spec fn wf(self) -> bool {
        self matches Next::Go(l) ==> l.wf()
    }
}

fn native_or_screenshot(input: LadderInput, last_error: String) -> (r: Ladder)
    requires
        input.wf(),
    ensures
        r.wf(),
        r.input == input,
        r.rank() <= 1,
        forall|w: World|
            #[trigger] r.outcome(w) == ladder_from(input, Stage::Native, last_error@, w),
{
    if input.macos {
        Ladder { input, stage: Stage::Native, last_error }
    } else {
        Ladder { input, stage: Stage::Screenshot, last_error }
    }
}

fn message(prefix: &str, e: &str) -> (r: String)
    ensures
        r@ == prefix@ + e@,
{
    let mut out = copy_of(prefix);
    out.push_str(e);
    out
}

impl Ladder {
    /// Start a run.
    pub fn new(input: LadderInput) -> (r: Self)
        requires
            input.wf(),
        ensures
            r.wf(),
            r.input == input,
            forall|w: World| #[trigger] r.outcome(w) == ladder(input, w),
    {
        if input.framework == Framework::Electron {
            Ladder { input, stage: Stage::Port, last_error: String::new() }
        } else {
            native_or_screenshot(input, String::new())
        }
    }

    /// What is to be done next.
    pub fn request(&self) -> (r: Request)
        requires
            self.wf(),
        ensures
            match self.stage {
                Stage::Port => r is DiscoverPort,
                Stage::Metrics { port } => r == (Request::Metrics {
                    port,
                    x: window_x(self.input.picked) as i64,
                    y: window_y(self.input.picked) as i64,
                }) && -4 * LIMIT <= window_y(self.input.picked) <= 4 * LIMIT && -4 * LIMIT
                    <= window_x(self.input.picked) <= 4 * LIMIT,
                Stage::Viewport { port, x, y } => r == (Request::Viewport { port, x, y }),
                Stage::Native => r is Native,
                Stage::Screenshot => r is Screenshot,
            },
            r matches Request::Metrics { x, y, .. } ==> (self.input.picked.window_bounds matches Some(
                win,
            ) && {
                let b = self.input.picked.bounds;
                &&& 0 <= b.x + b.w - (win.x + x) - (win.x + x - b.x) <= 1
                &&& 0 <= b.y + b.h - (win.y + y) - (win.y + y - b.y) <= 1
            }),
    {
        match self.stage {
            Stage::Port => Request::DiscoverPort,
            Stage::Metrics { port } => {
                let c = self.input.picked.bounds.center();
                match self.input.picked.window_bounds {
                    Some(win) => Request::Metrics { port, x: c.x - win.x, y: c.y - win.y },
                    None => Request::Native,
                }
            },
            Stage::Viewport { port, x, y } => Request::Viewport { port, x, y },
            Stage::Native => Request::Native,
            Stage::Screenshot => Request::Screenshot,
        }
    }

    /// The debug port that is open, if any is.
    pub fn on_port(self, port: Option<u16>) -> (r: Next)
        requires
            self.wf(),
            self.stage is Port,
        ensures
            r.wf(),
            r matches Next::Go(l) ==> l.input == self.input && l.rank() < self.rank(),
            port is Some && self.input.picked.window_bounds is Some ==> (r matches Next::Go(l)
                && l.stage == (Stage::Metrics { port: port->0 })),
            forall|w: World| w.port == port ==> #[trigger] r.outcome(w) == self.outcome(w),
    {
        match port {
            Some(p) => {
                if self.input.picked.window_bounds.is_some() {
                    Next::Go(
                        Ladder {
                            input: self.input,
                            stage: Stage::Metrics { port: p },
                            last_error: self.last_error,
                        },
                    )
                } else {
                    Next::Go(native_or_screenshot(self.input, self.last_error))
                }
            },
            None => {
                if self.input.macos && !self.input.skip_relaunch {
                    let name = if self.input.display_name.is_some() {
                        copy_of_opt(&self.input.display_name)
                    } else {
                        copy_of_opt(&self.input.folder_name)
                    };
                    let id = copy_of_opt(&self.input.bundle_id);
                    if let (Some(bundle_id), Some(display_name)) = (id, name) {
                        let app_path = match &self.input.picked.app_path {
                            Some(p) => copy_of(p.as_str()),
                            None => String::new(),
                        };
                        let pid = self.input.picked.pid;
                        let e = ExtractError::ElectronNeedsRelaunch {
                            bundle_id,
                            display_name,
                            pid,
                            app_path,
                        };
                        assert(self.input.relaunch() == Some(e@));
                        return Next::Done(Err(e));
                    }
                }
                assert(self.input.relaunch() is None);
                Next::Go(native_or_screenshot(self.input, self.last_error))
            },
        }
    }

    /// Where the point is in the page.
    pub fn on_metrics(self, answer: Result<(i64, i64), String>) -> (r: Next)
        requires
            self.wf(),
            self.stage is Metrics,
        ensures
            r.wf(),
            r matches Next::Go(l) ==> l.input == self.input && l.rank() < self.rank(),
            answer matches Ok((x, y)) ==> (r matches Next::Go(l) && l.stage == (Stage::Viewport {
                port: self.stage->Metrics_port,
                x,
                y,
            })),
            forall|w: World|
                (w.metrics)(
                    self.stage->Metrics_port,
                    window_x(self.input.picked) as i64,
                    window_y(self.input.picked) as i64,
                ) == (match answer {
                    Ok(p) => Ok::<(i64, i64), Seq<char>>(p),
                    Err(e) => Err::<(i64, i64), Seq<char>>(e@),
                }) ==> #[trigger] r.outcome(w) == self.outcome(w),
    {
        let port = match self.stage {
            Stage::Metrics { port } => port,
            _ => 0,
        };
        match answer {
            Ok((x, y)) => Next::Go(
                Ladder {
                    input: self.input,
                    stage: Stage::Viewport { port, x, y },
                    last_error: self.last_error,
                },
            ),
            Err(e) => Next::Go(
                native_or_screenshot(self.input, message("cdp metrics: ", e.as_str())),
            ),
        }
    }

    /// What the extraction through the debug port gave.
    pub fn on_viewport(self, answer: Result<CaptureResult, String>) -> (r: Next)
        requires
            self.wf(),
            self.stage is Viewport,
        ensures
            r.wf(),
            r matches Next::Go(l) ==> l.input == self.input && l.rank() < self.rank(),
            forall|w: World|
                (w.viewport)(
                    self.stage->Viewport_port,
                    self.stage->Viewport_x,
                    self.stage->Viewport_y,
                ) == (match answer {
                    Ok(c) => Ok::<CaptureView, Seq<char>>(c@),
                    Err(e) => Err::<CaptureView, Seq<char>>(e@),
                }) ==> #[trigger] r.outcome(w) == self.outcome(w),
    {
        let port = match self.stage {
            Stage::Viewport { port, .. } => port,
            _ => 0,
        };
        match answer {
            Ok(c) => {
                let mut result = c;
                let mut note = copy_of("Auto-dispatched: framework=");
                note.push_str(self.input.framework.label());
                note.push_str(", strategy=cdp@");
                note.push_str(decimal_text(port as u64).as_str());
                let ghost before = result@;
                result.diagnostics.push(note);
                proof {
                    let want = noted(before, self.input.framework, port);
                    assert(result@.diagnostics =~= want.diagnostics);
                    assert(result@ =~= want);
                }
                Next::Done(Ok(result))
            },
            Err(e) => Next::Go(native_or_screenshot(self.input, message("cdp: ", e.as_str()))),
        }
    }

    /// What the accessibility walk gave.
    pub fn on_native(self, answer: Result<CaptureResult, String>) -> (r: Next)
        requires
            self.wf(),
            self.stage is Native,
        ensures
            r.wf(),
            r matches Next::Go(l) ==> l.input == self.input && l.rank() < self.rank(),
            forall|w: World|
                (w.native)(self.input.picked@) == (match answer {
                    Ok(c) => Ok::<CaptureView, Seq<char>>(c@),
                    Err(e) => Err::<CaptureView, Seq<char>>(e@),
                }) ==> #[trigger] r.outcome(w) == self.outcome(w),
    {
        match answer {
            Ok(c) => Next::Done(Ok(c)),
            Err(e) => Next::Go(
                Ladder {
                    input: self.input,
                    stage: Stage::Screenshot,
                    last_error: message("native_ax: ", e.as_str()),
                },
            ),
        }
    }

    /// What the screenshot gave: its bytes where they could be read back.
    pub fn on_screenshot(self, answer: Result<Option<Vec<u8>>, String>) -> (r: Result<
        CaptureResult,
        ExtractError,
    >)
        requires
            self.wf(),
            self.stage is Screenshot,
            answer matches Ok(Some(b)) ==> base64_fits(b@.len()),
        ensures
            forall|w: World|
                (w.shot)(self.input.picked.bounds) == (match answer {
                    Ok(Some(b)) => Ok::<Option<Seq<u8>>, Seq<char>>(Some(b@)),
                    Ok(None) => Ok::<Option<Seq<u8>>, Seq<char>>(None),
                    Err(e) => Err::<Option<Seq<u8>>, Seq<char>>(e@),
                }) ==> result_view(r) == #[trigger] self.outcome(w),
    {
        match answer {
            Ok(bytes) => Ok(screenshot_only(&self.input, &bytes, self.last_error.as_str())),
            Err(e) => {
                let mut words = self.last_error;
                words.push_str("; screenshot: ");
                words.push_str(e.as_str());
                Err(ExtractError::AllStrategiesFailed(words))
            },
        }
    }
}

/// An Electron app without a debug port is never silently captured the shallow way:
/// where a relaunch can be asked for, it is.
pub proof fn missing_port_asks_for_relaunch(input: LadderInput, w: World)
    requires
        input.framework == Framework::Electron,
        input.relaunch() is Some,
        w.port is None,
    ensures
        ladder(input, w) == Err::<CaptureView, ErrorView>(input.relaunch()->0),
{
}

/// Once the user settled the relaunch, it is not asked for again.
pub proof fn settled_relaunch_is_not_asked_for(input: LadderInput, w: World)
    requires
        input.skip_relaunch,
    ensures
        !(ladder(input, w) matches Err(ErrorView::ElectronNeedsRelaunch { .. })),
{
    reveal_with_fuel(ladder_from, 5);
}

/// A run without a relaunch request fails only where the screenshot fails too.
pub proof fn screenshot_is_the_last_resort(input: LadderInput, w: World)
    requires
        (w.shot)(input.picked.bounds) is Ok,
        input.framework == Framework::Electron ==> input.relaunch() is None,
    ensures
        ladder(input, w) is Ok,
{
    reveal_with_fuel(ladder_from, 5);
}

/// Through an open port the picked element is extracted at its own middle: the point
/// that is asked for is the one that the page reports for that middle.
pub proof fn the_port_extracts_at_the_middle(input: LadderInput, w: World, x: i64, y: i64)
    requires
        input.framework == Framework::Electron,
        w.port is Some,
        input.picked.window_bounds is Some,
        (w.metrics)(
            w.port->0,
            window_x(input.picked) as i64,
            window_y(input.picked) as i64,
        ) == Ok::<(i64, i64), Seq<char>>((x, y)),
        (w.viewport)(w.port->0, x, y) is Ok,
    ensures
        ladder(input, w) == Ok::<CaptureView, ErrorView>(
            noted((w.viewport)(w.port->0, x, y)->Ok_0, input.framework, w.port->0),
        ),
{
    reveal_with_fuel(ladder_from, 3);
}

/// An app that is not Electron is captured without a look at the debug ports.
pub proof fn only_electron_uses_the_port(input: LadderInput, w: World, other: World)
    requires
        input.framework != Framework::Electron,
        w.native == other.native,
        w.shot == other.shot,
    ensures
        ladder(input, w) == ladder(input, other),
{
    reveal_with_fuel(ladder_from, 2);
}

/// The picked element's middle, from the window's left edge.
pub open spec fn window_x(p: PickedElement) -> int {
    p.bounds.x + p.bounds.w as int / 2 - p.window_bounds->0.x
}

/// The picked element's middle, from the window's top edge.
pub open spec fn window_y(p: PickedElement) -> int {
    p.bounds.y + p.bounds.h as int / 2 - p.window_bounds->0.y
}

// ---------------------------------------------------------------------------
// What the ladder is for
// ---------------------------------------------------------------------------

/// The debug port gives a capture: the app is an Electron app with an open port and a
/// known window, its page tells where the element's middle is, and the extraction there
/// succeeds.
pub open spec fn port_captures(input: LadderInput, w: World) -> bool {
    &&& input.framework is Electron
    &&& w.port matches Some(port) && ((w.metrics)(
        port,
        window_x(input.picked) as i64,
        window_y(input.picked) as i64,
    ) matches Ok((x, y)) && (w.viewport)(port, x, y) is Ok)
    &&& input.picked.window_bounds is Some
}

/// A relaunch is due: an Electron app on macOS has no open port, its bundle and a name for
/// it are known, and the user was not asked yet.
pub open spec fn relaunch_due(input: LadderInput, w: World) -> bool {
    &&& input.framework is Electron && w.port is None
    &&& input.macos && !input.skip_relaunch
    &&& input.bundle_id is Some
    &&& input.display_name is Some || input.folder_name is Some
}

/// Whatever goes wrong with the debug port (none is open, there is no window, the point
/// cannot be told, the extraction fails), the accessibility walk is tried next on macOS,
/// and where it succeeds its capture is the result. A screenshot alone means that the
/// walk failed, or that the platform has none.
pub proof fn the_walk_comes_before_the_screenshot(input: LadderInput, w: World)
    requires
        input.macos,
        !port_captures(input, w),
        !relaunch_due(input, w),
    ensures
        match (w.native)(input.picked@) {
            Ok(c) => ladder(input, w) == Ok::<CaptureView, ErrorView>(c),
            Err(e) => match (w.shot)(input.picked.bounds) {
                Ok(bytes) => ladder(input, w) == Ok::<CaptureView, ErrorView>(
                    fallback_view(input, bytes, "native_ax: "@ + e),
                ),
                Err(s) => ladder(input, w) == Err::<CaptureView, ErrorView>(
                    ErrorView::AllStrategiesFailed("native_ax: "@ + e + "; screenshot: "@ + s),
                ),
            },
        },
{
    reveal_with_fuel(ladder_from, 6);
    assert(input.relaunch() is Some ==> input.macos && !input.skip_relaunch && input.bundle_id
        is Some);
}

/// Where the platform has no accessibility walk, what the debug port does not give is a
/// screenshot.
pub proof fn without_a_walk_a_screenshot_is_taken(input: LadderInput, w: World)
    requires
        !input.macos,
        !port_captures(input, w),
    ensures
        match (w.shot)(input.picked.bounds) {
            Ok(bytes) => exists|why: Seq<char>|
                ladder(input, w) == Ok::<CaptureView, ErrorView>(
                    #[trigger] fallback_view(input, bytes, why),
                ),
            Err(s) => exists|why: Seq<char>|
                ladder(input, w) == Err::<CaptureView, ErrorView>(
                    ErrorView::AllStrategiesFailed(#[trigger] (why + "; screenshot: "@ + s)),
                ),
        },
{
    reveal_with_fuel(ladder_from, 6);
    let none = Seq::<char>::empty();
    let bytes = (w.shot)(input.picked.bounds);
    let why = if input.framework is Electron && w.port is Some && input.picked.window_bounds is Some {
        match (w.metrics)(
            w.port->0,
            window_x(input.picked) as i64,
            window_y(input.picked) as i64,
        ) {
            Ok((x, y)) => "cdp: "@ + (w.viewport)(w.port->0, x, y)->Err_0,
            Err(e) => "cdp metrics: "@ + e,
        }
    } else {
        none
    };
    if let Ok(b) = bytes {
        assert(ladder(input, w) == Ok::<CaptureView, ErrorView>(fallback_view(input, b, why)));
    } else {
        assert(ladder(input, w) == Err::<CaptureView, ErrorView>(
            ErrorView::AllStrategiesFailed(why + "; screenshot: "@ + bytes->Err_0),
        ));
    }
}

/// What the debug port captures is the result, before anything else is tried, with one
/// note more that tells the port.
pub proof fn the_port_comes_first(input: LadderInput, w: World)
    requires
        port_captures(input, w),
    ensures
        exists|x: i64, y: i64|
            (w.metrics)(
                w.port->0,
                window_x(input.picked) as i64,
                window_y(input.picked) as i64,
            ) == Ok::<(i64, i64), Seq<char>>((x, y)) && ({
                let c = (#[trigger] (w.viewport)(w.port->0, x, y))->Ok_0;
                ladder(input, w) matches Ok(r) && {
                    &&& r.toon == c.toon && r.html == c.html
                    &&& r.strategy == c.strategy && r.fidelity == c.fidelity
                    &&& r.screenshot_png_b64 == c.screenshot_png_b64 && r.ax_tree == c.ax_tree
                    &&& r.diagnostics.len() == c.diagnostics.len() + 1
                    &&& r.diagnostics.drop_last() == c.diagnostics
                    &&& occurs(r.diagnostics.last(), "strategy=cdp@"@ + decimal(w.port->0 as nat))
                }
            }),
{
    reveal_with_fuel(ladder_from, 4);
    let port = w.port->0;
    let (x, y) = (w.metrics)(
        port,
        window_x(input.picked) as i64,
        window_y(input.picked) as i64,
    )->Ok_0;
    let c = (w.viewport)(port, x, y)->Ok_0;
    let r = noted(c, input.framework, port);
    assert(r.diagnostics.drop_last() =~= c.diagnostics);
    reveal_strlit(", strategy=cdp@");
    reveal_strlit("strategy=cdp@");
    reveal_strlit(", ");
    let mark = "strategy=cdp@"@ + decimal(port as nat);
    let head = "Auto-dispatched: framework="@ + input.framework.label_text() + ", "@;
    assert(", strategy=cdp@"@ =~= ", "@ + "strategy=cdp@"@);
    assert(r.diagnostics.last() =~= head + mark + Seq::<char>::empty());
    part_occurs(head, mark, Seq::empty());
    assert(ladder(input, w) == Ok::<CaptureView, ErrorView>(r));
}

/// A relaunch is asked for exactly where one is due, of that very app: its bundle, its
/// process, its path, and its own name, or that of its folder where it has none.
pub proof fn a_relaunch_is_asked_for_where_one_is_due(input: LadderInput, w: World)
    ensures
        relaunch_due(input, w) <==> ladder(input, w) matches Err(
            ErrorView::ElectronNeedsRelaunch { .. },
        ),
        ladder(input, w) matches Err(
            ErrorView::ElectronNeedsRelaunch { bundle_id, display_name, pid, app_path },
        ) ==> {
            &&& opt_view(input.bundle_id) == Some(bundle_id)
            &&& input.display_name is Some ==> opt_view(input.display_name) == Some(display_name)
            &&& input.display_name is None ==> opt_view(input.folder_name) == Some(display_name)
            &&& pid == input.picked.pid
            &&& input.picked.app_path matches Some(p) ==> app_path == p@
            &&& input.picked.app_path is None ==> app_path.len() == 0
        },
{
    reveal_with_fuel(ladder_from, 6);
}

/// The point that is asked about, seen from the screen, is the middle of the element: as
/// far from its left edge as from its right one, and from its top as from its bottom, but
/// for half a unit.
pub proof fn the_point_is_the_middle(p: PickedElement)
    requires
        p.window_bounds is Some,
    ensures
        ({
            let (win, b) = (p.window_bounds->0, p.bounds);
            let (x, y) = (win.x + window_x(p), win.y + window_y(p));
            &&& 0 <= (b.x + b.w - x) - (x - b.x) <= 1
            &&& 0 <= (b.y + b.h - y) - (y - b.y) <= 1
        }),
{
}

/// A size and place as a screenshot-only capture gives them.
pub open spec fn fallback_place(x: Seq<char>, y: Seq<char>, w: Seq<char>, h: Seq<char>) -> Seq<char> {
    "\"\nbounds: "@ + w + "x"@ + h + " @ ("@ + x + ","@ + y + ")\nframework: "@
}

/// A screenshot that was taken is shown, and told to be no more than that: with the role,
/// the name, the place and the process of what was picked, and with why nothing better
/// was had.
pub proof fn a_screenshot_is_shown_for_what_it_is(
    input: LadderInput,
    bytes: Seq<u8>,
    last_error: Seq<char>,
)
    requires
        base64_text(bytes).len() > 0,
    ensures
        ({
            let r = fallback_view(input, Some(bytes), last_error);
            &&& r.strategy == "screenshot_only"@
            &&& r.screenshot_png_b64 == Some(base64_text(bytes))
            &&& occurs(r.html, base64_text(bytes))
            &&& occurs(r.toon, input.picked.role@)
            &&& occurs(r.toon, input.picked.name@)
            &&& occurs(r.toon, "\npid: "@ + decimal_int(input.picked.pid as int))
            &&& exists|x: Seq<char>, y: Seq<char>, w: Seq<char>, h: Seq<char>|
                occurs(r.toon, #[trigger] fallback_place(x, y, w, h)) && tells_exactly(
                    x,
                    input.picked.bounds.x as int,
                ) && tells_exactly(y, input.picked.bounds.y as int) && tells_exactly(
                    w,
                    input.picked.bounds.w as int,
                ) && tells_exactly(h, input.picked.bounds.h as int)
            &&& exists|i: int|
                0 <= i < r.diagnostics.len() && #[trigger] r.diagnostics[i] == "Last error: "@
                    + last_error
            &&& r.ax_tree is None
        }),
{
    let p = input.picked;
    let r = fallback_view(input, Some(bytes), last_error);
    let (x, y) = (exact_points(p.bounds.x as int), exact_points(p.bounds.y as int));
    let (w, h) = (exact_points(p.bounds.w as int), exact_points(p.bounds.h as int));
    exact_points_read_back(p.bounds.x as int);
    exact_points_read_back(p.bounds.y as int);
    exact_points_read_back(p.bounds.w as int);
    exact_points_read_back(p.bounds.h as int);
    let head = "# VibeExtract — screenshot-only capture (no DOM)\n\nrole: "@ + p.role@
        + "\nname: \""@ + p.name@;
    let place = fallback_place(x, y, w, h);
    let (label, pid) = (input.framework.label_text(), decimal_int(p.pid as int));
    place_stands(
        head,
        "\"\nbounds: "@,
        w,
        "x"@,
        h,
        " @ ("@,
        x,
        ","@,
        y,
        ")\nframework: "@,
        label,
        "\npid: "@,
        pid,
        FALLBACK_WHY@,
    );
    assert(r.diagnostics[2] == "Last error: "@ + last_error);
    assert(occurs(r.html, base64_text(bytes))) by {
        part_occurs(FALLBACK_TOP@, base64_text(bytes), FALLBACK_END@);
    }
    head_stands(
        "# VibeExtract — screenshot-only capture (no DOM)\n\nrole: "@,
        p.role@,
        "\nname: \""@,
        p.name@,
    );
}

proof fn head_stands(a: Seq<char>, b: Seq<char>, c: Seq<char>, d: Seq<char>)
    ensures
        occurs(a + b + c + d, b),
        occurs(a + b + c + d, d),
{
    broadcast use crate::text::group_parts;

}

proof fn place_stands(
    z: Seq<char>,
    a: Seq<char>,
    b: Seq<char>,
    c: Seq<char>,
    d: Seq<char>,
    e: Seq<char>,
    f: Seq<char>,
    g: Seq<char>,
    h: Seq<char>,
    i: Seq<char>,
    j: Seq<char>,
    k: Seq<char>,
    l: Seq<char>,
    m: Seq<char>,
)
    ensures
        ({
            let all = z + a + b + c + d + e + f + g + h + i + j + k + l + m;
            &&& occurs(all, a + b + c + d + e + f + g + h + i)
            &&& occurs(all, k + l)
            &&& forall|n: Seq<char>| occurs(z, n) ==> #[trigger] occurs(all, n)
        }),
{
    broadcast use crate::text::group_parts;

    let place = a + b + c + d + e + f + g + h + i;
    let first = z + a + b + c + d + e + f + g + h + i;
    assert(first =~= z + place);
    assert(occurs(first, place));
    let second = first + j;
    assert(second + k + l =~= second + (k + l));
    assert(occurs(second + k + l, k + l));
}

} // verus!
