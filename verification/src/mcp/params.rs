//! What each tool of the MCP server takes. Coordinates are in the units of
//! [`crate::capture`].

use crate::capture::{ScreenPoint, ScreenRect};
use vstd::prelude::*;

verus! {

/// How deep a tree walk goes unless the caller says otherwise: deep enough for
/// most windows, shallow enough to bound huge Electron trees.
pub const DEFAULT_DEPTH: u32 = 12;

/// `value`, or `fallback` where there is none.
pub open spec fn or_default<A>(value: Option<A>, fallback: A) -> A {
    match value {
        Some(v) => v,
        None => fallback,
    }
}

#[derive(Debug)]
pub struct RequestPermissionParam {
    /// When true, also open System Settings → Privacy → Accessibility.
    pub prompt: bool,
}

#[derive(Debug)]
pub struct ListWindowsParam {
    /// Optional: only return windows owned by this process id.
    pub pid: Option<i32>,
}

#[derive(Debug)]
pub struct AxTreeParam {
    /// Process id of the target app.
    pub pid: i32,
    /// Max recursion depth.
    pub max_depth: Option<u32>,
    /// Optional: walk a single window (index into the app's `AXWindows`)
    /// instead of the whole application root.
    pub window_index: Option<usize>,
}

impl AxTreeParam {
    /// The depth to walk to.
    pub fn depth(&self) -> (r: u32)
        ensures
            r == or_default(self.max_depth, 12u32),
    {
        match self.max_depth {
            Some(d) => d,
            None => DEFAULT_DEPTH,
        }
    }
}

#[derive(Debug)]
pub struct PointParam {
    /// Screen x (top-left origin).
    pub x: i64,
    /// Screen y (top-left origin).
    pub y: i64,
    /// Optional: hit-test inside this specific process id.
    pub pid: Option<i32>,
}

impl PointParam {
    /// The point to look at.
    pub fn point(&self) -> (r: ScreenPoint)
        ensures
            r == (ScreenPoint { x: self.x, y: self.y }),
    {
        ScreenPoint { x: self.x, y: self.y }
    }
}

#[derive(Debug)]
pub struct SubtreeParam {
    pub x: i64,
    pub y: i64,
    pub max_depth: Option<u32>,
}

impl SubtreeParam {
    /// The point to look at.
    pub fn point(&self) -> (r: ScreenPoint)
        ensures
            r == (ScreenPoint { x: self.x, y: self.y }),
    {
        ScreenPoint { x: self.x, y: self.y }
    }

    /// The depth to walk to.
    pub fn depth(&self) -> (r: u32)
        ensures
            r == or_default(self.max_depth, 12u32),
    {
        match self.max_depth {
            Some(d) => d,
            None => DEFAULT_DEPTH,
        }
    }
}

#[derive(Debug)]
pub struct RectParam {
    /// Region origin x (top-left origin).
    pub x: i64,
    pub y: i64,
    /// Region width/height.
    pub w: i64,
    pub h: i64,
}

impl RectParam {
    /// The region.
    pub fn bounds(&self) -> (r: ScreenRect)
        ensures
            r == (ScreenRect { x: self.x, y: self.y, w: self.w, h: self.h }),
    {
        ScreenRect { x: self.x, y: self.y, w: self.w, h: self.h }
    }
}

#[derive(Debug)]
pub struct WindowShotParam {
    pub pid: i32,
    /// Which window (index into the on-screen window list). Defaults to the first.
    pub window_index: Option<usize>,
}

impl WindowShotParam {
    /// The window's place among those of its process.
    pub fn index(&self) -> (r: usize)
        ensures
            r == or_default(self.window_index, 0usize),
    {
        match self.window_index {
            Some(i) => i,
            None => 0,
        }
    }
}

#[derive(Debug)]
pub struct SampleColorParam {
    /// Screen point to sample (top-left origin).
    pub x: i64,
    pub y: i64,
}

impl SampleColorParam {
    /// The point to sample.
    pub fn point(&self) -> (r: ScreenPoint)
        ensures
            r == (ScreenPoint { x: self.x, y: self.y }),
    {
        ScreenPoint { x: self.x, y: self.y }
    }
}

#[derive(Debug)]
pub struct PaletteParam {
    pub pid: i32,
    pub max_depth: Option<u32>,
}

impl PaletteParam {
    /// The depth to walk to.
    pub fn depth(&self) -> (r: u32)
        ensures
            r == or_default(self.max_depth, 12u32),
    {
        match self.max_depth {
            Some(d) => d,
            None => DEFAULT_DEPTH,
        }
    }
}

#[derive(Debug)]
pub struct RelaunchParam {
    /// Bundle id of the Electron app (e.g. `com.tinyspeck.slackmacgap`).
    pub bundle_id: String,
    /// Human display name used for AppleScript quit + `open -a` (e.g. `Slack`).
    pub display_name: String,
    /// MUST be true to actually quit + relaunch the app. This is destructive
    /// (it closes the user's running app), so it never happens implicitly.
    pub confirm: bool,
}

#[derive(Debug)]
pub struct ExtractComponentParam {
    pub x: i64,
    pub y: i64,
    pub pid: Option<i32>,
    /// When true, skip the Electron relaunch prompt and fall straight through
    /// to the AX/screenshot path.
    pub skip_relaunch: bool,
}

impl ExtractComponentParam {
    /// The point to extract at.
    pub fn point(&self) -> (r: ScreenPoint)
        ensures
            r == (ScreenPoint { x: self.x, y: self.y }),
    {
        ScreenPoint { x: self.x, y: self.y }
    }
}

#[derive(Debug)]
pub struct ShowReplicaParam {
    /// Absolute path to a finished extraction folder: the dir that holds
    /// `index.html` (the replica), optional `ax_tree.json`, and its
    /// `icons/`/`assets/`.
    pub dir: String,
}

#[derive(Debug)]
pub struct ExtractAssetsParam {
    /// CDP page-target index (into the debug port's page list). Defaults to 0,
    /// the app's main window.
    pub target_index: Option<usize>,
    /// Subdirectory (under the MCP output dir) to write assets into.
    /// Defaults to `assets`.
    pub out_subdir: Option<String>,
}

impl ExtractAssetsParam {
    /// The page to harvest.
    pub fn target(&self) -> (r: usize)
        ensures
            r == or_default(self.target_index, 0usize),
    {
        match self.target_index {
            Some(i) => i,
            None => 0,
        }
    }

    /// The folder to write into.
    pub fn subdir(&self) -> (r: &str)
        ensures
            r@ == (match self.out_subdir {
                Some(s) => s@,
                None => "assets"@,
            }),
    {
        match &self.out_subdir {
            Some(s) => s.as_str(),
            None => "assets",
        }
    }
}

/// What the caller says is taken, and only where nothing is said the usual.
pub proof fn what_is_said_is_taken<A>(value: A, fallback: A)
    ensures
        or_default(Some(value), fallback) == value,
        or_default(None::<A>, fallback) == fallback,
{
}

} // verus!
