//! What the dispatcher returns. Same shape across all strategies so the
//! frontend doesn't care whether the source was CDP, AX, NIB, or asar.

use crate::text::{copy_all, copy_of, copy_of_opt, opt_view, texts};
use vstd::prelude::*;

verus! {

#[derive(Debug)]
pub struct CaptureResult {
    /// Which strategy ultimately produced the output.
    pub strategy: String,
    /// Human-readable fidelity badge ("Source-perfect", "Pixel-perfect runtime",
    /// "Sampled colors + screenshot", etc.).
    pub fidelity: String,
    /// TOON output (text). May be empty for screenshot-only strategy.
    pub toon: String,
    /// HTML output (self-contained).
    pub html: String,
    /// Optional base64-encoded PNG screenshot of the picked element bounds.
    pub screenshot_png_b64: Option<String>,
    /// Free-form per-strategy diagnostics.
    pub diagnostics: Vec<String>,
    /// The captured accessibility tree as pretty-printed JSON. `None` for
    /// strategies that produce no AX node tree.
    pub ax_tree: Option<String>,
}

/// What a [`CaptureResult`] holds.
#[verifier::ext_equal]
pub struct CaptureView {
    pub strategy: Seq<char>,
    pub fidelity: Seq<char>,
    pub toon: Seq<char>,
    pub html: Seq<char>,
    pub screenshot_png_b64: Option<Seq<char>>,
    pub diagnostics: Seq<Seq<char>>,
    pub ax_tree: Option<Seq<char>>,
}

impl View for CaptureResult {
    type V = CaptureView;

    open spec fn view(&self) -> CaptureView {
        CaptureView {
            strategy: self.strategy@,
            fidelity: self.fidelity@,
            toon: self.toon@,
            html: self.html@,
            screenshot_png_b64: opt_view(self.screenshot_png_b64),
            diagnostics: texts(self.diagnostics@),
            ax_tree: opt_view(self.ax_tree),
        }
    }
}

impl Clone for CaptureResult {
    fn clone(&self) -> (r: Self)
        ensures
            r@ == self@,
    {
        CaptureResult {
            strategy: copy_of(self.strategy.as_str()),
            fidelity: copy_of(self.fidelity.as_str()),
            toon: copy_of(self.toon.as_str()),
            html: copy_of(self.html.as_str()),
            screenshot_png_b64: copy_of_opt(&self.screenshot_png_b64),
            diagnostics: copy_all(&self.diagnostics),
            ax_tree: copy_of_opt(&self.ax_tree),
        }
    }
}

impl CaptureResult {
    /// A result that names its strategy and fidelity and holds nothing else.
    pub fn empty(strategy: &str, fidelity: &str) -> (r: Self)
        ensures
            r.strategy@ == strategy@,
            r.fidelity@ == fidelity@,
            r.toon@ == Seq::<char>::empty(),
            r.html@ == Seq::<char>::empty(),
            r.screenshot_png_b64 is None,
            r.diagnostics@ == Seq::<String>::empty(),
            r.ax_tree is None,
    {
        CaptureResult {
            strategy: copy_of(strategy),
            fidelity: copy_of(fidelity),
            toon: String::new(),
            html: String::new(),
            screenshot_png_b64: None,
            diagnostics: Vec::new(),
            ax_tree: None,
        }
    }
}

} // verus!
