//! What a macOS app bundle tells of itself.

use vstd::prelude::*;

verus! {

/// What was found in an app's bundle.
#[derive(Debug)]
pub struct BundleSummary {
    pub bundle_id: Option<String>,
    pub display_name: Option<String>,
    /// The names of the NIBs that were recovered.
    pub nibs: Vec<String>,
    /// Whether a compiled asset catalog was summarised.
    pub has_assets_car: bool,
    pub diagnostics: Vec<String>,
}

} // verus!
