//! Extract a piece of a desktop application's user interface as text that a
//! language model can rebuild it from.

pub mod ax_macos;
pub mod bundle_macos;
pub mod capture;
pub mod cdp;
pub mod click;
pub mod dispatcher;
pub mod double;
pub mod encoding;
pub mod flow;
pub mod framework_detect;
pub mod freeze;
pub mod hover;
pub mod json;
pub mod mcp;
pub mod native_format;
pub mod output;
pub mod relaunch;
pub mod screenshot;
pub mod session;
pub mod shell;
pub mod text;
pub mod windows_list;
