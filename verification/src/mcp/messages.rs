//! What the tools answer where they do not do as asked, and the small decisions
//! before those answers.

use crate::encoding::{base64_bytes, base64_decode};
use crate::mcp::params::RelaunchParam;
use crate::dispatcher::{ErrorView, ExtractError};
use crate::text::{
    copy_of, decimal, decimal_int, decimal_int_text, decimal_text, ends, numbered_is_injective,
    occurs,
};
use vstd::prelude::*;

verus! {

/// Why a relaunch is refused, where it is: it closes the user's running app, so it
/// never happens unless it was confirmed.
pub fn relaunch_refusal(p: &RelaunchParam) -> (r: Option<&'static str>)
    ensures
        r is Some == !p.confirm,
        r matches Some(t) ==> t@
            == "Refusing to relaunch: this quits and reopens the target app and could close unsaved work. Re-call with confirm=true to proceed."@,
{
    if p.confirm {
        None
    } else {
        Some(
            "Refusing to relaunch: this quits and reopens the target app and could close unsaved work. Re-call with confirm=true to proceed.",
        )
    }
}

/// How to get at the content of an Electron app without a debug port.
pub open spec fn relaunch_hint_text(bundle_id: Seq<char>, display_name: Seq<char>) -> Seq<char> {
    "This is an Electron app and its Chromium debug port isn't open. Call relaunch_with_debug_port with bundle_id=\""@
        + bundle_id + "\", display_name=\""@ + display_name
        + "\", confirm=true, then retry — or pass skip_relaunch=true to settle for the shallow AX/screenshot path."@
}

/// How to get at the content of an Electron app without a debug port.
pub fn relaunch_hint(bundle_id: &str, display_name: &str) -> (r: String)
    ensures
        r@ == relaunch_hint_text(bundle_id@, display_name@),
{
    let mut out = copy_of(
        "This is an Electron app and its Chromium debug port isn't open. Call relaunch_with_debug_port with bundle_id=\"",
    );
    out.push_str(bundle_id);
    out.push_str("\", display_name=\"");
    out.push_str(display_name);
    out.push_str(
        "\", confirm=true, then retry — or pass skip_relaunch=true to settle for the shallow AX/screenshot path.",
    );
    out
}

/// What an extraction in vain is answered: where the app lacks a debug port, how to get
/// at its content; else the error.
pub fn extract_refusal(e: &ExtractError) -> (r: String)
    ensures
        r@ == (match e@ {
            ErrorView::ElectronNeedsRelaunch { bundle_id, display_name, .. } => relaunch_hint_text(
                bundle_id,
                display_name,
            ),
            other => other.words(),
        }),
{
    match e {
        ExtractError::ElectronNeedsRelaunch { bundle_id, display_name, pid: _, app_path: _ } => {
            relaunch_hint(bundle_id.as_str(), display_name.as_str())
        },
        _ => e.message(),
    }
}

/// The answer to an asset harvest where no debug port is open.
pub fn no_debug_port() -> (r: &'static str)
    ensures
        r@
            == "No Chromium debug port found on 9220–9230. The target must be an Electron app launched with --remote-debugging-port. Run relaunch_with_debug_port (confirm=true) first, then retry."@,
{
    "No Chromium debug port found on 9220–9230. The target must be an Electron app launched with --remote-debugging-port. Run relaunch_with_debug_port (confirm=true) first, then retry."
}

/// The answer where a process has too few windows.
pub fn no_such_window(index: usize, pid: i32) -> (r: String)
    ensures
        r@ == "no window #"@ + decimal(index as nat) + " for pid "@ + decimal_int(pid as int),
{
    let mut out = copy_of("no window #");
    out.push_str(decimal_text(index as u64).as_str());
    out.push_str(" for pid ");
    out.push_str(decimal_int_text(pid as i64).as_str());
    out
}

/// The page list of a debug port.
pub fn cdp_url(port: u16) -> (r: String)
    ensures
        r@ == "http://127.0.0.1:"@ + decimal(port as nat) + "/json"@,
{
    let mut out = copy_of("http://127.0.0.1:");
    out.push_str(decimal_text(port as u64).as_str());
    out.push_str("/json");
    out
}

/// The file name of the `seq`th saved screenshot.
pub open spec fn shot_words(label: Seq<char>, seq: u64) -> Seq<char> {
    "mcp-"@ + label + "-"@ + decimal(seq as nat) + ".png"@
}

/// Two saved screenshots share a file name only where label and number are the same.
pub proof fn shot_names_are_distinct(
    label: Seq<char>,
    seq: u64,
    other_label: Seq<char>,
    other_seq: u64,
)
    requires
        shot_words(label, seq) == shot_words(other_label, other_seq),
    ensures
        label == other_label,
        seq == other_seq,
{
    let l1 = "mcp-"@ + label;
    let l2 = "mcp-"@ + other_label;
    let s1 = l1 + "-"@ + decimal(seq as nat);
    let s2 = l2 + "-"@ + decimal(other_seq as nat);
    assert((s1 + ".png"@).take(s1.len() as int) =~= s1);
    assert((s2 + ".png"@).take(s2.len() as int) =~= s2);
    assert((s1 + ".png"@).len() == s1.len() + ".png"@.len());
    assert((s2 + ".png"@).len() == s2.len() + ".png"@.len());
    numbered_is_injective(l1, seq as nat, l2, other_seq as nat);
    assert(l1.skip("mcp-"@.len() as int) =~= label);
    assert(l2.skip("mcp-"@.len() as int) =~= other_label);
}

/// The file name of the `seq`th saved screenshot.
pub fn shot_name(label: &str, seq: u64) -> (r: String)
    ensures
        r@ == shot_words(label@, seq),
{
    let mut out = copy_of("mcp-");
    out.push_str(label);
    out.push_str("-");
    out.push_str(decimal_text(seq).as_str());
    out.push_str(".png");
    out
}

/// Where one side of an image comparison comes from.
#[derive(Debug)]
pub enum ImageArg {
    /// A file to read.
    File(String),
    /// The bytes of the image.
    Bytes(Vec<u8>),
}

/// What goes with a side that was given neither way.
pub open spec fn missing_text(side: Seq<char>) -> Seq<char> {
    "provide "@ + side + "_path or "@ + side + "_png_b64"@
}

/// One side of an image comparison, from a file path or a base64 string. The path
/// is preferred.
pub fn load_image_arg(side: &str, path: Option<String>, b64: Option<String>) -> (r: Result<
    ImageArg,
    String,
>)
    ensures
        match path {
            Some(p) => r matches Ok(ImageArg::File(f)) && f@ == p@,
            None => match b64 {
                Some(t) => match base64_bytes(t@) {
                    Ok(bytes) => r matches Ok(ImageArg::Bytes(v)) && v@ == bytes,
                    Err(e) => r matches Err(m) && m@ == side@ + "_png_b64 is not valid base64: "@
                        + e,
                },
                None => r matches Err(m) && m@ == missing_text(side@),
            },
        },
{
    if let Some(path) = path {
        return Ok(ImageArg::File(path));
    }
    if let Some(text) = b64 {
        return match base64_decode(text.as_str()) {
            Ok(bytes) => Ok(ImageArg::Bytes(bytes)),
            Err(e) => {
                let mut message = copy_of(side);
                message.push_str("_png_b64 is not valid base64: ");
                message.push_str(e.as_str());
                Err(message)
            },
        };
    }
    let mut message = copy_of("provide ");
    message.push_str(side);
    message.push_str("_path or ");
    message.push_str(side);
    message.push_str("_png_b64");
    Err(message)
}

/// What goes with a file that could not be read.
pub fn unreadable_image(side: &str, path: &str, error: &str) -> (r: String)
    ensures
        r@ == "reading "@ + side@ + "_path "@ + path@ + ": "@ + error@,
{
    let mut out = copy_of("reading ");
    out.push_str(side);
    out.push_str("_path ");
    out.push_str(path);
    out.push_str(": ");
    out.push_str(error);
    out
}

/// How to get at the content of an Electron app is told for that app, by its bundle and its
/// name.
pub proof fn the_hint_is_for_the_app(bundle_id: Seq<char>, display_name: Seq<char>)
    ensures
        occurs(relaunch_hint_text(bundle_id, display_name), bundle_id),
        occurs(
            relaunch_hint_text(bundle_id, display_name),
            bundle_id + "\", display_name=\""@ + display_name,
        ),
{
    broadcast use crate::text::group_parts;

    let head =
        "This is an Electron app and its Chromium debug port isn't open. Call relaunch_with_debug_port with bundle_id=\""@;
    let tail =
        "\", confirm=true, then retry — or pass skip_relaunch=true to settle for the shallow AX/screenshot path."@;
    let middle = bundle_id + "\", display_name=\""@ + display_name;
    assert(relaunch_hint_text(bundle_id, display_name) =~= head + middle + tail);
}

/// A saved screenshot is named by its label and its number.
pub proof fn a_shot_is_named_by_label_and_number(label: Seq<char>, seq: u64)
    ensures
        occurs(shot_words(label, seq), label),
        occurs(shot_words(label, seq), decimal(seq as nat)),
        ends(shot_words(label, seq), ".png"@),
{
    broadcast use crate::text::group_parts;

    let all = shot_words(label, seq);
    assert(all.subrange(all.len() - ".png"@.len(), all.len() as int) =~= ".png"@);
}

/// A side of a comparison that was given neither way is asked for both ways.
pub proof fn both_ways_are_told(side: Seq<char>)
    ensures
        occurs(missing_text(side), side),
        ends(missing_text(side), side + "_png_b64"@),
        occurs(missing_text(side), "_path or "@),
{
    broadcast use crate::text::group_parts;

    let all = missing_text(side);
    let tail = side + "_png_b64"@;
    assert(all.subrange(all.len() - tail.len(), all.len() as int) =~= tail);
}

} // verus!
