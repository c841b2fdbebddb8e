//! The shell around the library: hotkeys, what the system tools print, what is handed
//! to the main window, and what the user is told.

use crate::capture::{PickedElement, PickedView, ScreenRect};
use crate::dispatcher::ExtractError;
use crate::output::{CaptureResult, CaptureView};
use crate::session::picks;
use crate::text::{
    begins, chars_of, contains, copy_of, decimal, decimal_int, decimal_is_digits,
    decimal_is_nonempty, digit, ends, is_empty, join, joined, joined_holds_each, occurs, opt_view,
    string_of, texts, trim, trimmed,
};
use vstd::prelude::*;

verus! {

// ---------------------------------------------------------------------------
// Hotkeys
// ---------------------------------------------------------------------------

/// What a hotkey asks for.
#[derive(Debug, Clone, Copy, PartialEq, Eq, Structural)]
pub enum Hotkey {
    /// Arm a fresh selection.
    Pick,
    /// Export the selection.
    Export,
    /// Extract the whole frontmost window.
    Window,
    /// End pick mode.
    Stop,
    /// Walk to the parent, or to the child under the cursor.
    Walk { up: bool },
    /// Lock the selection.
    Lock,
}

/// What the combination asks for, by the first key name that it holds.
pub open spec fn asked(combo: Seq<char>) -> Option<Hotkey> {
    if occurs(combo, "KeyS"@) {
        Some(Hotkey::Pick)
    } else if occurs(combo, "KeyE"@) {
        Some(Hotkey::Export)
    } else if occurs(combo, "KeyX"@) {
        Some(Hotkey::Window)
    } else if occurs(combo, "Escape"@) {
        Some(Hotkey::Stop)
    } else if occurs(combo, "ArrowUp"@) {
        Some(Hotkey::Walk { up: true })
    } else if occurs(combo, "ArrowDown"@) {
        Some(Hotkey::Walk { up: false })
    } else if occurs(combo, "Enter"@) {
        Some(Hotkey::Lock)
    } else {
        None
    }
}

/// What the combination asks for.
pub fn hotkey_of(combo: &str) -> (r: Option<Hotkey>)
    ensures
        r == asked(combo@),
{
    if contains(combo, "KeyS") {
        Some(Hotkey::Pick)
    } else if contains(combo, "KeyE") {
        Some(Hotkey::Export)
    } else if contains(combo, "KeyX") {
        Some(Hotkey::Window)
    } else if contains(combo, "Escape") {
        Some(Hotkey::Stop)
    } else if contains(combo, "ArrowUp") {
        Some(Hotkey::Walk { up: true })
    } else if contains(combo, "ArrowDown") {
        Some(Hotkey::Walk { up: false })
    } else if contains(combo, "Enter") {
        Some(Hotkey::Lock)
    } else {
        None
    }
}

// ---------------------------------------------------------------------------
// What the launch services print
// ---------------------------------------------------------------------------

/// The lines of a text.
pub open spec fn lines(text: Seq<char>) -> Seq<Seq<char>>
    decreases text.len(),
{
    match line_end(text) {
        Some(i) if 0 <= i < text.len() => seq![text.take(i)] + lines(text.skip(i + 1)),
        _ => seq![text],
    }
}

/// Where the first line of a text ends.
pub open spec fn line_end(text: Seq<char>) -> Option<int> {
    first_char(text, '\n', 0)
}

/// The first place from `from` on that holds `c`.
pub open spec fn first_char(text: Seq<char>, c: char, from: int) -> Option<int>
    decreases text.len() - from,
{
    if from < 0 || from >= text.len() {
        None
    } else if text[from] == c {
        Some(from)
    } else {
        first_char(text, c, from + 1)
    }
}

proof fn first_char_shifts(text: Seq<char>, c: char, by: int, from: int)
    requires
        0 <= by <= text.len(),
        0 <= from,
    ensures
        first_char(text.skip(by), c, from) == (match first_char(text, c, by + from) {
            Some(i) => Some(i - by),
            None => None,
        }),
        first_char(text, c, by + from) matches Some(i) ==> by + from <= i < text.len(),
    decreases text.len() - by - from,
{
    if by + from < text.len() && text[by + from] != c {
        first_char_shifts(text, c, by, from + 1);
    }
}

fn find_char(chars: &Vec<char>, c: char, from: usize) -> (r: Option<usize>)
    ensures
        match r {
            Some(i) => from <= i < chars@.len() && first_char(chars@, c, from as int) == Some(
                i as int,
            ),
            None => first_char(chars@, c, from as int) is None,
        },
{
    let mut i: usize = from;
    while i < chars.len()
        invariant
            from <= i,
            first_char(chars@, c, from as int) == first_char(chars@, c, i as int),
        decreases chars@.len() - i,
    {
        if chars[i] == c {
            return Some(i);
        }
        i = i + 1;
    }
    None
}

/// The lines of a text.
pub fn split_lines(text: &str) -> (r: Vec<String>)
    ensures
        texts(r@) == lines(text@),
{
    let chars = chars_of(text);
    let n: usize = chars.len();
    let mut out: Vec<String> = Vec::new();
    let mut from: usize = 0;
    assert(text@.skip(0) =~= text@);
    assert(texts(out@) + lines(text@) =~= lines(text@));
    loop
        invariant_except_break
            chars@ == text@,
            n == chars@.len(),
            from <= n,
            texts(out@) + lines(text@.skip(from as int)) == lines(text@),
        ensures
            texts(out@) == lines(text@),
        decreases n - from,
    {
        let ghost before = texts(out@);
        let ghost rest = text@.skip(from as int);
        proof {
            first_char_shifts(text@, '\n', from as int, 0);
        }
        match find_char(&chars, '\n', from) {
            Some(i) => {
                out.push(string_of(&chars, from, i));
                proof {
                    assert(line_end(rest) == Some(i - from));
                    assert(rest.take(i - from) =~= text@.subrange(from as int, i as int));
                    assert(rest.skip(i - from + 1) =~= text@.skip(i + 1));
                    assert(texts(out@) =~= before.push(rest.take(i - from)));
                    assert(before + (seq![rest.take(i - from)] + lines(text@.skip(i + 1)))
                        =~= texts(out@) + lines(text@.skip(i + 1)));
                }
                from = i + 1;
            },
            None => {
                out.push(string_of(&chars, from, n));
                proof {
                    assert(line_end(rest) is None);
                    assert(rest =~= text@.subrange(from as int, text@.len() as int));
                    assert(texts(out@) =~= before + seq![rest]);
                }
                break;
            },
        }
    }
    out
}

/// What stands behind the first `=` of a line, without the blanks around it.
pub open spec fn line_value(line: Seq<char>) -> Option<Seq<char>> {
    match first_char(line, '=', 0) {
        Some(i) => Some(trimmed(line.skip(i + 1))),
        None => None,
    }
}

fn value_in(line: &str) -> (r: Option<String>)
    ensures
        opt_view(r) == line_value(line@),
{
    let chars = chars_of(line);
    match find_char(&chars, '=', 0) {
        Some(i) => {
            let end = chars.len();
            let rest = string_of(&chars, i + 1, end);
            assert(rest@ =~= line@.skip(i + 1));
            Some(trim(rest.as_str()))
        },
        None => None,
    }
}

/// The number that the digits stand for; `None` where one of them is none.
pub open spec fn digits_value(s: Seq<char>) -> Option<nat>
    decreases s.len(),
{
    if s.len() == 0 {
        Some(0)
    } else {
        let d = s.last() as int - '0' as int;
        match digits_value(s.drop_last()) {
            Some(n) if 0 <= d <= 9 => Some((10 * n + d) as nat),
            _ => None,
        }
    }
}

/// The number that a text stands for: digits, with a sign before them or not.
pub open spec fn number_value(s: Seq<char>) -> Option<int> {
    if s.len() == 0 {
        None
    } else if s[0] == '-' || s[0] == '+' {
        match digits_value(s.skip(1)) {
            Some(n) if s.len() > 1 => Some(
                if s[0] == '-' {
                    -(n as int)
                } else {
                    n as int
                },
            ),
            _ => None,
        }
    } else {
        match digits_value(s) {
            Some(n) => Some(n as int),
            None => None,
        }
    }
}

/// The process number that a text stands for.
pub open spec fn pid_value(s: Seq<char>) -> Option<i32> {
    match number_value(s) {
        Some(n) if i32::MIN <= n <= i32::MAX => Some(n as i32),
        _ => None,
    }
}

proof fn digits_grow(s: Seq<char>, i: int)
    requires
        0 <= i <= s.len(),
    ensures
        digits_value(s.take(i)) is None ==> digits_value(s) is None,
        digits_value(s.take(i)) matches Some(n) ==> (digits_value(s) matches Some(m) ==> n <= m),
    decreases s.len() - i,
{
    if i == s.len() {
        assert(s.take(i) =~= s);
    } else {
        digits_grow(s, i + 1);
        assert(s.take(i + 1).drop_last() =~= s.take(i));
    }
}

/// The process number that a text stands for.
pub fn parse_pid(s: &str) -> (r: Option<i32>)
    ensures
        r == pid_value(s@),
{
    let chars = chars_of(s);
    if chars.len() == 0 {
        return None;
    }
    let signed = chars[0] == '-' || chars[0] == '+';
    let from: usize = if signed {
        1
    } else {
        0
    };
    if signed && chars.len() == 1 {
        return None;
    }
    let ghost body = s@.skip(from as int);
    let mut n: i64 = 0;
    assert(body.take(0) =~= Seq::empty());
    assert(from == 0 ==> body =~= s@);
    for i in from..chars.len()
        invariant
            chars@ == s@,
            from <= chars@.len(),
            body == s@.skip(from as int),
            0 <= n <= 0x80000000,
            digits_value(body.take(i - from)) == Some(n as nat),
            body == (if signed { s@.skip(1) } else { s@ }),
            signed == (s@[0] == '-' || s@[0] == '+'),
            signed ==> s@.len() > 1,
            s@.len() > 0,
    {
        let c = chars[i];
        let ghost next = body.take(i - from + 1);
        proof {
            assert(next.drop_last() =~= body.take(i - from));
            assert(next.last() == c);
            digits_grow(body, i - from + 1);
        }
        if c < '0' || c > '9' {
            assert(digits_value(next) is None);
            return None;
        }
        let d: i64 = (c as u32 - '0' as u32) as i64;
        n = 10 * n + d;
        assert(digits_value(next) == Some(n as nat));
        if n > 0x80000000 {
            return None;
        }
    }
    assert(body.take(body.len() as int) =~= body);
    let value: i64 = if chars[0] == '-' {
        -n
    } else {
        n
    };
    if value > 0x7fffffff {
        None
    } else {
        Some(value as i32)
    }
}

/// The first process number among the values of the lines.
pub open spec fn first_pid(ls: Seq<Seq<char>>) -> Option<i32>
    decreases ls.len(),
{
    if ls.len() == 0 {
        None
    } else {
        match line_value(ls[0]) {
            Some(v) if pid_value(v) is Some => pid_value(v),
            _ => first_pid(ls.skip(1)),
        }
    }
}

/// The process number in what the launch services print, such as `"pid"=12345`.
pub fn printed_pid(text: &str) -> (r: Option<i32>)
    ensures
        r == first_pid(lines(text@)),
{
    let ls = split_lines(text);
    assert(lines(text@).skip(0) =~= lines(text@));
    for i in 0..ls.len()
        invariant
            texts(ls@) == lines(text@),
            first_pid(lines(text@)) == first_pid(lines(text@).skip(i as int)),
    {
        assert(lines(text@).skip(i as int)[0] == ls@[i as int]@);
        assert(lines(text@).skip(i as int).skip(1) =~= lines(text@).skip(i + 1));
        if let Some(v) = value_in(ls[i].as_str()) {
            if let Some(pid) = parse_pid(v.as_str()) {
                return Some(pid);
            }
        }
    }
    None
}

/// `s` without the quotes at its start.
pub open spec fn unquote_start(s: Seq<char>) -> Seq<char>
    decreases s.len(),
{
    if s.len() > 0 && s[0] == '"' {
        unquote_start(s.skip(1))
    } else {
        s
    }
}

/// `s` without the quotes at its end.
pub open spec fn unquote_end(s: Seq<char>) -> Seq<char>
    decreases s.len(),
{
    if s.len() > 0 && s.last() == '"' {
        unquote_end(s.drop_last())
    } else {
        s
    }
}

/// `s` without the quotes at either end.
pub open spec fn unquoted(s: Seq<char>) -> Seq<char> {
    unquote_end(unquote_start(s))
}

/// `s` without the quotes at either end.
pub fn unquote(s: &str) -> (r: String)
    ensures
        r@ == unquoted(s@),
{
    let chars = chars_of(s);
    let mut from: usize = 0;
    assert(s@.skip(0) =~= s@);
    while from < chars.len() && chars[from] == '"'
        invariant
            chars@ == s@,
            from <= chars@.len(),
            unquote_start(s@) == unquote_start(s@.skip(from as int)),
        decreases chars@.len() - from,
    {
        assert(s@.skip(from as int).skip(1) =~= s@.skip(from + 1));
        from = from + 1;
    }
    let ghost rest = s@.skip(from as int);
    assert(unquote_start(s@) == rest);
    let mut to: usize = chars.len();
    assert(s@.subrange(from as int, to as int) =~= rest);
    while to > from && chars[to - 1] == '"'
        invariant
            chars@ == s@,
            from <= to <= chars@.len(),
            unquote_end(rest) == unquote_end(s@.subrange(from as int, to as int)),
        decreases to,
    {
        assert(s@.subrange(from as int, to as int).drop_last() =~= s@.subrange(
            from as int,
            to - 1,
        ));
        to = to - 1;
    }
    string_of(&chars, from, to)
}

/// The first name among the values of the lines.
pub open spec fn first_name(ls: Seq<Seq<char>>) -> Option<Seq<char>>
    decreases ls.len(),
{
    if ls.len() == 0 {
        None
    } else {
        match line_value(ls[0]) {
            Some(v) if unquoted(v).len() > 0 => Some(unquoted(v)),
            _ => first_name(ls.skip(1)),
        }
    }
}

/// The app's name in what the launch services print, such as
/// `"LSDisplayName"="Safari"`.
pub fn printed_name(text: &str) -> (r: Option<String>)
    ensures
        opt_view(r) == first_name(lines(text@)),
{
    let ls = split_lines(text);
    assert(lines(text@).skip(0) =~= lines(text@));
    for i in 0..ls.len()
        invariant
            texts(ls@) == lines(text@),
            first_name(lines(text@)) == first_name(lines(text@).skip(i as int)),
    {
        assert(lines(text@).skip(i as int)[0] == ls@[i as int]@);
        assert(lines(text@).skip(i as int).skip(1) =~= lines(text@).skip(i + 1));
        if let Some(v) = value_in(ls[i].as_str()) {
            let name = unquote(v.as_str());
            if !is_empty(name.as_str()) {
                return Some(name);
            }
        }
    }
    None
}

// ---------------------------------------------------------------------------
// Exporting
// ---------------------------------------------------------------------------

/// What the main window is handed.
#[derive(Debug)]
pub struct ExportPayload {
    pub strategy: String,
    pub fidelity: String,
    pub toon: String,
    pub html: String,
    pub screenshot_png_b64: Option<String>,
    pub diagnostics: Vec<String>,
    pub picked_summary: String,
    pub count: usize,
}

/// What an [`ExportPayload`] holds.
#[verifier::ext_equal]
pub struct PayloadView {
    pub strategy: Seq<char>,
    pub fidelity: Seq<char>,
    pub toon: Seq<char>,
    pub html: Seq<char>,
    pub screenshot_png_b64: Option<Seq<char>>,
    pub diagnostics: Seq<Seq<char>>,
    pub picked_summary: Seq<char>,
    pub count: nat,
}

impl View for ExportPayload {
    type V = PayloadView;

    open spec fn view(&self) -> PayloadView {
        PayloadView {
            strategy: self.strategy@,
            fidelity: self.fidelity@,
            toon: self.toon@,
            html: self.html@,
            screenshot_png_b64: opt_view(self.screenshot_png_b64),
            diagnostics: texts(self.diagnostics@),
            picked_summary: self.picked_summary@,
            count: self.count as nat,
        }
    }
}

/// What the main window is handed of a result.
pub open spec fn handed(r: CaptureView, summary: Seq<char>, count: nat) -> PayloadView {
    PayloadView {
        strategy: r.strategy,
        fidelity: r.fidelity,
        toon: r.toon,
        html: r.html,
        screenshot_png_b64: r.screenshot_png_b64,
        diagnostics: r.diagnostics,
        picked_summary: summary,
        count,
    }
}

/// An element by role and name.
pub open spec fn short_of(p: PickedView) -> Seq<char> {
    p.role + " \""@ + p.name + "\""@
}

/// The selection in words.
pub open spec fn summary_of(selected: Seq<PickedView>) -> Seq<char> {
    joined(selected.map_values(|p: PickedView| short_of(p)), " + "@)
}

/// The selection in words.
pub fn selection_summary(selected: &Vec<PickedElement>) -> (r: String)
    ensures
        r@ == summary_of(picks(selected@)),
{
    let mut parts: Vec<String> = Vec::new();
    for i in 0..selected.len()
        invariant
            parts@.len() == i,
            forall|k: int|
                0 <= k < i ==> #[trigger] parts@[k]@ == short_of(picks(selected@)[k]),
    {
        let mut s = copy_of(selected[i].role.as_str());
        s.push_str(" \"");
        s.push_str(selected[i].name.as_str());
        s.push_str("\"");
        parts.push(s);
    }
    assert(texts(parts@) =~= picks(selected@).map_values(|p: PickedView| short_of(p)));
    join(&parts, " + ")
}

fn payload_of(result: CaptureResult, picked_summary: String, count: usize) -> (r: ExportPayload)
    ensures
        r@ == handed(result@, picked_summary@, count as nat),
{
    ExportPayload {
        strategy: result.strategy,
        fidelity: result.fidelity,
        toon: result.toon,
        html: result.html,
        screenshot_png_b64: result.screenshot_png_b64,
        diagnostics: result.diagnostics,
        picked_summary,
        count,
    }
}

/// What the main window is handed after the selection was exported.
pub fn selection_payload(result: CaptureResult, selected: &Vec<PickedElement>) -> (r: ExportPayload)
    ensures
        r@ == handed(result@, summary_of(picks(selected@)), selected@.len()),
{
    payload_of(result, selection_summary(selected), selected.len())
}

/// What the main window is handed after the whole window was extracted.
pub fn window_payload(result: CaptureResult) -> (r: ExportPayload)
    ensures
        r@ == handed(result@, "entire frontmost window"@, 1),
{
    payload_of(result, copy_of("entire frontmost window"), 1)
}

/// Why an export does not even begin.
#[derive(Debug, Clone, Copy, PartialEq, Eq, Structural)]
pub enum ExportRefusal {
    /// Another one is under way.
    InProgress,
    /// Nothing is selected.
    NothingSelected,
}

impl ExportRefusal {
    /// The refusal in words.
    pub open spec fn words(self) -> Seq<char> {
        match self {
            ExportRefusal::InProgress =>
                "an export is already in progress — give it a moment to finish"@,
            ExportRefusal::NothingSelected => "nothing selected"@,
        }
    }

    /// The refusal in words.
    pub fn message(self) -> (r: String)
        ensures
            r@ == self.words(),
    {
        match self {
            ExportRefusal::InProgress => copy_of(
                "an export is already in progress — give it a moment to finish",
            ),
            ExportRefusal::NothingSelected => copy_of("nothing selected"),
        }
    }
}

/// May an export begin, given whether the one place for it was claimed?
pub fn export_may_begin(claimed: bool, selected: &Vec<PickedElement>) -> (r: Option<ExportRefusal>)
    ensures
        r == (if !claimed {
            Some(ExportRefusal::InProgress)
        } else if selected@.len() == 0 {
            Some(ExportRefusal::NothingSelected)
        } else {
            None
        }),
{
    if !claimed {
        Some(ExportRefusal::InProgress)
    } else if selected.len() == 0 {
        Some(ExportRefusal::NothingSelected)
    } else {
        None
    }
}

/// What the first extraction comes to.
#[derive(Debug)]
pub enum ExportStep {
    /// It is done.
    Done(CaptureResult),
    /// The app is to be relaunched, or the extraction run again without asking.
    Relaunch { bundle_id: String, display_name: String },
    /// It failed.
    Failed(String),
}

/// What the first extraction comes to.
pub fn export_step(first: Result<CaptureResult, ExtractError>) -> (r: ExportStep)
    ensures
        match first {
            Ok(c) => r == ExportStep::Done(c),
            Err(ExtractError::ElectronNeedsRelaunch { bundle_id, display_name, .. }) => r
                == (ExportStep::Relaunch { bundle_id, display_name }),
            Err(e) => r matches ExportStep::Failed(m) && m@ == e@.words(),
        },
{
    match first {
        Ok(c) => ExportStep::Done(c),
        Err(e) => {
            let m = e.message();
            match e {
                ExtractError::ElectronNeedsRelaunch { bundle_id, display_name, pid: _, app_path: _ } => {
                    ExportStep::Relaunch { bundle_id, display_name }
                },
                _ => ExportStep::Failed(m),
            }
        },
    }
}

/// Did the extraction come down to a screenshot?
pub fn only_screenshot(result: &CaptureResult) -> (r: bool)
    ensures
        r == occurs(result@.strategy, "screenshot_only"@),
{
    contains(result.strategy.as_str(), "screenshot_only")
}

// ---------------------------------------------------------------------------
// Starting
// ---------------------------------------------------------------------------

/// What the hover is driven by: the page of an Electron target, through its debug port
/// and from the origin of its window; accessibility otherwise.
pub fn hover_source(electron: bool, port: Option<u16>, window: Option<ScreenRect>) -> (r: (
    Option<u16>,
    Option<ScreenRect>,
))
    ensures
        r == (if electron {
            (port, window)
        } else {
            (None, None)
        }),
{
    if electron {
        (port, window)
    } else {
        (None, None)
    }
}

/// Is the server started on launch? It is, unless switched off; switching it on
/// explicitly overrides that.
pub fn autostart(force_on: bool, opt_out: bool) -> (r: bool)
    ensures
        r == (force_on || !opt_out),
{
    force_on || !opt_out
}

// ---------------------------------------------------------------------------
// Words
// ---------------------------------------------------------------------------

/// Pick mode was armed without a target.
pub const PICK_MODE_ON: &'static str = "Pick mode on — hover the app you want and click. ⌘⇧E to extract · Esc to cancel.";

/// The target is an Electron app without a debug port.
pub const NOT_IN_DEBUG_MODE: &'static str = "This Electron app isn't in debug mode — the selection highlight will be approximate. Accept the restart prompt (or press ⌘⇧E) for pixel-accurate picking.";

/// The export hotkey started pick mode.
pub const PICK_MODE_ARMED: &'static str = "Pick mode armed — click an element, then press ⌘⇧E again to capture.";

/// The export hotkey was pressed while pick mode starts.
pub const ALREADY_STARTING: &'static str = "Pick mode is already starting — give it a moment, then click.";

/// An export succeeded in pick mode.
pub const CAPTURED: &'static str = "✓ Captured — pick mode is still on; click again or press Esc to end";

/// The click was on the shell itself.
pub const OVER_OURSELVES: &'static str = "Cursor is over VibeExtract itself — click on the target app.";

/// The click was on the shell itself.
pub const OWN_PROCESS: &'static str = "fresh hit was our own process";

/// No element is outlined.
pub const NOTHING_HOVERED: &'static str = "no hovered element to walk from";

/// The outlined element cannot be found again.
pub const HOVER_LOST: &'static str = "couldn't re-acquire AX handle for current hover";

/// No dialog waits for an answer.
pub const NO_DIALOG: &'static str = "no pending relaunch dialog";

/// What an export in vain is followed by.
pub open spec fn hint(was_active: bool) -> Seq<char> {
    if was_active {
        "Hover over an element first, then click before pressing ⌘⇧E."@
    } else {
        "Press ⌘⇧E again to start picking, click an element, then ⌘⇧E to capture."@
    }
}

/// The export failed.
pub open spec fn failure_words(error: Seq<char>, was_active: bool) -> Seq<char> {
    "Export failed: "@ + error + " — "@ + hint(was_active)
}

/// The export failed.
pub fn export_failed(error: &str, was_active: bool) -> (r: String)
    ensures
        r@ == failure_words(error@, was_active),
{
    let mut out = copy_of("Export failed: ");
    out.push_str(error);
    out.push_str(" — ");
    if was_active {
        out.push_str("Hover over an element first, then click before pressing ⌘⇧E.");
    } else {
        out.push_str("Press ⌘⇧E again to start picking, click an element, then ⌘⇧E to capture.");
    }
    out
}

/// The whole window could not be extracted.
pub fn window_failed(error: &str) -> (r: String)
    ensures
        r@ == "Failed: "@ + error@,
{
    let mut out = copy_of("Failed: ");
    out.push_str(error);
    out
}

/// Pick mode could not be started.
pub open spec fn start_failed_words(error: Seq<char>) -> Seq<char> {
    "Couldn't start pick mode: "@ + error + " — click on the target app first, then retry."@
}

/// Pick mode could not be started.
pub fn start_failed(error: &str) -> (r: String)
    ensures
        r@ == start_failed_words(error@),
{
    let mut out = copy_of("Couldn't start pick mode: ");
    out.push_str(error);
    out.push_str(" — click on the target app first, then retry.");
    out
}

/// The click found nothing.
pub open spec fn ignored_words(error: Seq<char>) -> Seq<char> {
    "Click ignored: "@ + error
        + " — make sure the target app is frontmost and your cursor is over a real UI element."@
}

/// The click found nothing.
pub fn click_ignored(error: &str) -> (r: String)
    ensures
        r@ == ignored_words(error@),
{
    let mut out = copy_of("Click ignored: ");
    out.push_str(error);
    out.push_str(
        " — make sure the target app is frontmost and your cursor is over a real UI element.",
    );
    out
}

/// Clicks cannot be captured.
pub fn capture_failed(error: &str) -> (r: String)
    ensures
        r@ == "Click capture failed: "@ + error@,
{
    let mut out = copy_of("Click capture failed: ");
    out.push_str(error);
    out
}

/// Is the main window raised after an export? Always where it succeeded; where it
/// failed, only outside pick mode.
pub fn raises_main(succeeded: bool, was_active: bool) -> (r: bool)
    ensures
        r == (succeeded || !was_active),
{
    succeeded || !was_active
}

// ---------------------------------------------------------------------------
// What is read and what is told
// ---------------------------------------------------------------------------

/// A combination with one key in it asks for what the key stands for.
pub proof fn each_key_has_its_meaning(combo: Seq<char>)
    ensures
        occurs(combo, "KeyS"@) <==> asked(combo) == Some(Hotkey::Pick),
        asked(combo) == Some(Hotkey::Export) <==> occurs(combo, "KeyE"@) && !occurs(combo, "KeyS"@),
        asked(combo) == Some(Hotkey::Window) <==> occurs(combo, "KeyX"@) && !occurs(combo, "KeyS"@)
            && !occurs(combo, "KeyE"@),
        asked(combo) == Some(Hotkey::Stop) ==> occurs(combo, "Escape"@),
        asked(combo) == Some(Hotkey::Walk { up: true }) ==> occurs(combo, "ArrowUp"@),
        asked(combo) == Some(Hotkey::Walk { up: false }) ==> occurs(combo, "ArrowDown"@),
        asked(combo) == Some(Hotkey::Lock) ==> occurs(combo, "Enter"@),
        asked(combo) is None <==> !occurs(combo, "KeyS"@) && !occurs(combo, "KeyE"@) && !occurs(
            combo,
            "KeyX"@,
        ) && !occurs(combo, "Escape"@) && !occurs(combo, "ArrowUp"@) && !occurs(combo, "ArrowDown"@)
            && !occurs(combo, "Enter"@),
{
}

proof fn joined_from_the_front(first: Seq<char>, rest: Seq<Seq<char>>, sep: Seq<char>)
    requires
        rest.len() > 0,
    ensures
        joined(seq![first] + rest, sep) == first + sep + joined(rest, sep),
    decreases rest.len(),
{
    let all = seq![first] + rest;
    assert(all.last() == rest.last());
    if rest.len() == 1 {
        assert(all.drop_last() =~= seq![first]);
        assert(joined(seq![first], sep) == first);
    } else {
        let short = rest.drop_last();
        assert(all.drop_last() =~= seq![first] + short);
        joined_from_the_front(first, short, sep);
        assert(first + sep + joined(short, sep) + sep + rest.last() =~= first + sep + (joined(
            short,
            sep,
        ) + sep + rest.last()));
    }
}

proof fn first_char_is_first(text: Seq<char>, c: char, from: int)
    requires
        0 <= from,
    ensures
        match first_char(text, c, from) {
            Some(i) => from <= i < text.len() && text[i] == c && forall|j: int|
                from <= j < i ==> #[trigger] text[j] != c,
            None => forall|j: int| from <= j < text.len() ==> #[trigger] text[j] != c,
        },
    decreases text.len() - from,
{
    if from < text.len() && text[from] != c {
        first_char_is_first(text, c, from + 1);
    }
}

/// The lines of a text, with line ends between them, are the text again; none of them
/// holds a line end.
pub proof fn lines_make_up_the_text(text: Seq<char>)
    ensures
        lines(text).len() > 0,
        joined(lines(text), seq!['\n']) == text,
        forall|i: int| 0 <= i < lines(text).len() ==> !(#[trigger] lines(text)[i]).contains('\n'),
    decreases text.len(),
{
    first_char_is_first(text, '\n', 0);
    match line_end(text) {
        Some(i) => {
            let (head, tail) = (text.take(i), text.skip(i + 1));
            lines_make_up_the_text(tail);
            joined_from_the_front(head, lines(tail), seq!['\n']);
            assert(head + seq!['\n'] + tail =~= text);
            assert forall|k: int| 0 <= k < lines(text).len() implies !(#[trigger] lines(
                text,
            )[k]).contains('\n') by {
                if k > 0 {
                    assert(lines(text)[k] == lines(tail)[k - 1]);
                } else {
                    assert forall|j: int| 0 <= j < head.len() implies head[j] != '\n' by {
                        assert(head[j] == text[j]);
                    }
                }
            }
        },
        None => {
            assert(joined(seq![text], seq!['\n']) == text);
        },
    }
}

/// The value of a line is all that stands behind its first `=`, but for blanks around it;
/// a line without one has none.
pub proof fn a_value_stands_behind_the_sign(key: Seq<char>, value: Seq<char>)
    requires
        !key.contains('='),
    ensures
        line_value(key + seq!['='] + value) == Some(trimmed(value)),
        line_value(key) is None,
{
    let line = key + seq!['='] + value;
    first_char_is_first(line, '=', 0);
    first_char_is_first(key, '=', 0);
    assert(line[key.len() as int] == '=');
    let i = first_char(line, '=', 0)->0;
    if i < key.len() {
        assert(key[i] == line[i]);
    }
    assert(line.skip(i + 1) =~= value);
}

proof fn digits_read_back(n: nat)
    ensures
        digits_value(decimal(n)) == Some(n),
    decreases n,
{
    let s = decimal(n);
    if n < 10 {
        assert(digits_value(Seq::<char>::empty()) == Some(0nat));
        assert(s.drop_last() =~= Seq::<char>::empty());
        assert(s.last() == digit(n as int));
    } else {
        digits_read_back(n / 10);
        assert(s.drop_last() =~= decimal(n / 10));
        assert(s.last() == digit((n % 10) as int));
    }
}

/// A process number that is written down is read as itself.
pub proof fn a_process_number_reads_back(pid: i32)
    ensures
        pid_value(decimal_int(pid as int)) == Some(pid),
        pid >= 0 ==> pid_value(seq!['+'] + decimal_int(pid as int)) == Some(pid),
{
    let n: nat = if pid < 0 {
        (-pid) as nat
    } else {
        pid as nat
    };
    let d = decimal(n);
    digits_read_back(n);
    decimal_is_digits(n);
    decimal_is_nonempty(n);
    assert((seq!['-'] + d).skip(1) =~= d);
    assert((seq!['+'] + d).skip(1) =~= d);
}

/// The process number is that of the first line that gives one.
pub proof fn the_first_process_number_counts(ls: Seq<Seq<char>>, i: int, pid: i32)
    requires
        0 <= i < ls.len(),
        line_value(ls[i]) matches Some(v) && pid_value(v) == Some(pid),
        forall|j: int|
            0 <= j < i ==> (#[trigger] line_value(ls[j]) matches Some(v) ==> pid_value(v) is None),
    ensures
        first_pid(ls) == Some(pid),
    decreases i,
{
    if i > 0 {
        assert(line_value(ls[0]) matches Some(v) ==> pid_value(v) is None);
        let rest = ls.skip(1);
        assert forall|j: int| 0 <= j < i - 1 implies (#[trigger] line_value(rest[j]) matches Some(v)
            ==> pid_value(v) is None) by {
            assert(line_value(ls[j + 1]) == line_value(rest[j]));
        }
        assert(rest[i - 1] == ls[i]);
        the_first_process_number_counts(rest, i - 1, pid);
    }
}

/// The name is that of the first line that gives one.
pub proof fn the_first_name_counts(ls: Seq<Seq<char>>, i: int)
    requires
        0 <= i < ls.len(),
        line_value(ls[i]) matches Some(v) && unquoted(v).len() > 0,
        forall|j: int|
            0 <= j < i ==> (#[trigger] line_value(ls[j]) matches Some(v) ==> unquoted(v).len() == 0),
    ensures
        first_name(ls) == Some(unquoted(line_value(ls[i])->0)),
    decreases i,
{
    if i > 0 {
        assert(line_value(ls[0]) matches Some(v) ==> unquoted(v).len() == 0);
        let rest = ls.skip(1);
        assert forall|j: int| 0 <= j < i - 1 implies (#[trigger] line_value(rest[j]) matches Some(v)
            ==> unquoted(v).len() == 0) by {
            assert(line_value(ls[j + 1]) == line_value(rest[j]));
        }
        assert(rest[i - 1] == ls[i]);
        the_first_name_counts(rest, i - 1);
    }
}

/// A quoted name is read without its quotes, and one without quotes as it is.
pub proof fn a_quoted_name_reads_back(name: Seq<char>)
    requires
        name.len() > 0 ==> name[0] != '"' && name.last() != '"',
    ensures
        unquoted(seq!['"'] + name + seq!['"']) == name,
        unquoted(name) == name,
{
    reveal_with_fuel(unquote_start, 3);
    reveal_with_fuel(unquote_end, 3);
    let q = seq!['"'] + name + seq!['"'];
    assert(q.skip(1) =~= name + seq!['"']);
    if name.len() == 0 {
        assert(q.skip(1).skip(1) =~= name);
    } else {
        assert((name + seq!['"'])[0] == name[0]);
        assert((name + seq!['"']).drop_last() =~= name);
    }
}

/// The main window is handed the result as it is: each part in its place.
pub proof fn the_result_is_handed_on(r: CaptureView, summary: Seq<char>, count: nat)
    ensures
        ({
            let h = handed(r, summary, count);
            &&& h.strategy == r.strategy && h.fidelity == r.fidelity
            &&& h.toon == r.toon && h.html == r.html
            &&& h.screenshot_png_b64 == r.screenshot_png_b64
            &&& h.diagnostics == r.diagnostics
            &&& h.picked_summary == summary && h.count == count
        }),
{
}

/// The summary of a selection tells role and name of each element.
pub proof fn the_summary_tells_each_element(selected: Seq<PickedView>, i: int)
    requires
        0 <= i < selected.len(),
    ensures
        begins(short_of(selected[i]), selected[i].role),
        occurs(short_of(selected[i]), selected[i].name),
        occurs(summary_of(selected), short_of(selected[i])),
{
    broadcast use crate::text::group_parts;

    let parts = selected.map_values(|p: PickedView| short_of(p));
    joined_holds_each(parts, " + "@, i);
    assert(parts[i] == short_of(selected[i]));
}

/// What the user is told of a failure holds the error, and what to do next goes by
/// whether pick mode was on.
pub proof fn the_user_is_told_the_error(error: Seq<char>, was_active: bool)
    ensures
        occurs(failure_words(error, was_active), error),
        ends(failure_words(error, was_active), hint(was_active)),
        occurs(start_failed_words(error), error),
        occurs(ignored_words(error), error),
        hint(true) != hint(false),
        begins(hint(true), "Hover"@),
        begins(hint(false), "Press"@),
{
    broadcast use crate::text::group_parts;

    let head = "Export failed: "@ + error + " — "@;
    let all = head + hint(was_active);
    assert(all.subrange(all.len() - hint(was_active).len(), all.len() as int) =~= hint(was_active));
    reveal_strlit("Hover over an element first, then click before pressing ⌘⇧E.");
    reveal_strlit("Press ⌘⇧E again to start picking, click an element, then ⌘⇧E to capture.");
    reveal_strlit("Hover");
    reveal_strlit("Press");
    assert(hint(true)[0] == 'H' && hint(false)[0] == 'P');
    assert(hint(true).subrange(0, 5) =~= "Hover"@);
    assert(hint(false).subrange(0, 5) =~= "Press"@);
}

} // verus!
