//! The pick session: what is being picked, in which app, and which key press does
//! what.

use crate::capture::{PickedElement, PickedView, ScreenRect};
use crate::text::{copy_of, decimal_int, decimal_int_text, occurs, texts};
use std::collections::HashSet;
use vstd::prelude::*;

verus! {

// ---------------------------------------------------------------------------
// The session
// ---------------------------------------------------------------------------

/// Selected elements during the current pick session.
#[derive(Debug)]
pub struct PickSession {
    active: bool,
    starting: bool,
    selected: Vec<PickedElement>,
    locked_pid: Option<i32>,
    woken_pids: HashSet<i32>,
    target_pid: Option<i32>,
    last_hover: Option<PickedElement>,
    cdp_port: Option<u16>,
    target_win: Option<ScreenRect>,
    widen_level: u32,
}

/// What a [`PickSession`] holds.
#[verifier::ext_equal]
pub struct SessionView {
    /// Pick mode is on.
    pub active: bool,
    /// A start is under way. Keeps a rapid double press of a hotkey from starting
    /// twice.
    pub starting: bool,
    pub selected: Seq<PickedView>,
    /// The process of the selected elements.
    pub locked_pid: Option<i32>,
    /// The processes whose accessibility tree was woken.
    pub woken: Set<i32>,
    /// The frontmost app when pick mode was started.
    pub target_pid: Option<i32>,
    /// The element that is outlined: what a click takes.
    pub last_hover: Option<PickedView>,
    /// The debug port of the target, when it is an Electron app with one.
    pub cdp_port: Option<u16>,
    /// The target window, for converting between screen and viewport.
    pub target_win: Option<ScreenRect>,
    /// How many extra parents the hover is widened by.
    pub widen_level: u32,
}

/// What each element holds.
pub open spec fn picks(s: Seq<PickedElement>) -> Seq<PickedView> {
    s.map_values(|p: PickedElement| p@)
}

/// What an optional element holds.
pub open spec fn pick_view(p: Option<PickedElement>) -> Option<PickedView> {
    match p {
        Some(e) => Some(e@),
        None => None,
    }
}

impl View for PickSession {
    type V = SessionView;

    closed spec fn view(&self) -> SessionView {
        SessionView {
            active: self.active,
            starting: self.starting,
            selected: picks(self.selected@),
            locked_pid: self.locked_pid,
            woken: self.woken_pids@,
            target_pid: self.target_pid,
            last_hover: pick_view(self.last_hover),
            cdp_port: self.cdp_port,
            target_win: self.target_win,
            widen_level: self.widen_level,
        }
    }
}

impl SessionView {
    /// A selection is locked to the one process that all its elements belong to.
    pub open spec fn wf(self) -> bool {
        match self.locked_pid {
            Some(pid) => self.selected.len() > 0 && forall|i: int|
                0 <= i < self.selected.len() ==> (#[trigger] self.selected[i]).pid == pid,
            None => self.selected.len() == 0,
        }
    }
}

/// All selected elements belong to one app.
pub proof fn selection_is_of_one_app(s: SessionView, i: int, j: int)
    requires
        s.wf(),
        0 <= i < s.selected.len(),
        0 <= j < s.selected.len(),
    ensures
        s.selected[i].pid == s.selected[j].pid,
{
}

/// What a press of the start hotkey comes to.
#[derive(Debug, Clone, Copy, PartialEq, Eq, Structural)]
pub enum StartClaim {
    /// A start is under way already.
    Ignored,
    /// Start; stop the session that is on first, where one is.
    Start { stop_first: bool },
}

/// What a press of the export hotkey comes to.
#[derive(Debug, Clone, Copy, PartialEq, Eq, Structural)]
pub enum ExportClaim {
    /// Nothing to export and pick mode is off: start picking. This makes the app work
    /// even where the start hotkey is taken by another app.
    AutoStart,
    /// Such a start is under way already.
    AlreadyStarting,
    /// Export the selection.
    Export { was_active: bool },
}

/// What an arrow key comes to.
#[derive(Debug, Clone, Copy, PartialEq, Eq, Structural)]
pub enum WidenStep {
    /// Pick mode is off.
    NotActive,
    /// The hover is widened or narrowed; the next probe shows it.
    Adjusted,
    /// The accessibility tree is to be walked.
    WalkTree,
}

/// Why a click selects nothing.
#[derive(Debug, Clone, Copy, PartialEq, Eq, Structural)]
pub enum ClickError {
    NotActive,
    /// The selection is locked to another process.
    CrossApp(i32),
}

impl ClickError {
    /// The error in words.
    pub open spec fn words(self) -> Seq<char> {
        match self {
            ClickError::NotActive => "pick mode not active"@,
            ClickError::CrossApp(pid) => "Cross-app selection not allowed (locked to pid "@
                + decimal_int(pid as int) + "). Press Escape to start over."@,
        }
    }

    /// The error in words.
    pub fn message(self) -> (r: String)
        ensures
            r@ == self.words(),
    {
        match self {
            ClickError::NotActive => copy_of("pick mode not active"),
            ClickError::CrossApp(pid) => {
                let mut out = copy_of("Cross-app selection not allowed (locked to pid ");
                out.push_str(decimal_int_text(pid as i64).as_str());
                out.push_str("). Press Escape to start over.");
                out
            },
        }
    }
}

/// The crops of elements that have one.
pub open spec fn crops(selected: Seq<PickedView>) -> Seq<Seq<char>>
    decreases selected.len(),
{
    if selected.len() == 0 {
        Seq::empty()
    } else {
        let head = crops(selected.drop_last());
        match selected.last().crop_path {
            Some(p) => head.push(p),
            None => head,
        }
    }
}

/// The session once a picked element was taken: with shift it joins the selection,
/// which holds elements of one process only; else it becomes the selection.
pub open spec fn committed(s: SessionView, picked: PickedView, shift: bool) -> Result<
    SessionView,
    ClickError,
> {
    if !s.active {
        Err(ClickError::NotActive)
    } else if shift && (s.locked_pid matches Some(pid) && pid != picked.pid) {
        Err(ClickError::CrossApp(s.locked_pid->0))
    } else if shift {
        Ok(
            SessionView {
                selected: s.selected.push(picked),
                locked_pid: Some(picked.pid),
                ..s
            },
        )
    } else {
        Ok(SessionView { selected: seq![picked], locked_pid: Some(picked.pid), ..s })
    }
}

/// `n` one up, or one down, as far as it goes.
pub open spec fn stepped(n: u32, up: bool) -> u32 {
    if up {
        if n == u32::MAX {
            n
        } else {
            (n + 1) as u32
        }
    } else {
        if n == 0 {
            n
        } else {
            (n - 1) as u32
        }
    }
}

/// The hover is of the target, and not of this process itself.
pub open spec fn hover_fits(hover: PickedView, our_pid: i32, target_pid: Option<i32>) -> bool {
    hover.pid != our_pid && (target_pid matches Some(want) ==> hover.pid == want)
}

impl PickSession {
    /// A session that is off.
    pub fn new() -> (r: Self)
        ensures
            r@.wf(),
            r@ == (SessionView {
                active: false,
                starting: false,
                selected: Seq::empty(),
                locked_pid: None,
                woken: Set::empty(),
                target_pid: None,
                last_hover: None,
                cdp_port: None,
                target_win: None,
                widen_level: 0,
            }),
    {
        broadcast use vstd::std_specs::hash::group_hash_axioms;

        let r = PickSession {
            active: false,
            starting: false,
            selected: Vec::new(),
            locked_pid: None,
            woken_pids: HashSet::new(),
            target_pid: None,
            last_hover: None,
            cdp_port: None,
            target_win: None,
            widen_level: 0,
        };
        assert(picks(r.selected@) =~= Seq::empty());
        assert(r.woken_pids@ =~= Set::empty());
        r
    }

    /// Is pick mode on?
    pub fn is_active(&self) -> (r: bool)
        ensures
            r == self@.active,
    {
        self.active
    }

    /// The app that was frontmost when pick mode was started.
    pub fn target(&self) -> (r: Option<i32>)
        ensures
            r == self@.target_pid,
    {
        self.target_pid
    }

    /// What the hover probe of an Electron target needs: port, window, widening.
    pub fn probe_target(&self) -> (r: Option<(u16, ScreenRect, u32)>)
        ensures
            r == (match (self@.cdp_port, self@.target_win) {
                (Some(port), Some(win)) => Some((port, win, self@.widen_level)),
                _ => None,
            }),
    {
        match (self.cdp_port, self.target_win) {
            (Some(port), Some(win)) => Some((port, win, self.widen_level)),
            _ => None,
        }
    }

    /// The start hotkey: arm a fresh selection. A session that is on is stopped
    /// first; there is no toggling off.
    pub fn claim_start(&mut self) -> (r: StartClaim)
        ensures
            r == (if old(self)@.starting {
                StartClaim::Ignored
            } else {
                StartClaim::Start { stop_first: old(self)@.active }
            }),
            final(self)@ == (SessionView { starting: true, ..old(self)@ }),
    {
        if self.starting {
            StartClaim::Ignored
        } else {
            self.starting = true;
            StartClaim::Start { stop_first: self.active }
        }
    }

    /// The start has come to an end, one way or the other.
    pub fn start_settled(&mut self)
        ensures
            final(self)@ == (SessionView { starting: false, ..old(self)@ }),
    {
        self.starting = false;
    }

    /// The export hotkey.
    pub fn claim_export(&mut self) -> (r: ExportClaim)
        ensures
            ({
                let idle = !old(self)@.active && old(self)@.selected.len() == 0;
                &&& r == (if idle && !old(self)@.starting {
                    ExportClaim::AutoStart
                } else if idle {
                    ExportClaim::AlreadyStarting
                } else {
                    ExportClaim::Export { was_active: old(self)@.active }
                })
                &&& final(self)@ == (SessionView {
                    starting: old(self)@.starting || idle,
                    ..old(self)@
                })
            }),
    {
        let idle = !self.active && self.selected.len() == 0;
        if idle && !self.starting {
            self.starting = true;
            ExportClaim::AutoStart
        } else if idle {
            ExportClaim::AlreadyStarting
        } else {
            ExportClaim::Export { was_active: self.active }
        }
    }

    /// Turn pick mode on for a target, with nothing selected and nothing left of an
    /// earlier hover.
    pub fn begin(
        &mut self,
        target_pid: Option<i32>,
        cdp_port: Option<u16>,
        target_win: Option<ScreenRect>,
    )
        ensures
            final(self)@.wf(),
            final(self)@ == (SessionView {
                active: true,
                starting: old(self)@.starting,
                selected: Seq::empty(),
                locked_pid: None,
                woken: Set::empty(),
                target_pid,
                last_hover: None,
                cdp_port,
                target_win,
                widen_level: 0,
            }),
    {
        broadcast use vstd::std_specs::hash::group_hash_axioms;

        self.active = true;
        self.selected = Vec::new();
        self.locked_pid = None;
        self.woken_pids = HashSet::new();
        self.target_pid = target_pid;
        self.last_hover = None;
        self.cdp_port = cdp_port;
        self.target_win = target_win;
        self.widen_level = 0;
        assert(picks(self.selected@) =~= Seq::empty());
        assert(self.woken_pids@ =~= Set::empty());
    }

    /// Turn pick mode off and drop the selection.
    pub fn stop(&mut self)
        ensures
            final(self)@.wf(),
            final(self)@ == (SessionView {
                active: false,
                selected: Seq::empty(),
                locked_pid: None,
                ..old(self)@
            }),
    {
        self.active = false;
        self.selected = Vec::new();
        self.locked_pid = None;
        assert(picks(self.selected@) =~= Seq::empty());
    }

    /// Turn pick mode off while the relaunch dialog is up. The selection stays: the
    /// fallback needs it where the user cancels.
    pub fn suspend(&mut self)
        ensures
            final(self)@ == (SessionView { active: false, last_hover: None, ..old(self)@ }),
    {
        self.active = false;
        self.last_hover = None;
    }

    /// Get ready for the next pick after an export: pick mode stays as it is, the
    /// selection starts afresh.
    pub fn after_export(&mut self)
        ensures
            final(self)@.wf(),
            final(self)@ == (SessionView {
                selected: Seq::empty(),
                locked_pid: None,
                last_hover: None,
                ..old(self)@
            }),
    {
        self.selected = Vec::new();
        self.locked_pid = None;
        self.last_hover = None;
        assert(picks(self.selected@) =~= Seq::empty());
    }

    /// What is outlined from now on.
    pub fn set_hover(&mut self, hover: Option<PickedElement>)
        ensures
            final(self)@ == (SessionView { last_hover: pick_view(hover), ..old(self)@ }),
    {
        self.last_hover = hover;
    }

    /// What is outlined.
    pub fn hover(&self) -> (r: Option<PickedElement>)
        ensures
            pick_view(r) == self@.last_hover,
    {
        match &self.last_hover {
            Some(h) => Some(h.clone()),
            None => None,
        }
    }

    /// What a click takes without a fresh hit-test: what is outlined, where that is of
    /// the target and not of this process.
    pub fn cached_hover(&self, our_pid: i32) -> (r: Option<PickedElement>)
        ensures
            pick_view(r) == (match self@.last_hover {
                Some(h) if hover_fits(h, our_pid, self@.target_pid) => Some(h),
                _ => None,
            }),
    {
        match &self.last_hover {
            Some(h) => {
                if h.pid == our_pid {
                    return None;
                }
                if let Some(want) = self.target_pid {
                    if h.pid != want {
                        return None;
                    }
                }
                Some(h.clone())
            },
            None => None,
        }
    }

    /// Is the process's accessibility tree to be woken? Once per process and session.
    pub fn needs_wake(&mut self, pid: i32) -> (r: bool)
        ensures
            r == (pid > 0 && !old(self)@.woken.contains(pid)),
            final(self)@ == (if r {
                SessionView { woken: old(self)@.woken.insert(pid), ..old(self)@ }
            } else {
                old(self)@
            }),
    {
        broadcast use vstd::std_specs::hash::group_hash_axioms;

        if pid > 0 && !self.woken_pids.contains(&pid) {
            self.woken_pids.insert(pid);
            true
        } else {
            false
        }
    }

    /// The process's accessibility tree was woken.
    pub fn note_woken(&mut self, pid: i32)
        ensures
            final(self)@ == (SessionView { woken: old(self)@.woken.insert(pid), ..old(self)@ }),
    {
        broadcast use vstd::std_specs::hash::group_hash_axioms;

        self.woken_pids.insert(pid);
        assert(self.woken_pids@ =~= old(self).woken_pids@.insert(pid));
    }

    /// An arrow key: widen the hover of an Electron target, or walk the tree of
    /// another.
    pub fn widen(&mut self, up: bool) -> (r: WidenStep)
        ensures
            r == (if !old(self)@.active {
                WidenStep::NotActive
            } else if old(self)@.cdp_port is Some {
                WidenStep::Adjusted
            } else {
                WidenStep::WalkTree
            }),
            final(self)@ == (if r is Adjusted {
                SessionView {
                    widen_level: stepped(old(self)@.widen_level, up),
                    ..old(self)@
                }
            } else {
                old(self)@
            }),
    {
        if !self.active {
            return WidenStep::NotActive;
        }
        if self.cdp_port.is_none() {
            return WidenStep::WalkTree;
        }
        if up {
            if self.widen_level < u32::MAX {
                self.widen_level = self.widen_level + 1;
            }
        } else {
            if self.widen_level > 0 {
                self.widen_level = self.widen_level - 1;
            }
        }
        WidenStep::Adjusted
    }

    /// Commit a click. With shift the element joins the selection, which must be of
    /// its app; else it becomes the selection. Gives the crop files of the elements
    /// that were dropped.
    pub fn commit(&mut self, picked: PickedElement, shift: bool) -> (r: Result<
        Vec<String>,
        ClickError,
    >)
        requires
            old(self)@.wf(),
        ensures
            final(self)@.wf(),
            match committed(old(self)@, picked@, shift) {
                Err(e) => r == Err::<Vec<String>, ClickError>(e) && final(self)@ == old(self)@,
                Ok(s) => final(self)@ == s && (r matches Ok(dropped) && if shift {
                    dropped@.len() == 0
                } else {
                    texts(dropped@) == crops(old(self)@.selected)
                }),
            },
    {
        if !self.active {
            return Err(ClickError::NotActive);
        }
        let pid = picked.pid;
        let ghost before = *self;
        if shift {
            if let Some(locked) = self.locked_pid {
                if pid != locked {
                    return Err(ClickError::CrossApp(locked));
                }
            }
            self.selected.push(picked);
            if self.locked_pid.is_none() {
                self.locked_pid = Some(pid);
            }
            assert(picks(self.selected@) =~= picks(before.selected@).push(picked@));
            assert(self@.selected.last().pid == pid);
            return Ok(Vec::new());
        }
        let mut dropped: Vec<String> = Vec::new();
        assert(texts(dropped@) =~= crops(picks(self.selected@).take(0)));
        let n = self.selected.len();
        for i in 0..n
            invariant
                *self == before,
                n == self.selected@.len(),
                texts(dropped@) == crops(picks(self.selected@).take(i as int)),
        {
            let ghost t = picks(self.selected@).take(i + 1);
            assert(t.drop_last() =~= picks(self.selected@).take(i as int));
            assert(t.last() == self.selected@[i as int]@);
            if let Some(p) = &self.selected[i].crop_path {
                let ghost d = dropped@;
                dropped.push(copy_of(p.as_str()));
                assert(texts(dropped@) =~= texts(d).push(p@));
            }
        }
        assert(picks(before.selected@).take(n as int) =~= picks(before.selected@));
        self.selected = Vec::new();
        self.selected.push(picked);
        self.locked_pid = Some(pid);
        assert(picks(self.selected@) =~= seq![picked@]);
        assert(self@.selected[0].pid == pid);
        Ok(dropped)
    }

    /// The selection.
    pub fn selection(&self) -> (r: Vec<PickedElement>)
        ensures
            picks(r@) == self@.selected,
    {
        let mut out: Vec<PickedElement> = Vec::new();
        for i in 0..self.selected.len()
            invariant
                out@.len() == i,
                forall|k: int| 0 <= k < i ==> #[trigger] out@[k]@ == self.selected@[k]@,
        {
            out.push(self.selected[i].clone());
        }
        assert(picks(out@) =~= picks(self.selected@));
        out
    }
}

// ---------------------------------------------------------------------------
// What a click selects
// ---------------------------------------------------------------------------

/// A click in pick mode selects the element, whatever it is of. With shift it comes last
/// and all that was selected stays; without, it is all that is selected. Nothing else
/// changes.
pub proof fn a_click_selects_the_element(s: SessionView, picked: PickedView, shift: bool)
    requires
        s.wf(),
    ensures
        committed(s, picked, shift) matches Ok(t) ==> {
            &&& t.selected.len() > 0 && t.selected.last() == picked
            &&& shift ==> t.selected.drop_last() == s.selected
            &&& !shift ==> t.selected.len() == 1
            &&& t.wf()
            &&& t.locked_pid == Some(picked.pid)
            &&& t.active == s.active && t.starting == s.starting && t.woken == s.woken
            &&& t.target_pid == s.target_pid && t.last_hover == s.last_hover
            &&& t.cdp_port == s.cdp_port && t.target_win == s.target_win && t.widen_level
                == s.widen_level
        },
{
    if let Ok(t) = committed(s, picked, shift) {
        if shift {
            assert(t.selected.drop_last() =~= s.selected);
        }
    }
}

/// A click is refused exactly where pick mode is off, or where it would add an element of
/// another app to a selection; the refusal names the app of the selection.
pub proof fn only_elements_of_another_app_are_refused(
    s: SessionView,
    picked: PickedView,
    shift: bool,
    i: int,
)
    requires
        s.wf(),
        0 <= i < s.selected.len(),
    ensures
        !s.active ==> committed(s, picked, shift) == Err::<SessionView, ClickError>(
            ClickError::NotActive,
        ),
        s.active && shift && s.selected[i].pid != picked.pid ==> committed(s, picked, shift)
            == Err::<SessionView, ClickError>(ClickError::CrossApp(s.selected[i].pid)),
        s.active && (!shift || s.selected[i].pid == picked.pid) ==> committed(s, picked, shift) is Ok,
        occurs(
            ClickError::CrossApp(s.selected[i].pid).words(),
            decimal_int(s.selected[i].pid as int),
        ),
{
    broadcast use crate::text::group_parts;

}

/// The first click of a selection is refused only where pick mode is off.
pub proof fn a_first_click_is_taken(s: SessionView, picked: PickedView, shift: bool)
    requires
        s.wf(),
        s.selected.len() == 0,
    ensures
        committed(s, picked, shift) is Ok <==> s.active,
{
}

/// The pictures of a selection are those of its elements, each of them, and no other.
pub proof fn every_picture_is_listed(selected: Seq<PickedView>, i: int)
    requires
        0 <= i < selected.len(),
    ensures
        selected[i].crop_path matches Some(p) ==> crops(selected).contains(p),
        forall|k: int|
            0 <= k < crops(selected).len() ==> exists|j: int|
                0 <= j < selected.len() && (#[trigger] selected[j]).crop_path == Some(
                    #[trigger] crops(selected)[k],
                ),
        crops(selected).len() <= selected.len(),
    decreases selected.len(),
{
    let short = selected.drop_last();
    let (head, all) = (crops(short), crops(selected));
    assert(crops(Seq::<PickedView>::empty()).len() == 0);
    if short.len() == 0 {
        assert(short =~= Seq::empty());
    } else {
        every_picture_is_listed(
            short,
            if i < short.len() {
                i
            } else {
                0
            },
        );
    }
    let n = selected.len() - 1;
    assert(selected[n] == selected.last());
    if let Some(p) = selected.last().crop_path {
        assert(all[head.len() as int] == p);
    }
    if i < n {
        assert(selected[i] == short[i]);
        if let Some(p) = selected[i].crop_path {
            let k = choose|k: int| 0 <= k < head.len() && head[k] == p;
            assert(all[k] == p);
        }
    }
    assert forall|k: int| 0 <= k < all.len() implies exists|j: int|
        0 <= j < selected.len() && (#[trigger] selected[j]).crop_path == Some(
            #[trigger] all[k],
        ) by {
        if k < head.len() {
            assert(all[k] == head[k]);
            let j = choose|j: int|
                0 <= j < short.len() && (#[trigger] short[j]).crop_path == Some(head[k]);
            assert(selected[j] == short[j]);
        } else {
            assert(selected[n].crop_path == Some(all[k]));
        }
    }
}

/// Widening and narrowing undo each other, as far as there is room; neither goes below
/// nothing.
pub proof fn narrowing_undoes_widening(n: u32)
    ensures
        n < u32::MAX ==> stepped(n, true) > n && stepped(stepped(n, true), false) == n,
        n > 0 ==> stepped(n, false) < n && stepped(stepped(n, false), true) == n,
        stepped(0, false) == 0,
{
}

/// What is outlined is taken by a click only where it is of the app to pick in, and never
/// where it is of this one.
pub proof fn only_the_target_is_taken(hover: PickedView, our_pid: i32, target: i32)
    ensures
        hover_fits(hover, our_pid, Some(target)) <==> hover.pid == target && target != our_pid,
        hover_fits(hover, our_pid, None) <==> hover.pid != our_pid,
{
}

} // verus!
