//! From a click to a picked element: which clicks count, which app is meant, and what
//! is kept of a pick that accessibility could not resolve.

use crate::capture::{PickedElement, PickedView, ScreenPoint, ScreenRect};
use crate::text::{
    copy_of, decimal, decimal_int, decimal_int_is_injective, decimal_int_text, decimal_text, ends,
    numbered_is_injective,
};
use crate::windows_list::WindowInfo;
use vstd::prelude::*;

verus! {

// ---------------------------------------------------------------------------
// The target app
// ---------------------------------------------------------------------------

/// `pid` where it is of another process.
pub open spec fn other(pid: Option<i32>, our_pid: i32) -> Option<i32> {
    match pid {
        Some(p) if p != our_pid => Some(p),
        _ => None,
    }
}

fn of_other(pid: Option<i32>, our_pid: i32) -> (r: Option<i32>)
    ensures
        r == other(pid, our_pid),
{
    match pid {
        Some(p) => {
            if p != our_pid {
                Some(p)
            } else {
                None
            }
        },
        None => None,
    }
}

/// The app to pick in: the one that the launch services have in front, else the one
/// that has the accessibility focus, where it is not this process; else the one that
/// was in front last.
pub open spec fn chosen(
    launch_services: Option<i32>,
    focused: Option<i32>,
    last_other: Option<i32>,
    our_pid: i32,
) -> Option<i32> {
    if other(launch_services, our_pid) is Some {
        launch_services
    } else if other(focused, our_pid) is Some {
        focused
    } else {
        last_other
    }
}

/// The app to pick in.
pub fn choose_target(
    launch_services: Option<i32>,
    focused: Option<i32>,
    last_other: Option<i32>,
    our_pid: i32,
) -> (r: Option<i32>)
    ensures
        r == chosen(launch_services, focused, last_other, our_pid),
{
    if of_other(launch_services, our_pid).is_some() {
        return launch_services;
    }
    if of_other(focused, our_pid).is_some() {
        return focused;
    }
    last_other
}

/// Is the frontmost process one to remember as the last foreign app?
pub fn is_foreign(pid: i32, our_pid: i32) -> (r: bool)
    ensures
        r == (pid != our_pid && pid > 0),
{
    pid != our_pid && pid > 0
}

/// How the target is shown: by name, or by process.
pub open spec fn target_text(name: Option<String>, pid: Option<i32>) -> Seq<char> {
    match name {
        Some(n) => n@,
        None => "pid "@ + decimal_int(
            match pid {
                Some(p) => p as int,
                None => -1,
            },
        ),
    }
}

/// How the target is shown: by name, or by process.
pub fn target_label(name: &Option<String>, pid: Option<i32>) -> (r: String)
    ensures
        r@ == target_text(*name, pid),
{
    match name {
        Some(n) => copy_of(n.as_str()),
        None => {
            let mut out = copy_of("pid ");
            let shown: i64 = match pid {
                Some(p) => p as i64,
                None => -1,
            };
            out.push_str(decimal_int_text(shown).as_str());
            out
        },
    }
}

/// The largest window of a process, at least one point wide and high; the last of
/// equally large ones.
pub open spec fn largest(windows: Seq<WindowInfo>, pid: i32) -> Option<ScreenRect>
    decreases windows.len(),
{
    if windows.len() == 0 {
        None
    } else {
        let head = largest(windows.drop_last(), pid);
        let w = windows.last();
        if w.pid == pid && w.bounds.w >= 64 && w.bounds.h >= 64 {
            match head {
                Some(b) if w.bounds.area_units() < b.area_units() => head,
                _ => Some(w.bounds),
            }
        } else {
            head
        }
    }
}

/// The largest on-screen window of a process: its origin is that of the page for the
/// hover probe.
pub fn largest_window_bounds_for_pid(windows: &Vec<WindowInfo>, pid: i32) -> (r: Option<ScreenRect>)
    ensures
        r == largest(windows@, pid),
{
    let mut best: Option<ScreenRect> = None;
    for i in 0..windows.len()
        invariant
            best == largest(windows@.take(i as int), pid),
    {
        assert(windows@.take(i + 1).drop_last() =~= windows@.take(i as int));
        let w = &windows[i];
        if w.pid == pid && w.bounds.is_valid() {
            let keep = match &best {
                Some(b) => w.bounds.area() < b.area(),
                None => false,
            };
            if !keep {
                best = Some(w.bounds);
            }
        }
    }
    assert(windows@.take(windows@.len() as int) =~= windows@);
    best
}

// ---------------------------------------------------------------------------
// The click
// ---------------------------------------------------------------------------

/// The system sends clicks at the very origin on focus changes and app relaunches:
/// no user made them.
pub open spec fn synthetic(p: ScreenPoint) -> bool {
    -64 < p.x < 64 && -64 < p.y < 64
}

/// Is it a click that no user made?
pub fn is_synthetic_click(p: ScreenPoint) -> (r: bool)
    ensures
        r == synthetic(p),
{
    -64 < p.x && p.x < 64 && -64 < p.y && p.y < 64
}

/// Is the hit of the target app? The position API tests globally, so that a hit in
/// one app's tree can be of another process.
pub fn accepts_hit(pid: Option<i32>, target_pid: Option<i32>, our_pid: i32) -> (r: bool)
    ensures
        r == hit_accepted(pid, target_pid, our_pid),
{
    let owner: i32 = match pid {
        Some(p) => p,
        None => -1,
    };
    if let Some(want) = target_pid {
        if owner != want {
            return false;
        }
    }
    owner != our_pid
}

/// The hit is of the target app, where there is one, and never of this process.
pub open spec fn hit_accepted(pid: Option<i32>, target_pid: Option<i32>, our_pid: i32) -> bool {
    let owner = match pid {
        Some(p) => p,
        None => -1i32,
    };
    (target_pid matches Some(want) ==> owner == want) && owner != our_pid
}

/// Is the pick worth another try after waking the app's accessibility tree?
pub fn retry_due(picked: &PickedElement) -> (r: bool)
    ensures
        r == (picked.ax_shallow && picked.pid > 0),
{
    picked.ax_shallow && picked.pid > 0
}

/// The pick after another try: the new one where it is no longer shallow.
pub fn after_retry(picked: PickedElement, again: Option<PickedElement>) -> (r: PickedElement)
    ensures
        r == (match again {
            Some(p) if !p.ax_shallow => p,
            _ => picked,
        }),
{
    match again {
        Some(p) => {
            if p.ax_shallow {
                picked
            } else {
                p
            }
        },
        None => picked,
    }
}

/// The box around a click that stands in for an element that could not be resolved:
/// 180 by 48 points.
pub open spec fn click_box(p: ScreenPoint) -> ScreenRect {
    ScreenRect { x: (p.x - 5760) as i64, y: (p.y - 1536) as i64, w: 11520, h: 3072 }
}

/// Anchor a pick to the true click. Where it is shallow, its misleading bounds (the
/// menu bar, say) give way to a box around the click.
pub fn anchor_click(picked: PickedElement, point: ScreenPoint) -> (r: PickedElement)
    requires
        point.wf(),
    ensures
        r@ == (PickedView {
            click: Some(point),
            bounds: if picked.ax_shallow {
                click_box(point)
            } else {
                picked.bounds
            },
            ..picked@
        }),
        r.click == Some(point),
        !picked.ax_shallow ==> r.bounds == picked.bounds,
        picked.ax_shallow ==> r.bounds.covers(point),
        r.pid == picked.pid && r.window_bounds == picked.window_bounds,
{
    let mut out = picked;
    out.click = Some(point);
    if out.ax_shallow {
        out.bounds = ScreenRect { x: point.x - 5760, y: point.y - 1536, w: 11520, h: 3072 };
    }
    out
}

/// The middle of the box around a click is the click, so that what looks at the
/// middle of the bounds looks where the user clicked.
pub proof fn click_box_is_centered(p: ScreenPoint)
    requires
        p.wf(),
    ensures
        click_box(p).x + click_box(p).w as int / 2 == p.x,
        click_box(p).y + click_box(p).h as int / 2 == p.y,
        click_box(p).covers(p),
{
}

/// The first window from the `i`th on that is of the process, covers the point where
/// `covering` says so, and is on the normal layer where `normal` says so.
pub open spec fn first_window(
    windows: Seq<WindowInfo>,
    pid: i32,
    p: ScreenPoint,
    normal: bool,
    covering: bool,
    i: int,
) -> Option<int>
    decreases windows.len() - i,
{
    if i < 0 || i >= windows.len() {
        None
    } else if windows[i].pid == pid && (normal ==> windows[i].layer == 0) && (covering
        ==> windows[i].bounds.covers(p)) {
        Some(i)
    } else {
        first_window(windows, pid, p, normal, covering, i + 1)
    }
}

fn find_window(
    windows: &Vec<WindowInfo>,
    pid: i32,
    p: ScreenPoint,
    normal: bool,
    covering: bool,
) -> (r: Option<usize>)
    ensures
        match r {
            Some(i) => i < windows@.len() && first_window(windows@, pid, p, normal, covering, 0)
                == Some(i as int),
            None => first_window(windows@, pid, p, normal, covering, 0) is None,
        },
{
    for i in 0..windows.len()
        invariant
            first_window(windows@, pid, p, normal, covering, 0) == first_window(
                windows@,
                pid,
                p,
                normal,
                covering,
                i as int,
            ),
    {
        let w = &windows[i];
        if w.pid == pid && (!normal || w.layer == 0) && (!covering || w.bounds.contains(p)) {
            return Some(i);
        }
    }
    None
}

/// The window that an element with its middle at `p` is in: one on the normal layer
/// that covers it; else one on any layer that does (open menus, dropdowns and sheets
/// are on higher layers); else any on the normal layer; else any.
pub open spec fn owner_place(windows: Seq<WindowInfo>, pid: i32, p: ScreenPoint) -> Option<int> {
    let a = first_window(windows, pid, p, true, true, 0);
    let b = first_window(windows, pid, p, false, true, 0);
    let c = first_window(windows, pid, p, true, false, 0);
    if a is Some {
        a
    } else if b is Some {
        b
    } else if c is Some {
        c
    } else {
        first_window(windows, pid, p, false, false, 0)
    }
}

/// The window that an element is in: its id and bounds.
pub fn owning_window(windows: &Vec<WindowInfo>, pid: i32, elem: ScreenRect) -> (r: Option<
    (u32, ScreenRect),
>)
    requires
        elem.wf(),
    ensures
        ({
            let center = ScreenPoint {
                x: (elem.x + elem.w as int / 2) as i64,
                y: (elem.y + elem.h as int / 2) as i64,
            };
            match owner_place(windows@, pid, center) {
                Some(i) => r == Some((windows@[i].window_id, windows@[i].bounds)),
                None => r is None,
            }
        }),
{
    let center = elem.center();
    let mut place = find_window(windows, pid, center, true, true);
    if place.is_none() {
        place = find_window(windows, pid, center, false, true);
    }
    if place.is_none() {
        place = find_window(windows, pid, center, true, false);
    }
    if place.is_none() {
        place = find_window(windows, pid, center, false, false);
    }
    match place {
        Some(i) => Some((windows[i].window_id, windows[i].bounds)),
        None => None,
    }
}

/// The file name of a crop. Time and number keep it unique across restarts and within
/// a run.
pub open spec fn crop_words(pid: i32, millis: u64, seq: u64) -> Seq<char> {
    "pick-crop-"@ + decimal_int(pid as int) + "-"@ + decimal(millis as nat) + "-"@ + decimal(
        seq as nat,
    ) + ".png"@
}

/// The file name of a crop. Time and number keep it unique across restarts and within
/// a run.
pub fn crop_name(pid: i32, millis: u64, seq: u64) -> (r: String)
    ensures
        r@ == crop_words(pid, millis, seq),
{
    let mut out = copy_of("pick-crop-");
    out.push_str(decimal_int_text(pid as i64).as_str());
    out.push_str("-");
    out.push_str(decimal_text(millis).as_str());
    out.push_str("-");
    out.push_str(decimal_text(seq).as_str());
    out.push_str(".png");
    out
}

/// Two crops share a file name only where process, time and number are all the same.
pub proof fn crop_names_are_distinct(
    pid: i32,
    millis: u64,
    seq: u64,
    other_pid: i32,
    other_millis: u64,
    other_seq: u64,
)
    requires
        crop_words(pid, millis, seq) == crop_words(other_pid, other_millis, other_seq),
    ensures
        pid == other_pid,
        millis == other_millis,
        seq == other_seq,
{
    let p1 = "pick-crop-"@ + decimal_int(pid as int);
    let p2 = "pick-crop-"@ + decimal_int(other_pid as int);
    let m1 = p1 + "-"@ + decimal(millis as nat);
    let m2 = p2 + "-"@ + decimal(other_millis as nat);
    let s1 = m1 + "-"@ + decimal(seq as nat);
    let s2 = m2 + "-"@ + decimal(other_seq as nat);
    assert((s1 + ".png"@).take(s1.len() as int) =~= s1);
    assert((s2 + ".png"@).take(s2.len() as int) =~= s2);
    assert((s1 + ".png"@).len() == s1.len() + ".png"@.len());
    assert((s2 + ".png"@).len() == s2.len() + ".png"@.len());
    assert(s1 == s2);
    numbered_is_injective(m1, seq as nat, m2, other_seq as nat);
    assert(m1 == m2);
    numbered_is_injective(p1, millis as nat, p2, other_millis as nat);
    assert(p1 == p2);
    assert(p1.skip("pick-crop-"@.len() as int) =~= decimal_int(pid as int));
    assert(p2.skip("pick-crop-"@.len() as int) =~= decimal_int(other_pid as int));
    decimal_int_is_injective(pid as int, other_pid as int);
}

/// The answer to a click that selected something.
pub fn selected_text(count: usize, role: &str) -> (r: String)
    ensures
        r@ == "selected "@ + decimal(count as nat) + " ("@ + role@ + ")"@,
{
    let mut out = copy_of("selected ");
    out.push_str(decimal_text(count as u64).as_str());
    out.push_str(" (");
    out.push_str(role);
    out.push_str(")");
    out
}

// ---------------------------------------------------------------------------
// What a click is of
// ---------------------------------------------------------------------------

/// The app to pick in is never this one, but for what is remembered: the one that the
/// launch services have in front comes before the one with the focus, and what was in
/// front last counts only where both are this one or none.
pub proof fn the_app_in_front_is_chosen(
    launch_services: Option<i32>,
    focused: Option<i32>,
    last_other: Option<i32>,
    our_pid: i32,
)
    ensures
        ({
            let c = chosen(launch_services, focused, last_other, our_pid);
            &&& launch_services matches Some(p) ==> p != our_pid ==> c == Some(p)
            &&& launch_services is None || launch_services == Some(our_pid) ==> (
            focused matches Some(p) ==> p != our_pid ==> c == Some(p))
            &&& (launch_services is None || launch_services == Some(our_pid)) && (focused is None
                || focused == Some(our_pid)) ==> c == last_other
        }),
{
}

/// The largest window of a process is one of its windows, at least a point wide and high,
/// and none of them is larger; where none is given, it has none.
pub proof fn the_largest_window_is_largest(windows: Seq<WindowInfo>, pid: i32)
    ensures
        match largest(windows, pid) {
            Some(b) => {
                &&& b.w >= 64 && b.h >= 64
                &&& exists|i: int|
                    0 <= i < windows.len() && (#[trigger] windows[i]).pid == pid
                        && windows[i].bounds == b
                &&& forall|i: int|
                    0 <= i < windows.len() && (#[trigger] windows[i]).pid == pid
                        && windows[i].bounds.w >= 64 && windows[i].bounds.h >= 64
                        ==> windows[i].bounds.w * windows[i].bounds.h <= b.w * b.h
            },
            None => forall|i: int|
                0 <= i < windows.len() && (#[trigger] windows[i]).pid == pid
                    ==> windows[i].bounds.w < 64 || windows[i].bounds.h < 64,
        },
    decreases windows.len(),
{
    if windows.len() > 0 {
        let short = windows.drop_last();
        the_largest_window_is_largest(short, pid);
        assert forall|i: int| 0 <= i < short.len() implies #[trigger] windows[i] == short[i] by {}
        let n = windows.len() - 1;
        assert(windows[n] == windows.last());
        if let Some(b) = largest(short, pid) {
            let i = choose|i: int|
                0 <= i < short.len() && (#[trigger] short[i]).pid == pid && short[i].bounds == b;
            assert(windows[i] == short[i]);
        }
    }
}

/// A click that no user made is within a point of the screen's very corner, and every
/// such click counts as one.
pub proof fn clicks_in_the_corner_are_nobodys(p: ScreenPoint)
    ensures
        p.x >= 64 || p.y >= 64 || p.x <= -64 || p.y <= -64 ==> !synthetic(p),
        p.x == 0 && p.y == 0 ==> synthetic(p),
        synthetic(p) ==> synthetic(ScreenPoint { x: p.y, y: p.x }),
        -63 <= p.x <= 63 && -63 <= p.y <= 63 ==> synthetic(p),
{
}

/// A hit of this process is never taken, nor one of another app than the target; a hit of
/// the target is, and without a target one of any other app.
pub proof fn hits_of_the_target_are_taken(pid: i32, target: Option<i32>, our_pid: i32)
    ensures
        !hit_accepted(Some(our_pid), target, our_pid),
        target matches Some(t) ==> pid != t ==> !hit_accepted(Some(pid), target, our_pid),
        pid != our_pid && (target is None || target == Some(pid)) ==> hit_accepted(
            Some(pid),
            target,
            our_pid,
        ),
{
}

/// A box stands around a click: 180 by 48 points, as far to the left of it as to the
/// right, and as far above as below.
pub proof fn a_box_stands_around_the_click(p: ScreenPoint)
    requires
        p.wf(),
    ensures
        click_box(p).w == 180 * 64,
        click_box(p).h == 48 * 64,
        p.x - click_box(p).x == click_box(p).x + click_box(p).w - p.x,
        p.y - click_box(p).y == click_box(p).y + click_box(p).h - p.y,
{
}

proof fn first_window_is_first(
    windows: Seq<WindowInfo>,
    pid: i32,
    p: ScreenPoint,
    normal: bool,
    covering: bool,
    i: int,
)
    requires
        0 <= i,
    ensures
        match first_window(windows, pid, p, normal, covering, i) {
            Some(k) => i <= k < windows.len() && fits(windows[k], pid, p, normal, covering)
                && forall|j: int|
                i <= j < k ==> !fits(#[trigger] windows[j], pid, p, normal, covering),
            None => forall|j: int|
                i <= j < windows.len() ==> !fits(#[trigger] windows[j], pid, p, normal, covering),
        },
    decreases windows.len() - i,
{
    if i < windows.len() && !fits(windows[i], pid, p, normal, covering) {
        first_window_is_first(windows, pid, p, normal, covering, i + 1);
    }
}

/// A window is of a process, and on the normal layer and under a point where that counts.
pub open spec fn fits(
    w: WindowInfo,
    pid: i32,
    p: ScreenPoint,
    normal: bool,
    covering: bool,
) -> bool {
    &&& w.pid == pid
    &&& normal ==> w.layer == 0
    &&& covering ==> w.bounds.x <= p.x <= w.bounds.x + w.bounds.w && w.bounds.y <= p.y
        <= w.bounds.y + w.bounds.h
}

/// The window that an element is in is of its own process. One under the element comes
/// before any that is not, and among those one on the normal layer before the others; of
/// equally good ones the frontmost is taken. None is given only where the process has none.
pub proof fn the_owning_window_is_the_best_one(windows: Seq<WindowInfo>, pid: i32, p: ScreenPoint, i: int)
    requires
        0 <= i < windows.len(),
    ensures
        match owner_place(windows, pid, p) {
            Some(k) => {
                &&& 0 <= k < windows.len()
                &&& windows[k].pid == pid
                &&& fits(windows[i], pid, p, true, true) ==> fits(windows[k], pid, p, true, true)
                    && k <= i
                &&& fits(windows[i], pid, p, false, true) ==> fits(windows[k], pid, p, false, true)
                &&& fits(windows[i], pid, p, false, true) && !fits(windows[k], pid, p, true, true)
                    ==> k <= i
                &&& fits(windows[i], pid, p, true, false) && !fits(windows[k], pid, p, false, true)
                    ==> fits(windows[k], pid, p, true, false) && k <= i
            },
            None => windows[i].pid != pid,
        },
{
    first_window_is_first(windows, pid, p, true, true, 0);
    first_window_is_first(windows, pid, p, false, true, 0);
    first_window_is_first(windows, pid, p, true, false, 0);
    first_window_is_first(windows, pid, p, false, false, 0);
    assert(windows[i].pid == pid ==> fits(windows[i], pid, p, false, false));
}

/// An app is shown by its name, and by its process where it has none.
pub proof fn an_app_is_shown_by_name(name: Option<String>, pid: i32)
    ensures
        name matches Some(n) ==> target_text(name, Some(pid)) == n@,
        name is None ==> ends(target_text(name, Some(pid)), decimal_int(pid as int)),
{
    let shown = "pid "@ + decimal_int(pid as int);
    let n = decimal_int(pid as int);
    assert(shown.subrange(shown.len() - n.len(), shown.len() as int) =~= n);
}

} // verus!
