//! The windows on screen, front to back.

use crate::capture::ScreenRect;
use vstd::prelude::*;

verus! {

/// One on-screen window.
#[derive(Debug)]
pub struct WindowInfo {
    pub pid: i32,
    pub app_name: String,
    pub title: String,
    pub bounds: ScreenRect,
    pub window_id: u32,
    pub layer: i32,
}

/// The windows that `pid` owns, in order; all of them where it is `None`.
pub open spec fn owned(windows: Seq<WindowInfo>, pid: Option<i32>) -> Seq<WindowInfo>
    decreases windows.len(),
{
    if windows.len() == 0 {
        Seq::empty()
    } else {
        let head = owned(windows.drop_last(), pid);
        if pid is None || windows.last().pid == pid->0 {
            head.push(windows.last())
        } else {
            head
        }
    }
}

/// The windows that `pid` owns, in order; all of them where it is `None`.
pub fn windows_of(windows: Vec<WindowInfo>, pid: Option<i32>) -> (r: Vec<WindowInfo>)
    ensures
        r@ == owned(windows@, pid),
{
    let mut out: Vec<WindowInfo> = Vec::new();
    assert(windows@.take(0) =~= Seq::empty());
    for w in it: windows
        invariant
            it.seq() == windows@,
            out@ == owned(windows@.take(it.index()), pid),
    {
        assert(windows@.take(it.index() + 1).drop_last() =~= windows@.take(it.index()));
        let keep = match pid {
            Some(p) => w.pid == p,
            None => true,
        };
        if keep {
            out.push(w);
        }
    }
    assert(windows@.take(windows@.len() as int) =~= windows@);
    out
}

/// Filtering by process keeps exactly the windows of that process.
pub proof fn owned_windows_belong(windows: Seq<WindowInfo>, pid: i32)
    ensures
        forall|i: int|
            0 <= i < owned(windows, Some(pid)).len() ==> (#[trigger] owned(
                windows,
                Some(pid),
            )[i]).pid == pid,
        forall|i: int|
            0 <= i < windows.len() && (#[trigger] windows[i]).pid == pid ==> owned(
                windows,
                Some(pid),
            ).contains(windows[i]),
    decreases windows.len(),
{
    if windows.len() > 0 {
        owned_windows_belong(windows.drop_last(), pid);
        let head = owned(windows.drop_last(), Some(pid));
        let all = owned(windows, Some(pid));
        assert forall|i: int| 0 <= i < windows.len() && (#[trigger] windows[i]).pid
            == pid implies all.contains(windows[i]) by {
            if i < windows.len() - 1 {
                assert(windows.drop_last()[i] == windows[i]);
                let k = choose|k: int| 0 <= k < head.len() && head[k] == windows[i];
                assert(all[k] == windows[i]);
            } else {
                assert(all.last() == windows[i]);
            }
        }
    }
}

/// Filtering by process keeps the order: the windows of two lists one after the other are
/// those of the first and then those of the second. Without a process all are kept.
pub proof fn owned_windows_keep_their_order(a: Seq<WindowInfo>, b: Seq<WindowInfo>, pid: Option<i32>)
    ensures
        owned(a + b, pid) == owned(a, pid) + owned(b, pid),
        owned(a, None) == a,
    decreases a.len() + b.len(),
{
    if b.len() == 0 {
        assert(a + b =~= a);
        assert(owned(a, pid) + owned(b, pid) =~= owned(a, pid));
        if a.len() > 0 {
            owned_windows_keep_their_order(a.drop_last(), b, None);
            assert(owned(a.drop_last(), None).push(a.last()) =~= a);
        } else {
            assert(owned(a, None) =~= a);
        }
    } else {
        owned_windows_keep_their_order(a, b.drop_last(), pid);
        assert((a + b).drop_last() =~= a + b.drop_last());
        assert(owned(a + b, pid) =~= owned(a, pid) + owned(b, pid));
    }
}

} // verus!
