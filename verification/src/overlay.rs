//! Overlay window layout: one window per monitor, and the titles by which
//! the X11 housekeeping finds each window.
use vstd::prelude::*;

use crate::text::{decimal_digits, decimal_of, push_chars, push_str, string_from_chars};

verus! {

/// Prefix of every overlay window title.
pub const TITLE_PREFIX: &'static str = "crosshair";

/// Title of the X11 overlay window `index` of process `pid`:
/// `crosshair-<pid>-<index>`, unique per window, not just per process.
pub open spec fn x11_title(pid: nat, index: nat) -> Seq<char> {
    TITLE_PREFIX@ + seq!['-'] + decimal_digits(pid) + seq!['-'] + decimal_digits(index)
}

/// The title of the X11 overlay window `index` of process `pid`.
pub fn x11_window_title(pid: u32, index: u64) -> (t: String)
    ensures
        t@ == x11_title(pid as nat, index as nat),
{
    let mut out: Vec<char> = Vec::new();
    push_str(&mut out, TITLE_PREFIX);
    out.push('-');
    let p = decimal_of(pid as u64);
    push_chars(&mut out, &p);
    out.push('-');
    let i = decimal_of(index);
    push_chars(&mut out, &i);
    string_from_chars(&out)
}

/// The windows to open for `monitors` monitors: one per monitor (by its
/// index), or a single window on no particular monitor when the monitor
/// list is empty (headless or broken display).
pub fn window_placements(monitors: usize) -> (w: Vec<Option<usize>>)
    ensures
        if monitors == 0 {
            w@ == seq![None::<usize>]
        } else {
            w@.len() == monitors && forall|i: int| 0 <= i < monitors ==> #[trigger] w@[i] == Some(
                i as usize,
            )
        },
{
    let mut w: Vec<Option<usize>> = Vec::new();
    if monitors == 0 {
        w.push(None);
        assert(w@ =~= seq![None::<usize>]);
        return w;
    }
    let mut i: usize = 0;
    while i < monitors
        invariant
            i <= monitors,
            w@.len() == i,
            forall|k: int| 0 <= k < i ==> #[trigger] w@[k] == Some(k as usize),
        decreases monitors - i,
    {
        w.push(Some(i));
        i = i + 1;
    }
    w
}

} // verus!
