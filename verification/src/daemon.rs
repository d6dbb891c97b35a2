//! The readiness report a detached daemon sends back to the process that
//! launched it, so that startup errors still reach the terminal.
use vstd::prelude::*;

use crate::text::{chars_of, copy_range, push_str, string_from_chars};

verus! {

/// The report of a daemon that started: `R`.
pub open spec fn ready_text() -> Seq<char> {
    seq!['R']
}

/// The report of a daemon that failed to start with `msg`: `E:` then the message.
pub open spec fn failure_text(msg: Seq<char>) -> Seq<char> {
    seq!['E', ':'] + msg
}

/// What the waiting launcher learns from the report it read.
#[derive(Debug, PartialEq, Eq)]
pub enum Readiness {
    /// The daemon is up; exit 0.
    Ready,
    /// The daemon failed to start with this message; print it and exit 1.
    Failed(String),
    /// No report (the daemon exited during startup, or timed out); exit 1.
    Silent,
}

/// The report of a daemon that started.
pub fn ready_report() -> (s: String)
    ensures
        s@ == ready_text(),
{
    let mut out: Vec<char> = Vec::new();
    out.push('R');
    string_from_chars(&out)
}

/// The report of a daemon that failed to start with `msg`.
pub fn failure_report(msg: &str) -> (s: String)
    ensures
        s@ == failure_text(msg@),
{
    let mut out: Vec<char> = Vec::new();
    out.push('E');
    out.push(':');
    push_str(&mut out, msg);
    string_from_chars(&out)
}

/// Read a report: it starts with `R` when the daemon is up; `E:` carries a
/// startup error; anything else (nothing at all included) means the daemon
/// died before reporting.
pub fn readiness(report: &str) -> (r: Readiness)
    ensures
        if report@.len() > 0 && report@[0] == 'R' {
            r is Ready
        } else if report@.len() >= 2 && report@[0] == 'E' && report@[1] == ':' {
            r matches Readiness::Failed(m) && m@ == report@.skip(2)
        } else {
            r is Silent
        },
{
    let c = chars_of(report);
    if c.len() > 0 && c[0] == 'R' {
        Readiness::Ready
    } else if c.len() >= 2 && c[0] == 'E' && c[1] == ':' {
        let rest = copy_range(&c, 2, c.len());
        Readiness::Failed(string_from_chars(&rest))
    } else {
        Readiness::Silent
    }
}

/// Exit code of the launcher for a report.
pub fn launcher_exit_code(r: &Readiness) -> (code: i32)
    ensures
        code == (if *r is Ready {
            0i32
        } else {
            1i32
        }),
{
    match r {
        Readiness::Ready => 0,
        _ => 1,
    }
}

/// A failure report reads back as that failure, and a ready report as ready.
pub proof fn law_report_round_trip(msg: Seq<char>)
    ensures
        failure_text(msg).skip(2) == msg,
        failure_text(msg)[0] == 'E' && failure_text(msg)[1] == ':',
        ready_text()[0] == 'R',
{
    assert(failure_text(msg).skip(2) =~= msg);
}

} // verus!
