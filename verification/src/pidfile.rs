//! Where the PID and log files live, what a PID file holds, and how a
//! running instance is found and stopped. The file system and signal work
//! is done by the caller; this module decides.
use vstd::prelude::*;

use crate::text::{
    chars_of, count_digits, decimal_digits, decimal_of, decimal_value, is_digit, join_path,
    lemma_decimal_digits, lemma_digit_run_digits, lemma_trim_digits_newline, parse_decimal,
    path_join, push_chars, same_path, same_path_of, string_from_chars, trim, trim_of,
};

verus! {

/// File name of the PID file.
pub const PID_FILE_NAME: &'static str = "crosshair.pid";

/// File name of the log file, next to the PID file.
pub const LOG_FILE_NAME: &'static str = "crosshair.log";

/// Prefix of the private per-user directory in /tmp.
pub const PRIVATE_DIR_PREFIX: &'static str = "/tmp/crosshair-";

/// Prefix of the conventional per-user runtime directory.
pub const USER_RUNTIME_PREFIX: &'static str = "/run/user/";

/// Most liveness checks made after SIGTERM when stopping (2 s at 50 ms).
pub const STOP_POLLS: u32 = 40;

/// Path of the PID file in the runtime directory `dir`, resolved
/// identically by --start and --stop.
pub fn path(dir: &str) -> (p: String)
    ensures
        p@ == path_join(dir@, PID_FILE_NAME@),
{
    join_path(dir, PID_FILE_NAME)
}

/// Path of the log file in the runtime directory `dir`, next to the PID file.
pub fn log_path(dir: &str) -> (p: String)
    ensures
        p@ == path_join(dir@, LOG_FILE_NAME@),
{
    join_path(dir, LOG_FILE_NAME)
}

/// `prefix` followed by the decimal digits of `uid`.
fn with_uid(prefix: &str, uid: u32) -> (p: String)
    ensures
        p@ == prefix@ + decimal_digits(uid as nat),
{
    let mut out = chars_of(prefix);
    let digits = decimal_of(uid as u64);
    push_chars(&mut out, &digits);
    string_from_chars(&out)
}

/// The private per-user directory in /tmp: `/tmp/crosshair-<uid>`.
pub fn private_dir(uid: u32) -> (p: String)
    ensures
        p@ == PRIVATE_DIR_PREFIX@ + decimal_digits(uid as nat),
{
    with_uid(PRIVATE_DIR_PREFIX, uid)
}

/// The conventional per-user runtime directory: `/run/user/<uid>`.
pub fn user_runtime_dir(uid: u32) -> (p: String)
    ensures
        p@ == USER_RUNTIME_PREFIX@ + decimal_digits(uid as nat),
{
    with_uid(USER_RUNTIME_PREFIX, uid)
}

/// Where the PID and log files go.
pub enum RuntimeDir {
    /// `$XDG_RUNTIME_DIR`, used as it is (a mode-0700 per-user directory).
    Given(String),
    /// The private per-user directory in /tmp, to be created with mode
    /// 0700 or, when it exists, checked with `is_private_dir`.
    Private(String),
}

/// Directory for the PID and log files: `$XDG_RUNTIME_DIR` when set,
/// otherwise a private per-user directory in /tmp (/tmp is world-writable,
/// so bare file paths there could be pre-created or symlinked by others).
pub fn runtime_dir(xdg_runtime_dir: Option<String>, uid: u32) -> (d: RuntimeDir)
    ensures
        match xdg_runtime_dir {
            Some(x) => d == RuntimeDir::Given(x),
            None => d matches RuntimeDir::Private(p) && p@ == PRIVATE_DIR_PREFIX@ + decimal_digits(
                uid as nat,
            ),
        },
{
    match xdg_runtime_dir {
        Some(x) => RuntimeDir::Given(x),
        None => RuntimeDir::Private(private_dir(uid)),
    }
}

/// Whether an existing private directory may be used: a real directory
/// (not a symlink), owned by `uid`, with no group or other permission bits.
pub fn is_private_dir(is_dir: bool, owner: u32, uid: u32, mode: u32) -> (ok: bool)
    ensures
        ok == (is_dir && owner == uid && mode & 0o077 == 0),
{
    is_dir && owner == uid && mode & 0o077 == 0
}

/// Every directory where a daemon could have put its PID file: the runtime
/// directory (`$XDG_RUNTIME_DIR`, or `/run/user/<uid>` when it is unset, as
/// after cron, ssh or systemd-run), then the private directory in /tmp,
/// which is left out when it is the same path as the first.
pub fn candidate_dirs(xdg_runtime_dir: Option<String>, uid: u32) -> (dirs: Vec<String>)
    ensures
        ({
            let first = match xdg_runtime_dir {
                Some(x) => x@,
                None => USER_RUNTIME_PREFIX@ + decimal_digits(uid as nat),
            };
            let second = PRIVATE_DIR_PREFIX@ + decimal_digits(uid as nat);
            &&& dirs@.len() >= 1
            &&& dirs@[0]@ == first
            &&& if same_path(first, second) {
                dirs@.len() == 1
            } else {
                dirs@.len() == 2 && dirs@[1]@ == second
            }
        }),
{
    let first = match xdg_runtime_dir {
        Some(x) => x,
        None => user_runtime_dir(uid),
    };
    let second = private_dir(uid);
    let same = same_path_of(first.as_str(), second.as_str());
    let mut dirs: Vec<String> = Vec::new();
    dirs.push(first);
    if !same {
        dirs.push(second);
    }
    dirs
}

/// The PID a PID file's text names, when it names a live-able process:
/// the trimmed text as an `i32` (`str::parse`, an optional `+` then
/// decimal digits), positive. Zero and negative values are signal
/// specials (`kill(0)` is our process group, `kill(-1)` every process we
/// may signal) and never come out.
pub open spec fn pid_value(text: Seq<char>) -> Option<i32> {
    let d = unsigned_part(trim(text));
    if d.len() > 0 && all_digits(d) && 0 < decimal_value(d) <= i32::MAX {
        Some(decimal_value(d) as i32)
    } else {
        None
    }
}

/// `t` without one leading `+` sign.
pub open spec fn unsigned_part(t: Seq<char>) -> Seq<char> {
    if t.len() > 0 && t[0] == '+' {
        t.drop_first()
    } else {
        t
    }
}

/// Every character of `d` is an ASCII digit.
pub open spec fn all_digits(d: Seq<char>) -> bool {
    forall|i: int| 0 <= i < d.len() ==> is_digit(#[trigger] d[i])
}

/// The PID recorded in a PID file's text, or `None` when it is malformed,
/// zero or negative.
pub fn parse_pid(text: &str) -> (r: Option<i32>)
    ensures
        r == pid_value(text@),
{
    let chars = chars_of(text);
    let t = trim_of(&chars);
    let start: usize = if t.len() > 0 && t[0] == '+' {
        1
    } else {
        0
    };
    let d = crate::text::copy_range(&t, start, t.len());
    assert(d@ =~= unsigned_part(t@));
    if d.len() == 0 {
        return None;
    }
    let n = count_digits(&d);
    proof {
        lemma_digit_run_digits(d@, n as int);
    }
    if n != d.len() {
        assert(!is_digit(d@[n as int])) by {
            crate::text::lemma_digit_run_stops(d@);
        }
        return None;
    }
    match parse_decimal(&d) {
        None => None,
        Some(v) => if 0 < v && v <= 0x7fff_ffff {
            Some(v as i32)
        } else {
            None
        },
    }
}

/// What a PID file holds: the PID in decimal and a newline (`writeln!`).
pub fn pid_file_contents(pid: u32) -> (text: String)
    ensures
        text@ == decimal_digits(pid as nat).push('\n'),
{
    let mut out = decimal_of(pid as u64);
    out.push('\n');
    string_from_chars(&out)
}

/// What probing one PID file found (opening it and trying its lock).
pub enum Probe {
    /// The file could not be opened.
    Absent,
    /// Nobody held its lock: it was stale, and was removed while still locked.
    Stale,
    /// A daemon holds its lock; the file's text, when it could be read.
    Held(Option<String>),
}

/// The PID that a probe yields as a candidate, before the liveness check.
pub open spec fn probe_pid(p: Probe) -> Option<i32> {
    match p {
        Probe::Held(Some(t)) => pid_value(t@),
        _ => None,
    }
}

/// Where the search for a running instance stands, over a list of
/// candidate directories.
#[derive(Debug, Clone, Copy, PartialEq, Eq)]
pub enum SearchState {
    /// The PID file of directory `i` is being probed.
    Probing(usize),
    /// The PID file of directory `i` named this PID; its liveness is being checked.
    Checking(usize, i32),
    /// The search is over: the PID of the running instance, or none.
    Finished(Option<i32>),
}

/// What the caller reports after doing a search action.
pub enum SearchEvent {
    /// What probing the PID file found.
    Probed(Probe),
    /// Whether the PID is alive.
    Alive(bool),
}

/// What the caller does next in the search.
#[derive(Debug)]
pub enum SearchAction {
    /// Probe the PID file at this path (removing it when it is stale).
    Probe(String),
    /// Check whether this PID is alive.
    CheckAlive(i32),
    /// The search is over, with this answer.
    Answer(Option<i32>),
}

/// The search for a running instance: the candidate directories, and
/// where it stands.
pub struct PidSearch {
    pub dirs: Vec<String>,
    pub state: SearchState,
}

/// Directory `j` of `n` is probed next, or, past the last one, the search
/// ends with no instance found.
pub open spec fn search_from(n: nat, j: int) -> SearchState {
    if j < n {
        SearchState::Probing(j as usize)
    } else {
        SearchState::Finished(None)
    }
}

/// The events that the search state `s` waits for.
pub open spec fn search_accepts(s: SearchState, e: SearchEvent) -> bool {
    ||| s is Probing && e is Probed
    ||| s is Checking && e is Alive
}

/// The next search state, over `n` candidate directories: a probe that
/// yields a PID leads to its liveness check, and a live PID ends the
/// search; anything else moves on to the next directory.
pub open spec fn search_next(n: nat, s: SearchState, e: SearchEvent) -> SearchState {
    match (s, e) {
        (SearchState::Probing(i), SearchEvent::Probed(seen)) => match probe_pid(seen) {
            Some(pid) => SearchState::Checking(i, pid),
            None => search_from(n, i + 1),
        },
        (SearchState::Checking(i, pid), SearchEvent::Alive(alive)) => if alive {
            SearchState::Finished(Some(pid))
        } else {
            search_from(n, i + 1)
        },
        _ => s,
    }
}

/// The action that state `t` asks for: the PID file of directory `j` is
/// the file `PID_FILE_NAME` in it.
pub open spec fn search_action(dirs: Seq<String>, t: SearchState, a: SearchAction) -> bool {
    match t {
        SearchState::Probing(j) => (a matches SearchAction::Probe(p) && p@ == path_join(
            dirs[j as int]@,
            PID_FILE_NAME@,
        )),
        SearchState::Checking(_, pid) => a == SearchAction::CheckAlive(pid),
        SearchState::Finished(answer) => a == SearchAction::Answer(answer),
    }
}

/// A search state over `n` directories names one of them, and only a
/// positive PID is ever checked or answered.
pub open spec fn search_state_ok(n: nat, s: SearchState) -> bool {
    match s {
        SearchState::Probing(i) => i < n,
        SearchState::Checking(i, pid) => i < n && pid > 0,
        SearchState::Finished(Some(pid)) => pid > 0,
        SearchState::Finished(None) => true,
    }
}

/// The action for state `t` (which names a directory of `dirs`, if any).
fn action_for(dirs: &Vec<String>, t: SearchState) -> (a: SearchAction)
    requires
        search_state_ok(dirs@.len(), t),
    ensures
        search_action(dirs@, t, a),
{
    match t {
        SearchState::Probing(j) => SearchAction::Probe(path(dirs[j].as_str())),
        SearchState::Checking(_, pid) => SearchAction::CheckAlive(pid),
        SearchState::Finished(answer) => SearchAction::Answer(answer),
    }
}

/// Start looking for a live running instance in the PID files of `dirs`,
/// in order; a stale PID file is removed when it is probed. Feed each
/// action's outcome to `PidSearch::step` until the action is `Answer`.
pub fn running_pid(dirs: Vec<String>) -> (r: (PidSearch, SearchAction))
    ensures
        r.0.dirs@ == dirs@,
        r.0.state == search_from(dirs@.len(), 0),
        search_state_ok(dirs@.len(), r.0.state),
        search_action(dirs@, r.0.state, r.1),
{
    let state = if dirs.len() > 0 {
        SearchState::Probing(0)
    } else {
        SearchState::Finished(None)
    };
    let a = action_for(&dirs, state);
    (PidSearch { dirs, state }, a)
}

impl PidSearch {
    /// Take what the last action found and say what to do next.
    pub fn step(&mut self, e: SearchEvent) -> (a: SearchAction)
        requires
            search_state_ok(old(self).dirs@.len(), old(self).state),
            search_accepts(old(self).state, e),
        ensures
            final(self).dirs@ == old(self).dirs@,
            final(self).state == search_next(old(self).dirs@.len(), old(self).state, e),
            search_state_ok(final(self).dirs@.len(), final(self).state),
            search_action(final(self).dirs@, final(self).state, a),
    {
        let n = self.dirs.len();
        let next = match (self.state, e) {
            (SearchState::Probing(i), SearchEvent::Probed(seen)) => {
                let candidate = match &seen {
                    Probe::Held(Some(t)) => parse_pid(t.as_str()),
                    _ => None,
                };
                assert(candidate == probe_pid(seen));
                match candidate {
                    Some(pid) => SearchState::Checking(i, pid),
                    None => if i + 1 < n {
                        SearchState::Probing(i + 1)
                    } else {
                        SearchState::Finished(None)
                    },
                }
            },
            (SearchState::Checking(i, pid), SearchEvent::Alive(alive)) => if alive {
                SearchState::Finished(Some(pid))
            } else if i + 1 < n {
                SearchState::Probing(i + 1)
            } else {
                SearchState::Finished(None)
            },
            (s, _) => s,
        };
        self.state = next;
        action_for(&self.dirs, next)
    }
}

/// The search answers a PID only when the PID file it last probed named
/// it and the check found it alive; and that PID is positive, so it is
/// never a signal special.
pub proof fn law_search_answer_is_live_holder(n: nat, s: SearchState, e: SearchEvent, pid: i32)
    requires
        search_state_ok(n, s),
        search_accepts(s, e),
        search_next(n, s, e) == SearchState::Finished(Some(pid)),
    ensures
        pid > 0,
        s matches SearchState::Checking(_, q) && q == pid,
        e == SearchEvent::Alive(true),
{
}

/// The first hit ends the search: a live PID is the answer, and a finished
/// search takes no more events, so no later PID file is probed.
pub proof fn law_search_stops_at_first_hit(n: nat, i: usize, pid: i32, answer: Option<i32>, e: SearchEvent)
    ensures
        search_next(n, SearchState::Checking(i, pid), SearchEvent::Alive(true))
            == SearchState::Finished(Some(pid)),
        !search_accepts(SearchState::Finished(answer), e),
{
}

/// The PID files are probed in order, one directory after the other:
/// the search starts at the first, and moves from directory `i` only to
/// `i + 1`; it ends with no answer only after the last one.
pub proof fn law_search_in_order(n: nat, s: SearchState, e: SearchEvent)
    requires
        n <= usize::MAX,
        search_state_ok(n, s),
        search_accepts(s, e),
    ensures
        n > 0 ==> search_from(n, 0) == SearchState::Probing(0),
        search_next(n, s, e) matches SearchState::Probing(j) ==> (s matches SearchState::Probing(i)
            && j == i + 1) || (s matches SearchState::Checking(i, _) && j == i + 1),
        search_next(n, s, e) == SearchState::Finished(None) ==> (s matches SearchState::Probing(i)
            && i == n - 1) || (s matches SearchState::Checking(i, _) && i == n - 1),
{
}

/// Why the running instance could not be stopped.
#[derive(Debug, Clone, Copy, PartialEq, Eq)]
pub enum StopError {
    /// No instance is running.
    NotRunning,
    /// The daemon ignored SIGTERM for 2 s; carries its pid.
    Timeout(i32),
}

/// Where stopping the running instance stands.
#[derive(Debug, Clone, Copy, PartialEq, Eq)]
pub enum StopState {
    /// Nothing done yet; the PID of the running instance, if any.
    Start(Option<i32>),
    /// SIGTERM was sent to this PID.
    Signalled(i32),
    /// Liveness check number `n` (from 1) of this PID was asked for.
    Checking(i32, u32),
    /// The PID was still alive at check `n`; a pause was asked for.
    Pausing(i32, u32),
    /// The instance is gone; the removal of its PID file was asked for.
    Removing,
    /// The result was handed out.
    Finished,
}

/// What the caller does next while stopping the running instance.
#[derive(Debug, Clone, Copy, PartialEq, Eq)]
pub enum StopAction {
    /// Send SIGTERM to this PID.
    Signal(i32),
    /// Check whether this PID is still alive, and report the answer.
    Check(i32),
    /// Sleep 50 ms.
    Pause,
    /// Remove the PID file the instance may have left behind.
    RemovePidFile,
    /// Stopping is over, with this result.
    Done(Result<(), StopError>),
}

/// One step of stopping the running instance, from state `s`; `alive` is
/// the answer to the last `Check` (read in `Checking` only). SIGTERM goes
/// once, to the PID found at the start and to nothing when none was found;
/// then up to `STOP_POLLS` liveness checks follow, a pause after each one
/// that still finds the instance alive (2 s in all at 50 ms).
pub open spec fn stop_transition(s: StopState, alive: bool) -> (StopState, StopAction) {
    match s {
        StopState::Start(None) => (StopState::Finished, StopAction::Done(Err(StopError::NotRunning))),
        StopState::Start(Some(p)) => (StopState::Signalled(p), StopAction::Signal(p)),
        StopState::Signalled(p) => (StopState::Checking(p, 1), StopAction::Check(p)),
        StopState::Checking(p, n) => if alive {
            (StopState::Pausing(p, n), StopAction::Pause)
        } else {
            (StopState::Removing, StopAction::RemovePidFile)
        },
        StopState::Pausing(p, n) => if n < STOP_POLLS {
            (StopState::Checking(p, (n + 1) as u32), StopAction::Check(p))
        } else {
            (StopState::Finished, StopAction::Done(Err(StopError::Timeout(p))))
        },
        StopState::Removing => (StopState::Finished, StopAction::Done(Ok(()))),
        StopState::Finished => (StopState::Finished, StopAction::Done(Ok(()))),
    }
}

/// Take the answer to the last step and say what to do next (see
/// `stop_transition`). Start from `StopState::Start(running_pid)` and call
/// again until the action is `Done`.
pub fn stop_step(s: StopState, alive: bool) -> (r: (StopState, StopAction))
    requires
        !(s is Finished),
    ensures
        r == stop_transition(s, alive),
{
    match s {
        StopState::Start(None) => (StopState::Finished, StopAction::Done(Err(StopError::NotRunning))),
        StopState::Start(Some(p)) => (StopState::Signalled(p), StopAction::Signal(p)),
        StopState::Signalled(p) => (StopState::Checking(p, 1), StopAction::Check(p)),
        StopState::Checking(p, n) => if alive {
            (StopState::Pausing(p, n), StopAction::Pause)
        } else {
            (StopState::Removing, StopAction::RemovePidFile)
        },
        StopState::Pausing(p, n) => if n < STOP_POLLS {
            (StopState::Checking(p, n + 1), StopAction::Check(p))
        } else {
            (StopState::Finished, StopAction::Done(Err(StopError::Timeout(p))))
        },
        StopState::Removing => (StopState::Finished, StopAction::Done(Ok(()))),
        StopState::Finished => (StopState::Finished, StopAction::Done(Ok(()))),
    }
}

/// The actions of stopping from state `s` when the caller hands in
/// `answers`, one per step, until the result comes out.
pub open spec fn stop_run(s: StopState, answers: Seq<bool>) -> Seq<StopAction>
    decreases answers.len(),
{
    if s is Finished || answers.len() == 0 {
        Seq::empty()
    } else {
        let (t, a) = stop_transition(s, answers[0]);
        seq![a] + stop_run(t, answers.drop_first())
    }
}

/// How many liveness checks `acts` holds.
pub open spec fn checks_in(acts: Seq<StopAction>) -> nat
    decreases acts.len(),
{
    if acts.len() == 0 {
        0
    } else {
        (if acts[0] is Check {
            1nat
        } else {
            0nat
        }) + checks_in(acts.drop_first())
    }
}

/// The PID a stop in state `s` is about, if any.
pub open spec fn stop_pid(s: StopState) -> Option<i32> {
    match s {
        StopState::Start(p) => p,
        StopState::Signalled(p) => Some(p),
        StopState::Checking(p, _) => Some(p),
        StopState::Pausing(p, _) => Some(p),
        _ => None,
    }
}

/// The PID an action is about: the one signalled, checked, or timed out.
pub open spec fn action_pid(a: StopAction) -> Option<i32> {
    match a {
        StopAction::Signal(p) => Some(p),
        StopAction::Check(p) => Some(p),
        StopAction::Done(Err(StopError::Timeout(p))) => Some(p),
        _ => None,
    }
}

/// The checks still allowed from state `s`.
pub open spec fn checks_left(s: StopState) -> int {
    match s {
        StopState::Start(_) => STOP_POLLS as int,
        StopState::Signalled(_) => STOP_POLLS as int,
        StopState::Checking(_, n) => STOP_POLLS - n,
        StopState::Pausing(_, n) => STOP_POLLS - n,
        _ => 0,
    }
}

/// The states a stop passes through: counters stay in `1..=STOP_POLLS`.
pub open spec fn stop_state_ok(s: StopState) -> bool {
    match s {
        StopState::Checking(_, n) => 1 <= n <= STOP_POLLS,
        StopState::Pausing(_, n) => 1 <= n <= STOP_POLLS,
        _ => true,
    }
}

/// What every run from a state after the start keeps: no signal, each
/// check and timeout about the state's PID, at most `checks_left` checks,
/// and each check right after a pause or (for the first) a signal.
proof fn lemma_stop_run(s: StopState, answers: Seq<bool>)
    requires
        stop_state_ok(s),
    ensures
        checks_in(stop_run(s, answers)) <= checks_left(s),
        forall|i: int|
            0 <= i < stop_run(s, answers).len() && !(s is Start) ==> !(#[trigger] stop_run(
                s,
                answers,
            )[i] is Signal),
        forall|i: int|
            0 <= i < stop_run(s, answers).len() && action_pid(#[trigger] stop_run(s, answers)[i])
                is Some ==> action_pid(stop_run(s, answers)[i]) == stop_pid(s),
        forall|i: int|
            0 < i < stop_run(s, answers).len() && #[trigger] stop_run(s, answers)[i] is Check
                ==> stop_run(s, answers)[i - 1] is Pause || stop_run(s, answers)[i - 1] is Signal,
        stop_run(s, answers).len() > 0 && stop_run(s, answers)[0] is Check ==> s is Signalled
            || s is Pausing,
    decreases answers.len(),
{
    if s is Finished || answers.len() == 0 {
    } else {
        let (t, a) = stop_transition(s, answers[0]);
        let rest = answers.drop_first();
        lemma_stop_run(t, rest);
        let r = stop_run(s, answers);
        assert(r =~= seq![a] + stop_run(t, rest));
        assert(r.drop_first() =~= stop_run(t, rest));
        assert forall|i: int| 0 < i < r.len() implies r[i] == stop_run(t, rest)[i - 1] by {}
    }
}

/// When no instance is running, stopping sends no signal at all: its one
/// action is the "not running" result.
pub proof fn law_stop_not_running_signals_nothing(answers: Seq<bool>)
    requires
        answers.len() > 0,
    ensures
        stop_run(StopState::Start(None), answers) == seq![
            StopAction::Done(Err(StopError::NotRunning)),
        ],
{
    let r = stop_run(StopState::Start(None), answers);
    assert(stop_run(StopState::Finished, answers.drop_first()) =~= Seq::<StopAction>::empty());
    assert(r =~= seq![StopAction::Done(Err(StopError::NotRunning))]);
}

/// Stopping the running instance `p` signals it first and signals nothing
/// else, ever; every liveness check is of `p`, there are at most
/// `STOP_POLLS` of them, each but the first comes right after a pause, and
/// a timeout names `p` (every PID an action names is `p`).
pub proof fn law_stop_signals_once(p: i32, answers: Seq<bool>)
    ensures
        ({
            let r = stop_run(StopState::Start(Some(p)), answers);
            &&& r.len() > 0 ==> r[0] == StopAction::Signal(p)
            &&& forall|i: int| 0 < i < r.len() ==> !(#[trigger] r[i] is Signal)
            &&& forall|i: int| 0 <= i < r.len() && action_pid(#[trigger] r[i]) is Some ==> action_pid(r[i]) == Some(p)
            &&& forall|i: int| 0 < i < r.len() && #[trigger] r[i] is Check ==> r[i - 1] is Pause || r[i - 1] is Signal
            &&& checks_in(r) <= STOP_POLLS
        }),
{
    let s = StopState::Start(Some(p));
    if answers.len() > 0 {
        let t = StopState::Signalled(p);
        let rest = answers.drop_first();
        lemma_stop_run(t, rest);
        let r = stop_run(s, answers);
        assert(r =~= seq![StopAction::Signal(p)] + stop_run(t, rest));
        assert(r.drop_first() =~= stop_run(t, rest));
        assert forall|i: int| 0 < i < r.len() implies r[i] == stop_run(t, rest)[i - 1] by {}
    }
}

/// The result is only `Ok` once a check found the instance gone and its
/// PID file was removed; a timeout comes only after the last allowed
/// check found it still alive.
pub proof fn law_stop_result(s: StopState, alive: bool)
    requires
        !(s is Finished),
    ensures
        stop_transition(s, alive).1 == StopAction::Done(Ok(())) ==> s is Removing,
        stop_transition(s, alive).1 == StopAction::RemovePidFile ==> s is Checking && !alive,
        stop_transition(s, alive).1 is Done && stop_transition(s, alive).1 != StopAction::Done(Ok(()))
            && !(s is Start) ==> (s matches StopState::Pausing(_, n) && n >= STOP_POLLS),
{
}

/// Exit code of `--stop`: 0 once the instance is gone, 1 when none was
/// running or it did not exit in time.
pub fn stop_exit_code(r: &Result<(), StopError>) -> (code: i32)
    ensures
        code == (if r is Ok {
            0i32
        } else {
            1i32
        }),
{
    match r {
        Ok(()) => 0,
        Err(_) => 1,
    }
}

/// What the daemon writes to its PID file reads back as its PID: the
/// file names exactly the process that holds it.
pub proof fn law_pid_file_round_trip(pid: u32)
    requires
        0 < pid <= i32::MAX,
    ensures
        pid_value(decimal_digits(pid as nat).push('\n')) == Some(pid as i32),
{
    let x = decimal_digits(pid as nat);
    lemma_decimal_digits(pid as nat);
    lemma_trim_digits_newline(x);
    assert(x[0] != '+');
    assert(unsigned_part(x) == x);
}

} // verus!
