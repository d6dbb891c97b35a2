//! Self-update decisions: ordering release versions, telling whether a
//! newer release exists, and the update itself as a state machine whose
//! steps the caller performs.
use core::cmp::Ordering;
use vstd::prelude::*;

use crate::checksum::{sha256_digest, sidecar_digest, verify_binary, ChecksumError};
use crate::pidfile::StopError;
use crate::release::FetchError;
use crate::text::{decimal_value, is_digit, same_text};
use crate::version::{
    lemma_prerelease_parse, lemma_three_components, lemma_two_components, parse_version,
    parse_version_of,
};

verus! {

/// Three-way comparison of two naturals.
pub open spec fn order_nat(x: nat, y: nat) -> Ordering {
    if x < y {
        Ordering::Less
    } else if x == y {
        Ordering::Equal
    } else {
        Ordering::Greater
    }
}

/// How two versions compare: the (major, minor, patch) triples
/// lexicographically, then a prerelease before the plain release; `None`
/// when either does not parse.
pub open spec fn version_order(a: Seq<char>, b: Seq<char>) -> Option<Ordering> {
    match (parse_version(a), parse_version(b)) {
        (Some((a0, a1, a2, ap)), Some((b0, b1, b2, bp))) => Some(
            if a0 != b0 {
                order_nat(a0, b0)
            } else if a1 != b1 {
                order_nat(a1, b1)
            } else if a2 != b2 {
                order_nat(a2, b2)
            } else if ap == bp {
                Ordering::Equal
            } else if ap {
                Ordering::Less
            } else {
                Ordering::Greater
            },
        ),
        _ => None,
    }
}

/// A version string that does not parse.
#[derive(Debug)]
pub struct VersionError {
    /// The offending input, as given.
    pub input: String,
}

/// Three-way comparison of two naturals held in `u64`s.
fn order_u64(x: u64, y: u64) -> (o: Ordering)
    ensures
        (o == Ordering::Less) == (x < y),
        (o == Ordering::Equal) == (x == y),
        (o == Ordering::Greater) == (x > y),
{
    if x < y {
        Ordering::Less
    } else if x == y {
        Ordering::Equal
    } else {
        Ordering::Greater
    }
}

/// Compare two versions as SemVer triples: leading v/V stripped, missing
/// components read as 0 (so `1.2 == 1.2.0`), a prerelease suffix (-rc1,
/// -beta...) counts as older than the plain release. The error names the
/// first input that does not parse.
pub fn version_cmp(a: &str, b: &str) -> (r: Result<Ordering, VersionError>)
    ensures
        match r {
            Ok(o) => version_order(a@, b@) == Some(o),
            Err(e) => version_order(a@, b@) is None && e.input@ == (if parse_version(a@) is None {
                a@
            } else {
                b@
            }),
        },
{
    let pa = match parse_version_of(a) {
        Some(p) => p,
        None => {
            return Err(VersionError { input: a.to_owned() });
        },
    };
    let pb = match parse_version_of(b) {
        Some(p) => p,
        None => {
            return Err(VersionError { input: b.to_owned() });
        },
    };
    let (a0, a1, a2, ap) = pa;
    let (b0, b1, b2, bp) = pb;
    let o = if a0 != b0 {
        order_u64(a0, b0)
    } else if a1 != b1 {
        order_u64(a1, b1)
    } else if a2 != b2 {
        order_u64(a2, b2)
    } else if ap == bp {
        Ordering::Equal
    } else if ap {
        Ordering::Less
    } else {
        Ordering::Greater
    };
    Ok(o)
}

/// Version check for the calibration panel: the tag of a newer release,
/// or `None`. Every failure is silent (offline, GitHub down, API error,
/// missing checksum, unreadable version): the panel simply shows no link.
pub fn latest_if_newer(current: &str, latest: Result<String, FetchError>) -> (r: Option<String>)
    ensures
        match latest {
            Ok(tag) => if version_order(current@, tag@) == Some(Ordering::Less) {
                r == Some(tag)
            } else {
                r is None
            },
            Err(_) => r is None,
        },
{
    let tag = match latest {
        Ok(t) => t,
        Err(_) => {
            return None;
        },
    };
    match version_cmp(current, tag.as_str()) {
        Ok(Ordering::Less) => Some(tag),
        _ => None,
    }
}

/// Whether the running binary is a build artifact (a path component is
/// named `target`): such a binary must not be replaced by an update.
pub fn is_build_artifact(components: &Vec<String>) -> (r: bool)
    ensures
        r == exists|i: int| 0 <= i < components@.len() && #[trigger] components@[i]@ == "target"@,
{
    let mut i: usize = 0;
    while i < components.len()
        invariant
            i <= components@.len(),
            forall|k: int| 0 <= k < i ==> #[trigger] components@[k]@ != "target"@,
        decreases components@.len() - i,
    {
        if same_text(components[i].as_str(), "target") {
            return true;
        }
        i = i + 1;
    }
    false
}

/// Why an update did not complete.
#[derive(Debug)]
pub enum UpdateError {
    /// The running binary could not be located.
    NoExe(String),
    /// The running binary is a build artifact.
    BuildArtifact,
    /// The install directory is not writable.
    NotWritable(String),
    /// The latest release could not be determined.
    Fetch(FetchError),
    /// A version does not parse.
    BadVersion(VersionError),
    /// The binary or its sidecar could not be downloaded.
    Download(String),
    /// The download does not match its checksum.
    Checksum(ChecksumError),
    /// The verified download could not be written to the temp file.
    Write(String),
    /// The running binary could not be backed up.
    Backup(String),
    /// The overlay ignored SIGTERM; its pid. Nothing was replaced.
    StopTimeout(i32),
    /// The new binary could not be put in place; the old one still is.
    Install(String),
    /// The new binary failed to restart the overlay; the old binary was
    /// rolled back, and whether the overlay is running again.
    RolledBack(String, bool),
}

/// How an update ended.
#[derive(Debug)]
pub enum UpdateOutcome {
    /// The running version is current; the latest tag.
    UpToDate(String),
    /// The binary was replaced by this release (SHA-256 verified).
    Updated(String),
    /// The update stopped.
    Failed(UpdateError),
}

/// What the caller does next.
#[derive(Debug)]
pub enum UpdateStep {
    /// Create and remove a probe file in the binary's directory.
    CheckWritable,
    /// Ask the API for the latest release.
    FetchLatest,
    /// Download the binary and the checksum sidecar of this release.
    Download(String),
    /// Write these verified bytes to the temp file next to the binary.
    WriteTemp(Vec<u8>),
    /// Hard-link the running binary to the backup name.
    Backup,
    /// Stop the running overlay.
    StopDaemon,
    /// Make the temp file executable and rename it over the binary.
    Install,
    /// Run `--start` on the binary in place.
    Restart,
    /// Rename the backup over the binary.
    RollBack,
    /// Remove the backup.
    RemoveBackup,
    /// Remove the temp file, if it is there.
    RemoveTemp,
    /// Nothing is left to do.
    Finish(UpdateOutcome),
}

/// What the caller reports after doing a step.
pub enum UpdateEvent {
    /// The step succeeded.
    Done,
    /// The step failed; the error's text.
    Failed(String),
    /// The tag of the latest release, or why there is none.
    Fetched(Result<String, FetchError>),
    /// The downloaded binary and sidecar text, or the download error's text.
    Downloaded(Result<(Vec<u8>, String), String>),
    /// How stopping the overlay went.
    Stopped(Result<(), StopError>),
}

/// The stage an update has reached.
pub enum Phase {
    CheckingDir,
    Fetching,
    /// Downloading this release.
    Downloading(String),
    /// Writing the verified download of this release.
    Writing(String),
    /// Backing up the running binary before installing this release.
    BackingUp(String),
    /// Stopping the overlay before installing this release.
    Stopping(String),
    /// Installing this release; whether the overlay was running.
    Installing(String, bool),
    /// Restarting the overlay on the new binary of this release.
    Restarting(String),
    /// Rolling back after the new binary failed to restart; its error.
    RollingBack(String),
    /// Restarting the overlay on the rolled-back binary; the first error.
    RestartingOld(String),
    /// Removing the backup, then ending with this outcome, after
    /// restarting the overlay when the first flag is set and removing the
    /// temp file when the second is.
    Cleaning(UpdateOutcome, bool, bool),
    /// Restarting the overlay on the old binary, then ending with this
    /// outcome (after removing the temp file when the flag is set).
    RestartingAfterFailure(UpdateOutcome, bool),
    /// Removing the temp file, then ending with this outcome.
    RemovingTemp(UpdateOutcome),
    /// Finished.
    Done,
}

/// The events that the phase `p` waits for.
pub open spec fn accepts(p: Phase, e: UpdateEvent) -> bool {
    match p {
        Phase::Fetching => e is Fetched,
        Phase::Downloading(_) => e is Downloaded,
        Phase::Stopping(_) => e is Stopped,
        Phase::Done => false,
        _ => e is Done || e is Failed,
    }
}

/// One step of an update, from phase `p` on event `e`, to phase `q` with
/// the next step `a`; `current` is the running version. Download and
/// verification come before the overlay is touched; once it is stopped, a
/// failed install brings it back on the old binary, and a new binary that
/// fails to start is rolled back and the old one restarted.
pub open spec fn transition(p: Phase, e: UpdateEvent, current: Seq<char>, q: Phase, a: UpdateStep) -> bool {
    match p {
        Phase::CheckingDir => match e {
            UpdateEvent::Done => q == Phase::Fetching && a == UpdateStep::FetchLatest,
            UpdateEvent::Failed(m) => q == Phase::Done && a == UpdateStep::Finish(
                UpdateOutcome::Failed(UpdateError::NotWritable(m)),
            ),
            _ => false,
        },
        Phase::Fetching => match e {
            UpdateEvent::Fetched(Err(f)) => q == Phase::Done && a == UpdateStep::Finish(
                UpdateOutcome::Failed(UpdateError::Fetch(f)),
            ),
            UpdateEvent::Fetched(Ok(tag)) => match version_order(current, tag@) {
                None => {
                    &&& q == Phase::Done
                    &&& a matches UpdateStep::Finish(
                        UpdateOutcome::Failed(UpdateError::BadVersion(v)),
                    ) && v.input@ == (if parse_version(current) is None {
                        current
                    } else {
                        tag@
                    })
                },
                Some(Ordering::Less) => q == Phase::Downloading(tag) && a == UpdateStep::Download(tag),
                Some(_) => q == Phase::Done && a == UpdateStep::Finish(UpdateOutcome::UpToDate(tag)),
            },
            _ => false,
        },
        Phase::Downloading(tag) => match e {
            UpdateEvent::Downloaded(Err(m)) => q == Phase::Done && a == UpdateStep::Finish(
                UpdateOutcome::Failed(UpdateError::Download(m)),
            ),
            UpdateEvent::Downloaded(Ok((bin, sidecar))) => match sidecar_digest(sidecar@) {
                None => q == Phase::Done && a == UpdateStep::Finish(
                    UpdateOutcome::Failed(UpdateError::Checksum(ChecksumError::Malformed)),
                ),
                Some(d) => if d == sha256_digest(bin@) {
                    q == Phase::Writing(tag) && a == UpdateStep::WriteTemp(bin)
                } else {
                    q == Phase::Done && a == UpdateStep::Finish(
                        UpdateOutcome::Failed(UpdateError::Checksum(ChecksumError::Mismatch)),
                    )
                },
            },
            _ => false,
        },
        Phase::Writing(tag) => match e {
            UpdateEvent::Done => q == Phase::BackingUp(tag) && a == UpdateStep::Backup,
            UpdateEvent::Failed(m) => q == Phase::RemovingTemp(
                UpdateOutcome::Failed(UpdateError::Write(m)),
            ) && a == UpdateStep::RemoveTemp,
            _ => false,
        },
        Phase::BackingUp(tag) => match e {
            UpdateEvent::Done => q == Phase::Stopping(tag) && a == UpdateStep::StopDaemon,
            UpdateEvent::Failed(m) => q == Phase::RemovingTemp(
                UpdateOutcome::Failed(UpdateError::Backup(m)),
            ) && a == UpdateStep::RemoveTemp,
            _ => false,
        },
        Phase::Stopping(tag) => match e {
            UpdateEvent::Stopped(Ok(())) => q == Phase::Installing(tag, true) && a == UpdateStep::Install,
            UpdateEvent::Stopped(Err(StopError::NotRunning)) => q == Phase::Installing(tag, false) && a
                == UpdateStep::Install,
            UpdateEvent::Stopped(Err(StopError::Timeout(pid))) => q == Phase::Cleaning(
                UpdateOutcome::Failed(UpdateError::StopTimeout(pid)),
                false,
                true,
            ) && a == UpdateStep::RemoveBackup,
            _ => false,
        },
        Phase::Installing(tag, was_running) => match e {
            UpdateEvent::Done => if was_running {
                q == Phase::Restarting(tag) && a == UpdateStep::Restart
            } else {
                q == Phase::Cleaning(UpdateOutcome::Updated(tag), false, false) && a
                    == UpdateStep::RemoveBackup
            },
            UpdateEvent::Failed(m) => q == Phase::Cleaning(
                UpdateOutcome::Failed(UpdateError::Install(m)),
                was_running,
                true,
            ) && a == UpdateStep::RemoveBackup,
            _ => false,
        },
        Phase::Restarting(tag) => match e {
            UpdateEvent::Done => q == Phase::Cleaning(UpdateOutcome::Updated(tag), false, false)
                && a == UpdateStep::RemoveBackup,
            UpdateEvent::Failed(m) => q == Phase::RollingBack(m) && a == UpdateStep::RollBack,
            _ => false,
        },
        Phase::RollingBack(m) => (e is Done || e is Failed) && q == Phase::RestartingOld(m) && a
            == UpdateStep::Restart,
        Phase::RestartingOld(m) => match e {
            UpdateEvent::Done => q == Phase::Done && a == UpdateStep::Finish(
                UpdateOutcome::Failed(UpdateError::RolledBack(m, true)),
            ),
            UpdateEvent::Failed(_) => q == Phase::Done && a == UpdateStep::Finish(
                UpdateOutcome::Failed(UpdateError::RolledBack(m, false)),
            ),
            _ => false,
        },
        Phase::Cleaning(o, restart, temp) => (e is Done || e is Failed) && if restart {
            q == Phase::RestartingAfterFailure(o, temp) && a == UpdateStep::Restart
        } else if temp {
            q == Phase::RemovingTemp(o) && a == UpdateStep::RemoveTemp
        } else {
            q == Phase::Done && a == UpdateStep::Finish(o)
        },
        Phase::RestartingAfterFailure(o, temp) => (e is Done || e is Failed) && if temp {
            q == Phase::RemovingTemp(o) && a == UpdateStep::RemoveTemp
        } else {
            q == Phase::Done && a == UpdateStep::Finish(o)
        },
        Phase::RemovingTemp(o) => (e is Done || e is Failed) && q == Phase::Done && a
            == UpdateStep::Finish(o),
        Phase::Done => false,
    }
}

/// A self-update in progress: the running version and the phase reached.
pub struct Updater {
    pub current: String,
    pub phase: Phase,
}

impl Updater {
    /// Start updating the binary whose path has these components (or that
    /// could not be located), running version `current`.
    pub fn new(current: String, exe: Result<Vec<String>, String>) -> (r: (Updater, UpdateStep))
        ensures
            r.0.current == current,
            match exe {
                Err(m) => r.0.phase == Phase::Done && r.1 == UpdateStep::Finish(
                    UpdateOutcome::Failed(UpdateError::NoExe(m)),
                ),
                Ok(c) => if exists|i: int| 0 <= i < c@.len() && #[trigger] c@[i]@ == "target"@ {
                    r.0.phase == Phase::Done && r.1 == UpdateStep::Finish(
                        UpdateOutcome::Failed(UpdateError::BuildArtifact),
                    )
                } else {
                    r.0.phase == Phase::CheckingDir && r.1 == UpdateStep::CheckWritable
                },
            },
    {
        match exe {
            Err(m) => (
                Updater { current, phase: Phase::Done },
                UpdateStep::Finish(UpdateOutcome::Failed(UpdateError::NoExe(m))),
            ),
            Ok(c) => if is_build_artifact(&c) {
                (
                    Updater { current, phase: Phase::Done },
                    UpdateStep::Finish(UpdateOutcome::Failed(UpdateError::BuildArtifact)),
                )
            } else {
                (Updater { current, phase: Phase::CheckingDir }, UpdateStep::CheckWritable)
            },
        }
    }

    /// Take the outcome of the last step and say what to do next.
    pub fn step(&mut self, e: UpdateEvent) -> (a: UpdateStep)
        requires
            accepts(old(self).phase, e),
        ensures
            final(self).current == old(self).current,
            transition(old(self).phase, e, old(self).current@, final(self).phase, a),
    {
        let mut phase = Phase::Done;
        core::mem::swap(&mut phase, &mut self.phase);
        let (q, a) = self.advance(phase, e);
        self.phase = q;
        a
    }

    /// The transition itself.
    fn advance(&self, p: Phase, e: UpdateEvent) -> (r: (Phase, UpdateStep))
        requires
            accepts(p, e),
        ensures
            transition(p, e, self.current@, r.0, r.1),
    {
        match (p, e) {
            (Phase::CheckingDir, UpdateEvent::Failed(m)) => finish(
                UpdateOutcome::Failed(UpdateError::NotWritable(m)),
            ),
            (Phase::CheckingDir, _) => (Phase::Fetching, UpdateStep::FetchLatest),
            (Phase::Fetching, UpdateEvent::Fetched(Ok(tag))) => match version_cmp(
                self.current.as_str(),
                tag.as_str(),
            ) {
                Err(v) => finish(UpdateOutcome::Failed(UpdateError::BadVersion(v))),
                Ok(Ordering::Less) => {
                    let t = tag.clone();
                    (Phase::Downloading(tag), UpdateStep::Download(t))
                },
                Ok(_) => finish(UpdateOutcome::UpToDate(tag)),
            },
            (Phase::Fetching, UpdateEvent::Fetched(Err(f))) => finish(
                UpdateOutcome::Failed(UpdateError::Fetch(f)),
            ),
            (Phase::Downloading(tag), UpdateEvent::Downloaded(Ok((bin, sidecar)))) => match verify_binary(
                bin.as_slice(),
                sidecar.as_str(),
            ) {
                Ok(()) => (Phase::Writing(tag), UpdateStep::WriteTemp(bin)),
                Err(c) => finish(UpdateOutcome::Failed(UpdateError::Checksum(c))),
            },
            (Phase::Downloading(_), UpdateEvent::Downloaded(Err(m))) => finish(
                UpdateOutcome::Failed(UpdateError::Download(m)),
            ),
            (Phase::Writing(_), UpdateEvent::Failed(m)) => (
                Phase::RemovingTemp(UpdateOutcome::Failed(UpdateError::Write(m))),
                UpdateStep::RemoveTemp,
            ),
            (Phase::Writing(tag), _) => (Phase::BackingUp(tag), UpdateStep::Backup),
            (Phase::BackingUp(_), UpdateEvent::Failed(m)) => (
                Phase::RemovingTemp(UpdateOutcome::Failed(UpdateError::Backup(m))),
                UpdateStep::RemoveTemp,
            ),
            (Phase::BackingUp(tag), _) => (Phase::Stopping(tag), UpdateStep::StopDaemon),
            (Phase::Stopping(tag), UpdateEvent::Stopped(Ok(()))) => (
                Phase::Installing(tag, true),
                UpdateStep::Install,
            ),
            (Phase::Stopping(tag), UpdateEvent::Stopped(Err(StopError::NotRunning))) => (
                Phase::Installing(tag, false),
                UpdateStep::Install,
            ),
            (Phase::Stopping(_), UpdateEvent::Stopped(Err(StopError::Timeout(pid)))) => (
                Phase::Cleaning(UpdateOutcome::Failed(UpdateError::StopTimeout(pid)), false, true),
                UpdateStep::RemoveBackup,
            ),
            (Phase::Installing(_, was_running), UpdateEvent::Failed(m)) => (
                Phase::Cleaning(UpdateOutcome::Failed(UpdateError::Install(m)), was_running, true),
                UpdateStep::RemoveBackup,
            ),
            (Phase::Installing(tag, was_running), _) => if was_running {
                (Phase::Restarting(tag), UpdateStep::Restart)
            } else {
                (Phase::Cleaning(UpdateOutcome::Updated(tag), false, false), UpdateStep::RemoveBackup)
            },
            (Phase::Restarting(_), UpdateEvent::Failed(m)) => (
                Phase::RollingBack(m),
                UpdateStep::RollBack,
            ),
            (Phase::Restarting(tag), _) => (
                Phase::Cleaning(UpdateOutcome::Updated(tag), false, false),
                UpdateStep::RemoveBackup,
            ),
            (Phase::RollingBack(m), _) => (Phase::RestartingOld(m), UpdateStep::Restart),
            (Phase::RestartingOld(m), UpdateEvent::Failed(_)) => finish(
                UpdateOutcome::Failed(UpdateError::RolledBack(m, false)),
            ),
            (Phase::RestartingOld(m), _) => finish(
                UpdateOutcome::Failed(UpdateError::RolledBack(m, true)),
            ),
            (Phase::Cleaning(o, restart, temp), _) => if restart {
                (Phase::RestartingAfterFailure(o, temp), UpdateStep::Restart)
            } else if temp {
                (Phase::RemovingTemp(o), UpdateStep::RemoveTemp)
            } else {
                finish(o)
            },
            (Phase::RestartingAfterFailure(o, temp), _) => if temp {
                (Phase::RemovingTemp(o), UpdateStep::RemoveTemp)
            } else {
                finish(o)
            },
            (Phase::RemovingTemp(o), _) => finish(o),
            (_, _) => {
                // Phase::Done, or an event the phase does not wait for:
                // excluded by `accepts`.
                proof {
                    assert(false);
                }
                (Phase::Done, UpdateStep::CheckWritable)
            },
        }
    }
}

/// The last step: end with outcome `o`.
fn finish(o: UpdateOutcome) -> (r: (Phase, UpdateStep))
    ensures
        r.0 == Phase::Done,
        r.1 == UpdateStep::Finish(o),
{
    (Phase::Done, UpdateStep::Finish(o))
}

/// Version order is antisymmetric: `a` before `b` exactly when `b` is
/// after `a`, and equality is symmetric.
pub proof fn law_version_order_antisymmetric(a: Seq<char>, b: Seq<char>)
    ensures
        version_order(a, b) == Some(Ordering::Less) <==> version_order(b, a) == Some(
            Ordering::Greater,
        ),
        version_order(a, b) == Some(Ordering::Equal) <==> version_order(b, a) == Some(
            Ordering::Equal,
        ),
        version_order(a, b) is None <==> version_order(b, a) is None,
{
}

/// Versions are SemVer triples compared major first, then minor, then
/// patch: for versions that parse, a smaller major is older whatever the
/// rest says; with equal majors a smaller minor is older; with equal major
/// and minor a smaller patch is older; with equal triples a prerelease is
/// older than the plain release, and two plain or two prerelease versions
/// are equal.
pub proof fn law_version_order_semver(a: Seq<char>, b: Seq<char>)
    requires
        parse_version(a) is Some,
        parse_version(b) is Some,
    ensures
        ({
            let (a0, a1, a2, ap) = parse_version(a)->0;
            let (b0, b1, b2, bp) = parse_version(b)->0;
            &&& a0 < b0 ==> version_order(a, b) == Some(Ordering::Less)
            &&& a0 > b0 ==> version_order(a, b) == Some(Ordering::Greater)
            &&& a0 == b0 && a1 < b1 ==> version_order(a, b) == Some(Ordering::Less)
            &&& a0 == b0 && a1 > b1 ==> version_order(a, b) == Some(Ordering::Greater)
            &&& a0 == b0 && a1 == b1 && a2 < b2 ==> version_order(a, b) == Some(Ordering::Less)
            &&& a0 == b0 && a1 == b1 && a2 > b2 ==> version_order(a, b) == Some(Ordering::Greater)
            &&& a0 == b0 && a1 == b1 && a2 == b2 && ap && !bp ==> version_order(a, b) == Some(
                Ordering::Less,
            )
            &&& a0 == b0 && a1 == b1 && a2 == b2 && ap == bp ==> version_order(a, b) == Some(
                Ordering::Equal,
            )
        }),
{
}

/// On plain `x.y.z` versions (digit runs that fit in `u64`), the order is
/// that of the numbers they spell, major first: `1.0.0` is after `0.9.0`,
/// `0.2.0` before `0.2.1`, `0.10.0` after `0.9.0`.
pub proof fn law_plain_versions_compare_numerically(
    x: Seq<char>,
    y: Seq<char>,
    z: Seq<char>,
    u: Seq<char>,
    v: Seq<char>,
    w: Seq<char>,
)
    requires
        x.len() > 0 && y.len() > 0 && z.len() > 0,
        u.len() > 0 && v.len() > 0 && w.len() > 0,
        forall|i: int| 0 <= i < x.len() ==> is_digit(#[trigger] x[i]),
        forall|i: int| 0 <= i < y.len() ==> is_digit(#[trigger] y[i]),
        forall|i: int| 0 <= i < z.len() ==> is_digit(#[trigger] z[i]),
        forall|i: int| 0 <= i < u.len() ==> is_digit(#[trigger] u[i]),
        forall|i: int| 0 <= i < v.len() ==> is_digit(#[trigger] v[i]),
        forall|i: int| 0 <= i < w.len() ==> is_digit(#[trigger] w[i]),
        decimal_value(x) <= u64::MAX && decimal_value(y) <= u64::MAX && decimal_value(z)
            <= u64::MAX,
        decimal_value(u) <= u64::MAX && decimal_value(v) <= u64::MAX && decimal_value(w)
            <= u64::MAX,
    ensures
        ({
            let a = x + seq!['.'] + y + seq!['.'] + z;
            let b = u + seq!['.'] + v + seq!['.'] + w;
            let (a0, a1, a2) = (decimal_value(x), decimal_value(y), decimal_value(z));
            let (b0, b1, b2) = (decimal_value(u), decimal_value(v), decimal_value(w));
            &&& a0 < b0 ==> version_order(a, b) == Some(Ordering::Less)
            &&& a0 > b0 ==> version_order(a, b) == Some(Ordering::Greater)
            &&& a0 == b0 && a1 < b1 ==> version_order(a, b) == Some(Ordering::Less)
            &&& a0 == b0 && a1 > b1 ==> version_order(a, b) == Some(Ordering::Greater)
            &&& a0 == b0 && a1 == b1 && a2 < b2 ==> version_order(a, b) == Some(Ordering::Less)
            &&& a0 == b0 && a1 == b1 && a2 > b2 ==> version_order(a, b) == Some(Ordering::Greater)
            &&& a0 == b0 && a1 == b1 && a2 == b2 ==> version_order(a, b) == Some(Ordering::Equal)
        }),
{
    lemma_three_components(x, y, z);
    lemma_three_components(u, v, w);
}

/// Every version that parses equals itself.
pub proof fn law_version_order_reflexive(a: Seq<char>)
    ensures
        parse_version(a) is Some <==> version_order(a, a) == Some(Ordering::Equal),
{
}

/// Version order is transitive, for "before" and for "equal".
pub proof fn law_version_order_transitive(a: Seq<char>, b: Seq<char>, c: Seq<char>)
    ensures
        version_order(a, b) == Some(Ordering::Less) && version_order(b, c) == Some(Ordering::Less)
            ==> version_order(a, c) == Some(Ordering::Less),
        version_order(a, b) == Some(Ordering::Equal) && version_order(b, c) == Some(
            Ordering::Equal,
        ) ==> version_order(a, c) == Some(Ordering::Equal),
        version_order(a, b) == Some(Ordering::Equal) && version_order(b, c) == Some(
            Ordering::Less,
        ) ==> version_order(a, c) == Some(Ordering::Less),
{
}

/// The overlay is only stopped right after the running binary was backed up.
pub proof fn law_stop_follows_backup(p: Phase, e: UpdateEvent, c: Seq<char>, q: Phase, a: UpdateStep)
    requires
        transition(p, e, c, q, a),
        a is StopDaemon,
    ensures
        p is BackingUp && e is Done,
{
}

/// The backup is only taken right after the verified download was written.
pub proof fn law_backup_follows_write(p: Phase, e: UpdateEvent, c: Seq<char>, q: Phase, a: UpdateStep)
    requires
        transition(p, e, c, q, a),
        a is Backup,
    ensures
        p is Writing && e is Done,
{
}

/// Only a download whose SHA-256 is the digest its sidecar announces is
/// ever written: verification comes before anything else is touched.
pub proof fn law_write_follows_verified_download(
    p: Phase,
    e: UpdateEvent,
    c: Seq<char>,
    q: Phase,
    a: UpdateStep,
)
    requires
        transition(p, e, c, q, a),
        a is WriteTemp,
    ensures
        p is Downloading,
        e matches UpdateEvent::Downloaded(Ok((bin, sidecar))) && sidecar_digest(sidecar@) == Some(
            sha256_digest(bin@),
        ) && a == UpdateStep::WriteTemp(bin),
{
}

/// A release that is newer than the running version is downloaded, and
/// one that is not ends the update as up to date: once the latest tag is
/// known, the step taken depends on the version order alone.
pub proof fn law_newer_release_is_downloaded(tag: String, c: Seq<char>, q: Phase, a: UpdateStep)
    requires
        transition(Phase::Fetching, UpdateEvent::Fetched(Ok(tag)), c, q, a),
    ensures
        version_order(c, tag@) == Some(Ordering::Less) ==> q == Phase::Downloading(tag) && a
            == UpdateStep::Download(tag),
        version_order(c, tag@) == Some(Ordering::Equal) || version_order(c, tag@) == Some(
            Ordering::Greater,
        ) ==> q == Phase::Done && a == UpdateStep::Finish(UpdateOutcome::UpToDate(tag)),
        a is Download <==> version_order(c, tag@) == Some(Ordering::Less),
{
}

/// A release is only downloaded when it is newer than the running version.
pub proof fn law_download_only_newer(p: Phase, e: UpdateEvent, c: Seq<char>, q: Phase, a: UpdateStep)
    requires
        transition(p, e, c, q, a),
        a is Download,
    ensures
        e matches UpdateEvent::Fetched(Ok(tag)) && version_order(c, tag@) == Some(Ordering::Less)
            && a == UpdateStep::Download(tag),
{
}

/// A failed install with the overlay stopped brings it back on the old
/// binary: the backup is removed, then the overlay restarted.
pub proof fn law_failed_install_restarts_overlay(
    t: String,
    m: String,
    c: Seq<char>,
    q: Phase,
    a: UpdateStep,
    e2: UpdateEvent,
    q2: Phase,
    a2: UpdateStep,
)
    requires
        transition(Phase::Installing(t, true), UpdateEvent::Failed(m), c, q, a),
        transition(q, e2, c, q2, a2),
    ensures
        a == UpdateStep::RemoveBackup,
        a2 == UpdateStep::Restart,
{
}

/// The temp file may be on disk in phase `p`: from the moment the verified
/// download is handed out to be written until it is renamed over the
/// binary or removed.
pub open spec fn temp_exists(p: Phase) -> bool {
    match p {
        Phase::Writing(_) => true,
        Phase::BackingUp(_) => true,
        Phase::Stopping(_) => true,
        Phase::Installing(_, _) => true,
        Phase::Cleaning(_, _, temp) => temp,
        Phase::RestartingAfterFailure(_, temp) => temp,
        Phase::RemovingTemp(_) => true,
        _ => false,
    }
}

/// Writing the verified download puts the temp file on disk.
pub proof fn law_write_creates_temp(p: Phase, e: UpdateEvent, c: Seq<char>, q: Phase, a: UpdateStep)
    requires
        transition(p, e, c, q, a),
        a is WriteTemp,
    ensures
        temp_exists(q),
{
}

/// The temp file is never left behind: once it may be on disk, it stays
/// tracked until it is installed over the binary or removed, and the
/// update only finishes right after the step that removes it.
pub proof fn law_temp_never_left_behind(p: Phase, e: UpdateEvent, c: Seq<char>, q: Phase, a: UpdateStep)
    requires
        transition(p, e, c, q, a),
        temp_exists(p),
    ensures
        !temp_exists(q) ==> p is RemovingTemp || (p is Installing && e is Done),
        a is Finish ==> p is RemovingTemp,
{
}

/// A failed write, a failed backup, and an overlay that ignores SIGTERM
/// all remove the temp file before the update ends.
pub proof fn law_failures_remove_temp(
    t: String,
    m: String,
    pid: i32,
    c: Seq<char>,
    q1: Phase,
    a1: UpdateStep,
    q2: Phase,
    a2: UpdateStep,
    q3: Phase,
    a3: UpdateStep,
    e4: UpdateEvent,
    q4: Phase,
    a4: UpdateStep,
)
    requires
        transition(Phase::Writing(t), UpdateEvent::Failed(m), c, q1, a1),
        transition(Phase::BackingUp(t), UpdateEvent::Failed(m), c, q2, a2),
        transition(
            Phase::Stopping(t),
            UpdateEvent::Stopped(Err(StopError::Timeout(pid))),
            c,
            q3,
            a3,
        ),
        transition(q3, e4, c, q4, a4),
    ensures
        a1 == UpdateStep::RemoveTemp,
        a2 == UpdateStep::RemoveTemp,
        a3 == UpdateStep::RemoveBackup,
        a4 == UpdateStep::RemoveTemp,
{
}

/// A new binary that fails to restart the overlay is rolled back, and the
/// overlay restarted on the old binary.
pub proof fn law_failed_restart_rolls_back(
    t: String,
    m: String,
    c: Seq<char>,
    q: Phase,
    a: UpdateStep,
    e2: UpdateEvent,
    q2: Phase,
    a2: UpdateStep,
)
    requires
        transition(Phase::Restarting(t), UpdateEvent::Failed(m), c, q, a),
        transition(q, e2, c, q2, a2),
    ensures
        a == UpdateStep::RollBack,
        a2 == UpdateStep::Restart,
{
}

/// A prerelease suffix (`-rc1`, `-beta`...) counts as older than the plain
/// release: appending `-` and anything to a version without one that
/// parses gives a version before it.
pub proof fn law_prerelease_is_older(s: Seq<char>, suffix: Seq<char>)
    requires
        !s.contains('-'),
        parse_version(s) is Some,
    ensures
        version_order(s + seq!['-'] + suffix, s) == Some(Ordering::Less),
{
    lemma_prerelease_parse(s, suffix);
}

/// Missing components read as 0 (so `1.2 == 1.2.0`): for digit runs `a`
/// and `b` that fit in `u64`, `a.b` equals `a.b.0`.
pub proof fn law_missing_components_read_as_zero(a: Seq<char>, b: Seq<char>)
    requires
        a.len() > 0,
        b.len() > 0,
        forall|i: int| 0 <= i < a.len() ==> is_digit(#[trigger] a[i]),
        forall|i: int| 0 <= i < b.len() ==> is_digit(#[trigger] b[i]),
        decimal_value(a) <= u64::MAX,
        decimal_value(b) <= u64::MAX,
    ensures
        version_order(a + seq!['.'] + b, a + seq!['.'] + b + seq!['.', '0']) == Some(
            Ordering::Equal,
        ),
{
    lemma_two_components(a, b);
}

} // verus!
