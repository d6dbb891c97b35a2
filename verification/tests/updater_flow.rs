use std::cmp::Ordering;

use crosshair::checksum::ChecksumError;
use crosshair::pidfile::StopError;
use crosshair::release::FetchError;
use crosshair::update::{
    is_build_artifact, latest_if_newer, version_cmp, UpdateError, UpdateEvent, UpdateOutcome,
    UpdateStep, Updater,
};

const ABC_SIDECAR: &str = "ba7816bf8f01cfea414140de5dae2223b00361a396177a9cb410ff61f20015ad  crosshair\n";

fn exe() -> Result<Vec<String>, String> {
    Ok(vec!["/".into(), "home".into(), "u".into(), ".local".into(), "bin".into(), "crosshair".into()])
}

fn start() -> Updater {
    let (mut u, s) = Updater::new("0.2.0".to_string(), exe());
    assert!(matches!(s, UpdateStep::CheckWritable));
    assert!(matches!(u.step(UpdateEvent::Done), UpdateStep::FetchLatest));
    u
}

fn through_download(u: &mut Updater) {
    match u.step(UpdateEvent::Fetched(Ok("v0.3.0".to_string()))) {
        UpdateStep::Download(t) => assert_eq!(t, "v0.3.0"),
        other => panic!("unexpected {other:?}"),
    }
    match u.step(UpdateEvent::Downloaded(Ok((b"abc".to_vec(), ABC_SIDECAR.to_string())))) {
        UpdateStep::WriteTemp(bytes) => assert_eq!(bytes, b"abc"),
        other => panic!("unexpected {other:?}"),
    }
    assert!(matches!(u.step(UpdateEvent::Done), UpdateStep::Backup));
    assert!(matches!(u.step(UpdateEvent::Done), UpdateStep::StopDaemon));
}

#[test]
fn update_with_running_overlay_restarts_it() {
    let mut u = start();
    through_download(&mut u);
    assert!(matches!(u.step(UpdateEvent::Stopped(Ok(()))), UpdateStep::Install));
    assert!(matches!(u.step(UpdateEvent::Done), UpdateStep::Restart));
    assert!(matches!(u.step(UpdateEvent::Done), UpdateStep::RemoveBackup));
    match u.step(UpdateEvent::Done) {
        UpdateStep::Finish(UpdateOutcome::Updated(t)) => assert_eq!(t, "v0.3.0"),
        other => panic!("unexpected {other:?}"),
    }
}

#[test]
fn update_without_running_overlay_does_not_start_it() {
    let mut u = start();
    through_download(&mut u);
    assert!(matches!(u.step(UpdateEvent::Stopped(Err(StopError::NotRunning))), UpdateStep::Install));
    assert!(matches!(u.step(UpdateEvent::Done), UpdateStep::RemoveBackup));
    assert!(matches!(
        u.step(UpdateEvent::Failed("unlink".into())),
        UpdateStep::Finish(UpdateOutcome::Updated(_))
    ));
}

#[test]
fn current_release_is_up_to_date() {
    let mut u = start();
    match u.step(UpdateEvent::Fetched(Ok("v0.2.0".to_string()))) {
        UpdateStep::Finish(UpdateOutcome::UpToDate(t)) => assert_eq!(t, "v0.2.0"),
        other => panic!("unexpected {other:?}"),
    }
    let mut u = start();
    assert!(matches!(
        u.step(UpdateEvent::Fetched(Ok("0.1.9".to_string()))),
        UpdateStep::Finish(UpdateOutcome::UpToDate(_))
    ));
}

#[test]
fn bad_download_stops_before_the_overlay_is_touched() {
    let mut u = start();
    u.step(UpdateEvent::Fetched(Ok("v0.3.0".to_string())));
    assert!(matches!(
        u.step(UpdateEvent::Downloaded(Ok((b"abd".to_vec(), ABC_SIDECAR.to_string())))),
        UpdateStep::Finish(UpdateOutcome::Failed(UpdateError::Checksum(ChecksumError::Mismatch)))
    ));
    let mut u = start();
    u.step(UpdateEvent::Fetched(Ok("v0.3.0".to_string())));
    assert!(matches!(
        u.step(UpdateEvent::Downloaded(Ok((b"abc".to_vec(), "garbage".to_string())))),
        UpdateStep::Finish(UpdateOutcome::Failed(UpdateError::Checksum(ChecksumError::Malformed)))
    ));
    let mut u = start();
    u.step(UpdateEvent::Fetched(Ok("v0.3.0".to_string())));
    assert!(matches!(
        u.step(UpdateEvent::Downloaded(Err("HTTP 404".to_string()))),
        UpdateStep::Finish(UpdateOutcome::Failed(UpdateError::Download(_)))
    ));
}

#[test]
fn failed_new_binary_is_rolled_back() {
    let mut u = start();
    through_download(&mut u);
    u.step(UpdateEvent::Stopped(Ok(())));
    assert!(matches!(u.step(UpdateEvent::Done), UpdateStep::Restart));
    assert!(matches!(u.step(UpdateEvent::Failed("exit 1".into())), UpdateStep::RollBack));
    assert!(matches!(u.step(UpdateEvent::Done), UpdateStep::Restart));
    match u.step(UpdateEvent::Done) {
        UpdateStep::Finish(UpdateOutcome::Failed(UpdateError::RolledBack(e, true))) => {
            assert_eq!(e, "exit 1")
        }
        other => panic!("unexpected {other:?}"),
    }
}

#[test]
fn failed_install_restarts_old_overlay() {
    let mut u = start();
    through_download(&mut u);
    u.step(UpdateEvent::Stopped(Ok(())));
    assert!(matches!(u.step(UpdateEvent::Failed("EXDEV".into())), UpdateStep::RemoveBackup));
    assert!(matches!(u.step(UpdateEvent::Done), UpdateStep::Restart));
    assert!(matches!(u.step(UpdateEvent::Failed("no".into())), UpdateStep::RemoveTemp));
    assert!(matches!(
        u.step(UpdateEvent::Done),
        UpdateStep::Finish(UpdateOutcome::Failed(UpdateError::Install(_)))
    ));
}

#[test]
fn failed_install_without_overlay_removes_temp() {
    let mut u = start();
    through_download(&mut u);
    u.step(UpdateEvent::Stopped(Err(StopError::NotRunning)));
    assert!(matches!(u.step(UpdateEvent::Failed("EXDEV".into())), UpdateStep::RemoveBackup));
    assert!(matches!(u.step(UpdateEvent::Done), UpdateStep::RemoveTemp));
    assert!(matches!(
        u.step(UpdateEvent::Failed("gone".into())),
        UpdateStep::Finish(UpdateOutcome::Failed(UpdateError::Install(_)))
    ));
}

#[test]
fn failed_write_or_backup_removes_temp() {
    let mut u = start();
    u.step(UpdateEvent::Fetched(Ok("v0.3.0".to_string())));
    u.step(UpdateEvent::Downloaded(Ok((b"abc".to_vec(), ABC_SIDECAR.to_string()))));
    assert!(matches!(u.step(UpdateEvent::Failed("ENOSPC".into())), UpdateStep::RemoveTemp));
    match u.step(UpdateEvent::Done) {
        UpdateStep::Finish(UpdateOutcome::Failed(UpdateError::Write(m))) => assert_eq!(m, "ENOSPC"),
        other => panic!("unexpected {other:?}"),
    }
    let mut u = start();
    u.step(UpdateEvent::Fetched(Ok("v0.3.0".to_string())));
    u.step(UpdateEvent::Downloaded(Ok((b"abc".to_vec(), ABC_SIDECAR.to_string()))));
    assert!(matches!(u.step(UpdateEvent::Done), UpdateStep::Backup));
    assert!(matches!(u.step(UpdateEvent::Failed("EPERM".into())), UpdateStep::RemoveTemp));
    assert!(matches!(
        u.step(UpdateEvent::Done),
        UpdateStep::Finish(UpdateOutcome::Failed(UpdateError::Backup(_)))
    ));
}

#[test]
fn stubborn_overlay_blocks_the_update() {
    let mut u = start();
    through_download(&mut u);
    assert!(matches!(
        u.step(UpdateEvent::Stopped(Err(StopError::Timeout(77)))),
        UpdateStep::RemoveBackup
    ));
    assert!(matches!(u.step(UpdateEvent::Done), UpdateStep::RemoveTemp));
    assert!(matches!(
        u.step(UpdateEvent::Done),
        UpdateStep::Finish(UpdateOutcome::Failed(UpdateError::StopTimeout(77)))
    ));
}

#[test]
fn early_failures_finish_the_update() {
    let (_, s) = Updater::new("0.2.0".into(), Err("no /proc".into()));
    assert!(matches!(s, UpdateStep::Finish(UpdateOutcome::Failed(UpdateError::NoExe(_)))));
    let (_, s) = Updater::new(
        "0.2.0".into(),
        Ok(vec!["/".into(), "src".into(), "target".into(), "release".into(), "crosshair".into()]),
    );
    assert!(matches!(s, UpdateStep::Finish(UpdateOutcome::Failed(UpdateError::BuildArtifact))));
    let (mut u, _) = Updater::new("0.2.0".into(), exe());
    assert!(matches!(
        u.step(UpdateEvent::Failed("EROFS".into())),
        UpdateStep::Finish(UpdateOutcome::Failed(UpdateError::NotWritable(_)))
    ));
    let mut u = start();
    assert!(matches!(
        u.step(UpdateEvent::Fetched(Err(FetchError::RateLimited))),
        UpdateStep::Finish(UpdateOutcome::Failed(UpdateError::Fetch(FetchError::RateLimited)))
    ));
    let mut u = start();
    match u.step(UpdateEvent::Fetched(Ok("nightly".into()))) {
        UpdateStep::Finish(UpdateOutcome::Failed(UpdateError::BadVersion(e))) => {
            assert_eq!(e.input, "nightly")
        }
        other => panic!("unexpected {other:?}"),
    }
}

#[test]
fn build_artifacts_are_recognised() {
    assert!(is_build_artifact(&vec!["target".to_string()]));
    assert!(!is_build_artifact(&vec!["targets".to_string(), "bin".to_string()]));
    assert!(!is_build_artifact(&Vec::new()));
}

#[test]
fn panel_link_only_for_newer_releases() {
    assert_eq!(latest_if_newer("0.2.0", Ok("v0.3.0".to_string())), Some("v0.3.0".to_string()));
    assert_eq!(latest_if_newer("0.2.0", Ok("v0.2.0".to_string())), None);
    assert_eq!(latest_if_newer("0.2.0", Ok("0.1.0".to_string())), None);
    assert_eq!(latest_if_newer("0.2.0", Ok("junk".to_string())), None);
    assert_eq!(latest_if_newer("0.2.0", Err(FetchError::NoTag)), None);
}

#[test]
fn version_order_examples_of_the_laws() {
    // antisymmetry and reflexivity
    assert_eq!(version_cmp("1.10", "1.9.9").unwrap(), Ordering::Greater);
    assert_eq!(version_cmp("1.9.9", "1.10").unwrap(), Ordering::Less);
    assert_eq!(version_cmp(" v2.0.1\n", "2.0.1").unwrap(), Ordering::Equal);
    // a prerelease suffix is older than the plain release
    assert_eq!(version_cmp("3.1-beta", "3.1").unwrap(), Ordering::Less);
    assert_eq!(version_cmp("3.1 -x", "3.1 ").unwrap(), Ordering::Less);
    // components beyond the third are ignored, trailing garbage after digits too
    assert_eq!(version_cmp("1.2.3.4", "1.2.3").unwrap(), Ordering::Equal);
    assert_eq!(version_cmp("1.2x", "1.2").unwrap(), Ordering::Equal);
    // errors name the input that did not parse
    assert_eq!(version_cmp("1.0", "x").unwrap_err().input, "x");
    assert_eq!(version_cmp("", "1.0").unwrap_err().input, "");
    assert_eq!(version_cmp("18446744073709551616", "1").unwrap_err().input, "18446744073709551616");
    assert_eq!(version_cmp("18446744073709551615", "1").unwrap(), Ordering::Greater);
    assert!(version_cmp("1.2.", "1.2").is_err());
    assert_eq!(version_cmp("1.2.3.", "1.2.3").unwrap(), Ordering::Equal);
}
