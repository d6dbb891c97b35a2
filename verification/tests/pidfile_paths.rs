use crosshair::pidfile::{
    candidate_dirs, is_private_dir, log_path, parse_pid, path, pid_file_contents, private_dir,
    running_pid, runtime_dir, stop_exit_code, stop_step, user_runtime_dir, Probe, RuntimeDir,
    SearchAction, SearchEvent, StopAction, StopError, StopState,
};
use crosshair::text::same_path_of;

#[test]
fn pid_and_log_paths_join_the_directory() {
    assert_eq!(path("/run/user/1000"), "/run/user/1000/crosshair.pid");
    assert_eq!(log_path("/run/user/1000"), "/run/user/1000/crosshair.log");
    assert_eq!(path("/run/user/1000/"), "/run/user/1000/crosshair.pid");
    assert_eq!(path(""), "crosshair.pid");
}

#[test]
fn per_user_directories() {
    assert_eq!(private_dir(1000), "/tmp/crosshair-1000");
    assert_eq!(user_runtime_dir(0), "/run/user/0");
    match runtime_dir(None, 42) {
        RuntimeDir::Private(p) => assert_eq!(p, "/tmp/crosshair-42"),
        RuntimeDir::Given(_) => panic!("expected the private directory"),
    }
    match runtime_dir(Some("/xdg".to_string()), 42) {
        RuntimeDir::Given(p) => assert_eq!(p, "/xdg"),
        RuntimeDir::Private(_) => panic!("expected XDG_RUNTIME_DIR"),
    }
}

#[test]
fn private_dir_must_be_ours_and_closed() {
    assert!(is_private_dir(true, 1000, 1000, 0o700));
    assert!(!is_private_dir(false, 1000, 1000, 0o700));
    assert!(!is_private_dir(true, 0, 1000, 0o700));
    assert!(!is_private_dir(true, 1000, 1000, 0o750));
    assert!(!is_private_dir(true, 1000, 1000, 0o702));
}

#[test]
fn candidate_dirs_are_probed_in_order_without_duplicates() {
    assert_eq!(
        candidate_dirs(None, 1000),
        vec!["/run/user/1000".to_string(), "/tmp/crosshair-1000".to_string()]
    );
    assert_eq!(
        candidate_dirs(Some("/xdg".to_string()), 7),
        vec!["/xdg".to_string(), "/tmp/crosshair-7".to_string()]
    );
    assert_eq!(
        candidate_dirs(Some("/tmp/crosshair-7".to_string()), 7),
        vec!["/tmp/crosshair-7".to_string()]
    );
}

#[test]
fn candidate_dirs_compare_as_paths() {
    for same in ["/tmp/crosshair-7/", "/tmp//crosshair-7", "/tmp/./crosshair-7/."] {
        assert_eq!(
            candidate_dirs(Some(same.to_string()), 7),
            vec![same.to_string()],
            "{same}"
        );
    }
    assert_eq!(
        candidate_dirs(Some("tmp/crosshair-7".to_string()), 7),
        vec!["tmp/crosshair-7".to_string(), "/tmp/crosshair-7".to_string()]
    );
    assert_eq!(
        candidate_dirs(Some("/tmp/crosshair-70".to_string()), 7).len(),
        2
    );
}

#[test]
fn paths_are_equal_by_components() {
    assert!(same_path_of("/a/b", "/a/b/"));
    assert!(same_path_of("/a//b", "/a/./b"));
    assert!(same_path_of("a/b", "a/b/."));
    assert!(same_path_of("./a", "./a/"));
    assert!(same_path_of("", ""));
    assert!(!same_path_of(".", ""));
    assert!(!same_path_of("./a", "a"));
    assert!(!same_path_of("/a", "a"));
    assert!(!same_path_of("/a/../b", "/b"));
    assert!(!same_path_of("/a/b", "/a/c"));
    assert!(!same_path_of("/a/b", "/a/b/c"));
}

#[test]
fn pid_file_text_parses() {
    assert_eq!(parse_pid("1234\n"), Some(1234));
    assert_eq!(parse_pid("  +77 "), Some(77));
    assert_eq!(parse_pid("0"), None);
    assert_eq!(parse_pid("-5"), None);
    assert_eq!(parse_pid("-0"), None);
    assert_eq!(parse_pid(""), None);
    assert_eq!(parse_pid("+"), None);
    assert_eq!(parse_pid("12a"), None);
    assert_eq!(parse_pid("2147483647"), Some(2147483647));
    assert_eq!(parse_pid("2147483648"), None);
    assert_eq!(parse_pid("99999999999999999999999"), None);
}

#[test]
fn pid_file_contents_round_trip() {
    assert_eq!(pid_file_contents(4242), "4242\n");
    for pid in [1u32, 9, 10, 4242, 2147483647] {
        assert_eq!(parse_pid(&pid_file_contents(pid)), Some(pid as i32));
    }
}

fn dirs() -> Vec<String> {
    vec!["/a".to_string(), "/b".to_string()]
}

/// Drive a search to its answer: `probe` answers each probe, `alive`
/// each liveness check. Returns the answer and the paths probed.
fn search(
    dirs: Vec<String>,
    probe: impl Fn(&str) -> Probe,
    alive: impl Fn(i32) -> bool,
) -> (Option<i32>, Vec<String>) {
    let (mut s, mut a) = running_pid(dirs);
    let mut probed = Vec::new();
    loop {
        let e = match a {
            SearchAction::Probe(p) => {
                let seen = probe(&p);
                probed.push(p);
                SearchEvent::Probed(seen)
            }
            SearchAction::CheckAlive(pid) => SearchEvent::Alive(alive(pid)),
            SearchAction::Answer(r) => return (r, probed),
        };
        a = s.step(e);
    }
}

#[test]
fn running_pid_takes_the_first_live_holder() {
    let (r, probed) = search(
        dirs(),
        |p| {
            if p == "/a/crosshair.pid" {
                Probe::Stale
            } else {
                Probe::Held(Some("31\n".to_string()))
            }
        },
        |pid| pid == 31,
    );
    assert_eq!(r, Some(31));
    assert_eq!(probed, vec!["/a/crosshair.pid", "/b/crosshair.pid"]);
}

#[test]
fn running_pid_stops_at_the_first_hit() {
    let (r, probed) = search(dirs(), |_| Probe::Held(Some("12".to_string())), |_| true);
    assert_eq!(r, Some(12));
    assert_eq!(probed, vec!["/a/crosshair.pid"]);
}

#[test]
fn running_pid_skips_dead_and_malformed() {
    let (r, probed) = search(
        dirs(),
        |p| {
            if p == "/a/crosshair.pid" {
                Probe::Held(Some("-1".to_string()))
            } else {
                Probe::Held(Some("77".to_string()))
            }
        },
        |_| false,
    );
    assert_eq!(r, None);
    assert_eq!(probed.len(), 2);
    assert_eq!(search(dirs(), |_| Probe::Absent, |_| true).0, None);
    assert_eq!(search(dirs(), |_| Probe::Held(None), |_| true).0, None);
    assert_eq!(search(Vec::new(), |_| Probe::Absent, |_| true), (None, Vec::new()));
}

/// Drive a stop to its result: `alive` answers the checks in order.
fn stop(pid: Option<i32>, alive: impl Fn(u32) -> bool) -> (Result<(), StopError>, Vec<StopAction>) {
    let mut s = StopState::Start(pid);
    let mut answer = false;
    let mut checks = 0u32;
    let mut actions = Vec::new();
    loop {
        let (t, a) = stop_step(s, answer);
        actions.push(a);
        match a {
            StopAction::Check(_) => {
                checks += 1;
                answer = alive(checks);
            }
            StopAction::Done(r) => return (r, actions),
            _ => {}
        }
        s = t;
    }
}

#[test]
fn stop_daemon_outcomes() {
    let (r, actions) = stop(None, |_| true);
    assert_eq!(r, Err(StopError::NotRunning));
    assert_eq!(actions, vec![StopAction::Done(Err(StopError::NotRunning))]);

    let (r, actions) = stop(Some(9), |n| n < 3);
    assert_eq!(r, Ok(()));
    assert_eq!(
        actions,
        vec![
            StopAction::Signal(9),
            StopAction::Check(9),
            StopAction::Pause,
            StopAction::Check(9),
            StopAction::Pause,
            StopAction::Check(9),
            StopAction::RemovePidFile,
            StopAction::Done(Ok(())),
        ]
    );

    let (r, actions) = stop(Some(9), |_| true);
    assert_eq!(r, Err(StopError::Timeout(9)));
    let count = |want: StopAction| actions.iter().filter(|a| **a == want).count();
    assert_eq!(count(StopAction::Signal(9)), 1);
    assert_eq!(count(StopAction::Check(9)), 40);
    assert_eq!(count(StopAction::Pause), 40);
    assert_eq!(actions.len(), 1 + 40 + 40 + 1);
    assert_eq!(actions[0], StopAction::Signal(9));
}

#[test]
fn stop_exit_codes() {
    assert_eq!(stop_exit_code(&Ok(())), 0);
    assert_eq!(stop_exit_code(&Err(StopError::NotRunning)), 1);
    assert_eq!(stop_exit_code(&Err(StopError::Timeout(3))), 1);
}
