use crosshair::backend::{detect, Backend};
use crosshair::cli::{Cli, Command};
use crosshair::daemon::{failure_report, launcher_exit_code, readiness, ready_report, Readiness};
use crosshair::overlay::{window_placements, x11_window_title};
use crosshair::x11::{add_state_message, title_from_property};

fn cli(start: bool, stop: bool, calibrate: bool, update: bool) -> Cli {
    Cli { start, stop, calibrate, update }
}

#[test]
fn flags_select_the_command() {
    assert_eq!(cli(true, false, false, false).command(), Command::Start);
    assert_eq!(cli(false, true, false, false).command(), Command::Stop);
    assert_eq!(cli(false, false, true, false).command(), Command::Calibrate);
    assert_eq!(cli(false, false, false, true).command(), Command::Update);
}

#[test]
fn backend_detection() {
    assert_eq!(detect(Some("x11"), true, true, || panic!("not asked")), Some(Backend::X11));
    assert_eq!(detect(Some("wayland"), true, false, || true), Some(Backend::LayerShell));
    assert_eq!(detect(None, true, true, || false), Some(Backend::XdgFallback));
    assert_eq!(detect(None, false, true, || panic!("not asked")), Some(Backend::X11));
    assert_eq!(detect(None, false, false, || true), None);
}

#[test]
fn readiness_reports_round_trip() {
    assert_eq!(readiness(&ready_report()), Readiness::Ready);
    let f = failure_report("already running");
    assert_eq!(f, "E:already running");
    assert_eq!(readiness(&f), Readiness::Failed("already running".to_string()));
    assert_eq!(readiness(""), Readiness::Silent);
    assert_eq!(readiness("E"), Readiness::Silent);
    assert_eq!(readiness("E:"), Readiness::Failed(String::new()));
    assert_eq!(launcher_exit_code(&Readiness::Ready), 0);
    assert_eq!(launcher_exit_code(&Readiness::Silent), 1);
    assert_eq!(launcher_exit_code(&Readiness::Failed("x".to_string())), 1);
}

#[test]
fn one_window_per_monitor() {
    assert_eq!(window_placements(0), vec![None]);
    assert_eq!(window_placements(3), vec![Some(0), Some(1), Some(2)]);
    assert_eq!(x11_window_title(4242, 1), "crosshair-4242-1");
}

#[test]
fn x11_titles_must_be_utf8_strings() {
    assert_eq!(title_from_property(8, b"crosshair-1-0".to_vec()), Some("crosshair-1-0".to_string()));
    assert_eq!(title_from_property(32, b"crosshair".to_vec()), None);
    assert_eq!(title_from_property(8, Vec::new()), None);
    assert_eq!(title_from_property(8, vec![0xff, 0xfe]), None);
    assert_eq!(add_state_message(77), [1, 77, 0, 0, 0]);
}
