//! The command line: one of --start, --stop, --calibrate, --update.
use vstd::prelude::*;

verus! {

/// Click-through crosshair overlay for Linux. The flags exclude each other.
pub struct Cli {
    /// Start the crosshair overlay.
    pub start: bool,
    /// Stop a running crosshair instance.
    pub stop: bool,
    /// Open the calibration panel to move the dot live.
    pub calibrate: bool,
    /// Update crosshair to the latest GitHub release.
    pub update: bool,
}

/// What the program does.
#[derive(Clone, Copy, PartialEq, Eq, Debug)]
pub enum Command {
    Start,
    Stop,
    Calibrate,
    Update,
}

impl Cli {
    /// The command the flags ask for: --calibrate, --stop and --update in
    /// that order of precedence, --start otherwise (the argument parser
    /// rejects an empty command line and conflicting flags).
    pub fn command(&self) -> (c: Command)
        ensures
            c == (if self.calibrate {
                Command::Calibrate
            } else if self.stop {
                Command::Stop
            } else if self.update {
                Command::Update
            } else {
                Command::Start
            }),
    {
        if self.calibrate {
            Command::Calibrate
        } else if self.stop {
            Command::Stop
        } else if self.update {
            Command::Update
        } else {
            Command::Start
        }
    }
}

} // verus!
