//! Decisions and parsers of a click-through crosshair overlay for Linux,
//! verified with Verus: version ordering and release checks for the
//! self-updater, checksum verification, PID-file and runtime-directory
//! rules, the dot's configuration, the calibration panel's offsets, and the
//! daemon's readiness report.
pub mod backend;
pub mod calibrate;
pub mod checksum;
pub mod cli;
pub mod config;
pub mod daemon;
pub mod overlay;
pub mod pidfile;
pub mod release;
pub mod text;
pub mod update;
pub mod version;
pub mod x11;
