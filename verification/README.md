# crosshair

A click-through crosshair overlay for Linux: a dot at the center of every
monitor, a calibration panel that nudges it, and a self-updater that
verifies releases by SHA-256.

The crate is split in two:

- `src/` is the verified library (Verus). It holds the decisions and
  parsers: version ordering and the update state machine (`update`,
  `version`, `release`), checksum sidecars (`checksum`), PID files, runtime
  directories and finding or stopping the daemon (`pidfile`), the dot's
  configuration and drawing parameters (`config`), the calibration panel's
  offsets and labels (`calibrate`), backend choice (`backend`), the command
  (`cli`), the daemon's readiness report (`daemon`), window placement and
  titles (`overlay`, `x11`), and shared character helpers (`text`).
- `app/` is the program around it: argument parsing, GTK windows and
  drawing, X11 housekeeping, forking into the background, files, signals
  and HTTP. It performs what the library decides.

`tests/` exercises the library on concrete values.
