//! Calibration panel decisions: which offsets the arrow keys, the sliders
//! and Reset commit, and how an offset is labelled.
use vstd::prelude::*;

use crate::config::{clamp, clamp_i32, MAX_OFFSET};
use crate::text::{decimal_digits, decimal_of, string_from_chars};

verus! {

/// The sliders cover ±100 px (fine calibration); the arrow keys reach the
/// full offset range.
pub const SLIDER_LIMIT: i32 = 100;

/// An offset axis.
#[derive(Clone, Copy, PartialEq, Eq, Debug)]
pub enum Axis {
    X,
    Y,
}

/// A key pressed in the panel.
#[derive(Clone, Copy, PartialEq, Eq, Debug)]
pub enum Key {
    Escape,
    Left,
    Right,
    Up,
    Down,
    Other,
}

/// What a key press does.
#[derive(Clone, Copy, PartialEq, Eq, Debug)]
pub enum KeyAction {
    /// Close the panel.
    Close,
    /// Move one axis by this many logical pixels.
    Step(Axis, i32),
    /// Let the key through.
    Ignore,
}

/// Esc closes; Left/Right move horizontally and Up/Down vertically, one
/// pixel per press (positive = right/down).
pub fn key_action(key: Key) -> (a: KeyAction)
    ensures
        a == match key {
            Key::Escape => KeyAction::Close,
            Key::Left => KeyAction::Step(Axis::X, -1i32),
            Key::Right => KeyAction::Step(Axis::X, 1i32),
            Key::Up => KeyAction::Step(Axis::Y, -1i32),
            Key::Down => KeyAction::Step(Axis::Y, 1i32),
            Key::Other => KeyAction::Ignore,
        },
{
    match key {
        Key::Escape => KeyAction::Close,
        Key::Left => KeyAction::Step(Axis::X, -1),
        Key::Right => KeyAction::Step(Axis::X, 1),
        Key::Up => KeyAction::Step(Axis::Y, -1),
        Key::Down => KeyAction::Step(Axis::Y, 1),
        Key::Other => KeyAction::Ignore,
    }
}

/// The offsets that committing `(offset_x, offset_y)` saves: each clamped
/// to the full ±2000 range.
pub fn commit_offsets(offset_x: i32, offset_y: i32) -> (r: (i32, i32))
    ensures
        r.0 == clamp(offset_x as int, -MAX_OFFSET as int, MAX_OFFSET as int),
        r.1 == clamp(offset_y as int, -MAX_OFFSET as int, MAX_OFFSET as int),
{
    (clamp_i32(offset_x, -MAX_OFFSET, MAX_OFFSET), clamp_i32(offset_y, -MAX_OFFSET, MAX_OFFSET))
}

/// The offsets a step of `delta` pixels along `axis` commits, from the
/// last committed `current` offsets.
pub fn step(current: (i32, i32), axis: Axis, delta: i32) -> (r: (i32, i32))
    requires
        i32::MIN <= (match axis {
            Axis::X => current.0,
            Axis::Y => current.1,
        }) + delta <= i32::MAX,
    ensures
        r == (match axis {
            Axis::X => (
                clamp(current.0 + delta, -MAX_OFFSET as int, MAX_OFFSET as int) as i32,
                clamp(current.1 as int, -MAX_OFFSET as int, MAX_OFFSET as int) as i32,
            ),
            Axis::Y => (
                clamp(current.0 as int, -MAX_OFFSET as int, MAX_OFFSET as int) as i32,
                clamp(current.1 + delta, -MAX_OFFSET as int, MAX_OFFSET as int) as i32,
            ),
        }),
{
    let (x, y) = current;
    match axis {
        Axis::X => commit_offsets(x + delta, y),
        Axis::Y => commit_offsets(x, y + delta),
    }
}

/// The offsets a slider drag to `value` along `axis` commits, or `None`
/// when the value is the one already committed (the echo of a
/// programmatic move).
pub fn slider_target(value: i32, current: (i32, i32), axis: Axis) -> (r: Option<(i32, i32)>)
    ensures
        r == (match axis {
            Axis::X => if value == current.0 {
                None
            } else {
                Some(
                    (
                        clamp(value as int, -MAX_OFFSET as int, MAX_OFFSET as int) as i32,
                        clamp(current.1 as int, -MAX_OFFSET as int, MAX_OFFSET as int) as i32,
                    ),
                )
            },
            Axis::Y => if value == current.1 {
                None
            } else {
                Some(
                    (
                        clamp(current.0 as int, -MAX_OFFSET as int, MAX_OFFSET as int) as i32,
                        clamp(value as int, -MAX_OFFSET as int, MAX_OFFSET as int) as i32,
                    ),
                )
            },
        }),
{
    let (x, y) = current;
    match axis {
        Axis::X => if value != x {
            Some(commit_offsets(value, y))
        } else {
            None
        },
        Axis::Y => if value != y {
            Some(commit_offsets(x, value))
        } else {
            None
        },
    }
}

/// Where a slider's knob sits for an offset: pegged at the end of its
/// ±100 range beyond it.
pub fn slider_position(offset: i32) -> (p: i32)
    ensures
        p == clamp(offset as int, -SLIDER_LIMIT as int, SLIDER_LIMIT as int),
{
    clamp_i32(offset, -SLIDER_LIMIT, SLIDER_LIMIT)
}

/// An offset with its sign always shown (`format!("{:+}", offset)`): `+`
/// for zero and up, `-` below, then the decimal digits of its magnitude.
pub open spec fn signed_label(offset: int) -> Seq<char> {
    if offset >= 0 {
        seq!['+'] + decimal_digits(offset as nat)
    } else {
        seq!['-'] + decimal_digits((-offset) as nat)
    }
}

/// The text of an offset's value label.
pub fn offset_label(offset: i32) -> (s: String)
    ensures
        s@ == signed_label(offset as int),
{
    let mut out: Vec<char> = Vec::new();
    let magnitude: u64 = if offset >= 0 {
        out.push('+');
        offset as u64
    } else {
        out.push('-');
        (-(offset as i64)) as u64
    };
    let digits = decimal_of(magnitude);
    crate::text::push_chars(&mut out, &digits);
    string_from_chars(&out)
}

} // verus!
