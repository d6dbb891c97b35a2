//! The dot's configuration (`~/.config/crosshair/config.toml`), its
//! defaults, and the drawing parameters derived from it.
use vstd::prelude::*;

use crate::checksum::{hex_pair, hex_value};
use crate::text::{
    chars_of, copy_range, is_space, join_path, lemma_trim_start_all_space,
    lemma_trim_start_append, path_join, trim, trim_end, trim_of, trim_start,
};

verus! {

/// The whole configuration file.
pub struct Config {
    /// The `[dot]` table.
    pub dot: DotConfig,
}

/// The `[dot]` table.
pub struct DotConfig {
    /// Side of the square dot in pixels (drawn clamped to 2..=64).
    pub size: u32,
    /// `#rgb` or `#rrggbb`.
    pub color: String,
    /// Nudge the dot off the screen center: positive x = right, positive
    /// y = down, in logical pixels. Signed so the dot can be pushed any way.
    pub offset_x: i32,
    pub offset_y: i32,
}

/// The default dot color: white.
pub const DEFAULT_COLOR: &'static str = "#ffffff";

/// The default dot size in pixels.
pub const DEFAULT_SIZE: u32 = 4;

/// Smallest and largest dot size that is drawn.
pub const MIN_SIZE: u32 = 2;

pub const MAX_SIZE: u32 = 64;

/// Largest offset from the screen center, either way, on either axis.
pub const MAX_OFFSET: i32 = 2000;

impl DotConfig {
    /// Whether `self` is the default dot: 4 px, white, centered.
    pub open spec fn is_default(&self) -> bool {
        &&& self.size == DEFAULT_SIZE
        &&& self.color@ == DEFAULT_COLOR@
        &&& self.offset_x == 0
        &&& self.offset_y == 0
    }
}

impl Default for DotConfig {
    fn default() -> (d: Self)
        ensures
            d.is_default(),
    {
        DotConfig { size: DEFAULT_SIZE, color: DEFAULT_COLOR.to_owned(), offset_x: 0, offset_y: 0 }
    }
}

impl Default for Config {
    fn default() -> (c: Self)
        ensures
            c.dot.is_default(),
    {
        Config { dot: DotConfig::default() }
    }
}

/// `s` without its leading `#` characters (`trim_start_matches('#')`).
pub open spec fn strip_hash(s: Seq<char>) -> Seq<char>
    decreases s.len(),
{
    if s.len() > 0 && s[0] == '#' {
        strip_hash(s.drop_first())
    } else {
        s
    }
}

/// The color that `#rrggbb` or `#rgb` (whitespace around it and any number
/// of leading `#` allowed) names, as 8-bit channels: each pair of hex
/// digits is one channel, each single digit `x` stands for `xx`. `None` on
/// anything else.
pub open spec fn hex_rgb(s: Seq<char>) -> Option<(u8, u8, u8)> {
    let t = strip_hash(trim(s));
    if !is_ascii_text(t) {
        None
    } else if t.len() == 6 {
        match (hex_pair(t[0], t[1]), hex_pair(t[2], t[3]), hex_pair(t[4], t[5])) {
            (Some(r), Some(g), Some(b)) => Some((r, g, b)),
            _ => None,
        }
    } else if t.len() == 3 {
        match (hex_value(t[0]), hex_value(t[1]), hex_value(t[2])) {
            (Some(r), Some(g), Some(b)) => Some(((r * 17) as u8, (g * 17) as u8, (b * 17) as u8)),
            _ => None,
        }
    } else {
        None
    }
}

/// Every character of `s` is ASCII (`str::is_ascii`).
pub open spec fn is_ascii_text(s: Seq<char>) -> bool {
    forall|i: int| 0 <= i < s.len() ==> (#[trigger] s[i] as u32) < 128
}

/// `s` without its leading `#` characters.
fn strip_hash_of(s: &[char]) -> (out: Vec<char>)
    ensures
        out@ == strip_hash(s@),
{
    let mut i: usize = 0;
    assert(s@.skip(0) =~= s@);
    while i < s.len() && s[i] == '#'
        invariant
            i <= s@.len(),
            strip_hash(s@) == strip_hash(s@.skip(i as int)),
        decreases s@.len() - i,
    {
        assert(s@.skip(i as int).drop_first() =~= s@.skip(i + 1));
        i = i + 1;
    }
    copy_range(s, i, s.len())
}

/// Whether every character of `s` is ASCII.
fn all_ascii(s: &[char]) -> (r: bool)
    ensures
        r == is_ascii_text(s@),
{
    let mut i: usize = 0;
    while i < s.len()
        invariant
            i <= s@.len(),
            forall|k: int| 0 <= k < i ==> (#[trigger] s@[k] as u32) < 128,
        decreases s@.len() - i,
    {
        if s[i] as u32 >= 128 {
            return false;
        }
        i = i + 1;
    }
    true
}

/// One channel from a single hex digit, scaled to 8 bits (`f` is 255).
fn hex_digit_of(c: char) -> (r: Option<u8>)
    ensures
        match hex_value(c) {
            Some(h) => r == Some((h * 17) as u8),
            None => r is None,
        },
{
    let u = c as u32;
    if 48 <= u && u <= 57 {
        Some((u - 48) as u8 * 17)
    } else if 97 <= u && u <= 102 {
        Some((u - 87) as u8 * 17)
    } else if 65 <= u && u <= 70 {
        Some((u - 55) as u8 * 17)
    } else {
        None
    }
}

/// One channel from two characters.
fn hex_pair_value(c0: char, c1: char) -> (r: Option<u8>)
    ensures
        r == hex_pair(c0, c1),
{
    let h = hex_digit_of(c0);
    let l = hex_digit_of(c1);
    match (h, l) {
        (Some(h), Some(l)) => Some((h / 17) * 16 + l / 17),
        _ => None,
    }
}

/// Parse `#rrggbb` or `#rgb` into 8-bit channels. Returns `None` on bad input.
pub fn parse_hex_rgb(s: &str) -> (r: Option<(u8, u8, u8)>)
    ensures
        r == hex_rgb(s@),
{
    let chars = chars_of(s);
    let trimmed = trim_of(&chars);
    let t = strip_hash_of(&trimmed);
    if !all_ascii(&t) {
        return None;
    }
    if t.len() == 6 {
        match (hex_pair_value(t[0], t[1]), hex_pair_value(t[2], t[3]), hex_pair_value(t[4], t[5])) {
            (Some(r), Some(g), Some(b)) => Some((r, g, b)),
            _ => None,
        }
    } else if t.len() == 3 {
        match (hex_digit_of(t[0]), hex_digit_of(t[1]), hex_digit_of(t[2])) {
            (Some(r), Some(g), Some(b)) => Some((r, g, b)),
            _ => None,
        }
    } else {
        None
    }
}

/// `c` and `d` are the same character up to ASCII case
/// (`char::eq_ignore_ascii_case`).
pub open spec fn same_ignoring_case(c: char, d: char) -> bool {
    ||| c == d
    ||| 97 <= c as u32 <= 122 && d as u32 == c as u32 - 32
    ||| 97 <= d as u32 <= 122 && c as u32 == d as u32 - 32
}

/// `s` and `t` are the same text up to ASCII case
/// (`str::eq_ignore_ascii_case`), as `s` and `s.to_ascii_uppercase()` are.
pub open spec fn same_text_ignoring_case(s: Seq<char>, t: Seq<char>) -> bool {
    &&& s.len() == t.len()
    &&& forall|i: int| 0 <= i < s.len() ==> same_ignoring_case(#[trigger] s[i], t[i])
}

/// Case does not change whitespace, `#`, ASCII-ness or a hex digit's value.
proof fn lemma_case_char(c: char, d: char)
    requires
        same_ignoring_case(c, d),
    ensures
        is_space(c) == is_space(d),
        (c == '#') == (d == '#'),
        ((c as u32) < 128) == ((d as u32) < 128),
        hex_value(c) == hex_value(d),
{
}

/// Dropping the first or last character keeps two texts equal up to case.
proof fn lemma_case_drop(s: Seq<char>, t: Seq<char>)
    requires
        same_text_ignoring_case(s, t),
        s.len() > 0,
    ensures
        same_text_ignoring_case(s.drop_first(), t.drop_first()),
        same_text_ignoring_case(s.drop_last(), t.drop_last()),
{
    assert forall|i: int| 0 <= i < s.len() - 1 implies same_ignoring_case(
        #[trigger] s.drop_first()[i],
        t.drop_first()[i],
    ) by {
        assert(same_ignoring_case(s[i + 1], t[i + 1]));
    }
    assert forall|i: int| 0 <= i < s.len() - 1 implies same_ignoring_case(
        #[trigger] s.drop_last()[i],
        t.drop_last()[i],
    ) by {
        assert(same_ignoring_case(s[i], t[i]));
    }
}

/// Trimming and stripping `#` keep two texts equal up to case.
proof fn lemma_case_trim(s: Seq<char>, t: Seq<char>)
    requires
        same_text_ignoring_case(s, t),
    ensures
        same_text_ignoring_case(trim_start(s), trim_start(t)),
        same_text_ignoring_case(trim_end(s), trim_end(t)),
        same_text_ignoring_case(strip_hash(s), strip_hash(t)),
    decreases s.len(),
{
    if s.len() > 0 {
        lemma_case_char(s[0], t[0]);
        lemma_case_char(s.last(), t.last());
        lemma_case_drop(s, t);
        lemma_case_trim(s.drop_first(), t.drop_first());
        lemma_case_trim(s.drop_last(), t.drop_last());
    }
}

/// Case does not matter to a color: `#ABCDEF` is `#abcdef`, and a text
/// equal to `s` up to ASCII case names the color `s` names (or none).
pub proof fn law_color_ignores_case(s: Seq<char>, t: Seq<char>)
    requires
        same_text_ignoring_case(s, t),
    ensures
        hex_rgb(s) == hex_rgb(t),
{
    lemma_case_trim(s, t);
    lemma_case_trim(trim_start(s), trim_start(t));
    let a = strip_hash(trim(s));
    let b = strip_hash(trim(t));
    lemma_case_trim(trim(s), trim(t));
    assert forall|i: int| 0 <= i < a.len() implies (((#[trigger] a[i] as u32) < 128) == ((b[i] as u32)
        < 128)) && hex_value(a[i]) == hex_value(b[i]) by {
        lemma_case_char(a[i], b[i]);
    }
    assert(is_ascii_text(a) == is_ascii_text(b)) by {
        if is_ascii_text(a) {
            assert forall|i: int| 0 <= i < b.len() implies (#[trigger] b[i] as u32) < 128 by {
                assert((a[i] as u32) < 128);
            }
        }
        if is_ascii_text(b) {
            assert forall|i: int| 0 <= i < a.len() implies (#[trigger] a[i] as u32) < 128 by {
                assert((b[i] as u32) < 128);
            }
        }
    }
    if a.len() == 6 {
        assert(hex_value(a[0]) == hex_value(b[0]) && hex_value(a[1]) == hex_value(b[1]));
        assert(hex_value(a[2]) == hex_value(b[2]) && hex_value(a[3]) == hex_value(b[3]));
        assert(hex_value(a[4]) == hex_value(b[4]) && hex_value(a[5]) == hex_value(b[5]));
    } else if a.len() == 3 {
        assert(hex_value(a[0]) == hex_value(b[0]) && hex_value(a[1]) == hex_value(b[1]));
        assert(hex_value(a[2]) == hex_value(b[2]));
    }
}

/// Trailing whitespace after `x` trims away.
proof fn lemma_trim_end_space_suffix(x: Seq<char>, w: Seq<char>)
    requires
        forall|i: int| 0 <= i < w.len() ==> is_space(#[trigger] w[i]),
    ensures
        trim_end(x + w) == trim_end(x),
    decreases w.len(),
{
    if w.len() == 0 {
        assert(x + w =~= x);
    } else {
        assert((x + w).last() == w.last());
        assert((x + w).drop_last() =~= x + w.drop_last());
        assert forall|i: int| 0 <= i < w.drop_last().len() implies is_space(
            #[trigger] w.drop_last()[i],
        ) by {
            assert(w.drop_last()[i] == w[i]);
        }
        lemma_trim_end_space_suffix(x, w.drop_last());
    }
}

/// Whitespace around a color does not matter: `w1 + s + w2` names the
/// color `s` names (or none), for any runs of whitespace `w1` and `w2`.
pub proof fn law_color_ignores_surrounding_space(w1: Seq<char>, s: Seq<char>, w2: Seq<char>)
    requires
        forall|i: int| 0 <= i < w1.len() ==> is_space(#[trigger] w1[i]),
        forall|i: int| 0 <= i < w2.len() ==> is_space(#[trigger] w2[i]),
    ensures
        hex_rgb(w1 + s + w2) == hex_rgb(s),
{
    assert(w1 + s + w2 =~= w1 + (s + w2));
    lemma_trim_start_all_space(w1);
    lemma_trim_start_all_space(w2);
    lemma_trim_start_append(w1, s + w2);
    lemma_trim_start_append(s, w2);
    if trim_start(s).len() > 0 {
        lemma_trim_end_space_suffix(trim_start(s), w2);
    }
    assert(trim(w1 + s + w2) == trim(s));
}

/// The short form doubles each digit: `#xyz` is `#xxyyzz` for hex digits
/// `x`, `y` and `z`.
pub proof fn law_short_color_doubles_digits(x: char, y: char, z: char)
    requires
        hex_value(x) is Some,
        hex_value(y) is Some,
        hex_value(z) is Some,
    ensures
        hex_rgb(seq!['#', x, y, z]) == hex_rgb(seq!['#', x, x, y, y, z, z]),
        hex_rgb(seq!['#', x, y, z]) is Some,
{
    let s = seq!['#', x, y, z];
    let l = seq!['#', x, x, y, y, z, z];
    assert(!is_space('#') && !is_space(x) && !is_space(y) && !is_space(z));
    assert(trim_start(s) == s);
    assert(trim_end(s) == s);
    assert(trim_start(l) == l);
    assert(trim_end(l) == l);
    assert(s.drop_first() =~= seq![x, y, z]);
    assert(l.drop_first() =~= seq![x, x, y, y, z, z]);
    assert(strip_hash(seq![x, y, z]) == seq![x, y, z]);
    assert(strip_hash(seq![x, x, y, y, z, z]) == seq![x, x, y, y, z, z]);
    assert(strip_hash(s) == seq![x, y, z]);
    assert(strip_hash(l) == seq![x, x, y, y, z, z]);
    assert(is_ascii_text(seq![x, y, z]));
    assert(is_ascii_text(seq![x, x, y, y, z, z]));
}

/// `x` clamped to `lo..=hi` (`Ord::clamp`).
pub open spec fn clamp(x: int, lo: int, hi: int) -> int {
    if x < lo {
        lo
    } else if x > hi {
        hi
    } else {
        x
    }
}

/// `x.clamp(lo, hi)` on `i32`.
pub fn clamp_i32(x: i32, lo: i32, hi: i32) -> (r: i32)
    requires
        lo <= hi,
    ensures
        r == clamp(x as int, lo as int, hi as int),
{
    if x < lo {
        lo
    } else if x > hi {
        hi
    } else {
        x
    }
}

/// `x.clamp(lo, hi)` on `u32`.
pub fn clamp_u32(x: u32, lo: u32, hi: u32) -> (r: u32)
    requires
        lo <= hi,
    ensures
        r == clamp(x as int, lo as int, hi as int),
{
    if x < lo {
        lo
    } else if x > hi {
        hi
    } else {
        x
    }
}

/// What every drawing of the dot uses: its color as 8-bit channels, its
/// size and its offset from the screen center.
pub struct DotParams {
    pub rgb: (u8, u8, u8),
    pub size: u32,
    pub offset_x: i32,
    pub offset_y: i32,
}

impl DotParams {
    /// The drawing parameters a configuration asks for: an unreadable color
    /// falls back to white, the size is clamped to 2..=64 and each offset
    /// to ±2000.
    pub fn from_config(cfg: &Config) -> (p: DotParams)
        ensures
            p.rgb == (match hex_rgb(cfg.dot.color@) {
                Some(c) => c,
                None => (255u8, 255u8, 255u8),
            }),
            p.size == clamp(cfg.dot.size as int, MIN_SIZE as int, MAX_SIZE as int),
            p.offset_x == clamp(cfg.dot.offset_x as int, -MAX_OFFSET as int, MAX_OFFSET as int),
            p.offset_y == clamp(cfg.dot.offset_y as int, -MAX_OFFSET as int, MAX_OFFSET as int),
            MIN_SIZE <= p.size <= MAX_SIZE,
            -MAX_OFFSET <= p.offset_x <= MAX_OFFSET,
            -MAX_OFFSET <= p.offset_y <= MAX_OFFSET,
    {
        let rgb = match parse_hex_rgb(cfg.dot.color.as_str()) {
            Some(c) => c,
            None => (255, 255, 255),
        };
        DotParams {
            rgb,
            size: clamp_u32(cfg.dot.size, MIN_SIZE, MAX_SIZE),
            offset_x: clamp_i32(cfg.dot.offset_x, -MAX_OFFSET, MAX_OFFSET),
            offset_y: clamp_i32(cfg.dot.offset_y, -MAX_OFFSET, MAX_OFFSET),
        }
    }
}

/// The base configuration directory: `$XDG_CONFIG_HOME`, else `$HOME/.config`.
pub open spec fn config_base(xdg_config_home: Option<Seq<char>>, home: Seq<char>) -> Seq<char> {
    match xdg_config_home {
        Some(x) => x,
        None => path_join(home, ".config"@),
    }
}

/// The base configuration directory: `$XDG_CONFIG_HOME` when set, else
/// `$HOME/.config` (one of the two must be set).
pub fn config_dir(xdg_config_home: Option<&str>, home: Option<&str>) -> (d: String)
    requires
        xdg_config_home is Some || home is Some,
    ensures
        d@ == config_base(
            match xdg_config_home {
                Some(x) => Some(x@),
                None => None,
            },
            match home {
                Some(h) => h@,
                None => Seq::empty(),
            },
        ),
{
    match xdg_config_home {
        Some(x) => x.to_owned(),
        None => join_path(home.unwrap(), ".config"),
    }
}

/// The configuration file in the base directory `base`: `crosshair/config.toml`.
pub fn config_path(base: &str) -> (p: String)
    ensures
        p@ == path_join(path_join(base@, "crosshair"@), "config.toml"@),
{
    let d = join_path(base, "crosshair");
    join_path(d.as_str(), "config.toml")
}

/// The temp file a save writes before renaming it over the configuration
/// file: `config.toml.tmp` next to it.
pub fn config_temp_path(base: &str) -> (p: String)
    ensures
        p@ == path_join(path_join(base@, "crosshair"@), "config.toml.tmp"@),
{
    let d = join_path(base, "crosshair");
    join_path(d.as_str(), "config.toml.tmp")
}

} // verus!
