//! Reading a release version ("v1.2.3", "1.2", "1.2.0-rc1") as a SemVer
//! triple plus a prerelease flag.
use vstd::prelude::*;

use crate::text::{
    before, chars_of, copy_range, count_digits, decimal_value, digit_run, find_char, index_of,
    is_digit, is_space, lemma_digit_run_append, lemma_digit_run_digits, lemma_digit_run_stops,
    lemma_index_of_append, lemma_index_of_missing, lemma_space_is_not, lemma_trim_end_append,
    lemma_trim_end_keeps_first, lemma_trim_end_prefix, lemma_trim_start_append,
    lemma_trim_start_suffix, parse_decimal, trim, trim_end, trim_of, trim_start,
};

verus! {

/// `s` without its leading `v`/`V` characters (`trim_start_matches(['v', 'V'])`).
pub open spec fn strip_v(s: Seq<char>) -> Seq<char>
    decreases s.len(),
{
    if s.len() > 0 && (s[0] == 'v' || s[0] == 'V') {
        strip_v(s.drop_first())
    } else {
        s
    }
}

/// The version text that is read: whitespace trimmed, leading `v`/`V` dropped.
pub open spec fn version_text(s: Seq<char>) -> Seq<char> {
    strip_v(trim(s))
}

/// One dot-separated component: the number spelled by its leading ASCII
/// digits; `None` when it has none or the number exceeds `u64::MAX`.
pub open spec fn field_value(piece: Seq<char>) -> Option<nat> {
    let n = digit_run(piece);
    if n == 0 {
        None
    } else if decimal_value(piece.take(n as int)) <= u64::MAX {
        Some(decimal_value(piece.take(n as int)))
    } else {
        None
    }
}

/// The values of the first `budget` dot-separated components of `core`
/// (fewer when `core` has fewer); `None` when one of them is malformed.
pub open spec fn version_fields(core: Seq<char>, budget: nat) -> Option<Seq<nat>>
    decreases budget,
{
    if budget == 0 {
        Some(Seq::empty())
    } else {
        let piece = before(core, '.');
        match field_value(piece) {
            None => None,
            Some(v) => if piece.len() < core.len() {
                match version_fields(core.skip(piece.len() as int + 1), (budget - 1) as nat) {
                    None => None,
                    Some(rest) => Some(seq![v] + rest),
                }
            } else {
                Some(seq![v])
            },
        }
    }
}

/// Component `i` of `f`, 0 when `f` is shorter.
pub open spec fn component(f: Seq<nat>, i: int) -> nat {
    if i < f.len() {
        f[i]
    } else {
        0
    }
}

/// A version as (major, minor, patch) plus "has a prerelease suffix":
/// the text before the first `-` gives the components (missing ones read
/// as 0), and any `-` marks a prerelease. `None` when it does not parse.
pub open spec fn parse_version(s: Seq<char>) -> Option<(nat, nat, nat, bool)> {
    let t = version_text(s);
    match version_fields(before(t, '-'), 3) {
        None => None,
        Some(f) => Some((component(f, 0), component(f, 1), component(f, 2), t.contains('-'))),
    }
}

/// Length bound of the components read.
pub proof fn lemma_fields_len(core: Seq<char>, budget: nat)
    ensures
        version_fields(core, budget) matches Some(f) ==> f.len() <= budget,
        budget > 0 && version_fields(core, budget) is Some ==> version_fields(core, budget)->0.len()
            >= 1,
    decreases budget,
{
    if budget > 0 {
        let piece = before(core, '.');
        if piece.len() < core.len() {
            lemma_fields_len(core.skip(piece.len() as int + 1), (budget - 1) as nat);
        }
    }
}

/// `s` without its leading `v`/`V` characters.
fn strip_v_of(s: &[char]) -> (out: Vec<char>)
    ensures
        out@ == strip_v(s@),
{
    let mut i: usize = 0;
    assert(s@.skip(0) =~= s@);
    while i < s.len() && (s[i] == 'v' || s[i] == 'V')
        invariant
            i <= s@.len(),
            strip_v(s@) == strip_v(s@.skip(i as int)),
        decreases s@.len() - i,
    {
        assert(s@.skip(i as int).drop_first() =~= s@.skip(i + 1));
        i = i + 1;
    }
    copy_range(s, i, s.len())
}

/// The value of one component.
fn field_of(piece: &[char]) -> (r: Option<u64>)
    ensures
        match (r, field_value(piece@)) {
            (Some(v), Some(w)) => v == w,
            (None, None) => true,
            _ => false,
        },
{
    let n = count_digits(piece);
    if n == 0 {
        return None;
    }
    let digits = copy_range(piece, 0, n);
    proof {
        assert(digits@ =~= piece@.take(n as int));
        lemma_digit_run_digits(piece@, n as int);
    }
    parse_decimal(&digits)
}

/// The first `budget` components of `core`.
fn fields_of(core: &[char], budget: usize) -> (r: Option<Vec<u64>>)
    ensures
        match (r, version_fields(core@, budget as nat)) {
            (Some(v), Some(f)) => v@.len() == f.len() && forall|i: int|
                0 <= i < f.len() ==> v@[i] == #[trigger] f[i],
            (None, None) => true,
            _ => false,
        },
    decreases budget,
{
    if budget == 0 {
        return Some(Vec::new());
    }
    let end = find_char(core, '.');
    let piece = copy_range(core, 0, end);
    assert(piece@ =~= before(core@, '.'));
    let v = match field_of(&piece) {
        None => {
            return None;
        },
        Some(v) => v,
    };
    if end < core.len() {
        let rest = copy_range(core, end + 1, core.len());
        assert(rest@ =~= core@.skip(piece@.len() as int + 1));
        match fields_of(&rest, budget - 1) {
            None => None,
            Some(tail) => {
                let mut out: Vec<u64> = Vec::new();
                out.push(v);
                let mut i: usize = 0;
                let ghost f = version_fields(rest@, (budget - 1) as nat)->0;
                while i < tail.len()
                    invariant
                        i <= tail@.len(),
                        tail@.len() == f.len(),
                        forall|k: int| 0 <= k < f.len() ==> tail@[k] == #[trigger] f[k],
                        out@.len() == i + 1,
                        out@[0] == v,
                        forall|k: int| 0 <= k < i ==> out@[k + 1] == #[trigger] f[k],
                    decreases tail@.len() - i,
                {
                    out.push(tail[i]);
                    i = i + 1;
                }
                proof {
                    let g = seq![v as nat] + f;
                    assert forall|k: int| 0 <= k < g.len() implies out@[k] == #[trigger] g[k] by {
                        if k > 0 {
                            assert(out@[(k - 1) + 1] == f[k - 1]);
                        }
                    }
                }
                Some(out)
            },
        }
    } else {
        let mut out: Vec<u64> = Vec::new();
        out.push(v);
        Some(out)
    }
}

/// A version as (major, minor, patch, prerelease); `None` when it does not parse.
pub fn parse_version_of(s: &str) -> (r: Option<(u64, u64, u64, bool)>)
    ensures
        match (r, parse_version(s@)) {
            (Some((a, b, c, p)), Some((x, y, z, q))) => a == x && b == y && c == z && p == q,
            (None, None) => true,
            _ => false,
        },
{
    let chars = chars_of(s);
    let trimmed = trim_of(&chars);
    let t = strip_v_of(&trimmed);
    let dash = find_char(&t, '-');
    let pre = dash < t.len();
    proof {
        if pre {
            lemma_index_of_found(t@, '-');
        } else {
            lemma_index_of_absent(t@, '-');
        }
    }
    let core = copy_range(&t, 0, dash);
    assert(core@ =~= before(t@, '-'));
    match fields_of(&core, 3) {
        None => None,
        Some(f) => {
            proof {
                lemma_fields_len(core@, 3);
            }
            let a = f[0];
            let b = if f.len() > 1 {
                f[1]
            } else {
                0
            };
            let c = if f.len() > 2 {
                f[2]
            } else {
                0
            };
            Some((a, b, c, pre))
        },
    }
}

/// When `index_of` stops inside `s`, `c` is there.
pub proof fn lemma_index_of_found(s: Seq<char>, c: char)
    ensures
        index_of(s, c) <= s.len(),
        index_of(s, c) < s.len() ==> s.contains(c) && s[index_of(s, c) as int] == c,
    decreases s.len(),
{
    if s.len() > 0 && s[0] != c {
        lemma_index_of_found(s.drop_first(), c);
        if index_of(s, c) < s.len() {
            let k = index_of(s.drop_first(), c) as int;
            assert(s[k + 1] == c);
        }
    } else if s.len() > 0 {
        assert(s[0] == c);
    }
}

/// When `index_of` reaches the end, `c` is absent.
pub proof fn lemma_index_of_absent(s: Seq<char>, c: char)
    ensures
        index_of(s, c) >= s.len() ==> !s.contains(c),
    decreases s.len(),
{
    if s.len() > 0 && s[0] != c {
        lemma_index_of_absent(s.drop_first(), c);
        if index_of(s, c) >= s.len() {
            assert forall|k: int| 0 <= k < s.len() implies s[k] != c by {
                if k > 0 {
                    assert(s[k] == s.drop_first()[k - 1]);
                }
            }
        }
    }
}

/// `strip_v` keeps a suffix of its input.
pub proof fn lemma_strip_v_suffix(x: Seq<char>)
    ensures
        strip_v(x).len() <= x.len(),
        strip_v(x) == x.skip(x.len() - strip_v(x).len()),
    decreases x.len(),
{
    if x.len() > 0 && (x[0] == 'v' || x[0] == 'V') {
        lemma_strip_v_suffix(x.drop_first());
        assert(x.drop_first().skip(x.drop_first().len() - strip_v(x).len()) =~= x.skip(
            x.len() - strip_v(x).len(),
        ));
    } else {
        assert(x.skip(0) =~= x);
    }
}

/// `strip_v` of a concatenation.
pub proof fn lemma_strip_v_append(p: Seq<char>, q: Seq<char>)
    ensures
        strip_v(p + q) == (if strip_v(p).len() > 0 {
            strip_v(p) + q
        } else {
            strip_v(q)
        }),
    decreases p.len(),
{
    if p.len() == 0 {
        assert(p + q =~= q);
    } else if p[0] == 'v' || p[0] == 'V' {
        assert((p + q).drop_first() =~= p.drop_first() + q);
        lemma_strip_v_append(p.drop_first(), q);
    } else {
        assert((p + q)[0] == p[0]);
    }
}

/// Trailing whitespace after the components changes none of them.
pub proof fn lemma_fields_ignore_spaces(core: Seq<char>, w: Seq<char>, budget: nat)
    requires
        forall|i: int| 0 <= i < w.len() ==> is_space(#[trigger] w[i]),
    ensures
        version_fields(core + w, budget) == version_fields(core, budget),
    decreases budget,
{
    if budget > 0 {
        assert forall|i: int| 0 <= i < w.len() implies w[i] != '.' by {
            lemma_space_is_not(w[i]);
        }
        lemma_index_of_missing(w, '.');
        lemma_index_of_append(core, w, '.');
        lemma_index_of_found(core, '.');
        let i0 = index_of(core, '.') as int;
        let piece = before(core, '.');
        if i0 < core.len() {
            assert(before(core + w, '.') =~= piece);
            assert((core + w).skip(i0 + 1) =~= core.skip(i0 + 1) + w);
            lemma_fields_ignore_spaces(core.skip(i0 + 1), w, (budget - 1) as nat);
        } else {
            assert(before(core + w, '.') =~= core + w);
            assert(piece =~= core);
            lemma_digit_run_append(core, w);
            lemma_digit_run_stops(core);
            if w.len() > 0 {
                lemma_space_is_not(w[0]);
            }
            let n = digit_run(core);
            assert((core + w).take(n as int) =~= core.take(n as int));
        }
    }
}

/// A version that parses has a non-empty version text.
proof fn lemma_parsed_text_nonempty(s: Seq<char>)
    requires
        parse_version(s) is Some,
    ensures
        version_text(s).len() > 0,
{
    let t = version_text(s);
    if t.len() == 0 {
        assert(before(t, '-') =~= t);
        assert(before(t, '.') =~= t);
    }
}

/// A sequence without `c` keeps lacking it in any suffix.
proof fn lemma_suffix_lacks(x: Seq<char>, k: int, c: char)
    requires
        0 <= k <= x.len(),
        !x.contains(c),
    ensures
        !x.skip(k).contains(c),
{
    if x.skip(k).contains(c) {
        let i = choose|i: int| 0 <= i < x.skip(k).len() && x.skip(k)[i] == c;
        assert(x[k + i] == c);
    }
}

/// Appending `-` and any suffix to a version that parses and has no `-`
/// keeps its components and marks it as a prerelease.
pub proof fn lemma_prerelease_parse(s: Seq<char>, suffix: Seq<char>)
    requires
        !s.contains('-'),
        parse_version(s) is Some,
    ensures
        parse_version(s + seq!['-'] + suffix) matches Some((a, b, c, pw)) && parse_version(s) matches Some(
            (x, y, z, ps),
        ) && pw && !ps && a == x && b == y && c == z,
{
    let x = trim_start(s);
    let y = trim_end(x);
    let q = strip_v(y);
    lemma_parsed_text_nonempty(s);
    assert(q == version_text(s));
    // x = y + spaces
    lemma_trim_end_prefix(x);
    let sp = x.skip(y.len() as int);
    assert(x =~= y + sp);
    assert forall|i: int| 0 <= i < sp.len() implies is_space(#[trigger] sp[i]) by {
        assert(sp[i] == x[y.len() + i]);
    }
    // strip_v(x) = q + spaces
    lemma_strip_v_append(y, sp);
    let p = strip_v(x);
    assert(p =~= q + sp);
    // none of these holds a '-'
    lemma_trim_start_suffix(s);
    lemma_suffix_lacks(s, s.len() - x.len(), '-');
    lemma_strip_v_suffix(x);
    lemma_suffix_lacks(x, x.len() - p.len(), '-');
    assert(!q.contains('-')) by {
        if q.contains('-') {
            let i = choose|i: int| 0 <= i < q.len() && q[i] == '-';
            assert(p[i] == '-');
        }
    }
    // the text of s
    lemma_index_of_missing(q, '-');
    assert(before(q, '-') =~= q);
    // the text of w
    let r0 = seq!['-'] + suffix;
    let w = s + r0;
    assert(s + seq!['-'] + suffix =~= w);
    lemma_trim_start_suffix(x);
    lemma_trim_start_append(s, r0);
    assert(trim_start(w) == x + r0);
    lemma_trim_end_keeps_first(r0);
    let r = trim_end(r0);
    lemma_trim_end_append(x, r0);
    assert(trim(w) == x + r);
    lemma_strip_v_append(x, r);
    assert(version_text(w) == p + r);
    lemma_index_of_missing(p, '-');
    lemma_index_of_append(p, r, '-');
    assert(before(p + r, '-') =~= p);
    assert((p + r)[p.len() as int] == '-');
    assert((p + r).contains('-'));
    lemma_fields_ignore_spaces(q, sp, 3);
}

/// A run of ASCII digits, alone or followed by a `.`, is one component
/// worth the number it spells.
proof fn lemma_digit_field(d: Seq<char>, rest: Seq<char>)
    requires
        d.len() > 0,
        forall|i: int| 0 <= i < d.len() ==> is_digit(#[trigger] d[i]),
        decimal_value(d) <= u64::MAX,
        rest.len() == 0 || rest[0] == '.',
    ensures
        index_of(d + rest, '.') == d.len(),
        before(d + rest, '.') == d,
        field_value(d) == Some(decimal_value(d)),
{
    assert forall|i: int| 0 <= i < d.len() implies d[i] != '.' by {
        assert(is_digit(d[i]));
    }
    lemma_index_of_missing(d, '.');
    lemma_index_of_append(d, rest, '.');
    if rest.len() > 0 {
        assert(index_of(rest, '.') == 0);
    }
    assert((d + rest).take(d.len() as int) =~= d);
    lemma_all_digits_run(d);
    assert(d.take(d.len() as int) =~= d);
}

/// A sequence of ASCII digits is all one digit run.
proof fn lemma_all_digits_run(d: Seq<char>)
    requires
        forall|i: int| 0 <= i < d.len() ==> is_digit(#[trigger] d[i]),
    ensures
        digit_run(d) == d.len(),
    decreases d.len(),
{
    if d.len() > 0 {
        assert(is_digit(d[0]));
        assert forall|i: int| 0 <= i < d.drop_first().len() implies is_digit(
            #[trigger] d.drop_first()[i],
        ) by {
            assert(d.drop_first()[i] == d[i + 1]);
        }
        lemma_all_digits_run(d.drop_first());
    }
}

/// Text made of digits and dots, starting and ending with a digit, is read
/// as it stands: nothing is trimmed and there is no prerelease suffix.
proof fn lemma_plain_text(s: Seq<char>)
    requires
        s.len() > 0,
        is_digit(s[0]),
        is_digit(s.last()),
        forall|i: int| 0 <= i < s.len() ==> is_digit(#[trigger] s[i]) || s[i] == '.',
    ensures
        version_text(s) == s,
        before(s, '-') == s,
        !s.contains('-'),
{
    assert(!is_space(s[0]));
    assert(!is_space(s.last()));
    assert(trim_start(s) == s);
    assert(trim_end(s) == s);
    assert(strip_v(s) == s);
    assert forall|i: int| 0 <= i < s.len() implies s[i] != '-' by {
        assert(is_digit(s[i]) || s[i] == '.');
    }
    lemma_index_of_missing(s, '-');
    assert(s.take(s.len() as int) =~= s);
}

/// A plain `x.y.z` made of digit runs that fit in `u64` reads as the
/// triple of the numbers they spell, with no prerelease suffix.
pub proof fn lemma_three_components(a: Seq<char>, b: Seq<char>, c: Seq<char>)
    requires
        a.len() > 0,
        b.len() > 0,
        c.len() > 0,
        forall|i: int| 0 <= i < a.len() ==> is_digit(#[trigger] a[i]),
        forall|i: int| 0 <= i < b.len() ==> is_digit(#[trigger] b[i]),
        forall|i: int| 0 <= i < c.len() ==> is_digit(#[trigger] c[i]),
        decimal_value(a) <= u64::MAX,
        decimal_value(b) <= u64::MAX,
        decimal_value(c) <= u64::MAX,
    ensures
        parse_version(a + seq!['.'] + b + seq!['.'] + c) == Some(
            (decimal_value(a), decimal_value(b), decimal_value(c), false),
        ),
{
    let s = a + seq!['.'] + b + seq!['.'] + c;
    assert forall|i: int| 0 <= i < s.len() implies is_digit(#[trigger] s[i]) || s[i] == '.' by {
        if i < a.len() {
            assert(s[i] == a[i]);
        } else if a.len() < i < a.len() + 1 + b.len() {
            assert(s[i] == b[i - a.len() - 1]);
        } else if i > a.len() + 1 + b.len() {
            assert(s[i] == c[i - a.len() - b.len() - 2]);
        }
    }
    assert(s[0] == a[0]);
    assert(s.last() == c.last());
    lemma_plain_text(s);
    assert(s =~= a + (seq!['.'] + b + seq!['.'] + c));
    lemma_digit_field(a, seq!['.'] + b + seq!['.'] + c);
    let s1 = s.skip(a.len() as int + 1);
    assert(s1 =~= b + (seq!['.'] + c));
    lemma_digit_field(b, seq!['.'] + c);
    assert(s1.skip(b.len() as int + 1) =~= c);
    lemma_digit_field(c, Seq::<char>::empty());
    assert(c + Seq::<char>::empty() =~= c);
    assert(version_fields(c, 1) == Some(seq![decimal_value(c)]));
    assert(version_fields(s1, 2) == Some(seq![decimal_value(b)] + seq![decimal_value(c)]));
    assert(version_fields(s, 3) == Some(
        seq![decimal_value(a)] + (seq![decimal_value(b)] + seq![decimal_value(c)]),
    ));
}

/// Missing components read as 0: `a.b` and `a.b.0` parse alike, for
/// digit runs `a` and `b` that fit in `u64`.
pub proof fn lemma_two_components(a: Seq<char>, b: Seq<char>)
    requires
        a.len() > 0,
        b.len() > 0,
        forall|i: int| 0 <= i < a.len() ==> is_digit(#[trigger] a[i]),
        forall|i: int| 0 <= i < b.len() ==> is_digit(#[trigger] b[i]),
        decimal_value(a) <= u64::MAX,
        decimal_value(b) <= u64::MAX,
    ensures
        parse_version(a + seq!['.'] + b) == Some(
            (decimal_value(a), decimal_value(b), 0nat, false),
        ),
        parse_version(a + seq!['.'] + b + seq!['.', '0']) == Some(
            (decimal_value(a), decimal_value(b), 0nat, false),
        ),
{
    let s = a + seq!['.'] + b;
    let z = seq!['0'];
    let t = s + seq!['.', '0'];
    assert(is_digit(z[0]));
    assert(decimal_value(z) == 0) by {
        assert(z.drop_last() =~= Seq::<char>::empty());
        assert(z.last() == '0');
        assert(('0' as u32) == 48);
        assert(decimal_value(z) == decimal_value(z.drop_last()) * 10 + crate::text::digit_value(
            z.last(),
        ));
    }
    assert forall|i: int| 0 <= i < s.len() implies is_digit(#[trigger] s[i]) || s[i] == '.' by {
        if i < a.len() {
            assert(s[i] == a[i]);
        } else if i > a.len() {
            assert(s[i] == b[i - a.len() - 1]);
        }
    }
    assert forall|i: int| 0 <= i < t.len() implies is_digit(#[trigger] t[i]) || t[i] == '.' by {
        if i < s.len() {
            assert(t[i] == s[i]);
        }
    }
    assert(s[0] == a[0]);
    assert(s.last() == b.last());
    assert(t[0] == a[0]);
    lemma_plain_text(s);
    lemma_plain_text(t);
    // a.b
    assert(s =~= a + (seq!['.'] + b));
    lemma_digit_field(a, seq!['.'] + b);
    assert(s.skip(a.len() as int + 1) =~= b);
    lemma_digit_field(b, Seq::<char>::empty());
    assert(b + Seq::<char>::empty() =~= b);
    assert(version_fields(b, 2) == Some(seq![decimal_value(b)]));
    assert(version_fields(s, 3) == Some(seq![decimal_value(a)] + seq![decimal_value(b)]));
    // a.b.0
    assert(t =~= a + (seq!['.'] + b + seq!['.', '0']));
    lemma_digit_field(a, seq!['.'] + b + seq!['.', '0']);
    let t1 = t.skip(a.len() as int + 1);
    assert(t1 =~= b + (seq!['.'] + z));
    lemma_digit_field(b, seq!['.'] + z);
    assert(t1.skip(b.len() as int + 1) =~= z);
    lemma_digit_field(z, Seq::<char>::empty());
    assert(z + Seq::<char>::empty() =~= z);
    assert(version_fields(z, 1) == Some(seq![0nat]));
    assert(version_fields(t1, 2) == Some(seq![decimal_value(b)] + seq![0nat]));
    assert(version_fields(t, 3) == Some(
        seq![decimal_value(a)] + (seq![decimal_value(b)] + seq![0nat]),
    ));
}

} // verus!
