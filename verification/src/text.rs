//! Character-level helpers shared by the parsers of this crate: the
//! Unicode whitespace class that `str::trim` and `split_whitespace` use,
//! trimming, searching, copying and decimal digits.
use vstd::prelude::*;

verus! {

/// `char::is_whitespace`: the Unicode `White_Space` property.
pub open spec fn is_space(c: char) -> bool {
    let u = c as u32;
    ||| 0x09 <= u <= 0x0D
    ||| u == 0x20
    ||| u == 0x85
    ||| u == 0xA0
    ||| u == 0x1680
    ||| 0x2000 <= u <= 0x200A
    ||| u == 0x2028
    ||| u == 0x2029
    ||| u == 0x202F
    ||| u == 0x205F
    ||| u == 0x3000
}

/// `char::is_ascii_digit`.
pub open spec fn is_digit(c: char) -> bool {
    48 <= (c as u32) <= 57
}

/// The value of an ASCII digit.
pub open spec fn digit_value(c: char) -> nat {
    ((c as u32) - 48) as nat
}

/// `s` without its leading whitespace (`str::trim_start`).
pub open spec fn trim_start(s: Seq<char>) -> Seq<char>
    decreases s.len(),
{
    if s.len() > 0 && is_space(s[0]) {
        trim_start(s.drop_first())
    } else {
        s
    }
}

/// `s` without its trailing whitespace (`str::trim_end`).
pub open spec fn trim_end(s: Seq<char>) -> Seq<char>
    decreases s.len(),
{
    if s.len() > 0 && is_space(s.last()) {
        trim_end(s.drop_last())
    } else {
        s
    }
}

/// `s` without leading and trailing whitespace (`str::trim`).
pub open spec fn trim(s: Seq<char>) -> Seq<char> {
    trim_end(trim_start(s))
}

/// Position of the first `c` in `s`, or the length of `s` when there is none.
pub open spec fn index_of(s: Seq<char>, c: char) -> nat
    decreases s.len(),
{
    if s.len() == 0 {
        0
    } else if s[0] == c {
        0
    } else {
        1 + index_of(s.drop_first(), c)
    }
}

/// The part of `s` before the first `c` (the first item of `s.split(c)`).
pub open spec fn before(s: Seq<char>, c: char) -> Seq<char> {
    s.take(index_of(s, c) as int)
}

/// Position of the first whitespace character of `s`, or its length.
pub open spec fn space_index(s: Seq<char>) -> nat
    decreases s.len(),
{
    if s.len() == 0 {
        0
    } else if is_space(s[0]) {
        0
    } else {
        1 + space_index(s.drop_first())
    }
}

/// The first whitespace-delimited token of `s` (the first item of
/// `split_whitespace`), empty when `s` holds none.
pub open spec fn first_token(s: Seq<char>) -> Seq<char> {
    let t = trim_start(s);
    t.take(space_index(t) as int)
}

/// Number of ASCII digits at the start of `s`.
pub open spec fn digit_run(s: Seq<char>) -> nat
    decreases s.len(),
{
    if s.len() > 0 && is_digit(s[0]) {
        1 + digit_run(s.drop_first())
    } else {
        0
    }
}

/// The number that the ASCII digits `d` spell in base ten.
pub open spec fn decimal_value(d: Seq<char>) -> nat
    decreases d.len(),
{
    if d.len() == 0 {
        0
    } else {
        decimal_value(d.drop_last()) * 10 + digit_value(d.last())
    }
}

/// The base-ten digits of `n`, most significant first, without leading
/// zeros ("0" for zero).
pub open spec fn decimal_digits(n: nat) -> Seq<char>
    decreases n,
{
    if n < 10 {
        seq![digit_char(n)]
    } else {
        decimal_digits(n / 10).push(digit_char(n % 10))
    }
}

/// The ASCII digit for `d < 10`.
pub open spec fn digit_char(d: nat) -> char {
    ((d + 48) as u32) as char
}

/// The characters of `s`, in order.
pub fn chars_of(s: &str) -> (out: Vec<char>)
    ensures
        out@ == s@,
{
    let mut out: Vec<char> = Vec::new();
    for c in it: s.chars()
        invariant
            it.seq() == s@,
            out@ == it.seq().take(it.index() as int),
    {
        out.push(c);
    }
    out
}

/// A `String` holding exactly the characters of `chars` (`String: FromIterator<&char>`).
#[verifier::external_body]
pub fn string_from_chars(chars: &[char]) -> (s: String)
    ensures
        s@ == chars@,
{
    chars.iter().collect()
}

/// `char::is_whitespace`.
pub fn char_is_space(c: char) -> (b: bool)
    ensures
        b == is_space(c),
{
    let u = c as u32;
    (0x09 <= u && u <= 0x0D) || u == 0x20 || u == 0x85 || u == 0xA0 || u == 0x1680 || (0x2000
        <= u && u <= 0x200A) || u == 0x2028 || u == 0x2029 || u == 0x202F || u == 0x205F || u
        == 0x3000
}

/// `char::is_ascii_digit`.
pub fn char_is_digit(c: char) -> (b: bool)
    ensures
        b == is_digit(c),
{
    let u = c as u32;
    48 <= u && u <= 57
}

/// The elements `lo..hi` of `v`.
pub fn copy_range(v: &[char], lo: usize, hi: usize) -> (out: Vec<char>)
    requires
        lo <= hi <= v@.len(),
    ensures
        out@ == v@.subrange(lo as int, hi as int),
{
    let mut out: Vec<char> = Vec::new();
    let mut i = lo;
    while i < hi
        invariant
            lo <= i <= hi <= v@.len(),
            out@ == v@.subrange(lo as int, i as int),
        decreases hi - i,
    {
        out.push(v[i]);
        i = i + 1;
        assert(out@ =~= v@.subrange(lo as int, i as int));
    }
    out
}

/// `s` without its leading whitespace.
pub fn trim_start_of(s: &[char]) -> (out: Vec<char>)
    ensures
        out@ == trim_start(s@),
{
    let mut i: usize = 0;
    assert(s@.skip(0) =~= s@);
    while i < s.len() && char_is_space(s[i])
        invariant
            i <= s@.len(),
            trim_start(s@) == trim_start(s@.skip(i as int)),
        decreases s@.len() - i,
    {
        assert(s@.skip(i as int).drop_first() =~= s@.skip(i + 1));
        i = i + 1;
    }
    copy_range(s, i, s.len())
}

/// `s` without its trailing whitespace.
pub fn trim_end_of(s: &[char]) -> (out: Vec<char>)
    ensures
        out@ == trim_end(s@),
{
    let mut j: usize = s.len();
    assert(s@.take(j as int) =~= s@);
    while j > 0 && char_is_space(s[j - 1])
        invariant
            j <= s@.len(),
            trim_end(s@) == trim_end(s@.take(j as int)),
        decreases j,
    {
        assert(s@.take(j as int).drop_last() =~= s@.take(j - 1));
        j = j - 1;
    }
    copy_range(s, 0, j)
}

/// `s` without leading and trailing whitespace.
pub fn trim_of(s: &[char]) -> (out: Vec<char>)
    ensures
        out@ == trim(s@),
{
    let t = trim_start_of(s);
    trim_end_of(&t)
}

/// Position of the first `c` in `s`, or the length of `s`.
pub fn find_char(s: &[char], c: char) -> (i: usize)
    ensures
        i == index_of(s@, c),
        i <= s@.len(),
{
    let mut i: usize = 0;
    assert(s@.skip(0) =~= s@);
    while i < s.len() && s[i] != c
        invariant
            i <= s@.len(),
            index_of(s@, c) == i + index_of(s@.skip(i as int), c),
        decreases s@.len() - i,
    {
        assert(s@.skip(i as int).drop_first() =~= s@.skip(i + 1));
        i = i + 1;
    }
    i
}

/// Position of the first whitespace character of `s`, or its length.
pub fn find_space(s: &[char]) -> (i: usize)
    ensures
        i == space_index(s@),
        i <= s@.len(),
{
    let mut i: usize = 0;
    assert(s@.skip(0) =~= s@);
    while i < s.len() && !char_is_space(s[i])
        invariant
            i <= s@.len(),
            space_index(s@) == i + space_index(s@.skip(i as int)),
        decreases s@.len() - i,
    {
        assert(s@.skip(i as int).drop_first() =~= s@.skip(i + 1));
        i = i + 1;
    }
    i
}

/// Number of ASCII digits at the start of `s`.
pub fn count_digits(s: &[char]) -> (n: usize)
    ensures
        n == digit_run(s@),
        n <= s@.len(),
{
    let mut i: usize = 0;
    assert(s@.skip(0) =~= s@);
    while i < s.len() && char_is_digit(s[i])
        invariant
            i <= s@.len(),
            digit_run(s@) == i + digit_run(s@.skip(i as int)),
        decreases s@.len() - i,
    {
        assert(s@.skip(i as int).drop_first() =~= s@.skip(i + 1));
        i = i + 1;
    }
    i
}

/// A longer run of digits never spells a smaller number.
pub proof fn lemma_decimal_monotone(d: Seq<char>, k: int, n: int)
    requires
        0 <= k <= n <= d.len(),
    ensures
        decimal_value(d.take(k)) <= decimal_value(d.take(n)),
    decreases n - k,
{
    if k < n {
        lemma_decimal_monotone(d, k, n - 1);
        assert(d.take(n).drop_last() =~= d.take(n - 1));
    }
}

/// The number spelled by the ASCII digits `d`, or `None` when it exceeds
/// `u64::MAX` (`<u64 as FromStr>::from_str` on a digit string).
pub fn parse_decimal(d: &[char]) -> (r: Option<u64>)
    requires
        forall|i: int| 0 <= i < d@.len() ==> is_digit(#[trigger] d@[i]),
    ensures
        match r {
            Some(v) => v == decimal_value(d@),
            None => decimal_value(d@) > u64::MAX,
        },
{
    let mut acc: u64 = 0;
    let mut i: usize = 0;
    assert(d@.take(0) =~= Seq::<char>::empty());
    while i < d.len()
        invariant
            i <= d@.len(),
            acc == decimal_value(d@.take(i as int)),
            forall|j: int| 0 <= j < d@.len() ==> is_digit(#[trigger] d@[j]),
        decreases d@.len() - i,
    {
        let c = d[i];
        let digit = (c as u32 - 48) as u64;
        assert(d@.take(i + 1).drop_last() =~= d@.take(i as int));
        let next = match acc.checked_mul(10) {
            Some(m) => m.checked_add(digit),
            None => None,
        };
        match next {
            Some(v) => {
                acc = v;
            },
            None => {
                proof {
                    lemma_decimal_monotone(d@, i + 1, d@.len() as int);
                    assert(d@.take(d@.len() as int) =~= d@);
                }
                return None;
            },
        }
        i = i + 1;
    }
    assert(d@.take(d@.len() as int) =~= d@);
    Some(acc)
}

/// The base-ten digits of `n` (`n.to_string()`).
pub fn decimal_of(n: u64) -> (out: Vec<char>)
    ensures
        out@ == decimal_digits(n as nat),
    decreases n,
{
    if n < 10 {
        let c = char_from_digit(n);
        let mut out: Vec<char> = Vec::new();
        out.push(c);
        assert(out@ =~= seq![digit_char(n as nat)]);
        out
    } else {
        let mut out = decimal_of(n / 10);
        let c = char_from_digit(n % 10);
        out.push(c);
        out
    }
}

/// The ASCII digit for `d < 10`.
fn char_from_digit(d: u64) -> (c: char)
    requires
        d < 10,
    ensures
        c == digit_char(d as nat),
{
    if d == 0 {
        '0'
    } else if d == 1 {
        '1'
    } else if d == 2 {
        '2'
    } else if d == 3 {
        '3'
    } else if d == 4 {
        '4'
    } else if d == 5 {
        '5'
    } else if d == 6 {
        '6'
    } else if d == 7 {
        '7'
    } else if d == 8 {
        '8'
    } else {
        '9'
    }
}

/// Whether `a` and `b` hold the same characters.
pub fn same_chars(a: &[char], b: &[char]) -> (r: bool)
    ensures
        r == (a@ == b@),
{
    if a.len() != b.len() {
        return false;
    }
    let mut i: usize = 0;
    while i < a.len()
        invariant
            i <= a@.len(),
            a@.len() == b@.len(),
            forall|k: int| 0 <= k < i ==> a@[k] == b@[k],
        decreases a@.len() - i,
    {
        if a[i] != b[i] {
            return false;
        }
        i = i + 1;
    }
    assert(a@ =~= b@);
    true
}

/// Whether the strings `a` and `b` are equal.
pub fn same_text(a: &str, b: &str) -> (r: bool)
    ensures
        r == (a@ == b@),
{
    let x = chars_of(a);
    let y = chars_of(b);
    same_chars(&x, &y)
}

/// Append the characters of `b` to `a`.
pub fn push_chars(a: &mut Vec<char>, b: &[char])
    ensures
        final(a)@ == old(a)@ + b@,
{
    let mut i: usize = 0;
    while i < b.len()
        invariant
            i <= b@.len(),
            a@ == old(a)@ + b@.take(i as int),
        decreases b@.len() - i,
    {
        a.push(b[i]);
        i = i + 1;
        assert(a@ =~= old(a)@ + b@.take(i as int));
    }
    assert(b@.take(b@.len() as int) =~= b@);
}

/// Append the characters of the string `b` to `a`.
pub fn push_str(a: &mut Vec<char>, b: &str)
    ensures
        final(a)@ == old(a)@ + b@,
{
    let c = chars_of(b);
    push_chars(a, &c);
}

/// Every character of the leading digit run is a digit.
pub proof fn lemma_digit_run_digits(s: Seq<char>, n: int)
    requires
        n == digit_run(s),
    ensures
        n <= s.len(),
        forall|i: int| 0 <= i < n ==> is_digit(#[trigger] s[i]),
    decreases s.len(),
{
    if n > 0 {
        lemma_digit_run_digits(s.drop_first(), n - 1);
        assert forall|i: int| 0 <= i < n implies is_digit(#[trigger] s[i]) by {
            if i > 0 {
                assert(s[i] == s.drop_first()[i - 1]);
            }
        }
    }
}

/// The digit run stops at a non-digit (or at the end).
pub proof fn lemma_digit_run_stops(s: Seq<char>)
    ensures
        digit_run(s) <= s.len(),
        digit_run(s) < s.len() ==> !is_digit(s[digit_run(s) as int]),
    decreases s.len(),
{
    if s.len() > 0 && is_digit(s[0]) {
        lemma_digit_run_stops(s.drop_first());
        if digit_run(s) < s.len() {
            assert(s[digit_run(s) as int] == s.drop_first()[digit_run(s.drop_first()) as int]);
        }
    }
}

/// `trim_start` keeps a suffix of its input.
pub proof fn lemma_trim_start_suffix(x: Seq<char>)
    ensures
        trim_start(x).len() <= x.len(),
        trim_start(x) == x.skip(x.len() - trim_start(x).len()),
    decreases x.len(),
{
    if x.len() > 0 && is_space(x[0]) {
        lemma_trim_start_suffix(x.drop_first());
        assert(x.drop_first().skip(x.drop_first().len() - trim_start(x).len()) =~= x.skip(
            x.len() - trim_start(x).len(),
        ));
    } else {
        assert(x.skip(0) =~= x);
    }
}

/// Leading whitespace of a concatenation.
pub proof fn lemma_trim_start_append(p: Seq<char>, q: Seq<char>)
    ensures
        trim_start(p + q) == (if trim_start(p).len() > 0 {
            trim_start(p) + q
        } else {
            trim_start(q)
        }),
    decreases p.len(),
{
    if p.len() == 0 {
        assert(p + q =~= q);
    } else if is_space(p[0]) {
        assert((p + q).drop_first() =~= p.drop_first() + q);
        lemma_trim_start_append(p.drop_first(), q);
    } else {
        assert((p + q)[0] == p[0]);
    }
}

/// Trailing whitespace of a concatenation whose second part does not
/// vanish under `trim_end`.
pub proof fn lemma_trim_end_append(p: Seq<char>, q: Seq<char>)
    requires
        trim_end(q).len() > 0,
    ensures
        trim_end(p + q) == p + trim_end(q),
    decreases q.len(),
{
    if q.len() == 0 {
    } else if is_space(q.last()) {
        assert((p + q).last() == q.last());
        assert((p + q).drop_last() =~= p + q.drop_last());
        lemma_trim_end_append(p, q.drop_last());
    } else {
        assert((p + q).last() == q.last());
    }
}

/// `trim_end` keeps a non-space first character.
pub proof fn lemma_trim_end_keeps_first(r: Seq<char>)
    requires
        r.len() > 0,
        !is_space(r[0]),
    ensures
        trim_end(r).len() >= 1,
        trim_end(r)[0] == r[0],
    decreases r.len(),
{
    if is_space(r.last()) {
        assert(r.len() > 1);
        assert(r.drop_last()[0] == r[0]);
        lemma_trim_end_keeps_first(r.drop_last());
    }
}

/// `trim_end` keeps a prefix of its input and drops only whitespace.
pub proof fn lemma_trim_end_prefix(x: Seq<char>)
    ensures
        trim_end(x).len() <= x.len(),
        trim_end(x) == x.take(trim_end(x).len() as int),
        forall|i: int| trim_end(x).len() <= i < x.len() ==> is_space(#[trigger] x[i]),
    decreases x.len(),
{
    if x.len() > 0 && is_space(x.last()) {
        lemma_trim_end_prefix(x.drop_last());
        assert(x.drop_last().take(trim_end(x).len() as int) =~= x.take(trim_end(x).len() as int));
        assert forall|i: int| trim_end(x).len() <= i < x.len() implies is_space(#[trigger] x[i]) by {
            if i < x.len() - 1 {
                assert(x[i] == x.drop_last()[i]);
            }
        }
    } else {
        assert(x.take(x.len() as int) =~= x);
    }
}

/// `index_of` in a concatenation.
pub proof fn lemma_index_of_append(p: Seq<char>, q: Seq<char>, c: char)
    ensures
        index_of(p + q, c) == (if index_of(p, c) < p.len() {
            index_of(p, c)
        } else {
            p.len() + index_of(q, c)
        }),
    decreases p.len(),
{
    if p.len() == 0 {
        assert(p + q =~= q);
    } else {
        assert((p + q)[0] == p[0]);
        if p[0] != c {
            assert((p + q).drop_first() =~= p.drop_first() + q);
            lemma_index_of_append(p.drop_first(), q, c);
        }
    }
}

/// `index_of` finds nothing in a sequence that lacks `c`.
pub proof fn lemma_index_of_missing(s: Seq<char>, c: char)
    requires
        forall|i: int| 0 <= i < s.len() ==> s[i] != c,
    ensures
        index_of(s, c) == s.len(),
    decreases s.len(),
{
    if s.len() > 0 {
        assert forall|i: int| 0 <= i < s.drop_first().len() implies s.drop_first()[i] != c by {
            assert(s.drop_first()[i] == s[i + 1]);
        }
        lemma_index_of_missing(s.drop_first(), c);
    }
}

/// `digit_run` in a concatenation.
pub proof fn lemma_digit_run_append(p: Seq<char>, q: Seq<char>)
    ensures
        digit_run(p + q) == (if digit_run(p) < p.len() {
            digit_run(p)
        } else {
            p.len() + digit_run(q)
        }),
    decreases p.len(),
{
    lemma_digit_run_stops(p);
    if p.len() == 0 {
        assert(p + q =~= q);
    } else {
        assert((p + q)[0] == p[0]);
        if is_digit(p[0]) {
            assert((p + q).drop_first() =~= p.drop_first() + q);
            lemma_digit_run_append(p.drop_first(), q);
        }
    }
}

/// Whitespace is neither a digit nor one of the separators `.` and `-`.
pub proof fn lemma_space_is_not(c: char)
    requires
        is_space(c),
    ensures
        !is_digit(c),
        c != '.',
        c != '-',
{
}

/// `dir` joined with the relative file name `name` (`Path::join`): a `/`
/// goes between them unless `dir` is empty or already ends with one.
pub open spec fn path_join(dir: Seq<char>, name: Seq<char>) -> Seq<char> {
    if dir.len() == 0 {
        name
    } else if dir.last() == '/' {
        dir + name
    } else {
        dir + seq!['/'] + name
    }
}

/// `dir` joined with the relative file name `name`.
pub fn join_path(dir: &str, name: &str) -> (p: String)
    ensures
        p@ == path_join(dir@, name@),
{
    let mut out = chars_of(dir);
    if out.len() > 0 && out[out.len() - 1] != '/' {
        out.push('/');
    }
    push_str(&mut out, name);
    string_from_chars(&out)
}

/// A piece of a path between separators, as the components it adds:
/// empty pieces (from repeated or trailing `/`) and `.` add none.
pub open spec fn keep_piece(p: Seq<char>) -> Seq<Seq<char>> {
    if p.len() == 0 || p == seq!['.'] {
        Seq::empty()
    } else {
        seq![p]
    }
}

/// The components of the path text `rest`, when the piece `cur` was read
/// just before it (scanning left to right, `/` ends a piece).
pub open spec fn parts_from(cur: Seq<char>, rest: Seq<char>) -> Seq<Seq<char>>
    decreases rest.len(),
{
    if rest.len() == 0 {
        keep_piece(cur)
    } else if rest[0] == '/' {
        keep_piece(cur) + parts_from(Seq::empty(), rest.drop_first())
    } else {
        parts_from(cur.push(rest[0]), rest.drop_first())
    }
}

/// The named components of a path (`Path::components` without the root
/// and a leading `.`): its pieces between `/`, empty ones and `.` left out.
pub open spec fn path_parts(s: Seq<char>) -> Seq<Seq<char>> {
    parts_from(Seq::empty(), s)
}

/// The path starts at the root.
pub open spec fn is_rooted(s: Seq<char>) -> bool {
    s.len() > 0 && s[0] == '/'
}

/// The path starts with a `.` component, which `Path::components` keeps
/// at the front of a relative path.
pub open spec fn leading_cur_dir(s: Seq<char>) -> bool {
    &&& s.len() > 0
    &&& s[0] == '.'
    &&& (s.len() == 1 || s[1] == '/')
}

/// `a` and `b` name the same path (`Path`'s `==`, which compares
/// components): `/tmp/x/`, `/tmp//x` and `/tmp/./x` are all `/tmp/x`.
pub open spec fn same_path(a: Seq<char>, b: Seq<char>) -> bool {
    &&& is_rooted(a) == is_rooted(b)
    &&& leading_cur_dir(a) == leading_cur_dir(b)
    &&& path_parts(a) == path_parts(b)
}

/// Whether the piece `p` adds a component.
fn piece_counts(p: &Vec<char>) -> (r: bool)
    ensures
        r == (keep_piece(p@).len() > 0),
{
    if p.len() == 0 {
        return false;
    }
    if p.len() == 1 && p[0] == '.' {
        assert(p@ =~= seq!['.']);
        return false;
    }
    assert(p@ != seq!['.']) by {
        if p@ == seq!['.'] {
            assert(p@.len() == 1 && p@[0] == '.');
        }
    }
    true
}

/// The named components of the path `s`.
fn path_parts_of(s: &[char]) -> (out: Vec<Vec<char>>)
    ensures
        out@.len() == path_parts(s@).len(),
        forall|k: int| 0 <= k < out@.len() ==> (#[trigger] out@[k])@ == path_parts(s@)[k],
{
    let mut out: Vec<Vec<char>> = Vec::new();
    let mut cur: Vec<char> = Vec::new();
    let mut i: usize = 0;
    assert(s@.skip(0) =~= s@);
    while i < s.len()
        invariant
            i <= s@.len(),
            out@.map_values(|v: Vec<char>| v@) + parts_from(cur@, s@.skip(i as int)) == path_parts(
                s@,
            ),
        decreases s@.len() - i,
    {
        let ghost old_views = out@.map_values(|v: Vec<char>| v@);
        let ghost rest = s@.skip(i as int);
        assert(rest.drop_first() =~= s@.skip(i + 1));
        assert(rest[0] == s@[i as int]);
        if s[i] == '/' {
            if piece_counts(&cur) {
                let piece = cur;
                out.push(piece);
                assert(out@.map_values(|v: Vec<char>| v@) =~= old_views + keep_piece(cur@));
            } else {
                assert(keep_piece(cur@) =~= Seq::<Seq<char>>::empty());
                assert(old_views + Seq::<Seq<char>>::empty() =~= old_views);
            }
            assert(old_views + (keep_piece(cur@) + parts_from(Seq::empty(), s@.skip(i + 1)))
                =~= (old_views + keep_piece(cur@)) + parts_from(Seq::empty(), s@.skip(i + 1)));
            cur = Vec::new();
            assert(cur@ =~= Seq::<char>::empty());
        } else {
            cur.push(s[i]);
        }
        i = i + 1;
    }
    let ghost old_views = out@.map_values(|v: Vec<char>| v@);
    if piece_counts(&cur) {
        let piece = cur;
        out.push(piece);
        assert(out@.map_values(|v: Vec<char>| v@) =~= old_views + keep_piece(cur@));
    } else {
        assert(keep_piece(cur@) =~= Seq::<Seq<char>>::empty());
        assert(old_views + Seq::<Seq<char>>::empty() =~= old_views);
    }
    let ghost views = out@.map_values(|v: Vec<char>| v@);
    assert forall|k: int| 0 <= k < out@.len() implies (#[trigger] out@[k])@ == path_parts(s@)[k] by {
        assert(views[k] == out@[k]@);
    }
    out
}

/// Whether the paths `a` and `b` are the same path.
pub fn same_path_of(a: &str, b: &str) -> (r: bool)
    ensures
        r == same_path(a@, b@),
{
    let x = chars_of(a);
    let y = chars_of(b);
    let rooted_x = x.len() > 0 && x[0] == '/';
    let rooted_y = y.len() > 0 && y[0] == '/';
    let dot_x = x.len() > 0 && x[0] == '.' && (x.len() == 1 || x[1] == '/');
    let dot_y = y.len() > 0 && y[0] == '.' && (y.len() == 1 || y[1] == '/');
    if rooted_x != rooted_y || dot_x != dot_y {
        return false;
    }
    let px = path_parts_of(&x);
    let py = path_parts_of(&y);
    if px.len() != py.len() {
        assert(path_parts(x@).len() != path_parts(y@).len());
        return false;
    }
    let mut k: usize = 0;
    while k < px.len()
        invariant
            k <= px@.len(),
            x@ == a@,
            y@ == b@,
            is_rooted(a@) == is_rooted(b@),
            leading_cur_dir(a@) == leading_cur_dir(b@),
            px@.len() == py@.len(),
            px@.len() == path_parts(x@).len(),
            py@.len() == path_parts(y@).len(),
            forall|j: int| 0 <= j < px@.len() ==> (#[trigger] px@[j])@ == path_parts(x@)[j],
            forall|j: int| 0 <= j < py@.len() ==> (#[trigger] py@[j])@ == path_parts(y@)[j],
            forall|j: int| 0 <= j < k ==> path_parts(x@)[j] == path_parts(y@)[j],
        decreases px@.len() - k,
    {
        if !same_chars(px[k].as_slice(), py[k].as_slice()) {
            assert(px@[k as int]@ != py@[k as int]@);
            return false;
        }
        assert(px@[k as int]@ == py@[k as int]@);
        k = k + 1;
    }
    assert(path_parts(x@) =~= path_parts(y@));
    true
}

/// The decimal digits of `n` are non-empty ASCII digits that spell `n`.
pub proof fn lemma_decimal_digits(n: nat)
    ensures
        decimal_digits(n).len() > 0,
        forall|i: int| 0 <= i < decimal_digits(n).len() ==> is_digit(#[trigger] decimal_digits(n)[i]),
        decimal_value(decimal_digits(n)) == n,
    decreases n,
{
    if n < 10 {
        let c = digit_char(n);
        assert(c as u32 == n + 48);
        assert(seq![c].drop_last() =~= Seq::<char>::empty());
        assert(seq![c].last() == c);
        assert(decimal_value(seq![c]) == decimal_value(Seq::<char>::empty()) * 10 + digit_value(c));
    } else {
        lemma_decimal_digits(n / 10);
        let x = decimal_digits(n / 10);
        let c = digit_char(n % 10);
        assert(c as u32 == n % 10 + 48);
        assert(x.push(c).drop_last() =~= x);
        assert(x.push(c).last() == c);
        assert(digit_value(c) == n % 10);
        assert(decimal_value(x.push(c)) == decimal_value(x) * 10 + digit_value(c));
        assert((n / 10) * 10 + n % 10 == n) by (nonlinear_arith);
        assert forall|i: int| 0 <= i < x.push(c).len() implies is_digit(#[trigger] x.push(c)[i]) by {
            if i < x.len() {
                assert(x.push(c)[i] == x[i]);
            }
        }
    }
}

/// Whitespace trimming leaves a digit string followed by a newline as the digits.
pub proof fn lemma_trim_digits_newline(x: Seq<char>)
    requires
        x.len() > 0,
        forall|i: int| 0 <= i < x.len() ==> is_digit(#[trigger] x[i]),
    ensures
        trim(x.push('\n')) == x,
{
    let y = x.push('\n');
    assert(y[0] == x[0]);
    assert(!is_space(x[0]));
    assert(trim_start(y) == y);
    assert(y.drop_last() =~= x);
    assert(!is_space(x.last()));
    assert(trim_end(y) == trim_end(x));
}

/// A run of whitespace trims away entirely.
pub proof fn lemma_trim_start_all_space(w: Seq<char>)
    requires
        forall|i: int| 0 <= i < w.len() ==> is_space(#[trigger] w[i]),
    ensures
        trim_start(w).len() == 0,
    decreases w.len(),
{
    if w.len() > 0 {
        assert forall|i: int| 0 <= i < w.drop_first().len() implies is_space(
            #[trigger] w.drop_first()[i],
        ) by {
            assert(w.drop_first()[i] == w[i + 1]);
        }
        lemma_trim_start_all_space(w.drop_first());
    }
}

/// `space_index` in a concatenation.
pub proof fn lemma_space_index_append(p: Seq<char>, q: Seq<char>)
    ensures
        space_index(p + q) == (if space_index(p) < p.len() {
            space_index(p)
        } else {
            p.len() + space_index(q)
        }),
    decreases p.len(),
{
    if p.len() == 0 {
        assert(p + q =~= q);
    } else {
        assert((p + q)[0] == p[0]);
        if !is_space(p[0]) {
            assert((p + q).drop_first() =~= p.drop_first() + q);
            lemma_space_index_append(p.drop_first(), q);
        }
    }
}

/// A sequence without whitespace: `space_index` reaches its end.
pub proof fn lemma_space_index_none(s: Seq<char>)
    requires
        forall|i: int| 0 <= i < s.len() ==> !is_space(#[trigger] s[i]),
    ensures
        space_index(s) == s.len(),
    decreases s.len(),
{
    if s.len() > 0 {
        assert forall|i: int| 0 <= i < s.drop_first().len() implies !is_space(
            #[trigger] s.drop_first()[i],
        ) by {
            assert(s.drop_first()[i] == s[i + 1]);
        }
        lemma_space_index_none(s.drop_first());
    }
}

} // verus!
