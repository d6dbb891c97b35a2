//! SHA-256 verification of a downloaded release binary against its
//! checksum sidecar (`sha256sum` output: the hex digest, then the file name).
use vstd::prelude::*;

use crate::text::{
    chars_of, find_space, first_token, is_space, lemma_space_index_append, lemma_space_index_none,
    lemma_trim_start_all_space, lemma_trim_start_append, space_index, trim_start, trim_start_of,
};

verus! {

/// SHA-256 of `data`, as computed by the `sha2` crate.
pub uninterp spec fn sha256_digest(data: Seq<u8>) -> Seq<u8>;

/// `<sha2::Sha256 as digest::Digest>::digest`: the SHA-256 digest of
/// `data`, 32 bytes. The contract names the result `sha256_digest(data)`
/// and claims nothing else of it.
#[verifier::external_body]
fn sha256(data: &[u8]) -> (d: [u8; 32])
    ensures
        d@ == sha256_digest(data@),
{
    <sha2::Sha256 as sha2::Digest>::digest(data).into()
}

/// The value of a hexadecimal digit (`char::to_digit(16)`), either case.
pub open spec fn hex_value(c: char) -> Option<nat> {
    let u = c as u32;
    if 48 <= u <= 57 {
        Some((u - 48) as nat)
    } else if 97 <= u <= 102 {
        Some((u - 87) as nat)
    } else if 65 <= u <= 70 {
        Some((u - 55) as nat)
    } else {
        None
    }
}

/// The byte written as the two hex digits `c0 c1` (high digit first);
/// `None` unless both characters are hex digits.
pub open spec fn hex_pair(c0: char, c1: char) -> Option<u8> {
    match (hex_value(c0), hex_value(c1)) {
        (Some(h), Some(l)) => Some((h * 16 + l) as u8),
        _ => None,
    }
}

/// The digest a sidecar announces: its first whitespace-delimited token,
/// which must be 64 characters, read two by two as bytes. `None` when the
/// sidecar is malformed.
pub open spec fn sidecar_digest(sidecar: Seq<char>) -> Option<Seq<u8>> {
    let t = first_token(sidecar);
    if t.len() == 64 && forall|i: int| 0 <= i < 32 ==> #[trigger] hex_pair(t[2 * i], t[2 * i + 1]) is Some {
        Some(Seq::new(32, |i: int| hex_pair(t[2 * i], t[2 * i + 1])->0))
    } else {
        None
    }
}

/// Why a downloaded binary was rejected.
#[derive(Debug, Clone, Copy, PartialEq, Eq)]
pub enum ChecksumError {
    /// The sidecar does not start with a 64-digit hex digest.
    Malformed,
    /// The binary's SHA-256 differs from the announced digest.
    Mismatch,
}

/// `char::to_digit(16)`.
fn hex_value_of(c: char) -> (r: Option<u8>)
    ensures
        match (r, hex_value(c)) {
            (Some(v), Some(w)) => v == w,
            (None, None) => true,
            _ => false,
        },
{
    let u = c as u32;
    if 48 <= u && u <= 57 {
        Some((u - 48) as u8)
    } else if 97 <= u && u <= 102 {
        Some((u - 87) as u8)
    } else if 65 <= u && u <= 70 {
        Some((u - 55) as u8)
    } else {
        None
    }
}

/// One byte from two characters.
fn hex_pair_of(c0: char, c1: char) -> (r: Option<u8>)
    ensures
        r == hex_pair(c0, c1),
{
    match (hex_value_of(c0), hex_value_of(c1)) {
        (Some(h), Some(l)) => Some(h * 16 + l),
        _ => None,
    }
}

/// The sidecar's first whitespace-delimited token, as 32 raw bytes. The
/// release workflow writes `sha256sum` output there, which also names the
/// file, so only the leading token is the digest.
pub fn parse_sha256(sidecar: &str) -> (r: Result<[u8; 32], ChecksumError>)
    ensures
        match r {
            Ok(d) => sidecar_digest(sidecar@) == Some(d@),
            Err(e) => sidecar_digest(sidecar@) is None && e == ChecksumError::Malformed,
        },
{
    let chars = chars_of(sidecar);
    let t0 = trim_start_of(&chars);
    let n = find_space(&t0);
    let ghost t = first_token(sidecar@);
    assert(t =~= t0@.take(n as int));
    if n != 64 {
        return Err(ChecksumError::Malformed);
    }
    let mut out: [u8; 32] = [0u8; 32];
    let mut i: usize = 0;
    while i < 32
        invariant
            i <= 32,
            n == 64,
            t == first_token(sidecar@),
            t =~= t0@.take(64),
            t0@.len() >= 64,
            forall|k: int| 0 <= k < i ==> hex_pair(t[2 * k], t[2 * k + 1]) == Some(#[trigger] out@[k]),
        decreases 32 - i,
    {
        match hex_pair_of(t0[2 * i], t0[2 * i + 1]) {
            Some(b) => {
                out[i] = b;
            },
            None => {
                proof {
                    let k = i as int;
                    assert(hex_pair(t[2 * k], t[2 * k + 1]) is None);
                }
                return Err(ChecksumError::Malformed);
            },
        }
        i = i + 1;
    }
    proof {
        assert forall|k: int| 0 <= k < 32 implies #[trigger] hex_pair(t[2 * k], t[2 * k + 1]) is Some by {
            assert(hex_pair(t[2 * k], t[2 * k + 1]) == Some(out@[k]));
        }
        assert(out@ =~= Seq::new(32, |k: int| hex_pair(t[2 * k], t[2 * k + 1])->0));
    }
    Ok(out)
}

/// Check a downloaded binary against its checksum sidecar: `Ok` exactly
/// when the sidecar announces a digest and it is the binary's SHA-256.
pub fn verify_binary(bin: &[u8], sidecar: &str) -> (r: Result<(), ChecksumError>)
    ensures
        match sidecar_digest(sidecar@) {
            None => r == Err::<(), ChecksumError>(ChecksumError::Malformed),
            Some(d) => if d == sha256_digest(bin@) {
                r is Ok
            } else {
                r == Err::<(), ChecksumError>(ChecksumError::Mismatch)
            },
        },
{
    let expected = parse_sha256(sidecar)?;
    let digest = sha256(bin);
    let mut i: usize = 0;
    while i < 32
        invariant
            i <= 32,
            digest@ == sha256_digest(bin@),
            sidecar_digest(sidecar@) == Some(expected@),
            forall|k: int| 0 <= k < i ==> digest@[k] == expected@[k],
        decreases 32 - i,
    {
        if digest[i] != expected[i] {
            assert(digest@[i as int] != expected@[i as int]);
            return Err(ChecksumError::Mismatch);
        }
        i = i + 1;
    }
    assert(digest@ =~= expected@);
    Ok(())
}

/// The lowercase hex digit for `v < 16`.
pub open spec fn hex_char(v: nat) -> char {
    (if v < 10 {
        (v + 48) as u32
    } else {
        (v + 87) as u32
    }) as char
}

/// The lowercase hex text of `d`, two digits per byte, as `sha256sum` prints a digest.
pub open spec fn hex_text(d: Seq<u8>) -> Seq<char> {
    Seq::new(
        2 * d.len(),
        |i: int|
            hex_char(
                if i % 2 == 0 {
                    (d[i / 2] / 16) as nat
                } else {
                    (d[i / 2] % 16) as nat
                },
            ),
    )
}

/// A sidecar as `sha256sum` writes it (the digest in lowercase hex, then
/// whitespace and the file name, or nothing; whitespace before it
/// allowed) announces exactly that digest.
pub proof fn law_sidecar_round_trip(d: Seq<u8>, lead: Seq<char>, rest: Seq<char>)
    requires
        d.len() == 32,
        forall|i: int| 0 <= i < lead.len() ==> is_space(#[trigger] lead[i]),
        rest.len() == 0 || is_space(rest[0]),
    ensures
        sidecar_digest(lead + hex_text(d) + rest) == Some(d),
{
    let h = hex_text(d);
    assert forall|i: int| 0 <= i < h.len() implies !is_space(#[trigger] h[i]) by {
        assert(h[i] as u32 >= 48);
    }
    let s = lead + h + rest;
    assert(s =~= lead + (h + rest));
    lemma_trim_start_all_space(lead);
    lemma_trim_start_append(lead, h + rest);
    assert((h + rest)[0] == h[0]);
    assert(trim_start(h + rest) == h + rest);
    lemma_space_index_none(h);
    lemma_space_index_append(h, rest);
    assert(space_index(h + rest) == 64);
    let t = first_token(s);
    assert(t =~= h);
    assert forall|i: int| 0 <= i < 32 implies #[trigger] hex_pair(t[2 * i], t[2 * i + 1]) == Some(
        d[i],
    ) by {
        assert((2 * i) % 2 == 0 && (2 * i) / 2 == i);
        assert((2 * i + 1) % 2 == 1 && (2 * i + 1) / 2 == i);
        let hi = (d[i] / 16) as nat;
        let lo = (d[i] % 16) as nat;
        assert(hex_value(hex_char(hi)) == Some(hi));
        assert(hex_value(hex_char(lo)) == Some(lo));
        assert(hi * 16 + lo == d[i]);
    }
    assert(Seq::new(32, |i: int| hex_pair(t[2 * i], t[2 * i + 1])->0) =~= d);
}

} // verus!
