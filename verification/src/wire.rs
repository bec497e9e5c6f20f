//! Low-level wire primitives: zig-zag integers and base-128 varints.
//!
//! Integers travel as zig-zag varints: a signed value is first mapped to an
//! unsigned one (non-negative `n` to `2n`, negative `n` to `-2n - 1`), then
//! written little-endian in groups of seven bits, the high bit of each byte
//! set while more bytes follow. The reader accepts only the canonical form:
//! a multi-byte encoding whose last group is zero is rejected, so every
//! value has exactly one wire image and decoding is a strict inverse of
//! encoding.

use vstd::prelude::*;
use vstd::arithmetic::div_mod::lemma_fundamental_div_mod_converse;
use crate::errors::PipelineError;

verus! {

/// Zig-zag mapping from a signed value to the unsigned value on the wire.
pub open spec fn zigzag(n: int) -> nat {
    if n >= 0 {
        (2 * n) as nat
    } else {
        (-2 * n - 1) as nat
    }
}

/// Inverse of [`zigzag`].
pub open spec fn unzigzag(z: nat) -> int {
    if z % 2 == 0 {
        (z / 2) as int
    } else {
        -((z / 2) + 1)
    }
}

pub proof fn lemma_zigzag_unzigzag(n: int)
    ensures
        unzigzag(zigzag(n)) == n,
{
}

pub proof fn lemma_unzigzag_zigzag(z: nat)
    ensures
        zigzag(unzigzag(z)) == z,
{
}

/// Every value of a signed 64-bit integer zig-zags into a u64.
pub proof fn lemma_zigzag_in_u64(n: int)
    requires
        i64::MIN <= n <= i64::MAX,
    ensures
        zigzag(n) <= u64::MAX,
{
}

/// Canonical varint image of an unsigned value.
pub open spec fn varint_bytes(n: nat) -> Seq<u8>
    decreases n,
{
    if n < 128 {
        seq![n as u8]
    } else {
        seq![(n % 128 + 128) as u8] + varint_bytes(n / 128)
    }
}

/// Reads one canonical varint of `bytes` starting at `pos`; yields the value
/// and the position just past it, or nothing when no canonical varint starts
/// there.
pub open spec fn varint_parse(bytes: Seq<u8>, pos: int) -> Option<(nat, int)>
    decreases bytes.len() - pos,
{
    if !(0 <= pos < bytes.len()) {
        None
    } else if bytes[pos] < 128 {
        Some(((bytes[pos] as nat), pos + 1))
    } else {
        match varint_parse(bytes, pos + 1) {
            Some((v, end)) => if v == 0 {
                None
            } else {
                Some(((bytes[pos] - 128) as nat + 128 * v, end))
            },
            None => None,
        }
    }
}

/// Parsing inverts encoding: wherever the canonical image of `n` sits in a
/// byte sequence, the parser reads back exactly `n` and stops just past it.
pub proof fn lemma_varint_parse_of_encoding(bytes: Seq<u8>, pos: int, n: nat)
    requires
        0 <= pos,
        pos + varint_bytes(n).len() <= bytes.len(),
        bytes.subrange(pos, pos + varint_bytes(n).len()) == varint_bytes(n),
    ensures
        varint_parse(bytes, pos) == Some((n, pos + varint_bytes(n).len())),
    decreases n,
{
    let img = varint_bytes(n);
    if n < 128 {
        assert(bytes[pos] == img[0]);
    } else {
        let rest = varint_bytes(n / 128);
        assert(img == seq![(n % 128 + 128) as u8] + rest);
        assert(bytes[pos] == img[0]);
        assert(bytes.subrange(pos + 1, pos + 1 + rest.len()) =~= rest) by {
            assert(forall|i: int|
                0 <= i < rest.len() ==> #[trigger] bytes.subrange(pos + 1, pos + 1 + rest.len())[i]
                    == img[i + 1]);
        }
        lemma_varint_parse_of_encoding(bytes, pos + 1, n / 128);
        assert(n / 128 >= 1);
        assert((bytes[pos] - 128) as nat + 128 * (n / 128) == n) by {
            lemma_fundamental_div_mod_converse(n as int, 128, n as int / 128, n as int % 128);
        }
    }
}

/// Encoding inverts parsing: a successful parse read exactly the canonical
/// image of the value it returned.
pub proof fn lemma_varint_parse_sound(bytes: Seq<u8>, pos: int, v: nat, end: int)
    requires
        varint_parse(bytes, pos) == Some((v, end)),
    ensures
        0 <= pos < end <= bytes.len(),
        varint_bytes(v).len() == end - pos,
        bytes.subrange(pos, end) == varint_bytes(v),
    decreases bytes.len() - pos,
{
    if bytes[pos] < 128 {
        assert(bytes.subrange(pos, end) =~= varint_bytes(v));
    } else {
        let (v1, end1) = varint_parse(bytes, pos + 1).unwrap();
        lemma_varint_parse_sound(bytes, pos + 1, v1, end1);
        assert(v == (bytes[pos] - 128) as nat + 128 * v1);
        assert(v % 128 == (bytes[pos] - 128) as int && v / 128 == v1 as int) by {
            lemma_fundamental_div_mod_converse(v as int, 128, v1 as int, (bytes[pos] - 128) as int);
        }
        assert(v >= 128) by {
            assert(128 * v1 >= 128) by (nonlinear_arith)
                requires v1 >= 1;
        }
        assert(bytes.subrange(pos, end) =~= seq![(v % 128 + 128) as u8] + varint_bytes(v / 128)) by {
            assert(bytes.subrange(pos + 1, end1) == varint_bytes(v1));
            assert(forall|i: int|
                1 <= i < end - pos ==> #[trigger] bytes.subrange(pos, end)[i] == bytes.subrange(
                    pos + 1,
                    end1,
                )[i - 1]);
        }
    }
}

/// 128 raised to `k`.
pub open spec fn pow128(k: nat) -> nat
    decreases k,
{
    if k == 0 {
        1
    } else {
        128 * pow128((k - 1) as nat)
    }
}

/// The canonical image of a value below `128^k` takes at most `k` bytes.
pub proof fn lemma_varint_bytes_len(n: nat, k: nat)
    requires
        k >= 1,
        n < pow128(k),
    ensures
        1 <= varint_bytes(n).len() <= k,
    decreases k,
{
    if n >= 128 {
        assert(k >= 2) by {
            assert(pow128(1) == 128) by {
                reveal_with_fuel(pow128, 2);
            }
        }
        assert(n / 128 < pow128((k - 1) as nat)) by {
            assert(128 * (n / 128) <= n) by (nonlinear_arith);
            assert(pow128(k) == 128 * pow128((k - 1) as nat));
            assert(128 * (n / 128) < 128 * pow128((k - 1) as nat));
            assert(n / 128 < pow128((k - 1) as nat)) by (nonlinear_arith)
                requires 128 * (n / 128) < 128 * pow128((k - 1) as nat);
        }
        lemma_varint_bytes_len(n / 128, (k - 1) as nat);
    }
}

/// The canonical image of any u64 value takes at most ten bytes.
pub proof fn lemma_varint_bytes_len_u64(n: nat)
    requires
        n <= u64::MAX,
    ensures
        1 <= varint_bytes(n).len() <= 10,
{
    assert(pow128(10) > u64::MAX) by {
        reveal_with_fuel(pow128, 11);
    }
    lemma_varint_bytes_len(n, 10);
}

/// Appends the canonical varint image of `n` to `out`.
pub fn varint_write(out: &mut Vec<u8>, n: u64)
    ensures
        final(out)@ == old(out)@ + varint_bytes(n as nat),
{
    let ghost orig = out@;
    let mut v: u64 = n;
    while v >= 128
        invariant
            orig + varint_bytes(n as nat) == out@ + varint_bytes(v as nat),
        decreases v,
    {
        out.push((v % 128 + 128) as u8);
        proof {
            assert(varint_bytes(v as nat) == seq![(v as nat % 128 + 128) as u8] + varint_bytes(
                v as nat / 128,
            ));
        }
        v = v / 128;
    }
    out.push(v as u8);
    proof {
        assert(varint_bytes(v as nat) == seq![v as u8]);
        assert(final(out)@ =~= orig + varint_bytes(n as nat));
    }
}

fn varint_read_inner(bytes: &Vec<u8>, pos: usize, budget: u8) -> (r: Option<(u64, usize)>)
    requires
        pos <= bytes.len(),
    ensures
        match r {
            Some((v, end)) => {
                &&& varint_parse(bytes@, pos as int) == Some((v as nat, end as int))
                &&& pos < end <= bytes.len()
                &&& end - pos <= budget
            },
            None => match varint_parse(bytes@, pos as int) {
                Some((v, end)) => v > u64::MAX || end - pos > budget,
                None => true,
            },
        },
    decreases budget,
{
    if budget == 0 || pos >= bytes.len() {
        proof {
            if let Some((v, end)) = varint_parse(bytes@, pos as int) {
                lemma_varint_parse_sound(bytes@, pos as int, v, end);
            }
        }
        return None;
    }
    let b = bytes[pos];
    if b < 128 {
        Some((b as u64, pos + 1))
    } else {
        match varint_read_inner(bytes, pos + 1, budget - 1) {
            None => None,
            Some((v1, end)) => {
                if v1 == 0 {
                    None
                } else if v1 > (u64::MAX - (b - 128) as u64) / 128 {
                    proof {
                        let a = (b - 128) as int;
                        let m = u64::MAX as int;
                        assert(a + 128 * v1 > m) by (nonlinear_arith)
                            requires
                                0 <= a < 128,
                                v1 > (m - a) / 128,
                                m == (m - a) / 128 * 128 + (m - a) % 128 + a,
                                0 <= (m - a) % 128 < 128,
                        {
                        }
                        assert(m == (m - a) / 128 * 128 + (m - a) % 128 + a) by {
                            vstd::arithmetic::div_mod::lemma_fundamental_div_mod(m - a, 128);
                        }
                    }
                    None
                } else {
                    proof {
                        let a = (b - 128) as int;
                        let m = u64::MAX as int;
                        assert(a + 128 * v1 <= m) by (nonlinear_arith)
                            requires
                                0 <= a < 128,
                                1 <= v1 <= (m - a) / 128,
                                m - a == (m - a) / 128 * 128 + (m - a) % 128,
                                0 <= (m - a) % 128 < 128,
                        {
                        }
                        assert(m - a == (m - a) / 128 * 128 + (m - a) % 128) by {
                            vstd::arithmetic::div_mod::lemma_fundamental_div_mod(m - a, 128);
                        }
                    }
                    Some(((b - 128) as u64 + 128 * v1, end))
                }
            },
        }
    }
}

/// Reads one canonical varint of `bytes` starting at `pos`. Succeeds exactly
/// when a canonical varint of a value that fits a u64 starts there, and then
/// returns that value and the position just past its image.
pub fn varint_read(bytes: &Vec<u8>, pos: usize) -> (r: Result<(u64, usize), PipelineError>)
    requires
        pos <= bytes.len(),
    ensures
        match varint_parse(bytes@, pos as int) {
            Some((v, end)) => if v <= u64::MAX {
                r == Ok::<(u64, usize), PipelineError>((v as u64, end as usize))
            } else {
                r == Err::<(u64, usize), PipelineError>(PipelineError::DecodingError)
            },
            None => r == Err::<(u64, usize), PipelineError>(PipelineError::DecodingError),
        },
        r is Ok ==> pos < r->Ok_0.1 <= bytes.len(),
{
    match varint_read_inner(bytes, pos, 10) {
        Some((v, end)) => Ok((v, end)),
        None => {
            proof {
                if let Some((v, end)) = varint_parse(bytes@, pos as int) {
                    if v <= u64::MAX {
                        lemma_varint_parse_sound(bytes@, pos as int, v, end);
                        lemma_varint_bytes_len_u64(v);
                        assert(false);
                    }
                }
            }
            Err(PipelineError::DecodingError)
        },
    }
}

/// Zig-zags a signed value onto the wire's unsigned domain.
pub fn zigzag_encode(n: i64) -> (r: u64)
    ensures
        r as nat == zigzag(n as int),
{
    if n >= 0 {
        (n as u64) * 2
    } else {
        ((-(n + 1)) as u64) * 2 + 1
    }
}

/// Maps a wire value back to the signed domain.
pub fn zigzag_decode(z: u64) -> (r: i64)
    ensures
        r as int == unzigzag(z as nat),
{
    if z % 2 == 0 {
        (z / 2) as i64
    } else {
        -((z / 2) as i64) - 1
    }
}

} // verus!
