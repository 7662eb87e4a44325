//! Byte access and the variable-length fields of ETMv4 packets.

use vstd::prelude::*;
use crate::etmv4::DecodeError;

verus! {

/// The continuation bit of a variable-length field byte.
pub(crate) const C_BIT: u8 = 0x80;

/// The byte `k` places after `pos`, or `Truncated` past the end.
pub(crate) fn byte_at(buf: &Vec<u8>, pos: usize, k: usize) -> (r: Result<u8, DecodeError>)
    ensures
        buf@.len() == buf.len(),
        pos + k < buf@.len() ==> r == Ok::<u8, DecodeError>(buf@[pos + k]),
        pos + k >= buf@.len() ==> r == Err::<u8, DecodeError>(DecodeError::Truncated),
{
    if pos < buf.len() && k < buf.len() - pos {
        Ok(buf[pos + k])
    } else {
        Err(DecodeError::Truncated)
    }
}

pub(crate) proof fn lemma_byte_bits(b: u8)
    ensures
        (b & C_BIT == 0) == (b < 0x80),
        b & !C_BIT == b % 128,
        b & !C_BIT < 128,
{
    assert((b & 0x80u8 == 0) == (b < 0x80)) by (bit_vector);
    assert(b & !0x80u8 == b % 128) by (bit_vector);
}

/// A little-endian base-128 field at `pos` of at most `max` bytes: each
/// byte gives seven bits, and a set top bit says that another byte follows.
/// The result is the value and the number of bytes; a field that still
/// continues after `max` bytes is too long.
pub open spec fn parse_field(s: Seq<u8>, pos: int, max: nat) -> Result<(int, nat), DecodeError>
    decreases max,
{
    if max == 0 {
        Err(DecodeError::FieldTooLong)
    } else if pos < 0 || pos >= s.len() {
        Err(DecodeError::Truncated)
    } else if s[pos] < 0x80 {
        Ok((s[pos] as int, 1))
    } else {
        match parse_field(s, pos + 1, (max - 1) as nat) {
            Ok((v, n)) => Ok(((s[pos] % 128) + 128 * v, n + 1)),
            Err(e) => Err(e),
        }
    }
}

pub open spec fn pow128(k: nat) -> nat
    decreases k,
{
    if k == 0 {
        1
    } else {
        128 * pow128((k - 1) as nat)
    }
}

pub(crate) proof fn lemma_parse_field_bounds(s: Seq<u8>, pos: int, max: nat)
    ensures
        parse_field(s, pos, max) matches Ok((v, n)) ==> {
            &&& 1 <= n <= max
            &&& 0 <= pos
            &&& pos + n <= s.len()
            &&& 0 <= v < pow128(n)
        },
    decreases max,
{
    reveal_with_fuel(pow128, 2);
    if max > 0 && 0 <= pos < s.len() && s[pos] >= 0x80 {
        lemma_parse_field_bounds(s, pos + 1, (max - 1) as nat);
        if let Ok((v, n)) = parse_field(s, pos + 1, (max - 1) as nat) {
            let x = s[pos] % 128;
            assert(x + 128 * v < pow128(n + 1)) by (nonlinear_arith)
                requires
                    0 <= x < 128,
                    0 <= v < pow128(n),
                    pow128(n + 1) == 128 * pow128(n),
            ;
        }
    }
}

/// `r`, a field parsed `k` bytes further on, seen from the field's start,
/// where the first `k` bytes gave `value` and each further unit counts `scale`.
spec fn lift_field(r: Result<(int, nat), DecodeError>, value: int, scale: int, k: nat) -> Result<(int, nat), DecodeError> {
    match r {
        Ok((v, n)) => Ok((value + scale * v, n + k)),
        Err(e) => Err(e),
    }
}

proof fn lemma_scale_step(scale: int, x: int, v: int)
    ensures
        scale * (x + 128 * v) == scale * x + (scale * 128) * v,
{
    assert(scale * (x + 128 * v) == scale * x + (scale * 128) * v) by (nonlinear_arith);
}

/// Reads a field of at most `max` bytes (see `parse_field`).
pub fn read_field(buf: &Vec<u8>, pos: usize, max: usize) -> (r: Result<(u32, usize), DecodeError>)
    requires
        max <= 4,
    ensures
        match parse_field(buf@, pos as int, max as nat) {
            Ok((v, n)) => r == Ok::<(u32, usize), DecodeError>((v as u32, n as usize)),
            Err(e) => r == Err::<(u32, usize), DecodeError>(e),
        },
{
    let mut value: u32 = 0;
    let mut scale: u32 = 1;
    let mut k: usize = 0;
    proof {
        reveal_with_fuel(pow128, 5);
    }
    while k < max
        invariant
            k <= max <= 4,
            scale == pow128(k as nat),
            pow128(4) == 0x1000_0000,
            pow128(3) == 0x20_0000,
            value < scale,
            parse_field(buf@, pos as int, max as nat) == lift_field(
                parse_field(buf@, pos + k, (max - k) as nat),
                value as int,
                scale as int,
                k as nat,
            ),
        decreases max - k,
    {
        let data = match byte_at(buf, pos, k) {
            Ok(b) => b,
            Err(e) => {
                return Err(e);
            },
        };
        proof {
            lemma_byte_bits(data);
            lemma_parse_field_bounds(buf@, pos + k + 1, (max - k - 1) as nat);
        }
        let low = (data & !C_BIT) as u32;
        assert(value + scale * low < scale * 128) by (nonlinear_arith)
            requires
                value < scale,
                low < 128,
        ;
        if data & C_BIT == 0 {
            return Ok((value + scale * low, k + 1));
        }
        proof {
            if let Ok((v, n)) = parse_field(buf@, pos + k + 1, (max - k - 1) as nat) {
                lemma_scale_step(scale as int, low as int, v);
            }
            assert(k < 4);
            assert(pow128((k + 1) as nat) == 128 * pow128(k as nat));
            assert(pow128((k + 1) as nat) <= pow128(4)) by {
                reveal_with_fuel(pow128, 5);
            }
        }
        value = value + scale * low;
        scale = scale * 128;
        k = k + 1;
    }
    Err(DecodeError::FieldTooLong)
}


/// A field that is present only when `present` holds; an absent one is zero bytes of value 0.
#[verifier::opaque]
pub open spec fn optional_field(s: Seq<u8>, pos: int, present: bool, max: nat) -> Result<(int, nat), DecodeError> {
    if present {
        parse_field(s, pos, max)
    } else {
        Ok((0, 0))
    }
}

pub(crate) fn read_optional_field(buf: &Vec<u8>, pos: usize, present: bool, max: usize) -> (r: Result<
    (u32, usize),
    DecodeError,
>)
    requires
        max <= 4,
        pos <= buf@.len(),
    ensures
        match optional_field(buf@, pos as int, present, max as nat) {
            Ok((v, n)) => r == Ok::<(u32, usize), DecodeError>((v as u32, n as usize)) && pos + n
                <= buf@.len() && v < 0x1000_0000,
            Err(e) => r == Err::<(u32, usize), DecodeError>(e),
        },
{
    proof {
        reveal(optional_field);
        lemma_parse_field_bounds(buf@, pos as int, max as nat);
        reveal_with_fuel(pow128, 5);
        if let Ok((v, n)) = parse_field(buf@, pos as int, max as nat) {
            assert(pow128(n) <= pow128(4)) by {
                reveal_with_fuel(pow128, 5);
            }
        }
    }
    if present {
        read_field(buf, pos, max)
    } else {
        Ok((0, 0))
    }
}

/// The value field of a timestamp packet, its byte number `k` at `pos`: up
/// to eight bytes of seven bits, each continued by its top bit, and then a
/// ninth byte of eight bits that ends the field. Gives the value and the
/// number of bytes.
pub open spec fn parse_timestamp_field(s: Seq<u8>, pos: int, k: nat) -> Result<(int, nat), DecodeError>
    decreases 8 - k,
{
    if pos < 0 || pos >= s.len() {
        Err(DecodeError::Truncated)
    } else if k >= 8 || s[pos] < 0x80 {
        Ok((s[pos] as int, 1))
    } else {
        match parse_timestamp_field(s, pos + 1, k + 1) {
            Ok((v, n)) => Ok(((s[pos] % 128) + 128 * v, n + 1)),
            Err(e) => Err(e),
        }
    }
}

/// The cycle count that may close a timestamp packet, its byte number `k`
/// at `pos`: up to three bytes of seven bits, the third ending the field.
pub open spec fn parse_count_field(s: Seq<u8>, pos: int, k: nat) -> Result<(int, nat), DecodeError>
    decreases 2 - k,
{
    if pos < 0 || pos >= s.len() {
        Err(DecodeError::Truncated)
    } else if k >= 2 || s[pos] < 0x80 {
        Ok(((s[pos] % 128) as int, 1))
    } else {
        match parse_count_field(s, pos + 1, k + 1) {
            Ok((v, n)) => Ok(((s[pos] % 128) + 128 * v, n + 1)),
            Err(e) => Err(e),
        }
    }
}

/// How many low bits of the running timestamp a value field of `n` bytes replaces.
pub open spec fn timestamp_bits(n: nat) -> u32 {
    if n >= 9 {
        64
    } else {
        (7 * n) as u32
    }
}

pub(crate) proof fn lemma_timestamp_field_bounds(s: Seq<u8>, pos: int, k: nat)
    requires
        k <= 8,
    ensures
        parse_timestamp_field(s, pos, k) matches Ok((v, n)) ==> {
            &&& 1 <= n <= 9 - k
            &&& pos + n <= s.len()
            &&& 0 <= v
            &&& (n <= 8 - k ==> v < pow128(n))
            &&& (n == 9 - k ==> v < pow128((8 - k) as nat) * 256)
        },
    decreases 8 - k,
{
    reveal_with_fuel(pow128, 2);
    if 0 <= pos < s.len() && k < 8 && s[pos] >= 0x80 {
        lemma_timestamp_field_bounds(s, pos + 1, k + 1);
        if let Ok((v, n)) = parse_timestamp_field(s, pos + 1, k + 1) {
            let x = s[pos] % 128;
            if n <= 8 - (k + 1) {
                assert(x + 128 * v < pow128(n + 1)) by (nonlinear_arith)
                    requires
                        0 <= x < 128,
                        0 <= v < pow128(n),
                        pow128(n + 1) == 128 * pow128(n),
                ;
            } else {
                let m = (8 - (k + 1)) as nat;
                assert(x + 128 * v < pow128(m + 1) * 256) by (nonlinear_arith)
                    requires
                        0 <= x < 128,
                        0 <= v < pow128(m) * 256,
                        pow128(m + 1) == 128 * pow128(m),
                ;
            }
        }
    }
}

pub(crate) proof fn lemma_count_field_bounds(s: Seq<u8>, pos: int, k: nat)
    requires
        k <= 2,
    ensures
        parse_count_field(s, pos, k) matches Ok((v, n)) ==> {
            &&& 1 <= n <= 3 - k
            &&& pos + n <= s.len()
            &&& 0 <= v < pow128(n)
        },
    decreases 2 - k,
{
    reveal_with_fuel(pow128, 2);
    if 0 <= pos < s.len() && k < 2 && s[pos] >= 0x80 {
        lemma_count_field_bounds(s, pos + 1, k + 1);
        if let Ok((v, n)) = parse_count_field(s, pos + 1, k + 1) {
            let x = s[pos] % 128;
            assert(x + 128 * v < pow128(n + 1)) by (nonlinear_arith)
                requires
                    0 <= x < 128,
                    0 <= v < pow128(n),
                    pow128(n + 1) == 128 * pow128(n),
            ;
        }
    }
}

/// Reads the value field of a timestamp packet at `pos` (see `parse_timestamp_field`).
pub(crate) fn read_timestamp_field(buf: &Vec<u8>, pos: usize) -> (r: Result<(u64, usize), DecodeError>)
    ensures
        match parse_timestamp_field(buf@, pos as int, 0) {
            Ok((v, n)) => r == Ok::<(u64, usize), DecodeError>((v as u64, n as usize)) && pos + n
                <= buf@.len() && 1 <= n <= 9,
            Err(e) => r == Err::<(u64, usize), DecodeError>(e),
        },
{
    let mut value: u64 = 0;
    let mut scale: u64 = 1;
    let mut k: usize = 0;
    proof {
        reveal_with_fuel(pow128, 9);
        lemma_timestamp_field_bounds(buf@, pos as int, 0);
    }
    loop
        invariant
            k <= 8,
            scale == pow128(k as nat),
            pow128(8) == 0x100_0000_0000_0000,
            value < scale,
            parse_timestamp_field(buf@, pos as int, 0) == lift_field(
                parse_timestamp_field(buf@, pos + k, k as nat),
                value as int,
                scale as int,
                k as nat,
            ),
        decreases 8 - k,
    {
        let data = match byte_at(buf, pos, k) {
            Ok(b) => b,
            Err(e) => {
                return Err(e);
            },
        };
        proof {
            lemma_byte_bits(data);
            assert(pow128(k as nat) <= pow128(8)) by {
                reveal_with_fuel(pow128, 9);
            }
        }
        if k == 8 {
            assert(value + scale * (data as u64) < 0x1_0000_0000_0000_0000) by (nonlinear_arith)
                requires
                    value < scale,
                    scale == 0x100_0000_0000_0000,
                    data < 256,
            ;
            return Ok((value + scale * (data as u64), k + 1));
        }
        let low = (data & !C_BIT) as u64;
        assert(value + scale * low < scale * 128) by (nonlinear_arith)
            requires
                value < scale,
                low < 128,
        ;
        assert(scale * 128 <= 0x100_0000_0000_0000) by {
            reveal_with_fuel(pow128, 9);
            assert(pow128((k + 1) as nat) <= pow128(8));
        }
        if data & C_BIT == 0 {
            return Ok((value + scale * low, k + 1));
        }
        proof {
            if let Ok((v, n)) = parse_timestamp_field(buf@, pos + k + 1, (k + 1) as nat) {
                lemma_scale_step(scale as int, low as int, v);
            }
        }
        value = value + scale * low;
        scale = scale * 128;
        k = k + 1;
    }
}

/// Reads the cycle count at `pos` (see `parse_count_field`).
pub(crate) fn read_count_field(buf: &Vec<u8>, pos: usize) -> (r: Result<(u32, usize), DecodeError>)
    ensures
        match parse_count_field(buf@, pos as int, 0) {
            Ok((v, n)) => r == Ok::<(u32, usize), DecodeError>((v as u32, n as usize)) && pos + n
                <= buf@.len(),
            Err(e) => r == Err::<(u32, usize), DecodeError>(e),
        },
{
    let mut value: u32 = 0;
    let mut scale: u32 = 1;
    let mut k: usize = 0;
    proof {
        reveal_with_fuel(pow128, 4);
        lemma_count_field_bounds(buf@, pos as int, 0);
    }
    loop
        invariant
            k <= 2,
            scale == pow128(k as nat),
            pow128(3) == 0x20_0000,
            value < scale,
            parse_count_field(buf@, pos as int, 0) == lift_field(
                parse_count_field(buf@, pos + k, k as nat),
                value as int,
                scale as int,
                k as nat,
            ),
        decreases 2 - k,
    {
        let data = match byte_at(buf, pos, k) {
            Ok(b) => b,
            Err(e) => {
                return Err(e);
            },
        };
        proof {
            lemma_byte_bits(data);
        }
        let low = (data & !C_BIT) as u32;
        assert(value + scale * low < scale * 128) by (nonlinear_arith)
            requires
                value < scale,
                low < 128,
        ;
        assert(scale * 128 <= 0x20_0000) by {
            reveal_with_fuel(pow128, 4);
            assert(pow128((k + 1) as nat) <= pow128(3));
        }
        if k == 2 || data & C_BIT == 0 {
            return Ok((value + scale * low, k + 1));
        }
        proof {
            if let Ok((v, n)) = parse_count_field(buf@, pos + k + 1, (k + 1) as nat) {
                lemma_scale_step(scale as int, low as int, v);
            }
        }
        value = value + scale * low;
        scale = scale * 128;
        k = k + 1;
    }
}

} // verus!
