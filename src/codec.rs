//! Bit-field extraction from a frame payload of at most eight bytes.
//!
//! The payload is read as a little-endian unsigned integer; a field is
//! `length` bits of it starting at bit `start_bit`.

use vstd::arithmetic::power2::{lemma2_to64, lemma_pow2_adds, lemma_pow2_pos, pow2};
use vstd::bits::{
    lemma_u64_low_bits_mask_is_mod, lemma_u64_pow2_no_overflow, lemma_u64_shl_is_mul,
    lemma_u64_shr_is_div, low_bits_mask,
};
use vstd::prelude::*;

verus! {

/// Why a field cannot be read from a payload.
#[derive(Clone, Copy, Debug, PartialEq, Eq, Structural)]
pub enum CodecError {
    /// The payload holds more than eight bytes.
    PayloadTooLong,
    /// The field is wider than the whole payload.
    FieldTooLong,
    /// The field runs past the end of the payload.
    OutOfRange,
    /// A signed field of width zero has no sign bit.
    ZeroLength,
}

/// The payload read as a little-endian unsigned integer.
pub open spec fn le_value(bytes: Seq<u8>) -> nat
    decreases bytes.len(),
{
    if bytes.len() == 0 {
        0
    } else {
        bytes[0] as nat + 256 * le_value(bytes.drop_first())
    }
}

/// The unsigned value of the `length` bits that start at bit `start`.
pub open spec fn field_value(bytes: Seq<u8>, start: nat, length: nat) -> nat {
    (le_value(bytes) / pow2(start)) % pow2(length)
}

/// The error, if any, of reading `length` bits at `start` from `len` bytes.
pub open spec fn extraction_error(len: nat, start: nat, length: nat) -> Option<CodecError> {
    if len > 8 {
        Some(CodecError::PayloadTooLong)
    } else if length > len * 8 {
        Some(CodecError::FieldTooLong)
    } else if start + length > len * 8 {
        Some(CodecError::OutOfRange)
    } else {
        None
    }
}

/// Two's-complement reading of the `length`-bit unsigned value `u`: when bit
/// `length - 1` is set the value stands for `u - 2^length`.
pub open spec fn sign_extend(u: nat, length: nat) -> int {
    if length > 0 && u >= pow2((length - 1) as nat) {
        u - pow2(length)
    } else {
        u as int
    }
}

/// What `extract_unsigned` returns.
pub open spec fn unsigned_field(bytes: Seq<u8>, start: u64, length: u64) -> Result<u64, CodecError> {
    match extraction_error(bytes.len(), start as nat, length as nat) {
        Some(e) => Err(e),
        None => Ok(field_value(bytes, start as nat, length as nat) as u64),
    }
}

/// What `extract_signed` returns.
pub open spec fn signed_field(bytes: Seq<u8>, start: u64, length: u64) -> Result<i64, CodecError> {
    match extraction_error(bytes.len(), start as nat, length as nat) {
        Some(e) => Err(e),
        None => if length == 0 {
            Err(CodecError::ZeroLength)
        } else {
            Ok(sign_extend(field_value(bytes, start as nat, length as nat), length as nat) as i64)
        },
    }
}

/// What `float32_bits` returns.
pub open spec fn float32_field(bytes: Seq<u8>, start: u64) -> Result<u32, CodecError> {
    match extraction_error(bytes.len(), start as nat, 32) {
        Some(e) => Err(e),
        None => Ok(field_value(bytes, start as nat, 32) as u32),
    }
}

/// `r` holds the bits of `b` in the opposite order.
pub open spec fn is_bit_reversal(b: u8, r: u8) -> bool {
    forall|i: u8| i < 8 ==> #[trigger] ((r >> i) & 1) == (b >> (7 - i) as u8) & 1
}

/// The byte whose bits are those of `b` in the opposite order.
pub open spec fn reversed_byte(b: u8) -> u8 {
    choose|r: u8| is_bit_reversal(b, r)
}

/// Every byte of `s` with its bits reversed.
pub open spec fn reverse_all(s: Seq<u8>) -> Seq<u8> {
    s.map_values(|b: u8| reversed_byte(b))
}

proof fn lemma_bit_reversal_unique(b: u8, r1: u8, r2: u8)
    requires
        is_bit_reversal(b, r1),
        is_bit_reversal(b, r2),
    ensures
        r1 == r2,
{
    let bits_equal = forall|i: u8| i < 8 ==> #[trigger] ((r1 >> i) & 1) == (r2 >> i) & 1;
    assert(bits_equal) by {
        assert forall|i: u8| i < 8 implies #[trigger] ((r1 >> i) & 1) == (r2 >> i) & 1 by {
            assert(((r1 >> i) & 1) == (b >> (7 - i) as u8) & 1);
            assert(((r2 >> i) & 1) == (b >> (7 - i) as u8) & 1);
        }
    }
    assert(((r1 >> 0u8) & 1) == (r2 >> 0u8) & 1);
    assert(((r1 >> 1u8) & 1) == (r2 >> 1u8) & 1);
    assert(((r1 >> 2u8) & 1) == (r2 >> 2u8) & 1);
    assert(((r1 >> 3u8) & 1) == (r2 >> 3u8) & 1);
    assert(((r1 >> 4u8) & 1) == (r2 >> 4u8) & 1);
    assert(((r1 >> 5u8) & 1) == (r2 >> 5u8) & 1);
    assert(((r1 >> 6u8) & 1) == (r2 >> 6u8) & 1);
    assert(((r1 >> 7u8) & 1) == (r2 >> 7u8) & 1);
    assert(r1 == r2) by (bit_vector)
        requires
            ((r1 >> 0u8) & 1) == (r2 >> 0u8) & 1,
            ((r1 >> 1u8) & 1) == (r2 >> 1u8) & 1,
            ((r1 >> 2u8) & 1) == (r2 >> 2u8) & 1,
            ((r1 >> 3u8) & 1) == (r2 >> 3u8) & 1,
            ((r1 >> 4u8) & 1) == (r2 >> 4u8) & 1,
            ((r1 >> 5u8) & 1) == (r2 >> 5u8) & 1,
            ((r1 >> 6u8) & 1) == (r2 >> 6u8) & 1,
            ((r1 >> 7u8) & 1) == (r2 >> 7u8) & 1,
    ;
}

proof fn lemma_pow2_8()
    ensures
        pow2(8) == 256,
        pow2(64) == 0x1_0000_0000_0000_0000,
{
    lemma2_to64();
}

proof fn lemma_le_value_bound(s: Seq<u8>)
    ensures
        le_value(s) < pow2(8 * s.len()),
    decreases s.len(),
{
    lemma_pow2_8();
    if s.len() > 0 {
        lemma_le_value_bound(s.drop_first());
        let k = (8 * (s.len() - 1)) as nat;
        lemma_pow2_adds(8, k);
        assert(8 + k == 8 * s.len());
    } else {
        lemma_pow2_pos(0);
        assert(pow2(0) == 1) by { lemma2_to64(); }
    }
}

proof fn lemma_le_value_step(s: Seq<u8>, i: int)
    requires
        0 < i <= s.len(),
    ensures
        le_value(s.subrange(i - 1, s.len() as int)) == s[i - 1] as nat + 256 * le_value(
            s.subrange(i, s.len() as int),
        ),
{
    let t = s.subrange(i - 1, s.len() as int);
    assert(t.drop_first() =~= s.subrange(i, s.len() as int));
}

/// The payload as a little-endian integer.
fn le_u64(bytes: &[u8]) -> (v: u64)
    requires
        bytes@.len() <= 8,
    ensures
        v as nat == le_value(bytes@),
{
    let n = bytes.len();
    let mut i: usize = n;
    let mut v: u64 = 0;
    while i > 0
        invariant
            i <= n,
            n == bytes@.len(),
            n <= 8,
            v as nat == le_value(bytes@.subrange(i as int, n as int)),
        decreases i,
    {
        proof {
            lemma_le_value_step(bytes@, i as int);
            lemma_le_value_bound(bytes@.subrange(i - 1, n as int));
            lemma_u64_pow2_no_overflow(0);
            lemma_pow2_8();
            let k = (8 * (n - (i - 1))) as nat;
            if k < 64 {
                lemma_pow2_adds(k, (64 - k) as nat);
                lemma_pow2_pos((64 - k) as nat);
            }
            assert(pow2(k) <= pow2(64)) by {
                if k < 64 {
                    assert(pow2(k) * 1 <= pow2(k) * pow2((64 - k) as nat)) by (nonlinear_arith)
                        requires
                            pow2((64 - k) as nat) >= 1,
                    ;
                }
            }
        }
        i = i - 1;
        v = v * 256 + bytes[i] as u64;
    }
    assert(bytes@.subrange(0, n as int) =~= bytes@);
    v
}

/// Reads `length` bits starting at bit `start_bit` of the payload, read as a
/// little-endian integer, and returns them as an unsigned value.
pub fn extract_unsigned(bytes: &[u8], start_bit: u64, length: u64) -> (r: Result<u64, CodecError>)
    ensures
        r == unsigned_field(bytes@, start_bit, length),
        match extraction_error(bytes@.len(), start_bit as nat, length as nat) {
            Some(e) => r == Err::<u64, CodecError>(e),
            None => r matches Ok(v) && v as nat == field_value(
                bytes@,
                start_bit as nat,
                length as nat,
            ),
        },
{
    if bytes.len() > 8 {
        return Err(CodecError::PayloadTooLong);
    }
    let bits = (bytes.len() as u64) * 8;
    if length > bits {
        return Err(CodecError::FieldTooLong);
    }
    if start_bit > bits - length {
        return Err(CodecError::OutOfRange);
    }
    let value = le_u64(bytes);
    proof {
        lemma_pow2_8();
        lemma_le_value_bound(bytes@);
        lemma_pow2_pos(start_bit as nat);
        lemma_pow2_pos(length as nat);
    }
    if start_bit >= 64 {
        // Only an empty field can start past the last bit.
        proof {
            assert(length == 0);
            assert(pow2(0) == 1) by { lemma2_to64(); }
        }
        return Ok(0);
    }
    let shifted = value >> start_bit;
    proof {
        lemma_u64_shr_is_div(value, start_bit);
    }
    if length == 64 {
        proof {
            assert(start_bit == 0);
            assert(pow2(0) == 1) by { lemma2_to64(); }
            assert(shifted as nat % pow2(64) == shifted as nat) by {
                vstd::arithmetic::div_mod::lemma_small_mod(shifted as nat, pow2(64));
            }
        }
        return Ok(shifted);
    }
    proof {
        lemma_u64_pow2_no_overflow(length as nat);
        lemma_u64_shl_is_mul(1, length);
    }
    let mask = (1u64 << length) - 1;
    proof {
        assert(mask == low_bits_mask(length as nat) as u64);
        lemma_u64_low_bits_mask_is_mod(shifted, length as nat);
    }
    Ok(shifted & mask)
}

/// Reads a field as `extract_unsigned` does and sign-extends it from bit
/// `length - 1` (two's complement).
pub fn extract_signed(bytes: &[u8], start_bit: u64, length: u64) -> (r: Result<i64, CodecError>)
    ensures
        r == signed_field(bytes@, start_bit, length),
        match extraction_error(bytes@.len(), start_bit as nat, length as nat) {
            Some(e) => r == Err::<i64, CodecError>(e),
            None => if length == 0 {
                r == Err::<i64, CodecError>(CodecError::ZeroLength)
            } else {
                r matches Ok(v) && v as int == sign_extend(
                    field_value(bytes@, start_bit as nat, length as nat),
                    length as nat,
                )
            },
        },
{
    let u = match extract_unsigned(bytes, start_bit, length) {
        Ok(u) => u,
        Err(e) => return Err(e),
    };
    if length == 0 {
        return Err(CodecError::ZeroLength);
    }
    proof {
        lemma_u64_pow2_no_overflow((length - 1) as nat);
        lemma_pow2_8();
        lemma_pow2_adds((length - 1) as nat, 1);
        assert(pow2(1) == 2) by { lemma2_to64(); }
        assert(pow2(63) == 0x8000_0000_0000_0000u64) by { vstd::arithmetic::power2::lemma2_to64_rest(); }
        lemma_pow2_pos(length as nat);
        vstd::arithmetic::div_mod::lemma_mod_bound(
            le_value(bytes@) as int / pow2(start_bit as nat) as int,
            pow2(length as nat) as int,
        );
    }
    if length == 64 {
        if u >= 0x8000_0000_0000_0000u64 {
            let below: u64 = u64::MAX - u;
            Ok(-(below as i64) - 1)
        } else {
            Ok(u as i64)
        }
    } else {
        proof {
            lemma_u64_pow2_no_overflow(length as nat);
            lemma_u64_shl_is_mul(1, (length - 1) as u64);
            lemma_u64_shl_is_mul(1, length);
            if length < 63 {
                vstd::arithmetic::power2::lemma_pow2_strictly_increases(length as nat, 63);
            }
        }
        let sign_bit: u64 = 1u64 << (length - 1);
        let span: u64 = 1u64 << length;
        if u >= sign_bit {
            Ok((u as i128 - span as i128) as i64)
        } else {
            Ok(u as i64)
        }
    }
}

/// The 32 bits at `start_bit`, as the bit pattern of an IEEE-754 single.
pub fn float32_bits(bytes: &[u8], start_bit: u64) -> (r: Result<u32, CodecError>)
    ensures
        r == float32_field(bytes@, start_bit),
        match extraction_error(bytes@.len(), start_bit as nat, 32) {
            Some(e) => r == Err::<u32, CodecError>(e),
            None => r matches Ok(v) && v as nat == field_value(bytes@, start_bit as nat, 32),
        },
{
    match extract_unsigned(bytes, start_bit, 32) {
        Ok(v) => {
            proof {
                lemma_pow2_pos(start_bit as nat);
                lemma_pow2_pos(32);
                vstd::arithmetic::div_mod::lemma_mod_bound(
                    le_value(bytes@) as int / pow2(start_bit as nat) as int,
                    pow2(32) as int,
                );
                assert(pow2(32) == 0x1_0000_0000) by { lemma2_to64(); }
            }
            Ok(v as u32)
        },
        Err(e) => Err(e),
    }
}

/// The 64 bits at `start_bit`, as the bit pattern of an IEEE-754 double.
pub fn float64_bits(bytes: &[u8], start_bit: u64) -> (r: Result<u64, CodecError>)
    ensures
        r == unsigned_field(bytes@, start_bit, 64),
        match extraction_error(bytes@.len(), start_bit as nat, 64) {
            Some(e) => r == Err::<u64, CodecError>(e),
            None => r matches Ok(v) && v as nat == field_value(bytes@, start_bit as nat, 64),
        },
{
    extract_unsigned(bytes, start_bit, 64)
}

/// One byte with its bit order reversed.
pub fn reverse_byte(b: u8) -> (r: u8)
    ensures
        is_bit_reversal(b, r),
        r == reversed_byte(b),
{
    let r: u8 = ((b & 1) << 7) | ((b & 2) << 5) | ((b & 4) << 3) | ((b & 8) << 1) | ((b & 16) >> 1)
        | ((b & 32) >> 3) | ((b & 64) >> 5) | ((b & 128) >> 7);
    assert(((r >> 0u8) & 1) == (b >> 7u8) & 1 && ((r >> 1u8) & 1) == (b >> 6u8) & 1 && ((r >> 2u8)
        & 1) == (b >> 5u8) & 1 && ((r >> 3u8) & 1) == (b >> 4u8) & 1 && ((r >> 4u8) & 1) == (b
        >> 3u8) & 1 && ((r >> 5u8) & 1) == (b >> 2u8) & 1 && ((r >> 6u8) & 1) == (b >> 1u8) & 1
        && ((r >> 7u8) & 1) == (b >> 0u8) & 1) by (bit_vector)
        requires
            r == ((b & 1) << 7) | ((b & 2) << 5) | ((b & 4) << 3) | ((b & 8) << 1) | ((b & 16)
                >> 1) | ((b & 32) >> 3) | ((b & 64) >> 5) | ((b & 128) >> 7),
    ;
    assert forall|i: u8| i < 8 implies #[trigger] ((r >> i) & 1) == (b >> (7 - i) as u8) & 1 by {
        if i == 0 {
        } else if i == 1 {
        } else if i == 2 {
        } else if i == 3 {
        } else if i == 4 {
        } else if i == 5 {
        } else if i == 6 {
        } else {
            assert(i == 7);
        }
    }
    proof {
        assert(is_bit_reversal(b, r));
        assert(exists|x: u8| is_bit_reversal(b, x));
        lemma_bit_reversal_unique(b, r, reversed_byte(b));
    }
    r
}

/// Reverses the bit order within every byte, each byte on its own.
pub fn reverse_bit_order(bytes: &mut Vec<u8>)
    ensures
        final(bytes)@ == reverse_all(old(bytes)@),
        final(bytes)@.len() == old(bytes)@.len(),
        forall|i: int|
            0 <= i < old(bytes)@.len() ==> is_bit_reversal(
                #[trigger] old(bytes)@[i],
                final(bytes)@[i],
            ),
{
    let n = bytes.len();
    let mut i: usize = 0;
    while i < n
        invariant
            n == old(bytes)@.len(),
            bytes@.len() == n,
            i <= n,
            forall|j: int| 0 <= j < i ==> is_bit_reversal(#[trigger] old(bytes)@[j], bytes@[j]),
            forall|j: int| 0 <= j < i ==> bytes@[j] == reversed_byte(#[trigger] old(bytes)@[j]),
            forall|j: int| i <= j < n ==> #[trigger] bytes@[j] == old(bytes)@[j],
        decreases n - i,
    {
        let r = reverse_byte(bytes[i]);
        bytes.set(i, r);
        i = i + 1;
    }
    assert(bytes@ =~= reverse_all(old(bytes)@));
}

} // verus!
