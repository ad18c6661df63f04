//! Little-endian integers as byte sequences.
use vstd::arithmetic::div_mod::lemma_div_denominator;
use vstd::arithmetic::power::{lemma_pow_positive, pow};
use vstd::prelude::*;

verus! {

/// The number that a little-endian byte sequence stands for.
pub open spec fn le_value(bytes: Seq<u8>) -> nat
    decreases bytes.len(),
{
    if bytes.len() == 0 {
        0
    } else {
        bytes[0] as nat + 256 * le_value(bytes.drop_first())
    }
}

/// The `n` little-endian bytes of `value`.
pub open spec fn le_bytes(value: nat, n: nat) -> Seq<u8>
    decreases n,
{
    if n == 0 {
        Seq::empty()
    } else {
        seq![(value % 256) as u8] + le_bytes(value / 256, (n - 1) as nat)
    }
}

/// How many values `n` bytes can tell apart.
pub open spec fn byte_range(n: nat) -> nat
    decreases n,
{
    if n == 0 {
        1
    } else {
        256 * byte_range((n - 1) as nat)
    }
}

/// `le_bytes` gives as many bytes as it was asked for.
pub proof fn le_bytes_len(value: nat, n: nat)
    ensures
        le_bytes(value, n).len() == n,
    decreases n,
{
    if n > 0 {
        le_bytes_len(value / 256, (n - 1) as nat);
    }
}

/// Reading the bytes of a number that fits gives the number back.
pub proof fn le_value_of_le_bytes(value: nat, n: nat)
    requires
        value < byte_range(n),
    ensures
        le_value(le_bytes(value, n)) == value,
    decreases n,
{
    if n > 0 {
        le_value_of_le_bytes(value / 256, (n - 1) as nat);
        le_bytes_len(value / 256, (n - 1) as nat);
        assert(le_bytes(value, n).drop_first() =~= le_bytes(value / 256, (n - 1) as nat));
    }
}

/// Writing the number that some bytes stand for gives the bytes back.
pub proof fn le_bytes_of_le_value(bytes: Seq<u8>)
    ensures
        le_bytes(le_value(bytes), bytes.len()) == bytes,
        le_value(bytes) < byte_range(bytes.len()),
    decreases bytes.len(),
{
    if bytes.len() > 0 {
        le_bytes_of_le_value(bytes.drop_first());
        assert(le_bytes(le_value(bytes), bytes.len()) =~= bytes);
    } else {
        assert(le_bytes(le_value(bytes), bytes.len()) =~= bytes);
    }
}

/// The two little-endian bytes of `value`.
pub fn u16_to_le(value: u16) -> (bytes: [u8; 2])
    ensures
        bytes@ == le_bytes(value as nat, 2),
{
    proof {
        reveal_with_fuel(le_bytes, 3);
    }
    [(value % 256) as u8, (value / 256) as u8]
}

/// The four little-endian bytes of `value`.
pub fn u32_to_le(value: u32) -> (bytes: [u8; 4])
    ensures
        bytes@ == le_bytes(value as nat, 4),
{
    let v1: u32 = value / 256;
    let v2: u32 = v1 / 256;
    let v3: u32 = v2 / 256;
    proof {
        reveal_with_fuel(le_bytes, 5);
    }
    [(value % 256) as u8, (v1 % 256) as u8, (v2 % 256) as u8, v3 as u8]
}

/// The eight little-endian bytes of `value`.
pub fn u64_to_le(value: u64) -> (bytes: [u8; 8])
    ensures
        bytes@ == le_bytes(value as nat, 8),
{
    let v1: u64 = value / 256;
    let v2: u64 = v1 / 256;
    let v3: u64 = v2 / 256;
    let v4: u64 = v3 / 256;
    let v5: u64 = v4 / 256;
    let v6: u64 = v5 / 256;
    let v7: u64 = v6 / 256;
    proof {
        reveal_with_fuel(le_bytes, 9);
    }
    [
        (value % 256) as u8,
        (v1 % 256) as u8,
        (v2 % 256) as u8,
        (v3 % 256) as u8,
        (v4 % 256) as u8,
        (v5 % 256) as u8,
        (v6 % 256) as u8,
        v7 as u8,
    ]
}

/// The number that two little-endian bytes stand for.
pub fn u16_from_le(bytes: [u8; 2]) -> (value: u16)
    ensures
        value as nat == le_value(bytes@),
{
    proof {
        reveal_with_fuel(le_value, 3);
    }
    bytes[0] as u16 + 256 * (bytes[1] as u16)
}

/// The number that four little-endian bytes stand for.
pub fn u32_from_le(bytes: [u8; 4]) -> (value: u32)
    ensures
        value as nat == le_value(bytes@),
{
    proof {
        reveal_with_fuel(le_value, 5);
    }
    bytes[0] as u32 + 256 * (bytes[1] as u32 + 256 * (bytes[2] as u32 + 256 * (bytes[3] as u32)))
}

/// The number that eight little-endian bytes stand for.
pub fn u64_from_le(bytes: [u8; 8]) -> (value: u64)
    ensures
        value as nat == le_value(bytes@),
{
    proof {
        reveal_with_fuel(le_value, 9);
    }
    let high: u64 = bytes[4] as u64 + 256 * (bytes[5] as u64 + 256 * (bytes[6] as u64 + 256 * (
    bytes[7] as u64)));
    bytes[0] as u64 + 256 * (bytes[1] as u64 + 256 * (bytes[2] as u64 + 256 * (bytes[3] as u64 + 256
        * high)))
}

/// Bytes are in little-endian order: byte `i` counts the 256-to-the-`i`s, and
/// `n` bytes tell 256-to-the-`n` values apart.
pub proof fn bytes_are_little_endian(value: nat, n: nat, i: nat)
    requires
        i < n,
    ensures
        le_bytes(value, n)[i as int] as int == (value as int / pow(256, i)) % 256,
        byte_range(n) == pow(256, n),
    decreases n,
{
    reveal(pow);
    le_bytes_len(value / 256, (n - 1) as nat);
    if i > 0 {
        bytes_are_little_endian(value / 256, (n - 1) as nat, (i - 1) as nat);
        lemma_pow_positive(256, (i - 1) as nat);
        lemma_div_denominator(value as int, 256, pow(256, (i - 1) as nat));
    } else if n > 1 {
        bytes_are_little_endian(value / 256, (n - 1) as nat, 0);
    }
}

/// One more byte adds its value times 256 to the number of bytes before it.
pub proof fn longer_numbers(bytes: Seq<u8>, byte: u8)
    ensures
        le_value(Seq::empty()) == 0,
        le_value(bytes.push(byte)) == le_value(bytes) + byte * pow(256, bytes.len()),
    decreases bytes.len(),
{
    reveal(pow);
    if bytes.len() == 0 {
        assert(bytes.push(byte).drop_first() =~= bytes);
    } else {
        longer_numbers(bytes.drop_first(), byte);
        assert(bytes.push(byte).drop_first() =~= bytes.drop_first().push(byte));
        let p = pow(256, (bytes.len() - 1) as nat);
        assert(256 * (byte * p) == byte * (256 * p)) by (nonlinear_arith);
    }
}

} // verus!
