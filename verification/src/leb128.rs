//! Unsigned LEB128: seven bits of the number in each byte, least significant
//! group first, the high bit set on every byte but the last.

use crate::error::DecodeError;
use vstd::prelude::*;

verus! {

/// The ULEB128 encoding of `v`.
pub open spec fn uleb128_bytes(v: nat) -> Seq<u8>
    decreases v,
{
    if v < 128 {
        seq![v as u8]
    } else {
        seq![(v % 128 + 128) as u8] + uleb128_bytes(v / 128)
    }
}

/// Decodes the ULEB128 integer at the front of `s`, of which `taken` bytes
/// were consumed before `s`: the value of what is left of it, and how many
/// bytes of `s` it takes.
///
/// The tenth byte of an integer holds bit 63 alone, so anything above 1
/// there does not fit in 64 bits.
pub open spec fn parse_uleb128_from(s: Seq<u8>, taken: nat) -> Result<(nat, nat), DecodeError>
    decreases s.len(),
{
    if s.len() == 0 {
        Err(DecodeError::UnexpectedEof)
    } else if taken >= 9 && s[0] > 1 {
        Err(DecodeError::VarintOverflow)
    } else if s[0] < 128 {
        Ok((s[0] as nat, 1))
    } else {
        match parse_uleb128_from(s.skip(1), taken + 1) {
            Ok((v, n)) => Ok((((s[0] - 128) + 128 * v) as nat, n + 1)),
            Err(e) => Err(e),
        }
    }
}

/// Decodes the ULEB128 integer at the front of `s`: its value and its length
/// in bytes.
pub open spec fn parse_uleb128(s: Seq<u8>) -> Result<(nat, nat), DecodeError> {
    parse_uleb128_from(s, 0)
}

/// One more than the largest value that the bytes from the `taken`-th on can
/// hold without leaving 64 bits.
pub open spec fn uleb128_room(taken: nat) -> nat
    decreases 9 - taken,
{
    if taken >= 9 {
        2
    } else {
        128 * uleb128_room(taken + 1)
    }
}

/// The whole integer has room for exactly the 64-bit numbers.
pub proof fn lemma_uleb128_room_is_u64()
    ensures
        uleb128_room(0) == 0x1_0000_0000_0000_0000,
{
    reveal_with_fuel(uleb128_room, 11);
}

/// There is always room for a last byte of 0 or 1.
pub proof fn lemma_uleb128_room_min(taken: nat)
    ensures
        uleb128_room(taken) >= 2,
    decreases 9 - taken,
{
    if taken < 9 {
        lemma_uleb128_room_min(taken + 1);
    }
}

/// What decodes, fits: the value is below the room, and the integer is at
/// most ten bytes long.
pub proof fn lemma_parse_uleb128_bounds(s: Seq<u8>, taken: nat)
    requires
        taken <= 9,
        parse_uleb128_from(s, taken) is Ok,
    ensures
        parse_uleb128_from(s, taken)->Ok_0.0 < uleb128_room(taken),
        1 <= parse_uleb128_from(s, taken)->Ok_0.1 <= s.len(),
        parse_uleb128_from(s, taken)->Ok_0.1 + taken <= 10,
    decreases s.len(),
{
    lemma_uleb128_room_min(taken + 1);
    if s[0] >= 128 {
        lemma_parse_uleb128_bounds(s.skip(1), taken + 1);
    }
}

/// The encoding of a value that fits decodes to that value and is consumed
/// whole, whatever follows it.
pub proof fn lemma_uleb128_round_trip_from(v: nat, taken: nat, rest: Seq<u8>)
    requires
        v < uleb128_room(taken),
    ensures
        parse_uleb128_from(uleb128_bytes(v) + rest, taken) == Ok::<(nat, nat), DecodeError>(
            (v, uleb128_bytes(v).len()),
        ),
    decreases v,
{
    let s = uleb128_bytes(v) + rest;
    if v < 128 {
        assert(s[0] == v as u8);
    } else {
        assert(s[0] == (v % 128 + 128) as u8);
        assert(s.skip(1) =~= uleb128_bytes(v / 128) + rest);
        lemma_uleb128_round_trip_from(v / 128, taken + 1, rest);
    }
}

/// Every 64-bit number survives encoding and decoding, and decoding takes
/// exactly the bytes that encoding wrote.
pub proof fn lemma_uleb128_round_trip(v: u64, rest: Seq<u8>)
    ensures
        parse_uleb128(uleb128_bytes(v as nat) + rest) == Ok::<(nat, nat), DecodeError>(
            (v as nat, uleb128_bytes(v as nat).len()),
        ),
{
    lemma_uleb128_room_is_u64();
    lemma_uleb128_round_trip_from(v as nat, 0, rest);
}

} // verus!
