//! Reading the fields of the wire format from a byte buffer.

use bytebuffer::ByteBuffer;
use crate::bancho::wire::lemma_took_both;
use crate::bancho::wire::length_of;
use crate::bancho::wire::parse_i32;
use crate::bancho::wire::parse_message;
use crate::bancho::wire::parse_osu_string;
use crate::bancho::wire::parse_u32;
use crate::bancho::wire::parse_u8;
use crate::bancho::wire::took;
use crate::bancho::wire::MessageView;
use crate::bancho::wire::OsuMessage;
use crate::bancho::wire::STRING_PRESENT;
use crate::buffer::buffer_from_bytes;
use crate::buffer::buffer_len;
use crate::buffer::buffer_little_endian;
use crate::buffer::byte_aligned;
use crate::buffer::lemma_read_advanced;
use crate::buffer::read_bytes;
use crate::buffer::read_i32;
use crate::buffer::read_position;
use crate::buffer::read_u32;
use crate::buffer::read_u8;
use crate::buffer::set_little_endian;
use crate::buffer::unread_bytes;
use crate::error::DecodeError;
use crate::leb128::parse_uleb128;
use crate::leb128::parse_uleb128_from;
use crate::text::string_from_utf8;
use vstd::prelude::*;

verus! {

/// Reading the wire format's fields from a source of bytes.
pub trait OsuReader {
    /// Whether fields can be read from the source as it stands.
    spec fn can_read(&self) -> bool;

    /// The bytes that have not been read yet.
    spec fn unread(&self) -> Seq<u8>;

    /// Reads a ULEB128 integer. It fails with `UnexpectedEof` where the
    /// bytes end inside it, and with `VarintOverflow` where it does not fit
    /// in 64 bits.
    fn read_uleb128(&mut self) -> (r: Result<u64, DecodeError>)
        requires
            old(self).can_read(),
        ensures
            final(self).can_read(),
            match r {
                Ok(v) => parse_uleb128(old(self).unread()) matches Ok((value, n)) && value == v
                    && took(old(self).unread(), final(self).unread(), n),
                Err(e) => parse_uleb128(old(self).unread()) == Err::<(nat, nat), DecodeError>(e),
            },
    ;

    /// Reads a string. It fails as `read_uleb128` does on the length, with
    /// `UnexpectedEof` where fewer bytes are left than the length says, and
    /// with `InvalidUtf8` where the bytes are not UTF-8.
    fn read_osu_string(&mut self) -> (r: Result<String, DecodeError>)
        requires
            old(self).can_read(),
        ensures
            final(self).can_read(),
            match r {
                Ok(v) => parse_osu_string(old(self).unread()) matches Ok((value, n)) && value
                    == v@ && took(old(self).unread(), final(self).unread(), n),
                Err(e) => parse_osu_string(old(self).unread()) == Err::<
                    (Seq<char>, nat),
                    DecodeError,
                >(e),
            },
    ;

    /// Reads a chat message. It fails as the reads of its fields do.
    fn read_osu_message(&mut self) -> (r: Result<OsuMessage, DecodeError>)
        requires
            old(self).can_read(),
        ensures
            final(self).can_read(),
            match r {
                Ok(v) => parse_message(old(self).unread()) matches Ok((value, n)) && value == v@
                    && took(old(self).unread(), final(self).unread(), n),
                Err(e) => parse_message(old(self).unread()) == Err::<
                    (MessageView, nat),
                    DecodeError,
                >(e),
            },
    ;
}

const LEB128_HIGH_ORDER_BIT: u8 = 0x80;

/// The weight of the seven-bit group with index `k`.
spec fn uleb128_weight(k: nat) -> nat
    decreases k,
{
    if k == 0 {
        1
    } else {
        128 * uleb128_weight((k - 1) as nat)
    }
}

/// The result for the whole integer, given that its first `k` groups came
/// to `acc` and the rest of it decodes to `rest`.
spec fn uleb128_resume(acc: nat, k: nat, rest: Result<(nat, nat), DecodeError>) -> Result<
    (nat, nat),
    DecodeError,
> {
    match rest {
        Ok((v, n)) => Ok((acc + uleb128_weight(k) * v, n + k)),
        Err(e) => Err(e),
    }
}

/// Which bits of a byte are the group and which the flag.
proof fn lemma_low_seven_bits(byte: u8)
    ensures
        (byte & LEB128_HIGH_ORDER_BIT == 0) <==> byte < 128,
        byte < 128 ==> byte & !LEB128_HIGH_ORDER_BIT == byte,
        byte >= 128 ==> byte & !LEB128_HIGH_ORDER_BIT == byte - 128,
        byte & !LEB128_HIGH_ORDER_BIT < 128,
{
    assert((byte & 0x80u8 == 0) <==> byte < 128) by (bit_vector);
    assert(byte < 128 ==> byte & !0x80u8 == byte) by (bit_vector);
    assert(byte >= 128 ==> byte & !0x80u8 == byte - 128) by (bit_vector);
    assert(byte & !0x80u8 < 128) by (bit_vector);
}

/// A group that is or-ed in above the groups before it is added to them.
proof fn lemma_or_in_group(acc: u64, low: u64, shift: u32)
    requires
        acc < (1u64 << shift),
        (shift <= 56 && low < 128) || (shift == 63 && low <= 1),
    ensures
        acc | (low << shift) == acc + (1u64 << shift) * low,
        shift <= 56 ==> (acc | (low << shift)) < (1u64 << ((shift + 7) as u32)),
        shift <= 56 ==> (1u64 << ((shift + 7) as u32)) == 128 * (1u64 << shift),
{
    assert(acc | (low << shift) == acc + (1u64 << shift) * low) by (bit_vector)
        requires
            acc < (1u64 << shift),
            (shift <= 56 && low < 128) || (shift == 63 && low <= 1),
    ;
    if shift <= 56 {
        assert((acc | (low << shift)) < (1u64 << ((shift + 7) as u32))) by (bit_vector)
            requires
                acc < (1u64 << shift),
                shift <= 56,
                low < 128,
        ;
        assert((1u64 << ((shift + 7) as u32)) == 128 * (1u64 << shift)) by (bit_vector)
            requires
                shift <= 56,
        ;
    }
}

/// The value of an integer, taken apart behind one group more.
proof fn lemma_resume_step(acc: nat, k: nat, low: nat, v: nat)
    ensures
        acc + uleb128_weight(k) * (low + 128 * v) == (acc + uleb128_weight(k) * low)
            + uleb128_weight(k + 1) * v,
{
    let w = uleb128_weight(k);
    assert(uleb128_weight(k + 1) == 128 * w);
    assert(acc + w * (low + 128 * v) == (acc + w * low) + (128 * w) * v) by (nonlinear_arith);
}

impl OsuReader for ByteBuffer {
    open spec fn can_read(&self) -> bool {
        byte_aligned(*self) && buffer_little_endian(*self)
    }

    open spec fn unread(&self) -> Seq<u8> {
        unread_bytes(*self)
    }

    fn read_uleb128(&mut self) -> (r: Result<u64, DecodeError>) {
        let mut result: u64 = 0;
        let mut shift: u32 = 0;
        let ghost start = unread_bytes(*self);
        let ghost mut taken: nat = 0;
        proof {
            assert(start.skip(0) =~= start);
            assert(1u64 << 0u32 == 1) by (bit_vector);
        }
        loop
            invariant
                self.can_read(),
                start == unread_bytes(*old(self)),
                taken <= 9,
                shift == 7 * taken,
                taken <= start.len(),
                unread_bytes(*self) == start.skip(taken as int),
                (1u64 << shift) == uleb128_weight(taken),
                result < (1u64 << shift),
                parse_uleb128(start) == uleb128_resume(
                    result as nat,
                    taken,
                    parse_uleb128_from(start.skip(taken as int), taken),
                ),
            decreases 9 - taken,
        {
            let ghost rest = start.skip(taken as int);
            let byte = match read_u8(self) {
                Ok(b) => b,
                Err(_) => {
                    return Err(DecodeError::UnexpectedEof);
                },
            };
            if shift == 63 && byte > 1 {
                return Err(DecodeError::VarintOverflow);
            }
            let low = (byte & !LEB128_HIGH_ORDER_BIT) as u64;
            proof {
                lemma_low_seven_bits(byte);
                lemma_or_in_group(result, low, shift);
                assert(rest.skip(1) =~= start.skip((taken + 1) as int));
                assert(unread_bytes(*self) =~= start.skip((taken + 1) as int));
            }
            let ghost before = result;
            result |= low << shift;
            if byte & LEB128_HIGH_ORDER_BIT == 0 {
                return Ok(result);
            }
            proof {
                match parse_uleb128_from(rest.skip(1), taken + 1) {
                    Ok((v, n)) => {
                        lemma_resume_step(before as nat, taken, low as nat, v);
                    },
                    Err(_) => {},
                }
                taken = taken + 1;
            }
            shift += 7;
        }
    }

    fn read_osu_string(&mut self) -> (r: Result<String, DecodeError>) {
        proof {
            reveal(parse_osu_string);
        }
        let ghost start = unread_bytes(*self);
        let marker = match read_u8(self) {
            Ok(b) => b,
            Err(_) => {
                return Err(DecodeError::UnexpectedEof);
            },
        };
        assert(unread_bytes(*self) =~= start.skip(1));
        if marker != STRING_PRESENT {
            return Ok(String::new());
        }
        let str_length = match self.read_uleb128() {
            Ok(v) => v,
            Err(e) => {
                return Err(e);
            },
        };
        let ghost n = parse_uleb128(start.skip(1))->Ok_0.1;
        assert(unread_bytes(*self) =~= start.skip((1 + n) as int));
        let remaining = buffer_len(self) - read_position(self);
        if str_length > remaining as u64 {
            return Err(DecodeError::UnexpectedEof);
        }
        let ghost at_body = *self;
        let bytes = match read_bytes(self, str_length as usize) {
            Ok(b) => b,
            Err(_) => {
                return Err(DecodeError::UnexpectedEof);
            },
        };
        proof {
            lemma_read_advanced(at_body, *self, str_length as nat);
            assert(unread_bytes(*self) =~= start.skip(1 + n + str_length));
        }
        match string_from_utf8(bytes) {
            Ok(s) => Ok(s),
            Err(_) => Err(DecodeError::InvalidUtf8),
        }
    }

    fn read_osu_message(&mut self) -> (r: Result<OsuMessage, DecodeError>) {
        let ghost start = unread_bytes(*self);
        let sender = match self.read_osu_string() {
            Ok(v) => v,
            Err(e) => {
                return Err(e);
            },
        };
        let ghost at_text = length_of(parse_osu_string(start));
        let text = match self.read_osu_string() {
            Ok(v) => v,
            Err(e) => {
                return Err(e);
            },
        };
        let ghost at_recipient = at_text + length_of(parse_osu_string(start.skip(at_text as int)));
        proof {
            lemma_took_both(start, start.skip(at_text as int), unread_bytes(*self), at_text,
                (at_recipient - at_text) as nat);
        }
        let recipient = match self.read_osu_string() {
            Ok(v) => v,
            Err(e) => {
                return Err(e);
            },
        };
        let ghost at_id = at_recipient + length_of(
            parse_osu_string(start.skip(at_recipient as int)),
        );
        proof {
            lemma_took_both(start, start.skip(at_recipient as int), unread_bytes(*self),
                at_recipient, (at_id - at_recipient) as nat);
        }
        let sender_id = match read_i32_le(self) {
            Ok(v) => v,
            Err(e) => {
                return Err(e);
            },
        };
        proof {
            lemma_took_both(start, start.skip(at_id as int), unread_bytes(*self), at_id, 4);
        }
        Ok(OsuMessage { sender, text, recipient, sender_id })
    }
}

/// A buffer from which the fields of `bytes` can be read, from the first
/// byte on.
pub fn reader_of(bytes: &[u8]) -> (buf: ByteBuffer)
    ensures
        buf.can_read(),
        buf.unread() == bytes@,
{
    let mut buf = buffer_from_bytes(bytes);
    set_little_endian(&mut buf);
    assert(unread_bytes(buf) =~= bytes@);
    buf
}

/// Reads one byte.
pub fn read_byte(buf: &mut ByteBuffer) -> (r: Result<u8, DecodeError>)
    requires
        old(buf).can_read(),
    ensures
        final(buf).can_read(),
        match r {
            Ok(v) => parse_u8(old(buf).unread()) == Ok::<(u8, nat), DecodeError>((v, 1)) && took(
                old(buf).unread(),
                final(buf).unread(),
                1,
            ),
            Err(e) => parse_u8(old(buf).unread()) == Err::<(u8, nat), DecodeError>(e),
        },
{
    match read_u8(buf) {
        Ok(v) => {
            proof {
                lemma_read_advanced(*old(buf), *buf, 1);
            }
            Ok(v)
        },
        Err(_) => Err(DecodeError::UnexpectedEof),
    }
}

/// Reads a little-endian 32-bit number.
pub fn read_u32_le(buf: &mut ByteBuffer) -> (r: Result<u32, DecodeError>)
    requires
        old(buf).can_read(),
    ensures
        final(buf).can_read(),
        match r {
            Ok(v) => parse_u32(old(buf).unread()) == Ok::<(u32, nat), DecodeError>((v, 4))
                && took(old(buf).unread(), final(buf).unread(), 4),
            Err(e) => parse_u32(old(buf).unread()) == Err::<(u32, nat), DecodeError>(e),
        },
{
    match read_u32(buf) {
        Ok(v) => {
            proof {
                lemma_read_advanced(*old(buf), *buf, 4);
            }
            Ok(v)
        },
        Err(_) => Err(DecodeError::UnexpectedEof),
    }
}

/// Reads a little-endian signed 32-bit number.
pub fn read_i32_le(buf: &mut ByteBuffer) -> (r: Result<i32, DecodeError>)
    requires
        old(buf).can_read(),
    ensures
        final(buf).can_read(),
        match r {
            Ok(v) => parse_i32(old(buf).unread()) == Ok::<(i32, nat), DecodeError>((v, 4))
                && took(old(buf).unread(), final(buf).unread(), 4),
            Err(e) => parse_i32(old(buf).unread()) == Err::<(i32, nat), DecodeError>(e),
        },
{
    match read_i32(buf) {
        Ok(v) => {
            proof {
                lemma_read_advanced(*old(buf), *buf, 4);
            }
            Ok(v)
        },
        Err(_) => Err(DecodeError::UnexpectedEof),
    }
}

} // verus!
