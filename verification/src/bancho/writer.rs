//! Writing the fields of the wire format to a byte buffer.

use bytebuffer::ByteBuffer;
use crate::bancho::wire::message_bytes;
use crate::bancho::wire::osu_string_bytes;
use crate::bancho::wire::OsuMessage;
use crate::bancho::wire::STRING_ABSENT;
use crate::bancho::wire::STRING_PRESENT;
use crate::buffer::appending;
use crate::buffer::buffer_bytes;
use crate::buffer::buffer_little_endian;
use crate::buffer::into_vec;
use crate::buffer::new_buffer;
use crate::buffer::set_little_endian;
use crate::buffer::write_bytes;
use crate::buffer::write_i32;
use crate::buffer::write_u8;
use crate::leb128::uleb128_bytes;
use vstd::prelude::*;

verus! {

/// Writing the wire format's fields to a sink of bytes.
pub trait OsuWriter {
    /// Whether fields can be written to the sink as it stands.
    spec fn can_write(&self) -> bool;

    /// The bytes written so far.
    spec fn written(&self) -> Seq<u8>;

    /// Writes `value` as a ULEB128 integer.
    fn write_uleb128(&mut self, value: u64)
        requires
            old(self).can_write(),
        ensures
            final(self).can_write(),
            final(self).written() == old(self).written() + uleb128_bytes(value as nat),
    ;

    /// Writes `value` as a string.
    fn write_osu_string(&mut self, value: &str)
        requires
            old(self).can_write(),
        ensures
            final(self).can_write(),
            final(self).written() == old(self).written() + osu_string_bytes(value@),
    ;

    /// Writes `value` as a chat message.
    fn write_osu_message(&mut self, value: &OsuMessage)
        requires
            old(self).can_write(),
        ensures
            final(self).can_write(),
            final(self).written() == old(self).written() + message_bytes(value@),
    ;
}

const LEB128_HIGH_ORDER_BIT: u8 = 0x80;

/// Taking the lowest group of a number and shifting it out, in arithmetic.
proof fn lemma_shift_out_group(value: u64)
    ensures
        (value as u8) & !LEB128_HIGH_ORDER_BIT == value % 128,
        value >> 7 == value / 128,
        ((value as u8) & !LEB128_HIGH_ORDER_BIT) | LEB128_HIGH_ORDER_BIT == value % 128 + 128,
{
    assert((value as u8) & !0x80u8 == value % 128) by (bit_vector);
    assert(value >> 7 == value / 128) by (bit_vector);
    assert(((value as u8) & !0x80u8) | 0x80u8 == value % 128 + 128) by (bit_vector);
}

impl OsuWriter for ByteBuffer {
    open spec fn can_write(&self) -> bool {
        appending(*self) && buffer_little_endian(*self)
    }

    open spec fn written(&self) -> Seq<u8> {
        buffer_bytes(*self)
    }

    fn write_uleb128(&mut self, value: u64) {
        let mut rest = value;
        loop
            invariant
                self.can_write(),
                buffer_bytes(*self) + uleb128_bytes(rest as nat) == buffer_bytes(*old(self))
                    + uleb128_bytes(value as nat),
            decreases rest,
        {
            let ghost so_far = buffer_bytes(*self);
            let ghost group = rest;
            let mut byte = (#[verifier::truncate] (rest as u8)) & !LEB128_HIGH_ORDER_BIT;
            rest >>= 7;
            if rest != 0 {
                byte |= LEB128_HIGH_ORDER_BIT;
            }
            write_u8(self, byte);
            proof {
                lemma_shift_out_group(group);
                if group >= 128 {
                    assert(uleb128_bytes(group as nat) == seq![byte] + uleb128_bytes(
                        rest as nat,
                    ));
                    assert((so_far + seq![byte]) + uleb128_bytes(rest as nat) =~= so_far
                        + uleb128_bytes(group as nat));
                } else {
                    assert(uleb128_bytes(group as nat) == seq![byte]);
                }
            }
            if rest == 0 {
                return ;
            }
        }
    }

    fn write_osu_string(&mut self, value: &str) {
        proof {
            reveal(osu_string_bytes);
        }
        let exists = !value.is_empty();
        if !exists {
            write_u8(self, STRING_ABSENT);
        } else {
            let ghost start = buffer_bytes(*self);
            write_u8(self, STRING_PRESENT);
            let bytes = value.as_bytes();
            self.write_uleb128(bytes.len() as u64);
            write_bytes(self, bytes);
            assert(buffer_bytes(*self) =~= start + osu_string_bytes(value@));
        }
    }

    fn write_osu_message(&mut self, value: &OsuMessage) {
        let ghost start = buffer_bytes(*self);
        self.write_osu_string(value.sender.as_str());
        self.write_osu_string(value.text.as_str());
        self.write_osu_string(value.recipient.as_str());
        write_i32(self, value.sender_id);
        assert(buffer_bytes(*self) =~= start + message_bytes(value@));
    }
}

/// An empty buffer to which fields can be written.
pub fn new_writer() -> (buf: ByteBuffer)
    ensures
        buf.can_write(),
        buf.written() == Seq::<u8>::empty(),
{
    let mut buf = new_buffer();
    set_little_endian(&mut buf);
    buf
}

/// The bytes that were written to a buffer.
pub fn into_written(buf: ByteBuffer) -> (bytes: Vec<u8>)
    ensures
        bytes@ == buf.written(),
{
    into_vec(buf)
}

} // verus!
