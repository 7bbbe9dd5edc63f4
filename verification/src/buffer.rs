//! The boundary to `bytebuffer::ByteBuffer`.
//!
//! A `ByteBuffer` keeps its bytes, a read cursor, a write cursor, a byte
//! order and a pair of bit cursors to itself. Five names stand for them
//! here. Each function marked `external_body` makes one call into the
//! `bytebuffer` crate, and its contract says over those names what the call
//! does. These contracts are taken on trust from the crate's source; the
//! codec is verified against them.
//!
//! The codec reads and writes whole bytes only, so the contracts leave out
//! a buffer whose bit cursors stand inside a byte.

use bytebuffer::ByteBuffer;
use bytebuffer::Endian;
use vstd::prelude::*;

verus! {

#[verifier::external_type_specification]
#[verifier::external_body]
pub struct ExByteBuffer(bytebuffer::ByteBuffer);

#[verifier::external_type_specification]
#[verifier::external_body]
pub struct ExIoError(std::io::Error);

/// The bytes that the buffer holds, first to last.
pub uninterp spec fn buffer_bytes(buf: ByteBuffer) -> Seq<u8>;

/// The index of the byte at which the next byte-wise read starts.
pub uninterp spec fn buffer_read_pos(buf: ByteBuffer) -> nat;

/// The index of the byte at which the next byte-wise write starts.
pub uninterp spec fn buffer_write_pos(buf: ByteBuffer) -> nat;

/// Whether multi-byte integers are read and written least significant byte
/// first.
pub uninterp spec fn buffer_little_endian(buf: ByteBuffer) -> bool;

/// Whether a bit-wise read or write has left one of the cursors inside a
/// byte.
pub uninterp spec fn buffer_mid_byte(buf: ByteBuffer) -> bool;

/// Both cursors stand on a byte boundary inside the buffer.
pub open spec fn byte_aligned(buf: ByteBuffer) -> bool {
    &&& !buffer_mid_byte(buf)
    &&& buffer_read_pos(buf) <= buffer_bytes(buf).len()
    &&& buffer_write_pos(buf) <= buffer_bytes(buf).len()
}

/// The bytes from the read cursor to the end.
pub open spec fn unread_bytes(buf: ByteBuffer) -> Seq<u8> {
    buffer_bytes(buf).skip(buffer_read_pos(buf) as int)
}

/// `after` is `before` with the read cursor moved on by `n` bytes.
pub open spec fn read_advanced(before: ByteBuffer, after: ByteBuffer, n: nat) -> bool {
    &&& buffer_bytes(after) == buffer_bytes(before)
    &&& buffer_read_pos(after) == buffer_read_pos(before) + n
    &&& buffer_write_pos(after) == buffer_write_pos(before)
    &&& buffer_little_endian(after) == buffer_little_endian(before)
    &&& buffer_mid_byte(after) == buffer_mid_byte(before)
}

/// Moving the read cursor on by `n` bytes drops the first `n` unread bytes.
pub proof fn lemma_read_advanced(before: ByteBuffer, after: ByteBuffer, n: nat)
    requires
        byte_aligned(before),
        read_advanced(before, after, n),
        n <= unread_bytes(before).len(),
    ensures
        byte_aligned(after),
        unread_bytes(after) == unread_bytes(before).skip(n as int),
{
    assert(unread_bytes(after) =~= unread_bytes(before).skip(n as int));
}

/// `after` is `before` with `written` appended and the write cursor at the
/// new end.
pub open spec fn appended(before: ByteBuffer, after: ByteBuffer, written: Seq<u8>) -> bool {
    &&& buffer_bytes(after) == buffer_bytes(before) + written
    &&& buffer_write_pos(after) == buffer_bytes(after).len()
    &&& buffer_read_pos(after) == buffer_read_pos(before)
    &&& buffer_little_endian(after) == buffer_little_endian(before)
    &&& buffer_mid_byte(after) == buffer_mid_byte(before)
}

/// The buffer takes byte-wise writes at its end.
pub open spec fn appending(buf: ByteBuffer) -> bool {
    &&& byte_aligned(buf)
    &&& buffer_write_pos(buf) == buffer_bytes(buf).len()
}

/// The two bytes of `x`, least significant first.
pub open spec fn u16_le_bytes(x: u16) -> Seq<u8> {
    seq![(x % 256) as u8, (x / 256) as u8]
}

/// The four bytes of `x`, least significant first.
pub open spec fn u32_le_bytes(x: u32) -> Seq<u8> {
    seq![
        (x % 256) as u8,
        (x / 256 % 256) as u8,
        (x / 65536 % 256) as u8,
        (x / 16777216) as u8,
    ]
}

/// The number whose two bytes, least significant first, open `s`.
pub open spec fn u16_from_le(s: Seq<u8>) -> u16
    recommends
        s.len() >= 2,
{
    (s[0] + 256 * s[1]) as u16
}

/// The number whose four bytes, least significant first, open `s`.
pub open spec fn u32_from_le(s: Seq<u8>) -> u32
    recommends
        s.len() >= 4,
{
    (s[0] + 256 * s[1] + 65536 * s[2] + 16777216 * s[3]) as u32
}

/// The two's complement bit pattern of `x`.
pub open spec fn i32_bits(x: i32) -> u32 {
    if x >= 0 {
        x as u32
    } else {
        (x + 0x1_0000_0000) as u32
    }
}

/// The signed number with the two's complement bit pattern `bits`.
pub open spec fn i32_from_bits(bits: u32) -> i32 {
    if bits < 0x8000_0000 {
        bits as i32
    } else {
        (bits - 0x1_0000_0000) as i32
    }
}

/// Four bytes written least significant first read back as the number
/// they were written from, whatever follows them.
pub proof fn lemma_u32_le_round_trip(x: u32, rest: Seq<u8>)
    ensures
        u32_le_bytes(x).len() == 4,
        u32_from_le(u32_le_bytes(x) + rest) == x,
{
}

/// Two bytes written least significant first read back as the number they
/// were written from, whatever follows them.
pub proof fn lemma_u16_le_round_trip(x: u16, rest: Seq<u8>)
    ensures
        u16_le_bytes(x).len() == 2,
        u16_from_le(u16_le_bytes(x) + rest) == x,
{
}

/// `ByteBuffer::new`: an empty buffer with both cursors at zero. A new
/// buffer is big-endian.
#[verifier::external_body]
pub(crate) fn new_buffer() -> (buf: ByteBuffer)
    ensures
        buffer_bytes(buf) == Seq::<u8>::empty(),
        buffer_read_pos(buf) == 0,
        buffer_write_pos(buf) == 0,
        !buffer_little_endian(buf),
        !buffer_mid_byte(buf),
{
    ByteBuffer::new()
}

/// `ByteBuffer::from_bytes`: a new buffer into which `bytes` were written,
/// so the read cursor is at zero and the write cursor at the end.
#[verifier::external_body]
pub(crate) fn buffer_from_bytes(bytes: &[u8]) -> (buf: ByteBuffer)
    ensures
        buffer_bytes(buf) == bytes@,
        buffer_read_pos(buf) == 0,
        buffer_write_pos(buf) == bytes@.len(),
        !buffer_little_endian(buf),
        !buffer_mid_byte(buf),
{
    ByteBuffer::from_bytes(bytes)
}

/// `ByteBuffer::set_endian` with `Endian::LittleEndian`: only the byte order
/// changes.
#[verifier::external_body]
pub(crate) fn set_little_endian(buf: &mut ByteBuffer)
    ensures
        buffer_little_endian(*final(buf)),
        buffer_bytes(*final(buf)) == buffer_bytes(*old(buf)),
        buffer_read_pos(*final(buf)) == buffer_read_pos(*old(buf)),
        buffer_write_pos(*final(buf)) == buffer_write_pos(*old(buf)),
        buffer_mid_byte(*final(buf)) == buffer_mid_byte(*old(buf)),
{
    buf.set_endian(Endian::LittleEndian)
}

/// `ByteBuffer::len`: the number of bytes held, read or not.
#[verifier::external_body]
pub(crate) fn buffer_len(buf: &ByteBuffer) -> (n: usize)
    ensures
        n == buffer_bytes(*buf).len(),
{
    buf.len()
}

/// `ByteBuffer::get_rpos`: the read cursor.
#[verifier::external_body]
pub(crate) fn read_position(buf: &ByteBuffer) -> (pos: usize)
    ensures
        pos == buffer_read_pos(*buf),
{
    buf.get_rpos()
}

/// `ByteBuffer::into_vec`: the bytes held.
#[verifier::external_body]
pub(crate) fn into_vec(buf: ByteBuffer) -> (bytes: Vec<u8>)
    ensures
        bytes@ == buffer_bytes(buf),
{
    buf.into_vec()
}

/// `ByteBuffer::read_u8`: the byte under the read cursor, which moves on by
/// one. At the end of the buffer it is an error and nothing moves.
#[verifier::external_body]
pub(crate) fn read_u8(buf: &mut ByteBuffer) -> (r: Result<u8, std::io::Error>)
    requires
        byte_aligned(*old(buf)),
    ensures
        match r {
            Ok(v) => unread_bytes(*old(buf)).len() >= 1 && v == unread_bytes(*old(buf))[0]
                && read_advanced(*old(buf), *final(buf), 1),
            Err(_) => unread_bytes(*old(buf)).len() < 1
                && read_advanced(*old(buf), *final(buf), 0),
        },
{
    buf.read_u8()
}

/// `ByteBuffer::read_u16`: the next two bytes as a number, in the buffer's
/// byte order. With fewer than two bytes left it is an error and nothing
/// moves.
#[verifier::external_body]
pub(crate) fn read_u16(buf: &mut ByteBuffer) -> (r: Result<u16, std::io::Error>)
    requires
        byte_aligned(*old(buf)),
    ensures
        match r {
            Ok(v) => unread_bytes(*old(buf)).len() >= 2
                && (buffer_little_endian(*old(buf)) ==> v == u16_from_le(
                unread_bytes(*old(buf)),
            )) && read_advanced(*old(buf), *final(buf), 2),
            Err(_) => unread_bytes(*old(buf)).len() < 2
                && read_advanced(*old(buf), *final(buf), 0),
        },
{
    buf.read_u16()
}

/// `ByteBuffer::read_u32`: the next four bytes as a number, in the buffer's
/// byte order. With fewer than four bytes left it is an error and nothing
/// moves.
#[verifier::external_body]
pub(crate) fn read_u32(buf: &mut ByteBuffer) -> (r: Result<u32, std::io::Error>)
    requires
        byte_aligned(*old(buf)),
    ensures
        match r {
            Ok(v) => unread_bytes(*old(buf)).len() >= 4
                && (buffer_little_endian(*old(buf)) ==> v == u32_from_le(
                unread_bytes(*old(buf)),
            )) && read_advanced(*old(buf), *final(buf), 4),
            Err(_) => unread_bytes(*old(buf)).len() < 4
                && read_advanced(*old(buf), *final(buf), 0),
        },
{
    buf.read_u32()
}

/// `ByteBuffer::read_i32`: as `read_u32`, the four bytes taken as a two's
/// complement number.
#[verifier::external_body]
pub(crate) fn read_i32(buf: &mut ByteBuffer) -> (r: Result<i32, std::io::Error>)
    requires
        byte_aligned(*old(buf)),
    ensures
        match r {
            Ok(v) => unread_bytes(*old(buf)).len() >= 4
                && (buffer_little_endian(*old(buf)) ==> v == i32_from_bits(
                u32_from_le(unread_bytes(*old(buf))),
            )) && read_advanced(*old(buf), *final(buf), 4),
            Err(_) => unread_bytes(*old(buf)).len() < 4
                && read_advanced(*old(buf), *final(buf), 0),
        },
{
    buf.read_i32()
}

/// `ByteBuffer::read_bytes`: the next `size` bytes, copied out. With fewer
/// left it is an error and nothing moves. The crate adds `size` to the read
/// cursor before it compares, so the sum has to fit.
#[verifier::external_body]
pub(crate) fn read_bytes(buf: &mut ByteBuffer, size: usize) -> (r: Result<
    Vec<u8>,
    std::io::Error,
>)
    requires
        byte_aligned(*old(buf)),
        buffer_read_pos(*old(buf)) + size <= usize::MAX,
    ensures
        match r {
            Ok(v) => unread_bytes(*old(buf)).len() >= size && v@ == unread_bytes(
                *old(buf),
            ).take(size as int) && read_advanced(*old(buf), *final(buf), size as nat),
            Err(_) => unread_bytes(*old(buf)).len() < size
                && read_advanced(*old(buf), *final(buf), 0),
        },
{
    buf.read_bytes(size)
}

/// `ByteBuffer::write_u8`: one byte more at the end.
#[verifier::external_body]
pub(crate) fn write_u8(buf: &mut ByteBuffer, val: u8)
    requires
        appending(*old(buf)),
    ensures
        appended(*old(buf), *final(buf), seq![val]),
{
    buf.write_u8(val)
}

/// `ByteBuffer::write_u16`: two bytes more at the end, in the buffer's byte
/// order.
#[verifier::external_body]
pub(crate) fn write_u16(buf: &mut ByteBuffer, val: u16)
    requires
        appending(*old(buf)),
        buffer_little_endian(*old(buf)),
    ensures
        appended(*old(buf), *final(buf), u16_le_bytes(val)),
{
    buf.write_u16(val)
}

/// `ByteBuffer::write_u32`: four bytes more at the end, in the buffer's byte
/// order.
#[verifier::external_body]
pub(crate) fn write_u32(buf: &mut ByteBuffer, val: u32)
    requires
        appending(*old(buf)),
        buffer_little_endian(*old(buf)),
    ensures
        appended(*old(buf), *final(buf), u32_le_bytes(val)),
{
    buf.write_u32(val)
}

/// `ByteBuffer::write_i32`: as `write_u32`, of the two's complement bit
/// pattern.
#[verifier::external_body]
pub(crate) fn write_i32(buf: &mut ByteBuffer, val: i32)
    requires
        appending(*old(buf)),
        buffer_little_endian(*old(buf)),
    ensures
        appended(*old(buf), *final(buf), u32_le_bytes(i32_bits(val))),
{
    buf.write_i32(val)
}

/// `ByteBuffer::write_bytes`: the given bytes more at the end.
#[verifier::external_body]
pub(crate) fn write_bytes(buf: &mut ByteBuffer, bytes: &[u8])
    requires
        appending(*old(buf)),
    ensures
        appended(*old(buf), *final(buf), bytes@),
{
    buf.write_bytes(bytes)
}

} // verus!
