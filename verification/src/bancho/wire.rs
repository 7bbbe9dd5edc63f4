//! The fields that packets are made of: little-endian integers, strings
//! behind a presence byte, and chat messages. What each looks like in bytes,
//! what bytes decode to, and that the two agree.

use crate::buffer::i32_bits;
use crate::buffer::i32_from_bits;
use crate::buffer::lemma_u32_le_round_trip;
use crate::buffer::u32_from_le;
use crate::buffer::u32_le_bytes;
use crate::error::DecodeError;
use crate::leb128::lemma_parse_uleb128_bounds;
use crate::leb128::lemma_uleb128_room_is_u64;
use crate::leb128::lemma_uleb128_round_trip;
use crate::leb128::parse_uleb128;
use crate::leb128::uleb128_bytes;
use vstd::prelude::*;
use vstd::utf8::*;

verus! {


/// The presence byte of a string that follows.
pub const STRING_PRESENT: u8 = 0x0b;

/// The presence byte that an empty string is written as.
pub const STRING_ABSENT: u8 = 0x00;

/// A chat message, as several kinds of packet carry it.
#[derive(Debug, Clone, PartialEq, Eq)]
pub struct OsuMessage {
    pub sender: String,
    pub text: String,
    pub recipient: String,
    pub sender_id: i32,
}

/// What a chat message says.
pub struct MessageView {
    pub sender: Seq<char>,
    pub text: Seq<char>,
    pub recipient: Seq<char>,
    pub sender_id: i32,
}

impl View for OsuMessage {
    type V = MessageView;

    open spec fn view(&self) -> MessageView {
        MessageView {
            sender: self.sender@,
            text: self.text@,
            recipient: self.recipient@,
            sender_id: self.sender_id,
        }
    }
}

/// A field was read from the front of `before`, and `after` is what
/// follows its `n` bytes.
pub open spec fn took(before: Seq<u8>, after: Seq<u8>, n: nat) -> bool {
    n <= before.len() && after == before.skip(n as int)
}

/// The value of a field that was parsed.
pub open spec fn value_of<T>(field: Result<(T, nat), DecodeError>) -> T {
    field->Ok_0.0
}

/// The number of bytes that a parsed field takes.
pub open spec fn length_of<T>(field: Result<(T, nat), DecodeError>) -> nat {
    field->Ok_0.1
}

/// Reading two fields one after the other takes the bytes of both.
pub proof fn lemma_took_both(a: Seq<u8>, b: Seq<u8>, c: Seq<u8>, n: nat, m: nat)
    requires
        took(a, b, n),
        took(b, c, m),
    ensures
        took(a, c, n + m),
{
    assert(c =~= a.skip((n + m) as int));
}

/// The byte at the front of `s`.
pub open spec fn parse_u8(s: Seq<u8>) -> Result<(u8, nat), DecodeError> {
    if s.len() < 1 {
        Err(DecodeError::UnexpectedEof)
    } else {
        Ok((s[0], 1))
    }
}

/// The little-endian 32-bit number at the front of `s`.
pub open spec fn parse_u32(s: Seq<u8>) -> Result<(u32, nat), DecodeError> {
    if s.len() < 4 {
        Err(DecodeError::UnexpectedEof)
    } else {
        Ok((u32_from_le(s), 4))
    }
}

/// The little-endian signed 32-bit number at the front of `s`.
pub open spec fn parse_i32(s: Seq<u8>) -> Result<(i32, nat), DecodeError> {
    if s.len() < 4 {
        Err(DecodeError::UnexpectedEof)
    } else {
        Ok((i32_from_bits(u32_from_le(s)), 4))
    }
}

/// The four bytes of a signed 32-bit number.
pub open spec fn i32_le_bytes(x: i32) -> Seq<u8> {
    u32_le_bytes(i32_bits(x))
}

/// A string on the wire: one zero byte if it is empty; else the presence
/// byte, the ULEB128 length of its UTF-8 bytes, and those bytes.
#[verifier::opaque]
pub open spec fn osu_string_bytes(s: Seq<char>) -> Seq<u8> {
    if s.len() == 0 {
        seq![STRING_ABSENT]
    } else {
        seq![STRING_PRESENT] + uleb128_bytes(encode_utf8(s).len()) + encode_utf8(s)
    }
}

/// The string at the front of `s`. Any presence byte but `0x0b` stands for
/// the empty string, and nothing after it belongs to the field.
#[verifier::opaque]
pub open spec fn parse_osu_string(s: Seq<u8>) -> Result<(Seq<char>, nat), DecodeError> {
    if s.len() < 1 {
        Err(DecodeError::UnexpectedEof)
    } else if s[0] != STRING_PRESENT {
        Ok((Seq::empty(), 1))
    } else {
        match parse_uleb128(s.skip(1)) {
            Err(e) => Err(e),
            Ok((len, n)) => {
                let body = s.skip((1 + n) as int);
                if body.len() < len {
                    Err(DecodeError::UnexpectedEof)
                } else if !valid_utf8(body.take(len as int)) {
                    Err(DecodeError::InvalidUtf8)
                } else {
                    Ok((decode_utf8(body.take(len as int)), 1 + n + len))
                }
            },
        }
    }
}

/// A chat message on the wire: sender, text and recipient as strings, then
/// the sender's id.
pub open spec fn message_bytes(m: MessageView) -> Seq<u8> {
    osu_string_bytes(m.sender) + osu_string_bytes(m.text) + osu_string_bytes(m.recipient)
        + i32_le_bytes(m.sender_id)
}

/// The chat message at the front of `s`. Where a field fails, the message
/// fails with that field's error.
pub open spec fn parse_message(s: Seq<u8>) -> Result<(MessageView, nat), DecodeError> {
    let sender = parse_osu_string(s);
    let at_text = length_of(sender);
    let text = parse_osu_string(s.skip(at_text as int));
    let at_recipient = at_text + length_of(text);
    let recipient = parse_osu_string(s.skip(at_recipient as int));
    let at_id = at_recipient + length_of(recipient);
    let sender_id = parse_i32(s.skip(at_id as int));
    if sender is Err {
        Err(sender->Err_0)
    } else if text is Err {
        Err(text->Err_0)
    } else if recipient is Err {
        Err(recipient->Err_0)
    } else if sender_id is Err {
        Err(sender_id->Err_0)
    } else {
        Ok(
            (
                MessageView {
                    sender: value_of(sender),
                    text: value_of(text),
                    recipient: value_of(recipient),
                    sender_id: value_of(sender_id),
                },
                at_id + length_of(sender_id),
            ),
        )
    }
}

/// Whether the string's UTF-8 bytes are few enough for their number to be
/// written as a ULEB128 integer of 64 bits. Every string in memory is.
pub open spec fn string_fits(s: Seq<char>) -> bool {
    encode_utf8(s).len() <= u64::MAX
}

/// Whether each string of the message fits.
pub open spec fn message_fits(m: MessageView) -> bool {
    string_fits(m.sender) && string_fits(m.text) && string_fits(m.recipient)
}

/// A signed number survives writing and reading, whatever follows it.
pub proof fn lemma_i32_round_trip(x: i32, rest: Seq<u8>)
    ensures
        i32_le_bytes(x).len() == 4,
        parse_i32(i32_le_bytes(x) + rest) == Ok::<(i32, nat), DecodeError>((x, 4)),
{
    lemma_u32_le_round_trip(i32_bits(x), rest);
}

/// An unsigned number survives writing and reading, whatever follows it.
pub proof fn lemma_u32_round_trip(x: u32, rest: Seq<u8>)
    ensures
        u32_le_bytes(x).len() == 4,
        parse_u32(u32_le_bytes(x) + rest) == Ok::<(u32, nat), DecodeError>((x, 4)),
{
    lemma_u32_le_round_trip(x, rest);
}

/// The empty string is written as a single zero byte.
pub proof fn lemma_empty_string_bytes()
    ensures
        osu_string_bytes(Seq::<char>::empty()) == seq![0x00u8],
{
    reveal(osu_string_bytes);
}

/// A string survives writing and reading, and reading takes exactly the
/// bytes that writing made, whatever follows them. The empty string is one
/// zero byte and reads back as the empty string.
pub proof fn lemma_osu_string_round_trip(s: Seq<char>, rest: Seq<u8>)
    requires
        string_fits(s),
    ensures
        parse_osu_string(osu_string_bytes(s) + rest) == Ok::<(Seq<char>, nat), DecodeError>(
            (s, osu_string_bytes(s).len()),
        ),
{
    reveal(osu_string_bytes);
    reveal(parse_osu_string);
    let wire = osu_string_bytes(s) + rest;
    if s.len() == 0 {
        assert(wire[0] == STRING_ABSENT);
        assert(s =~= Seq::<char>::empty());
    } else {
        let utf8 = encode_utf8(s);
        let len = utf8.len();
        let prefix = uleb128_bytes(len);
        assert(wire[0] == STRING_PRESENT);
        assert(wire.skip(1) =~= prefix + (utf8 + rest));
        lemma_uleb128_round_trip(len as u64, utf8 + rest);
        let n = prefix.len();
        assert(wire.skip((1 + n) as int) =~= utf8 + rest);
        assert((utf8 + rest).take(len as int) =~= utf8);
        encode_utf8_valid_utf8(s);
        encode_utf8_decode_utf8(s);
    }
}

/// A field that was parsed lies inside the bytes it was parsed from.
pub proof fn lemma_parse_osu_string_length(s: Seq<u8>)
    requires
        parse_osu_string(s) is Ok,
    ensures
        1 <= length_of(parse_osu_string(s)) <= s.len(),
{
    reveal(parse_osu_string);
    if s[0] == STRING_PRESENT {
        lemma_parse_uleb128_bounds(s.skip(1), 0);
    }
}

/// A string that was parsed fits.
pub proof fn lemma_parsed_string_fits(s: Seq<u8>)
    requires
        parse_osu_string(s) is Ok,
    ensures
        string_fits(value_of(parse_osu_string(s))),
{
    reveal(parse_osu_string);
    if s[0] == STRING_PRESENT {
        lemma_parse_uleb128_bounds(s.skip(1), 0);
        lemma_uleb128_room_is_u64();
        let parsed = parse_uleb128(s.skip(1));
        let body = s.skip((1 + length_of(parsed)) as int).take(value_of(parsed) as int);
        decode_utf8_encode_utf8(body);
    } else {
        assert(encode_utf8(Seq::<char>::empty()) =~= Seq::<u8>::empty());
    }
}

/// The strings of a message that was parsed fit.
pub proof fn lemma_parsed_message_fits(s: Seq<u8>)
    requires
        parse_message(s) is Ok,
    ensures
        message_fits(value_of(parse_message(s))),
{
    let at_text = length_of(parse_osu_string(s));
    lemma_parsed_string_fits(s);
    lemma_parsed_string_fits(s.skip(at_text as int));
    let at_recipient = at_text + length_of(parse_osu_string(s.skip(at_text as int)));
    lemma_parsed_string_fits(s.skip(at_recipient as int));
}

/// A message that was parsed lies inside the bytes it was parsed from.
pub proof fn lemma_parse_message_length(s: Seq<u8>)
    requires
        parse_message(s) is Ok,
    ensures
        length_of(parse_message(s)) <= s.len(),
{
    let at_text = length_of(parse_osu_string(s));
    lemma_parse_osu_string_length(s);
    lemma_parse_osu_string_length(s.skip(at_text as int));
    let at_recipient = at_text + length_of(parse_osu_string(s.skip(at_text as int)));
    lemma_parse_osu_string_length(s.skip(at_recipient as int));
}

/// What is left of a run of fields after the first of them.
pub proof fn lemma_skip_first(first: Seq<u8>, rest: Seq<u8>)
    ensures
        (first + rest).skip(first.len() as int) == rest,
        (first + rest).len() == first.len() + rest.len(),
{
    assert((first + rest).skip(first.len() as int) =~= rest);
}

/// What is left after two fields is what is left of the rest after the
/// second.
pub proof fn lemma_skip_skip(s: Seq<u8>, n: nat, m: nat)
    requires
        n + m <= s.len(),
    ensures
        s.skip(n as int).skip(m as int) == s.skip((n + m) as int),
{
    assert(s.skip(n as int).skip(m as int) =~= s.skip((n + m) as int));
}

/// Where a field and a tail follow the first `at` bytes, the tail follows
/// the first `at` bytes and the field.
pub proof fn lemma_next_field(wire: Seq<u8>, at: nat, field: Seq<u8>, tail: Seq<u8>)
    requires
        at <= wire.len(),
        wire.skip(at as int) == field + tail,
    ensures
        at + field.len() <= wire.len(),
        wire.skip((at + field.len()) as int) == tail,
{
    lemma_skip_first(field, tail);
    lemma_skip_skip(wire, at, field.len());
}

/// A byte survives writing and reading, whatever follows it.
pub proof fn lemma_u8_round_trip(x: u8, rest: Seq<u8>)
    ensures
        parse_u8(seq![x] + rest) == Ok::<(u8, nat), DecodeError>((x, 1)),
{
}

/// A chat message survives writing and reading, whatever follows it.
pub proof fn lemma_message_round_trip(m: MessageView, rest: Seq<u8>)
    requires
        message_fits(m),
    ensures
        parse_message(message_bytes(m) + rest) == Ok::<(MessageView, nat), DecodeError>(
            (m, message_bytes(m).len()),
        ),
{
    let sender = osu_string_bytes(m.sender);
    let text = osu_string_bytes(m.text);
    let recipient = osu_string_bytes(m.recipient);
    let id = i32_le_bytes(m.sender_id);
    let after_sender = text + (recipient + (id + rest));
    let after_text = recipient + (id + rest);
    let wire = sender + after_sender;
    assert(message_bytes(m) + rest == wire) by {
        assert(message_bytes(m) + rest =~= wire);
    }
    assert(message_bytes(m).len() == sender.len() + text.len() + recipient.len() + 4) by {
        lemma_i32_round_trip(m.sender_id, rest);
    }
    lemma_osu_string_round_trip(m.sender, after_sender);
    lemma_skip_first(sender, after_sender);
    lemma_osu_string_round_trip(m.text, after_text);
    lemma_skip_first(text, after_text);
    lemma_skip_skip(wire, sender.len(), text.len());
    lemma_osu_string_round_trip(m.recipient, id + rest);
    lemma_skip_first(recipient, id + rest);
    lemma_skip_skip(wire, sender.len() + text.len(), recipient.len());
    lemma_i32_round_trip(m.sender_id, rest);
}

} // verus!
