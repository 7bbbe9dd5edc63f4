//! Packets: the seven-byte header, the kinds of payload that the proxy
//! understands, and the catch-all for the rest.

use bytebuffer::ByteBuffer;
use crate::bancho::action::UserAction;
use crate::bancho::reader::read_byte;
use crate::bancho::reader::read_i32_le;
use crate::bancho::reader::read_u32_le;
use crate::bancho::reader::reader_of;
use crate::bancho::reader::OsuReader;
use crate::bancho::wire::i32_le_bytes;
use crate::bancho::wire::lemma_parse_message_length;
use crate::bancho::wire::lemma_parse_osu_string_length;
use crate::bancho::wire::lemma_took_both;
use crate::bancho::wire::length_of;
use crate::bancho::wire::message_bytes;
use crate::bancho::wire::message_fits;
use crate::bancho::wire::osu_string_bytes;
use crate::bancho::wire::parse_i32;
use crate::bancho::wire::parse_message;
use crate::bancho::wire::parse_osu_string;
use crate::bancho::wire::parse_u32;
use crate::bancho::wire::parse_u8;
use crate::bancho::wire::string_fits;
use crate::bancho::wire::took;
use crate::bancho::wire::value_of;
use crate::bancho::wire::MessageView;
use crate::bancho::wire::OsuMessage;
use crate::bancho::writer::into_written;
use crate::bancho::writer::new_writer;
use crate::bancho::writer::OsuWriter;
use crate::buffer::buffer_bytes;
use crate::buffer::buffer_len;
use crate::buffer::lemma_read_advanced;
use crate::buffer::read_bytes;
use crate::buffer::read_position;
use crate::buffer::read_u16;
use crate::buffer::read_u32;
use crate::buffer::read_u8;
use crate::buffer::u16_from_le;
use crate::buffer::u16_le_bytes;
use crate::buffer::u32_from_le;
use crate::buffer::u32_le_bytes;
use crate::buffer::unread_bytes;
use crate::buffer::write_bytes;
use crate::buffer::write_i32;
use crate::buffer::write_u16;
use crate::buffer::write_u32;
use crate::buffer::write_u8;
use crate::error::DecodeError;
use crate::error::EncodeError;
use vstd::prelude::*;

verus! {

/// The length of a packet header in bytes.
pub const HEADER_LEN: usize = 7;

/// The client tells what the user is doing.
pub const ID_CHANGE_ACTION: u16 = 0;

/// The client sends a chat line to a channel.
pub const ID_SEND_PUBLIC_MESSAGE: u16 = 1;

/// The server tells the client the id of the user who logged in.
pub const ID_USER_ID: u16 = 5;

/// The server hands a chat line to the client.
pub const ID_SEND_MESSAGE: u16 = 7;

/// The client sends a chat line to one user.
pub const ID_SEND_PRIVATE_MESSAGE: u16 = 25;

/// The server tells the client what the user may do.
pub const ID_PRIVILEGE: u16 = 71;

/// The server tells the client who a user is and where.
pub const ID_USER_PRESENCE: u16 = 83;

/// What stands before every payload: the packet's kind, a byte of no known
/// use, and the payload's length in bytes.
#[derive(Debug, Clone, Copy, PartialEq, Eq)]
pub struct BanchoPacketHeader {
    pub id: u16,
    pub unknown: u8,
    pub length: u32,
}

/// The header that seven bytes spell: all numbers little-endian.
pub open spec fn parse_header(s: Seq<u8>) -> BanchoPacketHeader
    recommends
        s.len() >= 7,
{
    BanchoPacketHeader { id: u16_from_le(s), unknown: s[2], length: u32_from_le(s.skip(3)) }
}

/// The seven bytes of the header that the proxy writes: the unused byte is
/// zero.
pub open spec fn header_bytes(id: u16, length: u32) -> Seq<u8> {
    u16_le_bytes(id) + seq![0u8] + u32_le_bytes(length)
}

impl BanchoPacketHeader {
    /// Reads a header from its seven bytes. This never fails.
    pub fn from_bytes(bytes: [u8; 7]) -> (r: Result<Self, DecodeError>)
        ensures
            r == Ok::<Self, DecodeError>(parse_header(bytes@)),
    {
        let mut bytebuf = reader_of(bytes.as_slice());
        let ghost start = bytebuf;
        let id = match read_u16(&mut bytebuf) {
            Ok(v) => v,
            Err(_) => {
                return Err(DecodeError::UnexpectedEof);
            },
        };
        let ghost at_unknown = bytebuf;
        proof {
            lemma_read_advanced(start, at_unknown, 2);
        }
        let unknown = match read_u8(&mut bytebuf) {
            Ok(v) => v,
            Err(_) => {
                return Err(DecodeError::UnexpectedEof);
            },
        };
        let ghost at_length = bytebuf;
        proof {
            lemma_read_advanced(at_unknown, at_length, 1);
            assert(unread_bytes(at_length) =~= bytes@.skip(3));
        }
        let length = match read_u32(&mut bytebuf) {
            Ok(v) => v,
            Err(_) => {
                return Err(DecodeError::UnexpectedEof);
            },
        };
        Ok(Self { id, unknown, length })
    }
}

/// A packet. Each kind that the proxy understands has its own shape; every
/// other kind is kept as its id and its raw payload.
///
/// `longitude` and `latitude` are IEEE 754 single-precision numbers, held
/// here by their bit patterns, as `f32::to_bits` gives them.
#[derive(Debug, Clone, PartialEq, Eq)]
pub enum BanchoPacket {
    ChangeAction {
        action: UserAction,
        info_text: String,
        map_md5: String,
        mods: u32,
        mode: u8,
        map_id: i32,
    },
    SendPublicMessage(OsuMessage),
    UserId(i32),
    SendMessage(OsuMessage),
    SendPrivateMessage(OsuMessage),
    Privilege { privileges_bitfield: u32 },
    UserPresence {
        user_id: i32,
        name: String,
        utc_offset: u8,
        country_code: u8,
        bancho_privileges: u8,
        longitude: u32,
        latitude: u32,
        global_rank: i32,
    },
    Other { id: u16, data: Vec<u8> },
}

/// What a packet says.
pub enum PacketView {
    ChangeAction {
        action: UserAction,
        info_text: Seq<char>,
        map_md5: Seq<char>,
        mods: u32,
        mode: u8,
        map_id: i32,
    },
    SendPublicMessage(MessageView),
    UserId(i32),
    SendMessage(MessageView),
    SendPrivateMessage(MessageView),
    Privilege { privileges_bitfield: u32 },
    UserPresence {
        user_id: i32,
        name: Seq<char>,
        utc_offset: u8,
        country_code: u8,
        bancho_privileges: u8,
        longitude: u32,
        latitude: u32,
        global_rank: i32,
    },
    Other { id: u16, data: Seq<u8> },
}

impl View for BanchoPacket {
    type V = PacketView;

    open spec fn view(&self) -> PacketView {
        match *self {
            BanchoPacket::ChangeAction { action, info_text, map_md5, mods, mode, map_id } => {
                PacketView::ChangeAction {
                    action,
                    info_text: info_text@,
                    map_md5: map_md5@,
                    mods,
                    mode,
                    map_id,
                }
            },
            BanchoPacket::SendPublicMessage(message) => PacketView::SendPublicMessage(message@),
            BanchoPacket::UserId(user_id) => PacketView::UserId(user_id),
            BanchoPacket::SendMessage(message) => PacketView::SendMessage(message@),
            BanchoPacket::SendPrivateMessage(message) => PacketView::SendPrivateMessage(message@),
            BanchoPacket::Privilege { privileges_bitfield } => PacketView::Privilege {
                privileges_bitfield,
            },
            BanchoPacket::UserPresence {
                user_id,
                name,
                utc_offset,
                country_code,
                bancho_privileges,
                longitude,
                latitude,
                global_rank,
            } => PacketView::UserPresence {
                user_id,
                name: name@,
                utc_offset,
                country_code,
                bancho_privileges,
                longitude,
                latitude,
                global_rank,
            },
            BanchoPacket::Other { id, data } => PacketView::Other { id, data: data@ },
        }
    }
}

/// Whether packets with this id have a shape of their own.
pub open spec fn is_known_id(id: u16) -> bool {
    id == ID_CHANGE_ACTION || id == ID_SEND_PUBLIC_MESSAGE || id == ID_USER_ID || id
        == ID_SEND_MESSAGE || id == ID_SEND_PRIVATE_MESSAGE || id == ID_PRIVILEGE || id
        == ID_USER_PRESENCE
}

impl PacketView {
    /// The id that the packet's header carries.
    pub open spec fn id(self) -> u16 {
        match self {
            PacketView::ChangeAction { .. } => ID_CHANGE_ACTION,
            PacketView::SendPublicMessage(_) => ID_SEND_PUBLIC_MESSAGE,
            PacketView::UserId(_) => ID_USER_ID,
            PacketView::SendMessage(_) => ID_SEND_MESSAGE,
            PacketView::SendPrivateMessage(_) => ID_SEND_PRIVATE_MESSAGE,
            PacketView::Privilege { .. } => ID_PRIVILEGE,
            PacketView::UserPresence { .. } => ID_USER_PRESENCE,
            PacketView::Other { id, .. } => id,
        }
    }

    /// The payload: the packet's fields in their order, integers
    /// little-endian; for the catch-all, the raw bytes.
    pub open spec fn payload(self) -> Seq<u8> {
        match self {
            PacketView::ChangeAction { action, info_text, map_md5, mods, mode, map_id } => {
                seq![action.code()] + osu_string_bytes(info_text) + osu_string_bytes(map_md5)
                    + u32_le_bytes(mods) + seq![mode] + i32_le_bytes(map_id)
            },
            PacketView::SendPublicMessage(message) => message_bytes(message),
            PacketView::UserId(user_id) => i32_le_bytes(user_id),
            PacketView::SendMessage(message) => message_bytes(message),
            PacketView::SendPrivateMessage(message) => message_bytes(message),
            PacketView::Privilege { privileges_bitfield } => u32_le_bytes(privileges_bitfield),
            PacketView::UserPresence {
                user_id,
                name,
                utc_offset,
                country_code,
                bancho_privileges,
                longitude,
                latitude,
                global_rank,
            } => {
                i32_le_bytes(user_id) + osu_string_bytes(name) + seq![utc_offset] + seq![
                    country_code,
                ] + seq![bancho_privileges] + u32_le_bytes(longitude) + u32_le_bytes(latitude)
                    + i32_le_bytes(global_rank)
            },
            PacketView::Other { data, .. } => data,
        }
    }

    /// Whether the packet is one that decoding can give: the catch-all
    /// holds no id of a kind with a shape of its own, and every string is
    /// short enough for its length to be written.
    pub open spec fn well_formed(self) -> bool {
        match self {
            PacketView::ChangeAction { info_text, map_md5, .. } => string_fits(info_text)
                && string_fits(map_md5),
            PacketView::SendPublicMessage(message) => message_fits(message),
            PacketView::SendMessage(message) => message_fits(message),
            PacketView::SendPrivateMessage(message) => message_fits(message),
            PacketView::UserPresence { name, .. } => string_fits(name),
            PacketView::Other { id, .. } => !is_known_id(id),
            _ => true,
        }
    }

    /// The packet on the wire: the header, whose length field is the length
    /// of the payload as written, then the payload.
    pub open spec fn wire(self) -> Seq<u8> {
        header_bytes(self.id(), self.payload().len() as u32) + self.payload()
    }
}

/// The payload of a `ChangeAction` packet at the front of `s`.
#[verifier::opaque]
pub open spec fn parse_change_action(s: Seq<u8>) -> Result<(PacketView, nat), DecodeError> {
    let action = parse_u8(s);
    let at_info_text = length_of(action);
    let info_text = parse_osu_string(s.skip(at_info_text as int));
    let at_map_md5 = at_info_text + length_of(info_text);
    let map_md5 = parse_osu_string(s.skip(at_map_md5 as int));
    let at_mods = at_map_md5 + length_of(map_md5);
    let mods = parse_u32(s.skip(at_mods as int));
    let at_mode = at_mods + length_of(mods);
    let mode = parse_u8(s.skip(at_mode as int));
    let at_map_id = at_mode + length_of(mode);
    let map_id = parse_i32(s.skip(at_map_id as int));
    if action is Err {
        Err(action->Err_0)
    } else if info_text is Err {
        Err(info_text->Err_0)
    } else if map_md5 is Err {
        Err(map_md5->Err_0)
    } else if mods is Err {
        Err(mods->Err_0)
    } else if mode is Err {
        Err(mode->Err_0)
    } else if map_id is Err {
        Err(map_id->Err_0)
    } else {
        Ok(
            (
                PacketView::ChangeAction {
                    action: UserAction::of_code(value_of(action)),
                    info_text: value_of(info_text),
                    map_md5: value_of(map_md5),
                    mods: value_of(mods),
                    mode: value_of(mode),
                    map_id: value_of(map_id),
                },
                at_map_id + length_of(map_id),
            ),
        )
    }
}

/// The payload of a `UserPresence` packet at the front of `s`.
#[verifier::opaque]
pub open spec fn parse_user_presence(s: Seq<u8>) -> Result<(PacketView, nat), DecodeError> {
    let user_id = parse_i32(s);
    let at_name = length_of(user_id);
    let name = parse_osu_string(s.skip(at_name as int));
    let at_utc_offset = at_name + length_of(name);
    let utc_offset = parse_u8(s.skip(at_utc_offset as int));
    let at_country_code = at_utc_offset + length_of(utc_offset);
    let country_code = parse_u8(s.skip(at_country_code as int));
    let at_privileges = at_country_code + length_of(country_code);
    let bancho_privileges = parse_u8(s.skip(at_privileges as int));
    let at_longitude = at_privileges + length_of(bancho_privileges);
    let longitude = parse_u32(s.skip(at_longitude as int));
    let at_latitude = at_longitude + length_of(longitude);
    let latitude = parse_u32(s.skip(at_latitude as int));
    let at_rank = at_latitude + length_of(latitude);
    let global_rank = parse_i32(s.skip(at_rank as int));
    if user_id is Err {
        Err(user_id->Err_0)
    } else if name is Err {
        Err(name->Err_0)
    } else if utc_offset is Err {
        Err(utc_offset->Err_0)
    } else if country_code is Err {
        Err(country_code->Err_0)
    } else if bancho_privileges is Err {
        Err(bancho_privileges->Err_0)
    } else if longitude is Err {
        Err(longitude->Err_0)
    } else if latitude is Err {
        Err(latitude->Err_0)
    } else if global_rank is Err {
        Err(global_rank->Err_0)
    } else {
        Ok(
            (
                PacketView::UserPresence {
                    user_id: value_of(user_id),
                    name: value_of(name),
                    utc_offset: value_of(utc_offset),
                    country_code: value_of(country_code),
                    bancho_privileges: value_of(bancho_privileges),
                    longitude: value_of(longitude),
                    latitude: value_of(latitude),
                    global_rank: value_of(global_rank),
                },
                at_rank + length_of(global_rank),
            ),
        )
    }
}

/// The payload at the front of `s` of a packet whose header says `id` and
/// `length`: the packet and the number of bytes it takes.
///
/// A kind with a shape of its own takes the bytes that its fields take,
/// whatever the header's length says. The catch-all takes exactly `length`
/// bytes, and fails where fewer are left. That the header's length does not
/// reach past the end of a body is seen to where the body is taken apart.
pub open spec fn parse_payload(id: u16, length: u32, s: Seq<u8>) -> Result<
    (PacketView, nat),
    DecodeError,
> {
    if id == ID_CHANGE_ACTION {
        parse_change_action(s)
    } else if id == ID_SEND_PUBLIC_MESSAGE {
        match parse_message(s) {
            Ok((message, n)) => Ok((PacketView::SendPublicMessage(message), n)),
            Err(e) => Err(e),
        }
    } else if id == ID_USER_ID {
        match parse_i32(s) {
            Ok((user_id, n)) => Ok((PacketView::UserId(user_id), n)),
            Err(e) => Err(e),
        }
    } else if id == ID_SEND_MESSAGE {
        match parse_message(s) {
            Ok((message, n)) => Ok((PacketView::SendMessage(message), n)),
            Err(e) => Err(e),
        }
    } else if id == ID_SEND_PRIVATE_MESSAGE {
        match parse_message(s) {
            Ok((message, n)) => Ok((PacketView::SendPrivateMessage(message), n)),
            Err(e) => Err(e),
        }
    } else if id == ID_PRIVILEGE {
        match parse_u32(s) {
            Ok((privileges_bitfield, n)) => Ok((PacketView::Privilege { privileges_bitfield }, n)),
            Err(e) => Err(e),
        }
    } else if id == ID_USER_PRESENCE {
        parse_user_presence(s)
    } else if s.len() < length {
        Err(DecodeError::UnexpectedEof)
    } else {
        Ok((PacketView::Other { id, data: s.take(length as int) }, length as nat))
    }
}

/// A payload that was parsed lies inside the bytes it was parsed from.
pub proof fn lemma_parse_payload_length(id: u16, length: u32, s: Seq<u8>)
    requires
        parse_payload(id, length, s) is Ok,
    ensures
        length_of(parse_payload(id, length, s)) <= s.len(),
{
    if id == ID_CHANGE_ACTION {
        reveal(parse_change_action);
        let at_info_text = 1nat;
        lemma_parse_osu_string_length(s.skip(at_info_text as int));
        let at_map_md5 = at_info_text + length_of(parse_osu_string(s.skip(at_info_text as int)));
        lemma_parse_osu_string_length(s.skip(at_map_md5 as int));
    } else if id == ID_SEND_PUBLIC_MESSAGE || id == ID_SEND_MESSAGE || id
        == ID_SEND_PRIVATE_MESSAGE {
        lemma_parse_message_length(s);
    } else if id == ID_USER_PRESENCE {
        reveal(parse_user_presence);
        lemma_parse_osu_string_length(s.skip(4));
    }
}

/// Reads the payload of a `ChangeAction` packet.
fn read_change_action(bytebuf: &mut ByteBuffer) -> (r: Result<BanchoPacket, DecodeError>)
    requires
        old(bytebuf).can_read(),
    ensures
        final(bytebuf).can_read(),
        match r {
            Ok(packet) => parse_change_action(old(bytebuf).unread()) matches Ok((value, n))
                && value == packet@ && took(old(bytebuf).unread(), final(bytebuf).unread(), n),
            Err(e) => parse_change_action(old(bytebuf).unread()) == Err::<
                (PacketView, nat),
                DecodeError,
            >(e),
        },
{
    proof {
    reveal(parse_change_action);
    }
    let ghost start = unread_bytes(*bytebuf);
    let action = match read_byte(bytebuf) {
        Ok(v) => v,
        Err(e) => {
            return Err(e);
        },
    };
    let action = UserAction::from_u8(action);
    let ghost at_info_text = 1nat;
    let info_text = match bytebuf.read_osu_string() {
        Ok(v) => v,
        Err(e) => {
            return Err(e);
        },
    };
    let ghost at_map_md5 = at_info_text + length_of(
        parse_osu_string(start.skip(at_info_text as int)),
    );
    proof {
        lemma_took_both(
            start,
            start.skip(at_info_text as int),
            unread_bytes(*bytebuf),
            at_info_text,
            (at_map_md5 - at_info_text) as nat,
        );
    }
    let map_md5 = match bytebuf.read_osu_string() {
        Ok(v) => v,
        Err(e) => {
            return Err(e);
        },
    };
    let ghost at_mods = at_map_md5 + length_of(
        parse_osu_string(start.skip(at_map_md5 as int)),
    );
    proof {
        lemma_took_both(
            start,
            start.skip(at_map_md5 as int),
            unread_bytes(*bytebuf),
            at_map_md5,
            (at_mods - at_map_md5) as nat,
        );
    }
    let mods = match read_u32_le(bytebuf) {
        Ok(v) => v,
        Err(e) => {
            return Err(e);
        },
    };
    proof {
        lemma_took_both(
            start,
            start.skip(at_mods as int),
            unread_bytes(*bytebuf),
            at_mods,
            4,
        );
    }
    let mode = match read_byte(bytebuf) {
        Ok(v) => v,
        Err(e) => {
            return Err(e);
        },
    };
    proof {
        lemma_took_both(
            start,
            start.skip((at_mods + 4) as int),
            unread_bytes(*bytebuf),
            at_mods + 4,
            1,
        );
    }
    let map_id = match read_i32_le(bytebuf) {
        Ok(v) => v,
        Err(e) => {
            return Err(e);
        },
    };
    proof {
        lemma_took_both(
            start,
            start.skip((at_mods + 5) as int),
            unread_bytes(*bytebuf),
            at_mods + 5,
            4,
        );
    }
    Ok(BanchoPacket::ChangeAction { action, info_text, map_md5, mods, mode, map_id })
}

/// Reads the payload of a `UserPresence` packet.
fn read_user_presence(bytebuf: &mut ByteBuffer) -> (r: Result<BanchoPacket, DecodeError>)
    requires
        old(bytebuf).can_read(),
    ensures
        final(bytebuf).can_read(),
        match r {
            Ok(packet) => parse_user_presence(old(bytebuf).unread()) matches Ok((value, n))
                && value == packet@ && took(old(bytebuf).unread(), final(bytebuf).unread(), n),
            Err(e) => parse_user_presence(old(bytebuf).unread()) == Err::<
                (PacketView, nat),
                DecodeError,
            >(e),
        },
{
    proof {
        reveal(parse_user_presence);
    }
    let ghost start = unread_bytes(*bytebuf);
    let user_id = match read_i32_le(bytebuf) {
        Ok(v) => v,
        Err(e) => {
            return Err(e);
        },
    };
    let ghost at_name = 4nat;
    let name = match bytebuf.read_osu_string() {
        Ok(v) => v,
        Err(e) => {
            return Err(e);
        },
    };
    let ghost at_fixed = at_name + length_of(
        parse_osu_string(start.skip(at_name as int)),
    );
    proof {
        lemma_took_both(
            start,
            start.skip(at_name as int),
            unread_bytes(*bytebuf),
            at_name,
            (at_fixed - at_name) as nat,
        );
    }
    let utc_offset = match read_byte(bytebuf) {
        Ok(v) => v,
        Err(e) => {
            return Err(e);
        },
    };
    proof {
        lemma_took_both(
            start,
            start.skip(at_fixed as int),
            unread_bytes(*bytebuf),
            at_fixed,
            1,
        );
    }
    let country_code = match read_byte(bytebuf) {
        Ok(v) => v,
        Err(e) => {
            return Err(e);
        },
    };
    proof {
        lemma_took_both(
            start,
            start.skip((at_fixed + 1) as int),
            unread_bytes(*bytebuf),
            at_fixed + 1,
            1,
        );
    }
    let bancho_privileges = match read_byte(bytebuf) {
        Ok(v) => v,
        Err(e) => {
            return Err(e);
        },
    };
    proof {
        lemma_took_both(
            start,
            start.skip((at_fixed + 2) as int),
            unread_bytes(*bytebuf),
            at_fixed + 2,
            1,
        );
    }
    let longitude = match read_u32_le(bytebuf) {
        Ok(v) => v,
        Err(e) => {
            return Err(e);
        },
    };
    proof {
        lemma_took_both(
            start,
            start.skip((at_fixed + 3) as int),
            unread_bytes(*bytebuf),
            at_fixed + 3,
            4,
        );
    }
    let latitude = match read_u32_le(bytebuf) {
        Ok(v) => v,
        Err(e) => {
            return Err(e);
        },
    };
    proof {
        lemma_took_both(
            start,
            start.skip((at_fixed + 7) as int),
            unread_bytes(*bytebuf),
            at_fixed + 7,
            4,
        );
    }
    let global_rank = match read_i32_le(bytebuf) {
        Ok(v) => v,
        Err(e) => {
            return Err(e);
        },
    };
    proof {
        lemma_took_both(
            start,
            start.skip((at_fixed + 11) as int),
            unread_bytes(*bytebuf),
            at_fixed + 11,
            4,
        );
    }
    Ok(
        BanchoPacket::UserPresence {
            user_id,
            name,
            utc_offset,
            country_code,
            bancho_privileges,
            longitude,
            latitude,
            global_rank,
        },
    )
}

/// Reads the payload of a packet of a kind that has no shape of its own:
/// as many raw bytes as the header says.
fn read_other(header: &BanchoPacketHeader, bytebuf: &mut ByteBuffer) -> (r: Result<
    BanchoPacket,
    DecodeError,
>)
    requires
        old(bytebuf).can_read(),
    ensures
        final(bytebuf).can_read(),
        match r {
            Ok(packet) => old(bytebuf).unread().len() >= header.length && packet@
                == (PacketView::Other {
                id: header.id,
                data: old(bytebuf).unread().take(header.length as int),
            }) && took(old(bytebuf).unread(), final(bytebuf).unread(), header.length as nat),
            Err(e) => old(bytebuf).unread().len() < header.length && e
                == DecodeError::UnexpectedEof,
        },
{
    let remaining = buffer_len(bytebuf) - read_position(bytebuf);
    if header.length as usize > remaining {
        return Err(DecodeError::UnexpectedEof);
    }
    let data = match read_bytes(bytebuf, header.length as usize) {
        Ok(v) => v,
        Err(_) => {
            return Err(DecodeError::UnexpectedEof);
        },
    };
    proof {
        lemma_read_advanced(*old(bytebuf), *bytebuf, header.length as nat);
    }
    Ok(BanchoPacket::Other { id: header.id, data })
}

impl BanchoPacket {
    /// Reads the payload of the packet that `header` announces. On success
    /// the buffer stands behind the payload.
    pub fn from_header_and_bytebuf(header: &BanchoPacketHeader, bytebuf: &mut ByteBuffer) -> (r:
        Result<Self, DecodeError>)
        requires
            old(bytebuf).can_read(),
        ensures
            final(bytebuf).can_read(),
            match r {
                Ok(packet) => parse_payload(header.id, header.length, old(bytebuf).unread())
                    matches Ok((value, n)) && value == packet@ && took(
                    old(bytebuf).unread(),
                    final(bytebuf).unread(),
                    n,
                ),
                Err(e) => parse_payload(header.id, header.length, old(bytebuf).unread()) == Err::<
                    (PacketView, nat),
                    DecodeError,
                >(e),
            },
    {
        match header.id {
            0 => read_change_action(bytebuf),
            1 => {
                let message = match bytebuf.read_osu_message() {
                    Ok(v) => v,
                    Err(e) => {
                        return Err(e);
                    },
                };
                Ok(Self::SendPublicMessage(message))
            },
            5 => {
                let user_id = match read_i32_le(bytebuf) {
                    Ok(v) => v,
                    Err(e) => {
                        return Err(e);
                    },
                };
                Ok(Self::UserId(user_id))
            },
            7 => {
                let message = match bytebuf.read_osu_message() {
                    Ok(v) => v,
                    Err(e) => {
                        return Err(e);
                    },
                };
                Ok(Self::SendMessage(message))
            },
            25 => {
                let message = match bytebuf.read_osu_message() {
                    Ok(v) => v,
                    Err(e) => {
                        return Err(e);
                    },
                };
                Ok(Self::SendPrivateMessage(message))
            },
            71 => {
                let privileges_bitfield = match read_u32_le(bytebuf) {
                    Ok(v) => v,
                    Err(e) => {
                        return Err(e);
                    },
                };
                Ok(Self::Privilege { privileges_bitfield })
            },
            83 => read_user_presence(bytebuf),
            _ => read_other(header, bytebuf),
        }
    }

    /// The id that the packet's header carries.
    pub fn id(&self) -> (id: u16)
        ensures
            id == self@.id(),
    {
        match self {
            BanchoPacket::ChangeAction { .. } => 0,
            BanchoPacket::SendPublicMessage(_) => 1,
            BanchoPacket::UserId(_) => 5,
            BanchoPacket::SendMessage(_) => 7,
            BanchoPacket::SendPrivateMessage(_) => 25,
            BanchoPacket::Privilege { .. } => 71,
            BanchoPacket::UserPresence { .. } => 83,
            BanchoPacket::Other { id, .. } => *id,
        }
    }

    /// The payload, without the header.
    pub fn encode(&self) -> (payload: Vec<u8>)
        ensures
            payload@ == self@.payload(),
    {
        let mut bytebuf = new_writer();
        match self {
            BanchoPacket::ChangeAction { action, info_text, map_md5, mods, mode, map_id } => {
                write_u8(&mut bytebuf, action.as_u8());
                bytebuf.write_osu_string(info_text.as_str());
                bytebuf.write_osu_string(map_md5.as_str());
                write_u32(&mut bytebuf, *mods);
                write_u8(&mut bytebuf, *mode);
                write_i32(&mut bytebuf, *map_id);
            },
            BanchoPacket::SendPublicMessage(message) => {
                bytebuf.write_osu_message(message);
            },
            BanchoPacket::UserId(user_id) => {
                write_i32(&mut bytebuf, *user_id);
            },
            BanchoPacket::SendMessage(message) => {
                bytebuf.write_osu_message(message);
            },
            BanchoPacket::SendPrivateMessage(message) => {
                bytebuf.write_osu_message(message);
            },
            BanchoPacket::Privilege { privileges_bitfield } => {
                write_u32(&mut bytebuf, *privileges_bitfield);
            },
            BanchoPacket::UserPresence {
                user_id,
                name,
                utc_offset,
                country_code,
                bancho_privileges,
                longitude,
                latitude,
                global_rank,
            } => {
                write_i32(&mut bytebuf, *user_id);
                bytebuf.write_osu_string(name.as_str());
                write_u8(&mut bytebuf, *utc_offset);
                write_u8(&mut bytebuf, *country_code);
                write_u8(&mut bytebuf, *bancho_privileges);
                write_u32(&mut bytebuf, *longitude);
                write_u32(&mut bytebuf, *latitude);
                write_i32(&mut bytebuf, *global_rank);
            },
            BanchoPacket::Other { data, .. } => {
                write_bytes(&mut bytebuf, data.as_slice());
            },
        }
        assert(buffer_bytes(bytebuf) =~= self@.payload());
        into_written(bytebuf)
    }

    /// The packet on the wire, or an error where its payload is too long
    /// for the header to say so.
    pub fn try_to_bytes(&self) -> (r: Result<Vec<u8>, EncodeError>)
        ensures
            match r {
                Ok(bytes) => self@.payload().len() <= u32::MAX && bytes@ == self@.wire(),
                Err(e) => self@.payload().len() > u32::MAX && e == EncodeError::PayloadTooLarge,
            },
    {
        let data = self.encode();
        if data.len() > u32::MAX as usize {
            return Err(EncodeError::PayloadTooLarge);
        }
        let mut bytebuf = new_writer();
        write_u16(&mut bytebuf, self.id());
        write_u8(&mut bytebuf, 0);
        write_u32(&mut bytebuf, data.len() as u32);
        write_bytes(&mut bytebuf, data.as_slice());
        assert(buffer_bytes(bytebuf) =~= self@.wire());
        Ok(into_written(bytebuf))
    }

    /// The packet on the wire: header, then payload.
    pub fn to_bytes(&self) -> (bytes: Vec<u8>)
        requires
            self@.payload().len() <= u32::MAX,
        ensures
            bytes@ == self@.wire(),
    {
        let mut bytebuf = new_writer();
        let data = self.encode();
        write_u16(&mut bytebuf, self.id());
        write_u8(&mut bytebuf, 0);
        write_u32(&mut bytebuf, data.len() as u32);
        write_bytes(&mut bytebuf, data.as_slice());
        assert(buffer_bytes(bytebuf) =~= self@.wire());
        into_written(bytebuf)
    }
}

} // verus!
