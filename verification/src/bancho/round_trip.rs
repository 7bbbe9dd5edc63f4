//! That encoding and decoding agree: what was encoded decodes to itself,
//! for a packet and for a body.

use crate::bancho::action::lemma_action_round_trip;
use crate::bancho::action::UserAction;
use crate::bancho::packet::header_bytes;
use crate::bancho::packet::lemma_parse_payload_length;
use crate::bancho::packet::parse_change_action;
use crate::bancho::packet::parse_header;
use crate::bancho::packet::parse_payload;
use crate::bancho::packet::parse_user_presence;
use crate::bancho::packet::BanchoPacketHeader;
use crate::bancho::packet::PacketView;
use crate::bancho::packet::HEADER_LEN;
use crate::bancho::packet::ID_CHANGE_ACTION;
use crate::bancho::packet::ID_SEND_MESSAGE;
use crate::bancho::packet::ID_SEND_PRIVATE_MESSAGE;
use crate::bancho::packet::ID_SEND_PUBLIC_MESSAGE;
use crate::bancho::packet::ID_USER_PRESENCE;
use crate::bancho::stream::parse_stream;
use crate::bancho::stream::stream_bytes;
use crate::bancho::wire::i32_le_bytes;
use crate::bancho::wire::lemma_i32_round_trip;
use crate::bancho::wire::lemma_message_round_trip;
use crate::bancho::wire::lemma_next_field;
use crate::bancho::wire::lemma_osu_string_round_trip;
use crate::bancho::wire::lemma_parsed_message_fits;
use crate::bancho::wire::lemma_parsed_string_fits;
use crate::bancho::wire::lemma_skip_first;
use crate::bancho::wire::lemma_skip_skip;
use crate::bancho::wire::lemma_u32_round_trip;
use crate::bancho::wire::lemma_u8_round_trip;
use crate::bancho::wire::length_of;
use crate::bancho::wire::osu_string_bytes;
use crate::bancho::wire::parse_i32;
use crate::bancho::wire::parse_osu_string;
use crate::bancho::wire::parse_u32;
use crate::bancho::wire::parse_u8;
use crate::bancho::wire::string_fits;
use crate::bancho::wire::value_of;
use crate::buffer::lemma_u16_le_round_trip;
use crate::buffer::lemma_u32_le_round_trip;
use crate::buffer::u16_le_bytes;
use crate::buffer::u32_le_bytes;
use crate::error::DecodeError;
use vstd::prelude::*;

verus! {

/// Where each of six fields starts in their run.
proof fn lemma_six_fields(
    f1: Seq<u8>,
    f2: Seq<u8>,
    f3: Seq<u8>,
    f4: Seq<u8>,
    f5: Seq<u8>,
    f6: Seq<u8>,
    rest: Seq<u8>,
)
    ensures
        ({
            let wire = f1 + f2 + f3 + f4 + f5 + f6 + rest;
            let t5 = f6 + rest;
            let t4 = f5 + t5;
            let t3 = f4 + t4;
            let t2 = f3 + t3;
            let t1 = f2 + t2;
            &&& wire == f1 + t1
            &&& wire.skip(f1.len() as int) == t1
            &&& wire.skip((f1.len() + f2.len()) as int) == t2
            &&& wire.skip((f1.len() + f2.len() + f3.len()) as int) == t3
            &&& wire.skip((f1.len() + f2.len() + f3.len() + f4.len()) as int) == t4
            &&& wire.skip((f1.len() + f2.len() + f3.len() + f4.len() + f5.len()) as int) == t5
            &&& (f1 + f2 + f3 + f4 + f5 + f6).len() == f1.len() + f2.len() + f3.len() + f4.len()
                + f5.len() + f6.len()
        }),
{
    let wire = f1 + f2 + f3 + f4 + f5 + f6 + rest;
    let t5 = f6 + rest;
    let t4 = f5 + t5;
    let t3 = f4 + t4;
    let t2 = f3 + t3;
    let t1 = f2 + t2;
    assert(wire =~= f1 + t1);
    assert(wire.skip(0) =~= wire);
    lemma_next_field(wire, 0, f1, t1);
    lemma_next_field(wire, f1.len(), f2, t2);
    lemma_next_field(wire, f1.len() + f2.len(), f3, t3);
    lemma_next_field(wire, f1.len() + f2.len() + f3.len(), f4, t4);
    lemma_next_field(wire, f1.len() + f2.len() + f3.len() + f4.len(), f5, t5);
}

/// Where each of eight fields starts in their run.
proof fn lemma_eight_fields(
    f1: Seq<u8>,
    f2: Seq<u8>,
    f3: Seq<u8>,
    f4: Seq<u8>,
    f5: Seq<u8>,
    f6: Seq<u8>,
    f7: Seq<u8>,
    f8: Seq<u8>,
    rest: Seq<u8>,
)
    ensures
        ({
            let wire = f1 + f2 + f3 + f4 + f5 + f6 + f7 + f8 + rest;
            let t7 = f8 + rest;
            let t6 = f7 + t7;
            let t5 = f6 + t6;
            let t4 = f5 + t5;
            let t3 = f4 + t4;
            let t2 = f3 + t3;
            let t1 = f2 + t2;
            let n2 = f1.len() + f2.len();
            let n4 = n2 + f3.len() + f4.len();
            let n6 = n4 + f5.len() + f6.len();
            &&& wire == f1 + t1
            &&& wire.skip(f1.len() as int) == t1
            &&& wire.skip(n2 as int) == t2
            &&& wire.skip((n2 + f3.len()) as int) == t3
            &&& wire.skip(n4 as int) == t4
            &&& wire.skip((n4 + f5.len()) as int) == t5
            &&& wire.skip(n6 as int) == t6
            &&& wire.skip((n6 + f7.len()) as int) == t7
            &&& (f1 + f2 + f3 + f4 + f5 + f6 + f7 + f8).len() == n6 + f7.len() + f8.len()
        }),
{
    let wire = f1 + f2 + f3 + f4 + f5 + f6 + f7 + f8 + rest;
    let t7 = f8 + rest;
    let t6 = f7 + t7;
    let t5 = f6 + t6;
    let t4 = f5 + t5;
    let t3 = f4 + t4;
    let t2 = f3 + t3;
    let t1 = f2 + t2;
    let n2 = f1.len() + f2.len();
    let n4 = n2 + f3.len() + f4.len();
    let n6 = n4 + f5.len() + f6.len();
    assert(wire =~= f1 + t1);
    assert(wire.skip(0) =~= wire);
    lemma_next_field(wire, 0, f1, t1);
    lemma_next_field(wire, f1.len(), f2, t2);
    lemma_next_field(wire, n2, f3, t3);
    lemma_next_field(wire, n2 + f3.len(), f4, t4);
    lemma_next_field(wire, n4, f5, t5);
    lemma_next_field(wire, n4 + f5.len(), f6, t6);
    lemma_next_field(wire, n6, f7, t7);
}

/// The packet that the six fields of a `ChangeAction` payload make.
proof fn lemma_change_action_fields(
    s: Seq<u8>,
    code: u8,
    info_text: Seq<char>,
    info_len: nat,
    map_md5: Seq<char>,
    md5_len: nat,
    mods: u32,
    mode: u8,
    map_id: i32,
)
    requires
        parse_u8(s) == Ok::<(u8, nat), DecodeError>((code, 1)),
        parse_osu_string(s.skip(1)) == Ok::<(Seq<char>, nat), DecodeError>((info_text, info_len)),
        parse_osu_string(s.skip((1 + info_len) as int)) == Ok::<(Seq<char>, nat), DecodeError>(
            (map_md5, md5_len),
        ),
        parse_u32(s.skip((1 + info_len + md5_len) as int)) == Ok::<(u32, nat), DecodeError>(
            (mods, 4),
        ),
        parse_u8(s.skip((1 + info_len + md5_len + 4) as int)) == Ok::<(u8, nat), DecodeError>(
            (mode, 1),
        ),
        parse_i32(s.skip((1 + info_len + md5_len + 5) as int)) == Ok::<(i32, nat), DecodeError>(
            (map_id, 4),
        ),
    ensures
        parse_change_action(s) == Ok::<(PacketView, nat), DecodeError>(
            (
                PacketView::ChangeAction {
                    action: UserAction::of_code(code),
                    info_text,
                    map_md5,
                    mods,
                    mode,
                    map_id,
                },
                1 + info_len + md5_len + 9,
            ),
        ),
{
    reveal(parse_change_action);
}

/// A `ChangeAction` payload decodes to the fields it was made from.
proof fn lemma_change_action_wire(
    action: UserAction,
    info_text: Seq<char>,
    map_md5: Seq<char>,
    mods: u32,
    mode: u8,
    map_id: i32,
    rest: Seq<u8>,
)
    requires
        string_fits(info_text),
        string_fits(map_md5),
    ensures
        ({
            let payload = seq![action.code()] + osu_string_bytes(info_text) + osu_string_bytes(
                map_md5,
            ) + u32_le_bytes(mods) + seq![mode] + i32_le_bytes(map_id);
            parse_change_action(payload + rest) == Ok::<(PacketView, nat), DecodeError>(
                (
                    PacketView::ChangeAction { action, info_text, map_md5, mods, mode, map_id },
                    payload.len(),
                ),
            )
        }),
{
    let f1 = seq![action.code()];
    let f2 = osu_string_bytes(info_text);
    let f3 = osu_string_bytes(map_md5);
    let f4 = u32_le_bytes(mods);
    let f5 = seq![mode];
    let f6 = i32_le_bytes(map_id);
    let t5 = f6 + rest;
    let t4 = f5 + t5;
    let t3 = f4 + t4;
    let t2 = f3 + t3;
    let t1 = f2 + t2;
    let wire = f1 + f2 + f3 + f4 + f5 + f6 + rest;
    lemma_six_fields(f1, f2, f3, f4, f5, f6, rest);
    assert(f1.len() == 1 && f5.len() == 1);
    assert(f4.len() == 4 && f6.len() == 4) by {
        lemma_u32_round_trip(mods, t4);
        lemma_i32_round_trip(map_id, rest);
    }
    assert(parse_u8(wire) == Ok::<(u8, nat), DecodeError>((action.code(), 1))) by {
        lemma_u8_round_trip(action.code(), t1);
    }
    assert(parse_osu_string(wire.skip(1)) == Ok::<(Seq<char>, nat), DecodeError>(
        (info_text, f2.len()),
    )) by {
        lemma_osu_string_round_trip(info_text, t2);
    }
    assert(parse_osu_string(wire.skip((1 + f2.len()) as int)) == Ok::<
        (Seq<char>, nat),
        DecodeError,
    >((map_md5, f3.len()))) by {
        lemma_osu_string_round_trip(map_md5, t3);
    }
    assert(parse_u32(wire.skip((1 + f2.len() + f3.len()) as int)) == Ok::<(u32, nat), DecodeError>(
        (mods, 4),
    )) by {
        lemma_u32_round_trip(mods, t4);
    }
    assert(parse_u8(wire.skip((1 + f2.len() + f3.len() + 4) as int)) == Ok::<
        (u8, nat),
        DecodeError,
    >((mode, 1))) by {
        lemma_u8_round_trip(mode, t5);
    }
    assert(parse_i32(wire.skip((1 + f2.len() + f3.len() + 5) as int)) == Ok::<
        (i32, nat),
        DecodeError,
    >((map_id, 4))) by {
        lemma_i32_round_trip(map_id, rest);
    }
    lemma_change_action_fields(
        wire,
        action.code(),
        info_text,
        f2.len(),
        map_md5,
        f3.len(),
        mods,
        mode,
        map_id,
    );
    lemma_action_round_trip(action);
}

/// A `ChangeAction` packet survives encoding and decoding.
proof fn lemma_change_action_round_trip(p: PacketView, rest: Seq<u8>)
    requires
        p is ChangeAction,
        p.well_formed(),
    ensures
        parse_change_action(p.payload() + rest) == Ok::<(PacketView, nat), DecodeError>(
            (p, p.payload().len()),
        ),
{
    lemma_change_action_wire(
        p->action,
        p->info_text,
        p->map_md5,
        p->mods,
        p->mode,
        p->map_id,
        rest,
    );
}

/// The packet that the eight fields of a `UserPresence` payload make.
proof fn lemma_user_presence_fields(
    s: Seq<u8>,
    user_id: i32,
    name: Seq<char>,
    name_len: nat,
    utc_offset: u8,
    country_code: u8,
    bancho_privileges: u8,
    longitude: u32,
    latitude: u32,
    global_rank: i32,
)
    requires
        parse_i32(s) == Ok::<(i32, nat), DecodeError>((user_id, 4)),
        parse_osu_string(s.skip(4)) == Ok::<(Seq<char>, nat), DecodeError>((name, name_len)),
        parse_u8(s.skip((4 + name_len) as int)) == Ok::<(u8, nat), DecodeError>((utc_offset, 1)),
        parse_u8(s.skip((4 + name_len + 1) as int)) == Ok::<(u8, nat), DecodeError>(
            (country_code, 1),
        ),
        parse_u8(s.skip((4 + name_len + 2) as int)) == Ok::<(u8, nat), DecodeError>(
            (bancho_privileges, 1),
        ),
        parse_u32(s.skip((4 + name_len + 3) as int)) == Ok::<(u32, nat), DecodeError>(
            (longitude, 4),
        ),
        parse_u32(s.skip((4 + name_len + 7) as int)) == Ok::<(u32, nat), DecodeError>(
            (latitude, 4),
        ),
        parse_i32(s.skip((4 + name_len + 11) as int)) == Ok::<(i32, nat), DecodeError>(
            (global_rank, 4),
        ),
    ensures
        parse_user_presence(s) == Ok::<(PacketView, nat), DecodeError>(
            (
                PacketView::UserPresence {
                    user_id,
                    name,
                    utc_offset,
                    country_code,
                    bancho_privileges,
                    longitude,
                    latitude,
                    global_rank,
                },
                4 + name_len + 15,
            ),
        ),
{
    reveal(parse_user_presence);
}

/// A `UserPresence` payload decodes to the fields it was made from.
proof fn lemma_user_presence_wire(
    user_id: i32,
    name: Seq<char>,
    utc_offset: u8,
    country_code: u8,
    bancho_privileges: u8,
    longitude: u32,
    latitude: u32,
    global_rank: i32,
    rest: Seq<u8>,
)
    requires
        string_fits(name),
    ensures
        ({
            let payload = i32_le_bytes(user_id) + osu_string_bytes(name) + seq![utc_offset]
                + seq![country_code] + seq![bancho_privileges] + u32_le_bytes(longitude)
                + u32_le_bytes(latitude) + i32_le_bytes(global_rank);
            parse_user_presence(payload + rest) == Ok::<(PacketView, nat), DecodeError>(
                (
                    PacketView::UserPresence {
                        user_id,
                        name,
                        utc_offset,
                        country_code,
                        bancho_privileges,
                        longitude,
                        latitude,
                        global_rank,
                    },
                    payload.len(),
                ),
            )
        }),
{
    let f1 = i32_le_bytes(user_id);
    let f2 = osu_string_bytes(name);
    let f3 = seq![utc_offset];
    let f4 = seq![country_code];
    let f5 = seq![bancho_privileges];
    let f6 = u32_le_bytes(longitude);
    let f7 = u32_le_bytes(latitude);
    let f8 = i32_le_bytes(global_rank);
    let t7 = f8 + rest;
    let t6 = f7 + t7;
    let t5 = f6 + t6;
    let t4 = f5 + t5;
    let t3 = f4 + t4;
    let t2 = f3 + t3;
    let t1 = f2 + t2;
    let wire = f1 + f2 + f3 + f4 + f5 + f6 + f7 + f8 + rest;
    let n = f2.len();
    lemma_eight_fields(f1, f2, f3, f4, f5, f6, f7, f8, rest);
    assert(f3.len() == 1 && f4.len() == 1 && f5.len() == 1);
    assert(f1.len() == 4 && f6.len() == 4 && f7.len() == 4 && f8.len() == 4) by {
        lemma_i32_round_trip(user_id, t1);
        lemma_u32_round_trip(longitude, t6);
        lemma_u32_round_trip(latitude, t7);
        lemma_i32_round_trip(global_rank, rest);
    }
    assert(parse_i32(wire) == Ok::<(i32, nat), DecodeError>((user_id, 4))) by {
        lemma_i32_round_trip(user_id, t1);
    }
    assert(parse_osu_string(wire.skip(4)) == Ok::<(Seq<char>, nat), DecodeError>((name, n))) by {
        lemma_osu_string_round_trip(name, t2);
    }
    assert(parse_u8(wire.skip((4 + n) as int)) == Ok::<(u8, nat), DecodeError>((utc_offset, 1)))
        by {
        lemma_u8_round_trip(utc_offset, t3);
    }
    assert(parse_u8(wire.skip((4 + n + 1) as int)) == Ok::<(u8, nat), DecodeError>(
        (country_code, 1),
    )) by {
        lemma_u8_round_trip(country_code, t4);
    }
    assert(parse_u8(wire.skip((4 + n + 2) as int)) == Ok::<(u8, nat), DecodeError>(
        (bancho_privileges, 1),
    )) by {
        lemma_u8_round_trip(bancho_privileges, t5);
    }
    assert(parse_u32(wire.skip((4 + n + 3) as int)) == Ok::<(u32, nat), DecodeError>(
        (longitude, 4),
    )) by {
        lemma_u32_round_trip(longitude, t6);
    }
    assert(parse_u32(wire.skip((4 + n + 7) as int)) == Ok::<(u32, nat), DecodeError>(
        (latitude, 4),
    )) by {
        lemma_u32_round_trip(latitude, t7);
    }
    assert(parse_i32(wire.skip((4 + n + 11) as int)) == Ok::<(i32, nat), DecodeError>(
        (global_rank, 4),
    )) by {
        lemma_i32_round_trip(global_rank, rest);
    }
    lemma_user_presence_fields(
        wire,
        user_id,
        name,
        n,
        utc_offset,
        country_code,
        bancho_privileges,
        longitude,
        latitude,
        global_rank,
    );
}

/// A `UserPresence` packet survives encoding and decoding.
proof fn lemma_user_presence_round_trip(p: PacketView, rest: Seq<u8>)
    requires
        p is UserPresence,
        p.well_formed(),
    ensures
        parse_user_presence(p.payload() + rest) == Ok::<(PacketView, nat), DecodeError>(
            (p, p.payload().len()),
        ),
{
    lemma_user_presence_wire(
        p->user_id,
        p->name,
        p->utc_offset,
        p->country_code,
        p->bancho_privileges,
        p->longitude,
        p->latitude,
        p->global_rank,
        rest,
    );
}

/// Every well-formed packet survives encoding and decoding field for
/// field, and decoding takes exactly the bytes that encoding made, whatever
/// follows them. For a kind with a shape of its own the header's length
/// plays no part; for the catch-all it has to be the payload's length.
pub proof fn lemma_payload_round_trip(p: PacketView, length: u32, rest: Seq<u8>)
    requires
        p.well_formed(),
        p is Other ==> length == p.payload().len(),
    ensures
        parse_payload(p.id(), length, p.payload() + rest) == Ok::<(PacketView, nat), DecodeError>(
            (p, p.payload().len()),
        ),
{
    match p {
        PacketView::ChangeAction { .. } => {
            lemma_change_action_round_trip(p, rest);
        },
        PacketView::SendPublicMessage(message) => {
            lemma_message_round_trip(message, rest);
        },
        PacketView::UserId(user_id) => {
            lemma_i32_round_trip(user_id, rest);
        },
        PacketView::SendMessage(message) => {
            lemma_message_round_trip(message, rest);
        },
        PacketView::SendPrivateMessage(message) => {
            lemma_message_round_trip(message, rest);
        },
        PacketView::Privilege { privileges_bitfield } => {
            lemma_u32_round_trip(privileges_bitfield, rest);
        },
        PacketView::UserPresence { .. } => {
            lemma_user_presence_round_trip(p, rest);
        },
        PacketView::Other { id, data } => {
            assert((data + rest).take(length as int) =~= data);
        },
    }
}

/// What decoding gives is well formed.
pub proof fn lemma_parsed_payload_well_formed(id: u16, length: u32, s: Seq<u8>)
    requires
        parse_payload(id, length, s) is Ok,
    ensures
        value_of(parse_payload(id, length, s)).well_formed(),
{
    if id == ID_CHANGE_ACTION {
        reveal(parse_change_action);
        let at_info_text = 1nat;
        lemma_parsed_string_fits(s.skip(at_info_text as int));
        let at_map_md5 = at_info_text + length_of(parse_osu_string(s.skip(at_info_text as int)));
        lemma_parsed_string_fits(s.skip(at_map_md5 as int));
    } else if id == ID_SEND_PUBLIC_MESSAGE || id == ID_SEND_MESSAGE || id
        == ID_SEND_PRIVATE_MESSAGE {
        lemma_parsed_message_fits(s);
    } else if id == ID_USER_PRESENCE {
        reveal(parse_user_presence);
        lemma_parsed_string_fits(s.skip(4));
    }
}

/// A header survives writing and reading, whatever follows it.
pub proof fn lemma_header_round_trip(id: u16, length: u32, rest: Seq<u8>)
    ensures
        header_bytes(id, length).len() == 7,
        parse_header(header_bytes(id, length) + rest) == (BanchoPacketHeader {
            id,
            unknown: 0,
            length,
        }),
{
    let wire = header_bytes(id, length) + rest;
    lemma_u16_le_round_trip(id, seq![0u8] + u32_le_bytes(length) + rest);
    assert(wire =~= u16_le_bytes(id) + (seq![0u8] + u32_le_bytes(length) + rest));
    lemma_u32_le_round_trip(length, rest);
    assert(wire.skip(3) =~= u32_le_bytes(length) + rest);
}

/// A header, a payload and what follows them, taken apart.
proof fn lemma_packet_parts(header: Seq<u8>, payload: Seq<u8>, others: Seq<u8>, tail: Seq<u8>)
    ensures
        ({
            let wire = ((header + payload) + others) + tail;
            &&& wire == header + (payload + (others + tail))
            &&& wire.len() >= header.len() + payload.len()
            &&& wire.skip(header.len() as int) == payload + (others + tail)
            &&& wire.skip((header.len() + payload.len()) as int) == others + tail
        }),
{
    let wire = ((header + payload) + others) + tail;
    assert(wire =~= header + (payload + (others + tail)));
    lemma_skip_first(header, payload + (others + tail));
    lemma_skip_first(payload, others + tail);
    lemma_skip_skip(wire, header.len(), payload.len());
}

/// Encoding a run of well-formed packets and decoding the bytes gives the
/// same packets in the same order. Up to six stray bytes behind the last
/// packet do not fail the decoding: they come back as the leftover.
pub proof fn lemma_stream_round_trip(packets: Seq<PacketView>, tail: Seq<u8>)
    requires
        forall|i: int| 0 <= i < packets.len() ==> (#[trigger] packets[i]).well_formed(),
        forall|i: int|
            0 <= i < packets.len() ==> (#[trigger] packets[i]).payload().len() <= u32::MAX,
        tail.len() < HEADER_LEN,
    ensures
        parse_stream(stream_bytes(packets) + tail) == Ok::<
            (Seq<PacketView>, Seq<u8>),
            DecodeError,
        >((packets, tail)),
    decreases packets.len(),
{
    if packets.len() == 0 {
        assert(stream_bytes(packets) + tail =~= tail);
        assert(packets =~= Seq::<PacketView>::empty());
    } else {
        let first = packets[0];
        let others = packets.skip(1);
        let payload = first.payload();
        let length = payload.len() as u32;
        let header = header_bytes(first.id(), length);
        let after = stream_bytes(others) + tail;
        let wire = stream_bytes(packets) + tail;
        assert(first.well_formed() && payload.len() <= u32::MAX);
        assert(stream_bytes(packets) == (header + payload) + stream_bytes(others));
        lemma_packet_parts(header, payload, stream_bytes(others), tail);
        lemma_header_round_trip(first.id(), length, payload + after);
        lemma_payload_round_trip(first, length, after);
        assert forall|i: int| 0 <= i < others.len() implies (#[trigger] others[i]).well_formed()
            && others[i].payload().len() <= u32::MAX by {
            assert(others[i] == packets[i + 1]);
        }
        lemma_stream_round_trip(others, tail);
        assert(seq![first] + others =~= packets);
        assert(wire.len() >= HEADER_LEN);
        assert(parse_header(wire).id == first.id() && parse_header(wire).length == length);
        assert(parse_payload(first.id(), length, wire.skip(7)) == Ok::<
            (PacketView, nat),
            DecodeError,
        >((first, payload.len())));
        assert(wire.skip((7 + payload.len()) as int) == after);
    }
}

/// What a body decodes to can be encoded again and decodes to itself: its
/// packets are well formed, and fewer than seven bytes are left over.
pub proof fn lemma_parsed_stream_well_formed(s: Seq<u8>)
    requires
        parse_stream(s) is Ok,
    ensures
        forall|i: int|
            0 <= i < parse_stream(s)->Ok_0.0.len() ==> (#[trigger] parse_stream(
                s,
            )->Ok_0.0[i]).well_formed(),
        parse_stream(s)->Ok_0.1.len() < HEADER_LEN,
    decreases s.len(),
{
    if s.len() >= HEADER_LEN {
        let header = parse_header(s);
        let payload = parse_payload(header.id, header.length, s.skip(HEADER_LEN as int));
        let first = value_of(payload);
        let rest = s.skip(HEADER_LEN + length_of(payload));
        lemma_parse_payload_length(header.id, header.length, s.skip(HEADER_LEN as int));
        lemma_parsed_payload_well_formed(header.id, header.length, s.skip(HEADER_LEN as int));
        lemma_parsed_stream_well_formed(rest);
        let packets = parse_stream(s)->Ok_0.0;
        let others = parse_stream(rest)->Ok_0.0;
        assert forall|i: int| 0 <= i < packets.len() implies (
            #[trigger] packets[i]).well_formed() by {
            if i > 0 {
                assert(packets[i] == others[i - 1]);
            }
        }
    }
}

} // verus!
