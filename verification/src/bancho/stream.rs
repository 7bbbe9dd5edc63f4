//! A body: packets on the wire one after the other, each behind its header.

use crate::bancho::packet::header_bytes;
use crate::bancho::packet::lemma_parse_payload_length;
use crate::bancho::packet::parse_header;
use crate::bancho::packet::parse_payload;
use crate::bancho::packet::BanchoPacket;
use crate::bancho::packet::BanchoPacketHeader;
use crate::bancho::packet::PacketView;
use crate::bancho::packet::HEADER_LEN;
use crate::bancho::reader::reader_of;
use crate::bancho::reader::OsuReader;
use crate::bancho::round_trip::lemma_parsed_stream_well_formed;
use crate::bancho::wire::lemma_skip_skip;
use crate::buffer::buffer_len;
use crate::buffer::lemma_read_advanced;
use crate::buffer::read_bytes;
use crate::buffer::read_position;
use crate::buffer::unread_bytes;
use crate::error::DecodeError;
use crate::error::EncodeError;
use vstd::prelude::*;

verus! {

/// What each packet of a run says.
pub open spec fn packet_views(packets: Seq<BanchoPacket>) -> Seq<PacketView> {
    packets.map_values(|packet: BanchoPacket| packet@)
}

/// The packets on the wire, one after the other in their order.
pub open spec fn stream_bytes(packets: Seq<PacketView>) -> Seq<u8>
    decreases packets.len(),
{
    if packets.len() == 0 {
        Seq::empty()
    } else {
        packets[0].wire() + stream_bytes(packets.skip(1))
    }
}

/// The packets that a body holds and what is left behind the last of them.
///
/// Packets are taken from the front for as long as seven bytes or more are
/// left for a header. Fewer than seven bytes are left over: they end the
/// body without failing it. A header that says a longer payload than the
/// bytes behind it fails the body, whatever kind of packet it announces, and
/// so does a payload that fails to decode.
pub open spec fn parse_stream(s: Seq<u8>) -> Result<(Seq<PacketView>, Seq<u8>), DecodeError>
    decreases s.len(),
    via parse_stream_decreases
{
    if s.len() < HEADER_LEN {
        Ok((Seq::empty(), s))
    } else {
        let header = parse_header(s);
        if s.len() - HEADER_LEN < header.length {
            Err(DecodeError::UnexpectedEof)
        } else {
            match parse_payload(header.id, header.length, s.skip(HEADER_LEN as int)) {
                Err(e) => Err(e),
                Ok((packet, n)) => match parse_stream(s.skip(HEADER_LEN + n)) {
                    Err(e) => Err(e),
                    Ok((packets, leftover)) => Ok((seq![packet] + packets, leftover)),
                },
            }
        }
    }
}

#[via_fn]
proof fn parse_stream_decreases(s: Seq<u8>) {
    if s.len() >= HEADER_LEN {
        let header = parse_header(s);
        let payload = parse_payload(header.id, header.length, s.skip(HEADER_LEN as int));
        if payload is Ok {
            lemma_parse_payload_length(header.id, header.length, s.skip(HEADER_LEN as int));
        }
    }
}

/// A header that says a longer payload than the bytes behind it fails the
/// body with `UnexpectedEof`, for every kind of packet.
pub proof fn lemma_length_past_the_end_fails(s: Seq<u8>)
    requires
        s.len() >= HEADER_LEN,
        s.len() - HEADER_LEN < parse_header(s).length,
    ensures
        parse_stream(s) == Err::<(Seq<PacketView>, Seq<u8>), DecodeError>(
            DecodeError::UnexpectedEof,
        ),
{
}

/// The result for a whole body, of which `done` were decoded and the rest
/// decodes to `rest`.
pub open spec fn stream_resume(
    done: Seq<PacketView>,
    rest: Result<(Seq<PacketView>, Seq<u8>), DecodeError>,
) -> Result<(Seq<PacketView>, Seq<u8>), DecodeError> {
    match rest {
        Ok((packets, leftover)) => Ok((done + packets, leftover)),
        Err(e) => Err(e),
    }
}

/// Decodes a body into its packets and the bytes left over behind them,
/// which are fewer than seven. It fails with `UnexpectedEof` where a header
/// says a longer payload than the bytes behind it, and where a payload
/// fails to decode, with that payload's error. The packets it gives are
/// well formed.
pub fn decode_bancho_packets(bytes: &[u8]) -> (r: Result<(Vec<BanchoPacket>, Vec<u8>), DecodeError>)
    ensures
        match r {
            Ok((packets, leftover)) => {
                &&& parse_stream(bytes@) == Ok::<(Seq<PacketView>, Seq<u8>), DecodeError>(
                    (packet_views(packets@), leftover@),
                )
                &&& leftover@.len() < HEADER_LEN
                &&& forall|i: int|
                    0 <= i < packets.len() ==> (#[trigger] packets[i])@.well_formed()
            },
            Err(e) => parse_stream(bytes@) == Err::<(Seq<PacketView>, Seq<u8>), DecodeError>(e),
        },
{
    let mut packets: Vec<BanchoPacket> = Vec::new();
    let mut bytebuf = reader_of(bytes);
    proof {
        assert(packet_views(packets@) =~= Seq::<PacketView>::empty());
        lemma_stream_resume_empty(parse_stream(bytes@));
    }
    loop
        invariant
            bytebuf.can_read(),
            parse_stream(bytes@) == stream_resume(
                packet_views(packets@),
                parse_stream(unread_bytes(bytebuf)),
            ),
        decreases unread_bytes(bytebuf).len(),
    {
        let ghost unread = unread_bytes(bytebuf);
        let ghost done = packet_views(packets@);
        let remaining_bytes = buffer_len(&bytebuf) - read_position(&bytebuf);
        if remaining_bytes == 0 {
            proof {
                assert(unread =~= Seq::<u8>::empty());
                assert(done + Seq::<PacketView>::empty() =~= done);
                lemma_decoded_well_formed(bytes@, packets@, unread);
            }
            return Ok((packets, Vec::new()));
        } else if remaining_bytes < HEADER_LEN {
            let leftover = match read_bytes(&mut bytebuf, remaining_bytes) {
                Ok(v) => v,
                Err(_) => {
                    return Err(DecodeError::UnexpectedEof);
                },
            };
            proof {
                assert(leftover@ =~= unread);
                assert(done + Seq::<PacketView>::empty() =~= done);
                lemma_decoded_well_formed(bytes@, packets@, unread);
            }
            return Ok((packets, leftover));
        } else {
            let ghost at_header = bytebuf;
            let header_bytes = match read_bytes(&mut bytebuf, HEADER_LEN) {
                Ok(v) => v,
                Err(_) => {
                    return Err(DecodeError::UnexpectedEof);
                },
            };
            let header_bytes: [u8; 7] = [
                header_bytes[0],
                header_bytes[1],
                header_bytes[2],
                header_bytes[3],
                header_bytes[4],
                header_bytes[5],
                header_bytes[6],
            ];
            let header = match BanchoPacketHeader::from_bytes(header_bytes) {
                Ok(v) => v,
                Err(e) => {
                    return Err(e);
                },
            };
            proof {
                lemma_header_of_prefix(unread, header_bytes@);
                lemma_read_advanced(at_header, bytebuf, 7);
            }
            let behind_header = buffer_len(&bytebuf) - read_position(&bytebuf);
            if header.length as usize > behind_header {
                return Err(DecodeError::UnexpectedEof);
            }
            let packet = match BanchoPacket::from_header_and_bytebuf(&header, &mut bytebuf) {
                Ok(v) => v,
                Err(e) => {
                    return Err(e);
                },
            };
            proof {
                let n = parse_payload(header.id, header.length, unread.skip(7))->Ok_0.1;
                lemma_skip_skip(unread, 7, n);
                let rest = parse_stream(unread_bytes(bytebuf));
                assert(packet_views(packets@.push(packet)) =~= done + seq![packet@]);
                lemma_stream_resume_step(done, packet@, rest);
            }
            packets.push(packet);
        }
    }
}

/// What was decoded is well formed, and fewer than seven bytes are left
/// over.
proof fn lemma_decoded_well_formed(bytes: Seq<u8>, packets: Seq<BanchoPacket>, leftover: Seq<u8>)
    requires
        parse_stream(bytes) == Ok::<(Seq<PacketView>, Seq<u8>), DecodeError>(
            (packet_views(packets), leftover),
        ),
    ensures
        leftover.len() < HEADER_LEN,
        forall|i: int| 0 <= i < packets.len() ==> (#[trigger] packets[i])@.well_formed(),
{
    lemma_parsed_stream_well_formed(bytes);
    assert forall|i: int| 0 <= i < packets.len() implies (#[trigger] packets[i])@.well_formed() by {
        assert(parse_stream(bytes)->Ok_0.0[i].well_formed());
        assert(packet_views(packets)[i] == packets[i]@);
    }
}

/// Resuming with nothing done changes nothing.
proof fn lemma_stream_resume_empty(rest: Result<(Seq<PacketView>, Seq<u8>), DecodeError>)
    ensures
        stream_resume(Seq::empty(), rest) == rest,
{
    match rest {
        Ok((packets, leftover)) => {
            assert(Seq::<PacketView>::empty() + packets =~= packets);
        },
        Err(_) => {},
    }
}

/// One packet more done is one packet less to do.
proof fn lemma_stream_resume_step(
    done: Seq<PacketView>,
    packet: PacketView,
    rest: Result<(Seq<PacketView>, Seq<u8>), DecodeError>,
)
    ensures
        stream_resume(
            done,
            match rest {
                Ok((packets, leftover)) => Ok((seq![packet] + packets, leftover)),
                Err(e) => Err(e),
            },
        ) == stream_resume(done + seq![packet], rest),
{
    match rest {
        Ok((packets, leftover)) => {
            assert(done + (seq![packet] + packets) =~= (done + seq![packet]) + packets);
        },
        Err(_) => {},
    }
}

/// The header of a body is the header that its first seven bytes spell.
proof fn lemma_header_of_prefix(s: Seq<u8>, prefix: Seq<u8>)
    requires
        s.len() >= 7,
        prefix.len() == 7,
        forall|i: int| 0 <= i < 7 ==> prefix[i] == s[i],
    ensures
        parse_header(prefix) == parse_header(s),
{
    assert(prefix.skip(3)[0] == s.skip(3)[0]);
    assert(prefix.skip(3)[1] == s.skip(3)[1]);
    assert(prefix.skip(3)[2] == s.skip(3)[2]);
    assert(prefix.skip(3)[3] == s.skip(3)[3]);
}

/// Puts the packets on the wire, one after the other in their order. It
/// fails where a payload is too long for its header to say so.
pub fn encode_bancho_packets(packets: Vec<BanchoPacket>) -> (r: Result<Vec<u8>, EncodeError>)
    ensures
        match r {
            Ok(bytes) => bytes@ == stream_bytes(packet_views(packets@)) && forall|i: int|
                0 <= i < packets.len() ==> (#[trigger] packets[i])@.payload().len() <= u32::MAX,
            Err(e) => e == EncodeError::PayloadTooLarge && exists|i: int|
                0 <= i < packets.len() && (#[trigger] packets[i])@.payload().len() > u32::MAX,
        },
{
    let mut bytes: Vec<u8> = Vec::new();
    let mut i: usize = 0;
    proof {
        assert(packet_views(packets@).take(0) =~= Seq::<PacketView>::empty());
    }
    while i < packets.len()
        invariant
            i <= packets.len(),
            bytes@ == stream_bytes(packet_views(packets@).take(i as int)),
            forall|j: int| 0 <= j < i ==> (#[trigger] packets[j])@.payload().len() <= u32::MAX,
        decreases packets.len() - i,
    {
        let mut wire = match packets[i].try_to_bytes() {
            Ok(v) => v,
            Err(e) => {
                return Err(e);
            },
        };
        proof {
            let views = packet_views(packets@);
            assert(views.take(i + 1) =~= views.take(i as int).push(views[i as int]));
            lemma_stream_bytes_push(views.take(i as int), views[i as int]);
        }
        bytes.append(&mut wire);
        i += 1;
    }
    proof {
        assert(packet_views(packets@).take(i as int) =~= packet_views(packets@));
    }
    Ok(bytes)
}

/// The wire of a run with one packet more is the run's wire, then the
/// packet's.
pub proof fn lemma_stream_bytes_push(packets: Seq<PacketView>, packet: PacketView)
    ensures
        stream_bytes(packets.push(packet)) == stream_bytes(packets) + packet.wire(),
    decreases packets.len(),
{
    let pushed = packets.push(packet);
    let wire = packet.wire();
    assert(stream_bytes(pushed) == pushed[0].wire() + stream_bytes(pushed.skip(1)));
    if packets.len() == 0 {
        assert(pushed.skip(1) =~= Seq::<PacketView>::empty());
        assert(stream_bytes(pushed.skip(1)) == Seq::<u8>::empty());
        assert(stream_bytes(packets) == Seq::<u8>::empty());
        assert(wire + Seq::<u8>::empty() =~= Seq::<u8>::empty() + wire);
    } else {
        let first = packets[0].wire();
        let middle = stream_bytes(packets.skip(1));
        assert(pushed.skip(1) =~= packets.skip(1).push(packet));
        lemma_stream_bytes_push(packets.skip(1), packet);
        assert(stream_bytes(packets) == first + middle);
        assert(first + (middle + wire) =~= (first + middle) + wire);
    }
}

} // verus!
