use osus_proxy::bancho::decode_bancho_packets;
use osus_proxy::bancho::encode_bancho_packets;
use osus_proxy::bancho::BanchoPacket;
use osus_proxy::bancho::OsuMessage;
use osus_proxy::bancho::UserAction;
use osus_proxy::error::DecodeError;

fn batch() -> Vec<BanchoPacket> {
    vec![
        BanchoPacket::UserId(42),
        BanchoPacket::Privilege { privileges_bitfield: 1 },
        BanchoPacket::Other { id: 75, data: vec![19, 0, 0, 0] },
        BanchoPacket::SendMessage(OsuMessage {
            sender: "BanchoBot".to_string(),
            text: "Welcome back!".to_string(),
            recipient: "peppy".to_string(),
            sender_id: 3,
        }),
        BanchoPacket::ChangeAction {
            action: UserAction::Idle,
            info_text: String::new(),
            map_md5: String::new(),
            mods: 0,
            mode: 0,
            map_id: 0,
        },
        BanchoPacket::UserPresence {
            user_id: 42,
            name: "peppy".to_string(),
            utc_offset: 32,
            country_code: 16,
            bancho_privileges: 5,
            longitude: 115.86f32.to_bits(),
            latitude: (-31.95f32).to_bits(),
            global_rank: 1,
        },
        BanchoPacket::Other { id: 4, data: vec![] },
    ]
}

#[test]
fn empty_body_holds_no_packets() {
    assert_eq!(decode_bancho_packets(&[]), Ok((vec![], vec![])));
}

#[test]
fn no_packets_make_an_empty_body() {
    assert_eq!(encode_bancho_packets(vec![]), Ok(vec![]));
}

#[test]
fn one_packet_body() {
    let bytes = [5, 0, 0, 4, 0, 0, 0, 42, 0, 0, 0];
    assert_eq!(decode_bancho_packets(&bytes), Ok((vec![BanchoPacket::UserId(42)], vec![])));
}

#[test]
fn packets_are_encoded_in_their_order() {
    let bytes = encode_bancho_packets(vec![
        BanchoPacket::UserId(1),
        BanchoPacket::Other { id: 9, data: vec![7] },
        BanchoPacket::UserId(2),
    ])
    .unwrap();
    assert_eq!(
        bytes,
        vec![
            5, 0, 0, 4, 0, 0, 0, 1, 0, 0, 0, 9, 0, 0, 1, 0, 0, 0, 7, 5, 0, 0, 4, 0, 0, 0, 2, 0, 0,
            0
        ]
    );
}

#[test]
fn stream_round_trip_keeps_packets_and_order() {
    let bytes = encode_bancho_packets(batch()).unwrap();
    assert_eq!(decode_bancho_packets(&bytes), Ok((batch(), vec![])));
}

#[test]
fn stream_round_trip_of_bytes() {
    let bytes = encode_bancho_packets(batch()).unwrap();
    let (packets, leftover) = decode_bancho_packets(&bytes).unwrap();
    assert!(leftover.is_empty());
    assert_eq!(encode_bancho_packets(packets), Ok(bytes));
}

#[test]
fn trailing_bytes_short_of_a_header_are_left_over() {
    let whole = encode_bancho_packets(batch()).unwrap();
    for extra in 1..=6usize {
        let tail: Vec<u8> = (0..extra as u8).map(|i| 0xa0 + i).collect();
        let mut bytes = whole.clone();
        bytes.extend_from_slice(&tail);
        assert_eq!(decode_bancho_packets(&bytes), Ok((batch(), tail)));
    }
}

#[test]
fn body_cut_inside_a_header_keeps_the_packets_before() {
    let first = encode_bancho_packets(vec![BanchoPacket::UserId(42)]).unwrap();
    let second = encode_bancho_packets(vec![BanchoPacket::UserId(43)]).unwrap();
    for kept in 1..=6usize {
        let mut bytes = first.clone();
        bytes.extend_from_slice(&second[..kept]);
        assert_eq!(
            decode_bancho_packets(&bytes),
            Ok((vec![BanchoPacket::UserId(42)], second[..kept].to_vec()))
        );
    }
}

#[test]
fn body_of_fewer_than_seven_bytes_is_all_left_over() {
    assert_eq!(decode_bancho_packets(&[1, 2, 3]), Ok((vec![], vec![1, 2, 3])));
}

#[test]
fn header_without_its_payload_fails_the_body() {
    let bytes = [5, 0, 0, 4, 0, 0, 0];
    assert_eq!(decode_bancho_packets(&bytes), Err(DecodeError::UnexpectedEof));
}

#[test]
fn declared_length_past_the_end_fails_the_body() {
    let mut bytes = encode_bancho_packets(vec![BanchoPacket::UserId(42)]).unwrap();
    bytes.extend_from_slice(&[200, 0, 0, 10, 0, 0, 0, 1, 2, 3]);
    assert_eq!(decode_bancho_packets(&bytes), Err(DecodeError::UnexpectedEof));
}

#[test]
fn payload_cut_short_fails_the_body() {
    let bytes = encode_bancho_packets(batch()).unwrap();
    let cut = &bytes[..bytes.len() - 8];
    assert_eq!(decode_bancho_packets(cut), Err(DecodeError::UnexpectedEof));
}

#[test]
fn bad_utf8_fails_the_body() {
    let bytes = [1, 0, 0, 9, 0, 0, 0, 0x0b, 2, 0xc3, 0x28, 0, 0, 1, 0, 0, 0];
    assert_eq!(decode_bancho_packets(&bytes), Err(DecodeError::InvalidUtf8));
}

#[test]
fn overflowing_string_length_fails_the_body() {
    let bytes = [
        7, 0, 0, 11, 0, 0, 0, 0x0b, 0x80, 0x80, 0x80, 0x80, 0x80, 0x80, 0x80, 0x80, 0x80, 0x02,
    ];
    assert_eq!(decode_bancho_packets(&bytes), Err(DecodeError::VarintOverflow));
}

#[test]
fn unknown_packets_pass_byte_for_byte() {
    let bytes = vec![0x4b, 0, 0x07, 3, 0, 0, 0, 1, 2, 3];
    let (packets, leftover) = decode_bancho_packets(&bytes).unwrap();
    assert_eq!(packets, vec![BanchoPacket::Other { id: 75, data: vec![1, 2, 3] }]);
    assert!(leftover.is_empty());
    let again = encode_bancho_packets(packets).unwrap();
    assert_eq!(again, vec![0x4b, 0, 0, 3, 0, 0, 0, 1, 2, 3]);
}

#[test]
fn known_packet_with_a_length_past_the_end_fails_the_body() {
    let bytes = [5, 0, 0, 99, 0, 0, 0, 42, 0, 0, 0];
    assert_eq!(decode_bancho_packets(&bytes), Err(DecodeError::UnexpectedEof));
}

#[test]
fn user_id_declaring_a_hundred_bytes_over_four_fails_the_body() {
    let bytes = [0x05, 0x00, 0x00, 0x64, 0x00, 0x00, 0x00, 0x2a, 0x00, 0x00, 0x00];
    assert!(decode_bancho_packets(&bytes).is_err());
    assert_eq!(decode_bancho_packets(&bytes), Err(DecodeError::UnexpectedEof));
}

#[test]
fn every_kind_with_a_length_past_the_end_fails_the_body() {
    for id in [0u8, 1, 5, 7, 25, 71, 83, 4, 75] {
        let mut bytes = encode_bancho_packets(batch()).unwrap();
        bytes.extend_from_slice(&[id, 0, 0, 40, 0, 0, 0]);
        bytes.extend_from_slice(&[0; 39]);
        assert_eq!(decode_bancho_packets(&bytes), Err(DecodeError::UnexpectedEof));
    }
}

#[test]
fn length_past_the_end_by_one_byte_fails_the_body() {
    let bytes = [5, 0, 0, 5, 0, 0, 0, 42, 0, 0, 0];
    assert_eq!(decode_bancho_packets(&bytes), Err(DecodeError::UnexpectedEof));
}

#[test]
fn length_that_ends_with_the_body_is_accepted() {
    let bytes = [5, 0, 0, 4, 0, 0, 0, 42, 0, 0, 0];
    assert_eq!(decode_bancho_packets(&bytes), Ok((vec![BanchoPacket::UserId(42)], vec![])));
}

#[test]
fn known_packet_with_a_short_length_is_framed_anew() {
    let bytes = [5, 0, 0, 2, 0, 0, 0, 42, 0, 0, 0];
    let (packets, leftover) = decode_bancho_packets(&bytes).unwrap();
    assert_eq!(packets, vec![BanchoPacket::UserId(42)]);
    assert!(leftover.is_empty());
    assert_eq!(encode_bancho_packets(packets), Ok(vec![5, 0, 0, 4, 0, 0, 0, 42, 0, 0, 0]));
}

#[test]
fn known_packet_takes_what_its_fields_take() {
    let bytes = [5, 0, 0, 6, 0, 0, 0, 42, 0, 0, 0, 9, 9];
    assert_eq!(decode_bancho_packets(&bytes), Ok((vec![BanchoPacket::UserId(42)], vec![9, 9])));
}
