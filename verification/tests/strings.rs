use bytebuffer::ByteBuffer;
use bytebuffer::Endian;
use osus_proxy::bancho::OsuMessage;
use osus_proxy::bancho::OsuReader;
use osus_proxy::bancho::OsuWriter;
use osus_proxy::error::DecodeError;

fn reader(bytes: &[u8]) -> ByteBuffer {
    let mut buf = ByteBuffer::from_bytes(bytes);
    buf.set_endian(Endian::LittleEndian);
    buf
}

fn written(value: &str) -> Vec<u8> {
    let mut buf = ByteBuffer::new();
    buf.set_endian(Endian::LittleEndian);
    buf.write_osu_string(value);
    buf.into_vec()
}

#[test]
fn empty_string_is_a_single_zero_byte() {
    assert_eq!(written(""), vec![0x00]);
}

#[test]
fn empty_string_reads_back_empty() {
    let mut buf = reader(&[0x00]);
    assert_eq!(buf.read_osu_string(), Ok(String::new()));
    assert_eq!(buf.get_rpos(), 1);
}

#[test]
fn string_is_marker_length_and_utf8() {
    assert_eq!(written("abc"), vec![0x0b, 0x03, b'a', b'b', b'c']);
}

#[test]
fn string_length_counts_bytes_not_characters() {
    assert_eq!(written("é"), vec![0x0b, 0x02, 0xc3, 0xa9]);
}

#[test]
fn long_string_has_a_two_byte_length() {
    let text = "x".repeat(200);
    let bytes = written(&text);
    assert_eq!(&bytes[..3], &[0x0b, 0xc8, 0x01]);
    assert_eq!(bytes.len(), 203);
    let mut buf = reader(&bytes);
    assert_eq!(buf.read_osu_string(), Ok(text));
    assert_eq!(buf.get_rpos(), 203);
}

#[test]
fn string_round_trip() {
    for text in ["", "a", "hello world", "日本語のテキスト", "mixed ü and 🎵"] {
        let bytes = written(text);
        let mut buf = reader(&bytes);
        assert_eq!(buf.read_osu_string(), Ok(text.to_string()));
        assert_eq!(buf.get_rpos(), bytes.len());
    }
}

#[test]
fn string_read_leaves_what_follows() {
    let mut buf = reader(&[0x0b, 0x02, b'h', b'i', 0xff, 0xee]);
    assert_eq!(buf.read_osu_string(), Ok("hi".to_string()));
    assert_eq!(buf.get_rpos(), 4);
    assert_eq!(buf.read_u8().unwrap(), 0xff);
}

#[test]
fn present_string_of_length_zero_reads_as_empty() {
    let mut buf = reader(&[0x0b, 0x00, 0x41]);
    assert_eq!(buf.read_osu_string(), Ok(String::new()));
    assert_eq!(buf.get_rpos(), 2);
}

#[test]
fn any_marker_but_0x0b_reads_as_empty() {
    let mut buf = reader(&[0x07, 0x03, b'a', b'b', b'c']);
    assert_eq!(buf.read_osu_string(), Ok(String::new()));
    assert_eq!(buf.get_rpos(), 1);
}

#[test]
fn string_read_of_nothing_is_eof() {
    let mut buf = reader(&[]);
    assert_eq!(buf.read_osu_string(), Err(DecodeError::UnexpectedEof));
}

#[test]
fn string_without_length_is_eof() {
    let mut buf = reader(&[0x0b]);
    assert_eq!(buf.read_osu_string(), Err(DecodeError::UnexpectedEof));
}

#[test]
fn string_shorter_than_its_length_is_eof() {
    let mut buf = reader(&[0x0b, 0x05, b'a', b'b']);
    assert_eq!(buf.read_osu_string(), Err(DecodeError::UnexpectedEof));
}

#[test]
fn string_with_a_huge_length_is_eof() {
    let mut buf = reader(&[0x0b, 0xff, 0xff, 0xff, 0xff, 0xff, 0xff, 0xff, 0xff, 0xff, 0x01, b'a']);
    assert_eq!(buf.read_osu_string(), Err(DecodeError::UnexpectedEof));
}

#[test]
fn string_with_an_overflowing_length_is_an_overflow() {
    let mut buf = reader(&[0x0b, 0xff, 0xff, 0xff, 0xff, 0xff, 0xff, 0xff, 0xff, 0xff, 0x7f, b'a']);
    assert_eq!(buf.read_osu_string(), Err(DecodeError::VarintOverflow));
}

#[test]
fn string_of_invalid_utf8_is_rejected() {
    let mut buf = reader(&[0x0b, 0x02, 0xc3, 0x28]);
    assert_eq!(buf.read_osu_string(), Err(DecodeError::InvalidUtf8));
}

#[test]
fn string_of_a_lone_continuation_byte_is_rejected() {
    let mut buf = reader(&[0x0b, 0x01, 0x80]);
    assert_eq!(buf.read_osu_string(), Err(DecodeError::InvalidUtf8));
}

fn sample_message() -> OsuMessage {
    OsuMessage {
        sender: "peppy".to_string(),
        text: "hello".to_string(),
        recipient: "#osu".to_string(),
        sender_id: 2,
    }
}

#[test]
fn message_is_three_strings_and_the_sender_id() {
    let mut buf = ByteBuffer::new();
    buf.set_endian(Endian::LittleEndian);
    buf.write_osu_message(&sample_message());
    let mut expected = vec![0x0b, 5];
    expected.extend_from_slice(b"peppy");
    expected.extend_from_slice(&[0x0b, 5]);
    expected.extend_from_slice(b"hello");
    expected.extend_from_slice(&[0x0b, 4]);
    expected.extend_from_slice(b"#osu");
    expected.extend_from_slice(&[2, 0, 0, 0]);
    assert_eq!(buf.into_vec(), expected);
}

#[test]
fn message_round_trip() {
    let mut buf = ByteBuffer::new();
    buf.set_endian(Endian::LittleEndian);
    buf.write_osu_message(&sample_message());
    let bytes = buf.into_vec();
    let mut buf = reader(&bytes);
    assert_eq!(buf.read_osu_message(), Ok(sample_message()));
    assert_eq!(buf.get_rpos(), bytes.len());
}

#[test]
fn message_with_a_negative_sender_id_round_trips() {
    let message = OsuMessage {
        sender: String::new(),
        text: String::new(),
        recipient: String::new(),
        sender_id: -2,
    };
    let mut buf = ByteBuffer::new();
    buf.set_endian(Endian::LittleEndian);
    buf.write_osu_message(&message);
    let bytes = buf.into_vec();
    assert_eq!(bytes, vec![0, 0, 0, 0xfe, 0xff, 0xff, 0xff]);
    let mut buf = reader(&bytes);
    assert_eq!(buf.read_osu_message(), Ok(message));
}

#[test]
fn message_cut_short_in_the_sender_id_is_eof() {
    let mut buf = reader(&[0, 0, 0, 1, 2]);
    assert_eq!(buf.read_osu_message(), Err(DecodeError::UnexpectedEof));
}

#[test]
fn message_fails_with_the_error_of_its_first_bad_field() {
    let mut buf = reader(&[0x00, 0x0b, 0x01, 0xff, 0x0b]);
    assert_eq!(buf.read_osu_message(), Err(DecodeError::InvalidUtf8));
}
