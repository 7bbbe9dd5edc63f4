use bytebuffer::ByteBuffer;
use bytebuffer::Endian;
use osus_proxy::bancho::OsuReader;
use osus_proxy::bancho::OsuWriter;
use osus_proxy::error::DecodeError;

fn reader(bytes: &[u8]) -> ByteBuffer {
    let mut buf = ByteBuffer::from_bytes(bytes);
    buf.set_endian(Endian::LittleEndian);
    buf
}

fn writer() -> ByteBuffer {
    let mut buf = ByteBuffer::new();
    buf.set_endian(Endian::LittleEndian);
    buf
}

fn encode(value: u64) -> Vec<u8> {
    let mut buf = writer();
    buf.write_uleb128(value);
    buf.into_vec()
}

#[test]
fn uleb128_zero_is_one_zero_byte() {
    assert_eq!(encode(0), vec![0x00]);
}

#[test]
fn uleb128_largest_single_byte() {
    assert_eq!(encode(127), vec![0x7f]);
}

#[test]
fn uleb128_smallest_two_bytes() {
    assert_eq!(encode(128), vec![0x80, 0x01]);
}

#[test]
fn uleb128_known_value() {
    assert_eq!(encode(624485), vec![0xe5, 0x8e, 0x26]);
}

#[test]
fn uleb128_max_is_ten_bytes() {
    assert_eq!(
        encode(u64::MAX),
        vec![0xff, 0xff, 0xff, 0xff, 0xff, 0xff, 0xff, 0xff, 0xff, 0x01]
    );
}

#[test]
fn uleb128_round_trip_on_edge_values() {
    for value in [0u64, 1, 127, 128, 129, 16383, 16384, 1 << 32, (1 << 63) - 1, 1 << 63, u64::MAX] {
        let bytes = encode(value);
        let mut buf = reader(&bytes);
        assert_eq!(buf.read_uleb128(), Ok(value));
        assert_eq!(buf.get_rpos(), bytes.len());
    }
}

#[test]
fn uleb128_read_stops_behind_the_integer() {
    let mut buf = reader(&[0xe5, 0x8e, 0x26, 0xaa, 0xbb]);
    assert_eq!(buf.read_uleb128(), Ok(624485));
    assert_eq!(buf.get_rpos(), 3);
}

#[test]
fn uleb128_read_of_nothing_is_eof() {
    let mut buf = reader(&[]);
    assert_eq!(buf.read_uleb128(), Err(DecodeError::UnexpectedEof));
}

#[test]
fn uleb128_read_cut_short_is_eof() {
    let mut buf = reader(&[0x80, 0x80]);
    assert_eq!(buf.read_uleb128(), Err(DecodeError::UnexpectedEof));
}

#[test]
fn uleb128_tenth_byte_above_one_overflows() {
    let mut buf = reader(&[0xff, 0xff, 0xff, 0xff, 0xff, 0xff, 0xff, 0xff, 0xff, 0x02]);
    assert_eq!(buf.read_uleb128(), Err(DecodeError::VarintOverflow));
}

#[test]
fn uleb128_tenth_byte_with_continuation_overflows() {
    let mut buf = reader(&[0x80, 0x80, 0x80, 0x80, 0x80, 0x80, 0x80, 0x80, 0x80, 0x80, 0x00]);
    assert_eq!(buf.read_uleb128(), Err(DecodeError::VarintOverflow));
}

#[test]
fn uleb128_non_minimal_encoding_is_read() {
    let mut buf = reader(&[0x80, 0x00]);
    assert_eq!(buf.read_uleb128(), Ok(0));
    assert_eq!(buf.get_rpos(), 2);
}
