use cauldron::audio::{ChannelLayout, Channels};
use cauldron::bits::BitStream;
use cauldron::bytes::ByteReader;
use cauldron::codecs::{codec_to_str, CodecType};
use cauldron::errors::{parse_error, unsupported_error, Error};
use cauldron::flac::frame::read_utf8_coded_int;

#[test]
fn test_byte_reader_values() {
    let data = vec![0x01, 0x02, 0x03, 0x04, 0x05, 0x06, 0x80, 0xff, 0xfe];
    let mut r = ByteReader::new(data).unwrap();
    assert_eq!(r.read_le_u16().unwrap(), 0x0201);
    assert_eq!(r.read_be_u16().unwrap(), 0x0304);
    assert_eq!(r.read_le_u16().unwrap(), 0x0605);
    assert_eq!(r.read_u8().unwrap(), 0x80);
    assert_eq!(r.read_le_i16().unwrap(), -257);
    assert!(matches!(r.read_u8(), Err(Error::IoError(_))));
}

#[test]
fn test_byte_reader_i24() {
    let mut r = ByteReader::new(vec![0xff, 0xff, 0xff, 0x00, 0x00, 0x80]).unwrap();
    assert_eq!(r.read_le_i24().unwrap(), -1);
    assert_eq!(r.read_le_i24().unwrap(), -8_388_608);
}

#[test]
fn test_bit_stream_values() {
    // 0b1011_0001 0b1100_0000
    let mut r = ByteReader::new(vec![0xb1, 0xc0]).unwrap();
    let mut bs = BitStream::new();
    assert!(bs.read_bit(&mut r).unwrap());
    assert!(!bs.read_bit(&mut r).unwrap());
    assert_eq!(bs.read_len_u8(&mut r, 3).unwrap(), 0b110);
    assert_eq!(bs.read_len_u8(&mut r, 5).unwrap(), 0b00111);
    assert!(!bs.is_aligned());
    assert_eq!(bs.read_len_u32(&mut r, 6).unwrap(), 0);
    assert!(bs.is_aligned());
}

#[test]
fn test_bit_stream_unary() {
    // 0b0000_0100: five zeros then the terminating one.
    let mut r = ByteReader::new(vec![0x04, 0x80]).unwrap();
    let mut bs = BitStream::new();
    assert_eq!(bs.read_unary(&mut r).unwrap(), 5);
    // Two more zeros close the first byte, then the next byte's one.
    assert_eq!(bs.read_unary(&mut r).unwrap(), 2);
}

#[test]
fn test_utf8_coded_int() {
    let mut r = ByteReader::new(vec![0x7f]).unwrap();
    assert_eq!(read_utf8_coded_int(&mut r).unwrap(), 0x7f);

    let mut r = ByteReader::new(vec![0xc2, 0xa4]).unwrap();
    assert_eq!(read_utf8_coded_int(&mut r).unwrap(), 0xa4);

    let mut r = ByteReader::new(vec![0xe2, 0x82, 0xac]).unwrap();
    assert_eq!(read_utf8_coded_int(&mut r).unwrap(), 0x20ac);

    // A lone continuation byte is invalid.
    let mut r = ByteReader::new(vec![0x80]).unwrap();
    assert!(matches!(
        read_utf8_coded_int(&mut r),
        Err(Error::ParseError(_))
    ));
}

#[test]
fn test_error_builders() {
    let p: Result<(), Error> = parse_error("bad");
    assert!(matches!(p, Err(Error::ParseError("bad"))));
    let u: Result<(), Error> = unsupported_error("no");
    assert!(matches!(u, Err(Error::Unsupported("no"))));
}

#[test]
fn test_codec_to_str() {
    assert_eq!(codec_to_str(&CodecType::CODEC_TYPE_PCM_S16LE), "pcm_s16le");
    assert_eq!(codec_to_str(&CodecType::CODEC_TYPE_FLAC), "flac");
    assert_eq!(codec_to_str(&CodecType::CODEC_TYPE_NULL), "unknown");
}

#[test]
fn test_channels_count() {
    assert_eq!(Channels { bits: 0x3f }.count(), 6);
    assert_eq!(Channels { bits: 0 }.count(), 0);
    let five_one = ChannelLayout::FivePointOne.into_channels();
    assert_eq!(five_one.count(), 6);
    let seven_one = ChannelLayout::SevenPointOne.into_channels();
    assert_eq!(seven_one.count(), 8);
}
