use cauldron::audio::AudioSegment;
use cauldron::codecs::{CodecType, FormatFlag};
use cauldron::errors::Error;

/// A single MPEG 1 layer 3 mono frame: 128 kbps at 44100 Hz, no CRC,
/// all-zero side information and main data.
fn mp3_frame() -> Vec<u8> {
    let mut f: Vec<u8> = vec![0xff, 0xfb, 0x90, 0xc0];
    // Mono MPEG 1 side information is 17 bytes; zeros parse as two
    // granules of silent long blocks.
    f.extend_from_slice(&[0u8; 17]);
    // frame_size = 144 * 128000 / 44100 - 4 = 413; main data fills the
    // rest of the frame.
    f.extend_from_slice(&vec![0u8; 413 - 17]);
    f
}

#[test]
fn test_mp3_header_and_frame_parse() {
    let mut seg = AudioSegment::read_with_format(mp3_frame(), FormatFlag::MP3).unwrap();
    assert_eq!(seg.info().codec_type, CodecType::CODEC_TYPE_MP3);
    let mut it = seg.samples::<i16>().unwrap();
    // The frame parses, but with no synthesis filter no integer target
    // can represent the output.
    assert!(matches!(it.next(), Some(Err(Error::Unsupported(_)))));
    assert!(matches!(it.next(), Some(Err(Error::Unsupported(_)))));
}

#[test]
fn test_mp3_empty_stream_ends() {
    let mut seg = AudioSegment::read_with_format(Vec::new(), FormatFlag::MP3).unwrap();
    let mut it = seg.samples::<i16>().unwrap();
    assert!(it.next().is_none());
}

#[test]
fn test_mp3_garbage_is_skipped_until_sync() {
    // Bytes before the sync word are discarded; a stream with no sync
    // word ends cleanly.
    let mut seg =
        AudioSegment::read_with_format(vec![0x00, 0x11, 0x22, 0x33], FormatFlag::MP3).unwrap();
    let mut it = seg.samples::<i16>().unwrap();
    assert!(it.next().is_none());
}
