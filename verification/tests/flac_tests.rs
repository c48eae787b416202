use cauldron::audio::AudioSegment;
use cauldron::codecs::{CodecType, FormatFlag};
use cauldron::errors::Error;

fn crc8(data: &[u8]) -> u8 {
    let mut c: u8 = 0;
    for &b in data {
        c ^= b;
        for _ in 0..8 {
            c = if c & 0x80 != 0 { (c << 1) ^ 0x07 } else { c << 1 };
        }
    }
    c
}

fn crc16(data: &[u8]) -> u16 {
    let mut c: u16 = 0;
    for &b in data {
        c ^= (b as u16) << 8;
        for _ in 0..8 {
            c = if c & 0x8000 != 0 { (c << 1) ^ 0x8005 } else { c << 1 };
        }
    }
    c
}

struct BitWriter {
    bytes: Vec<u8>,
    cur: u8,
    nbits: u32,
}

impl BitWriter {
    fn new() -> BitWriter {
        BitWriter { bytes: Vec::new(), cur: 0, nbits: 0 }
    }

    fn push_bit(&mut self, bit: bool) {
        self.cur = (self.cur << 1) | bit as u8;
        self.nbits += 1;
        if self.nbits == 8 {
            self.bytes.push(self.cur);
            self.cur = 0;
            self.nbits = 0;
        }
    }

    fn push_bits(&mut self, value: u64, n: u32) {
        for i in (0..n).rev() {
            self.push_bit((value >> i) & 1 == 1);
        }
    }

    fn align(&mut self) {
        while self.nbits != 0 {
            self.push_bit(false);
        }
    }

    fn into_bytes(mut self) -> Vec<u8> {
        self.align();
        self.bytes
    }
}

/// The mandatory 34-byte stream-info block.
fn streaminfo(sample_rate: u32, channels: u8, bps: u8, total_frames: u64) -> Vec<u8> {
    let mut b: Vec<u8> = Vec::new();
    b.extend_from_slice(&16u16.to_be_bytes());
    b.extend_from_slice(&4096u16.to_be_bytes());
    b.extend_from_slice(&[0, 0, 0]);
    b.extend_from_slice(&[0, 0, 0]);
    b.extend_from_slice(&((sample_rate >> 4) as u16).to_be_bytes());
    b.push((((sample_rate & 0xf) as u8) << 4) | ((channels - 1) << 1) | ((bps - 1) >> 4));
    b.push((((bps - 1) & 0xf) << 4) | ((total_frames >> 32) & 0xf) as u8);
    b.extend_from_slice(&((total_frames & 0xffff_ffff) as u32).to_be_bytes());
    b.extend_from_slice(&[0u8; 16]);
    b
}

fn flac_file(sample_rate: u32, channels: u8, bps: u8, total_frames: u64, frames: &[u8]) -> Vec<u8> {
    let mut f: Vec<u8> = Vec::new();
    f.extend_from_slice(b"fLaC");
    f.extend_from_slice(&[0x80, 0, 0, 34]);
    f.extend_from_slice(&streaminfo(sample_rate, channels, bps, total_frames));
    f.extend_from_slice(frames);
    f
}

/// A mono frame holding one constant subframe of the given value.
fn constant_frame(value: u16) -> Vec<u8> {
    // Sync + fixed strategy; block size code 12 (4096); rate code 9
    // (44100); mono; 16 bits per sample; frame number 0.
    let header: Vec<u8> = vec![0xff, 0xf8, 0xc9, 0x08, 0x00];
    let mut frame = header.clone();
    frame.push(crc8(&header));
    let mut w = BitWriter::new();
    w.push_bits(0, 1); // padding
    w.push_bits(0, 6); // constant subframe
    w.push_bits(0, 1); // no wasted bits
    w.push_bits(value as u64, 16);
    frame.extend_from_slice(&w.into_bytes());
    let c = crc16(&frame);
    frame.extend_from_slice(&c.to_be_bytes());
    frame
}

/// A mono 4-sample frame with a fixed order-1 subframe: warm-up 100,
/// Rice-coded residuals 5, -5, 5.
fn fixed_order1_frame() -> Vec<u8> {
    // Block size code 6: an 8-bit value follows the frame number.
    let header: Vec<u8> = vec![0xff, 0xf8, 0x69, 0x08, 0x00, 0x03];
    let mut frame = header.clone();
    frame.push(crc8(&header));
    let mut w = BitWriter::new();
    w.push_bits(0, 1); // padding
    w.push_bits(0b001001, 6); // fixed predictor, order 1
    w.push_bits(0, 1); // no wasted bits
    w.push_bits(100, 16); // warm-up sample
    w.push_bits(0b00, 2); // 4-bit Rice parameters
    w.push_bits(0, 4); // partition order 0
    w.push_bits(4, 4); // Rice parameter 4
    for &residual in [5i32, -5, 5].iter() {
        let zigzag: u32 = if residual >= 0 {
            (residual as u32) << 1
        } else {
            ((-residual as u32) << 1) - 1
        };
        let q = zigzag >> 4;
        let r = zigzag & 0xf;
        for _ in 0..q {
            w.push_bit(false);
        }
        w.push_bit(true);
        w.push_bits(r as u64, 4);
    }
    frame.extend_from_slice(&w.into_bytes());
    let c = crc16(&frame);
    frame.extend_from_slice(&c.to_be_bytes());
    frame
}

fn collect_i32(file: Vec<u8>) -> Vec<Result<i32, Error>> {
    let mut seg = AudioSegment::read_with_format(file, FormatFlag::FLAC).unwrap();
    let mut it = seg.samples::<i32>().unwrap();
    let mut out = Vec::new();
    while let Some(r) = it.next() {
        out.push(r);
    }
    out
}

#[test]
fn test_flac_header_info() {
    let file = flac_file(44_100, 1, 16, 4096, &constant_frame(0xffff));
    let seg = AudioSegment::read_with_format(file, FormatFlag::FLAC).unwrap();
    let info = seg.info();
    assert_eq!(info.codec_type, CodecType::CODEC_TYPE_FLAC);
    assert_eq!(info.sample_rate, 44_100);
    assert_eq!(info.bits_per_sample, 16);
    assert_eq!(info.total_samples, 4096);
    assert_eq!(info.channels.count(), 1);
}

#[test]
fn test_flac_constant_subframe() {
    // One constant-subframe frame: 4096 copies of -1.
    let file = flac_file(44_100, 1, 16, 4096, &constant_frame(0xffff));
    let decoded = collect_i32(file);
    assert_eq!(decoded.len(), 4096);
    assert!(decoded.iter().all(|r| *r.as_ref().unwrap() == -1));
}

#[test]
fn test_flac_fixed_order1_frame() {
    let file = flac_file(44_100, 1, 16, 4, &fixed_order1_frame());
    let decoded: Vec<i32> = collect_i32(file).into_iter().map(|r| r.unwrap()).collect();
    assert_eq!(decoded, vec![100, 105, 100, 105]);
}

#[test]
fn test_flac_truncated_frame_yields_one_error() {
    // Truncating mid-residual surfaces one end-of-stream error and then
    // the iterator stays exhausted.
    let mut frame = fixed_order1_frame();
    frame.truncate(9);
    let file = flac_file(44_100, 1, 16, 4, &frame);
    let mut seg = AudioSegment::read_with_format(file, FormatFlag::FLAC).unwrap();
    let mut it = seg.samples::<i32>().unwrap();
    assert!(matches!(it.next(), Some(Err(Error::IoError(_)))));
    assert!(it.next().is_none());
    assert!(it.next().is_none());
}

#[test]
fn test_flac_frame_crc16_mismatch() {
    let mut frame = constant_frame(0xffff);
    let n = frame.len();
    frame[n - 1] ^= 0x01;
    let file = flac_file(44_100, 1, 16, 4096, &frame);
    let mut seg = AudioSegment::read_with_format(file, FormatFlag::FLAC).unwrap();
    let mut it = seg.samples::<i32>().unwrap();
    assert!(matches!(
        it.next(),
        Some(Err(Error::ParseError("frame CRC mismatch")))
    ));
    assert!(it.next().is_none());
}

#[test]
fn test_flac_header_crc8_mismatch() {
    let mut frame = constant_frame(0xffff);
    frame[5] ^= 0x01; // the header's trailing CRC-8 byte
    let file = flac_file(44_100, 1, 16, 4096, &frame);
    let mut seg = AudioSegment::read_with_format(file, FormatFlag::FLAC).unwrap();
    let mut it = seg.samples::<i32>().unwrap();
    assert!(matches!(
        it.next(),
        Some(Err(Error::ParseError("CRC match failed, Invalid frame")))
    ));
}

#[test]
fn test_flac_two_frames_and_end() {
    let mut frames = constant_frame(0x0001);
    frames.extend_from_slice(&constant_frame(0x0002));
    let file = flac_file(44_100, 1, 16, 8192, &frames);
    let decoded: Vec<i32> = collect_i32(file).into_iter().map(|r| r.unwrap()).collect();
    assert_eq!(decoded.len(), 8192);
    assert!(decoded[..4096].iter().all(|&v| v == 1));
    assert!(decoded[4096..].iter().all(|&v| v == 2));
}

#[test]
fn test_flac_bad_magic() {
    let file = vec![b'f', b'L', b'a', b'X', 0, 0, 0, 0];
    let r = AudioSegment::read_with_format(file, FormatFlag::FLAC);
    assert!(matches!(r, Err(Error::ParseError(_))));
}

/// A mono 4-sample frame with a verbatim subframe.
fn verbatim_frame(values: [i32; 4]) -> Vec<u8> {
    let header: Vec<u8> = vec![0xff, 0xf8, 0x69, 0x08, 0x00, 0x03];
    let mut frame = header.clone();
    frame.push(crc8(&header));
    let mut w = BitWriter::new();
    w.push_bits(0, 1);
    w.push_bits(0b000001, 6); // verbatim subframe
    w.push_bits(0, 1);
    for &v in values.iter() {
        w.push_bits((v as u16) as u64, 16);
    }
    frame.extend_from_slice(&w.into_bytes());
    let c = crc16(&frame);
    frame.extend_from_slice(&c.to_be_bytes());
    frame
}

#[test]
fn test_flac_verbatim_subframe() {
    let file = flac_file(44_100, 1, 16, 4, &verbatim_frame([1, -2, 3, -4]));
    let decoded: Vec<i32> = collect_i32(file).into_iter().map(|r| r.unwrap()).collect();
    assert_eq!(decoded, vec![1, -2, 3, -4]);
}

#[test]
fn test_flac_escaped_partition() {
    // A fixed order-0 subframe whose single partition escapes Rice
    // coding: each residual is a plain 8-bit two's complement value.
    let header: Vec<u8> = vec![0xff, 0xf8, 0x69, 0x08, 0x00, 0x03];
    let mut frame = header.clone();
    frame.push(crc8(&header));
    let mut w = BitWriter::new();
    w.push_bits(0, 1);
    w.push_bits(0b001000, 6); // fixed predictor, order 0
    w.push_bits(0, 1);
    w.push_bits(0b00, 2); // 4-bit Rice parameters
    w.push_bits(0, 4); // partition order 0
    w.push_bits(0xf, 4); // escape
    w.push_bits(8, 5); // 8 bits per residual
    for &v in [0x01u8, 0xff, 0x7f, 0x80].iter() {
        w.push_bits(v as u64, 8);
    }
    frame.extend_from_slice(&w.into_bytes());
    let c = crc16(&frame);
    frame.extend_from_slice(&c.to_be_bytes());
    let file = flac_file(44_100, 1, 16, 4, &frame);
    let decoded: Vec<i32> = collect_i32(file).into_iter().map(|r| r.unwrap()).collect();
    assert_eq!(decoded, vec![1, -1, 127, -128]);
}

#[test]
fn test_flac_mid_side_stereo_frame() {
    // A stereo mid-side frame of two constant subframes; the side
    // channel carries one extra bit.  L = 10, R = 4 gives mid 7 and
    // side 6.
    let header: Vec<u8> = vec![0xff, 0xf8, 0x69, 0xa8, 0x00, 0x03];
    let mut frame = header.clone();
    frame.push(crc8(&header));
    let mut w = BitWriter::new();
    w.push_bits(0, 1);
    w.push_bits(0, 6); // constant mid subframe
    w.push_bits(0, 1);
    w.push_bits(7, 16);
    w.push_bits(0, 1);
    w.push_bits(0, 6); // constant side subframe
    w.push_bits(0, 1);
    w.push_bits(6, 17);
    frame.extend_from_slice(&w.into_bytes());
    let c = crc16(&frame);
    frame.extend_from_slice(&c.to_be_bytes());
    let file = flac_file(44_100, 2, 16, 4, &frame);
    let decoded: Vec<i32> = collect_i32(file).into_iter().map(|r| r.unwrap()).collect();
    // Channel-interleaved: L R L R ...
    assert_eq!(decoded, vec![10, 4, 10, 4, 10, 4, 10, 4]);
}

#[test]
fn test_flac_samples_into_i16() {
    // A 16-bit stream narrows losslessly into i16 targets.
    let file = flac_file(44_100, 1, 16, 4, &fixed_order1_frame());
    let mut seg = AudioSegment::read_with_format(file, FormatFlag::FLAC).unwrap();
    let mut it = seg.samples::<i16>().unwrap();
    let mut out: Vec<i16> = Vec::new();
    while let Some(r) = it.next() {
        out.push(r.unwrap());
    }
    assert_eq!(out, vec![100, 105, 100, 105]);
}
