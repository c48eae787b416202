use cauldron::audio::AudioSegment;
use cauldron::codecs::{CodecType, FormatFlag};
use cauldron::errors::Error;

fn le16(v: u16) -> [u8; 2] {
    [(v & 0xff) as u8, (v >> 8) as u8]
}

fn le32(v: u32) -> [u8; 4] {
    [
        (v & 0xff) as u8,
        ((v >> 8) & 0xff) as u8,
        ((v >> 16) & 0xff) as u8,
        ((v >> 24) & 0xff) as u8,
    ]
}

/// Builds a plain PCM WAV file around the given data chunk payload.
fn build_pcm_wav(channels: u16, sample_rate: u32, bits: u16, data: &[u8]) -> Vec<u8> {
    let block_align = bits / 8 * channels;
    let bytes_per_sec = sample_rate * block_align as u32;
    let mut f: Vec<u8> = Vec::new();
    f.extend_from_slice(b"RIFF");
    f.extend_from_slice(&le32(36 + data.len() as u32));
    f.extend_from_slice(b"WAVE");
    f.extend_from_slice(b"fmt ");
    f.extend_from_slice(&le32(16));
    f.extend_from_slice(&le16(0x0001));
    f.extend_from_slice(&le16(channels));
    f.extend_from_slice(&le32(sample_rate));
    f.extend_from_slice(&le32(bytes_per_sec));
    f.extend_from_slice(&le16(block_align));
    f.extend_from_slice(&le16(bits));
    f.extend_from_slice(b"data");
    f.extend_from_slice(&le32(data.len() as u32));
    f.extend_from_slice(data);
    f
}

fn collect_i16(seg: &mut AudioSegment) -> Vec<i16> {
    let mut it = seg.samples::<i16>().unwrap();
    let mut out = Vec::new();
    while let Some(r) = it.next() {
        out.push(r.unwrap());
    }
    out
}

#[test]
fn test_wav_s16le_mono() {
    // 0.1 s of mono 16-bit 44_100 Hz audio: five interesting samples
    // padded with zeros to 4410 samples.
    let mut samples: Vec<i16> = vec![0, 16_384, -16_384, 32_767, -32_768];
    samples.resize(4410, 0);
    let mut data: Vec<u8> = Vec::new();
    for s in &samples {
        data.extend_from_slice(&(*s as u16).to_le_bytes());
    }
    let file = build_pcm_wav(1, 44_100, 16, &data);
    let mut seg = AudioSegment::read_with_format(file, FormatFlag::WAV).unwrap();
    {
        let info = seg.info();
        assert_eq!(info.codec_type, CodecType::CODEC_TYPE_PCM_S16LE);
        assert_eq!(info.sample_rate, 44_100);
        assert_eq!(info.total_samples, 4410);
        assert_eq!(info.bits_per_sample, 16);
        assert_eq!(info.channels.count(), 1);
    }
    assert_eq!(seg.number_channels(), 1);
    assert_eq!(seg.bitrate(), 44 * 16);
    let decoded = collect_i16(&mut seg);
    assert_eq!(decoded.len(), 4410);
    assert_eq!(&decoded[..5], &[0, 16_384, -16_384, 32_767, -32_768]);
    assert!(decoded[5..].iter().all(|&v| v == 0));
}

#[test]
fn test_wav_u8_stereo() {
    // Stereo 8-bit PCM, 2 samples per channel.
    let file = build_pcm_wav(2, 44_100, 8, &[0x00, 0xff, 0x80, 0x80]);
    let mut seg = AudioSegment::read_with_format(file.clone(), FormatFlag::WAV).unwrap();
    let mut it = seg.samples::<u8>().unwrap();
    let mut out: Vec<u8> = Vec::new();
    while let Some(r) = it.next() {
        out.push(r.unwrap());
    }
    assert_eq!(out, vec![0, 255, 128, 128]);

    // The same file widened into i16 targets.
    let mut seg2 = AudioSegment::read_with_format(file, FormatFlag::WAV).unwrap();
    assert_eq!(collect_i16(&mut seg2), vec![0, 255, 128, 128]);
}

#[test]
fn test_wav_extensible_5_1() {
    // WAVEFORMATEXTENSIBLE with the PCM sub-format GUID, a 5.1 channel
    // mask and 24 valid bits.
    let channels: u16 = 6;
    let bits: u16 = 24;
    let sample_rate: u32 = 48_000;
    let block_align = bits / 8 * channels;
    let bytes_per_sec = sample_rate * block_align as u32;
    let mut f: Vec<u8> = Vec::new();
    f.extend_from_slice(b"RIFF");
    f.extend_from_slice(&le32(60));
    f.extend_from_slice(b"WAVE");
    f.extend_from_slice(b"fmt ");
    f.extend_from_slice(&le32(40));
    f.extend_from_slice(&le16(0xfffe));
    f.extend_from_slice(&le16(channels));
    f.extend_from_slice(&le32(sample_rate));
    f.extend_from_slice(&le32(bytes_per_sec));
    f.extend_from_slice(&le16(block_align));
    f.extend_from_slice(&le16(bits));
    f.extend_from_slice(&le16(22));
    f.extend_from_slice(&le16(24));
    f.extend_from_slice(&le32(0x3f));
    f.extend_from_slice(&[
        0x01, 0x00, 0x00, 0x00, 0x00, 0x00, 0x10, 0x00, 0x80, 0x00, 0x00, 0xaa, 0x00, 0x38, 0x9b,
        0x71,
    ]);
    f.extend_from_slice(b"data");
    f.extend_from_slice(&le32(0));
    let seg = AudioSegment::read_with_format(f, FormatFlag::WAV).unwrap();
    let info = seg.info();
    assert_eq!(info.codec_type, CodecType::CODEC_TYPE_PCM_S24LE);
    assert_eq!(info.bits_per_sample, 24);
    assert_eq!(info.channels.count(), 6);
    assert!(matches!(
        info.channel_layout,
        cauldron::audio::ChannelLayout::FivePointOne
    ));
}

#[test]
fn test_wav_samples_twice_unsupported() {
    let file = build_pcm_wav(1, 8_000, 16, &[0x01, 0x00]);
    let mut seg = AudioSegment::read_with_format(file, FormatFlag::WAV).unwrap();
    let first = seg.samples::<i16>();
    assert!(first.is_ok());
    let second = seg.samples::<i16>();
    assert!(matches!(second, Err(Error::Unsupported(_))));
}

#[test]
fn test_wav_inconsistent_fmt_rejected() {
    // A wrong bytes-per-second field must be rejected.
    let mut file = build_pcm_wav(1, 44_100, 16, &[0, 0]);
    // bytes_per_sec starts at offset 28; corrupt it.
    file[28] = file[28].wrapping_add(1);
    let r = AudioSegment::read_with_format(file, FormatFlag::WAV);
    assert!(matches!(r, Err(Error::ParseError(_))));
}

#[test]
fn test_wav_bad_magic_rejected() {
    let mut file = build_pcm_wav(1, 44_100, 16, &[0, 0]);
    file[0] = b'X';
    let r = AudioSegment::read_with_format(file, FormatFlag::WAV);
    assert!(matches!(r, Err(Error::ParseError(_))));
}

#[test]
fn test_wav_truncated_data_io_error() {
    // The data chunk claims four samples but holds two: the iterator
    // must surface an end-of-stream error.
    let mut file = build_pcm_wav(1, 8_000, 16, &[0x01, 0x00, 0x02, 0x00]);
    let len = file.len();
    file.truncate(len - 4);
    // Patch the data length back up so total_samples stays 2... instead
    // rebuild with a lying data length.
    let mut f = build_pcm_wav(1, 8_000, 16, &[0x01, 0x00]);
    let dlen_at = f.len() - 2 - 4;
    f[dlen_at..dlen_at + 4].copy_from_slice(&le32(8));
    let mut seg = AudioSegment::read_with_format(f, FormatFlag::WAV).unwrap();
    let mut it = seg.samples::<i16>().unwrap();
    assert_eq!(it.next().unwrap().unwrap(), 1);
    assert!(matches!(it.next(), Some(Err(Error::IoError(_)))));
    let _ = file;
}

#[test]
fn test_format_flag_from_extension() {
    assert!(matches!(
        AudioSegment::get_format_flag("x/y/sound.wav"),
        Ok(FormatFlag::WAV)
    ));
    assert!(matches!(
        AudioSegment::get_format_flag("a.flac"),
        Ok(FormatFlag::FLAC)
    ));
    assert!(matches!(
        AudioSegment::get_format_flag("a.mp3"),
        Ok(FormatFlag::MP3)
    ));
    assert!(matches!(
        AudioSegment::get_format_flag("a.ogg"),
        Ok(FormatFlag::VORBIS)
    ));
    assert!(matches!(
        AudioSegment::get_format_flag("a.raw"),
        Ok(FormatFlag::PCM)
    ));
    assert!(matches!(
        AudioSegment::get_format_flag("a.pcm"),
        Ok(FormatFlag::PCM)
    ));
    assert!(matches!(
        AudioSegment::get_format_flag("a.aac"),
        Ok(FormatFlag::AAC)
    ));
    assert!(matches!(
        AudioSegment::get_format_flag("archive.tar.gz"),
        Err(Error::Unsupported(_))
    ));
    assert!(matches!(
        AudioSegment::get_format_flag("wav"),
        Ok(FormatFlag::WAV)
    ));
}

#[test]
fn test_read_dispatches_on_name() {
    let file = build_pcm_wav(1, 8_000, 16, &[0x2a, 0x00]);
    let mut seg = AudioSegment::read("take.wav", file).unwrap();
    assert_eq!(collect_i16(&mut seg), vec![42]);
}

#[test]
fn test_unsupported_format_flag() {
    let r = AudioSegment::read_with_format(vec![0u8; 4], FormatFlag::PCM);
    assert!(matches!(r, Err(Error::Unsupported(_))));
}
