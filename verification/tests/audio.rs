use sipcord_bridge::audio::flac::flac_to_mono;
use sipcord_bridge::audio::flac::parse_flac;
use sipcord_bridge::audio::flac::FlacStream;
use sipcord_bridge::audio::simd::accumulate_i16_to_i32;
use sipcord_bridge::audio::simd::clamp_i32_to_i16;
use sipcord_bridge::audio::simd::max_abs_i16;
use sipcord_bridge::audio::simd::stereo_to_mono_i16;
use sipcord_bridge::audio::simd::widen_i16_to_i32;
use sipcord_bridge::audio::wav::parse_wav;
use sipcord_bridge::audio::wav::read_wav;
use sipcord_bridge::audio::AudioParseError;

// Sample buffers

#[test]
fn test_max_abs_i16_basic() {
    let samples = [1, -5, 3, -2, 4, -10, 7, -8, 100];
    assert_eq!(max_abs_i16(&samples), 100);
}

#[test]
fn test_max_abs_i16_negative_max() {
    let samples = [1, -500, 3, -2];
    assert_eq!(max_abs_i16(&samples), 500);
}

#[test]
fn test_max_abs_i16_empty() {
    let samples: [i16; 0] = [];
    assert_eq!(max_abs_i16(&samples), 0);
}

#[test]
fn test_max_abs_i16_aligned() {
    // Exactly 8 samples (one SIMD vector)
    let samples = [100, -200, 300, -400, 500, -600, 700, -800];
    assert_eq!(max_abs_i16(&samples), 800);
}

#[test]
fn test_widen_i16_to_i32() {
    let src: Vec<i16> = (0..20).map(|i| (i * 100 - 1000) as i16).collect();
    let mut dst = vec![0i32; 20];
    widen_i16_to_i32(&src, &mut dst);
    for i in 0..20 {
        assert_eq!(dst[i], src[i] as i32, "mismatch at index {}", i);
    }
}

#[test]
fn test_accumulate_i16_to_i32() {
    let src = [100i16, -200, 300, -400, 500, -600, 700, -800, 900];
    let mut dst = [1i32, 2, 3, 4, 5, 6, 7, 8, 9];
    accumulate_i16_to_i32(&src, &mut dst);
    assert_eq!(dst, [101, -198, 303, -396, 505, -594, 707, -792, 909]);
}

#[test]
fn test_clamp_i32_to_i16() {
    let src = [0i32, 32767, -32768, 40000, -40000, 100, -100, 0, 12345];
    let mut dst = [0i16; 9];
    clamp_i32_to_i16(&src, &mut dst);
    assert_eq!(dst, [0, 32767, -32768, 32767, -32768, 100, -100, 0, 12345]);
}

#[test]
fn test_stereo_to_mono() {
    // 20 stereo samples -> 10 mono
    let stereo: Vec<i16> = (0..20).map(|i| (i * 100) as i16).collect();
    let mut mono = vec![0i16; 10];
    stereo_to_mono_i16(&stereo, &mut mono);
    for i in 0..10 {
        let l = stereo[i * 2] as i32;
        let r = stereo[i * 2 + 1] as i32;
        let expected = ((l + r) / 2) as i16;
        // Allow +-1 for rounding differences between SIMD and scalar
        assert!(
            (mono[i] as i32 - expected as i32).abs() <= 1,
            "mismatch at {}: got {} expected {}",
            i,
            mono[i],
            expected
        );
    }
}

#[test]
fn max_abs_holds_the_lowest_sample_at_the_highest() {
    assert_eq!(max_abs_i16(&[i16::MIN]), i16::MAX);
    assert_eq!(max_abs_i16(&[0, 5, i16::MIN, 7, -7, 3, 2, 1]), i16::MAX);
    assert_eq!(max_abs_i16(&[i16::MIN; 20]), i16::MAX);
    assert_eq!(max_abs_i16(&[0, 0, 0]), 0);
}

#[test]
fn mixing_works_on_the_common_prefix() {
    let mut dst = [7i32; 4];
    widen_i16_to_i32(&[1, -2], &mut dst);
    assert_eq!(dst, [1, -2, 7, 7]);
    accumulate_i16_to_i32(&[10, 10, 10, 10, 10, 10], &mut dst);
    assert_eq!(dst, [11, 8, 17, 17]);
    let mut out = [3i16; 6];
    clamp_i32_to_i16(&dst, &mut out);
    assert_eq!(out, [11, 8, 17, 17, 3, 3]);
}

#[test]
fn accumulating_wraps_at_the_ends_of_the_range() {
    let mut dst = [i32::MAX, i32::MIN];
    accumulate_i16_to_i32(&[1, -1], &mut dst);
    assert_eq!(dst, [i32::MIN, i32::MAX]);
}

#[test]
fn lone_speaker_passes_the_mixer_unchanged() {
    let speaker: Vec<i16> = (0..19).map(|i| (i * 3449 - 32768) as i16).collect();
    let mut mix = vec![99i32; 19];
    let mut out = vec![0i16; 19];
    widen_i16_to_i32(&speaker, &mut mix);
    clamp_i32_to_i16(&mix, &mut out);
    assert_eq!(out, speaker);
}

#[test]
fn speakers_mix_in_any_order() {
    let a: Vec<i16> = (0..11).map(|i| 30000 - i * 777).collect();
    let b: Vec<i16> = (0..11).map(|i| 20000 + i * 1001).collect();
    let mut first = vec![0i32; 11];
    let mut second = vec![0i32; 11];
    widen_i16_to_i32(&a, &mut first);
    accumulate_i16_to_i32(&b, &mut first);
    widen_i16_to_i32(&b, &mut second);
    accumulate_i16_to_i32(&a, &mut second);
    assert_eq!(first, second);
    assert_eq!(first[0], 50000);
    let mut out = vec![0i16; 11];
    clamp_i32_to_i16(&first, &mut out);
    assert!(out.iter().all(|&s| s == i16::MAX));
}

#[test]
fn stereo_frames_are_averaged_toward_zero() {
    let stereo: Vec<i16> = vec![1i16; 18];
    let mut mono = vec![0i16; 9];
    stereo_to_mono_i16(&stereo, &mut mono);
    assert_eq!(mono, vec![1; 9]);

    let stereo: Vec<i16> = vec![-1i16; 18];
    stereo_to_mono_i16(&stereo, &mut mono);
    assert_eq!(mono, vec![-1; 9]);

    let mut mono = [0i16; 8];
    stereo_to_mono_i16(
        &[
            -3, 0, 32767, 32767, 3, 0, -32768, -32768, 1, 2, -1, -2, 32767, -32768, 1000, 3000, 5,
        ],
        &mut mono,
    );
    assert_eq!(mono, [-1, 32767, 1, -32768, 1, -1, 0, 2000]);
}

#[test]
fn mono_keeps_what_has_no_frame() {
    let mut mono = [9i16; 4];
    stereo_to_mono_i16(&[2, 4, 6], &mut mono);
    assert_eq!(mono, [3, 9, 9, 9]);
}

// WAV

#[test]
fn test_parse_simple_wav() {
    // Minimal valid WAV with 4 samples of silence
    let wav = [
        // RIFF header
        b'R', b'I', b'F', b'F', // "RIFF"
        0x2C, 0x00, 0x00, 0x00, // File size - 8 = 44
        b'W', b'A', b'V', b'E', // "WAVE"
        // fmt chunk
        b'f', b'm', b't', b' ', // "fmt "
        0x10, 0x00, 0x00, 0x00, // Chunk size = 16
        0x01, 0x00, // Audio format = 1 (PCM)
        0x01, 0x00, // Num channels = 1 (mono)
        0x80, 0x3E, 0x00, 0x00, // Sample rate = 16000
        0x00, 0x7D, 0x00, 0x00, // Byte rate = 32000
        0x02, 0x00, // Block align = 2
        0x10, 0x00, // Bits per sample = 16
        // data chunk
        b'd', b'a', b't', b'a', // "data"
        0x08, 0x00, 0x00, 0x00, // Chunk size = 8 bytes = 4 samples
        0x00, 0x00, // Sample 0 = 0
        0x00, 0x10, // Sample 1 = 4096
        0x00, 0x20, // Sample 2 = 8192
        0x00, 0x30, // Sample 3 = 12288
    ];

    let (samples, rate) = parse_wav(&wav).unwrap();
    assert_eq!(rate, 16000);
    assert_eq!(samples.len(), 4);
    assert_eq!(samples[0], 0);
    assert_eq!(samples[1], 4096);
    assert_eq!(samples[2], 8192);
    assert_eq!(samples[3], 12288);
}

#[test]
fn test_parse_wav_too_short() {
    let result = parse_wav(&[0u8; 4]);
    assert!(result.is_err());
    assert!(result.unwrap_err().to_string().contains("too short"));
}

#[test]
fn test_parse_wav_wrong_magic() {
    let mut data = [0u8; 44];
    data[0..4].copy_from_slice(b"NOPE");
    let result = parse_wav(&data);
    assert!(result.is_err());
    assert!(result.unwrap_err().to_string().contains("RIFF"));
}

#[test]
fn test_parse_stereo_wav() {
    // Stereo WAV: 2 stereo sample frames = 4 raw samples -> 2 mono samples
    let wav = [
        // RIFF header
        b'R', b'I', b'F', b'F', 0x2C, 0x00, 0x00, 0x00, // File size - 8
        b'W', b'A', b'V', b'E', // fmt chunk
        b'f', b'm', b't', b' ', 0x10, 0x00, 0x00, 0x00, // Chunk size = 16
        0x01, 0x00, // PCM
        0x02, 0x00, // 2 channels (stereo)
        0x80, 0x3E, 0x00, 0x00, // 16000 Hz
        0x00, 0xFA, 0x00, 0x00, // Byte rate = 64000
        0x04, 0x00, // Block align = 4
        0x10, 0x00, // 16 bits
        // data chunk
        b'd', b'a', b't', b'a', 0x08, 0x00, 0x00, 0x00, // 8 bytes = 2 stereo frames
        // Frame 1: L=1000, R=3000 -> mono = 2000
        0xE8, 0x03, // 1000 LE
        0xB8, 0x0B, // 3000 LE
        // Frame 2: L=-100, R=100 -> mono = 0
        0x9C, 0xFF, // -100 LE
        0x64, 0x00, // 100 LE
    ];

    let (samples, rate) = parse_wav(&wav).unwrap();
    assert_eq!(rate, 16000);
    assert_eq!(samples.len(), 2);
    assert_eq!(samples[0], 2000);
    assert_eq!(samples[1], 0);
}

/// A RIFF header, the given chunks, each padded to an even length.
fn wav_file(chunks: &[(&[u8; 4], Vec<u8>)]) -> Vec<u8> {
    let mut file: Vec<u8> = b"RIFF\0\0\0\0WAVE".to_vec();
    for (tag, body) in chunks {
        file.extend_from_slice(*tag);
        file.extend_from_slice(&(body.len() as u32).to_le_bytes());
        file.extend_from_slice(body);
        if body.len() % 2 == 1 {
            file.push(0);
        }
    }
    file
}

fn format_body(audio_format: u16, channels: u16, rate: u32, bits: u16) -> Vec<u8> {
    let mut body = Vec::new();
    body.extend_from_slice(&audio_format.to_le_bytes());
    body.extend_from_slice(&channels.to_le_bytes());
    body.extend_from_slice(&rate.to_le_bytes());
    body.extend_from_slice(&[0; 6]);
    body.extend_from_slice(&bits.to_le_bytes());
    body
}

fn sample_body(samples: &[i16]) -> Vec<u8> {
    samples.iter().flat_map(|s| s.to_le_bytes()).collect()
}

#[test]
fn written_samples_read_back() {
    let samples = [0i16, 1, -1, i16::MAX, i16::MIN, 12345];
    for channels in [0u16, 1, 3] {
        let file = wav_file(&[
            (b"fmt ", format_body(1, channels, 22050, 16)),
            (b"data", sample_body(&samples)),
        ]);
        let (read, rate) = parse_wav(&file).unwrap();
        assert_eq!(read, samples);
        assert_eq!(rate, 22050);
    }
}

#[test]
fn unknown_chunks_and_trailing_bytes_do_not_matter() {
    let mut file = wav_file(&[
        (b"LIST", vec![1, 2, 3]),
        (b"fmt ", format_body(1, 1, 8000, 16)),
        (b"junk", vec![]),
        (b"data", sample_body(&[5, 6])),
        (b"tail", vec![9; 5]),
    ]);
    assert_eq!(parse_wav(&file).unwrap(), (vec![5, 6], 8000));
    file.extend_from_slice(b"dataXYZ");
    assert_eq!(parse_wav(&file).unwrap(), (vec![5, 6], 8000));
}

#[test]
fn odd_chunks_may_be_padded_with_any_byte() {
    let file = wav_file(&[
        (b"LIST", vec![1, 2, 3]),
        (b"fmt ", format_body(1, 1, 8000, 16)),
        (b"data", sample_body(&[5, 6])),
    ]);
    // The pad byte stands behind the header, the tag, the size and the body.
    for pad in [0u8, 1, 0x66, 0xFF] {
        let mut padded = file.clone();
        padded[12 + 8 + 3] = pad;
        assert_eq!(parse_wav(&padded).unwrap(), (vec![5, 6], 8000));
    }
}

#[test]
fn odd_stereo_sample_stands_alone() {
    let file = wav_file(&[
        (b"fmt ", format_body(1, 2, 8000, 16)),
        (b"data", sample_body(&[-3, 0, 7])),
    ]);
    assert_eq!(parse_wav(&file).unwrap(), (vec![-1, 7], 8000));
}

#[test]
fn wav_errors_name_their_kind() {
    let wrong_form = {
        let mut file = wav_file(&[]);
        file[8] = b'X';
        file
    };
    assert!(matches!(parse_wav(&wrong_form), Err(AudioParseError::Malformed(_))));
    assert!(matches!(parse_wav(&wav_file(&[])), Err(AudioParseError::Malformed(_))));
    assert!(parse_wav(&wav_file(&[]))
        .unwrap_err()
        .to_string()
        .contains("No fmt chunk found"));
    let data_first = wav_file(&[(b"data", vec![0, 0])]);
    assert!(matches!(parse_wav(&data_first), Err(AudioParseError::Malformed(_))));
    let no_data = wav_file(&[(b"fmt ", format_body(3, 1, 8000, 16))]);
    assert_eq!(parse_wav(&no_data).unwrap(), (vec![], 8000));
    let float = wav_file(&[
        (b"fmt ", format_body(3, 1, 8000, 16)),
        (b"data", vec![0, 0]),
    ]);
    assert!(matches!(parse_wav(&float), Err(AudioParseError::Unsupported(_))));
    let short_format = wav_file(&[(b"fmt ", vec![0; 14])]);
    assert!(matches!(parse_wav(&short_format), Err(AudioParseError::Malformed(_))));
    let narrow = wav_file(&[
        (b"fmt ", format_body(1, 1, 8000, 8)),
        (b"data", vec![0, 0]),
    ]);
    assert!(matches!(parse_wav(&narrow), Err(AudioParseError::Unsupported(_))));
}

#[test]
fn a_format_chunk_cut_short_is_told_apart() {
    let mut file = wav_file(&[(b"fmt ", format_body(1, 1, 8000, 16))]);
    assert!(read_wav(&file).is_some());
    file.truncate(30);
    assert!(read_wav(&file).is_none());
}

#[test]
fn a_format_chunk_cut_short_is_malformed() {
    let whole = wav_file(&[
        (b"LIST", vec![1, 2, 3]),
        (b"fmt ", format_body(1, 1, 8000, 16)),
    ]);
    assert!(parse_wav(&whole).is_ok());
    for missing in 1..=16 {
        let cut = &whole[..whole.len() - missing];
        match parse_wav(cut) {
            Err(AudioParseError::Malformed(reason)) => assert_eq!(reason, "fmt chunk cut short"),
            other => panic!("{other:?}"),
        }
    }
    let bare = b"RIFF\0\0\0\0WAVEfmt \x10\0\0\0";
    assert!(parse_wav(bare).is_err());
}

// FLAC

/// One frame of 16 samples, mono, 16 bits, 16000 Hz.
fn flac_mono_16() -> Vec<u8> {
    vec![
        0x66, 0x4C, 0x61, 0x43, 0x80, 0x00, 0x00, 0x22, 0x00, 0x10, 0x00, 0x10,
        0x00, 0x00, 0x00, 0x00, 0x00, 0x00, 0x03, 0xE8, 0x00, 0xF0, 0x00, 0x00,
        0x00, 0x10, 0x00, 0x00, 0x00, 0x00, 0x00, 0x00, 0x00, 0x00, 0x00, 0x00,
        0x00, 0x00, 0x00, 0x00, 0x00, 0x00, 0xFF, 0xF8, 0x60, 0x08, 0x00, 0x0F,
        0x96, 0x02, 0xE0, 0xC0, 0xE4, 0xA8, 0xE8, 0x90, 0xEC, 0x78, 0xF0, 0x60,
        0xF4, 0x48, 0xF8, 0x30, 0xFC, 0x18, 0x00, 0x00, 0x03, 0xE8, 0x07, 0xD0,
        0x0B, 0xB8, 0x0F, 0xA0, 0x13, 0x88, 0x17, 0x70, 0x1B, 0x58, 0x08, 0x31,
    ]
}

/// One frame of 16 samples, stereo, 16 bits, 48000 Hz.
fn flac_stereo_16() -> Vec<u8> {
    vec![
        0x66, 0x4C, 0x61, 0x43, 0x80, 0x00, 0x00, 0x22, 0x00, 0x10, 0x00, 0x10,
        0x00, 0x00, 0x00, 0x00, 0x00, 0x00, 0x0B, 0xB8, 0x02, 0xF0, 0x00, 0x00,
        0x00, 0x10, 0x00, 0x00, 0x00, 0x00, 0x00, 0x00, 0x00, 0x00, 0x00, 0x00,
        0x00, 0x00, 0x00, 0x00, 0x00, 0x00, 0xFF, 0xF8, 0x60, 0x18, 0x00, 0x0F,
        0x34, 0x02, 0x00, 0x00, 0x00, 0x64, 0x00, 0xC8, 0x01, 0x2C, 0x01, 0x90,
        0x01, 0xF4, 0x02, 0x58, 0x02, 0xBC, 0x03, 0x20, 0x03, 0x84, 0x03, 0xE8,
        0x04, 0x4C, 0x04, 0xB0, 0x05, 0x14, 0x05, 0x78, 0x05, 0xDC, 0x02, 0x00,
        0x01, 0xFF, 0x9F, 0xFF, 0x3D, 0xFE, 0xDB, 0xFE, 0x79, 0xFE, 0x17, 0xFD,
        0xB5, 0xFD, 0x53, 0xFC, 0xF1, 0xFC, 0x8F, 0xFC, 0x2D, 0xFB, 0xCB, 0xFB,
        0x69, 0xFB, 0x07, 0xFA, 0xA5, 0xFA, 0x43, 0xD4, 0x93,
    ]
}

/// One frame of 16 samples, mono, 24 bits, 8000 Hz.
fn flac_mono_24() -> Vec<u8> {
    vec![
        0x66, 0x4C, 0x61, 0x43, 0x80, 0x00, 0x00, 0x22, 0x00, 0x10, 0x00, 0x10,
        0x00, 0x00, 0x00, 0x00, 0x00, 0x00, 0x01, 0xF4, 0x01, 0x70, 0x00, 0x00,
        0x00, 0x10, 0x00, 0x00, 0x00, 0x00, 0x00, 0x00, 0x00, 0x00, 0x00, 0x00,
        0x00, 0x00, 0x00, 0x00, 0x00, 0x00, 0xFF, 0xF8, 0x60, 0x0C, 0x00, 0x0F,
        0x3D, 0x02, 0x80, 0x00, 0x00, 0x7F, 0xFF, 0xFF, 0xFF, 0xFF, 0xFF, 0x00,
        0x00, 0xFF, 0x00, 0x01, 0x00, 0xFF, 0xFF, 0x00, 0xFF, 0xFE, 0xFF, 0x12,
        0x34, 0x56, 0x00, 0x00, 0x00, 0x00, 0x00, 0x00, 0x00, 0x00, 0x00, 0x00,
        0x00, 0x00, 0x00, 0x00, 0x00, 0x00, 0x00, 0x00, 0x00, 0x00, 0x00, 0x00,
        0x00, 0x00, 0x04, 0x0B,
    ]
}

/// One frame of 16 samples, mono, 8 bits, 8000 Hz.
fn flac_mono_8() -> Vec<u8> {
    vec![
        0x66, 0x4C, 0x61, 0x43, 0x80, 0x00, 0x00, 0x22, 0x00, 0x10, 0x00, 0x10,
        0x00, 0x00, 0x00, 0x00, 0x00, 0x00, 0x01, 0xF4, 0x00, 0x70, 0x00, 0x00,
        0x00, 0x10, 0x00, 0x00, 0x00, 0x00, 0x00, 0x00, 0x00, 0x00, 0x00, 0x00,
        0x00, 0x00, 0x00, 0x00, 0x00, 0x00, 0xFF, 0xF8, 0x60, 0x02, 0x00, 0x0F,
        0x11, 0x02, 0x80, 0x7F, 0x00, 0x01, 0xFF, 0x05, 0x05, 0x05, 0x05, 0x05,
        0x05, 0x05, 0x05, 0x05, 0x05, 0x05, 0x7E, 0x30,
    ]
}

/// One frame of 16 samples, mono, 12 bits, 8000 Hz.
fn flac_mono_12() -> Vec<u8> {
    vec![
        0x66, 0x4C, 0x61, 0x43, 0x80, 0x00, 0x00, 0x22, 0x00, 0x10, 0x00, 0x10,
        0x00, 0x00, 0x00, 0x00, 0x00, 0x00, 0x01, 0xF4, 0x00, 0xB0, 0x00, 0x00,
        0x00, 0x10, 0x00, 0x00, 0x00, 0x00, 0x00, 0x00, 0x00, 0x00, 0x00, 0x00,
        0x00, 0x00, 0x00, 0x00, 0x00, 0x00, 0xFF, 0xF8, 0x60, 0x04, 0x00, 0x0F,
        0x6C, 0x02, 0x00, 0x00, 0x00, 0x00, 0x00, 0x00, 0x00, 0x00, 0x00, 0x00,
        0x00, 0x00, 0x00, 0x00, 0x00, 0x00, 0x00, 0x00, 0x00, 0x00, 0x00, 0x00,
        0x00, 0x00, 0x9F, 0xEA,
    ]
}

/// One frame of 16 samples, three channels, 16 bits, 44100 Hz.
fn flac_three_channels() -> Vec<u8> {
    vec![
        0x66, 0x4C, 0x61, 0x43, 0x80, 0x00, 0x00, 0x22, 0x00, 0x10, 0x00, 0x10,
        0x00, 0x00, 0x00, 0x00, 0x00, 0x00, 0x0A, 0xC4, 0x44, 0xF0, 0x00, 0x00,
        0x00, 0x10, 0x00, 0x00, 0x00, 0x00, 0x00, 0x00, 0x00, 0x00, 0x00, 0x00,
        0x00, 0x00, 0x00, 0x00, 0x00, 0x00, 0xFF, 0xF8, 0x60, 0x28, 0x00, 0x0F,
        0xD5, 0x02, 0x00, 0x01, 0x00, 0x02, 0x00, 0x03, 0x00, 0x04, 0x00, 0x05,
        0x00, 0x06, 0x00, 0x07, 0x00, 0x08, 0x00, 0x09, 0x00, 0x0A, 0x00, 0x0B,
        0x00, 0x0C, 0x00, 0x0D, 0x00, 0x0E, 0x00, 0x0F, 0x00, 0x10, 0x02, 0x00,
        0x00, 0x00, 0x00, 0x00, 0x00, 0x00, 0x00, 0x00, 0x00, 0x00, 0x00, 0x00,
        0x00, 0x00, 0x00, 0x00, 0x00, 0x00, 0x00, 0x00, 0x00, 0x00, 0x00, 0x00,
        0x00, 0x00, 0x00, 0x00, 0x00, 0x00, 0x00, 0x02, 0x00, 0x07, 0x00, 0x07,
        0x00, 0x07, 0x00, 0x07, 0x00, 0x07, 0x00, 0x07, 0x00, 0x07, 0x00, 0x07,
        0x00, 0x07, 0x00, 0x07, 0x00, 0x07, 0x00, 0x07, 0x00, 0x07, 0x00, 0x07,
        0x00, 0x07, 0x00, 0x07, 0xA2, 0x92,
    ]
}

#[test]
fn flac_mono_comes_out_unchanged() {
    let (samples, rate) = parse_flac(&flac_mono_16()).unwrap();
    let expected: Vec<i16> = (0..16).map(|i| i * 1000 - 8000).collect();
    assert_eq!(rate, 16000);
    assert_eq!(samples, expected);
}

#[test]
fn flac_stereo_is_averaged() {
    let (samples, rate) = parse_flac(&flac_stereo_16()).unwrap();
    let expected: Vec<i16> = (0..16).map(|i| (2 * i + 1) / 2).collect();
    assert_eq!(rate, 48000);
    assert_eq!(samples, expected);
}

#[test]
fn flac_depths_are_scaled_to_sixteen_bits() {
    let (samples, _) = parse_flac(&flac_mono_24()).unwrap();
    assert_eq!(&samples[..8], &[-32768, 32767, -1, 0, 1, -1, -2, 0x1234]);
    let (samples, _) = parse_flac(&flac_mono_8()).unwrap();
    assert_eq!(&samples[..6], &[-32768, 32512, 0, 256, -256, 1280]);
}

#[test]
fn flac_of_many_channels_gives_the_first() {
    let (samples, rate) = parse_flac(&flac_three_channels()).unwrap();
    assert_eq!(rate, 44100);
    assert_eq!(samples, (1..=16).collect::<Vec<i16>>());
}

#[test]
fn flac_errors_name_their_kind() {
    let odd_depth = parse_flac(&flac_mono_12()).unwrap_err();
    assert!(matches!(odd_depth, AudioParseError::Unsupported(_)));
    assert!(odd_depth.to_string().contains("12"));
    let no_flac = parse_flac(b"no flac at all").unwrap_err();
    assert!(matches!(no_flac, AudioParseError::Flac(_)));
    assert!(no_flac.to_string().starts_with("FLAC decode error: "));
    let mut damaged = flac_mono_16();
    let last = damaged.len() - 1;
    damaged[last] ^= 1;
    assert!(matches!(parse_flac(&damaged), Err(AudioParseError::Flac(_))));
    let converted: AudioParseError = claxon::Error::Unsupported("odd").into();
    assert!(matches!(converted, AudioParseError::Flac(_)));
}

#[test]
fn streams_convert_by_depth_and_channels() {
    let mut stream = FlacStream {
        sample_rate: 8000,
        channels: 1,
        bits_per_sample: 32,
        samples: vec![i32::MIN, i32::MAX, -1, 65536],
    };
    assert_eq!(flac_to_mono(&stream).unwrap(), (vec![-32768, 32767, -1, 1], 8000));
    stream.channels = 2;
    assert_eq!(flac_to_mono(&stream).unwrap().0, vec![0, 0]);
    stream.channels = 3;
    assert_eq!(flac_to_mono(&stream).unwrap().0, vec![-32768, 1]);
    stream.bits_per_sample = 20;
    assert!(matches!(flac_to_mono(&stream), Err(AudioParseError::Unsupported(_))));
}
