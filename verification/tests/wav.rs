use openless::wav::{decode_wav_to_pcm_i16, encode_wav_16k_mono};

#[test]
fn wav_header_matches_16k_mono_pcm() {
    let samples = [1i16, i16::MAX, i16::MIN, -2i16];
    let wav = encode_wav_16k_mono(&samples);

    assert_eq!(&wav[0..4], b"RIFF");
    assert_eq!(u32::from_le_bytes(wav[4..8].try_into().unwrap()), 44);
    assert_eq!(&wav[8..12], b"WAVE");
    assert_eq!(&wav[12..16], b"fmt ");
    assert_eq!(u32::from_le_bytes(wav[16..20].try_into().unwrap()), 16);
    assert_eq!(u16::from_le_bytes(wav[20..22].try_into().unwrap()), 1);
    assert_eq!(u16::from_le_bytes(wav[22..24].try_into().unwrap()), 1);
    assert_eq!(u32::from_le_bytes(wav[24..28].try_into().unwrap()), 16_000);
    assert_eq!(u32::from_le_bytes(wav[28..32].try_into().unwrap()), 32_000);
    assert_eq!(u16::from_le_bytes(wav[32..34].try_into().unwrap()), 2);
    assert_eq!(u16::from_le_bytes(wav[34..36].try_into().unwrap()), 16);
    assert_eq!(&wav[36..40], b"data");
    assert_eq!(u32::from_le_bytes(wav[40..44].try_into().unwrap()), 8);
    assert_eq!(
        &wav[44..],
        &[0x01, 0x00, 0xff, 0x7f, 0x00, 0x80, 0xfe, 0xff]
    );
}

#[test]
fn encoded_wav_decodes_to_the_same_samples() {
    let samples = [1i16, i16::MAX, i16::MIN, -2i16, 0, 300];
    let wav = encode_wav_16k_mono(&samples);
    assert_eq!(decode_wav_to_pcm_i16(&wav).unwrap(), samples.to_vec());
    assert_eq!(decode_wav_to_pcm_i16(&encode_wav_16k_mono(&[])).unwrap(), Vec::<i16>::new());
}

#[test]
fn short_and_foreign_files_are_rejected() {
    assert_eq!(
        decode_wav_to_pcm_i16(&[0u8; 10]),
        Err("wav too short for valid header".to_string())
    );
    let mut wav = encode_wav_16k_mono(&[1, 2]);
    wav[0] = b'X';
    assert_eq!(decode_wav_to_pcm_i16(&wav), Err("not a valid RIFF WAV file".to_string()));
    let mut wav = encode_wav_16k_mono(&[1, 2]);
    wav[12] = b'X';
    assert_eq!(decode_wav_to_pcm_i16(&wav), Err("missing fmt chunk".to_string()));
}

#[test]
fn non_pcm_and_stereo_files_report_their_layout() {
    let mut wav = encode_wav_16k_mono(&[1, 2]);
    wav[20] = 3;
    assert_eq!(
        decode_wav_to_pcm_i16(&wav),
        Err("unsupported audio format 3 (expected PCM=1)".to_string())
    );
    let mut wav = encode_wav_16k_mono(&[1, 2]);
    wav[22] = 2;
    assert_eq!(
        decode_wav_to_pcm_i16(&wav),
        Err("expected mono 16-bit PCM, got 2ch 16-bit".to_string())
    );
}

#[test]
fn extra_chunks_before_data_are_skipped_and_odd_sizes_padded() {
    let mut wav = encode_wav_16k_mono(&[7, -7]);
    let data = wav.split_off(36);
    // A LIST chunk of 3 bytes, padded to 4.
    wav.extend_from_slice(b"LIST");
    wav.extend_from_slice(&3u32.to_le_bytes());
    wav.extend_from_slice(&[1, 2, 3, 0]);
    wav.extend_from_slice(&data);
    assert_eq!(decode_wav_to_pcm_i16(&wav).unwrap(), vec![7, -7]);
}

#[test]
fn missing_data_chunk_is_reported() {
    let mut wav = encode_wav_16k_mono(&[7, -7]);
    wav[36] = b'x';
    assert_eq!(decode_wav_to_pcm_i16(&wav), Err("no data chunk found in WAV".to_string()));
}

#[test]
fn truncated_data_keeps_the_complete_samples() {
    let mut wav = encode_wav_16k_mono(&[5, 6, 7]);
    wav.truncate(44 + 5);
    assert_eq!(decode_wav_to_pcm_i16(&wav).unwrap(), vec![5, 6]);
}

fn with_rate(rate: u32) -> Vec<u8> {
    let mut wav = encode_wav_16k_mono(&[3, -3]);
    wav[24..28].copy_from_slice(&rate.to_le_bytes());
    wav
}

#[test]
fn unsupported_sample_rates_are_refused() {
    assert_eq!(
        decode_wav_to_pcm_i16(&with_rate(22_050)),
        Err("unsupported sample rate 22050 Hz (expected 8000, 16000, 44100 or 48000)".to_string())
    );
    for rate in [8_000, 16_000, 44_100, 48_000] {
        assert_eq!(decode_wav_to_pcm_i16(&with_rate(rate)).unwrap(), vec![3, -3]);
    }
}
