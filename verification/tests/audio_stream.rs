use openless::asr::{TARGET_AUDIO_CHUNK_BYTES, TENCENT_TARGET_AUDIO_CHUNK_BYTES};
use openless::audio_stream::{StreamAudio, TencentStreamAudio};

#[test]
fn audio_before_the_session_starts_is_held_then_sent_in_order() {
    let mut audio = StreamAudio::new(4);
    assert!(audio.consume_pcm_chunk(&[1, 2, 3]).is_empty());
    assert!(audio.consume_pcm_chunk(&[4, 5, 6]).is_empty());
    assert_eq!(audio.bytes_received(), 6);
    assert!(!audio.session_started());

    let chunks = audio.mark_session_started();
    assert!(audio.session_started());
    assert_eq!(chunks, vec![vec![1, 2, 3, 4]]);
    assert_eq!(audio.held_len(), 2);

    let chunks = audio.consume_pcm_chunk(&[7, 8, 9, 10, 11, 12, 13]);
    assert_eq!(chunks, vec![vec![5, 6, 7, 8], vec![9, 10, 11, 12]]);
    assert_eq!(audio.bytes_received(), 13);

    assert_eq!(audio.take_last_frame(), vec![13]);
    assert!(audio.finishing());
    assert_eq!(audio.held_len(), 0);
    assert_eq!(audio.take_last_frame(), Vec::<u8>::new());
}

#[test]
fn the_last_frame_before_a_start_carries_everything_held() {
    let mut audio = StreamAudio::new(TARGET_AUDIO_CHUNK_BYTES);
    audio.consume_pcm_chunk(&vec![9u8; 5_000]);
    assert_eq!(audio.take_last_frame().len(), 5_000);
}

#[test]
fn empty_input_and_cancel_change_no_counters() {
    let mut audio = StreamAudio::new(2);
    audio.mark_session_started();
    assert!(audio.consume_pcm_chunk(&[]).is_empty());
    assert_eq!(audio.bytes_received(), 0);
    audio.consume_pcm_chunk(&[1]);
    audio.cancel();
    assert_eq!(audio.held_len(), 0);
    assert_eq!(audio.bytes_received(), 1);
    assert!(audio.session_started());
}

#[test]
fn tencent_takes_audio_only_while_running() {
    let mut audio = TencentStreamAudio::new(3);
    assert!(audio.consume_pcm_chunk(&[1, 2, 3, 4]).is_empty());
    assert_eq!(audio.held_len(), 0);

    audio.mark_started();
    assert_eq!(audio.consume_pcm_chunk(&[1, 2, 3, 4]), vec![vec![1, 2, 3]]);
    assert_eq!(audio.bytes_sent(), 3);
    assert_eq!(audio.consume_pcm_chunk(&[5]), Vec::<Vec<u8>>::new());
    assert_eq!(audio.flush_pending_audio(), Some(vec![4, 5]));
    assert_eq!(audio.bytes_sent(), 5);
    assert_eq!(audio.flush_pending_audio(), None);

    audio.mark_finished();
    assert!(audio.consume_pcm_chunk(&[6, 7, 8]).is_empty());
    assert_eq!(audio.bytes_sent(), 5);
    audio.mark_started();
    assert!(audio.consume_pcm_chunk(&[6, 7, 8]).is_empty());
}

#[test]
fn tencent_sends_full_chunks_of_the_target_size() {
    let mut audio = TencentStreamAudio::new(TENCENT_TARGET_AUDIO_CHUNK_BYTES);
    audio.mark_started();
    let chunks = audio.consume_pcm_chunk(&vec![0u8; 2 * TENCENT_TARGET_AUDIO_CHUNK_BYTES + 10]);
    assert_eq!(chunks.len(), 2);
    assert!(chunks.iter().all(|c| c.len() == TENCENT_TARGET_AUDIO_CHUNK_BYTES));
    assert_eq!(audio.held_len(), 10);
    audio.cancel();
    assert_eq!(audio.held_len(), 0);
    assert_eq!(audio.bytes_sent(), 2 * TENCENT_TARGET_AUDIO_CHUNK_BYTES as u64);
}
