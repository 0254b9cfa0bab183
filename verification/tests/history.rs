use openless::history::{
    apply_retranscription, archived_pcm, is_valid_session_id, AsrCallLabel, DictationSession,
    InsertStatus, PolishMode,
};

fn failed_entry() -> DictationSession {
    DictationSession {
        id: "s1".into(),
        created_at: "2026-07-15T00:00:00Z".into(),
        raw_transcript: String::new(),
        final_text: String::new(),
        mode: PolishMode::Light,
        style_pack_id: None,
        translation_active: false,
        polish_source: None,
        app_bundle_id: None,
        app_name: None,
        insert_status: InsertStatus::Failed,
        error_code: Some("transcribeFailed".into()),
        duration_ms: Some(3200),
        dictionary_entry_count: None,
        has_audio_recording: Some(true),
        asr_provider: Some("volcengine".into()),
        asr_model: Some("volc.seedasr.sauc.duration".into()),
        llm_provider: Some("ark".into()),
        llm_model: Some("deepseek-v3-2".into()),
        asr_ms: Some(15000),
        polish_ms: Some(1200),
    }
}

#[test]
fn retranscription_overwrites_asr_attribution_and_clears_polish_fields() {
    let mut entry = failed_entry();
    let label = AsrCallLabel {
        provider: "bailian-qwen3-realtime".into(),
        model: Some("qwen3-asr-flash-realtime".into()),
    };
    apply_retranscription(&mut entry, "重转出来的文本".into(), &label, 480);

    assert_eq!(entry.raw_transcript, "重转出来的文本");
    assert_eq!(entry.final_text, "重转出来的文本");
    assert_eq!(entry.error_code, None, "重转成功应清除失败标记");
    assert_eq!(entry.asr_provider.as_deref(), Some("bailian-qwen3-realtime"));
    assert_eq!(entry.asr_model.as_deref(), Some("qwen3-asr-flash-realtime"));
    assert_eq!(entry.asr_ms, Some(480));
    assert_eq!(entry.llm_provider, None);
    assert_eq!(entry.llm_model, None);
    assert_eq!(entry.polish_ms, None);
    assert_eq!(entry.insert_status, InsertStatus::Failed);
    assert_eq!(entry.duration_ms, Some(3200));
    assert_eq!(entry.has_audio_recording, Some(true));
}

#[test]
fn session_ids_must_be_uuid_shaped() {
    assert!(is_valid_session_id("0f8fad5b-d9cb-469f-a165-70867728950e"));
    assert!(is_valid_session_id("0F8FAD5B-D9CB-469F-A165-70867728950E"));
    assert!(!is_valid_session_id("../../etc/passwd"));
    assert!(!is_valid_session_id("0f8fad5b-d9cb-469f-a165-70867728950"));
    assert!(!is_valid_session_id("0f8fad5bxd9cb-469f-a165-70867728950e"));
    assert!(!is_valid_session_id("0f8fad5b-d9cb-469f-a165-70867728950g"));
    assert!(!is_valid_session_id(""));
}

#[test]
fn archived_recordings_need_pcm_after_the_header() {
    assert_eq!(
        archived_pcm(&[0u8; 44]),
        Err("recording is empty or corrupt".to_string())
    );
    let mut wav = vec![9u8; 44];
    wav.extend_from_slice(&[1, 2, 3]);
    assert_eq!(archived_pcm(&wav), Ok(vec![1, 2, 3]));
}
