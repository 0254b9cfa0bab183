use openless::asr::TencentCloudASRError;
use std::collections::BTreeMap;

use openless::segments::{merge_segments, segment_texts};
use openless::streaming::{
    assemblyai_event, deepgram_event, handle_assemblyai_event, handle_deepgram_event,
    handle_tencent_event, session_duration_ms, AssemblyAIEvent, DeepgramEvent,
    StreamStep, TencentEvent, TencentResult, TencentStep, TencentTranscript,
    TurnTranscript,
};

#[test]
fn handles_begin_and_turn_events() {
    let mut t = TurnTranscript::new();
    assert_eq!(
        handle_assemblyai_event(&mut t, assemblyai_event(Some("Begin"), None, None, None)),
        StreamStep::SessionStarted
    );
    assert_eq!(
        handle_assemblyai_event(
            &mut t,
            assemblyai_event(Some("Turn"), Some("Hello"), Some(false), None)
        ),
        StreamStep::Continue
    );
    assert_eq!(t.interim, "Hello");
    handle_assemblyai_event(
        &mut t,
        assemblyai_event(Some("Turn"), Some("Hello world."), Some(true), None),
    );
    assert_eq!(t.completed, vec!["Hello world."]);
    assert!(t.interim.is_empty());
}

#[test]
fn handles_termination_event() {
    let mut t = TurnTranscript::new();
    handle_assemblyai_event(
        &mut t,
        assemblyai_event(Some("Turn"), Some("Final sentence."), Some(true), None),
    );
    assert_eq!(
        handle_assemblyai_event(&mut t, assemblyai_event(Some("Termination"), None, None, None)),
        StreamStep::Finish
    );
    assert_eq!(t.take_pieces(), vec!["Final sentence.".to_string()]);
}

#[test]
fn errors_and_unknown_events() {
    let mut t = TurnTranscript::new();
    assert_eq!(
        assemblyai_event(Some("Error"), None, None, None),
        AssemblyAIEvent::Error {
            message: "AssemblyAI streaming error".into()
        }
    );
    assert_eq!(assemblyai_event(None, Some("x"), None, None), AssemblyAIEvent::Other);
    assert_eq!(
        handle_assemblyai_event(&mut t, assemblyai_event(Some("Error"), None, None, Some("quota"))),
        StreamStep::FailOrPartial("quota".into())
    );
    assert!(!t.has_partial());
    t.apply("  partial  ", false);
    assert!(t.has_partial());
    assert_eq!(t.take_pieces(), vec!["partial".to_string()]);
    assert!(!t.has_partial());
}

#[test]
fn handles_results_events() {
    let mut t = TurnTranscript::new();
    handle_deepgram_event(
        &mut t,
        deepgram_event(Some("Results"), Some(" 你好 "), Some(false), Some(false), None),
    );
    assert_eq!(t.interim, "你好");
    handle_deepgram_event(
        &mut t,
        deepgram_event(Some("Results"), Some("你好世界"), Some(false), Some(true), None),
    );
    assert_eq!(t.completed, vec!["你好世界"]);
    assert_eq!(
        deepgram_event(Some("Error"), None, None, None, None),
        DeepgramEvent::Error {
            message: "Deepgram streaming error".into()
        }
    );
}

#[test]
fn durations_prefer_the_audio_sent() {
    assert_eq!(session_duration_ms(32_000, Some(5)), 1_000);
    assert_eq!(session_duration_ms(0, Some(5)), 5);
    assert_eq!(session_duration_ms(0, None), 0);
}

fn result(text: &str, index: i64, slice_type: i64) -> TencentResult {
    TencentResult {
        voice_text_str: Some(text.into()),
        index: Some(index),
        slice_type: Some(slice_type),
    }
}

#[test]
fn stable_segments_replace_partials_and_keep_order() {
    let mut t = TencentTranscript::new();
    t.record_result(&result("世界", 1, 1));
    t.record_result(&result("你好", 0, 2));
    assert_eq!(t.final_segments.get(&0).map(String::as_str), Some("你好"));
    assert_eq!(t.partial_segments.get(&1).map(String::as_str), Some("世界"));
    t.record_result(&result("世界！", 1, 2));
    assert!(t.partial_segments.get(&1).is_none());
    assert_eq!(t.final_pieces(), vec!["你好".to_string(), "世界！".to_string()]);
}

#[test]
fn merged_segments_prefer_stable_text_in_index_order() {
    let mut stable = BTreeMap::new();
    stable.insert(5, "five".to_string());
    stable.insert(1, "one".to_string());
    let mut provisional = BTreeMap::new();
    provisional.insert(3, "three?".to_string());
    provisional.insert(5, "five?".to_string());
    let merged = merge_segments(&stable, &provisional);
    assert_eq!(
        merged.into_iter().collect::<Vec<(i64, String)>>(),
        vec![
            (1, "one".to_string()),
            (3, "three?".to_string()),
            (5, "five".to_string())
        ]
    );
    provisional.remove(&3);
    assert_eq!(provisional.len(), 1);
}

#[test]
fn tencent_messages_drive_the_session() {
    let mut t = TencentTranscript::new();
    let failed = handle_tencent_event(
        &mut t,
        &TencentEvent {
            code: Some(4002),
            message: None,
            result: None,
            final_flag: None,
        },
    );
    assert_eq!(
        failed,
        TencentStep::Failed(TencentCloudASRError::AuthRejected(
            "4002 unknown error".into()
        ))
    );
    assert!(matches!(
        handle_tencent_event(
            &mut t,
            &TencentEvent {
                code: None,
                message: None,
                result: None,
                final_flag: None
            }
        ),
        TencentStep::Failed(TencentCloudASRError::TaskFailed(_))
    ));
    assert!(!t.has_text());
    let step = handle_tencent_event(
        &mut t,
        &TencentEvent {
            code: Some(0),
            message: None,
            result: Some(result("  ", 0, 2)),
            final_flag: None,
        },
    );
    assert_eq!(step, TencentStep::Continue);
    assert!(!t.has_text());
    let step = handle_tencent_event(
        &mut t,
        &TencentEvent {
            code: Some(0),
            message: None,
            result: Some(TencentResult {
                voice_text_str: Some("好".into()),
                index: None,
                slice_type: None,
            }),
            final_flag: Some(1),
        },
    );
    assert_eq!(step, TencentStep::Finish);
    assert!(t.has_text());
    assert_eq!(t.final_pieces(), vec!["好".to_string()]);
    assert_eq!(TencentTranscript::new().final_pieces(), vec![String::new()]);
}

#[test]
fn segment_texts_come_in_index_order() {
    let mut m = BTreeMap::new();
    m.insert(7, "c".to_string());
    m.insert(-2, "a".to_string());
    m.insert(3, "b".to_string());
    assert_eq!(segment_texts(&m), vec!["a".to_string(), "b".to_string(), "c".to_string()]);
    assert!(segment_texts(&BTreeMap::new()).is_empty());
}
