use openless::qa_view::{
    apply_qa_state, can_send, confirm_preview_line, escape_action, json_escape, qa_busy,
    quoted_selection, recording_preview, shows_empty_state, shows_thinking, split_qa_user_message,
    submit_composer, truncate, QaChatMessage, QaStateEvent, QaViewState, ACTION_CANCEL,
    ACTION_DISMISS,
};

fn event(kind: &str, session: Option<&str>) -> QaStateEvent {
    QaStateEvent {
        kind: Some(kind.into()),
        session_id: session.map(str::to_string),
        ..QaStateEvent::default()
    }
}

#[test]
fn a_new_panel_is_idle() {
    let s = QaViewState::new();
    assert_eq!(s.current_kind, "idle");
    assert!(s.session_id.is_none() && s.messages.is_empty() && !s.shown);
}

#[test]
fn late_events_of_an_old_session_are_dropped() {
    let mut s = QaViewState::new();
    apply_qa_state(&mut s, &event("idle", Some("a")));
    assert_eq!(s.session_id.as_deref(), Some("a"));
    let mut delta = event("answer_delta", Some("a"));
    delta.chunk = Some("Hel".into());
    apply_qa_state(&mut s, &delta);
    delta.chunk = Some("lo".into());
    apply_qa_state(&mut s, &delta);
    assert_eq!(s.streaming_answer, "Hello");
    let mut stale = event("answer_delta", Some("old"));
    stale.chunk = Some("!!".into());
    apply_qa_state(&mut s, &stale);
    assert_eq!(s.streaming_answer, "Hello");
    apply_qa_state(&mut s, &event("recording", Some("b")));
    assert_eq!(s.session_id.as_deref(), Some("b"));
    assert_eq!(s.streaming_answer, "");
    assert_eq!(s.current_kind, "recording");
}

#[test]
fn answers_errors_and_messages_update_the_view() {
    let mut s = QaViewState::new();
    let mut answer = event("answer", None);
    answer.messages = Some(vec![QaChatMessage {
        role: "user".into(),
        content: "q".into(),
        selection_text: None,
    }]);
    apply_qa_state(&mut s, &answer);
    assert_eq!(s.messages.len(), 1);
    apply_qa_state(&mut s, &event("error", None));
    assert_eq!(s.error.as_deref(), Some("问答出错，请重试"));
    let mut loading = event("loading", None);
    loading.selection_preview = Some("sel".into());
    apply_qa_state(&mut s, &loading);
    assert_eq!(s.selection_preview.as_deref(), Some("sel"));
    assert!(s.error.is_none());
    apply_qa_state(&mut s, &QaStateEvent::default());
    assert_eq!(s.current_kind, "idle");
    assert!(s.selection_preview.is_none());
}

#[test]
fn truncation_counts_chars() {
    assert_eq!(truncate("你好世界", 4), "你好世界");
    assert_eq!(truncate("你好世界", 2), "你好…");
    assert_eq!(truncate("", 0), "");
}

#[test]
fn user_messages_split_into_selection_and_question() {
    let content = "<selected_text>\n 原文 \n</selected_text>\n\n# 我的问题\n 什么意思？ ";
    assert_eq!(
        split_qa_user_message(content, None),
        ("原文".to_string(), "什么意思？".to_string())
    );
    let legacy = "# 选区原文\nA\n\n# 我的问题\nB";
    assert_eq!(
        split_qa_user_message(legacy, None),
        ("A".to_string(), "B".to_string())
    );
    assert_eq!(
        split_qa_user_message(content, Some(" given ")),
        ("given".to_string(), "什么意思？".to_string())
    );
    assert_eq!(
        split_qa_user_message("  plain question ", None),
        (String::new(), "plain question".to_string())
    );
}

#[test]
fn json_strings_are_escaped() {
    assert_eq!(json_escape("a\"b\\c\nd"), "\"a\\\"b\\\\c\\nd\"");
    assert_eq!(json_escape(""), "\"\"");
}

use openless::qa_view::{classify_popup_line, extract_str, PopupLine};

#[test]
fn string_fields_are_read_and_unescaped() {
    assert_eq!(
        extract_str(r#"{"text": "a\nb","source":"s"}"#, "text"),
        Some("a\nb".to_string())
    );
    assert_eq!(extract_str(r#"{"source":"s"}"#, "text"), None);
    assert_eq!(extract_str(r#"{"text": 12}"#, "text"), None);
    assert_eq!(extract_str(r#"{"text": "unterminated"#, "text"), None);
    assert_eq!(
        extract_str(r#"{"text":"c:\\dir"}"#, "text"),
        Some("c:\\dir".to_string())
    );
}

#[test]
fn object_fields_are_cut_at_the_matching_brace() {
    let line = r#"{"event":"qa:state","payload":{"kind":"idle","x":{"y":1}},"tail":1}"#;
    assert_eq!(
        extract_str(line, "payload"),
        Some(r#"{"kind":"idle","x":{"y":1}}"#.to_string())
    );
}

#[test]
fn host_lines_are_classified() {
    assert_eq!(classify_popup_line(r#"{"cmd":"hide"}"#), PopupLine::Hide);
    assert_eq!(
        classify_popup_line(r#"{"event":"qa:state","payload":{"kind":"idle"}}"#),
        PopupLine::QaState(Some(r#"{"kind":"idle"}"#.to_string()))
    );
    assert_eq!(
        classify_popup_line(r#"{"text":"t"}"#),
        PopupLine::Preview {
            text: "t".into(),
            source: String::new()
        }
    );
    assert_eq!(classify_popup_line("garbage"), PopupLine::Ignored);
}

#[test]
fn the_composer_sends_its_trimmed_text_once() {
    let mut s = QaViewState::new();
    s.composer_text = "  what is \"this\"? ".into();
    assert!(can_send(&s));
    assert_eq!(
        submit_composer(&mut s).as_deref(),
        Some("{ \"action\": \"submit\", \"text\": \"what is \\\"this\\\"?\" }")
    );
    assert_eq!(s.composer_text, "");
    assert!(!can_send(&s));
    assert_eq!(submit_composer(&mut s), None);
}

#[test]
fn nothing_is_sent_while_the_panel_is_busy() {
    for kind in ["recording", "thinking", "loading"] {
        let mut s = QaViewState::new();
        s.current_kind = kind.into();
        s.composer_text = "question".into();
        assert!(qa_busy(&s));
        assert!(!can_send(&s));
        assert_eq!(submit_composer(&mut s), None);
        assert_eq!(s.composer_text, "question");
    }
    let mut idle = QaViewState::new();
    idle.composer_text = " \t ".into();
    assert!(!qa_busy(&idle));
    assert!(!can_send(&idle));
}

#[test]
fn panel_notes_follow_the_state() {
    let mut s = QaViewState::new();
    assert!(shows_empty_state(&s));
    assert!(!shows_thinking(&s));
    s.current_kind = "thinking".into();
    assert!(shows_thinking(&s));
    s.streaming_answer = "Hi".into();
    assert!(!shows_thinking(&s));
    assert!(!shows_empty_state(&s));

    s.current_kind = "recording".into();
    s.selection_preview = Some("  ".into());
    assert_eq!(recording_preview(&s), None);
    s.selection_preview = Some("x".repeat(70));
    assert_eq!(recording_preview(&s), Some(format!("{}…", "x".repeat(60))));
    s.current_kind = "answer".into();
    assert_eq!(recording_preview(&s), None);
}

#[test]
fn popup_lines_for_escape_and_confirm() {
    assert_eq!(escape_action(true), ACTION_DISMISS);
    assert_eq!(escape_action(false), ACTION_CANCEL);
    assert_eq!(ACTION_DISMISS, "{ \"action\": \"dismiss\" }");
    assert_eq!(confirm_preview_line("   "), None);
    assert_eq!(
        confirm_preview_line(" a\nb ").as_deref(),
        Some("{ \"action\": \"confirm\", \"text\": \" a\\nb \" }")
    );
    assert_eq!(quoted_selection("sel"), "\u{201c}sel\u{201d}");
}
