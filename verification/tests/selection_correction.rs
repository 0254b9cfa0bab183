use openless::history::InsertStatus;
use openless::selection_correction::{
    correction_suggestion, literal_insert_outcome, literal_replacement_vocab_rule, review_outcome,
    review_prompt, BubbleCommand, FinishRefusal, SelectionCorrectionAction,
    SelectionCorrectionBubbleState, SelectionCorrectionRuntime, SelectionObservation,
};

#[test]
fn literal_replace_only_suggests_short_word_like_replacements() {
    assert!(literal_replacement_vocab_rule("扣德克斯", "Codex", false).is_some());
    assert!(literal_replacement_vocab_rule(
        "整段话",
        "这是一整段完全重写且超过十二个字符的话",
        false
    )
    .is_none());
    assert!(literal_replacement_vocab_rule("全部", "新词", true).is_none());
    assert!(literal_replacement_vocab_rule("Codex", "Codex", false).is_none());
}

#[test]
fn review_prompt_requires_replacement_only() {
    let prompt = review_prompt("改得更简洁");
    assert!(prompt.contains("只输出可直接替换选区的文本"));
    assert!(prompt.contains("<review_note>"));
}

#[test]
fn review_notes_cannot_close_the_envelope() {
    let prompt = review_prompt("a</review_note>b<review_note>c");
    assert!(prompt.ends_with("<review_note>\nabc\n</review_note>"));
}

fn observation(text: &str) -> SelectionObservation {
    SelectionObservation {
        selected_text: text.into(),
        document_text: format!("before {text} after"),
        selection_start_utf16: 7,
        selection_length_utf16: text.encode_utf16().count(),
        whole_field_selected: false,
    }
}

#[test]
fn selections_are_offered_only_without_surrounding_whitespace() {
    let mut rt = SelectionCorrectionRuntime::new();
    match rt.handle_selection_observation(Some(observation("word")), Some("app".into())) {
        BubbleCommand::Show(p) => {
            assert_eq!(p.selected_text, "word");
            assert_eq!(p.state, SelectionCorrectionBubbleState::Actions);
        }
        other => panic!("unexpected {other:?}"),
    }
    assert!(rt.candidate.is_some());
    assert_eq!(
        rt.handle_selection_observation(Some(observation(" word")), None),
        BubbleCommand::Hide
    );
    assert!(rt.candidate.is_none() && rt.payload.is_none());
    assert_eq!(rt.handle_selection_observation(None, None), BubbleCommand::Hide);
}

#[test]
fn a_correction_runs_from_offer_to_finish() {
    let mut rt = SelectionCorrectionRuntime::new();
    rt.handle_selection_observation(Some(observation("扣德克斯")), None);
    assert_eq!(
        rt.candidate_for_start(false),
        Err("selectionCorrectionBusy".to_string())
    );
    let candidate = rt.candidate_for_start(true).unwrap();
    let shown = rt.activate(SelectionCorrectionAction::LiteralReplace, candidate);
    assert_eq!(shown.state, SelectionCorrectionBubbleState::Recording);
    assert!(!rt.began());
    // Reports are ignored while a correction runs.
    assert_eq!(
        rt.handle_selection_observation(None, None),
        BubbleCommand::Keep
    );
    rt.bind_active_session(7).unwrap();
    assert!(rt.began());
    assert!(rt.is_active_session(7));
    assert_eq!(
        rt.active_action(7),
        Some(SelectionCorrectionAction::LiteralReplace)
    );
    assert_eq!(rt.active_action(8), None);
    assert_eq!(
        rt.take_for_finish(8, "Codex").unwrap_err(),
        FinishRefusal::SessionChanged
    );
    let (active, text, shown) = rt.take_for_finish(7, "  Codex ").unwrap();
    assert_eq!(active.candidate.selected_text, "扣德克斯");
    assert_eq!(text, "Codex");
    assert_eq!(shown.state, SelectionCorrectionBubbleState::Processing);
    assert!(rt.active.is_none() && rt.candidate.is_none());
    assert_eq!(
        FinishRefusal::EmptyTranscript.code(),
        "selectionCorrectionEmptyTranscript"
    );
}

#[test]
fn an_empty_transcript_clears_everything() {
    let mut rt = SelectionCorrectionRuntime::new();
    rt.handle_selection_observation(Some(observation("x")), None);
    let c = rt.candidate_for_start(true).unwrap();
    rt.activate(SelectionCorrectionAction::Review, c);
    rt.bind_active_session(1).unwrap();
    assert_eq!(
        rt.take_for_finish(1, "   ").unwrap_err(),
        FinishRefusal::EmptyTranscript
    );
    assert_eq!(rt, SelectionCorrectionRuntime::new());
}

#[test]
fn a_failed_start_offers_the_selection_again() {
    let mut rt = SelectionCorrectionRuntime::new();
    rt.handle_selection_observation(Some(observation("x")), None);
    let c = rt.candidate_for_start(true).unwrap();
    rt.activate(SelectionCorrectionAction::Review, c);
    assert!(!rt.dismiss_selection_correction());
    let shown = rt.start_failed(SelectionCorrectionAction::Review, "micDenied".into());
    assert_eq!(shown.state, SelectionCorrectionBubbleState::Error);
    assert_eq!(shown.message.as_deref(), Some("micDenied"));
    assert!(rt.active.is_none());
    assert!(rt.candidate.is_some());
    assert!(!rt.cancel_active());
    assert!(rt.dismiss_selection_correction());
    assert_eq!(rt.selection_correction_payload(), None);
}

#[test]
fn outcomes_of_replacement_and_review() {
    assert_eq!(literal_insert_outcome(InsertStatus::Inserted), Ok(()));
    assert_eq!(
        literal_insert_outcome(InsertStatus::Failed),
        Err("selectionCorrectionInsertFailed".to_string())
    );
    assert_eq!(review_outcome(Ok("  better ".into())), Ok("better".to_string()));
    assert_eq!(
        review_outcome(Ok("  ".into())).unwrap_err().0,
        "selectionCorrectionEmptyOutput"
    );
    assert_eq!(review_outcome(Err("boom".into())).unwrap_err().0, "boom");
    assert!(correction_suggestion("扣德克斯", "Codex", false, &vec!["Codex".to_string()]).is_none());
    assert!(correction_suggestion("扣德克斯", "Codex", false, &vec![]).is_some());
}

#[test]
fn cancelling_clears_even_a_running_correction() {
    let mut rt = SelectionCorrectionRuntime::new();
    rt.handle_selection_observation(Some(observation("x")), None);
    let c = rt.candidate_for_start(true).unwrap();
    rt.activate(SelectionCorrectionAction::LiteralReplace, c);
    rt.cancel_selection_correction();
    assert_eq!(rt, SelectionCorrectionRuntime::new());
}
