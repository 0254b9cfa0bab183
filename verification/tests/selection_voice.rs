use openless::selection_voice::{
    confirmed_preview_text, map_selection_preview, on_pressed, on_released,
    selection_voice_error, selection_voice_recording_active, selection_voice_session_active,
    BackendErrorCode, HotkeyMode, SelectionContext, SelectionVoicePhase,
    SelectionVoiceSessionState, SelectionVoiceStep,
};

#[test]
fn selection_voice_session_active_checks_phase() {
    let state = SelectionVoiceSessionState {
        phase: SelectionVoicePhase::Recording,
        session_id: 7,
        ..SelectionVoiceSessionState::default()
    };
    assert!(selection_voice_recording_active(&state, 7));
    assert!(!selection_voice_recording_active(&state, 8));
}

#[test]
fn an_idle_session_is_not_active() {
    let state = SelectionVoiceSessionState::default();
    assert!(!selection_voice_session_active(&state, 0));
}

#[test]
fn toggle_mode_press_starts_and_press_again_ends() {
    let mut busy = false;
    assert_eq!(
        on_pressed(true, &mut busy, HotkeyMode::Toggle, SelectionVoicePhase::Idle),
        SelectionVoiceStep::Begin
    );
    assert!(busy);
    // A press while the first one is still being handled is dropped.
    assert_eq!(
        on_pressed(true, &mut busy, HotkeyMode::Toggle, SelectionVoicePhase::Recording),
        SelectionVoiceStep::Ignore
    );
    busy = false;
    assert_eq!(
        on_pressed(true, &mut busy, HotkeyMode::Toggle, SelectionVoicePhase::Recording),
        SelectionVoiceStep::End
    );
    let mut idle_busy = false;
    assert_eq!(
        on_pressed(false, &mut idle_busy, HotkeyMode::Toggle, SelectionVoicePhase::Idle),
        SelectionVoiceStep::Ignore
    );
    assert!(!idle_busy);
}

#[test]
fn hold_mode_release_ends_the_recording() {
    let mut busy = true;
    assert_eq!(
        on_released(true, &mut busy, HotkeyMode::Hold, SelectionVoicePhase::Recording),
        SelectionVoiceStep::End
    );
    assert_eq!(
        on_released(true, &mut busy, HotkeyMode::Auto, SelectionVoicePhase::Processing),
        SelectionVoiceStep::Ignore
    );
    assert!(!busy);
    let mut busy = true;
    assert_eq!(
        on_released(true, &mut busy, HotkeyMode::Toggle, SelectionVoicePhase::Recording),
        SelectionVoiceStep::Ignore
    );
    assert!(busy);
    assert_eq!(
        on_pressed(true, &mut false.clone(), HotkeyMode::Hold, SelectionVoicePhase::Recording),
        SelectionVoiceStep::Ignore
    );
}

#[test]
fn sessions_begin_only_with_a_selection_and_a_target() {
    let mut state = SelectionVoiceSessionState::default();
    let selection = SelectionContext {
        text: "draft".into(),
        source_app: None,
    };
    assert_eq!(
        state.begin(false, Some(selection.clone()), true, 5),
        Err("dictationActive".to_string())
    );
    assert_eq!(
        state.begin(true, None, true, 5),
        Err("selectionVoiceNoSelection".to_string())
    );
    assert_eq!(
        state.begin(true, Some(selection.clone()), false, 5),
        Err("selectionVoiceTargetUnavailable".to_string())
    );
    assert_eq!(state, SelectionVoiceSessionState::default());
    state.begin(true, Some(selection), true, 5).unwrap();
    assert!(selection_voice_recording_active(&state, 5));
    assert_eq!(state.end_recording(), Some(5));
    assert_eq!(state.phase, SelectionVoicePhase::Processing);
    assert_eq!(state.end_recording(), None);
    state.reset();
    assert_eq!(state, SelectionVoiceSessionState::default());
}

#[test]
fn confirmed_previews_and_errors() {
    assert_eq!(confirmed_preview_text("  new text "), Ok("new text".to_string()));
    assert_eq!(
        confirmed_preview_text("   "),
        Err("selectionVoiceEmptyOutput".to_string())
    );
    assert!(map_selection_preview(Some("a".into()), None).is_none());
    assert_eq!(
        map_selection_preview(Some("a".into()), Some("b".into())).unwrap().source_text,
        "b"
    );
    assert_eq!(
        selection_voice_error(BackendErrorCode::InvalidArgument, "bad intent: rewrite ".into()),
        "selectionVoiceInvalidIntent:rewrite"
    );
    assert_eq!(
        selection_voice_error(BackendErrorCode::InvalidArgument, "bad intent".into()),
        "selectionVoiceInvalidIntent"
    );
    assert_eq!(
        selection_voice_error(BackendErrorCode::InvalidState, "no intent prompt".into()),
        "selectionVoiceIntentPromptUnavailable"
    );
    assert_eq!(
        selection_voice_error(BackendErrorCode::InvalidState, "no preview".into()),
        "selectionVoicePreviewUnavailable"
    );
    assert_eq!(
        selection_voice_error(BackendErrorCode::Busy, "x".into()),
        "selectionVoiceBusy"
    );
    assert_eq!(
        selection_voice_error(BackendErrorCode::Other, "raw".into()),
        "raw"
    );
}
