use openless::recording_recovery::{
    DictationPhase, EscapeCancelResult, PromptStep, RecordingRecovery,
};

#[test]
fn second_escape_and_disabled_setting_prevent_a_late_recovery_prompt() {
    for disable_setting in [false, true] {
        let mut recovery = RecordingRecovery::new();
        recovery.arm("s1".into());
        let mut enabled = true;
        assert!(recovery.should_schedule(enabled, "s1"));
        if disable_setting {
            enabled = false;
        } else {
            assert!(recovery.dismiss(None));
        }
        assert!(!recovery.should_schedule(enabled, "s1"));
        assert_ne!(
            recovery.prompt_step("s1", enabled, DictationPhase::Idle),
            PromptStep::Show
        );
    }
}

#[test]
fn recovery_is_armed_only_while_recording() {
    assert!(RecordingRecovery::recovery_armed(true, DictationPhase::Starting));
    assert!(RecordingRecovery::recovery_armed(true, DictationPhase::Recording));
    assert!(!RecordingRecovery::recovery_armed(true, DictationPhase::Processing));
    assert!(!RecordingRecovery::recovery_armed(false, DictationPhase::Recording));
}

#[test]
fn dismissing_another_session_keeps_the_pending_one() {
    let mut recovery = RecordingRecovery::new();
    recovery.arm("a".into());
    assert!(!recovery.dismiss(Some("b")));
    assert_eq!(recovery.pending.as_deref(), Some("a"));
    assert_eq!(
        recovery.prompt_step("a", true, DictationPhase::Recording),
        PromptStep::Busy
    );
    assert_eq!(
        recovery.prompt_step("a", true, DictationPhase::Idle),
        PromptStep::Show
    );
    assert_eq!(
        recovery.prompt_step("b", true, DictationPhase::Idle),
        PromptStep::Stale
    );
    assert!(!recovery.expire("b"));
    assert!(recovery.expire("a"));
    assert!(recovery.pending.is_none());
    assert!(!recovery.dismiss(None));
}

#[test]
fn escape_cancel_schedules_the_prompt_for_a_kept_recording() {
    let mut recovery = RecordingRecovery::new();
    recovery.arm("s1".into());
    let result = recovery.settle_escape_cancel(true, Some("s1".into()), Ok(Some("s1".into())));
    assert_eq!(
        result,
        EscapeCancelResult { cancelled: true, prompt_for: Some("s1".into()) }
    );
    assert_eq!(recovery.pending.as_deref(), Some("s1"));
}

#[test]
fn escape_cancel_dismisses_what_may_no_longer_be_offered() {
    let mut disabled = RecordingRecovery::new();
    disabled.arm("s1".into());
    let result = disabled.settle_escape_cancel(false, Some("s1".into()), Ok(Some("s1".into())));
    assert_eq!(result, EscapeCancelResult { cancelled: true, prompt_for: None });
    assert!(disabled.pending.is_none());

    let mut nothing_kept = RecordingRecovery::new();
    nothing_kept.arm("s2".into());
    let result = nothing_kept.settle_escape_cancel(true, Some("s2".into()), Ok(None));
    assert_eq!(result, EscapeCancelResult { cancelled: true, prompt_for: None });
    assert!(nothing_kept.pending.is_none());

    let mut failed = RecordingRecovery::new();
    failed.arm("s3".into());
    let result = failed.settle_escape_cancel(true, Some("s3".into()), Err(()));
    assert_eq!(result, EscapeCancelResult { cancelled: false, prompt_for: None });
    assert!(failed.pending.is_none());

    let mut unarmed = RecordingRecovery::new();
    unarmed.arm("other".into());
    let result = unarmed.settle_escape_cancel(true, None, Err(()));
    assert_eq!(result, EscapeCancelResult { cancelled: false, prompt_for: None });
    assert_eq!(unarmed.pending.as_deref(), Some("other"));
}
