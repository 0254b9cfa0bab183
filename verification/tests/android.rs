use openless::android::{
    refresh_if_visible_with, OverlayVisibility,
    accessibility_attempt, commit_text_with, ime_attempt, AndroidImeCommitResult, IME_EMPTY_TEXT,
    backend_snapshot_envelope, SnapshotEnvelope, BACKEND_NOT_RUNNING, BACKEND_UNAVAILABLE,
    export_preferences_subset, import_preferences_subset, paste_via_accessibility_with_result,
    should_retry_paste_after_failure, ExportedPreferencesSubset, ProviderSelection,
    PASTE_RESULT_IPC_PROTOCOL_ERROR, PASTE_RESULT_SERVICE_NOT_CONNECTED,
};

#[test]
fn paste_result_constant_off_android() {
    assert_eq!(
        paste_via_accessibility_with_result(),
        PASTE_RESULT_SERVICE_NOT_CONNECTED
    );
}

#[test]
fn should_retry_only_service_not_connected() {
    assert!(should_retry_paste_after_failure(
        PASTE_RESULT_SERVICE_NOT_CONNECTED
    ));
    assert!(!should_retry_paste_after_failure("TIMEOUT"));
    assert!(!should_retry_paste_after_failure(
        PASTE_RESULT_IPC_PROTOCOL_ERROR
    ));
    assert!(!should_retry_paste_after_failure("NO_FOCUSED_EDITOR"));
    assert!(!should_retry_paste_after_failure("PASTE_REJECTED"));
    assert!(!should_retry_paste_after_failure("SUCCESS"));
}

use openless::android::{android_insert_with_strategy, AndroidInsertStrategy, InsertAttempt};
use openless::history::InsertStatus;

#[test]
fn insertion_falls_back_in_strategy_order() {
    let ime_down = |a: InsertAttempt| match a {
        InsertAttempt::Ime => None,
        InsertAttempt::Accessibility => Some(InsertStatus::Inserted),
        InsertAttempt::Clipboard => Some(InsertStatus::CopiedFallback),
    };
    assert_eq!(
        android_insert_with_strategy("hi", AndroidInsertStrategy::Auto, ime_down),
        InsertStatus::Inserted
    );
    assert_eq!(
        android_insert_with_strategy("hi", AndroidInsertStrategy::Ime, ime_down),
        InsertStatus::CopiedFallback
    );
    assert_eq!(
        android_insert_with_strategy("", AndroidInsertStrategy::Auto, ime_down),
        InsertStatus::CopiedFallback
    );
    let all_up = |_a: InsertAttempt| Some(InsertStatus::Inserted);
    assert_eq!(
        android_insert_with_strategy("hi", AndroidInsertStrategy::Clipboard, all_up),
        InsertStatus::Inserted
    );
}

fn selection(asr: &str, llm: &str, pack: &str, polish: &str) -> ProviderSelection {
    ProviderSelection {
        active_asr_provider: asr.to_string(),
        active_llm_provider: llm.to_string(),
        active_style_pack_id: pack.to_string(),
        selection_polish_style_pack_id: polish.to_string(),
    }
}

#[test]
fn exported_settings_import_back_unchanged() {
    let mut sel = selection("deepgram", "ark", "pack-a", "pack-b");
    let exported = export_preferences_subset(&sel);
    assert_eq!(exported.active_asr_provider.as_deref(), Some("deepgram"));
    assert_eq!(exported.selection_polish_style_pack_id.as_deref(), Some("pack-b"));
    let synced = import_preferences_subset(&mut sel, exported);
    assert_eq!(synced.as_deref(), Some("deepgram"));
    assert_eq!(sel, selection("deepgram", "ark", "pack-a", "pack-b"));
}

#[test]
fn partial_import_keeps_the_fields_left_out() {
    let mut sel = selection("deepgram", "ark", "pack-a", "pack-b");
    let subset = ExportedPreferencesSubset {
        active_asr_provider: None,
        active_llm_provider: Some("openai".to_string()),
        active_style_pack_id: None,
        selection_polish_style_pack_id: Some(String::new()),
    };
    assert_eq!(import_preferences_subset(&mut sel, subset.clone()), None);
    assert_eq!(sel, selection("deepgram", "openai", "pack-a", ""));
    assert_eq!(import_preferences_subset(&mut sel, subset), None);
    assert_eq!(sel, selection("deepgram", "openai", "pack-a", ""));
}

#[test]
fn snapshot_envelope_says_why_a_snapshot_is_unusable() {
    assert_eq!(
        backend_snapshot_envelope(None),
        SnapshotEnvelope { ok: false, payload_included: false, error: Some("backend unavailable") }
    );
    assert_eq!(BACKEND_UNAVAILABLE, "backend unavailable");
    assert_eq!(
        backend_snapshot_envelope(Some(false)),
        SnapshotEnvelope { ok: false, payload_included: true, error: Some(BACKEND_NOT_RUNNING) }
    );
    assert_eq!(
        backend_snapshot_envelope(Some(true)),
        SnapshotEnvelope { ok: true, payload_included: true, error: None }
    );
}

#[test]
fn blank_text_is_refused_before_the_input_method_is_asked() {
    let asked = std::cell::Cell::new(false);
    let r = commit_text_with(" \n ", |_: &str| {
        asked.set(true);
        Ok(true)
    });
    assert_eq!(r, AndroidImeCommitResult { committed: false, message: IME_EMPTY_TEXT.to_string() });
    assert!(!asked.get());
    let r = commit_text_with("hi", |t: &str| Ok(t == "hi"));
    assert!(r.committed);
    assert_eq!(r.message, "committed via OpenLess IME");
    let r = commit_text_with("hi", |_: &str| Ok(false));
    assert_eq!(r.message, "IME service not connected — enable/select OpenLess keyboard");
    let r = commit_text_with("hi", |_: &str| Err("jni".to_string()));
    assert_eq!(r, AndroidImeCommitResult { committed: false, message: "jni".to_string() });
}

#[test]
fn insertion_attempts_answer_by_their_outcome() {
    let committed = AndroidImeCommitResult { committed: true, message: String::new() };
    assert_eq!(ime_attempt(&committed), Some(InsertStatus::Inserted));
    let refused = AndroidImeCommitResult { committed: false, message: String::new() };
    assert_eq!(ime_attempt(&refused), None);

    let copied = std::cell::Cell::new(false);
    assert_eq!(
        accessibility_attempt(|| false, || { copied.set(true); InsertStatus::CopiedFallback }, || true),
        None
    );
    assert!(!copied.get());
    assert_eq!(accessibility_attempt(|| true, || InsertStatus::Failed, || true), None);
    assert_eq!(
        accessibility_attempt(|| true, || InsertStatus::CopiedFallback, || true),
        Some(InsertStatus::Inserted)
    );
    assert_eq!(
        accessibility_attempt(|| true, || InsertStatus::CopiedFallback, || false),
        Some(InsertStatus::CopiedFallback)
    );
}

#[test]
fn no_refresh_reaches_a_destroyed_overlay() {
    let shown = OverlayVisibility { visible: false }.after_show(true);
    assert_eq!(
        refresh_if_visible_with(shown, || Err("refresh sent".to_string())),
        Err("refresh sent".to_string())
    );
    let destroyed = shown.after_destroyed();
    assert_eq!(
        refresh_if_visible_with(destroyed, || Err("refresh sent".to_string())),
        Ok(())
    );
    let refused = destroyed.after_show(false);
    assert_eq!(
        refresh_if_visible_with(refused, || Err("refresh sent".to_string())),
        Ok(())
    );
    let reshown = refused.after_show(true);
    assert_eq!(refresh_if_visible_with(reshown, || Ok(())), Ok(()));
    assert_eq!(
        refresh_if_visible_with(reshown.after_hide(true), || Err("refresh sent".to_string())),
        Ok(())
    );
}
