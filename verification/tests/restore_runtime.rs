use openless::android::AndroidOverlayTrigger;
use openless::restore_runtime::{
    action_hotkey_monitor, bind_restore_runtime_effects, dictation_monitor_choice,
    qa_monitor_needed, remote_input_step, restore_overlay_action, translation_monitor_needed,
    DictationMonitorChoice, OverlayRestore, RemoteInputStatus, RemoteInputStep,
};

#[test]
fn remote_input_is_reconfigured_only_when_it_differs() {
    let running = RemoteInputStatus {
        enabled: true,
        port: 8443,
        running: true,
    };
    assert_eq!(remote_input_step(Ok(running), true, 8443), RemoteInputStep::Keep);
    assert_eq!(remote_input_step(Ok(running), true, 9443), RemoteInputStep::Configure);
    let stopped = RemoteInputStatus {
        running: false,
        ..running
    };
    assert_eq!(remote_input_step(Ok(stopped), true, 8443), RemoteInputStep::Configure);
    assert_eq!(remote_input_step(Err(true), false, 8443), RemoteInputStep::KeepUnsupported);
    assert_eq!(remote_input_step(Err(true), true, 8443), RemoteInputStep::Unavailable);
    assert_eq!(remote_input_step(Err(false), false, 8443), RemoteInputStep::Unavailable);
}

#[test]
fn hotkey_monitors_follow_the_bindings() {
    assert_eq!(dictation_monitor_choice(true, false, true), DictationMonitorChoice::ModifierOnly);
    assert_eq!(dictation_monitor_choice(false, false, true), DictationMonitorChoice::SideAware);
    assert_eq!(dictation_monitor_choice(false, false, false), DictationMonitorChoice::Combo);
    assert!(qa_monitor_needed(true, false, false));
    assert!(!qa_monitor_needed(true, true, false));
    assert!(!translation_monitor_needed(true, false, false));
    assert_eq!(action_hotkey_monitor(true, true), Ok(false));
    assert_eq!(
        action_hotkey_monitor(false, true),
        Err("unsupported action hotkey".to_string())
    );
    assert_eq!(action_hotkey_monitor(false, false), Ok(true));
}

#[test]
fn restore_binding_and_overlay() {
    assert_eq!(bind_restore_runtime_effects(true, false), Ok(false));
    assert_eq!(
        bind_restore_runtime_effects(false, false),
        Err("restore_host_not_bound".to_string())
    );
    assert_eq!(bind_restore_runtime_effects(false, true), Ok(true));
    assert_eq!(restore_overlay_action(AndroidOverlayTrigger::Always), OverlayRestore::Replace);
    assert_eq!(restore_overlay_action(AndroidOverlayTrigger::Keyboard), OverlayRestore::Hide);
}
