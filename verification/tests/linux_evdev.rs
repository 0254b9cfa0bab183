use openless::hold_source::TriggerSource;
use openless::linux_evdev::{
    check_start, config_from_prefs, dispatch_mouse_edge, key_edge_value, monitor_needed,
    mouse_edge, HotkeyEvent, LinuxEvdevConfig, MouseDictationConfig, ShortcutBinding,
    UserPreferences,
};

#[test]
fn mouse_middle_edge_dispatches_press_release() {
    let (tx, rx) = std::sync::mpsc::channel();
    let mut held = false;
    dispatch_mouse_edge(&tx, &mut held, TriggerSource::MouseMiddle, true);
    assert_eq!(rx.recv().unwrap().0, HotkeyEvent::Pressed);
    dispatch_mouse_edge(&tx, &mut held, TriggerSource::MouseMiddle, true);
    assert!(rx.try_recv().is_err());
    dispatch_mouse_edge(&tx, &mut held, TriggerSource::MouseMiddle, false);
    assert_eq!(rx.recv().unwrap().0, HotkeyEvent::Released);
}

#[test]
fn mouse_side_edge_dispatches() {
    let (tx, rx) = std::sync::mpsc::channel();
    let mut held = false;
    dispatch_mouse_edge(&tx, &mut held, TriggerSource::MouseSide, true);
    assert_eq!(rx.recv().unwrap().1, TriggerSource::MouseSide);
}

#[test]
fn mouse_held_state_persists_across_poll_cycles() {
    let (tx, rx) = std::sync::mpsc::channel();
    let mut middle_held = false;
    dispatch_mouse_edge(&tx, &mut middle_held, TriggerSource::MouseMiddle, true);
    assert_eq!(rx.recv().unwrap().0, HotkeyEvent::Pressed);
    dispatch_mouse_edge(&tx, &mut middle_held, TriggerSource::MouseMiddle, false);
    assert_eq!(rx.recv().unwrap().0, HotkeyEvent::Released);
}

#[test]
fn key_edge_value_ignores_repeat() {
    assert_eq!(key_edge_value(1), Some(true));
    assert_eq!(key_edge_value(0), Some(false));
    assert_eq!(key_edge_value(2), None);
}

#[test]
fn side_combo_follows_side_aware_dictation_hotkey() {
    let mut prefs = UserPreferences::default();
    prefs.dictation_hotkey = ShortcutBinding {
        primary: "D".into(),
        modifiers: vec!["cmd-left".into()],
    };
    let config = config_from_prefs(&prefs);
    assert!(config.side_combo.is_some());
    assert!(monitor_needed(&config));
}

#[test]
fn generic_combo_without_mouse_does_not_need_monitor() {
    let mut prefs = UserPreferences::default();
    prefs.dictation_hotkey = ShortcutBinding {
        primary: "D".into(),
        modifiers: vec!["ctrl".into(), "shift".into()],
    };
    prefs.mouse_middle_button_dictation = false;
    prefs.mouse_side_button_dictation = false;
    let config = config_from_prefs(&prefs);
    assert!(config.side_combo.is_none());
    assert!(!monitor_needed(&config));
}

#[test]
fn mouse_only_config_has_no_side_combo() {
    let mut prefs = UserPreferences::default();
    prefs.mouse_middle_button_dictation = true;
    let config = config_from_prefs(&prefs);
    assert!(config.side_combo.is_none());
    assert!(monitor_needed(&config));
}

#[test]
fn side_combo_to_generic_without_mouse_stops_monitor() {
    let mut prefs = UserPreferences::default();
    prefs.dictation_hotkey = ShortcutBinding {
        primary: "D".into(),
        modifiers: vec!["cmd-left".into()],
    };
    assert!(monitor_needed(&config_from_prefs(&prefs)));

    prefs.dictation_hotkey = ShortcutBinding {
        primary: "D".into(),
        modifiers: vec!["ctrl".into(), "shift".into()],
    };
    prefs.mouse_middle_button_dictation = false;
    prefs.mouse_side_button_dictation = false;
    assert!(!monitor_needed(&config_from_prefs(&prefs)));
}

#[test]
fn mouse_only_to_side_combo_adds_side_combo() {
    let mut prefs = UserPreferences::default();
    prefs.mouse_middle_button_dictation = true;
    assert!(config_from_prefs(&prefs).side_combo.is_none());

    prefs.dictation_hotkey = ShortcutBinding {
        primary: "D".into(),
        modifiers: vec!["cmd-left".into()],
    };
    let config = config_from_prefs(&prefs);
    assert!(config.side_combo.is_some());
    assert!(monitor_needed(&config));
}

#[test]
fn stray_edges_keep_press_and_release_alternating() {
    let mut held = false;
    let edges = [false, true, true, false, false, true];
    let events: Vec<HotkeyEvent> = edges
        .iter()
        .filter_map(|&p| mouse_edge(&mut held, p))
        .collect();
    assert_eq!(
        events,
        vec![HotkeyEvent::Pressed, HotkeyEvent::Released, HotkeyEvent::Pressed]
    );
    assert!(held);
}

#[test]
fn start_is_refused_with_nothing_to_watch() {
    let idle = LinuxEvdevConfig {
        side_combo: None,
        mouse: MouseDictationConfig {
            middle_enabled: false,
            side_enabled: false,
        },
    };
    assert_eq!(
        check_start(&idle),
        Err("linux evdev monitor has nothing to watch".to_string())
    );
    let side = LinuxEvdevConfig {
        side_combo: None,
        mouse: MouseDictationConfig {
            middle_enabled: false,
            side_enabled: true,
        },
    };
    assert_eq!(check_start(&side), Ok(()));
}

#[test]
fn dispatch_reports_exactly_what_it_sent() {
    let (tx, rx) = std::sync::mpsc::channel();
    let mut held = false;
    let sent = dispatch_mouse_edge(&tx, &mut held, TriggerSource::MouseSide, true);
    assert_eq!(sent, Some((HotkeyEvent::Pressed, TriggerSource::MouseSide)));
    assert_eq!(rx.recv().unwrap(), (HotkeyEvent::Pressed, TriggerSource::MouseSide));
    assert_eq!(dispatch_mouse_edge(&tx, &mut held, TriggerSource::MouseSide, true), None);
    assert!(rx.try_recv().is_err());
    drop(rx);
    assert_eq!(
        dispatch_mouse_edge(&tx, &mut held, TriggerSource::MouseSide, false),
        Some((HotkeyEvent::Released, TriggerSource::MouseSide))
    );
}
