use openless::host_document::{blocked_process, evaluate_gate, BlockReason, DocumentWindow, GateInputs};

fn gate(bundle: Option<&str>, role: Option<&str>, subrole: Option<&str>) -> GateInputs {
    GateInputs {
        secure_input: false,
        bundle_id: bundle.map(str::to_string),
        role: role.map(str::to_string),
        subrole: subrole.map(str::to_string),
    }
}

#[test]
fn ordinary_editor_passes_the_gate() {
    assert_eq!(
        evaluate_gate(&gate(
            Some("com.apple.Notes"),
            Some("AXTextArea"),
            Some("AXStandardWindow")
        )),
        None
    );
}

#[test]
fn secure_input_blocks_before_anything_else() {
    let inputs = GateInputs {
        secure_input: true,
        ..gate(Some("com.apple.Notes"), Some("AXTextArea"), None)
    };
    assert_eq!(evaluate_gate(&inputs), Some(BlockReason::SecureInput));
}

#[test]
fn secure_text_field_role_blocks() {
    assert_eq!(
        evaluate_gate(&gate(
            Some("com.apple.Safari"),
            Some("AXSecureTextField"),
            None
        )),
        Some(BlockReason::SecureTextField)
    );
}

#[test]
fn secure_text_field_subrole_blocks() {
    // Safari / Chrome 的密码框常常 role=AXTextField、subrole=AXSecureTextField，
    // 只看 role 会漏。
    assert_eq!(
        evaluate_gate(&gate(
            Some("com.google.Chrome"),
            Some("AXTextField"),
            Some("AXSecureTextField")
        )),
        Some(BlockReason::SecureTextField)
    );
}

#[test]
fn secure_text_field_match_is_case_insensitive() {
    assert_eq!(
        evaluate_gate(&gate(None, Some("axSECUREtextfield"), None)),
        Some(BlockReason::SecureTextField)
    );
}

#[test]
fn password_managers_are_blocked() {
    for bundle in [
        "com.1password.1password",
        "com.agilebits.onepassword7",
        "com.apple.keychainaccess",
        "com.bitwarden.desktop",
    ] {
        assert_eq!(
            evaluate_gate(&gate(Some(bundle), Some("AXTextArea"), None)),
            Some(BlockReason::BlockedApp),
            "{bundle} should be blocked"
        );
    }
}

#[test]
fn terminals_are_blocked() {
    for bundle in [
        "com.apple.Terminal",
        "com.googlecode.iterm2",
        "dev.warp.Warp-Stable",
        "com.mitchellh.ghostty",
    ] {
        assert_eq!(
            evaluate_gate(&gate(Some(bundle), Some("AXTextArea"), None)),
            Some(BlockReason::BlockedApp),
            "{bundle} should be blocked"
        );
    }
}

#[test]
fn bundle_match_is_case_insensitive_and_prefix_based() {
    // NSWorkspace 返回的大小写不保证和清单一致；helper 进程会在后面缀东西。
    assert_eq!(
        evaluate_gate(&gate(Some("COM.APPLE.TERMINAL"), None, None)),
        Some(BlockReason::BlockedApp)
    );
    assert_eq!(
        evaluate_gate(&gate(Some("com.1password.1password-helper"), None, None)),
        Some(BlockReason::BlockedApp)
    );
}

#[test]
fn a_bundle_that_merely_contains_a_blocked_name_is_not_blocked() {
    // 前缀匹配而非子串匹配：别人的 app 名里带 "terminal" 不该被误伤。
    assert_eq!(
        evaluate_gate(&gate(Some("com.example.terminalnotes"), None, None)),
        None
    );
}

#[test]
fn missing_metadata_does_not_block_by_itself() {
    // 读不到 bundle / role（AX 权限没给、非 macOS）时不能当成「安全」也不能当成
    // 「危险」——闸门只负责已知的危险信号，读不到文档自然会走 Unavailable。
    assert_eq!(evaluate_gate(&GateInputs::default()), None);
}

#[test]
fn document_window_splits_at_the_cursor() {
    let win = DocumentWindow {
        text: "上下文测试".to_string(),
        cursor: 2,
    };
    assert_eq!(win.before(), "上下");
    assert_eq!(win.after(), "文测试");
}

#[test]
fn document_window_cursor_at_the_end_yields_empty_after() {
    let win = DocumentWindow {
        text: "abc".to_string(),
        cursor: 3,
    };
    assert_eq!(win.before(), "abc");
    assert_eq!(win.after(), "");
}

#[test]
fn blocks_sensitive_processes_case_insensitively() {
    assert!(blocked_process(r"C:\Apps\KeePassXC.EXE"));
    assert!(blocked_process(r"C:\Windows\System32\cmd.exe"));
    assert!(blocked_process("Code.exe")); // embedded terminals
    assert!(!blocked_process("notepad.exe"));
    assert!(!blocked_process("chrome.exe"));
}
