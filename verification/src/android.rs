//! Android preferences, status payloads and platform bridges.
//!
//! The platform calls themselves (JNI) exist only in Android builds; this
//! library holds the preference rules, the status payloads, the decisions
//! taken on what the platform reports, and the answers given on every other
//! platform.
use vstd::prelude::*;

use crate::text::{chars_eq, push_str_chars, to_chars, trim_range, trimmed};

verus! {

/// How recognized text is inserted into other apps.
#[derive(Debug, Clone, Copy, PartialEq, Eq, Structural)]
pub enum AndroidInsertStrategy {
    Auto,
    Ime,
    Accessibility,
    Clipboard,
}

/// When the floating overlay is shown.
#[derive(Debug, Clone, Copy, PartialEq, Eq, Structural)]
pub enum AndroidOverlayTrigger {
    Background,
    Keyboard,
    Always,
}

impl AndroidOverlayTrigger {
    /// `Keyboard` is no longer offered and behaves as `Background`.
    pub fn normalized(self) -> (r: AndroidOverlayTrigger)
        ensures
            r == (if self == AndroidOverlayTrigger::Keyboard {
                AndroidOverlayTrigger::Background
            } else {
                self
            }),
    {
        match self {
            AndroidOverlayTrigger::Keyboard => AndroidOverlayTrigger::Background,
            trigger => trigger,
        }
    }
}

/// How the overlay button starts dictation.
#[derive(Debug, Clone, Copy, PartialEq, Eq, Structural)]
pub enum AndroidOverlayActivationMode {
    Tap,
    LongPress,
}

/// What a left swipe on the overlay does.
#[derive(Debug, Clone, Copy, PartialEq, Eq, Structural)]
pub enum AndroidOverlayLeftSwipeAction {
    Translation,
    StylePack,
}

/// State of the accessibility service.
#[derive(Debug, Clone, Copy, PartialEq, Eq, Structural)]
pub enum AndroidAccessibilityState {
    Enabled,
    NotEnabled,
    NotAndroid,
}

/// Status of the accessibility service as shown in settings.
#[derive(Debug, Clone, PartialEq, Eq)]
pub struct AndroidAccessibilityStatus {
    pub state: AndroidAccessibilityState,
    pub enabled: bool,
    /// Authorized and connected to the app process.
    pub operational: bool,
    pub message: String,
    pub message_key: String,
}

pub fn default_android_insert_strategy() -> (r: AndroidInsertStrategy)
    ensures
        r == AndroidInsertStrategy::Accessibility,
{
    AndroidInsertStrategy::Accessibility
}

pub fn default_android_overlay_trigger() -> (r: AndroidOverlayTrigger)
    ensures
        r == AndroidOverlayTrigger::Background,
{
    AndroidOverlayTrigger::Background
}

pub fn default_android_overlay_activation_mode() -> (r: AndroidOverlayActivationMode)
    ensures
        r == AndroidOverlayActivationMode::Tap,
{
    AndroidOverlayActivationMode::Tap
}

pub fn default_android_overlay_left_swipe_action() -> (r: AndroidOverlayLeftSwipeAction)
    ensures
        r == AndroidOverlayLeftSwipeAction::Translation,
{
    AndroidOverlayLeftSwipeAction::Translation
}

/// Default overlay size in dp.
pub fn default_android_overlay_size_dp() -> (r: u32)
    ensures
        r == 72,
{
    72
}

/// `Auto` and `Ime` are no longer offered and behave as `Accessibility`.
pub fn normalize_android_insert_strategy(strategy: AndroidInsertStrategy) -> (r: AndroidInsertStrategy)
    ensures
        r == (if strategy == AndroidInsertStrategy::Auto || strategy == AndroidInsertStrategy::Ime {
            AndroidInsertStrategy::Accessibility
        } else {
            strategy
        }),
{
    match strategy {
        AndroidInsertStrategy::Auto | AndroidInsertStrategy::Ime => AndroidInsertStrategy::Accessibility,
        strategy => strategy,
    }
}

/// Smallest and largest overlay sizes in dp.
pub const MIN_OVERLAY_SIZE_DP: u32 = 48;

pub const MAX_OVERLAY_SIZE_DP: u32 = 120;

/// The overlay size clamped to `[48, 120]` dp.
pub fn normalize_android_overlay_size_dp(size_dp: u32) -> (r: u32)
    ensures
        r == (if size_dp < MIN_OVERLAY_SIZE_DP {
            MIN_OVERLAY_SIZE_DP
        } else if size_dp > MAX_OVERLAY_SIZE_DP {
            MAX_OVERLAY_SIZE_DP
        } else {
            size_dp
        }),
{
    if size_dp < MIN_OVERLAY_SIZE_DP {
        MIN_OVERLAY_SIZE_DP
    } else if size_dp > MAX_OVERLAY_SIZE_DP {
        MAX_OVERLAY_SIZE_DP
    } else {
        size_dp
    }
}

/// State of the overlay-drawing permission.
#[derive(Debug, Clone, Copy, PartialEq, Eq, Structural)]
pub enum AndroidOverlayPermissionState {
    Granted,
    NotGranted,
    NotAndroid,
}

/// Status of the floating overlay as shown in settings.
#[derive(Debug, Clone, PartialEq, Eq)]
pub struct AndroidOverlayStatus {
    pub permission: AndroidOverlayPermissionState,
    pub overlay_visible: bool,
    pub message: String,
}

// ───────────────────────────── accessibility ─────────────────────────────

/// Paste results reported by the accessibility service.
pub const PASTE_RESULT_SUCCESS: &'static str = "SUCCESS";

pub const PASTE_RESULT_SERVICE_NOT_CONNECTED: &'static str = "SERVICE_NOT_CONNECTED";

pub const PASTE_RESULT_IPC_PROTOCOL_ERROR: &'static str = "IPC_PROTOCOL_ERROR";

/// Outcome of asking the system to open the accessibility settings.
#[derive(Debug, Clone, PartialEq, Eq)]
pub struct AndroidAccessibilityPermissionResult {
    pub launched: bool,
    pub message: String,
}

fn owned(s: &str) -> (r: String)
    ensures
        r@ == s@,
{
    let mut r = String::new();
    push_str_chars(&mut r, s);
    r
}

/// Accessibility status off Android: not applicable, nothing enabled.
pub fn get_android_accessibility_status() -> (r: AndroidAccessibilityStatus)
    ensures
        r.state == AndroidAccessibilityState::NotAndroid,
        !r.enabled,
        !r.operational,
        r.message@ == Seq::<char>::empty(),
        r.message_key@ == "not_android"@,
{
    AndroidAccessibilityStatus {
        state: AndroidAccessibilityState::NotAndroid,
        enabled: false,
        operational: false,
        message: String::new(),
        message_key: owned("not_android"),
    }
}

/// The accessibility status derived from what Android reports: whether the
/// service is enabled (or why that could not be read) and, when it is,
/// whether it is connected.
pub fn accessibility_status_from(
    enabled: Result<bool, String>,
    operational: bool,
) -> (r: AndroidAccessibilityStatus)
    ensures
        match enabled {
            Err(e) => r.state == AndroidAccessibilityState::NotEnabled && !r.enabled && !r.operational
                && r.message@ == e@ && r.message_key@ == "status_read_failed"@,
            Ok(false) => r.state == AndroidAccessibilityState::NotEnabled && !r.enabled
                && !r.operational && r.message@ == Seq::<char>::empty() && r.message_key@
                == "not_enabled"@,
            Ok(true) => r.state == AndroidAccessibilityState::Enabled && r.enabled && r.operational
                == operational && r.message@ == Seq::<char>::empty() && r.message_key@ == (if operational {
                "operational"@
            } else {
                "authorized_not_connected"@
            }),
        },
{
    match enabled {
        Err(error) => AndroidAccessibilityStatus {
            state: AndroidAccessibilityState::NotEnabled,
            enabled: false,
            operational: false,
            message: error,
            message_key: owned("status_read_failed"),
        },
        Ok(false) => AndroidAccessibilityStatus {
            state: AndroidAccessibilityState::NotEnabled,
            enabled: false,
            operational: false,
            message: String::new(),
            message_key: owned("not_enabled"),
        },
        Ok(true) => AndroidAccessibilityStatus {
            state: AndroidAccessibilityState::Enabled,
            enabled: true,
            operational,
            message: String::new(),
            message_key: if operational {
                owned("operational")
            } else {
                owned("authorized_not_connected")
            },
        },
    }
}

/// Off Android the accessibility settings cannot be opened.
pub fn request_android_accessibility_permission() -> (r: AndroidAccessibilityPermissionResult)
    ensures
        !r.launched,
        r.message@ == "Android accessibility settings are only available on Android"@,
{
    AndroidAccessibilityPermissionResult {
        launched: false,
        message: owned("Android accessibility settings are only available on Android"),
    }
}

/// Off Android the accessibility service is never connected.
pub fn paste_via_accessibility_with_result() -> (r: String)
    ensures
        r@ == PASTE_RESULT_SERVICE_NOT_CONNECTED@,
{
    owned(PASTE_RESULT_SERVICE_NOT_CONNECTED)
}

/// Whether an accessibility paste succeeded.
pub fn paste_via_accessibility() -> (r: bool)
    ensures
        r == (PASTE_RESULT_SERVICE_NOT_CONNECTED@ == PASTE_RESULT_SUCCESS@),
{
    let result = paste_via_accessibility_with_result();
    chars_eq(&to_chars(result.as_str()), &to_chars(PASTE_RESULT_SUCCESS))
}

/// Off Android the accessibility service is never enabled.
pub fn is_accessibility_enabled() -> (r: bool)
    ensures
        !r,
{
    false
}

/// Only retry a paste when the service reported that its process is
/// unreachable: after a timeout or a protocol error the first paste may
/// already have landed.
pub fn should_retry_paste_after_failure(reason: &str) -> (r: bool)
    ensures
        r == (reason@ == PASTE_RESULT_SERVICE_NOT_CONNECTED@),
{
    chars_eq(&to_chars(reason), &to_chars(PASTE_RESULT_SERVICE_NOT_CONNECTED))
}

/// What to do after one accessibility paste attempt.
#[derive(Debug, Clone, PartialEq, Eq)]
pub enum PasteStep {
    /// Report this result.
    Finish(String),
    /// Wait briefly and paste once more; report the second result.
    Retry,
}

/// Decides the next step after the first paste attempt returned `first`:
/// success and non-retryable failures are reported as they are, an
/// unreachable service is retried once.
pub fn paste_step_after(first: String) -> (r: PasteStep)
    ensures
        first@ == PASTE_RESULT_SUCCESS@ ==> r == PasteStep::Finish(first),
        first@ != PASTE_RESULT_SUCCESS@ && first@ == PASTE_RESULT_SERVICE_NOT_CONNECTED@ ==> r
            == PasteStep::Retry,
        first@ != PASTE_RESULT_SUCCESS@ && first@ != PASTE_RESULT_SERVICE_NOT_CONNECTED@ ==> r
            == PasteStep::Finish(first),
{
    if chars_eq(&to_chars(first.as_str()), &to_chars(PASTE_RESULT_SUCCESS)) {
        return PasteStep::Finish(first);
    }
    if should_retry_paste_after_failure(first.as_str()) {
        return PasteStep::Retry;
    }
    PasteStep::Finish(first)
}

// ───────────────────────────── input method ─────────────────────────────

/// State of the OpenLess input method.
#[derive(Debug, Clone, Copy, PartialEq, Eq, Structural)]
pub enum AndroidImeState {
    Enabled,
    NotEnabled,
    NotAndroid,
}

/// Status of the OpenLess input method as shown in settings.
#[derive(Debug, Clone, PartialEq, Eq)]
pub struct AndroidImeStatus {
    pub state: AndroidImeState,
    pub enabled: bool,
    pub selected: bool,
    pub message: String,
}

/// Outcome of committing text through the input method.
#[derive(Debug, Clone, PartialEq, Eq)]
pub struct AndroidImeCommitResult {
    pub committed: bool,
    pub message: String,
}

/// Input-method status off Android.
pub fn get_android_ime_status() -> (r: AndroidImeStatus)
    ensures
        r.state == AndroidImeState::NotAndroid,
        !r.enabled,
        !r.selected,
        r.message@ == "Android IME backend is only available on Android"@,
{
    AndroidImeStatus {
        state: AndroidImeState::NotAndroid,
        enabled: false,
        selected: false,
        message: owned("Android IME backend is only available on Android"),
    }
}

/// The input-method status derived from what Android reports: `(enabled,
/// selected)`, or why that could not be read.
pub fn ime_status_from(read: Result<(bool, bool), String>) -> (r: AndroidImeStatus)
    ensures
        match read {
            Err(e) => r.state == AndroidImeState::NotEnabled && !r.enabled && !r.selected && r.message@
                == e@,
            Ok((enabled, selected)) => r.enabled == enabled && r.selected == selected && r.state == (
            if selected {
                AndroidImeState::Enabled
            } else {
                AndroidImeState::NotEnabled
            }) && r.message@ == (if selected {
                "OpenLess 输入法已选中"@
            } else if enabled {
                "OpenLess 输入法已启用，但未选中"@
            } else {
                "请在系统设置中启用 OpenLess 输入法"@
            }),
        },
{
    match read {
        Ok((enabled, selected)) => AndroidImeStatus {
            state: if selected {
                AndroidImeState::Enabled
            } else {
                AndroidImeState::NotEnabled
            },
            enabled,
            selected,
            message: if selected {
                owned("OpenLess 输入法已选中")
            } else if enabled {
                owned("OpenLess 输入法已启用，但未选中")
            } else {
                owned("请在系统设置中启用 OpenLess 输入法")
            },
        },
        Err(error) => AndroidImeStatus {
            state: AndroidImeState::NotEnabled,
            enabled: false,
            selected: false,
            message: error,
        },
    }
}

/// Off Android the input-method settings cannot be opened.
pub fn request_android_ime_settings() -> (r: Result<(), String>)
    ensures
        r matches Err(e) && e@ == "Android IME settings are only available on Android"@,
{
    Err(owned("Android IME settings are only available on Android"))
}

/// Off Android nothing can be committed through the input method.
pub fn commit_text(text: &str) -> (r: AndroidImeCommitResult)
    ensures
        !r.committed,
        r.message@ == "Android IME commit is only available on Android"@,
{
    AndroidImeCommitResult {
        committed: false,
        message: owned("Android IME commit is only available on Android"),
    }
}

/// `r` is the commit result for what the input method reported: committed,
/// not connected, or an error with its message.
pub open spec fn commit_result_is(r: AndroidImeCommitResult, outcome: Result<bool, String>) -> bool {
    match outcome {
        Ok(true) => r.committed && r.message@ == "committed via OpenLess IME"@,
        Ok(false) => !r.committed && r.message@ == "IME service not connected — enable/select OpenLess keyboard"@,
        Err(e) => !r.committed && r.message@ == e@,
    }
}

/// The commit result derived from what the input method reports for a
/// non-empty text (see [`commit_result_is`]).
pub fn ime_commit_result_from(outcome: Result<bool, String>) -> (r: AndroidImeCommitResult)
    ensures
        commit_result_is(r, outcome),
{
    match outcome {
        Ok(true) => AndroidImeCommitResult {
            committed: true,
            message: owned("committed via OpenLess IME"),
        },
        Ok(false) => AndroidImeCommitResult {
            committed: false,
            message: owned("IME service not connected — enable/select OpenLess keyboard"),
        },
        Err(error) => AndroidImeCommitResult { committed: false, message: error },
    }
}

// ───────────────────────────── overlay ─────────────────────────────

/// Outcome of asking the system to open the overlay permission settings.
#[derive(Debug, Clone, PartialEq, Eq)]
pub struct AndroidOverlayPermissionResult {
    pub launched: bool,
    pub message: String,
}

/// Overlay status off Android.
pub fn get_android_overlay_status() -> (r: AndroidOverlayStatus)
    ensures
        r.permission == AndroidOverlayPermissionState::NotAndroid,
        !r.overlay_visible,
        r.message@ == "Android overlay is only available on Android"@,
{
    AndroidOverlayStatus {
        permission: AndroidOverlayPermissionState::NotAndroid,
        overlay_visible: false,
        message: owned("Android overlay is only available on Android"),
    }
}

/// The overlay status derived from what Android reports.
pub fn overlay_status_from(granted: bool, overlay_visible: bool) -> (r: AndroidOverlayStatus)
    ensures
        r.permission == (if granted {
            AndroidOverlayPermissionState::Granted
        } else {
            AndroidOverlayPermissionState::NotGranted
        }),
        r.overlay_visible == overlay_visible,
        r.message@ == (if granted {
            "悬浮窗权限已授予"@
        } else {
            "请在系统设置中授予悬浮窗权限"@
        }),
{
    AndroidOverlayStatus {
        permission: if granted {
            AndroidOverlayPermissionState::Granted
        } else {
            AndroidOverlayPermissionState::NotGranted
        },
        overlay_visible,
        message: if granted {
            owned("悬浮窗权限已授予")
        } else {
            owned("请在系统设置中授予悬浮窗权限")
        },
    }
}

/// Off Android the overlay permission settings cannot be opened.
pub fn request_android_overlay_permission() -> (r: AndroidOverlayPermissionResult)
    ensures
        !r.launched,
        r.message@ == "Android overlay permission is only available on Android"@,
{
    AndroidOverlayPermissionResult {
        launched: false,
        message: owned("Android overlay permission is only available on Android"),
    }
}

/// The result of a launch request on Android: launched, or the error.
pub fn permission_result_from(outcome: Result<(), String>, launched_message: &str) -> (r:
    AndroidOverlayPermissionResult)
    ensures
        match outcome {
            Ok(()) => r.launched && r.message@ == launched_message@,
            Err(e) => !r.launched && r.message@ == e@,
        },
{
    match outcome {
        Ok(()) => AndroidOverlayPermissionResult { launched: true, message: owned(launched_message) },
        Err(error) => AndroidOverlayPermissionResult { launched: false, message: error },
    }
}

/// Off Android there is no overlay to show.
pub fn show_android_overlay() -> (r: Result<(), String>)
    ensures
        r matches Err(e) && e@ == "Android overlay is only available on Android"@,
{
    Err(owned("Android overlay is only available on Android"))
}

/// Off Android there is no overlay to hide.
pub fn hide_android_overlay() -> (r: Result<(), String>)
    ensures
        r matches Err(e) && e@ == "Android overlay is only available on Android"@,
{
    Err(owned("Android overlay is only available on Android"))
}

// ───────────────────────────── native bridge ─────────────────────────────

/// The dictation capsule's states.
#[derive(Debug, Clone, Copy, PartialEq, Eq, Structural)]
pub enum CapsuleState {
    Idle,
    Recording,
    Transcribing,
    Polishing,
    Done,
    Cancelled,
    Error,
}

/// The capsule state sent to the overlay.
#[derive(Debug, Clone, PartialEq, Eq)]
pub struct CapsulePayload {
    pub state: CapsuleState,
    pub message: Option<String>,
}

/// Wire name of a capsule state.
pub open spec fn capsule_state_label(state: CapsuleState) -> Seq<char> {
    match state {
        CapsuleState::Idle => "idle"@,
        CapsuleState::Recording => "recording"@,
        CapsuleState::Transcribing => "transcribing"@,
        CapsuleState::Polishing => "polishing"@,
        CapsuleState::Done => "done"@,
        CapsuleState::Cancelled => "cancelled"@,
        CapsuleState::Error => "error"@,
    }
}

pub fn capsule_state_name(state: CapsuleState) -> (r: &'static str)
    ensures
        r@ == capsule_state_label(state),
{
    match state {
        CapsuleState::Idle => "idle",
        CapsuleState::Recording => "recording",
        CapsuleState::Transcribing => "transcribing",
        CapsuleState::Polishing => "polishing",
        CapsuleState::Done => "done",
        CapsuleState::Cancelled => "cancelled",
        CapsuleState::Error => "error",
    }
}

/// Wire name of the overlay trigger; `background` while no coordinator is
/// registered.
pub open spec fn trigger_mode_label(trigger: Option<AndroidOverlayTrigger>) -> Seq<char> {
    match trigger {
        None => "background"@,
        Some(AndroidOverlayTrigger::Background) => "background"@,
        Some(AndroidOverlayTrigger::Keyboard) => "keyboard"@,
        Some(AndroidOverlayTrigger::Always) => "always"@,
    }
}

/// The overlay trigger mode name for the registered coordinator's setting
/// (`None` when no coordinator is registered).
pub fn overlay_trigger_mode_name(trigger: Option<AndroidOverlayTrigger>) -> (r: &'static str)
    ensures
        r@ == trigger_mode_label(trigger),
{
    match trigger {
        None => "background",
        Some(AndroidOverlayTrigger::Background) => "background",
        Some(AndroidOverlayTrigger::Keyboard) => "keyboard",
        Some(AndroidOverlayTrigger::Always) => "always",
    }
}

/// Off Android there is no overlay service to notify.
pub fn notify_capsule_state(payload: &CapsulePayload) {
}

/// Off Android showing the overlay is a no-op that succeeds.
pub fn show_overlay() -> (r: Result<(), String>)
    ensures
        r is Ok,
{
    Ok(())
}

/// Off Android hiding the overlay is a no-op that succeeds.
pub fn hide_overlay() -> (r: Result<(), String>)
    ensures
        r is Ok,
{
    Ok(())
}

/// Off Android replacing the overlay is a no-op that succeeds.
pub fn replace_overlay() -> (r: Result<(), String>)
    ensures
        r is Ok,
{
    Ok(())
}

/// Off Android refreshing the overlay layout is a no-op that succeeds.
pub fn refresh_overlay_layout() -> (r: Result<(), String>)
    ensures
        r is Ok,
{
    Ok(())
}

/// Off Android the overlay is never marked visible.
pub fn is_overlay_visible() -> (r: bool)
    ensures
        !r,
{
    false
}

/// Refreshes the overlay layout only while it is visible.
pub fn refresh_overlay_if_visible() -> (r: Result<(), String>)
    ensures
        r is Ok,
{
    if is_overlay_visible() {
        refresh_overlay_layout()
    } else {
        Ok(())
    }
}

/// The overlay service died: it is no longer visible (off Android it never was).
pub fn notify_overlay_destroyed()
    ensures
        !is_overlay_visible_spec(),
{
}

/// Whether the overlay is marked visible (never, off Android).
pub open spec fn is_overlay_visible_spec() -> bool {
    false
}

/// Overlay visibility as the Android bridge tracks it: set by a successful
/// show or replace, cleared by a successful hide or by the service dying.
#[derive(Debug, Clone, Copy, PartialEq, Eq, Structural)]
pub struct OverlayVisibility {
    pub visible: bool,
}

impl OverlayVisibility {
    /// After a show request that the service `accepted`.
    pub fn after_show(self, accepted: bool) -> (r: OverlayVisibility)
        ensures
            r.visible == (accepted || self.visible),
    {
        if accepted {
            OverlayVisibility { visible: true }
        } else {
            self
        }
    }

    /// After a hide request that the service `accepted`.
    pub fn after_hide(self, accepted: bool) -> (r: OverlayVisibility)
        ensures
            r.visible == (!accepted && self.visible),
    {
        if accepted {
            OverlayVisibility { visible: false }
        } else {
            self
        }
    }

    /// After the overlay service reported its own destruction.
    pub fn after_destroyed(self) -> (r: OverlayVisibility)
        ensures
            !r.visible,
    {
        OverlayVisibility { visible: false }
    }

    /// Whether a layout refresh should be sent.
    pub fn should_refresh(self) -> (r: bool)
        ensures
            r == self.visible,
    {
        self.visible
    }
}

/// What the bridge hears about the overlay: a show or replace request and
/// whether the service accepted it, a hide request likewise, or the
/// service's own destruction.
pub enum OverlayEvent {
    Shown(bool),
    Hidden(bool),
    Destroyed,
}

/// Visibility after `events`, starting from `visible` (see
/// [`OverlayVisibility`]).
pub open spec fn visible_after(visible: bool, events: Seq<OverlayEvent>) -> bool
    decreases events.len(),
{
    if events.len() == 0 {
        visible
    } else {
        let v = visible_after(visible, events.drop_last());
        match events.last() {
            OverlayEvent::Shown(accepted) => accepted || v,
            OverlayEvent::Hidden(accepted) => !accepted && v,
            OverlayEvent::Destroyed => false,
        }
    }
}

/// Refreshes the overlay layout through `refresh` only while `visibility`
/// says the overlay is shown; otherwise nothing is sent and the answer is
/// `Ok`.
pub fn refresh_if_visible_with<F: FnOnce() -> Result<(), String>>(visibility: OverlayVisibility, refresh: F) -> (r:
    Result<(), String>)
    requires
        visibility.visible ==> call_requires(refresh, ()),
    ensures
        !visibility.visible ==> r is Ok,
        visibility.visible ==> call_ensures(refresh, (), r),
{
    if visibility.should_refresh() {
        refresh()
    } else {
        Ok(())
    }
}

/// **Dead-service law.** Once the service reported its destruction, and
/// no later show or replace was accepted, the overlay counts as hidden: a
/// refresh sends nothing to the dead service.
pub proof fn lemma_no_refresh_after_destroyed(visible: bool, before: Seq<OverlayEvent>, after: Seq<OverlayEvent>)
    requires
        forall|i: int| 0 <= i < after.len() ==> !(#[trigger] after[i] matches OverlayEvent::Shown(true)),
    ensures
        !visible_after(visible, before.push(OverlayEvent::Destroyed) + after),
    decreases after.len(),
{
    let all = before.push(OverlayEvent::Destroyed) + after;
    if after.len() == 0 {
        assert(all =~= before.push(OverlayEvent::Destroyed));
        assert(all.drop_last() =~= before);
    } else {
        let shorter = after.drop_last();
        assert forall|i: int| 0 <= i < shorter.len() implies !(#[trigger] shorter[i] matches OverlayEvent::Shown(true)) by {
            assert(shorter[i] == after[i]);
        }
        lemma_no_refresh_after_destroyed(visible, before, shorter);
        assert(all.drop_last() =~= before.push(OverlayEvent::Destroyed) + shorter);
        assert(all.last() == after[after.len() - 1]);
    }
}

// ───────────────────────────── insertion ─────────────────────────────

/// One way of getting text into another app.
#[derive(Debug, Clone, Copy, PartialEq, Eq, Structural)]
pub enum InsertAttempt {
    Ime,
    Accessibility,
    Clipboard,
}

/// The attempts made for a strategy, in order; each is made only when the
/// ones before it were unavailable. The clipboard always comes last.
pub open spec fn spec_insert_attempts(strategy: AndroidInsertStrategy) -> Seq<InsertAttempt> {
    match strategy {
        AndroidInsertStrategy::Ime => seq![InsertAttempt::Ime, InsertAttempt::Clipboard],
        AndroidInsertStrategy::Accessibility => seq![InsertAttempt::Accessibility, InsertAttempt::Clipboard],
        AndroidInsertStrategy::Clipboard => seq![InsertAttempt::Clipboard],
        AndroidInsertStrategy::Auto => seq![
            InsertAttempt::Ime,
            InsertAttempt::Accessibility,
            InsertAttempt::Clipboard,
        ],
    }
}

/// **Attempt-order law.** Every strategy but the clipboard one tries its
/// own method first (the input method for `Ime` and `Auto`, accessibility
/// for `Accessibility`, then accessibility for `Auto`), never a method of
/// another strategy, and ends with the clipboard fallback, which comes
/// nowhere else.
pub proof fn lemma_strategy_tries_its_own_method_first(strategy: AndroidInsertStrategy)
    ensures
        spec_insert_attempts(strategy).len() >= 1,
        spec_insert_attempts(strategy).last() == InsertAttempt::Clipboard,
        forall|i: int|
            0 <= i < spec_insert_attempts(strategy).len() - 1 ==> #[trigger] spec_insert_attempts(strategy)[i]
                != InsertAttempt::Clipboard,
        strategy == AndroidInsertStrategy::Ime ==> spec_insert_attempts(strategy)[0] == InsertAttempt::Ime
            && !spec_insert_attempts(strategy).contains(InsertAttempt::Accessibility),
        strategy == AndroidInsertStrategy::Accessibility ==> spec_insert_attempts(strategy)[0]
            == InsertAttempt::Accessibility && !spec_insert_attempts(strategy).contains(InsertAttempt::Ime),
        strategy == AndroidInsertStrategy::Auto ==> spec_insert_attempts(strategy)[0] == InsertAttempt::Ime
            && spec_insert_attempts(strategy)[1] == InsertAttempt::Accessibility,
        strategy == AndroidInsertStrategy::Clipboard ==> spec_insert_attempts(strategy).len() == 1,
{
    let a = spec_insert_attempts(strategy);
    if strategy == AndroidInsertStrategy::Ime {
        assert(!a.contains(InsertAttempt::Accessibility)) by {
            if a.contains(InsertAttempt::Accessibility) {
                let k = choose|k: int| 0 <= k < a.len() && a[k] == InsertAttempt::Accessibility;
                assert(k == 0 || k == 1);
            }
        }
    }
    if strategy == AndroidInsertStrategy::Accessibility {
        assert(!a.contains(InsertAttempt::Ime)) by {
            if a.contains(InsertAttempt::Ime) {
                let k = choose|k: int| 0 <= k < a.len() && a[k] == InsertAttempt::Ime;
                assert(k == 0 || k == 1);
            }
        }
    }
}

/// The ordered insertion attempts for `strategy` (see [`spec_insert_attempts`]).
pub fn insert_attempts(strategy: AndroidInsertStrategy) -> (r: Vec<InsertAttempt>)
    ensures
        r@ == spec_insert_attempts(strategy),
{
    let mut v: Vec<InsertAttempt> = Vec::new();
    match strategy {
        AndroidInsertStrategy::Ime => {
            v.push(InsertAttempt::Ime);
        },
        AndroidInsertStrategy::Accessibility => {
            v.push(InsertAttempt::Accessibility);
        },
        AndroidInsertStrategy::Clipboard => {},
        AndroidInsertStrategy::Auto => {
            v.push(InsertAttempt::Ime);
            v.push(InsertAttempt::Accessibility);
        },
    }
    v.push(InsertAttempt::Clipboard);
    assert(v@ =~= spec_insert_attempts(strategy));
    v
}


/// `r` is what the first attempt of `attempts` that answered gave: that
/// attempt answered `Some(r)` and every one before it answered `None`.
pub open spec fn answered_in_order<F: Fn(InsertAttempt) -> Option<crate::history::InsertStatus>>(
    attempt: F,
    attempts: Seq<InsertAttempt>,
    r: crate::history::InsertStatus,
) -> bool {
    exists|i: int|
        0 <= i < attempts.len() && #[trigger] call_ensures(attempt, (attempts[i],), Some(r)) && forall|j: int|
            0 <= j < i ==> #[trigger] call_ensures(attempt, (attempts[j],), None::<crate::history::InsertStatus>)
}

/// **Own-method law.** When the strategy's own method (the first attempt
/// of every strategy but the clipboard one) can only answer `Some(s)`, the
/// insertion answers `s`: an available input method or accessibility
/// service is used, not the clipboard.
pub proof fn lemma_available_own_method_answers<F: Fn(InsertAttempt) -> Option<crate::history::InsertStatus>>(
    attempt: F,
    strategy: AndroidInsertStrategy,
    s: crate::history::InsertStatus,
    r: crate::history::InsertStatus,
)
    requires
        strategy != AndroidInsertStrategy::Clipboard,
        forall|o: Option<crate::history::InsertStatus>|
            #[trigger] call_ensures(attempt, (spec_insert_attempts(strategy)[0],), o) ==> o == Some(s),
        answered_in_order(attempt, spec_insert_attempts(strategy), r),
    ensures
        r == s,
        strategy == AndroidInsertStrategy::Accessibility ==> spec_insert_attempts(strategy)[0]
            == InsertAttempt::Accessibility,
{
    let a = spec_insert_attempts(strategy);
    let i = choose|i: int|
        0 <= i < a.len() && #[trigger] call_ensures(attempt, (a[i],), Some(r)) && forall|j: int|
            0 <= j < i ==> #[trigger] call_ensures(attempt, (a[j],), None::<crate::history::InsertStatus>);
    if i > 0 {
        assert(call_ensures(attempt, (a[0],), None::<crate::history::InsertStatus>));
    }
}

/// Inserts `text` with `strategy`, making the attempts of
/// [`spec_insert_attempts`] in order through `attempt` until one answers;
/// the clipboard, last, always answers. Empty text is only "copied".
pub fn android_insert_with_strategy<F: Fn(InsertAttempt) -> Option<crate::history::InsertStatus>>(
    text: &str,
    strategy: AndroidInsertStrategy,
    attempt: F,
) -> (r: crate::history::InsertStatus)
    requires
        forall|a: InsertAttempt| call_requires(attempt, (a,)),
        forall|o: Option<crate::history::InsertStatus>| #[trigger] call_ensures(attempt, (InsertAttempt::Clipboard,), o) ==> o is Some,
    ensures
        text@.len() == 0 ==> r == crate::history::InsertStatus::CopiedFallback,
        text@.len() > 0 ==> answered_in_order(attempt, spec_insert_attempts(strategy), r),
{
    if text.unicode_len() == 0 {
        return crate::history::InsertStatus::CopiedFallback;
    }
    let attempts = insert_attempts(strategy);
    let mut i: usize = 0;
    while i < attempts.len()
        invariant
            attempts@ == spec_insert_attempts(strategy),
            i <= attempts@.len(),
            text@.len() > 0,
            i > 0 ==> attempts@[i - 1] != InsertAttempt::Clipboard,
            forall|a: InsertAttempt| call_requires(attempt, (a,)),
            forall|o: Option<crate::history::InsertStatus>| #[trigger] call_ensures(attempt, (InsertAttempt::Clipboard,), o) ==> o is Some,
            forall|j: int| 0 <= j < i ==> #[trigger] call_ensures(
                attempt,
                (spec_insert_attempts(strategy)[j],),
                None::<crate::history::InsertStatus>,
            ),
        decreases attempts.len() - i,
    {
        let a = attempts[i];
        let result = attempt(a);
        match result {
            Some(status) => {
                assert(call_ensures(attempt, (spec_insert_attempts(strategy)[i as int],), Some(status)));
                return status;
            },
            None => {
                if a == InsertAttempt::Clipboard {
                    assert(false);
                }
            },
        }
        i = i + 1;
    }
    // The clipboard, the last attempt of every strategy, always answers.
    proof {
        assert(attempts@.last() == InsertAttempt::Clipboard);
        assert(false);
    }
    crate::history::InsertStatus::CopiedFallback
}

// ───────────────────────────── settings export / import ─────────────────────────────

/// The provider and style-pack choices that the settings page exports.
#[derive(Debug, Clone, PartialEq, Eq, Default)]
pub struct ProviderSelection {
    pub active_asr_provider: String,
    pub active_llm_provider: String,
    pub active_style_pack_id: String,
    pub selection_polish_style_pack_id: String,
}

/// An exported selection. Every field is optional: an import may leave any
/// of them out, and what is left out stays as it was.
#[derive(Debug, Clone, PartialEq, Eq, Default)]
pub struct ExportedPreferencesSubset {
    pub active_asr_provider: Option<String>,
    pub active_llm_provider: Option<String>,
    pub active_style_pack_id: Option<String>,
    pub selection_polish_style_pack_id: Option<String>,
}

/// The imported value when there is one, else the current one.
pub open spec fn imported_or(v: Option<String>, current: String) -> Seq<char> {
    match v {
        Some(x) => x@,
        None => current@,
    }
}

/// `after` is `before` with the fields present in `subset` taken over.
pub open spec fn subset_applied(
    before: ProviderSelection,
    subset: ExportedPreferencesSubset,
    after: ProviderSelection,
) -> bool {
    &&& after.active_asr_provider@ == imported_or(subset.active_asr_provider, before.active_asr_provider)
    &&& after.active_llm_provider@ == imported_or(subset.active_llm_provider, before.active_llm_provider)
    &&& after.active_style_pack_id@ == imported_or(subset.active_style_pack_id, before.active_style_pack_id)
    &&& after.selection_polish_style_pack_id@ == imported_or(
        subset.selection_polish_style_pack_id,
        before.selection_polish_style_pack_id,
    )
}

/// `subset` carries every field of `sel`.
pub open spec fn exports(sel: ProviderSelection, subset: ExportedPreferencesSubset) -> bool {
    &&& subset.active_asr_provider matches Some(x) && x@ == sel.active_asr_provider@
    &&& subset.active_llm_provider matches Some(x) && x@ == sel.active_llm_provider@
    &&& subset.active_style_pack_id matches Some(x) && x@ == sel.active_style_pack_id@
    &&& subset.selection_polish_style_pack_id matches Some(x) && x@ == sel.selection_polish_style_pack_id@
}

fn copy_string(s: &String) -> (r: String)
    ensures
        r@ == s@,
{
    s.clone()
}

/// The export of a selection: every field present.
pub fn export_preferences_subset(sel: &ProviderSelection) -> (r: ExportedPreferencesSubset)
    ensures
        exports(*sel, r),
{
    ExportedPreferencesSubset {
        active_asr_provider: Some(copy_string(&sel.active_asr_provider)),
        active_llm_provider: Some(copy_string(&sel.active_llm_provider)),
        active_style_pack_id: Some(copy_string(&sel.active_style_pack_id)),
        selection_polish_style_pack_id: Some(copy_string(&sel.selection_polish_style_pack_id)),
    }
}

/// Takes over the fields present in `subset`. Returns the imported ASR
/// provider, if any: the credential vault is switched to it before any
/// imported credential is stored, so that those land in its slot.
pub fn import_preferences_subset(sel: &mut ProviderSelection, subset: ExportedPreferencesSubset) -> (r:
    Option<String>)
    ensures
        subset_applied(*old(sel), subset, *final(sel)),
        match r {
            Some(p) => subset.active_asr_provider matches Some(x) && p@ == x@,
            None => subset.active_asr_provider is None,
        },
{
    let mut synced = None;
    if let Some(value) = subset.active_asr_provider {
        synced = Some(copy_string(&value));
        sel.active_asr_provider = value;
    }
    if let Some(value) = subset.active_llm_provider {
        sel.active_llm_provider = value;
    }
    if let Some(value) = subset.active_style_pack_id {
        sel.active_style_pack_id = value;
    }
    if let Some(value) = subset.selection_polish_style_pack_id {
        sel.selection_polish_style_pack_id = value;
    }
    synced
}

/// Importing a selection's own export leaves it as it was.
pub proof fn lemma_import_own_export_is_identity(
    sel: ProviderSelection,
    subset: ExportedPreferencesSubset,
    after: ProviderSelection,
)
    requires
        exports(sel, subset),
        subset_applied(sel, subset, after),
    ensures
        after.active_asr_provider@ == sel.active_asr_provider@,
        after.active_llm_provider@ == sel.active_llm_provider@,
        after.active_style_pack_id@ == sel.active_style_pack_id@,
        after.selection_polish_style_pack_id@ == sel.selection_polish_style_pack_id@,
{
}

/// Importing the same subset twice gives what importing it once gave.
pub proof fn lemma_import_idempotent(
    sel: ProviderSelection,
    subset: ExportedPreferencesSubset,
    once: ProviderSelection,
    twice: ProviderSelection,
)
    requires
        subset_applied(sel, subset, once),
        subset_applied(once, subset, twice),
    ensures
        twice.active_asr_provider@ == once.active_asr_provider@,
        twice.active_llm_provider@ == once.active_llm_provider@,
        twice.active_style_pack_id@ == once.active_style_pack_id@,
        twice.selection_polish_style_pack_id@ == once.selection_polish_style_pack_id@,
{
}

// ───────────────────────────── backend snapshot envelope ─────────────────────────────

/// How the backend snapshot is answered to the overlay: whether it is
/// usable, whether the snapshot itself goes along, and why not.
#[derive(Debug, Clone, Copy, PartialEq, Eq)]
pub struct SnapshotEnvelope {
    pub ok: bool,
    pub payload_included: bool,
    pub error: Option<&'static str>,
}

/// Error of a snapshot asked for while the backend is stopped.
pub const BACKEND_NOT_RUNNING: &'static str = "backend is not running";

/// Error of a snapshot asked for before a backend was registered.
pub const BACKEND_UNAVAILABLE: &'static str = "backend unavailable";

/// The envelope for a backend that is running (`Some(true)`), stopped
/// (`Some(false)`) or not registered (`None`): a running backend's
/// snapshot is usable; a stopped one's goes along with the reason; without
/// a backend there is nothing to send.
pub fn backend_snapshot_envelope(backend_running: Option<bool>) -> (r: SnapshotEnvelope)
    ensures
        r == (match backend_running {
            Some(true) => SnapshotEnvelope { ok: true, payload_included: true, error: None },
            Some(false) => SnapshotEnvelope {
                ok: false,
                payload_included: true,
                error: Some(BACKEND_NOT_RUNNING),
            },
            None => SnapshotEnvelope { ok: false, payload_included: false, error: Some(BACKEND_UNAVAILABLE) },
        }),
{
    match backend_running {
        Some(true) => SnapshotEnvelope { ok: true, payload_included: true, error: None },
        Some(false) => SnapshotEnvelope { ok: false, payload_included: true, error: Some(BACKEND_NOT_RUNNING) },
        None => SnapshotEnvelope { ok: false, payload_included: false, error: Some(BACKEND_UNAVAILABLE) },
    }
}

/// Message of a commit refused because the text is blank.
pub const IME_EMPTY_TEXT: &'static str = "empty text";

/// Commits `text` through the input method that `ime_commit` reaches (as
/// the Android build does): a blank text is refused with "empty text"
/// before the input method is asked; otherwise the result is that of what
/// the input method reported (see [`commit_result_is`]).
pub fn commit_text_with<F: Fn(&str) -> Result<bool, String>>(text: &str, ime_commit: F) -> (r:
    AndroidImeCommitResult)
    requires
        trimmed(text@).len() > 0 ==> call_requires(ime_commit, (text,)),
    ensures
        trimmed(text@).len() == 0 ==> !r.committed && r.message@ == IME_EMPTY_TEXT@,
        trimmed(text@).len() > 0 ==> exists|o: Result<bool, String>|
            #[trigger] call_ensures(ime_commit, (text,), o) && commit_result_is(r, o),
{
    let v = to_chars(text);
    let (a, b) = trim_range(&v);
    if a >= b {
        return AndroidImeCommitResult { committed: false, message: owned(IME_EMPTY_TEXT) };
    }
    let outcome = ime_commit(text);
    ime_commit_result_from(outcome)
}

/// What an input-method attempt answers: inserted when the text was
/// committed; otherwise the next way is tried.
pub fn ime_attempt(commit: &AndroidImeCommitResult) -> (r: Option<crate::history::InsertStatus>)
    ensures
        r == (if commit.committed {
            Some(crate::history::InsertStatus::Inserted)
        } else {
            None
        }),
{
    if commit.committed {
        Some(crate::history::InsertStatus::Inserted)
    } else {
        None
    }
}

/// An accessibility attempt: nothing is tried while the service is off;
/// otherwise the text is put on the clipboard, and only when that worked
/// is it pasted. A successful paste inserted the text; a failed one leaves
/// it on the clipboard. `None` means the next way is tried.
pub fn accessibility_attempt<E: Fn() -> bool, C: Fn() -> crate::history::InsertStatus, P: Fn() -> bool>(
    service_enabled: E,
    copy: C,
    paste: P,
) -> (r: Option<crate::history::InsertStatus>)
    requires
        call_requires(service_enabled, ()),
        call_requires(copy, ()),
        call_requires(paste, ()),
    ensures
        r is None ==> call_ensures(service_enabled, (), false) || (call_ensures(service_enabled, (), true)
            && exists|c: crate::history::InsertStatus|
                #[trigger] call_ensures(copy, (), c) && c != crate::history::InsertStatus::CopiedFallback),
        r == Some(crate::history::InsertStatus::Inserted) ==> call_ensures(service_enabled, (), true)
            && call_ensures(copy, (), crate::history::InsertStatus::CopiedFallback) && call_ensures(paste, (), true),
        r == Some(crate::history::InsertStatus::CopiedFallback) ==> call_ensures(service_enabled, (), true)
            && call_ensures(copy, (), crate::history::InsertStatus::CopiedFallback) && call_ensures(paste, (), false),
        r != Some(crate::history::InsertStatus::Failed),
{
    if !service_enabled() {
        return None;
    }
    let copied = copy();
    match copied {
        crate::history::InsertStatus::CopiedFallback => {},
        _ => {
            return None;
        },
    }
    if paste() {
        Some(crate::history::InsertStatus::Inserted)
    } else {
        Some(crate::history::InsertStatus::CopiedFallback)
    }
}

} // verus!
