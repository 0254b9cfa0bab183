//! Decisions taken while restored settings are applied to the running host:
//! whether the restore hook may be bound, how the remote-input listener is
//! reconciled, which hotkey monitors a target needs, and what the Android
//! overlay does.
use vstd::prelude::*;

use crate::android::AndroidOverlayTrigger;
use crate::text::push_str_chars;

verus! {

fn owned(s: &str) -> (r: String)
    ensures
        r@ == s@,
{
    let mut r = String::new();
    push_str_chars(&mut r, s);
    r
}

/// Whether the restore hook is bound: not at all after a failed startup
/// (`Ok(false)`), refused while the host is unbound, bound otherwise.
pub fn bind_restore_runtime_effects(startup_failed: bool, host_bound: bool) -> (r: Result<bool, String>)
    ensures
        startup_failed ==> r == Ok::<bool, String>(false),
        !startup_failed && !host_bound ==> (r matches Err(e) && e@ == "restore_host_not_bound"@),
        !startup_failed && host_bound ==> r == Ok::<bool, String>(true),
{
    if startup_failed {
        return Ok(false);
    }
    if !host_bound {
        return Err(owned("restore_host_not_bound"));
    }
    Ok(true)
}

/// The remote-input listener as it runs.
#[derive(Debug, Clone, Copy, PartialEq, Eq)]
pub struct RemoteInputStatus {
    pub enabled: bool,
    pub port: u16,
    pub running: bool,
}

/// What reconciling the listener with a restored target requires.
#[derive(Debug, Clone, Copy, PartialEq, Eq)]
pub enum RemoteInputStep {
    /// It already matches.
    Keep,
    /// Reconfigure it to the target.
    Configure,
    /// Remote input is missing on this platform and the target leaves it off.
    KeepUnsupported,
    /// The listener cannot be reached.
    Unavailable,
}

/// A listener that differs from the target in switch or port, or is
/// enabled but not running, is reconfigured; a platform without it is fine
/// only when the target leaves it off.
pub open spec fn spec_remote_input_step(status: Result<RemoteInputStatus, bool>, enabled: bool, port: u16) -> RemoteInputStep {
    match status {
        Ok(s) => if s.enabled != enabled || s.port != port || (enabled && !s.running) {
            RemoteInputStep::Configure
        } else {
            RemoteInputStep::Keep
        },
        Err(unsupported) => if unsupported && !enabled {
            RemoteInputStep::KeepUnsupported
        } else {
            RemoteInputStep::Unavailable
        },
    }
}

/// See [`spec_remote_input_step`]; a failed status read carries whether
/// the platform lacks remote input.
pub fn remote_input_step(status: Result<RemoteInputStatus, bool>, enabled: bool, port: u16) -> (r: RemoteInputStep)
    ensures
        r == spec_remote_input_step(status, enabled, port),
{
    match status {
        Ok(s) => if s.enabled != enabled || s.port != port || (enabled && !s.running) {
            RemoteInputStep::Configure
        } else {
            RemoteInputStep::Keep
        },
        Err(unsupported) => if unsupported && !enabled {
            RemoteInputStep::KeepUnsupported
        } else {
            RemoteInputStep::Unavailable
        },
    }
}

/// Reconciling twice with the same target asks for nothing the second
/// time: once configured, a running listener with the target's switch and
/// port is kept.
pub proof fn lemma_remote_input_reconcile_settles(enabled: bool, port: u16)
    ensures
        spec_remote_input_step(Ok(RemoteInputStatus { enabled, port, running: true }), enabled, port)
            == RemoteInputStep::Keep,
        spec_remote_input_step(Ok(RemoteInputStatus { enabled: false, port, running: false }), false, port)
            == RemoteInputStep::Keep,
{
}

/// Which monitor serves the dictation hotkey of a restored target.
#[derive(Debug, Clone, Copy, PartialEq, Eq)]
pub enum DictationMonitorChoice {
    /// A legacy modifier trigger or no shortcut: only the modifier
    /// monitor, no combo monitor.
    ModifierOnly,
    /// A combo with side-specific modifiers.
    SideAware,
    /// An ordinary key combo.
    Combo,
}

/// The monitor for the dictation hotkey, from what its binding is.
pub fn dictation_monitor_choice(legacy_trigger: bool, unconfigured: bool, side_aware: bool) -> (r:
    DictationMonitorChoice)
    ensures
        r == (if legacy_trigger || unconfigured {
            DictationMonitorChoice::ModifierOnly
        } else if side_aware {
            DictationMonitorChoice::SideAware
        } else {
            DictationMonitorChoice::Combo
        }),
{
    if legacy_trigger || unconfigured {
        DictationMonitorChoice::ModifierOnly
    } else if side_aware {
        DictationMonitorChoice::SideAware
    } else {
        DictationMonitorChoice::Combo
    }
}

/// The question hotkey gets its own combo monitor when it is set, not a
/// legacy modifier trigger, and configured.
pub fn qa_monitor_needed(present: bool, legacy_trigger: bool, unconfigured: bool) -> (r: bool)
    ensures
        r == (present && !legacy_trigger && !unconfigured),
{
    present && !legacy_trigger && !unconfigured
}

/// The translation hotkey needs a monitor unless it is the built-in Shift
/// trigger, a legacy modifier trigger, or unset.
pub fn translation_monitor_needed(builtin_shift: bool, legacy_trigger: bool, unconfigured: bool) -> (r: bool)
    ensures
        r == (!builtin_shift && !legacy_trigger && !unconfigured),
{
    !builtin_shift && !legacy_trigger && !unconfigured
}

/// What an action hotkey (switch style, open app, quick note) gets.
pub fn action_hotkey_monitor(unconfigured: bool, modifier_only: bool) -> (r: Result<bool, String>)
    ensures
        unconfigured ==> r == Ok::<bool, String>(false),
        !unconfigured && modifier_only ==> (r matches Err(e) && e@ == "unsupported action hotkey"@),
        !unconfigured && !modifier_only ==> r == Ok::<bool, String>(true),
{
    if unconfigured {
        return Ok(false);
    }
    if modifier_only {
        return Err(owned("unsupported action hotkey"));
    }
    Ok(true)
}

/// What a restore does with the Android overlay.
#[derive(Debug, Clone, Copy, PartialEq, Eq)]
pub enum OverlayRestore {
    Replace,
    Hide,
}

/// An always-on overlay is put back; the other triggers hide it.
pub fn restore_overlay_action(trigger: AndroidOverlayTrigger) -> (r: OverlayRestore)
    ensures
        r == (if trigger == AndroidOverlayTrigger::Always {
            OverlayRestore::Replace
        } else {
            OverlayRestore::Hide
        }),
{
    match trigger.normalized() {
        AndroidOverlayTrigger::Always => OverlayRestore::Replace,
        _ => OverlayRestore::Hide,
    }
}

} // verus!
