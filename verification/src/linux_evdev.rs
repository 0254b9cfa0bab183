//! Decisions of the Linux evdev input monitor: which key edges count,
//! when a mouse button starts or ends a hold, and whether anything needs
//! watching for the current preferences.
use vstd::prelude::*;

use crate::hold_source::TriggerSource;
use crate::text::{has_suffix, push_str_chars};

verus! {

/// A hotkey edge handed to the dictation loop.
#[derive(Debug, Clone, Copy, PartialEq, Eq)]
pub enum HotkeyEvent {
    Pressed,
    Released,
}

/// A keyboard shortcut: a primary key and its modifiers, such as
/// `cmd-left` or `shift`.
#[derive(Debug, Clone, PartialEq, Eq)]
pub struct ShortcutBinding {
    pub primary: String,
    pub modifiers: Vec<String>,
}

/// Which mouse buttons start dictation.
#[derive(Debug, Clone, Copy, PartialEq, Eq)]
pub struct MouseDictationConfig {
    pub middle_enabled: bool,
    pub side_enabled: bool,
}

/// The preferences the monitor reads.
#[derive(Debug, Clone, PartialEq, Eq)]
pub struct UserPreferences {
    pub dictation_hotkey: ShortcutBinding,
    pub mouse_middle_button_dictation: bool,
    pub mouse_side_button_dictation: bool,
}

impl Default for UserPreferences {
    /// Dictation on the right Option key alone; mouse buttons off.
    fn default() -> (r: Self)
        ensures
            r.dictation_hotkey.primary@ == "RightOption"@,
            r.dictation_hotkey.modifiers@.len() == 0,
            !r.mouse_middle_button_dictation,
            !r.mouse_side_button_dictation,
    {
        let mut primary = String::new();
        push_str_chars(&mut primary, "RightOption");
        UserPreferences {
            dictation_hotkey: ShortcutBinding { primary, modifiers: Vec::new() },
            mouse_middle_button_dictation: false,
            mouse_side_button_dictation: false,
        }
    }
}

/// A modifier that names a side of the keyboard (`cmd-left`,
/// `shift-right`, ...).
pub open spec fn is_side_modifier(m: Seq<char>) -> bool {
    has_suffix(m, "-left"@) || has_suffix(m, "-right"@)
}

/// The binding needs a hook that tells left from right modifiers.
pub open spec fn spec_requires_side_aware_hook(binding: ShortcutBinding) -> bool {
    exists|i: int| 0 <= i < binding.modifiers@.len() && #[trigger] is_side_modifier(binding.modifiers@[i]@)
}

/// Whether some modifier of `binding` is side specific.
pub fn binding_requires_side_aware_hook(binding: &ShortcutBinding) -> (r: bool)
    ensures
        r == spec_requires_side_aware_hook(*binding),
{
    let left = crate::text::to_chars("-left");
    let right = crate::text::to_chars("-right");
    let mut i: usize = 0;
    while i < binding.modifiers.len()
        invariant
            left@ == "-left"@,
            right@ == "-right"@,
            i <= binding.modifiers@.len(),
            forall|j: int| 0 <= j < i ==> !#[trigger] is_side_modifier(binding.modifiers@[j]@),
        decreases binding.modifiers.len() - i,
    {
        let m = crate::text::to_chars(binding.modifiers[i].as_str());
        if crate::text::ends_with_chars(&m, &left) || crate::text::ends_with_chars(&m, &right) {
            assert(is_side_modifier(binding.modifiers@[i as int]@));
            return true;
        }
        i = i + 1;
    }
    false
}

/// Two bindings with the same primary key and the same modifiers, in order.
pub open spec fn same_binding(a: ShortcutBinding, b: ShortcutBinding) -> bool {
    a.primary == b.primary && a.modifiers@ == b.modifiers@
}

/// What the monitor watches: a side-aware combo, mouse buttons, or both.
#[derive(Debug, Clone, PartialEq, Eq)]
pub struct LinuxEvdevConfig {
    pub side_combo: Option<ShortcutBinding>,
    pub mouse: MouseDictationConfig,
}

/// The monitor configuration for `prefs`: the dictation hotkey when it
/// needs the side-aware hook, and the two mouse switches.
pub fn config_from_prefs(prefs: &UserPreferences) -> (r: LinuxEvdevConfig)
    ensures
        match r.side_combo {
            Some(b) => spec_requires_side_aware_hook(prefs.dictation_hotkey) && same_binding(b, prefs.dictation_hotkey),
            None => !spec_requires_side_aware_hook(prefs.dictation_hotkey),
        },
        r.mouse.middle_enabled == prefs.mouse_middle_button_dictation,
        r.mouse.side_enabled == prefs.mouse_side_button_dictation,
{
    let side_combo = if binding_requires_side_aware_hook(&prefs.dictation_hotkey) {
        Some(clone_binding(&prefs.dictation_hotkey))
    } else {
        None
    };
    LinuxEvdevConfig {
        side_combo,
        mouse: MouseDictationConfig {
            middle_enabled: prefs.mouse_middle_button_dictation,
            side_enabled: prefs.mouse_side_button_dictation,
        },
    }
}

fn clone_binding(b: &ShortcutBinding) -> (r: ShortcutBinding)
    ensures
        same_binding(r, *b),
{
    let primary = b.primary.clone();
    let mut modifiers: Vec<String> = Vec::new();
    let mut i: usize = 0;
    while i < b.modifiers.len()
        invariant
            i <= b.modifiers@.len(),
            modifiers@ == b.modifiers@.subrange(0, i as int),
        decreases b.modifiers.len() - i,
    {
        modifiers.push(b.modifiers[i].clone());
        i = i + 1;
        assert(modifiers@ =~= b.modifiers@.subrange(0, i as int));
    }
    assert(modifiers@ =~= b.modifiers@);
    ShortcutBinding { primary, modifiers }
}

/// Something to watch: a mouse button, or a combo that needs the
/// side-aware hook.
pub open spec fn spec_monitor_needed(config: LinuxEvdevConfig) -> bool {
    config.mouse.middle_enabled || config.mouse.side_enabled || match config.side_combo {
        Some(b) => spec_requires_side_aware_hook(b),
        None => false,
    }
}

/// Whether the evdev monitor has anything to watch.
pub fn monitor_needed(config: &LinuxEvdevConfig) -> (r: bool)
    ensures
        r == spec_monitor_needed(*config),
{
    config.mouse.middle_enabled || config.mouse.side_enabled || match &config.side_combo {
        Some(b) => binding_requires_side_aware_hook(b),
        None => false,
    }
}

/// Why a monitor with nothing to watch is not started.
pub const NOTHING_TO_WATCH: &'static str = "linux evdev monitor has nothing to watch";

/// The check made before a monitor thread starts: refused exactly when
/// there is nothing to watch.
pub fn check_start(config: &LinuxEvdevConfig) -> (r: Result<(), String>)
    ensures
        match r {
            Ok(()) => spec_monitor_needed(*config),
            Err(e) => !spec_monitor_needed(*config) && e@ == NOTHING_TO_WATCH@,
        },
{
    if monitor_needed(config) {
        Ok(())
    } else {
        let mut e = String::new();
        push_str_chars(&mut e, NOTHING_TO_WATCH);
        Err(e)
    }
}

/// An evdev key value as an edge: 1 is a press, 0 a release, anything else
/// (2, auto-repeat) no edge.
pub fn key_edge_value(value: i32) -> (r: Option<bool>)
    ensures
        r == (if value == 1 {
            Some(true)
        } else if value == 0 {
            Some(false)
        } else {
            None
        }),
{
    if value == 0 {
        Some(false)
    } else if value == 1 {
        Some(true)
    } else {
        None
    }
}

/// A mouse button edge against the button's held flag: a press of a
/// button not yet held starts a hold, a release of a held button ends it;
/// repeated edges change nothing.
pub fn mouse_edge(held: &mut bool, pressed: bool) -> (r: Option<HotkeyEvent>)
    ensures
        *final(held) == pressed,
        r == edge_event(*old(held), pressed),
{
    let was = *held;
    *held = pressed;
    if pressed && !was {
        Some(HotkeyEvent::Pressed)
    } else if !pressed && was {
        Some(HotkeyEvent::Released)
    } else {
        None
    }
}

/// The event one edge produces against the held flag (see [`mouse_edge`]).
pub open spec fn edge_event(held: bool, pressed: bool) -> Option<HotkeyEvent> {
    if pressed && !held {
        Some(HotkeyEvent::Pressed)
    } else if !pressed && held {
        Some(HotkeyEvent::Released)
    } else {
        None
    }
}

/// The events a button emits for a run of edges, starting from `held`.
pub open spec fn edge_events(held: bool, edges: Seq<bool>) -> Seq<HotkeyEvent>
    decreases edges.len(),
{
    if edges.len() == 0 {
        Seq::empty()
    } else {
        let rest = edge_events(edges[0], edges.subrange(1, edges.len() as int));
        match edge_event(held, edges[0]) {
            Some(e) => seq![e] + rest,
            None => rest,
        }
    }
}

/// `s` alternates between the two events, starting with `first`.
pub open spec fn alternating(s: Seq<HotkeyEvent>, first: HotkeyEvent) -> bool {
    forall|i: int|
        0 <= i < s.len() ==> #[trigger] s[i] == (if i % 2 == 0 {
            first
        } else if first == HotkeyEvent::Pressed {
            HotkeyEvent::Released
        } else {
            HotkeyEvent::Pressed
        })
}

/// Whatever edges a button sees (repeated presses, stray releases), the
/// events it emits alternate: press, release, press, ... from a released
/// button, release first from a held one.
pub proof fn lemma_edge_events_alternate(held: bool, edges: Seq<bool>)
    ensures
        alternating(
            edge_events(held, edges),
            if held {
                HotkeyEvent::Released
            } else {
                HotkeyEvent::Pressed
            },
        ),
    decreases edges.len(),
{
    if edges.len() > 0 {
        let tail = edges.subrange(1, edges.len() as int);
        lemma_edge_events_alternate(edges[0], tail);
        let rest = edge_events(edges[0], tail);
        match edge_event(held, edges[0]) {
            Some(e) => {
                let all = seq![e] + rest;
                assert forall|i: int| 0 < i < all.len() implies #[trigger] all[i] == rest[i - 1] && ((i - 1) % 2
                    == 0 <==> i % 2 != 0) by {}
            },
            None => {},
        }
    }
}

#[verifier::external_type_specification]
#[verifier::external_body]
#[verifier::reject_recursive_types(T)]
pub struct ExSender<T>(std::sync::mpsc::Sender<T>);

/// `Sender::send` from std; a closed channel is ignored, as the monitor
/// does. Claims only that the pair returned is the one handed to `send`;
/// whether it is delivered depends on the receiver.
#[verifier::external_body]
fn send_event(
    tx: &std::sync::mpsc::Sender<(HotkeyEvent, TriggerSource)>,
    event: HotkeyEvent,
    source: TriggerSource,
) -> (sent: (HotkeyEvent, TriggerSource))
    ensures
        sent == (event, source),
{
    let pair = (event, source);
    let _ = tx.send(pair);
    pair
}

/// Applies a mouse edge (see [`mouse_edge`]) and sends the resulting
/// event, if any, tagged with `source`; returns what was sent.
pub fn dispatch_mouse_edge(
    tx: &std::sync::mpsc::Sender<(HotkeyEvent, TriggerSource)>,
    held: &mut bool,
    source: TriggerSource,
    pressed: bool,
) -> (sent: Option<(HotkeyEvent, TriggerSource)>)
    ensures
        *final(held) == pressed,
        sent == (match edge_event(*old(held), pressed) {
            Some(e) => Some((e, source)),
            None => None,
        }),
{
    match mouse_edge(held, pressed) {
        Some(event) => Some(send_event(tx, event, source)),
        None => None,
    }
}

} // verus!
