//! iOS keyboard extension: its shared transcription settings and whether
//! the system lists it among the enabled keyboards.
use vstd::prelude::*;
use vstd::string::*;

use crate::text::{has_prefix, to_chars};

verus! {

/// Settings the keyboard extension transcribes with.
#[derive(Debug, Clone, PartialEq, Eq)]
pub struct KeyboardConfig {
    /// Base address of an OpenAI-compatible transcription endpoint.
    pub endpoint: String,
    pub api_key: String,
    pub model: String,
    /// Optional prompt that steers the spelling of proper names.
    pub prompt: String,
}

impl Default for KeyboardConfig {
    /// Everything empty: not configured.
    fn default() -> (r: Self)
        ensures
            r.endpoint@.len() == 0 && r.api_key@.len() == 0 && r.model@.len() == 0 && r.prompt@.len() == 0,
    {
        KeyboardConfig { endpoint: String::new(), api_key: String::new(), model: String::new(), prompt: String::new() }
    }
}

impl KeyboardConfig {
    /// Usable once endpoint, key and model are all filled in.
    pub fn is_configured(&self) -> (r: bool)
        ensures
            r == (self.endpoint@.len() > 0 && self.api_key@.len() > 0 && self.model@.len() > 0),
    {
        self.endpoint.as_str().unicode_len() > 0 && self.api_key.as_str().unicode_len() > 0
            && self.model.as_str().unicode_len() > 0
    }
}

/// Whether the keyboard extension is enabled, and the input mode found.
#[derive(Debug, Clone, PartialEq, Eq, Default)]
pub struct KeyboardExtensionStatus {
    pub enabled: bool,
    pub identifier: Option<String>,
}

/// Failure to query the keyboard status.
#[derive(Debug, Clone, PartialEq, Eq)]
pub struct IsKeyboardExtensionEnabledError {
    pub message: String,
}

/// Bundle-id prefix of the app's own keyboards.
pub const KEYBOARD_BUNDLE_ID_PREFIX: &'static str = "com.openless.app.";

/// The status read off the identifiers of the active input modes: enabled
/// with the first identifier of one of the app's keyboards, if any.
pub fn keyboard_status_from_identifiers(identifiers: &Vec<String>) -> (r: KeyboardExtensionStatus)
    ensures
        match r.identifier {
            Some(id) => r.enabled && exists|i: int|
                0 <= i < identifiers@.len() && identifiers@[i] == id && has_prefix(id@, KEYBOARD_BUNDLE_ID_PREFIX@)
                    && forall|j: int| 0 <= j < i ==> !has_prefix(#[trigger] identifiers@[j]@, KEYBOARD_BUNDLE_ID_PREFIX@),
            None => !r.enabled && forall|j: int|
                0 <= j < identifiers@.len() ==> !has_prefix(#[trigger] identifiers@[j]@, KEYBOARD_BUNDLE_ID_PREFIX@),
        },
{
    let prefix = to_chars(KEYBOARD_BUNDLE_ID_PREFIX);
    let mut i: usize = 0;
    while i < identifiers.len()
        invariant
            prefix@ == KEYBOARD_BUNDLE_ID_PREFIX@,
            i <= identifiers@.len(),
            forall|j: int| 0 <= j < i ==> !has_prefix(#[trigger] identifiers@[j]@, KEYBOARD_BUNDLE_ID_PREFIX@),
        decreases identifiers.len() - i,
    {
        if crate::text::starts_with_chars(&to_chars(identifiers[i].as_str()), &prefix) {
            return KeyboardExtensionStatus { enabled: true, identifier: Some(identifiers[i].clone()) };
        }
        i = i + 1;
    }
    KeyboardExtensionStatus { enabled: false, identifier: None }
}

} // verus!
