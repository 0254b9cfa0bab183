//! Verified core of the OpenLess voice-input app.
use vstd::prelude::*;

pub mod android;
pub mod asr;
pub mod audio_stream;
pub mod diff;
pub mod edit_plan;
pub mod edit_session;
pub mod event_replay;
pub mod external_url;
pub mod hold_source;
pub mod history;
pub mod host_document;
pub mod ios;
pub mod linux_evdev;
pub mod markdown;
pub mod marketplace;
pub mod batch;
pub mod qa_view;
pub mod recording_recovery;
pub mod restore_runtime;
pub mod selection_correction;
pub mod selection_voice;
pub mod segments;
pub mod streaming;
pub mod text;
pub mod updater;
pub mod wav;
