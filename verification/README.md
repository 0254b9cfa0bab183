# openless

The verified core of the OpenLess voice-input app: the rules, parsers and
state machines behind dictation, selection corrections, speech-recognition
providers and the question panel, each with a Verus contract.

- `src/` is the library. Every function in it is verified by Verus; calls
  into `regex`, `url`, `hmac`/`sha1`, `base64` and a few std functions go
  through small trusted wrappers whose doc comments say what is assumed.
- `tests/` runs the library on concrete values.
- `app/` is a command-line host: the popup's line protocol on stdin/stdout,
  edit plans parsed from JSON (serde) and applied to files with a time bound on
  each regular expression, and the process-wide state the library does not
  hold.

Modules, by area:

| area | modules |
| --- | --- |
| text and formats | `text`, `wav`, `markdown` |
| hand edits and corrections | `diff`, `edit_session`, `edit_plan`, `selection_correction`, `selection_voice` |
| speech recognition | `asr`, `audio_stream`, `batch`, `segments`, `streaming` |
| hosts and platforms | `host_document`, `hold_source`, `linux_evdev`, `restore_runtime`, `recording_recovery`, `android`, `ios`, `external_url` |
| history, updates, marketplace | `history`, `updater`, `marketplace` |
| question panel | `qa_view`, `event_replay` |
