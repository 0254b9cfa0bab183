//! Host-document reading policy: the safety guard that decides, before any
//! platform call, whether the focused field may be read at all, and the
//! cursor-window view of what was read.
use vstd::prelude::*;
use vstd::string::StrSliceExecFns;

use crate::text::{
    has_prefix, lower_seq, lowercase_chars, starts_with_chars, to_chars, trim_range, trimmed,
};

verus! {

/// Default context budget (in chars) sent to the LLM.
pub const DEFAULT_BUDGET_CHARS: usize = 600;

/// Context around the cursor, already cut to budget. `cursor` is a char index
/// into `text`.
#[derive(Debug, Clone, PartialEq, Eq)]
pub struct DocumentWindow {
    pub text: String,
    pub cursor: usize,
}

/// The cursor clamped to the text.
pub open spec fn window_split(text: Seq<char>, cursor: int) -> int {
    if cursor <= text.len() {
        cursor
    } else {
        text.len() as int
    }
}

impl DocumentWindow {
    /// The part before the cursor (what the user has already written).
    pub fn before(&self) -> (r: &str)
        ensures
            r@ == self.text@.subrange(0, window_split(self.text@, self.cursor as int)),
    {
        let n = self.text.as_str().unicode_len();
        let split = if self.cursor <= n {
            self.cursor
        } else {
            n
        };
        self.text.as_str().substring_char(0, split)
    }

    /// The part after the cursor.
    pub fn after(&self) -> (r: &str)
        ensures
            r@ == self.text@.subrange(
                window_split(self.text@, self.cursor as int),
                self.text@.len() as int,
            ),
    {
        let n = self.text.as_str().unicode_len();
        let split = if self.cursor <= n {
            self.cursor
        } else {
            n
        };
        self.text.as_str().substring_char(split, n)
    }
}

/// How a read ended.
#[derive(Debug, Clone, Copy, PartialEq, Eq, Structural)]
pub enum HostDocumentStatus {
    /// Read.
    ReadOk,
    /// Stopped by the safety guard.
    Blocked,
    /// Not implemented on this platform.
    Unsupported,
    /// Reachable but no document (no focus, no text attribute, no permission).
    Unavailable,
    /// No answer in time; the target app is most likely hung.
    Timeout,
}

/// Why the guard refused a read.
#[derive(Debug, Clone, Copy, PartialEq, Eq, Structural)]
pub enum BlockReason {
    /// Secure Event Input is on (password fields, sudo prompts).
    SecureInput,
    /// The focused element's role or subrole is a secure text field.
    SecureTextField,
    /// The frontmost app is a password manager, keychain or terminal.
    BlockedApp,
}

/// Machine-readable name of a [`BlockReason`].
pub open spec fn block_reason_name(r: BlockReason) -> Seq<char> {
    match r {
        BlockReason::SecureInput => "secure_input"@,
        BlockReason::SecureTextField => "secure_text_field"@,
        BlockReason::BlockedApp => "blocked_app"@,
    }
}

impl BlockReason {
    pub fn as_str(self) -> (r: &'static str)
        ensures
            r@ == block_reason_name(self),
    {
        match self {
            BlockReason::SecureInput => "secure_input",
            BlockReason::SecureTextField => "secure_text_field",
            BlockReason::BlockedApp => "blocked_app",
        }
    }
}

/// Full result of one read, with diagnostics.
#[derive(Debug, Clone, PartialEq, Eq)]
pub struct HostDocumentReadResult {
    pub status: HostDocumentStatus,
    /// `BlockReason::as_str()` or the reason the document was unavailable.
    pub reason: Option<String>,
    pub window: Option<DocumentWindow>,
    pub app_name: Option<String>,
    pub bundle_id: Option<String>,
    pub elapsed_ms: u64,
}

impl HostDocumentReadResult {
    /// A result with the given status and reason and nothing else filled in.
    pub fn new(status: HostDocumentStatus, reason: Option<String>) -> (r: HostDocumentReadResult)
        ensures
            r.status == status,
            r.reason == reason,
            r.window is None,
            r.app_name is None,
            r.bundle_id is None,
            r.elapsed_ms == 0,
    {
        HostDocumentReadResult {
            status,
            reason,
            window: None,
            app_name: None,
            bundle_id: None,
            elapsed_ms: 0,
        }
    }
}

/// The result for a read the guard refused.
pub fn blocked_result(reason: BlockReason) -> (r: HostDocumentReadResult)
    ensures
        r.status == HostDocumentStatus::Blocked,
        r.reason matches Some(s) && s@ == block_reason_name(reason),
        r.window is None,
        r.elapsed_ms == 0,
{
    let mut s = String::new();
    crate::text::push_str_chars(&mut s, reason.as_str());
    HostDocumentReadResult::new(HostDocumentStatus::Blocked, Some(s))
}

/// Inputs of the safety guard, as plain data so that the decision can be
/// checked apart from any platform API.
#[derive(Debug, Clone, PartialEq, Eq)]
pub struct GateInputs {
    /// Whether Secure Event Input is on.
    pub secure_input: bool,
    /// Bundle id of the frontmost app.
    pub bundle_id: Option<String>,
    /// `AXRole` of the focused element.
    pub role: Option<String>,
    /// `AXSubrole` of the focused element.
    pub subrole: Option<String>,
}

impl Default for GateInputs {
    fn default() -> (r: GateInputs)
        ensures
            !r.secure_input,
            r.bundle_id is None,
            r.role is None,
            r.subrole is None,
    {
        GateInputs { secure_input: false, bundle_id: None, role: None, subrole: None }
    }
}

/// Bundle-id prefixes (lower case) of password managers and keychains.
pub open spec fn sensitive_bundle_prefixes() -> Seq<Seq<char>> {
    seq![
        "com.1password"@,
        "com.agilebits.onepassword"@,
        "com.apple.keychainaccess"@,
        "com.bitwarden"@,
        "com.lastpass"@,
        "com.dashlane"@,
        "org.keepassxc"@,
        "com.kueh.keepassium"@,
        "in.sinew.enpass"@,
        "com.sinew.enpass"@,
        "com.apple.passwords"@,
    ]
}

/// Bundle-id prefixes (lower case) of terminal apps.
pub open spec fn terminal_bundle_prefixes() -> Seq<Seq<char>> {
    seq![
        "com.apple.terminal"@,
        "com.googlecode.iterm2"@,
        "dev.warp.warp"@,
        "com.github.wez.wezterm"@,
        "io.alacritty"@,
        "org.alacritty"@,
        "net.kovidgoyal.kitty"@,
        "co.zeit.hyper"@,
        "org.tabby"@,
        "com.tabby"@,
        "com.mitchellh.ghostty"@,
    ]
}

/// The role / subrole value of a password field, lower case.
pub open spec fn secure_text_field_name() -> Seq<char> {
    "axsecuretextfield"@
}

/// `s`, ASCII-lower-cased, starts with one of `prefixes`.
pub open spec fn starts_with_any(s: Seq<char>, prefixes: Seq<Seq<char>>) -> bool {
    exists|i: int| 0 <= i < prefixes.len() && has_prefix(lower_seq(s), #[trigger] prefixes[i])
}

/// `v`, trimmed, equals `name` ignoring ASCII case.
pub open spec fn is_secure_field_value(v: Option<Seq<char>>) -> bool {
    match v {
        Some(s) => lower_seq(trimmed(s)) == lower_seq(secure_text_field_name()),
        None => false,
    }
}

pub open spec fn opt_view(o: Option<String>) -> Option<Seq<char>> {
    match o {
        Some(s) => Some(s@),
        None => None,
    }
}

/// What [`evaluate_gate`] decides. Checks go from cheapest to dearest:
/// Secure Input, then the bundle id, then the role and subrole.
pub open spec fn spec_gate(g: GateInputs) -> Option<BlockReason> {
    if g.secure_input {
        Some(BlockReason::SecureInput)
    } else if g.bundle_id matches Some(b) && (starts_with_any(b@, sensitive_bundle_prefixes())
        || starts_with_any(b@, terminal_bundle_prefixes())) {
        Some(BlockReason::BlockedApp)
    } else if is_secure_field_value(opt_view(g.role)) || is_secure_field_value(opt_view(g.subrole)) {
        Some(BlockReason::SecureTextField)
    } else {
        None
    }
}

fn sensitive_prefix_list() -> (v: Vec<&'static str>)
    ensures
        v@.len() == sensitive_bundle_prefixes().len(),
        forall|i: int| 0 <= i < v@.len() ==> (#[trigger] v@[i])@ == sensitive_bundle_prefixes()[i],
{
    let mut v: Vec<&'static str> = Vec::new();
    v.push("com.1password");
    v.push("com.agilebits.onepassword");
    v.push("com.apple.keychainaccess");
    v.push("com.bitwarden");
    v.push("com.lastpass");
    v.push("com.dashlane");
    v.push("org.keepassxc");
    v.push("com.kueh.keepassium");
    v.push("in.sinew.enpass");
    v.push("com.sinew.enpass");
    v.push("com.apple.passwords");
    v
}

fn terminal_prefix_list() -> (v: Vec<&'static str>)
    ensures
        v@.len() == terminal_bundle_prefixes().len(),
        forall|i: int| 0 <= i < v@.len() ==> (#[trigger] v@[i])@ == terminal_bundle_prefixes()[i],
{
    let mut v: Vec<&'static str> = Vec::new();
    v.push("com.apple.terminal");
    v.push("com.googlecode.iterm2");
    v.push("dev.warp.warp");
    v.push("com.github.wez.wezterm");
    v.push("io.alacritty");
    v.push("org.alacritty");
    v.push("net.kovidgoyal.kitty");
    v.push("co.zeit.hyper");
    v.push("org.tabby");
    v.push("com.tabby");
    v.push("com.mitchellh.ghostty");
    v
}

/// Whether `bundle_id`, lower-cased, starts with one of `prefixes`.
fn bundle_id_starts_with_any(bundle_id: &str, prefixes: &Vec<&'static str>) -> (r: bool)
    ensures
        r == exists|i: int|
            0 <= i < prefixes@.len() && has_prefix(lower_seq(bundle_id@), (#[trigger] prefixes@[i])@),
{
    let lowered = lowercase_chars(&to_chars(bundle_id));
    let mut i: usize = 0;
    while i < prefixes.len()
        invariant
            i <= prefixes.len(),
            lowered@ == lower_seq(bundle_id@),
            forall|j: int| 0 <= j < i ==> !has_prefix(lower_seq(bundle_id@), (#[trigger] prefixes@[j])@),
        decreases prefixes.len() - i,
    {
        let p = to_chars(prefixes[i]);
        if starts_with_chars(&lowered, &p) {
            return true;
        }
        i = i + 1;
    }
    false
}

/// Whether `bundle_id` belongs to a known terminal app.
pub fn is_terminal_bundle_id(bundle_id: &str) -> (r: bool)
    ensures
        r == starts_with_any(bundle_id@, terminal_bundle_prefixes()),
{
    let list = terminal_prefix_list();
    let r = bundle_id_starts_with_any(bundle_id, &list);
    proof {
        if r {
            let i = choose|i: int|
                0 <= i < list@.len() && has_prefix(lower_seq(bundle_id@), (#[trigger] list@[i])@);
            assert(has_prefix(lower_seq(bundle_id@), terminal_bundle_prefixes()[i]));
        } else {
            assert forall|i: int| 0 <= i < terminal_bundle_prefixes().len() implies !has_prefix(
                lower_seq(bundle_id@),
                #[trigger] terminal_bundle_prefixes()[i],
            ) by {
                assert(list@[i]@ == terminal_bundle_prefixes()[i]);
            }
        }
    }
    r
}

fn is_sensitive_bundle_id(bundle_id: &str) -> (r: bool)
    ensures
        r == starts_with_any(bundle_id@, sensitive_bundle_prefixes()),
{
    let list = sensitive_prefix_list();
    let r = bundle_id_starts_with_any(bundle_id, &list);
    proof {
        if r {
            let i = choose|i: int|
                0 <= i < list@.len() && has_prefix(lower_seq(bundle_id@), (#[trigger] list@[i])@);
            assert(has_prefix(lower_seq(bundle_id@), sensitive_bundle_prefixes()[i]));
        } else {
            assert forall|i: int| 0 <= i < sensitive_bundle_prefixes().len() implies !has_prefix(
                lower_seq(bundle_id@),
                #[trigger] sensitive_bundle_prefixes()[i],
            ) by {
                assert(list@[i]@ == sensitive_bundle_prefixes()[i]);
            }
        }
    }
    r
}

fn is_secure_field(value: &Option<String>) -> (r: bool)
    ensures
        r == is_secure_field_value(opt_view(*value)),
{
    match value {
        None => false,
        Some(v) => {
            let chars = to_chars(v.as_str());
            let (a, b) = trim_range(&chars);
            let mut trimmed_v: Vec<char> = Vec::new();
            let mut i = a;
            while i < b
                invariant
                    a <= i <= b <= chars.len(),
                    trimmed_v@ == chars@.subrange(a as int, i as int),
                decreases b - i,
            {
                trimmed_v.push(chars[i]);
                i = i + 1;
            }
            let lowered = lowercase_chars(&trimmed_v);
            let name = lowercase_chars(&to_chars("axsecuretextfield"));
            crate::text::chars_eq(&lowered, &name)
        },
    }
}

/// The guard: `Some(reason)` blocks the read, `None` lets it through (see
/// [`spec_gate`]).
pub fn evaluate_gate(inputs: &GateInputs) -> (r: Option<BlockReason>)
    ensures
        r == spec_gate(*inputs),
{
    if inputs.secure_input {
        return Some(BlockReason::SecureInput);
    }
    match &inputs.bundle_id {
        Some(bundle) => {
            if is_sensitive_bundle_id(bundle.as_str()) || is_terminal_bundle_id(bundle.as_str()) {
                return Some(BlockReason::BlockedApp);
            }
        },
        None => {},
    }
    if is_secure_field(&inputs.role) || is_secure_field(&inputs.subrole) {
        return Some(BlockReason::SecureTextField);
    }
    None
}

/// **Guard law.** Secure Input blocks whatever else the inputs say, and a
/// bundle id that matches a blocked prefix blocks regardless of the
/// focused element.
pub proof fn lemma_gate_priorities(g: GateInputs)
    ensures
        g.secure_input ==> spec_gate(g) == Some(BlockReason::SecureInput),
        !g.secure_input && (g.bundle_id matches Some(b) && starts_with_any(
            b@,
            terminal_bundle_prefixes(),
        )) ==> spec_gate(g) == Some(BlockReason::BlockedApp),
        spec_gate(g) is None ==> !g.secure_input && !is_secure_field_value(opt_view(g.role))
            && !is_secure_field_value(opt_view(g.subrole)),
{
}

/// Executable names (lower case) whose windows are never read on Windows:
/// this app, password managers, terminals and editors with terminals.
pub open spec fn blocked_process_names() -> Seq<Seq<char>> {
    seq![
        "openless.exe"@,
        "1password.exe"@,
        "bitwarden.exe"@,
        "keepass.exe"@,
        "keepassxc.exe"@,
        "dashlane.exe"@,
        "lastpass.exe"@,
        "keeperpasswordmanager.exe"@,
        "enpass.exe"@,
        "cmd.exe"@,
        "powershell.exe"@,
        "pwsh.exe"@,
        "windowsterminal.exe"@,
        "wt.exe"@,
        "conhost.exe"@,
        "openconsole.exe"@,
        "mintty.exe"@,
        "wezterm-gui.exe"@,
        "alacritty.exe"@,
        "code.exe"@,
        "cursor.exe"@,
        "windsurf.exe"@,
    ]
}

pub open spec fn is_path_sep(c: char) -> bool {
    c == '\\' || c == '/'
}

/// Start of the last path component of `s[..j]`.
pub open spec fn name_start(s: Seq<char>, j: int) -> int
    decreases j,
{
    if 0 < j <= s.len() && !is_path_sep(s[j - 1]) {
        name_start(s, j - 1)
    } else {
        j
    }
}

/// The last path component of `s`.
pub open spec fn file_name(s: Seq<char>) -> Seq<char> {
    s.subrange(name_start(s, s.len() as int), s.len() as int)
}

proof fn lemma_name_start(s: Seq<char>, j: int)
    requires
        0 <= j <= s.len(),
    ensures
        0 <= name_start(s, j) <= j,
    decreases j,
{
    if 0 < j && !is_path_sep(s[j - 1]) {
        lemma_name_start(s, j - 1);
    }
}

fn blocked_process_list() -> (v: Vec<&'static str>)
    ensures
        v@.len() == blocked_process_names().len(),
        forall|i: int| 0 <= i < v@.len() ==> (#[trigger] v@[i])@ == blocked_process_names()[i],
{
    let mut v: Vec<&'static str> = Vec::new();
    v.push("openless.exe");
    v.push("1password.exe");
    v.push("bitwarden.exe");
    v.push("keepass.exe");
    v.push("keepassxc.exe");
    v.push("dashlane.exe");
    v.push("lastpass.exe");
    v.push("keeperpasswordmanager.exe");
    v.push("enpass.exe");
    v.push("cmd.exe");
    v.push("powershell.exe");
    v.push("pwsh.exe");
    v.push("windowsterminal.exe");
    v.push("wt.exe");
    v.push("conhost.exe");
    v.push("openconsole.exe");
    v.push("mintty.exe");
    v.push("wezterm-gui.exe");
    v.push("alacritty.exe");
    v.push("code.exe");
    v.push("cursor.exe");
    v.push("windsurf.exe");
    v
}

/// Whether the process at `path` must never have its fields read: its file
/// name, lower-cased, is one of [`blocked_process_names`].
pub fn blocked_process(path: &str) -> (r: bool)
    ensures
        r == blocked_process_names().contains(lower_seq(file_name(path@))),
{
    let chars = to_chars(path);
    let mut start = chars.len();
    while start > 0 && chars[start - 1] != '\\' && chars[start - 1] != '/'
        invariant
            start <= chars.len(),
            chars@ == path@,
            name_start(path@, start as int) == name_start(path@, path@.len() as int),
        decreases start,
    {
        start = start - 1;
    }
    let mut name: Vec<char> = Vec::new();
    let mut i = start;
    while i < chars.len()
        invariant
            start <= i <= chars.len(),
            name@ == chars@.subrange(start as int, i as int),
        decreases chars.len() - i,
    {
        name.push(chars[i]);
        i = i + 1;
    }
    let lowered = lowercase_chars(&name);
    let list = blocked_process_list();
    let mut k: usize = 0;
    while k < list.len()
        invariant
            k <= list.len(),
            lowered@ == lower_seq(file_name(path@)),
            list@.len() == blocked_process_names().len(),
            forall|i: int| 0 <= i < list@.len() ==> (#[trigger] list@[i])@ == blocked_process_names()[i],
            forall|j: int| 0 <= j < k ==> blocked_process_names()[j] != lowered@,
        decreases list.len() - k,
    {
        let entry = to_chars(list[k]);
        if crate::text::chars_eq(&entry, &lowered) {
            assert(blocked_process_names()[k as int] == lowered@);
            return true;
        }
        k = k + 1;
    }
    false
}


/// A running watch for hand edits and selections inside inserted text.
/// Without a platform observer (everywhere but macOS) there is nothing to
/// stop.
#[derive(Debug)]
pub struct EditWatcher {}

impl EditWatcher {
    /// Stops the watch; repeated calls do nothing more.
    pub fn disarm(&self) {
    }
}

/// Starts watching the inserted `typed_text` for hand edits and for
/// selections inside it. No platform observer exists here, so no watch is
/// started and the callbacks are never called.
pub fn watch_for_edits_and_selection<F, S>(typed_text: String, on_edit: F, on_selection: S) -> (r: Option<
    EditWatcher,
>)
    ensures
        r is None,
{
    None
}

} // verus!
