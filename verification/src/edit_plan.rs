//! Structured edit plans: a list of operations (literal replace, regex
//! replace, char-range replace, full rewrite) applied in order to a draft,
//! with size limits checked before each operation runs.
use vstd::prelude::*;
use vstd::string::*;

use crate::text::{contains_seq, lead_end, occurs_at, push_char, push_range, push_str_chars, to_chars, trail_start, trimmed, trim_range};

verus! {

/// Most operations one plan may hold.
pub const MAX_OPERATIONS: usize = 32;

/// Longest text (in chars) an operation may carry.
pub const MAX_OP_STRING_LEN: usize = 8_192;

/// Longest regex pattern (in chars).
pub const MAX_PATTERN_LEN: usize = 512;

/// Time budget of one regex replacement, in milliseconds.
pub const REGEX_TIMEOUT_MS: u64 = 50;

/// Compiled-program size limit handed to the regex builder (1 MiB).
pub const REGEX_SIZE_LIMIT: usize = 1_048_576;

#[derive(Debug, Clone, Copy, PartialEq, Eq, Default)]
pub struct RegexFlags {
    pub case_insensitive: bool,
    pub multiline: bool,
}

#[derive(Debug, Clone, PartialEq, Eq)]
pub enum EditOperation {
    LiteralReplace { find: String, replace: String },
    RegexReplace { pattern: String, replace: String, flags: RegexFlags },
    RangeReplace { start: u32, end: u32, replace: String },
    FullRewrite { text: String },
}

#[derive(Debug, Clone, PartialEq, Eq)]
pub struct EditPlan {
    pub operations: Vec<EditOperation>,
    pub summary: Option<String>,
}

#[derive(Debug, Clone, PartialEq, Eq)]
pub enum EditApplyError {
    TooManyOperations,
    OperationTooLarge,
    PatternTooLarge,
    EmptyDraft,
    InvalidRange,
    RegexRejected(String),
    RegexTimedOut,
    NoOperations,
}

/// An [`EditApplyError`] with its text taken as a sequence of chars.
pub enum ApplyFailure {
    TooManyOperations,
    OperationTooLarge,
    PatternTooLarge,
    EmptyDraft,
    InvalidRange,
    RegexRejected(Seq<char>),
    RegexTimedOut,
    NoOperations,
}

impl View for EditApplyError {
    type V = ApplyFailure;

    open spec fn view(&self) -> ApplyFailure {
        match self {
            EditApplyError::TooManyOperations => ApplyFailure::TooManyOperations,
            EditApplyError::OperationTooLarge => ApplyFailure::OperationTooLarge,
            EditApplyError::PatternTooLarge => ApplyFailure::PatternTooLarge,
            EditApplyError::EmptyDraft => ApplyFailure::EmptyDraft,
            EditApplyError::InvalidRange => ApplyFailure::InvalidRange,
            EditApplyError::RegexRejected(r) => ApplyFailure::RegexRejected(r@),
            EditApplyError::RegexTimedOut => ApplyFailure::RegexTimedOut,
            EditApplyError::NoOperations => ApplyFailure::NoOperations,
        }
    }
}

/// The outcome of a step: the new text, or why the plan stopped.
pub open spec fn outcome_view(r: Result<String, EditApplyError>) -> Result<Seq<char>, ApplyFailure> {
    match r {
        Ok(t) => Ok(t@),
        Err(e) => Err(e@),
    }
}

impl EditApplyError {
    /// Human-readable description of the error.
    pub fn message(&self) -> (r: String)
        ensures
            r@ == match self {
                EditApplyError::TooManyOperations => "edit plan has too many operations"@,
                EditApplyError::OperationTooLarge => "edit operation exceeds size limit"@,
                EditApplyError::PatternTooLarge => "regex pattern exceeds size limit"@,
                EditApplyError::EmptyDraft => "draft is empty"@,
                EditApplyError::InvalidRange => "range replace indices are invalid"@,
                EditApplyError::RegexRejected(reason) => "regex rejected: "@ + reason@,
                EditApplyError::RegexTimedOut => "regex execution timed out"@,
                EditApplyError::NoOperations => "edit plan has no operations"@,
            },
    {
        let mut r = String::new();
        match self {
            EditApplyError::TooManyOperations => push_str_chars(&mut r, "edit plan has too many operations"),
            EditApplyError::OperationTooLarge => push_str_chars(&mut r, "edit operation exceeds size limit"),
            EditApplyError::PatternTooLarge => push_str_chars(&mut r, "regex pattern exceeds size limit"),
            EditApplyError::EmptyDraft => push_str_chars(&mut r, "draft is empty"),
            EditApplyError::InvalidRange => push_str_chars(&mut r, "range replace indices are invalid"),
            EditApplyError::RegexRejected(reason) => {
                push_str_chars(&mut r, "regex rejected: ");
                push_str_chars(&mut r, reason.as_str());
            },
            EditApplyError::RegexTimedOut => push_str_chars(&mut r, "regex execution timed out"),
            EditApplyError::NoOperations => push_str_chars(&mut r, "edit plan has no operations"),
        }
        r
    }
}

// ───────────────────────────── literal replacement ─────────────────────────────

/// Every non-overlapping occurrence of `find`, scanning from the left,
/// replaced by `rep` (`str::replace`); `s` itself when `find` is empty.
pub open spec fn replace_all(s: Seq<char>, find: Seq<char>, rep: Seq<char>) -> Seq<char>
    decreases s.len(),
{
    if find.len() == 0 || s.len() < find.len() {
        s
    } else if s.subrange(0, find.len() as int) == find {
        rep + replace_all(s.subrange(find.len() as int, s.len() as int), find, rep)
    } else {
        seq![s[0]] + replace_all(s.subrange(1, s.len() as int), find, rep)
    }
}

/// Replacing a text that does not occur changes nothing.
pub proof fn lemma_replace_absent(s: Seq<char>, find: Seq<char>, rep: Seq<char>)
    requires
        !contains_seq(s, find),
    ensures
        replace_all(s, find, rep) == s,
    decreases s.len(),
{
    if find.len() == 0 || s.len() < find.len() {
    } else {
        assert(!occurs_at(s, find, 0));
        let t = s.subrange(1, s.len() as int);
        assert forall|i: int| !occurs_at(t, find, i) by {
            if occurs_at(t, find, i) {
                assert(t.subrange(i, i + find.len()) =~= s.subrange(i + 1, i + 1 + find.len()));
                assert(occurs_at(s, find, i + 1));
            }
        }
        lemma_replace_absent(t, find, rep);
        assert(seq![s[0]] + t =~= s);
    }
}

/// Replaces every non-overlapping occurrence of `find` in `s` by `rep`.
pub fn replace_all_chars(s: &str, find: &str, rep: &str) -> (r: String)
    requires
        find@.len() > 0,
    ensures
        r@ == replace_all(s@, find@, rep@),
{
    let sv = to_chars(s);
    let fv = to_chars(find);
    let n = sv.len();
    let m = fv.len();
    let mut out = String::new();
    let mut i: usize = 0;
    assert(sv@.subrange(0, n as int) =~= sv@);
    assert(out@ + sv@ =~= sv@);
    while i < n
        invariant
            sv@ == s@,
            fv@ == find@,
            n == sv.len(),
            m == fv.len(),
            m > 0,
            i <= n,
            out@ + replace_all(sv@.subrange(i as int, n as int), fv@, rep@) == replace_all(
                sv@,
                fv@,
                rep@,
            ),
        decreases n - i,
    {
        let ghost rest = sv@.subrange(i as int, n as int);
        if n - i < m {
            proof {
                assert(replace_all(rest, fv@, rep@) == rest);
            }
            push_range(&mut out, &sv, i, n);
            i = n;
            proof {
                assert(sv@.subrange(n as int, n as int) =~= Seq::<char>::empty());
                assert(replace_all(Seq::<char>::empty(), fv@, rep@) =~= Seq::<char>::empty());
            }
        } else if crate::text::matches_at(&sv, &fv, i) {
            proof {
                assert(rest.subrange(0, m as int) =~= sv@.subrange(i as int, i + m));
                assert(rest.subrange(m as int, rest.len() as int) =~= sv@.subrange(i + m, n as int));
            }
            push_str_chars(&mut out, rep);
            i = i + m;
        } else {
            proof {
                assert(rest.subrange(0, m as int) =~= sv@.subrange(i as int, i + m));
                assert(rest.subrange(1, rest.len() as int) =~= sv@.subrange(i + 1, n as int));
            }
            push_char(&mut out, sv[i]);
            i = i + 1;
        }
    }
    proof {
        assert(sv@.subrange(n as int, n as int) =~= Seq::<char>::empty());
        assert(replace_all(Seq::<char>::empty(), fv@, rep@) =~= Seq::<char>::empty());
        assert(out@ + Seq::<char>::empty() =~= out@);
    }
    out
}


// ───────────────────────────── regex replacement ─────────────────────────────

#[verifier::external_type_specification]
#[verifier::external_body]
pub struct ExRegex(regex::Regex);

/// The error text `regex` gives for `pattern` built with these flags and
/// this compiled-size limit; `None` when it compiles.
pub uninterp spec fn regex_build_error_of(
    pattern: Seq<char>,
    case_insensitive: bool,
    multiline: bool,
    size_limit: usize,
) -> Option<Seq<char>>;

/// What `Regex::replace_all` makes of `text` with `replacement`, for the
/// regex compiled from `pattern` with these flags.
pub uninterp spec fn regex_replace_all_of(
    pattern: Seq<char>,
    case_insensitive: bool,
    multiline: bool,
    text: Seq<char>,
    replacement: Seq<char>,
) -> Seq<char>;

/// A compiled regex, remembering the pattern and flags it was built from.
pub struct CompiledRegex {
    regex: regex::Regex,
    pattern: Ghost<Seq<char>>,
    case_insensitive: Ghost<bool>,
    multiline: Ghost<bool>,
}

/// `regex::RegexBuilder::new(pattern)` with `case_insensitive`,
/// `multi_line`, `size_limit`, then `build`; a build error is turned into
/// its text.
///
/// Claims only that success and the error text are those named by
/// `regex_build_error_of`, and that the compiled value records its inputs.
#[verifier::external_body]
fn build_regex(pattern: &str, case_insensitive: bool, multiline: bool, size_limit: usize) -> (r: Result<
    CompiledRegex,
    String,
>)
    ensures
        match r {
            Ok(c) => regex_build_error_of(pattern@, case_insensitive, multiline, size_limit) is None
                && c.pattern@ == pattern@ && c.case_insensitive@ == case_insensitive
                && c.multiline@ == multiline,
            Err(e) => regex_build_error_of(pattern@, case_insensitive, multiline, size_limit) == Some(e@),
        },
{
    let mut builder = regex::RegexBuilder::new(pattern);
    builder.case_insensitive(case_insensitive);
    builder.multi_line(multiline);
    match builder.size_limit(size_limit).build() {
        Ok(regex) => Ok(CompiledRegex {
            regex,
            pattern: Ghost(pattern@),
            case_insensitive: Ghost(case_insensitive),
            multiline: Ghost(multiline),
        }),
        Err(error) => Err(error.to_string()),
    }
}

/// `Regex::replace_all`, owned: claims only that the text is
/// `regex_replace_all_of` the regex's inputs, `text` and `replacement`.
#[verifier::external_body]
fn regex_replace_all(re: &CompiledRegex, text: &str, replacement: &str) -> (r: String)
    ensures
        r@ == regex_replace_all_of(re.pattern@, re.case_insensitive@, re.multiline@, text@, replacement@),
{
    re.regex.replace_all(text, replacement).into_owned()
}

/// The quantifier chars that may not follow one another.
pub open spec fn is_quantifier(c: char) -> bool {
    c == '*' || c == '+' || c == '?' || c == '{'
}

/// Two quantifier chars stand side by side somewhere in the pattern.
pub open spec fn has_nested_quantifiers(p: Seq<char>) -> bool {
    exists|i: int| 0 <= i && i + 1 < p.len() && is_quantifier(p[i]) && #[trigger] is_quantifier(p[i + 1])
}

/// Whether two quantifiers (`*`, `+`, `?`, `{`) follow each other directly.
pub fn contains_nested_quantifiers(pattern: &str) -> (r: bool)
    ensures
        r == has_nested_quantifiers(pattern@),
{
    let v = to_chars(pattern);
    let mut prev = false;
    let mut i: usize = 0;
    while i < v.len()
        invariant
            v@ == pattern@,
            i <= v.len(),
            prev == (i > 0 && is_quantifier(v@[i - 1])),
            forall|j: int| 0 <= j && j + 1 < i ==> !(is_quantifier(v@[j]) && #[trigger] is_quantifier(v@[j + 1])),
        decreases v.len() - i,
    {
        let c = v[i];
        let q = c == '*' || c == '+' || c == '?' || c == '{';
        if q && prev {
            assert(is_quantifier(v@[i - 1]) && is_quantifier(v@[(i - 1) + 1]));
            return true;
        }
        prev = q;
        i = i + 1;
    }
    false
}

/// The regex step: a blank pattern leaves the text alone, nested
/// quantifiers are refused, then the pattern is compiled and every match
/// replaced.
pub open spec fn regex_step(text: Seq<char>, pattern: Seq<char>, replacement: Seq<char>, flags: RegexFlags) -> Result<Seq<char>, ApplyFailure> {
    if trimmed(pattern).len() == 0 {
        Ok(text)
    } else if has_nested_quantifiers(pattern) {
        Err(ApplyFailure::RegexRejected("nested quantifiers are not allowed"@))
    } else {
        match regex_build_error_of(pattern, flags.case_insensitive, flags.multiline, REGEX_SIZE_LIMIT) {
            Some(e) => Err(ApplyFailure::RegexRejected(e)),
            None => Ok(regex_replace_all_of(pattern, flags.case_insensitive, flags.multiline, text, replacement)),
        }
    }
}

/// Replaces every match of `pattern` in `text` (see [`regex_step`]).
pub fn apply_regex_replace(text: &str, pattern: &str, replacement: &str, flags: RegexFlags) -> (r: Result<String, EditApplyError>)
    ensures
        outcome_view(r) == regex_step(text@, pattern@, replacement@, flags),
{
    let pv = to_chars(pattern);
    let (a, b) = trim_range(&pv);
    if a == b {
        let mut t = String::new();
        push_str_chars(&mut t, text);
        return Ok(t);
    }
    if contains_nested_quantifiers(pattern) {
        let mut reason = String::new();
        push_str_chars(&mut reason, "nested quantifiers are not allowed");
        return Err(EditApplyError::RegexRejected(reason));
    }
    match build_regex(pattern, flags.case_insensitive, flags.multiline, REGEX_SIZE_LIMIT) {
        Ok(re) => Ok(regex_replace_all(&re, text, replacement)),
        Err(e) => Err(EditApplyError::RegexRejected(e)),
    }
}

// ───────────────────────────── range replacement ─────────────────────────────

/// Chars `start..end` of `text` replaced, when `start <= end <= len`.
pub open spec fn range_step(text: Seq<char>, start: u32, end: u32, replacement: Seq<char>) -> Result<Seq<char>, ApplyFailure> {
    if end < start || start > text.len() || end > text.len() {
        Err(ApplyFailure::InvalidRange)
    } else {
        Ok(text.subrange(0, start as int) + replacement + text.subrange(end as int, text.len() as int))
    }
}

/// Replaces the chars `start..end` (char indices, not bytes).
pub fn apply_range_replace(text: &str, start: u32, end: u32, replacement: &str) -> (r: Result<String, EditApplyError>)
    ensures
        outcome_view(r) == range_step(text@, start, end, replacement@),
{
    if end < start {
        return Err(EditApplyError::InvalidRange);
    }
    let v = to_chars(text);
    let n = v.len();
    if start as usize > n || end as usize > n {
        return Err(EditApplyError::InvalidRange);
    }
    let mut out = String::new();
    push_range(&mut out, &v, 0, start as usize);
    push_str_chars(&mut out, replacement);
    push_range(&mut out, &v, end as usize, n);
    Ok(out)
}

// ───────────────────────────── plans ─────────────────────────────

/// The size check of one operation: texts over [`MAX_OP_STRING_LEN`]
/// chars, or a regex pattern over [`MAX_PATTERN_LEN`], are refused.
pub open spec fn size_violation(op: EditOperation) -> Option<ApplyFailure> {
    match op {
        EditOperation::LiteralReplace { find, replace } => if find@.len() > MAX_OP_STRING_LEN
            || replace@.len() > MAX_OP_STRING_LEN {
            Some(ApplyFailure::OperationTooLarge)
        } else {
            None
        },
        EditOperation::RegexReplace { pattern, replace, .. } => if pattern@.len() > MAX_PATTERN_LEN
            || replace@.len() > MAX_OP_STRING_LEN {
            Some(ApplyFailure::PatternTooLarge)
        } else {
            None
        },
        EditOperation::RangeReplace { replace, .. } => if replace@.len() > MAX_OP_STRING_LEN {
            Some(ApplyFailure::OperationTooLarge)
        } else {
            None
        },
        EditOperation::FullRewrite { text } => if text@.len() > MAX_OP_STRING_LEN {
            Some(ApplyFailure::OperationTooLarge)
        } else {
            None
        },
    }
}

fn validate_operation_size(op: &EditOperation) -> (r: Result<(), EditApplyError>)
    ensures
        match r {
            Ok(()) => size_violation(*op) is None,
            Err(e) => size_violation(*op) == Some(e@),
        },
{
    match op {
        EditOperation::LiteralReplace { find, replace } => {
            if find.as_str().unicode_len() > MAX_OP_STRING_LEN || replace.as_str().unicode_len() > MAX_OP_STRING_LEN {
                return Err(EditApplyError::OperationTooLarge);
            }
        },
        EditOperation::RegexReplace { pattern, replace, .. } => {
            if pattern.as_str().unicode_len() > MAX_PATTERN_LEN || replace.as_str().unicode_len() > MAX_OP_STRING_LEN {
                return Err(EditApplyError::PatternTooLarge);
            }
        },
        EditOperation::RangeReplace { replace, .. } => {
            if replace.as_str().unicode_len() > MAX_OP_STRING_LEN {
                return Err(EditApplyError::OperationTooLarge);
            }
        },
        EditOperation::FullRewrite { text } => {
            if text.as_str().unicode_len() > MAX_OP_STRING_LEN {
                return Err(EditApplyError::OperationTooLarge);
            }
        },
    }
    Ok(())
}

/// One operation applied to `text`.
pub open spec fn operation_step(text: Seq<char>, op: EditOperation) -> Result<Seq<char>, ApplyFailure> {
    match op {
        EditOperation::LiteralReplace { find, replace } => if find@.len() == 0 {
            Ok(text)
        } else {
            Ok(replace_all(text, find@, replace@))
        },
        EditOperation::RegexReplace { pattern, replace, flags } => regex_step(text, pattern@, replace@, flags),
        EditOperation::RangeReplace { start, end, replace } => range_step(text, start, end, replace@),
        EditOperation::FullRewrite { text: t } => Ok(t@),
    }
}

fn apply_operation(text: &str, op: &EditOperation) -> (r: Result<String, EditApplyError>)
    ensures
        outcome_view(r) == operation_step(text@, *op),
{
    match op {
        EditOperation::LiteralReplace { find, replace } => {
            if find.as_str().unicode_len() == 0 {
                let mut t = String::new();
                push_str_chars(&mut t, text);
                return Ok(t);
            }
            Ok(replace_all_chars(text, find.as_str(), replace.as_str()))
        },
        EditOperation::RegexReplace { pattern, replace, flags } => apply_regex_replace(
            text,
            pattern.as_str(),
            replace.as_str(),
            *flags,
        ),
        EditOperation::RangeReplace { start, end, replace } => apply_range_replace(text, *start, *end, replace.as_str()),
        EditOperation::FullRewrite { text: t } => {
            let mut out = String::new();
            push_str_chars(&mut out, t.as_str());
            Ok(out)
        },
    }
}

/// The operations run in order on `text`, each first checked for size;
/// the first failure stops the run.
pub open spec fn run_operations(text: Seq<char>, ops: Seq<EditOperation>) -> Result<Seq<char>, ApplyFailure>
    decreases ops.len(),
{
    if ops.len() == 0 {
        Ok(text)
    } else {
        match size_violation(ops[0]) {
            Some(e) => Err(e),
            None => match operation_step(text, ops[0]) {
                Ok(t) => run_operations(t, ops.subrange(1, ops.len() as int)),
                Err(e) => Err(e),
            },
        }
    }
}

/// Running two lists of operations back to back is running their
/// concatenation: a failure in the first stops everything.
pub proof fn lemma_run_operations_concat(text: Seq<char>, a: Seq<EditOperation>, b: Seq<EditOperation>)
    ensures
        run_operations(text, a + b) == match run_operations(text, a) {
            Ok(t) => run_operations(t, b),
            Err(e) => Err(e),
        },
    decreases a.len(),
{
    if a.len() == 0 {
        assert(a + b =~= b);
    } else {
        assert((a + b)[0] == a[0]);
        assert((a + b).subrange(1, (a + b).len() as int) =~= a.subrange(1, a.len() as int) + b);
        match size_violation(a[0]) {
            Some(e) => {},
            None => match operation_step(text, a[0]) {
                Ok(t) => lemma_run_operations_concat(t, a.subrange(1, a.len() as int), b),
                Err(e) => {},
            },
        }
    }
}

/// A plan applied to a draft: an empty draft, an empty plan and a plan of
/// more than [`MAX_OPERATIONS`] are refused before anything runs.
pub open spec fn plan_outcome(draft: Seq<char>, ops: Seq<EditOperation>) -> Result<Seq<char>, ApplyFailure> {
    if draft.len() == 0 {
        Err(ApplyFailure::EmptyDraft)
    } else if ops.len() == 0 {
        Err(ApplyFailure::NoOperations)
    } else if ops.len() > MAX_OPERATIONS {
        Err(ApplyFailure::TooManyOperations)
    } else {
        run_operations(draft, ops)
    }
}

/// What a plan's checks before any operation answer: the failure that
/// [`plan_outcome`] gives before running anything, if any.
pub open spec fn plan_precheck(draft: Seq<char>, ops: Seq<EditOperation>) -> Option<ApplyFailure> {
    if draft.len() == 0 {
        Some(ApplyFailure::EmptyDraft)
    } else if ops.len() == 0 {
        Some(ApplyFailure::NoOperations)
    } else if ops.len() > MAX_OPERATIONS {
        Some(ApplyFailure::TooManyOperations)
    } else {
        None
    }
}

/// Checks a plan before any operation runs (see [`plan_precheck`]).
pub fn check_plan(draft: &str, plan: &EditPlan) -> (r: Result<(), EditApplyError>)
    ensures
        match r {
            Ok(()) => plan_precheck(draft@, plan.operations@) is None,
            Err(e) => plan_precheck(draft@, plan.operations@) == Some(e@),
        },
{
    if draft.unicode_len() == 0 {
        return Err(EditApplyError::EmptyDraft);
    }
    if plan.operations.len() == 0 {
        return Err(EditApplyError::NoOperations);
    }
    if plan.operations.len() > MAX_OPERATIONS {
        return Err(EditApplyError::TooManyOperations);
    }
    Ok(())
}

/// One operation of a plan: its size checked, then applied.
pub open spec fn plan_step(text: Seq<char>, op: EditOperation) -> Result<Seq<char>, ApplyFailure> {
    match size_violation(op) {
        Some(e) => Err(e),
        None => operation_step(text, op),
    }
}

/// Runs one operation of a plan on `text` (see [`plan_step`]).
pub fn apply_plan_operation(text: &str, op: &EditOperation) -> (r: Result<String, EditApplyError>)
    ensures
        outcome_view(r) == plan_step(text@, *op),
{
    match validate_operation_size(op) {
        Ok(()) => {},
        Err(e) => return Err(e),
    }
    apply_operation(text, op)
}

/// **Step law.** A plan's outcome is its checks, then its operations run
/// one [`plan_step`] after another, the first failure stopping the run.
pub proof fn lemma_plan_runs_step_by_step(draft: Seq<char>, ops: Seq<EditOperation>)
    ensures
        plan_outcome(draft, ops) == match plan_precheck(draft, ops) {
            Some(e) => Err(e),
            None => run_operations(draft, ops),
        },
        ops.len() > 0 ==> run_operations(draft, ops) == match plan_step(draft, ops[0]) {
            Ok(t) => run_operations(t, ops.subrange(1, ops.len() as int)),
            Err(e) => Err(e),
        },
{
}

/// Applies the operations of `plan` to `draft` (see [`plan_outcome`]).
pub fn apply_edit_plan(draft: &str, plan: &EditPlan) -> (r: Result<String, EditApplyError>)
    ensures
        outcome_view(r) == plan_outcome(draft@, plan.operations@),
{
    match check_plan(draft, plan) {
        Ok(()) => {},
        Err(e) => return Err(e),
    }
    let ops = &plan.operations;
    let mut current = String::new();
    push_str_chars(&mut current, draft);
    let mut i: usize = 0;
    assert(ops@.subrange(0, ops@.len() as int) =~= ops@);
    while i < ops.len()
        invariant
            i <= ops.len(),
            ops@ == plan.operations@,
            plan_outcome(draft@, ops@) == run_operations(draft@, ops@),
            run_operations(current@, ops@.subrange(i as int, ops@.len() as int)) == run_operations(draft@, ops@),
        decreases ops.len() - i,
    {
        let ghost rest = ops@.subrange(i as int, ops@.len() as int);
        assert(rest[0] == ops@[i as int]);
        assert(rest.subrange(1, rest.len() as int) =~= ops@.subrange(i + 1, ops@.len() as int));
        match apply_plan_operation(current.as_str(), &ops[i]) {
            Ok(next) => {
                current = next;
            },
            Err(e) => return Err(e),
        }
        i = i + 1;
    }
    assert(ops@.subrange(ops@.len() as int, ops@.len() as int) =~= Seq::<EditOperation>::empty());
    Ok(current)
}


// ───────────────────────────── plan JSON ─────────────────────────────

/// A JSON document as the plan parser sees it. Numbers keep their text;
/// an object is its list of entries.
#[derive(Debug, PartialEq)]
pub enum JsonValue {
    Null,
    Bool(bool),
    Number(String),
    String(String),
    Array(Vec<JsonValue>),
    Object(Vec<(String, JsonValue)>),
}

/// `fields[i]` has the key `k`.
pub open spec fn key_at(fields: Seq<(String, JsonValue)>, k: Seq<char>, i: int) -> bool {
    0 <= i < fields.len() && fields[i].0@ == k
}

/// Index of the first entry with key `k`.
pub open spec fn first_key(fields: Seq<(String, JsonValue)>, k: Seq<char>) -> Option<int> {
    if exists|i: int| #[trigger] key_at(fields, k, i) && forall|j: int| 0 <= j < i ==> !#[trigger] key_at(fields, k, j) {
        Some(choose|i: int| key_at(fields, k, i) && forall|j: int| 0 <= j < i ==> !#[trigger] key_at(fields, k, j))
    } else {
        None
    }
}

proof fn lemma_first_key(fields: Seq<(String, JsonValue)>, k: Seq<char>, i: int)
    requires
        key_at(fields, k, i),
        forall|j: int| 0 <= j < i ==> !#[trigger] key_at(fields, k, j),
    ensures
        first_key(fields, k) == Some(i),
{
    assert(key_at(fields, k, i) && forall|j: int| 0 <= j < i ==> !#[trigger] key_at(fields, k, j));
    let c = choose|c: int| key_at(fields, k, c) && forall|j: int| 0 <= j < c ==> !#[trigger] key_at(fields, k, j);
    assert(key_at(fields, k, c) && forall|j: int| 0 <= j < c ==> !#[trigger] key_at(fields, k, j));
    if c < i {
        assert(!key_at(fields, k, c));
    }
    if i < c {
        assert(!key_at(fields, k, i));
    }
}

pub proof fn first_key_is_key(fields: Seq<(String, JsonValue)>, k: Seq<char>)
    ensures
        first_key(fields, k) matches Some(i) ==> key_at(fields, k, i) && forall|j: int| 0 <= j < i ==> !#[trigger] key_at(fields, k, j),
{
}

/// Index of the first entry with key `k`.
pub fn find_key(fields: &Vec<(String, JsonValue)>, k: &str) -> (r: Option<usize>)
    ensures
        match r {
            Some(i) => first_key(fields@, k@) == Some(i as int),
            None => first_key(fields@, k@) is None,
        },
{
    let kv = to_chars(k);
    let mut i: usize = 0;
    while i < fields.len()
        invariant
            kv@ == k@,
            i <= fields.len(),
            forall|j: int| 0 <= j < i ==> !#[trigger] key_at(fields@, k@, j),
        decreases fields.len() - i,
    {
        if crate::text::chars_eq(&to_chars(fields[i].0.as_str()), &kv) {
            proof {
                lemma_first_key(fields@, k@, i as int);
            }
            return Some(i);
        }
        i = i + 1;
    }
    None
}

/// The first of `aliases` (in order) that some entry has, as the index of
/// its first entry.
pub open spec fn alias_source(fields: Seq<(String, JsonValue)>, aliases: Seq<Seq<char>>) -> Option<int>
    decreases aliases.len(),
{
    if aliases.len() == 0 {
        None
    } else {
        match first_key(fields, aliases[0]) {
            Some(i) => Some(i),
            None => alias_source(fields, aliases.subrange(1, aliases.len() as int)),
        }
    }
}

/// `new` is `old` with entry `i` moved to the end under the key `k`.
pub open spec fn renamed(old: Seq<(String, JsonValue)>, new: Seq<(String, JsonValue)>, i: int, k: Seq<char>) -> bool {
    &&& 0 <= i < old.len()
    &&& new.len() == old.len()
    &&& new.drop_last() == old.remove(i)
    &&& new.last().0@ == k
    &&& new.last().1 == old[i].1
}

/// `new` is `old` after promoting an alias: when `canonical` is missing
/// and one of `aliases` is present, the first such entry takes the key
/// `canonical`; otherwise nothing changes.
pub open spec fn promoted(old: Seq<(String, JsonValue)>, new: Seq<(String, JsonValue)>, canonical: Seq<char>, aliases: Seq<Seq<char>>) -> bool {
    match (first_key(old, canonical), alias_source(old, aliases)) {
        (None, Some(i)) => renamed(old, new, i, canonical),
        _ => new == old,
    }
}

fn owned(s: &str) -> (r: String)
    ensures
        r@ == s@,
{
    let mut r = String::new();
    push_str_chars(&mut r, s);
    r
}

/// The views of a list of string literals.
pub open spec fn views(names: Seq<&str>) -> Seq<Seq<char>> {
    names.map_values(|n: &str| n@)
}

/// When `canonical` is missing, renames the first present alias to it.
pub fn promote_alias_field(fields: &mut Vec<(String, JsonValue)>, canonical: &str, aliases: &[&str])
    ensures
        promoted(old(fields)@, final(fields)@, canonical@, views(aliases@)),
{
    let ghost al = views(aliases@);
    if find_key(fields, canonical).is_some() {
        return;
    }
    let mut a: usize = 0;
    assert(al.subrange(0, al.len() as int) =~= al);
    while a < aliases.len()
        invariant
            a <= aliases.len(),
            al == views(aliases@),
            first_key(fields@, canonical@) is None,
            *fields == *old(fields),
            alias_source(fields@, al) == alias_source(fields@, al.subrange(a as int, al.len() as int)),
        decreases aliases.len() - a,
    {
        let ghost rest = al.subrange(a as int, al.len() as int);
        assert(rest[0] == aliases@[a as int]@);
        assert(rest.subrange(1, rest.len() as int) =~= al.subrange(a + 1, al.len() as int));
        match find_key(fields, aliases[a]) {
            Some(i) => {
                let ghost before = fields@;
                proof {
                    first_key_is_key(fields@, aliases@[a as int]@);
                }
                let entry = fields.remove(i);
                fields.push((owned(canonical), entry.1));
                assert(fields@.drop_last() =~= before.remove(i as int));
                return;
            },
            None => {},
        }
        a = a + 1;
    }
    assert(al.subrange(al.len() as int, al.len() as int) =~= Seq::<Seq<char>>::empty());
}

/// Canonical operation type for the names models use.
pub open spec fn canonical_operation_type(lower: Seq<char>) -> Seq<char> {
    if lower == "fullrewrite"@ || lower == "full_rewrite"@ || lower == "rewrite"@ || lower == "translate"@
        || lower == "translation"@ {
        "full_rewrite"@
    } else if lower == "literalreplace"@ || lower == "literal_replace"@ || lower == "replace"@ || lower
        == "text_replace"@ {
        "literal_replace"@
    } else if lower == "regexreplace"@ || lower == "regex_replace"@ || lower == "regexp_replace"@ {
        "regex_replace"@
    } else if lower == "rangereplace"@ || lower == "range_replace"@ || lower == "substring_replace"@ {
        "range_replace"@
    } else {
        lower
    }
}

/// The operation type trimmed, ASCII-lowercased and mapped to its
/// canonical name.
pub open spec fn spec_normalize_operation_type(raw: Seq<char>) -> Seq<char> {
    canonical_operation_type(crate::text::lower_seq(trimmed(raw)))
}

fn str_eq(s: &String, lit: &str) -> (r: bool)
    ensures
        r == (s@ == lit@),
{
    crate::text::chars_eq(&to_chars(s.as_str()), &to_chars(lit))
}

/// Maps aliases such as `translate` or `replace` to the operation type
/// the plan schema uses (see [`spec_normalize_operation_type`]).
pub fn normalize_operation_type(raw: &str) -> (r: String)
    ensures
        r@ == spec_normalize_operation_type(raw@),
{
    let v = to_chars(raw);
    let (a, b) = trim_range(&v);
    let t = crate::text::string_from_range(&v, a, b);
    let lower_v = crate::text::lowercase_chars(&to_chars(t.as_str()));
    let lower = crate::text::string_from_chars(&lower_v);
    if str_eq(&lower, "fullrewrite") || str_eq(&lower, "full_rewrite") || str_eq(&lower, "rewrite")
        || str_eq(&lower, "translate") || str_eq(&lower, "translation") {
        owned("full_rewrite")
    } else if str_eq(&lower, "literalreplace") || str_eq(&lower, "literal_replace") || str_eq(&lower, "replace")
        || str_eq(&lower, "text_replace") {
        owned("literal_replace")
    } else if str_eq(&lower, "regexreplace") || str_eq(&lower, "regex_replace") || str_eq(&lower, "regexp_replace") {
        owned("regex_replace")
    } else if str_eq(&lower, "rangereplace") || str_eq(&lower, "range_replace") || str_eq(&lower, "substring_replace") {
        owned("range_replace")
    } else {
        lower
    }
}


/// The operation type an entry list declares: the text of its first
/// `type` entry when that is a string, empty otherwise.
pub open spec fn declared_type(fields: Seq<(String, JsonValue)>) -> Seq<char> {
    match first_key(fields, "type"@) {
        Some(i) => match fields[i].1 {
            JsonValue::String(t) => t@,
            _ => Seq::empty(),
        },
        None => Seq::empty(),
    }
}

/// `new` is `old` with the first `type` entry, when it holds a string,
/// holding the normalized type instead.
pub open spec fn type_normalized(old: Seq<(String, JsonValue)>, new: Seq<(String, JsonValue)>) -> bool {
    match first_key(old, "type"@) {
        Some(i) => match old[i].1 {
            JsonValue::String(t) => {
                &&& new.len() == old.len()
                &&& forall|j: int| 0 <= j < old.len() && j != i ==> new[j] == old[j]
                &&& new[i].0 == old[i].0
                &&& new[i].1 matches JsonValue::String(n) && n@ == spec_normalize_operation_type(t@)
            },
            _ => new == old,
        },
        None => new == old,
    }
}

/// Names accepted for the replacement text of a literal or regex replace.
pub open spec fn replace_aliases() -> Seq<Seq<char>> {
    seq!["replacement"@, "with"@, "value"@]
}

/// Names accepted for the search text of a literal replace.
pub open spec fn find_aliases() -> Seq<Seq<char>> {
    seq!["search"@, "match"@, "pattern"@]
}

/// Names accepted for the pattern of a regex replace.
pub open spec fn pattern_aliases() -> Seq<Seq<char>> {
    seq!["regex"@, "find"@, "search"@]
}

/// The field renames each operation type accepts.
pub open spec fn aliases_promoted(op_type: Seq<char>, old: Seq<(String, JsonValue)>, new: Seq<(String, JsonValue)>) -> bool {
    if op_type == "full_rewrite"@ {
        promoted(old, new, "text"@, seq!["content"@, "body"@, "value"@, "replacement"@])
    } else if op_type == "literal_replace"@ {
        exists|mid: Seq<(String, JsonValue)>|
            #[trigger] promoted(old, mid, "replace"@, replace_aliases()) && promoted(mid, new, "find"@, find_aliases())
    } else if op_type == "regex_replace"@ {
        exists|mid: Seq<(String, JsonValue)>|
            #[trigger] promoted(old, mid, "pattern"@, pattern_aliases()) && promoted(mid, new, "replace"@, replace_aliases())
    } else if op_type == "range_replace"@ {
        promoted(old, new, "replace"@, seq!["replacement"@, "with"@, "value"@, "text"@])
    } else {
        new == old
    }
}

/// One operation object normalized: its type canonical, then the fields
/// of that type renamed from their aliases. Anything but an object is
/// left alone.
pub open spec fn operation_normalized(old: JsonValue, new: JsonValue) -> bool {
    match old {
        JsonValue::Object(f) => new matches JsonValue::Object(g) && exists|t: Seq<(String, JsonValue)>|
            #[trigger] type_normalized(f@, t) && aliases_promoted(declared_type(t), t, g@),
        _ => new == old,
    }
}

fn normalize_type_entry(fields: &mut Vec<(String, JsonValue)>)
    ensures
        type_normalized(old(fields)@, final(fields)@),
{
    proof {
        first_key_is_key(fields@, "type"@);
    }
    match find_key(fields, "type") {
        Some(i) => {
            let ghost before = fields@;
            let (k, v) = fields.remove(i);
            match v {
                JsonValue::String(t) => {
                    let n = normalize_operation_type(t.as_str());
                    fields.insert(i, (k, JsonValue::String(n)));
                },
                other => {
                    fields.insert(i, (k, other));
                    assert(fields@ =~= before);
                },
            }
        },
        None => {},
    }
}

fn declared_type_of(fields: &Vec<(String, JsonValue)>) -> (r: String)
    ensures
        r@ == declared_type(fields@),
{
    proof {
        first_key_is_key(fields@, "type"@);
    }
    match find_key(fields, "type") {
        Some(i) => match &fields[i].1 {
            JsonValue::String(t) => owned(t.as_str()),
            _ => String::new(),
        },
        None => String::new(),
    }
}

/// Normalizes one operation object (see [`operation_normalized`]).
pub fn normalize_edit_operation_value(op: &mut JsonValue)
    ensures
        operation_normalized(*old(op), *final(op)),
{
    match op {
        JsonValue::Object(fields) => {
            let ghost f = fields@;
            normalize_type_entry(fields);
            let ghost t = fields@;
            let op_type = declared_type_of(fields);
            if str_eq(&op_type, "full_rewrite") {
                let names: [&str; 4] = ["content", "body", "value", "replacement"];
                assert(views(names@) =~= seq!["content"@, "body"@, "value"@, "replacement"@]);
                promote_alias_field(fields, "text", &names);
            } else if str_eq(&op_type, "literal_replace") {
                let names: [&str; 3] = ["replacement", "with", "value"];
                assert(views(names@) =~= replace_aliases());
                promote_alias_field(fields, "replace", &names);
                let ghost mid = fields@;
                let names: [&str; 3] = ["search", "match", "pattern"];
                assert(views(names@) =~= find_aliases());
                promote_alias_field(fields, "find", &names);
                assert(promoted(t, mid, "replace"@, replace_aliases()));
            } else if str_eq(&op_type, "regex_replace") {
                let names: [&str; 3] = ["regex", "find", "search"];
                assert(views(names@) =~= pattern_aliases());
                promote_alias_field(fields, "pattern", &names);
                let ghost mid = fields@;
                let names: [&str; 3] = ["replacement", "with", "value"];
                assert(views(names@) =~= replace_aliases());
                promote_alias_field(fields, "replace", &names);
                assert(promoted(t, mid, "pattern"@, pattern_aliases()));
            } else if str_eq(&op_type, "range_replace") {
                let names: [&str; 4] = ["replacement", "with", "value", "text"];
                assert(views(names@) =~= seq!["replacement"@, "with"@, "value"@, "text"@]);
                promote_alias_field(fields, "replace", &names);
            }
            assert(type_normalized(f, t));
        },
        _ => {},
    }
}


/// The older name of the operation list.
pub open spec fn operation_list_aliases() -> Seq<Seq<char>> {
    seq!["operation"@]
}

/// `new` is `old` with the array under the first `operations` entry
/// holding each operation normalized; otherwise unchanged.
pub open spec fn operations_normalized(old: Seq<(String, JsonValue)>, new: Seq<(String, JsonValue)>) -> bool {
    match first_key(old, "operations"@) {
        Some(i) => match old[i].1 {
            JsonValue::Array(ops) => {
                &&& new.len() == old.len()
                &&& forall|j: int| 0 <= j < old.len() && j != i ==> new[j] == old[j]
                &&& new[i].0 == old[i].0
                &&& new[i].1 matches JsonValue::Array(nops) && nops@.len() == ops@.len() && forall|k: int|
                    0 <= k < ops@.len() ==> #[trigger] operation_normalized(ops@[k], nops@[k])
            },
            _ => new == old,
        },
        None => new == old,
    }
}

/// A plan object normalized: `operation` renamed to `operations` when
/// only the former is present, then every operation normalized.
pub open spec fn plan_normalized(old: JsonValue, new: JsonValue) -> bool {
    match old {
        JsonValue::Object(f) => new matches JsonValue::Object(g) && exists|m: Seq<(String, JsonValue)>|
            #[trigger] promoted(f@, m, "operations"@, operation_list_aliases()) && operations_normalized(m, g@),
        _ => new == old,
    }
}

fn normalize_operation_list(ops: Vec<JsonValue>) -> (r: Vec<JsonValue>)
    ensures
        r@.len() == ops@.len(),
        forall|k: int| 0 <= k < ops@.len() ==> #[trigger] operation_normalized(ops@[k], r@[k]),
{
    let ghost orig = ops@;
    let mut rest = ops;
    let mut done: Vec<JsonValue> = Vec::new();
    while rest.len() > 0
        invariant
            done@.len() + rest@.len() == orig.len(),
            rest@ == orig.subrange(done@.len() as int, orig.len() as int),
            forall|k: int| 0 <= k < done@.len() ==> #[trigger] operation_normalized(orig[k], done@[k]),
        decreases rest@.len(),
    {
        let ghost before = rest@;
        let mut op = rest.remove(0);
        assert(op == orig[done@.len() as int]);
        normalize_edit_operation_value(&mut op);
        done.push(op);
        assert(rest@ =~= orig.subrange(done@.len() as int, orig.len() as int));
    }
    done
}

/// Normalizes a parsed plan (see [`plan_normalized`]) so that the names
/// models use map onto the plan schema.
pub fn normalize_edit_plan_value(value: &mut JsonValue)
    ensures
        plan_normalized(*old(value), *final(value)),
{
    match value {
        JsonValue::Object(fields) => {
            let ghost f = fields@;
            let names: [&str; 1] = ["operation"];
            assert(views(names@) =~= operation_list_aliases());
            promote_alias_field(fields, "operations", &names);
            let ghost m = fields@;
            proof {
                first_key_is_key(fields@, "operations"@);
            }
            match find_key(fields, "operations") {
                Some(i) => {
                    let (k, v) = fields.remove(i);
                    match v {
                        JsonValue::Array(ops) => {
                            let normalized = normalize_operation_list(ops);
                            fields.insert(i, (k, JsonValue::Array(normalized)));
                        },
                        other => {
                            fields.insert(i, (k, other));
                            assert(fields@ =~= m);
                        },
                    }
                },
                None => {},
            }
            assert(promoted(f, m, "operations"@, operation_list_aliases()));
        },
        _ => {},
    }
}


// ───────────────────────────── canonical plans ─────────────────────────────

/// The same value, or two texts with the same chars.
pub open spec fn same_text(a: JsonValue, b: JsonValue) -> bool {
    a == b || (a is String && b is String && a->String_0@ == b->String_0@)
}

/// Entry lists with the same keys in the same order, and for each key the
/// same value or the same text.
pub open spec fn same_entries(x: Seq<(String, JsonValue)>, y: Seq<(String, JsonValue)>) -> bool {
    x.len() == y.len() && forall|k: int| 0 <= k < x.len() ==> x[k].0@ == y[k].0@ && #[trigger] same_text(x[k].1, y[k].1)
}

/// The same operation: the same value, or objects with the same entries.
pub open spec fn same_operation(a: JsonValue, b: JsonValue) -> bool {
    a == b || (a is Object && b is Object && same_entries(a->Object_0@, b->Object_0@))
}

/// The same value, or lists holding the same operations in the same order.
pub open spec fn same_operations(a: JsonValue, b: JsonValue) -> bool {
    a == b || (a is Array && b is Array && a->Array_0@.len() == b->Array_0@.len() && forall|k: int|
        0 <= k < a->Array_0@.len() ==> #[trigger] same_operation(a->Array_0@[k], b->Array_0@[k]))
}

/// The same plan as JSON: objects with the same keys in the same order,
/// each value the same or, for the operation list, the same operations.
pub open spec fn same_plan(v: JsonValue, w: JsonValue) -> bool {
    v is Object && w is Object && v->Object_0@.len() == w->Object_0@.len() && forall|k: int|
        0 <= k < v->Object_0@.len() ==> v->Object_0@[k].0@ == w->Object_0@[k].0@ && #[trigger] same_operations(
            v->Object_0@[k].1,
            w->Object_0@[k].1,
        )
}

/// The operation type of `fields`, when it is a text, is already in its
/// normal form.
pub open spec fn type_in_normal_form(fields: Seq<(String, JsonValue)>) -> bool {
    match first_key(fields, "type"@) {
        Some(i) => match fields[i].1 {
            JsonValue::String(t) => spec_normalize_operation_type(t@) == t@,
            _ => true,
        },
        None => true,
    }
}

/// `fields` has the entries its operation type names, so no alias is
/// looked for.
pub open spec fn canonical_fields_present(op_type: Seq<char>, fields: Seq<(String, JsonValue)>) -> bool {
    if op_type == "full_rewrite"@ {
        first_key(fields, "text"@) is Some
    } else if op_type == "literal_replace"@ {
        first_key(fields, "replace"@) is Some && first_key(fields, "find"@) is Some
    } else if op_type == "regex_replace"@ {
        first_key(fields, "pattern"@) is Some && first_key(fields, "replace"@) is Some
    } else if op_type == "range_replace"@ {
        first_key(fields, "replace"@) is Some
    } else {
        true
    }
}

/// An operation as a plan serializer writes it: its type in normal form
/// and the entries of that type present.
pub open spec fn canonical_operation(op: JsonValue) -> bool {
    match op {
        JsonValue::Object(h) => type_in_normal_form(h@) && canonical_fields_present(declared_type(h@), h@),
        _ => true,
    }
}

/// A plan as a serializer writes it: an object with an `operations`
/// entry, each operation in it canonical.
pub open spec fn canonical_plan(v: JsonValue) -> bool {
    match v {
        JsonValue::Object(f) => match first_key(f@, "operations"@) {
            Some(i) => match f@[i].1 {
                JsonValue::Array(ops) => forall|k: int| 0 <= k < ops@.len() ==> #[trigger] canonical_operation(ops@[k]),
                _ => true,
            },
            None => false,
        },
        _ => false,
    }
}

proof fn lemma_promoted_present(old: Seq<(String, JsonValue)>, new: Seq<(String, JsonValue)>, canonical: Seq<char>, aliases: Seq<Seq<char>>)
    requires
        first_key(old, canonical) is Some,
        promoted(old, new, canonical, aliases),
    ensures
        new == old,
{
}

/// Entry lists with the very same keys, in order, have the same first
/// entry for every key.
proof fn lemma_first_key_same_keys(a: Seq<(String, JsonValue)>, b: Seq<(String, JsonValue)>, k: Seq<char>)
    requires
        a.len() == b.len(),
        forall|j: int| 0 <= j < a.len() ==> a[j].0 == b[j].0,
    ensures
        first_key(a, k) == first_key(b, k),
{
    first_key_is_key(a, k);
    first_key_is_key(b, k);
    match first_key(a, k) {
        Some(i) => {
            assert(key_at(b, k, i));
            assert forall|j: int| 0 <= j < i implies !#[trigger] key_at(b, k, j) by {
                assert(!key_at(a, k, j));
            }
            lemma_first_key(b, k, i);
        },
        None => {
            match first_key(b, k) {
                Some(i) => {
                    assert(key_at(a, k, i));
                    assert forall|j: int| 0 <= j < i implies !#[trigger] key_at(a, k, j) by {
                        assert(!key_at(b, k, j));
                    }
                    lemma_first_key(a, k, i);
                },
                None => {},
            }
        },
    }
}

proof fn lemma_canonical_operation_unchanged(op: JsonValue, new: JsonValue)
    requires
        canonical_operation(op),
        operation_normalized(op, new),
    ensures
        same_operation(op, new),
{
    match op {
        JsonValue::Object(h) => {
            let g = new->Object_0;
            let t = choose|t: Seq<(String, JsonValue)>|
                #[trigger] type_normalized(h@, t) && aliases_promoted(declared_type(t), t, g@);
            assert(t.len() == h@.len());
            assert forall|j: int| 0 <= j < h@.len() implies t[j].0 == h@[j].0 by {}
            assert(same_entries(h@, t));
            lemma_first_key_same_keys(h@, t, "type"@);
            lemma_first_key_same_keys(h@, t, "text"@);
            lemma_first_key_same_keys(h@, t, "replace"@);
            lemma_first_key_same_keys(h@, t, "find"@);
            lemma_first_key_same_keys(h@, t, "pattern"@);
            assert(declared_type(t) == declared_type(h@));
            let dt = declared_type(t);
            reveal_strlit("full_rewrite");
            reveal_strlit("literal_replace");
            reveal_strlit("regex_replace");
            reveal_strlit("range_replace");
            if dt == "literal_replace"@ {
                let mid = choose|mid: Seq<(String, JsonValue)>|
                    #[trigger] promoted(t, mid, "replace"@, replace_aliases()) && promoted(mid, g@, "find"@, find_aliases());
                lemma_promoted_present(t, mid, "replace"@, replace_aliases());
                lemma_promoted_present(mid, g@, "find"@, find_aliases());
            } else if dt == "regex_replace"@ {
                let mid = choose|mid: Seq<(String, JsonValue)>|
                    #[trigger] promoted(t, mid, "pattern"@, pattern_aliases()) && promoted(mid, g@, "replace"@, replace_aliases());
                lemma_promoted_present(t, mid, "pattern"@, pattern_aliases());
                lemma_promoted_present(mid, g@, "replace"@, replace_aliases());
            }
            assert(g@ == t);
        },
        _ => {},
    }
}

/// The four type names a serializer writes are their own normal form.
pub proof fn lemma_serialized_types_normal(t: Seq<char>)
    requires
        t == "full_rewrite"@ || t == "literal_replace"@ || t == "regex_replace"@ || t == "range_replace"@,
    ensures
        spec_normalize_operation_type(t) == t,
{
    reveal_strlit("full_rewrite");
    reveal_strlit("literal_replace");
    reveal_strlit("regex_replace");
    reveal_strlit("range_replace");
    assert(lead_end(t, 0) == 0);
    assert(trail_start(t, 0, t.len() as int) == t.len());
    assert(t.subrange(0, t.len() as int) =~= t);
    assert(crate::text::lower_seq(t) =~= t);
    assert(trimmed(t) == t);
    reveal_strlit("fullrewrite");
    reveal_strlit("rewrite");
    reveal_strlit("translate");
    reveal_strlit("translation");
    reveal_strlit("literalreplace");
    reveal_strlit("replace");
    reveal_strlit("text_replace");
    reveal_strlit("regexreplace");
    reveal_strlit("regexp_replace");
}

/// **Canonical-plan law.** A plan as a serializer writes it (an object
/// with its `operations`, each operation of a normal-form type with the
/// entries that type names) comes out of normalization as the same plan:
/// the same keys in the same order, the same operations, the same texts.
pub proof fn lemma_canonical_plan_unchanged(v: JsonValue, w: JsonValue)
    requires
        canonical_plan(v),
        plan_normalized(v, w),
    ensures
        same_plan(v, w),
{
    let f = v->Object_0;
    let g = w->Object_0;
    let m = choose|m: Seq<(String, JsonValue)>|
        #[trigger] promoted(f@, m, "operations"@, operation_list_aliases()) && operations_normalized(m, g@);
    lemma_promoted_present(f@, m, "operations"@, operation_list_aliases());
    let i = first_key(f@, "operations"@)->0;
    first_key_is_key(f@, "operations"@);
    if f@[i].1 is Array {
        let ops = f@[i].1->Array_0;
        let nops = g@[i].1->Array_0;
        assert forall|k: int| 0 <= k < ops@.len() implies #[trigger] same_operation(ops@[k], nops@[k]) by {
            lemma_canonical_operation_unchanged(ops@[k], nops@[k]);
        }
        assert(same_operations(f@[i].1, g@[i].1));
    }
    assert forall|j: int| 0 <= j < f@.len() implies f@[j].0@ == g@[j].0@ && #[trigger] same_operations(f@[j].1, g@[j].1) by {}
}

/// **Serialized-text law.** Text that starts with `{` and ends with `}`,
/// as a serialized plan does, is left whole by trimming and is the span
/// [`extract_json_object`] cuts out.
pub proof fn lemma_object_text_passes_whole(s: Seq<char>)
    requires
        s.len() > 0,
        s[0] == '{',
        s.last() == '}',
    ensures
        trimmed(s) == s,
        json_object_span(s) == Some(s),
{
    assert(lead_end(s, 0) == 0);
    assert(trail_start(s, 0, s.len() as int) == s.len());
    assert(s.subrange(0, s.len() as int) =~= s);
    assert(first_of(s, '{') == Some(0int)) by {
        let w = choose|i: int| 0 <= i < s.len() && s[i] == '{' && forall|j: int| 0 <= j < i ==> s[j] != '{';
        assert(0 <= 0 < s.len() && s[0] == '{' && forall|j: int| 0 <= j < 0 ==> s[j] != '{');
        if w > 0 {
            assert(s[0] != '{');
        }
    }
    assert(last_of(s, '}') == Some(s.len() - 1)) by {
        let n = s.len() - 1;
        assert(0 <= n < s.len() && s[n] == '}' && forall|j: int| n < j < s.len() ==> s[j] != '}');
        let w = choose|i: int| 0 <= i < s.len() && s[i] == '}' && forall|j: int| i < j < s.len() ==> s[j] != '}';
        if w < n {
            assert(s[n] != '}');
        }
    }
}

// ───────────────────────────── raw model output ─────────────────────────────

/// Index of the first `c` in `s`.
pub open spec fn first_of(s: Seq<char>, c: char) -> Option<int> {
    if exists|i: int| 0 <= i < s.len() && s[i] == c && forall|j: int| 0 <= j < i ==> s[j] != c {
        Some(choose|i: int| 0 <= i < s.len() && s[i] == c && forall|j: int| 0 <= j < i ==> s[j] != c)
    } else {
        None
    }
}

/// Index of the last `c` in `s`.
pub open spec fn last_of(s: Seq<char>, c: char) -> Option<int> {
    if exists|i: int| 0 <= i < s.len() && s[i] == c && forall|j: int| i < j < s.len() ==> s[j] != c {
        Some(choose|i: int| 0 <= i < s.len() && s[i] == c && forall|j: int| i < j < s.len() ==> s[j] != c)
    } else {
        None
    }
}

pub proof fn lemma_first_last_bounds(s: Seq<char>, c: char)
    ensures
        first_of(s, c) matches Some(i) ==> 0 <= i < s.len() && s[i] == c,
        last_of(s, c) matches Some(i) ==> 0 <= i < s.len() && s[i] == c,
{
}

pub fn find_first(v: &Vec<char>, c: char) -> (r: Option<usize>)
    ensures
        r matches Some(i) ==> i < v@.len(),
        match r {
            Some(i) => first_of(v@, c) == Some(i as int),
            None => first_of(v@, c) is None,
        },
{
    let mut i: usize = 0;
    while i < v.len()
        invariant
            i <= v.len(),
            forall|j: int| 0 <= j < i ==> v@[j] != c,
        decreases v.len() - i,
    {
        if v[i] == c {
            proof {
                let w = choose|w: int| 0 <= w < v@.len() && v@[w] == c && forall|j: int| 0 <= j < w ==> v@[j] != c;
                assert(0 <= w < v@.len() && v@[w] == c && forall|j: int| 0 <= j < w ==> v@[j] != c);
                if w < i {
                    assert(v@[w] != c);
                }
                if i < w {
                    assert(v@[i as int] != c);
                }
            }
            return Some(i);
        }
        i = i + 1;
    }
    None
}

pub fn find_last(v: &Vec<char>, c: char) -> (r: Option<usize>)
    ensures
        r matches Some(i) ==> i < v@.len(),
        match r {
            Some(i) => last_of(v@, c) == Some(i as int),
            None => last_of(v@, c) is None,
        },
{
    let mut k: usize = v.len();
    while k > 0
        invariant
            k <= v.len(),
            forall|j: int| k <= j < v.len() ==> v@[j] != c,
        decreases k,
    {
        if v[k - 1] == c {
            proof {
                let i = k - 1;
                assert(0 <= i < v@.len() && v@[i] == c && forall|j: int| i < j < v@.len() ==> v@[j] != c);
                let w = choose|w: int| 0 <= w < v@.len() && v@[w] == c && forall|j: int| w < j < v@.len() ==> v@[j] != c;
                if w < i {
                    assert(v@[i] != c);
                }
                if i < w {
                    assert(v@[w] != c);
                }
            }
            return Some(k - 1);
        }
        k = k - 1;
    }
    None
}

/// The text from the first `{` to the last `}`, both included, when there
/// are both and in that order.
pub open spec fn json_object_span(s: Seq<char>) -> Option<Seq<char>> {
    match (first_of(s, '{'), last_of(s, '}')) {
        (Some(a), Some(b)) => if a <= b {
            Some(s.subrange(a, b + 1))
        } else {
            None
        },
        _ => None,
    }
}

/// The outermost `{ .. }` span of `raw` (see [`json_object_span`]).
pub fn extract_json_object(raw: &str) -> (r: Option<&str>)
    ensures
        match r {
            Some(t) => json_object_span(raw@) == Some(t@),
            None => json_object_span(raw@) is None,
        },
{
    let v = to_chars(raw);
    let start = match find_first(&v, '{') {
        Some(i) => i,
        None => return None,
    };
    let end = match find_last(&v, '}') {
        Some(i) => i,
        None => return None,
    };
    if start <= end {
        Some(raw.substring_char(start, end + 1))
    } else {
        None
    }
}

/// `s` with a leading code-fence line (```` ``` ```` or ```` ```json ````)
/// and a trailing fence removed, trimmed.
pub open spec fn strip_code_fence(s: Seq<char>) -> Seq<char> {
    let t = trimmed(s);
    let body = if crate::text::has_prefix(t, "```"@) {
        match first_of(t, '\n') {
            Some(i) => t.subrange(i + 1, t.len() as int),
            None => Seq::empty(),
        }
    } else {
        t
    };
    let b = trimmed(body);
    if crate::text::has_suffix(b, "```"@) {
        trimmed(b.subrange(0, b.len() - 3))
    } else {
        b
    }
}

fn trimmed_string(v: &Vec<char>) -> (r: String)
    ensures
        r@ == trimmed(v@),
{
    let (a, b) = trim_range(v);
    crate::text::string_from_range(v, a, b)
}

/// Drops a Markdown code fence around model output (see
/// [`strip_code_fence`]).
pub fn clean_json_llm_output(raw: &str) -> (r: String)
    ensures
        r@ == strip_code_fence(raw@),
{
    let t = trimmed_string(&to_chars(raw));
    let tv = to_chars(t.as_str());
    assert(tv@.len() == tv.len());
    let body = if crate::text::starts_with_chars(&tv, &to_chars("```")) {
        match find_first(&tv, '\n') {
            Some(i) => crate::text::string_from_range(&tv, i + 1, tv.len()),
            None => String::new(),
        }
    } else {
        t
    };
    let b = trimmed_string(&to_chars(body.as_str()));
    let bv = to_chars(b.as_str());
    proof {
        reveal_strlit("```");
        lemma_first_last_bounds(tv@, '\n');
    }
    if crate::text::ends_with_chars(&bv, &to_chars("```")) {
        let inner = crate::text::string_from_range(&bv, 0, bv.len() - 3);
        trimmed_string(&to_chars(inner.as_str()))
    } else {
        b
    }
}

/// The text to parse again after a failed first attempt: the cleaned
/// output, unless cleaning left the trimmed text unchanged.
pub fn retry_candidate(raw: &str) -> (r: Option<String>)
    ensures
        match r {
            Some(c) => c@ == strip_code_fence(raw@) && c@ != trimmed(raw@),
            None => strip_code_fence(raw@) == trimmed(raw@),
        },
{
    let cleaned = clean_json_llm_output(raw);
    let t = trimmed_string(&to_chars(raw));
    if crate::text::chars_eq(&to_chars(cleaned.as_str()), &to_chars(t.as_str())) {
        None
    } else {
        Some(cleaned)
    }
}

/// The error reported when both attempts fail.
pub fn retry_error(primary: &str, secondary: &str) -> (r: String)
    ensures
        r@ == "invalid EditPlan JSON: "@ + primary@ + "; cleaned retry: "@ + secondary@,
{
    let mut r = owned("invalid EditPlan JSON: ");
    push_str_chars(&mut r, primary);
    push_str_chars(&mut r, "; cleaned retry: ");
    push_str_chars(&mut r, secondary);
    r
}

} // verus!
