//! Bounded, position-anchored edit tracking. No OS calls and no persistence.
//!
//! A session remembers the text around the span we inserted (`prefix`,
//! `suffix`) and the span itself (`baseline`). Later snapshots of the same
//! field are accepted only while that frame still matches; the changed span
//! is then diffed against the baseline.
use vstd::prelude::*;
use vstd::string::StrSliceExecFns;

use crate::diff::{learned_rule, minimal_edit, spec_learned_rule, spec_minimal_edit, EditModel, EditPair};
use crate::text::{find_from, matches_at, occurs_at, string_from_range, to_chars, trim_end_len, trimmed_end};

verus! {

/// Largest field (in chars) a session will look at.
pub const MAX_FIELD_CHARS: usize = 8192;

/// An armed edit-tracking session.
pub struct EditSession {
    prefix: String,
    suffix: String,
    baseline: String,
}

/// Model of an [`EditSession`].
pub struct SessionModel {
    pub prefix: Seq<char>,
    pub suffix: Seq<char>,
    pub baseline: Seq<char>,
}

impl View for EditSession {
    type V = SessionModel;

    closed spec fn view(&self) -> SessionModel {
        SessionModel { prefix: self.prefix@, suffix: self.suffix@, baseline: self.baseline@ }
    }
}

/// `i` is the first index at which `n` occurs in `h`.
pub open spec fn is_first_occurrence(h: Seq<char>, n: Seq<char>, i: int) -> bool {
    occurs_at(h, n, i) && forall|j: int| 0 <= j < i ==> !#[trigger] occurs_at(h, n, j)
}

/// What [`EditSession::anchor`] builds.
///
/// The inserted text (trailing whitespace dropped) must be non-empty, the
/// field at most `MAX_FIELD_CHARS` chars long, and the inserted text must
/// occur in the field exactly once (as non-overlapping matches go).
pub open spec fn spec_anchor(field: Seq<char>, inserted: Seq<char>) -> Option<SessionModel> {
    let ins = trimmed_end(inserted);
    if ins.len() == 0 || field.len() > MAX_FIELD_CHARS {
        None
    } else if !(exists|i: int| is_first_occurrence(field, ins, i)) {
        None
    } else {
        let i = choose|i: int| is_first_occurrence(field, ins, i);
        if exists|j: int| i + ins.len() <= j && #[trigger] occurs_at(field, ins, j) {
            None
        } else {
            Some(
                SessionModel {
                    prefix: field.subrange(0, i),
                    suffix: field.subrange(i + ins.len(), field.len() as int),
                    baseline: ins,
                },
            )
        }
    }
}

/// What [`EditSession::region`] returns: the part of `field` between the
/// remembered prefix and suffix, if both still frame it.
pub open spec fn spec_region(m: SessionModel, field: Seq<char>) -> Option<Seq<char>> {
    if field.len() > MAX_FIELD_CHARS {
        None
    } else if field.len() >= m.prefix.len() + m.suffix.len() && field.subrange(
        0,
        m.prefix.len() as int,
    ) == m.prefix && field.subrange(field.len() - m.suffix.len(), field.len() as int) == m.suffix {
        Some(field.subrange(m.prefix.len() as int, field.len() - m.suffix.len()))
    } else {
        None
    }
}

/// What [`EditSession::settled_edit`] returns, and the session after it.
///
/// The baseline moves to the current region only when the change from the
/// baseline is a learnable edit; otherwise the session stays as it was.
pub open spec fn spec_settle(m: SessionModel, field: Seq<char>) -> (Option<EditModel>, SessionModel) {
    match spec_region(m, field) {
        None => (None, m),
        Some(current) => match spec_minimal_edit(m.baseline, current) {
            None => (None, m),
            Some(e) => if spec_learned_rule(e) is None {
                (None, m)
            } else {
                (Some(e), SessionModel { prefix: m.prefix, suffix: m.suffix, baseline: current })
            },
        },
    }
}

proof fn lemma_first_occurrence_unique(h: Seq<char>, n: Seq<char>, i: int, k: int)
    requires
        is_first_occurrence(h, n, i),
        is_first_occurrence(h, n, k),
    ensures
        i == k,
{
    if i < k {
        assert(occurs_at(h, n, i));
    }
    if k < i {
        assert(occurs_at(h, n, k));
    }
}

/// **Anchor law.** Right after anchoring, the field we anchored on still
/// frames exactly the inserted text: its region is the baseline.
pub proof fn lemma_anchor_region(field: Seq<char>, inserted: Seq<char>)
    requires
        spec_anchor(field, inserted) is Some,
    ensures
        spec_region(spec_anchor(field, inserted)->0, field) == Some(trimmed_end(inserted)),
{
    let ins = trimmed_end(inserted);
    let i = choose|i: int| is_first_occurrence(field, ins, i);
    let m = spec_anchor(field, inserted)->0;
    assert(field.subrange(0, m.prefix.len() as int) =~= m.prefix);
    assert(field.subrange(field.len() - m.suffix.len(), field.len() as int) =~= m.suffix);
    assert(field.subrange(m.prefix.len() as int, field.len() - m.suffix.len()) =~= ins);
}

/// **Stability law.** A snapshot that yields no learnable edit leaves the
/// session unchanged, so deleting a word and retyping another still diffs
/// against the original text; a learned edit only ever moves the baseline.
pub proof fn lemma_settle_keeps_frame(m: SessionModel, field: Seq<char>)
    ensures
        spec_settle(m, field).1.prefix == m.prefix,
        spec_settle(m, field).1.suffix == m.suffix,
        spec_settle(m, field).0 is None ==> spec_settle(m, field).1 == m,
        spec_settle(m, field).0 is Some ==> spec_region(m, field) == Some(spec_settle(m, field).1.baseline),
{
}

impl EditSession {
    /// Anchors a session on the single occurrence of `inserted` in `field`
    /// (see [`spec_anchor`]).
    pub fn anchor(field: &str, inserted: &str) -> (r: Option<EditSession>)
        ensures
            match r {
                Some(s) => spec_anchor(field@, inserted@) == Some(s@),
                None => spec_anchor(field@, inserted@) is None,
            },
    {
        let inserted_all = to_chars(inserted);
        let ins_len = trim_end_len(&inserted_all);
        let ins = slice_prefix(&inserted_all, ins_len);
        let fieldv = to_chars(field);
        let ghost insv = trimmed_end(inserted@);
        assert(ins@ == insv);
        if ins.len() == 0 || fieldv.len() > MAX_FIELD_CHARS {
            return None;
        }
        let offset = match find_from(&fieldv, &ins, 0) {
            Some(i) => i,
            None => {
                proof {
                    assert forall|i: int| !is_first_occurrence(field@, insv, i) by {
                        if is_first_occurrence(field@, insv, i) {
                            assert(occurs_at(field@, insv, i));
                        }
                    }
                }
                return None;
            },
        };
        proof {
            assert(is_first_occurrence(field@, insv, offset as int));
            let c = choose|i: int| is_first_occurrence(field@, insv, i);
            lemma_first_occurrence_unique(field@, insv, c, offset as int);
        }
        // Ambiguous location: never learn edits to another occurrence.
        if find_from(&fieldv, &ins, offset + ins.len()).is_some() {
            return None;
        }
        let prefix = string_from_range(&fieldv, 0, offset);
        let suffix = string_from_range(&fieldv, offset + ins.len(), fieldv.len());
        let baseline = string_from_range(&ins, 0, ins.len());
        assert(ins@.subrange(0, ins@.len() as int) == ins@);
        Some(EditSession { prefix, suffix, baseline })
    }

    /// The part of `field` still framed by the remembered prefix and suffix;
    /// `None` when the original region can no longer be tracked safely.
    pub fn region<'a>(&self, field: &'a str) -> (r: Option<&'a str>)
        ensures
            match r {
                Some(s) => spec_region(self@, field@) == Some(s@),
                None => spec_region(self@, field@) is None,
            },
    {
        let fieldv = to_chars(field);
        if fieldv.len() > MAX_FIELD_CHARS {
            return None;
        }
        let prefix = to_chars(self.prefix.as_str());
        let suffix = to_chars(self.suffix.as_str());
        if fieldv.len() < prefix.len() || fieldv.len() - prefix.len() < suffix.len() {
            return None;
        }
        let end = fieldv.len() - suffix.len();
        if !matches_at(&fieldv, &prefix, 0) || !matches_at(&fieldv, &suffix, end) {
            return None;
        }
        Some(field.substring_char(prefix.len(), end))
    }

    /// Called once the input has settled: the learnable edit of the current
    /// region against the baseline, if any (see [`spec_settle`]).
    pub fn settled_edit(&mut self, field: &str) -> (r: Option<EditPair>)
        ensures
            spec_settle(old(self)@, field@).1 == final(self)@,
            match r {
                Some(e) => spec_settle(old(self)@, field@).0 == Some(e@),
                None => spec_settle(old(self)@, field@).0 is None,
            },
    {
        let current = match self.region(field) {
            Some(s) => s,
            None => return None,
        };
        let edit = match minimal_edit(self.baseline.as_str(), current) {
            Some(e) => e,
            None => return None,
        };
        // Keep the baseline through delete-then-retype and reject sentence rewrites.
        if learned_rule(&edit).is_none() {
            return None;
        }
        let v = to_chars(current);
        self.baseline = string_from_range(&v, 0, v.len());
        assert(v@.subrange(0, v@.len() as int) == v@);
        Some(edit)
    }
}

/// A vector holding `v[..n]`.
fn slice_prefix(v: &Vec<char>, n: usize) -> (r: Vec<char>)
    requires
        n <= v.len(),
    ensures
        r@ == v@.subrange(0, n as int),
{
    let mut r: Vec<char> = Vec::new();
    let mut i: usize = 0;
    while i < n
        invariant
            i <= n <= v.len(),
            r@ == v@.subrange(0, i as int),
        decreases n - i,
    {
        r.push(v[i]);
        i = i + 1;
    }
    r
}

} // verus!
