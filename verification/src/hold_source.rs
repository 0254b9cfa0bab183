//! Tracks the active hold-to-talk trigger sources (keyboard, mouse middle
//! button, mouse side button).
//!
//! Hold mode begins when the first source is pressed and ends when the last
//! source is released.
use vstd::prelude::*;

verus! {

/// A physical source of hold-to-talk presses.
#[derive(Debug, Clone, Copy, PartialEq, Eq, Structural)]
pub enum TriggerSource {
    KeyboardDictation,
    MouseMiddle,
    MouseSide,
}

/// Which sources are held down, and how many.
pub struct HoldSourceTracker {
    keyboard: bool,
    mouse_middle: bool,
    mouse_side: bool,
    active_count: u32,
}

/// Model of a [`HoldSourceTracker`]: which sources are held.
pub struct HoldModel {
    pub keyboard: bool,
    pub mouse_middle: bool,
    pub mouse_side: bool,
}

/// Whether `source` is held in `m`.
pub open spec fn is_held(m: HoldModel, source: TriggerSource) -> bool {
    match source {
        TriggerSource::KeyboardDictation => m.keyboard,
        TriggerSource::MouseMiddle => m.mouse_middle,
        TriggerSource::MouseSide => m.mouse_side,
    }
}

/// `m` with `source` set to `held`.
pub open spec fn set_held(m: HoldModel, source: TriggerSource, held: bool) -> HoldModel {
    match source {
        TriggerSource::KeyboardDictation => HoldModel { keyboard: held, ..m },
        TriggerSource::MouseMiddle => HoldModel { mouse_middle: held, ..m },
        TriggerSource::MouseSide => HoldModel { mouse_side: held, ..m },
    }
}

/// Number of sources held in `m`.
pub open spec fn held_count(m: HoldModel) -> nat {
    (if m.keyboard { 1nat } else { 0nat }) + (if m.mouse_middle { 1nat } else { 0nat }) + (if m.mouse_side {
        1nat
    } else {
        0nat
    })
}

/// What [`HoldSourceTracker::press`] returns, and the state after it.
pub open spec fn model_press(m: HoldModel, source: TriggerSource) -> (Option<nat>, HoldModel) {
    if is_held(m, source) {
        (None, m)
    } else {
        (Some(held_count(m)), set_held(m, source, true))
    }
}

/// What [`HoldSourceTracker::release`] returns, and the state after it.
pub open spec fn model_release(m: HoldModel, source: TriggerSource) -> (nat, HoldModel) {
    let m2 = set_held(m, source, false);
    (held_count(m2), m2)
}

impl View for HoldSourceTracker {
    type V = HoldModel;

    closed spec fn view(&self) -> HoldModel {
        HoldModel { keyboard: self.keyboard, mouse_middle: self.mouse_middle, mouse_side: self.mouse_side }
    }
}

impl HoldSourceTracker {
    /// The active count always equals the number of sources held down.
    #[verifier::type_invariant]
    spec fn inv(self) -> bool {
        self.active_count as nat == held_count(self@)
    }

    /// A tracker with nothing held.
    pub fn new() -> (r: HoldSourceTracker)
        ensures
            r@ == (HoldModel { keyboard: false, mouse_middle: false, mouse_side: false }),
    {
        HoldSourceTracker { keyboard: false, mouse_middle: false, mouse_side: false, active_count: 0 }
    }

    /// Releases every source.
    pub fn reset(&mut self)
        ensures
            final(self)@ == (HoldModel { keyboard: false, mouse_middle: false, mouse_side: false }),
    {
        *self = HoldSourceTracker {
            keyboard: false,
            mouse_middle: false,
            mouse_side: false,
            active_count: 0,
        };
    }

    /// A press edge of `source`: the count of held sources **before** it on
    /// a fresh press; `None` for a repeated press of a held source.
    pub fn press(&mut self, source: TriggerSource) -> (r: Option<u32>)
        ensures
            final(self)@ == model_press(old(self)@, source).1,
            match r {
                Some(n) => model_press(old(self)@, source).0 == Some(n as nat),
                None => model_press(old(self)@, source).0 is None,
            },
    {
        proof {
            use_type_invariant(&*self);
        }
        if self.slot(source) {
            return None;
        }
        let before = self.active_count;
        let (k, m, s) = match source {
            TriggerSource::KeyboardDictation => (true, self.mouse_middle, self.mouse_side),
            TriggerSource::MouseMiddle => (self.keyboard, true, self.mouse_side),
            TriggerSource::MouseSide => (self.keyboard, self.mouse_middle, true),
        };
        *self = HoldSourceTracker {
            keyboard: k,
            mouse_middle: m,
            mouse_side: s,
            active_count: before + 1,
        };
        Some(before)
    }

    /// A release edge of `source`: the number of sources still held after it.
    /// Releasing a source that is not held changes nothing.
    pub fn release(&mut self, source: TriggerSource) -> (r: u32)
        ensures
            final(self)@ == model_release(old(self)@, source).1,
            r as nat == model_release(old(self)@, source).0,
    {
        proof {
            use_type_invariant(&*self);
        }
        if !self.slot(source) {
            return self.active_count;
        }
        let after = self.active_count - 1;
        let (k, m, s) = match source {
            TriggerSource::KeyboardDictation => (false, self.mouse_middle, self.mouse_side),
            TriggerSource::MouseMiddle => (self.keyboard, false, self.mouse_side),
            TriggerSource::MouseSide => (self.keyboard, self.mouse_middle, false),
        };
        *self = HoldSourceTracker { keyboard: k, mouse_middle: m, mouse_side: s, active_count: after };
        after
    }

    /// Number of sources currently held.
    pub fn active_count(&self) -> (r: u32)
        ensures
            r as nat == held_count(self@),
    {
        proof {
            use_type_invariant(self);
        }
        self.active_count
    }

    fn slot(&self, source: TriggerSource) -> (r: bool)
        ensures
            r == is_held(self@, source),
    {
        match source {
            TriggerSource::KeyboardDictation => self.keyboard,
            TriggerSource::MouseMiddle => self.mouse_middle,
            TriggerSource::MouseSide => self.mouse_side,
        }
    }
}

impl Default for HoldSourceTracker {
    fn default() -> (r: HoldSourceTracker)
        ensures
            r@ == (HoldModel { keyboard: false, mouse_middle: false, mouse_side: false }),
    {
        HoldSourceTracker::new()
    }
}

/// **Hold law.** A fresh press followed by the release of the same source
/// restores the held set, and the release reports the count from before
/// the press. Hold mode starts on the press that returns `Some(0)` and ends
/// on the release that returns `0`.
pub proof fn lemma_press_release_roundtrip(m: HoldModel, source: TriggerSource)
    requires
        !is_held(m, source),
    ensures
        model_release(model_press(m, source).1, source).1 == m,
        model_release(model_press(m, source).1, source).0 == held_count(m),
        model_press(m, source).0 == Some(held_count(m)),
{
}

/// **Idempotence law.** A repeated press and a repeated release change nothing.
pub proof fn lemma_repeated_edges(m: HoldModel, source: TriggerSource)
    ensures
        is_held(m, source) ==> model_press(m, source) == (None::<nat>, m),
        !is_held(m, source) ==> model_release(m, source) == (held_count(m), m),
{
}

/// The count never exceeds the number of sources.
pub proof fn lemma_count_bounded(m: HoldModel)
    ensures
        held_count(m) <= 3,
{
}

/// One call on a tracker: a press or a release of a source, or a reset.
pub enum HoldEdge {
    Press(TriggerSource),
    Release(TriggerSource),
    Reset,
}

/// The held set after one call (see [`model_press`], [`model_release`]).
pub open spec fn apply_edge(m: HoldModel, e: HoldEdge) -> HoldModel {
    match e {
        HoldEdge::Press(s) => model_press(m, s).1,
        HoldEdge::Release(s) => model_release(m, s).1,
        HoldEdge::Reset => HoldModel { keyboard: false, mouse_middle: false, mouse_side: false },
    }
}

/// The held set after a sequence of calls, in order.
pub open spec fn run_edges(m: HoldModel, edges: Seq<HoldEdge>) -> HoldModel
    decreases edges.len(),
{
    if edges.len() == 0 {
        m
    } else {
        apply_edge(run_edges(m, edges.drop_last()), edges.last())
    }
}

/// Whether the latest call of `edges` that concerns `s` (its press, its
/// release, or a reset) is a press; `initially` when there is none.
pub open spec fn latest_is_press(edges: Seq<HoldEdge>, s: TriggerSource, initially: bool) -> bool
    decreases edges.len(),
{
    if edges.len() == 0 {
        initially
    } else {
        match edges.last() {
            HoldEdge::Press(t) => if t == s {
                true
            } else {
                latest_is_press(edges.drop_last(), s, initially)
            },
            HoldEdge::Release(t) => if t == s {
                false
            } else {
                latest_is_press(edges.drop_last(), s, initially)
            },
            HoldEdge::Reset => false,
        }
    }
}

/// **Count law.** Whatever sequence of presses, releases and resets a
/// tracker sees, a source is held exactly when its latest call was a
/// press, and the active count is the number of such sources: never below
/// zero, never above three.
pub proof fn lemma_count_after_any_sequence(m: HoldModel, edges: Seq<HoldEdge>)
    ensures
        forall|s: TriggerSource| #[trigger] is_held(run_edges(m, edges), s) == latest_is_press(edges, s, is_held(m, s)),
        held_count(run_edges(m, edges)) == (if latest_is_press(edges, TriggerSource::KeyboardDictation, m.keyboard) {
            1nat
        } else {
            0nat
        }) + (if latest_is_press(edges, TriggerSource::MouseMiddle, m.mouse_middle) {
            1nat
        } else {
            0nat
        }) + (if latest_is_press(edges, TriggerSource::MouseSide, m.mouse_side) {
            1nat
        } else {
            0nat
        }),
        held_count(run_edges(m, edges)) <= 3,
    decreases edges.len(),
{
    let r = run_edges(m, edges);
    if edges.len() > 0 {
        let rest = edges.drop_last();
        lemma_count_after_any_sequence(m, rest);
        let p = run_edges(m, rest);
        assert forall|s: TriggerSource| #[trigger] is_held(r, s) == latest_is_press(edges, s, is_held(m, s)) by {
            assert(is_held(p, s) == latest_is_press(rest, s, is_held(m, s)));
            match edges.last() {
                HoldEdge::Press(t) => {
                    assert(r == model_press(p, t).1);
                },
                HoldEdge::Release(t) => {
                    assert(r == model_release(p, t).1);
                },
                HoldEdge::Reset => {},
            }
        }
    }
    assert(is_held(r, TriggerSource::KeyboardDictation) == r.keyboard);
    assert(is_held(r, TriggerSource::MouseMiddle) == r.mouse_middle);
    assert(is_held(r, TriggerSource::MouseSide) == r.mouse_side);
    assert(is_held(m, TriggerSource::KeyboardDictation) == m.keyboard);
    assert(is_held(m, TriggerSource::MouseMiddle) == m.mouse_middle);
    assert(is_held(m, TriggerSource::MouseSide) == m.mouse_side);
}

} // verus!
