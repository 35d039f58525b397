//! The fixed 36-feature encoding of a state, the input layout the networks
//! are trained on.
//!
//! Each feature is an exact fraction `(numerator, denominator)`; the caller
//! divides when it builds the network's input batch. The ordering and the
//! width are a wire contract: they are baked into saved weights. A state's
//! completion flag carries no feature of its own: a well-formed state is
//! completed exactly when its working amount has reached the maximum, which
//! the working feature already encodes.

use vstd::prelude::*;
use crate::logic::{Condition, ModifierParameter, State};

verus! {

/// The width of the feature vector.
pub const STATE_NUM: usize = 36;

/// Scaled value and nonzero-indicator of a timer or stack field.
pub open spec fn spec_timer_features(x: u32, k: int) -> (u32, u32) {
    if k == 0 {
        (x, 10u32)
    } else {
        (if x > 0 { 1u32 } else { 0u32 }, 1u32)
    }
}

/// The feature at position `k` of the encoding of `s`.
pub open spec fn spec_feature(s: State, mp: ModifierParameter, k: int) -> (u32, u32) {
    if k == 0 { (s.turn, 128u32) }
    else if k == 1 { (s.time, 256u32) }
    else if k == 2 { (s.working, mp.max_working) }
    else if k == 3 { (s.quality, mp.max_quality) }
    else if k == 4 { (s.durability, mp.max_durability) }
    else if k == 5 { (s.cp, mp.max_cp) }
    else if k == 6 || k == 7 { spec_timer_features(s.inner_quiet, k - 6) }
    else if k == 8 || k == 9 { spec_timer_features(s.careful_observation, k - 8) }
    else if k == 10 || k == 11 { spec_timer_features(s.waste_not, k - 10) }
    else if k == 12 || k == 13 { spec_timer_features(s.veneration, k - 12) }
    else if k == 14 || k == 15 { spec_timer_features(s.great_strides, k - 14) }
    else if k == 16 || k == 17 { spec_timer_features(s.innovation, k - 16) }
    else if k == 18 || k == 19 { spec_timer_features(s.final_appraisal, k - 18) }
    else if k == 20 || k == 21 { spec_timer_features(s.muscle_memory, k - 20) }
    else if k == 22 || k == 23 { spec_timer_features(s.manipulation, k - 22) }
    else if k == 24 { (if s.heart_and_soul { 1u32 } else { 0u32 }, 1u32) }
    else if k == 25 { (if s.heart_and_soul_used { 1u32 } else { 0u32 }, 1u32) }
    else if k == 26 { (if s.combo_basic_touch { 1u32 } else { 0u32 }, 1u32) }
    else if k == 27 { (if s.combo_standard_touch { 1u32 } else { 0u32 }, 1u32) }
    else if k == 28 { (if s.combo_observe { 1u32 } else { 0u32 }, 1u32) }
    else if k == 29 { (if s.condition == Condition::Standard { 1u32 } else { 0u32 }, 1u32) }
    else if k == 30 { (if s.condition == Condition::HighQuality { 1u32 } else { 0u32 }, 1u32) }
    else if k == 31 { (if s.condition == Condition::HighProgress { 1u32 } else { 0u32 }, 1u32) }
    else if k == 32 { (if s.condition == Condition::HighEfficiency { 1u32 } else { 0u32 }, 1u32) }
    else if k == 33 { (if s.condition == Condition::HighSustain { 1u32 } else { 0u32 }, 1u32) }
    else if k == 34 { (if s.condition == Condition::Solid { 1u32 } else { 0u32 }, 1u32) }
    else { (if s.condition == Condition::Stable { 1u32 } else { 0u32 }, 1u32) }
}

/// The full encoding of a state under a configuration.
pub open spec fn spec_encode(s: State, mp: ModifierParameter) -> Seq<(u32, u32)> {
    Seq::new(36, |k: int| spec_feature(s, mp, k))
}

/// The feature at position `k`, computed as the specification states it.
fn feature(s: &State, mp: &ModifierParameter, k: usize) -> (r: (u32, u32))
    requires
        k < 36,
    ensures
        r == spec_feature(*s, *mp, k as int),
{
    if k == 0 { (s.turn, 128) }
    else if k == 1 { (s.time, 256) }
    else if k == 2 { (s.working, mp.max_working) }
    else if k == 3 { (s.quality, mp.max_quality) }
    else if k == 4 { (s.durability, mp.max_durability) }
    else if k == 5 { (s.cp, mp.max_cp) }
    else if k == 6 { (s.inner_quiet, 10) }
    else if k == 7 { (if s.inner_quiet > 0 { 1 } else { 0 }, 1) }
    else if k == 8 { (s.careful_observation, 10) }
    else if k == 9 { (if s.careful_observation > 0 { 1 } else { 0 }, 1) }
    else if k == 10 { (s.waste_not, 10) }
    else if k == 11 { (if s.waste_not > 0 { 1 } else { 0 }, 1) }
    else if k == 12 { (s.veneration, 10) }
    else if k == 13 { (if s.veneration > 0 { 1 } else { 0 }, 1) }
    else if k == 14 { (s.great_strides, 10) }
    else if k == 15 { (if s.great_strides > 0 { 1 } else { 0 }, 1) }
    else if k == 16 { (s.innovation, 10) }
    else if k == 17 { (if s.innovation > 0 { 1 } else { 0 }, 1) }
    else if k == 18 { (s.final_appraisal, 10) }
    else if k == 19 { (if s.final_appraisal > 0 { 1 } else { 0 }, 1) }
    else if k == 20 { (s.muscle_memory, 10) }
    else if k == 21 { (if s.muscle_memory > 0 { 1 } else { 0 }, 1) }
    else if k == 22 { (s.manipulation, 10) }
    else if k == 23 { (if s.manipulation > 0 { 1 } else { 0 }, 1) }
    else if k == 24 { (if s.heart_and_soul { 1 } else { 0 }, 1) }
    else if k == 25 { (if s.heart_and_soul_used { 1 } else { 0 }, 1) }
    else if k == 26 { (if s.combo_basic_touch { 1 } else { 0 }, 1) }
    else if k == 27 { (if s.combo_standard_touch { 1 } else { 0 }, 1) }
    else if k == 28 { (if s.combo_observe { 1 } else { 0 }, 1) }
    else if k == 29 { (if s.condition == Condition::Standard { 1 } else { 0 }, 1) }
    else if k == 30 { (if s.condition == Condition::HighQuality { 1 } else { 0 }, 1) }
    else if k == 31 { (if s.condition == Condition::HighProgress { 1 } else { 0 }, 1) }
    else if k == 32 { (if s.condition == Condition::HighEfficiency { 1 } else { 0 }, 1) }
    else if k == 33 { (if s.condition == Condition::HighSustain { 1 } else { 0 }, 1) }
    else if k == 34 { (if s.condition == Condition::Solid { 1 } else { 0 }, 1) }
    else { (if s.condition == Condition::Stable { 1 } else { 0 }, 1) }
}

/// Encode a state as the 36 exact feature fractions, in the trained
/// ordering.
pub fn encode_state(s: &State, mp: &ModifierParameter) -> (r: Vec<(u32, u32)>)
    ensures
        r@.len() == 36,
        forall|k: int| 0 <= k < 36 ==> #[trigger] r@[k] == spec_feature(*s, *mp, k),
        r@ == spec_encode(*s, *mp),
{
    let mut r: Vec<(u32, u32)> = Vec::new();
    let mut k: usize = 0;
    while k < STATE_NUM
        invariant
            k <= 36,
            r@.len() == k,
            forall|j: int| 0 <= j < k ==> #[trigger] r@[j] == spec_feature(*s, *mp, j),
        decreases 36 - k,
    {
        let f = feature(s, mp, k);
        r.push(f);
        k += 1;
    }
    proof {
        assert(r@ =~= spec_encode(*s, *mp));
    }
    r
}

/// Law: the encoder is deterministic and, on well-formed states of one
/// configuration, injective: two states encode alike exactly when they are
/// the same state. Determinism is the encoder being a function of the
/// state and configuration alone; this lemma is the injective direction.
pub proof fn lemma_encode_injective(s1: State, s2: State, mp: ModifierParameter)
    requires
        s1.wf(mp),
        s2.wf(mp),
        spec_encode(s1, mp) == spec_encode(s2, mp),
    ensures
        s1 == s2,
{
    assert forall|k: int| 0 <= k < 36 implies spec_feature(s1, mp, k) == spec_feature(s2, mp, k) by {
        assert(spec_encode(s1, mp)[k] == spec_encode(s2, mp)[k]);
    }
    assert(spec_feature(s1, mp, 0) == spec_feature(s2, mp, 0));
    assert(s1.turn == s2.turn);
    assert(s1.time == s2.time) by { assert(spec_feature(s1, mp, 1) == spec_feature(s2, mp, 1)); }
    assert(s1.working == s2.working) by { assert(spec_feature(s1, mp, 2) == spec_feature(s2, mp, 2)); }
    assert(s1.quality == s2.quality) by { assert(spec_feature(s1, mp, 3) == spec_feature(s2, mp, 3)); }
    assert(s1.durability == s2.durability) by { assert(spec_feature(s1, mp, 4) == spec_feature(s2, mp, 4)); }
    assert(s1.cp == s2.cp) by { assert(spec_feature(s1, mp, 5) == spec_feature(s2, mp, 5)); }
    assert(s1.inner_quiet == s2.inner_quiet) by { assert(spec_feature(s1, mp, 6) == spec_feature(s2, mp, 6)); }
    assert(s1.careful_observation == s2.careful_observation) by { assert(spec_feature(s1, mp, 8) == spec_feature(s2, mp, 8)); }
    assert(s1.waste_not == s2.waste_not) by { assert(spec_feature(s1, mp, 10) == spec_feature(s2, mp, 10)); }
    assert(s1.veneration == s2.veneration) by { assert(spec_feature(s1, mp, 12) == spec_feature(s2, mp, 12)); }
    assert(s1.great_strides == s2.great_strides) by { assert(spec_feature(s1, mp, 14) == spec_feature(s2, mp, 14)); }
    assert(s1.innovation == s2.innovation) by { assert(spec_feature(s1, mp, 16) == spec_feature(s2, mp, 16)); }
    assert(s1.final_appraisal == s2.final_appraisal) by { assert(spec_feature(s1, mp, 18) == spec_feature(s2, mp, 18)); }
    assert(s1.muscle_memory == s2.muscle_memory) by { assert(spec_feature(s1, mp, 20) == spec_feature(s2, mp, 20)); }
    assert(s1.manipulation == s2.manipulation) by { assert(spec_feature(s1, mp, 22) == spec_feature(s2, mp, 22)); }
    assert(s1.heart_and_soul == s2.heart_and_soul) by { assert(spec_feature(s1, mp, 24) == spec_feature(s2, mp, 24)); }
    assert(s1.heart_and_soul_used == s2.heart_and_soul_used) by { assert(spec_feature(s1, mp, 25) == spec_feature(s2, mp, 25)); }
    assert(s1.combo_basic_touch == s2.combo_basic_touch) by { assert(spec_feature(s1, mp, 26) == spec_feature(s2, mp, 26)); }
    assert(s1.combo_standard_touch == s2.combo_standard_touch) by { assert(spec_feature(s1, mp, 27) == spec_feature(s2, mp, 27)); }
    assert(s1.combo_observe == s2.combo_observe) by { assert(spec_feature(s1, mp, 28) == spec_feature(s2, mp, 28)); }
    assert(s1.condition == s2.condition) by {
        assert(spec_feature(s1, mp, 29) == spec_feature(s2, mp, 29));
        assert(spec_feature(s1, mp, 30) == spec_feature(s2, mp, 30));
        assert(spec_feature(s1, mp, 31) == spec_feature(s2, mp, 31));
        assert(spec_feature(s1, mp, 32) == spec_feature(s2, mp, 32));
        assert(spec_feature(s1, mp, 33) == spec_feature(s2, mp, 33));
        assert(spec_feature(s1, mp, 34) == spec_feature(s2, mp, 34));
        assert(spec_feature(s1, mp, 35) == spec_feature(s2, mp, 35));
    }
    assert(s1.completed == s2.completed);
}

} // verus!
