//! The crafting game engine: states, actions, legality, and transitions.

use vstd::prelude::*;
use crate::rng::{rng_from_seed, rng_next_u32};

verus! {

/// Number of distinct actions; the policy vectors of the search have this width.
pub const ACTION_NUM: usize = 32;

/// The per-turn stochastic modifier of rewards, costs and success rates.
#[derive(Debug, Clone, Copy, PartialEq, Eq, Hash, Structural)]
pub enum Condition {
    Standard,
    HighQuality,
    HighProgress,
    HighEfficiency,
    HighSustain,
    Solid,
    Stable,
}

/// The closed set of 32 moves. The order fixes the action/index bijection
/// that is persisted into training samples.
#[derive(Debug, Clone, Copy, PartialEq, Eq, Structural)]
pub enum Action {
    BasicSynthesis,
    BasicTouch,
    MastersMend,
    HastyTouch,
    RapidSynthesis,
    Observe,
    TricksOfTheTrade,
    WasteNot,
    Veneration,
    StandardTouch,
    GreatStrides,
    Innovation,
    FinalAppraisal,
    WasteNot2,
    ByregotsBlessing,
    PreciseTouch,
    MuscleMemory,
    CarefulObservation,
    CarefulSynthesis,
    Manipulation,
    PrudentTouch,
    FocusedSynthesis,
    FocusedTouch,
    Reflect,
    PreparatoryTouch,
    Groundwork,
    DelicateSynthesis,
    IntensiveSynthesis,
    AdvancedTouch,
    HeartAndSoul,
    PrudentSynthesis,
    TrainedFinesse,
}

impl Action {
    /// The integer each action stands for in policy vectors and samples.
    pub open spec fn spec_index(self) -> int {
        match self {
            Action::BasicSynthesis => 0,
            Action::BasicTouch => 1,
            Action::MastersMend => 2,
            Action::HastyTouch => 3,
            Action::RapidSynthesis => 4,
            Action::Observe => 5,
            Action::TricksOfTheTrade => 6,
            Action::WasteNot => 7,
            Action::Veneration => 8,
            Action::StandardTouch => 9,
            Action::GreatStrides => 10,
            Action::Innovation => 11,
            Action::FinalAppraisal => 12,
            Action::WasteNot2 => 13,
            Action::ByregotsBlessing => 14,
            Action::PreciseTouch => 15,
            Action::MuscleMemory => 16,
            Action::CarefulObservation => 17,
            Action::CarefulSynthesis => 18,
            Action::Manipulation => 19,
            Action::PrudentTouch => 20,
            Action::FocusedSynthesis => 21,
            Action::FocusedTouch => 22,
            Action::Reflect => 23,
            Action::PreparatoryTouch => 24,
            Action::Groundwork => 25,
            Action::DelicateSynthesis => 26,
            Action::IntensiveSynthesis => 27,
            Action::AdvancedTouch => 28,
            Action::HeartAndSoul => 29,
            Action::PrudentSynthesis => 30,
            Action::TrainedFinesse => 31,
        }
    }

    /// The action a policy index stands for, `None` outside `0..32`.
    pub open spec fn spec_from_index(i: int) -> Option<Action> {
        if i == 0 { Some(Action::BasicSynthesis) }
        else if i == 1 { Some(Action::BasicTouch) }
        else if i == 2 { Some(Action::MastersMend) }
        else if i == 3 { Some(Action::HastyTouch) }
        else if i == 4 { Some(Action::RapidSynthesis) }
        else if i == 5 { Some(Action::Observe) }
        else if i == 6 { Some(Action::TricksOfTheTrade) }
        else if i == 7 { Some(Action::WasteNot) }
        else if i == 8 { Some(Action::Veneration) }
        else if i == 9 { Some(Action::StandardTouch) }
        else if i == 10 { Some(Action::GreatStrides) }
        else if i == 11 { Some(Action::Innovation) }
        else if i == 12 { Some(Action::FinalAppraisal) }
        else if i == 13 { Some(Action::WasteNot2) }
        else if i == 14 { Some(Action::ByregotsBlessing) }
        else if i == 15 { Some(Action::PreciseTouch) }
        else if i == 16 { Some(Action::MuscleMemory) }
        else if i == 17 { Some(Action::CarefulObservation) }
        else if i == 18 { Some(Action::CarefulSynthesis) }
        else if i == 19 { Some(Action::Manipulation) }
        else if i == 20 { Some(Action::PrudentTouch) }
        else if i == 21 { Some(Action::FocusedSynthesis) }
        else if i == 22 { Some(Action::FocusedTouch) }
        else if i == 23 { Some(Action::Reflect) }
        else if i == 24 { Some(Action::PreparatoryTouch) }
        else if i == 25 { Some(Action::Groundwork) }
        else if i == 26 { Some(Action::DelicateSynthesis) }
        else if i == 27 { Some(Action::IntensiveSynthesis) }
        else if i == 28 { Some(Action::AdvancedTouch) }
        else if i == 29 { Some(Action::HeartAndSoul) }
        else if i == 30 { Some(Action::PrudentSynthesis) }
        else if i == 31 { Some(Action::TrainedFinesse) }
        else { None }
    }

    /// Index of this action in policy vectors.
    pub fn to_index(&self) -> (r: usize)
        ensures
            r == self.spec_index(),
            r < ACTION_NUM,
    {
        match self {
            Action::BasicSynthesis => 0,
            Action::BasicTouch => 1,
            Action::MastersMend => 2,
            Action::HastyTouch => 3,
            Action::RapidSynthesis => 4,
            Action::Observe => 5,
            Action::TricksOfTheTrade => 6,
            Action::WasteNot => 7,
            Action::Veneration => 8,
            Action::StandardTouch => 9,
            Action::GreatStrides => 10,
            Action::Innovation => 11,
            Action::FinalAppraisal => 12,
            Action::WasteNot2 => 13,
            Action::ByregotsBlessing => 14,
            Action::PreciseTouch => 15,
            Action::MuscleMemory => 16,
            Action::CarefulObservation => 17,
            Action::CarefulSynthesis => 18,
            Action::Manipulation => 19,
            Action::PrudentTouch => 20,
            Action::FocusedSynthesis => 21,
            Action::FocusedTouch => 22,
            Action::Reflect => 23,
            Action::PreparatoryTouch => 24,
            Action::Groundwork => 25,
            Action::DelicateSynthesis => 26,
            Action::IntensiveSynthesis => 27,
            Action::AdvancedTouch => 28,
            Action::HeartAndSoul => 29,
            Action::PrudentSynthesis => 30,
            Action::TrainedFinesse => 31,
        }
    }

    /// Action for a policy index, `None` outside `0..32`.
    pub fn from_index(i: usize) -> (r: Option<Action>)
        ensures
            r == Action::spec_from_index(i as int),
    {
        match i {
            0 => Some(Action::BasicSynthesis),
            1 => Some(Action::BasicTouch),
            2 => Some(Action::MastersMend),
            3 => Some(Action::HastyTouch),
            4 => Some(Action::RapidSynthesis),
            5 => Some(Action::Observe),
            6 => Some(Action::TricksOfTheTrade),
            7 => Some(Action::WasteNot),
            8 => Some(Action::Veneration),
            9 => Some(Action::StandardTouch),
            10 => Some(Action::GreatStrides),
            11 => Some(Action::Innovation),
            12 => Some(Action::FinalAppraisal),
            13 => Some(Action::WasteNot2),
            14 => Some(Action::ByregotsBlessing),
            15 => Some(Action::PreciseTouch),
            16 => Some(Action::MuscleMemory),
            17 => Some(Action::CarefulObservation),
            18 => Some(Action::CarefulSynthesis),
            19 => Some(Action::Manipulation),
            20 => Some(Action::PrudentTouch),
            21 => Some(Action::FocusedSynthesis),
            22 => Some(Action::FocusedTouch),
            23 => Some(Action::Reflect),
            24 => Some(Action::PreparatoryTouch),
            25 => Some(Action::Groundwork),
            26 => Some(Action::DelicateSynthesis),
            27 => Some(Action::IntensiveSynthesis),
            28 => Some(Action::AdvancedTouch),
            29 => Some(Action::HeartAndSoul),
            30 => Some(Action::PrudentSynthesis),
            31 => Some(Action::TrainedFinesse),
            _ => None,
        }
    }
}

/// Law: the action/index correspondence is a bijection between the 32
/// actions and the indices `0..32`.
pub proof fn lemma_action_index_bijection()
    ensures
        forall|a: Action| Action::spec_from_index(a.spec_index()) == Some(a),
        forall|i: int| 0 <= i < 32 ==> #[trigger] Action::spec_from_index(i) is Some,
        forall|i: int| 0 <= i < 32 ==> Action::spec_from_index(i)->Some_0.spec_index() == i,
{
    assert forall|a: Action| Action::spec_from_index(a.spec_index()) == Some(a) by {
        match a {
            Action::BasicSynthesis => {}
            Action::BasicTouch => {}
            Action::MastersMend => {}
            Action::HastyTouch => {}
            Action::RapidSynthesis => {}
            Action::Observe => {}
            Action::TricksOfTheTrade => {}
            Action::WasteNot => {}
            Action::Veneration => {}
            Action::StandardTouch => {}
            Action::GreatStrides => {}
            Action::Innovation => {}
            Action::FinalAppraisal => {}
            Action::WasteNot2 => {}
            Action::ByregotsBlessing => {}
            Action::PreciseTouch => {}
            Action::MuscleMemory => {}
            Action::CarefulObservation => {}
            Action::CarefulSynthesis => {}
            Action::Manipulation => {}
            Action::PrudentTouch => {}
            Action::FocusedSynthesis => {}
            Action::FocusedTouch => {}
            Action::Reflect => {}
            Action::PreparatoryTouch => {}
            Action::Groundwork => {}
            Action::DelicateSynthesis => {}
            Action::IntensiveSynthesis => {}
            Action::AdvancedTouch => {}
            Action::HeartAndSoul => {}
            Action::PrudentSynthesis => {}
            Action::TrainedFinesse => {}
        }
    }
}

/// Immutable per-run configuration: target metrics and the crafter's stats.
#[derive(Debug, Clone, Copy, PartialEq, Eq, Structural)]
pub struct ModifierParameter {
    pub max_working: u32,
    pub max_quality: u32,
    pub max_durability: u32,
    pub work_accuracy: u32,
    pub process_accuracy: u32,
    pub required_process_accuracy: u32,
    pub max_cp: u32,
}

impl ModifierParameter {
    /// A usable configuration: targets are positive and the accuracies are
    /// small enough that the reward arithmetic cannot overflow.
    pub open spec fn valid(self) -> bool {
        &&& self.max_working >= 1
        &&& self.max_quality >= 1
        &&& self.max_durability >= 1
        &&& self.max_cp >= 1
        &&& self.process_accuracy <= 100_000
        &&& self.required_process_accuracy <= 100_000
    }
}

/// One game position. A value type: transitions build new states.
#[derive(Debug, Clone, Copy, PartialEq, Eq, Hash, Structural)]
pub struct State {
    /// Current turn, starting at 1.
    pub turn: u32,
    /// Accumulated estimated duration of the actions taken so far.
    pub time: u32,
    /// Set once `working` has reached `max_working`.
    pub completed: bool,
    /// Progress toward `max_working`.
    pub working: u32,
    /// Quality, capped at `max_quality`.
    pub quality: u32,
    /// Remaining durability; the craft is destroyed at 0 unless completed.
    pub durability: u32,
    /// Remaining crafting points.
    pub cp: u32,
    /// Inner quiet stacks, 0 through 10.
    pub inner_quiet: u32,
    /// Remaining careful observations.
    pub careful_observation: u32,
    /// Remaining waste-not turns.
    pub waste_not: u32,
    /// Remaining veneration turns.
    pub veneration: u32,
    /// Remaining great-strides turns.
    pub great_strides: u32,
    /// Remaining innovation turns.
    pub innovation: u32,
    /// Remaining final-appraisal turns.
    pub final_appraisal: u32,
    /// Remaining muscle-memory turns.
    pub muscle_memory: u32,
    /// Remaining manipulation turns.
    pub manipulation: u32,
    /// Heart-and-soul is currently active.
    pub heart_and_soul: bool,
    /// Heart-and-soul has been consumed this game.
    pub heart_and_soul_used: bool,
    /// The previous action was a basic touch.
    pub combo_basic_touch: bool,
    /// The previous action was a standard touch chained after a basic touch.
    pub combo_standard_touch: bool,
    /// The previous action was an observe.
    pub combo_observe: bool,
    /// The stochastic condition of the current turn.
    pub condition: Condition,
}

/// The game simulator: the run configuration plus the generator that drives
/// random successes and condition rolls.
pub struct Modifier {
    pub mod_param: ModifierParameter,
    pub rng: xorshift::Xorshift128,
}

impl Modifier {
    /// A simulator seeded from two words, as the self-play episodes seed it
    /// from the wall clock mixed with a per-coroutine salt.
    pub fn from_seed(mod_param: ModifierParameter, s0: u64, s1: u64) -> (r: Modifier)
        ensures
            r.mod_param == mod_param,
    {
        Modifier { mod_param, rng: rng_from_seed(s0, s1) }
    }
}

impl State {
    /// The state every reachable position satisfies, for a given configuration.
    pub open spec fn wf(self, mp: ModifierParameter) -> bool {
        &&& 1 <= self.turn
        &&& self.working <= mp.max_working
        &&& self.quality <= mp.max_quality
        &&& self.durability <= mp.max_durability
        &&& self.cp <= mp.max_cp
        &&& self.inner_quiet <= 10
        &&& self.careful_observation <= 3
        &&& (self.completed <==> self.working == mp.max_working)
    }

    /// The opening position of a game.
    pub fn new(mod_param: &ModifierParameter) -> (r: State)
        ensures
            r == State::spec_new(*mod_param),
            mod_param.valid() ==> r.wf(*mod_param),
    {
        State {
            turn: 1,
            time: 0,
            completed: false,
            working: 0,
            quality: 0,
            durability: mod_param.max_durability,
            cp: mod_param.max_cp,
            inner_quiet: 0,
            careful_observation: 3,
            waste_not: 0,
            veneration: 0,
            great_strides: 0,
            innovation: 0,
            final_appraisal: 0,
            muscle_memory: 0,
            manipulation: 0,
            heart_and_soul: false,
            heart_and_soul_used: false,
            combo_basic_touch: false,
            combo_standard_touch: false,
            combo_observe: false,
            condition: Condition::Standard,
        }
    }

    /// What `new` returns.
    pub open spec fn spec_new(mp: ModifierParameter) -> State {
        State {
            turn: 1,
            time: 0,
            completed: false,
            working: 0,
            quality: 0,
            durability: mp.max_durability,
            cp: mp.max_cp,
            inner_quiet: 0,
            careful_observation: 3,
            waste_not: 0,
            veneration: 0,
            great_strides: 0,
            innovation: 0,
            final_appraisal: 0,
            muscle_memory: 0,
            manipulation: 0,
            heart_and_soul: false,
            heart_and_soul_used: false,
            combo_basic_touch: false,
            combo_standard_touch: false,
            combo_observe: false,
            condition: Condition::Standard,
        }
    }

    pub open spec fn spec_destroyed(self) -> bool {
        !self.completed && self.durability == 0
    }

    pub open spec fn spec_completed(self) -> bool {
        self.completed
    }

    pub open spec fn spec_terminated(self) -> bool {
        self.spec_completed() || self.spec_destroyed()
    }

    /// The craft broke: durability ran out before completion.
    pub fn is_destroyed(&self) -> (r: bool)
        ensures
            r == self.spec_destroyed(),
            r ==> !self.spec_completed(),
    {
        !self.completed && self.durability == 0
    }

    /// The craft reached its full working amount.
    pub fn is_completed(&self) -> (r: bool)
        ensures
            r == self.spec_completed(),
    {
        self.completed
    }

    /// The game is over: completed or destroyed.
    pub fn is_terminated(&self) -> (r: bool)
        ensures
            r == self.spec_terminated(),
    {
        self.is_completed() || self.is_destroyed()
    }

    /// The crafting points an action costs in this state: a fixed base,
    /// discounted by combos, halved (rounded up) under a high-efficiency
    /// condition.
    pub open spec fn spec_required_cp(self, a: Action) -> int {
        let base: int = match a {
            Action::BasicSynthesis => 0,
            Action::BasicTouch => 18,
            Action::MastersMend => 88,
            Action::HastyTouch => 0,
            Action::RapidSynthesis => 0,
            Action::Observe => 7,
            Action::TricksOfTheTrade => 0,
            Action::WasteNot => 56,
            Action::Veneration => 18,
            Action::StandardTouch => if self.combo_basic_touch { 18 } else { 32 },
            Action::GreatStrides => 32,
            Action::Innovation => 18,
            Action::FinalAppraisal => 1,
            Action::WasteNot2 => 98,
            Action::ByregotsBlessing => 24,
            Action::PreciseTouch => 18,
            Action::MuscleMemory => 6,
            Action::CarefulObservation => 0,
            Action::CarefulSynthesis => 7,
            Action::Manipulation => 96,
            Action::PrudentTouch => 25,
            Action::FocusedSynthesis => 5,
            Action::FocusedTouch => 18,
            Action::Reflect => 6,
            Action::PreparatoryTouch => 40,
            Action::Groundwork => 18,
            Action::DelicateSynthesis => 32,
            Action::IntensiveSynthesis => 6,
            Action::AdvancedTouch => if self.combo_standard_touch { 18 } else { 46 },
            Action::HeartAndSoul => 0,
            Action::PrudentSynthesis => 18,
            Action::TrainedFinesse => 32,
        };
        if self.condition == Condition::HighEfficiency {
            (base + 1) / 2
        } else {
            base
        }
    }

    /// Crafting points required to run `a` from this state.
    pub fn get_required_cp(&self, a: &Action) -> (r: u32)
        ensures
            r == self.spec_required_cp(*a),
            r <= 98,
    {
        let required_cp: u32 = match a {
            Action::BasicSynthesis => 0,
            Action::BasicTouch => 18,
            Action::MastersMend => 88,
            Action::HastyTouch => 0,
            Action::RapidSynthesis => 0,
            Action::Observe => 7,
            Action::TricksOfTheTrade => 0,
            Action::WasteNot => 56,
            Action::Veneration => 18,
            Action::StandardTouch => if self.combo_basic_touch { 18 } else { 32 },
            Action::GreatStrides => 32,
            Action::Innovation => 18,
            Action::FinalAppraisal => 1,
            Action::WasteNot2 => 98,
            Action::ByregotsBlessing => 24,
            Action::PreciseTouch => 18,
            Action::MuscleMemory => 6,
            Action::CarefulObservation => 0,
            Action::CarefulSynthesis => 7,
            Action::Manipulation => 96,
            Action::PrudentTouch => 25,
            Action::FocusedSynthesis => 5,
            Action::FocusedTouch => 18,
            Action::Reflect => 6,
            Action::PreparatoryTouch => 40,
            Action::Groundwork => 18,
            Action::DelicateSynthesis => 32,
            Action::IntensiveSynthesis => 6,
            Action::AdvancedTouch => if self.combo_standard_touch { 18 } else { 46 },
            Action::HeartAndSoul => 0,
            Action::PrudentSynthesis => 18,
            Action::TrainedFinesse => 32,
        };
        if self.condition == Condition::HighEfficiency {
            (required_cp + 1) / 2
        } else {
            required_cp
        }
    }

    /// Whether `a` may be run from this state: enough crafting points, and
    /// the action-specific preconditions hold.
    pub open spec fn spec_check_action(self, a: Action) -> bool {
        self.cp >= self.spec_required_cp(a) && match a {
            Action::TricksOfTheTrade => self.condition == Condition::HighQuality || self.heart_and_soul,
            Action::ByregotsBlessing => self.inner_quiet > 0,
            Action::PreciseTouch => self.condition == Condition::HighQuality || self.heart_and_soul,
            Action::MuscleMemory => self.turn == 1,
            Action::CarefulObservation => self.careful_observation > 0,
            Action::PrudentTouch => self.waste_not == 0,
            Action::Reflect => self.turn == 1,
            Action::IntensiveSynthesis => self.condition == Condition::HighQuality || self.heart_and_soul,
            Action::HeartAndSoul => !self.heart_and_soul_used,
            Action::PrudentSynthesis => self.waste_not == 0,
            Action::TrainedFinesse => self.inner_quiet == 10,
            _ => true,
        }
    }

    /// Legality check callers must pass before `run_action`.
    pub fn check_action(&self, a: &Action) -> (r: bool)
        ensures
            r == self.spec_check_action(*a),
    {
        if self.cp >= self.get_required_cp(a) {
            match a {
                Action::TricksOfTheTrade => self.condition == Condition::HighQuality || self.heart_and_soul,
                Action::ByregotsBlessing => self.inner_quiet > 0,
                Action::PreciseTouch => self.condition == Condition::HighQuality || self.heart_and_soul,
                Action::MuscleMemory => self.turn == 1,
                Action::CarefulObservation => self.careful_observation > 0,
                Action::PrudentTouch => self.waste_not == 0,
                Action::Reflect => self.turn == 1,
                Action::IntensiveSynthesis => self.condition == Condition::HighQuality || self.heart_and_soul,
                Action::HeartAndSoul => !self.heart_and_soul_used,
                Action::PrudentSynthesis => self.waste_not == 0,
                Action::TrainedFinesse => self.inner_quiet == 10,
                _ => true,
            }
        } else {
            false
        }
    }
}

pub open spec fn spec_decrement_clip(x: u32) -> u32 {
    if x > 0 { (x - 1) as u32 } else { 0u32 }
}

fn decrement_clip(x: u32) -> (r: u32)
    ensures
        r == spec_decrement_clip(x),
{
    if x > 0 { x - 1 } else { 0 }
}

/// Which condition a uniform draw stands for. The draw is read as the
/// fraction `draw / 2^32`; the thresholds are 0.37, 0.49, 0.61, 0.73, 0.85.
pub open spec fn spec_condition_from_draw(draw: u32) -> Condition {
    if draw * 100 < 37 * 0x1_0000_0000 { Condition::Standard }
    else if draw * 100 < 49 * 0x1_0000_0000 { Condition::HighQuality }
    else if draw * 100 < 61 * 0x1_0000_0000 { Condition::HighProgress }
    else if draw * 100 < 73 * 0x1_0000_0000 { Condition::Stable }
    else if draw * 100 < 85 * 0x1_0000_0000 { Condition::HighSustain }
    else { Condition::Solid }
}

fn condition_from_draw(draw: u32) -> (r: Condition)
    ensures
        r == spec_condition_from_draw(draw),
{
    let v: u64 = (draw as u64) * 100;
    if v < 37 * 0x1_0000_0000 { Condition::Standard }
    else if v < 49 * 0x1_0000_0000 { Condition::HighQuality }
    else if v < 61 * 0x1_0000_0000 { Condition::HighProgress }
    else if v < 73 * 0x1_0000_0000 { Condition::Stable }
    else if v < 85 * 0x1_0000_0000 { Condition::HighSustain }
    else { Condition::Solid }
}

impl State {
    pub open spec fn spec_change_condition(self, draw: u32) -> State {
        if self.spec_terminated() {
            self
        } else {
            State { condition: spec_condition_from_draw(draw), ..self }
        }
    }

    fn change_condition(&self, modifier: &mut Modifier) -> (r: State)
        ensures
            final(modifier).mod_param == old(modifier).mod_param,
            exists|draw: u32| r == self.spec_change_condition(draw),
    {
        if self.is_terminated() {
            let r = *self;
            assert(r == self.spec_change_condition(0u32));
            r
        } else {
            let draw = rng_next_u32(&mut modifier.rng);
            let r = State { condition: condition_from_draw(draw), ..*self };
            assert(r == self.spec_change_condition(draw));
            r
        }
    }

    pub open spec fn spec_next_turn(self, mp: ModifierParameter) -> State {
        State {
            turn: if self.spec_terminated() { self.turn } else { (self.turn + 1) as u32 },
            durability: if self.manipulation == 0 || self.spec_terminated() {
                self.durability
            } else if self.durability + 5 <= mp.max_durability {
                (self.durability + 5) as u32
            } else {
                mp.max_durability
            },
            veneration: spec_decrement_clip(self.veneration),
            waste_not: spec_decrement_clip(self.waste_not),
            great_strides: spec_decrement_clip(self.great_strides),
            innovation: spec_decrement_clip(self.innovation),
            final_appraisal: spec_decrement_clip(self.final_appraisal),
            muscle_memory: spec_decrement_clip(self.muscle_memory),
            manipulation: spec_decrement_clip(self.manipulation),
            combo_basic_touch: false,
            combo_standard_touch: false,
            combo_observe: false,
            ..self
        }
    }

    fn next_turn(&self, mp: &ModifierParameter) -> (r: State)
        requires
            self.turn < u32::MAX,
        ensures
            r == self.spec_next_turn(*mp),
    {
        let durability = if self.manipulation == 0 || self.is_terminated() {
            self.durability
        } else {
            let healed: u64 = self.durability as u64 + 5;
            if healed <= mp.max_durability as u64 {
                healed as u32
            } else {
                mp.max_durability
            }
        };
        State {
            turn: if self.is_terminated() { self.turn } else { self.turn + 1 },
            durability,
            veneration: decrement_clip(self.veneration),
            waste_not: decrement_clip(self.waste_not),
            great_strides: decrement_clip(self.great_strides),
            innovation: decrement_clip(self.innovation),
            final_appraisal: decrement_clip(self.final_appraisal),
            muscle_memory: decrement_clip(self.muscle_memory),
            manipulation: decrement_clip(self.manipulation),
            combo_basic_touch: false,
            combo_standard_touch: false,
            combo_observe: false,
            ..*self
        }
    }

    /// Buff durations are two turns longer when set under a high-sustain
    /// condition.
    pub open spec fn spec_duration(self, x: u32) -> u32
        recommends
            x <= 8,
    {
        if self.condition == Condition::HighSustain { (x + 2) as u32 } else { x }
    }

    fn duration(&self, x: u32) -> (r: u32)
        requires
            x <= 8,
        ensures
            r == self.spec_duration(x),
    {
        if self.condition == Condition::HighSustain { x + 2 } else { x }
    }

    /// The success chance of an uncertain action, in quarters: one half as a
    /// base, one quarter more under a stable condition.
    pub open spec fn spec_probability_quarters(self) -> u32 {
        if self.condition == Condition::Stable { 3u32 } else { 2u32 }
    }

    fn probability_quarters(&self) -> (r: u32)
        ensures
            r == self.spec_probability_quarters(),
    {
        if self.condition == Condition::Stable { 3 } else { 2 }
    }

    /// How much an action with tenfold efficiency `eff10` advances the
    /// working amount. The base of 472 is measured for a work accuracy of
    /// 2769 only; any other accuracy yields the large sentinel. The high-
    /// progress condition counts 1.5x, veneration +0.5x, muscle memory +1x.
    #[verifier::opaque]
    pub open spec fn spec_working_reward(self, mp: ModifierParameter, eff10: u32) -> u32
        recommends
            eff10 <= 50,
    {
        if mp.work_accuracy != 2769 {
            99999u32
        } else {
            let c2: int = if self.condition == Condition::HighProgress { 3 } else { 2 };
            let b2: int = 2 + (if self.veneration > 0 { 1int } else { 0 }) + (if self.muscle_memory > 0 { 2int } else { 0 });
            ((472 * eff10 * c2 * b2) / 40) as u32
        }
    }

    pub fn working_reward(&self, mp: &ModifierParameter, eff10: u32) -> (r: u32)
        requires
            eff10 <= 50,
        ensures
            r == self.spec_working_reward(*mp, eff10),
            r <= 99999,
    {
        proof { reveal(State::spec_working_reward); }
        if mp.work_accuracy != 2769 {
            return 99999;
        }
        let c2: u64 = if self.condition == Condition::HighProgress { 3 } else { 2 };
        let b2: u64 = 2 + (if self.veneration > 0 { 1u64 } else { 0 }) + (if self.muscle_memory > 0 { 2u64 } else { 0 });
        let t1: u64 = 472 * (eff10 as u64);
        assert(t1 * c2 <= 70800) by (nonlinear_arith)
            requires t1 <= 23600, c2 <= 3;
        let t2: u64 = t1 * c2;
        assert(t2 * b2 <= 354000) by (nonlinear_arith)
            requires t2 <= 70800, b2 <= 5;
        let t3: u64 = t2 * b2;
        (t3 / 40) as u32
    }

    /// How much a quality action with percent efficiency `eff` raises the
    /// quality: an approximation derived from the process accuracy, raised
    /// 20% per inner-quiet stack, 1.5x under a high-quality condition,
    /// +1x by great strides and +0.5x by innovation. Exact rational
    /// arithmetic, truncated as the measurements were.
    #[verifier::opaque]
    pub open spec fn spec_quality_reward(self, mp: ModifierParameter, eff: u32) -> u32
        recommends
            self.inner_quiet <= 20,
            eff <= 1000,
            mp.valid(),
    {
        let f5: int = mp.process_accuracy * (5 + self.inner_quiet);
        let c2: int = if self.condition == Condition::HighQuality { 3 } else { 2 };
        let b2: int = 2 + (if self.great_strides > 0 { 2int } else { 0 }) + (if self.innovation > 0 { 1int } else { 0 });
        let num: int = (7 * f5 + 3500) * (f5 + 50000) * 3 * eff * c2 * b2;
        let den: int = 10000 * (mp.required_process_accuracy + 10000);
        let q: int = num / den;
        let sat: int = if q > u32::MAX { u32::MAX as int } else { q };
        ((sat / 100) as u32)
    }

    pub fn quality_reward(&self, mp: &ModifierParameter, eff: u32) -> (r: u32)
        requires
            self.inner_quiet <= 20,
            eff <= 1000,
            mp.valid(),
        ensures
            r == self.spec_quality_reward(*mp, eff),
    {
        proof { reveal(State::spec_quality_reward); }
        let pa: u128 = mp.process_accuracy as u128;
        let stacks: u128 = 5 + self.inner_quiet as u128;
        assert(pa * stacks <= 2_500_000) by (nonlinear_arith)
            requires pa <= 100_000, stacks <= 25;
        let f5: u128 = pa * stacks;
        let c2: u128 = if self.condition == Condition::HighQuality { 3 } else { 2 };
        let b2: u128 = 2 + (if self.great_strides > 0 { 2u128 } else { 0 }) + (if self.innovation > 0 { 1u128 } else { 0 });
        let a1: u128 = 7 * f5 + 3500;
        let a2: u128 = f5 + 50000;
        assert(a1 * a2 <= 0x1_0000_0000_0000_0000) by (nonlinear_arith)
            requires a1 <= 17_503_500, a2 <= 2_550_000;
        let m1: u128 = a1 * a2 * 3;
        assert(m1 * (eff as u128) <= 0x1000_0000_0000_0000_0000) by (nonlinear_arith)
            requires m1 <= 0x3_0000_0000_0000_0000, eff <= 1000;
        let m2: u128 = m1 * (eff as u128);
        assert(m2 * c2 * b2 <= 0xF_0000_0000_0000_0000_0000_0000) by (nonlinear_arith)
            requires m2 <= 0x1000_0000_0000_0000_0000, c2 <= 3, b2 <= 5;
        let num: u128 = m2 * c2 * b2;
        let den: u128 = 10000 * (mp.required_process_accuracy as u128 + 10000);
        let q: u128 = num / den;
        let sat: u32 = if q > u32::MAX as u128 { u32::MAX } else { q as u32 };
        sat / 100
    }

    pub open spec fn spec_add_working(self, mp: ModifierParameter, eff10: u32) -> State {
        let w: int = self.working + self.spec_working_reward(mp, eff10);
        if w >= mp.max_working {
            if self.final_appraisal > 0 {
                State { working: (mp.max_working - 1) as u32, muscle_memory: 0, final_appraisal: 0, ..self }
            } else {
                State { working: mp.max_working, muscle_memory: 0, completed: true, ..self }
            }
        } else {
            State { working: w as u32, muscle_memory: 0, ..self }
        }
    }

    fn add_working(&self, mp: &ModifierParameter, eff10: u32) -> (r: State)
        requires
            eff10 <= 50,
            mp.max_working >= 1,
        ensures
            r == self.spec_add_working(*mp, eff10),
    {
        let w: u64 = self.working as u64 + self.working_reward(mp, eff10) as u64;
        if w >= mp.max_working as u64 {
            if self.final_appraisal > 0 {
                State { working: mp.max_working - 1, muscle_memory: 0, final_appraisal: 0, ..*self }
            } else {
                State { working: mp.max_working, muscle_memory: 0, completed: true, ..*self }
            }
        } else {
            State { working: w as u32, muscle_memory: 0, ..*self }
        }
    }

    pub open spec fn spec_add_quality_base(self, mp: ModifierParameter, eff: u32) -> State {
        let q: int = self.quality + self.spec_quality_reward(mp, eff);
        State {
            quality: if q <= mp.max_quality { q as u32 } else { mp.max_quality },
            great_strides: 0,
            ..self
        }
    }

    fn add_quality_base(&self, mp: &ModifierParameter, eff: u32) -> (r: State)
        requires
            self.inner_quiet <= 20,
            eff <= 1000,
            mp.valid(),
        ensures
            r == self.spec_add_quality_base(*mp, eff),
    {
        let q: u64 = self.quality as u64 + self.quality_reward(mp, eff) as u64;
        State {
            quality: if q <= mp.max_quality as u64 { q as u32 } else { mp.max_quality },
            great_strides: 0,
            ..*self
        }
    }

    pub open spec fn spec_add_inner_quiet(self, stack: u32) -> State {
        State {
            inner_quiet: if self.inner_quiet + stack <= 10 { (self.inner_quiet + stack) as u32 } else { 10u32 },
            ..self
        }
    }

    fn add_inner_quiet(&self, stack: u32) -> (r: State)
        requires
            stack <= 2,
            self.inner_quiet <= 20,
        ensures
            r == self.spec_add_inner_quiet(stack),
    {
        State {
            inner_quiet: if self.inner_quiet + stack <= 10 { self.inner_quiet + stack } else { 10 },
            ..*self
        }
    }

    pub open spec fn spec_add_time(self, x: u32) -> State {
        State { time: (self.time + x) as u32, ..self }
    }

    fn add_time(&self, x: u32) -> (r: State)
        requires
            self.time + x <= u32::MAX,
        ensures
            r == self.spec_add_time(x),
    {
        State { time: self.time + x, ..*self }
    }

    pub open spec fn spec_set_inner_quiet(self, inner_quiet: u32) -> State {
        State { inner_quiet, ..self }
    }

    fn set_inner_quiet(&self, inner_quiet: u32) -> (r: State)
        ensures
            r == self.spec_set_inner_quiet(inner_quiet),
    {
        State { inner_quiet, ..*self }
    }

    pub open spec fn spec_add_quality(self, mp: ModifierParameter, eff: u32, stack: u32) -> State {
        self.spec_add_quality_base(mp, eff).spec_add_inner_quiet(stack)
    }

    fn add_quality(&self, mp: &ModifierParameter, eff: u32, stack: u32) -> (r: State)
        requires
            self.inner_quiet <= 20,
            eff <= 1000,
            stack <= 2,
            mp.valid(),
        ensures
            r == self.spec_add_quality(*mp, eff, stack),
    {
        self.add_quality_base(mp, eff).add_inner_quiet(stack)
    }

    pub open spec fn spec_add_quality_byregots(self, mp: ModifierParameter) -> State {
        self.spec_add_quality_base(mp, (100 + self.inner_quiet * 20) as u32).spec_set_inner_quiet(0)
    }

    fn add_quality_byregots(&self, mp: &ModifierParameter) -> (r: State)
        requires
            self.inner_quiet <= 20,
            mp.valid(),
        ensures
            r == self.spec_add_quality_byregots(*mp),
    {
        self.add_quality_base(mp, 100 + self.inner_quiet * 20).set_inner_quiet(0)
    }

    pub open spec fn spec_consume_careful_observation(self) -> State {
        State { careful_observation: (self.careful_observation - 1) as u32, ..self }
    }

    fn consume_careful_observation(&self) -> (r: State)
        requires
            self.careful_observation > 0,
        ensures
            r == self.spec_consume_careful_observation(),
    {
        State { careful_observation: self.careful_observation - 1, ..*self }
    }

    pub open spec fn spec_consume_cp(self, a: Action) -> State {
        State { cp: (self.cp - self.spec_required_cp(a)) as u32, ..self }
    }

    fn consume_cp(&self, a: &Action) -> (r: State)
        requires
            self.cp >= self.spec_required_cp(*a),
        ensures
            r == self.spec_consume_cp(*a),
    {
        State { cp: self.cp - self.get_required_cp(a), ..*self }
    }

    /// Durability loss: the cost is halved under a solid condition and
    /// halved again under waste-not, each rounded up; the remaining
    /// durability never goes below zero.
    pub open spec fn spec_consume_durability(self, x: u32) -> State {
        let div: int = (if self.condition == Condition::Solid { 2int } else { 1 })
            * (if self.waste_not > 0 { 2int } else { 1 });
        let q: int = (x + div - 1) / div;
        State { durability: if self.durability > q { (self.durability - q) as u32 } else { 0u32 }, ..self }
    }

    fn consume_durability(&self, x: u32) -> (r: State)
        requires
            x <= 20,
        ensures
            r == self.spec_consume_durability(x),
    {
        let div: u32 = (if self.condition == Condition::Solid { 2 } else { 1 })
            * (if self.waste_not > 0 { 2u32 } else { 1 });
        let q: u32 = (x + div - 1) / div;
        State { durability: if self.durability > q { self.durability - q } else { 0 }, ..*self }
    }

    pub open spec fn spec_add_durability(self, x: u32, mp: ModifierParameter) -> State {
        State {
            durability: if self.durability + x <= mp.max_durability { (self.durability + x) as u32 } else { mp.max_durability },
            ..self
        }
    }

    fn add_durability(&self, x: u32, mp: &ModifierParameter) -> (r: State)
        requires
            x <= 30,
        ensures
            r == self.spec_add_durability(x, *mp),
    {
        let sum: u64 = self.durability as u64 + x as u64;
        State {
            durability: if sum <= mp.max_durability as u64 { sum as u32 } else { mp.max_durability },
            ..*self
        }
    }

    pub open spec fn spec_add_cp(self, x: u32, mp: ModifierParameter) -> State {
        State {
            cp: if self.cp + x <= mp.max_cp { (self.cp + x) as u32 } else { mp.max_cp },
            ..self
        }
    }

    fn add_cp(&self, x: u32, mp: &ModifierParameter) -> (r: State)
        requires
            x <= 20,
        ensures
            r == self.spec_add_cp(x, *mp),
    {
        let sum: u64 = self.cp as u64 + x as u64;
        State {
            cp: if sum <= mp.max_cp as u64 { sum as u32 } else { mp.max_cp },
            ..*self
        }
    }

    pub open spec fn spec_clear_manipulation(self) -> State {
        State { manipulation: 0u32, ..self }
    }

    fn clear_manipulation(&self) -> (r: State)
        ensures
            r == self.spec_clear_manipulation(),
    {
        State { manipulation: 0, ..*self }
    }

    pub open spec fn spec_set_manipulation(self, dur: u32) -> State {
        State { manipulation: self.spec_duration(dur), ..self }
    }

    fn set_manipulation(&self, dur: u32) -> (r: State)
        requires
            dur <= 8,
        ensures
            r == self.spec_set_manipulation(dur),
    {
        State { manipulation: self.duration(dur), ..*self }
    }

    pub open spec fn spec_set_great_strides(self, dur: u32) -> State {
        State { great_strides: self.spec_duration(dur), ..self }
    }

    fn set_great_strides(&self, dur: u32) -> (r: State)
        requires
            dur <= 8,
        ensures
            r == self.spec_set_great_strides(dur),
    {
        State { great_strides: self.duration(dur), ..*self }
    }

    pub open spec fn spec_set_innovation(self, dur: u32) -> State {
        State { innovation: self.spec_duration(dur), ..self }
    }

    fn set_innovation(&self, dur: u32) -> (r: State)
        requires
            dur <= 8,
        ensures
            r == self.spec_set_innovation(dur),
    {
        State { innovation: self.duration(dur), ..*self }
    }

    pub open spec fn spec_set_waste_not(self, dur: u32) -> State {
        State { waste_not: self.spec_duration(dur), ..self }
    }

    fn set_waste_not(&self, dur: u32) -> (r: State)
        requires
            dur <= 8,
        ensures
            r == self.spec_set_waste_not(dur),
    {
        State { waste_not: self.duration(dur), ..*self }
    }

    pub open spec fn spec_set_veneration(self, dur: u32) -> State {
        State { veneration: self.spec_duration(dur), ..self }
    }

    fn set_veneration(&self, dur: u32) -> (r: State)
        requires
            dur <= 8,
        ensures
            r == self.spec_set_veneration(dur),
    {
        State { veneration: self.duration(dur), ..*self }
    }

    pub open spec fn spec_set_final_appraisal(self, dur: u32) -> State {
        State { final_appraisal: self.spec_duration(dur), ..self }
    }

    fn set_final_appraisal(&self, dur: u32) -> (r: State)
        requires
            dur <= 8,
        ensures
            r == self.spec_set_final_appraisal(dur),
    {
        State { final_appraisal: self.duration(dur), ..*self }
    }

    pub open spec fn spec_set_muscle_memory(self, dur: u32) -> State {
        State { muscle_memory: self.spec_duration(dur), ..self }
    }

    fn set_muscle_memory(&self, dur: u32) -> (r: State)
        requires
            dur <= 8,
        ensures
            r == self.spec_set_muscle_memory(dur),
    {
        State { muscle_memory: self.duration(dur), ..*self }
    }

    pub open spec fn spec_set_heart_and_soul(self) -> State {
        State { heart_and_soul: true, heart_and_soul_used: true, ..self }
    }

    fn set_heart_and_soul(&self) -> (r: State)
        ensures
            r == self.spec_set_heart_and_soul(),
    {
        State { heart_and_soul: true, heart_and_soul_used: true, ..*self }
    }

    pub open spec fn spec_set_combo_basic_touch(self) -> State {
        State { combo_basic_touch: true, ..self }
    }

    fn set_combo_basic_touch(&self) -> (r: State)
        ensures
            r == self.spec_set_combo_basic_touch(),
    {
        State { combo_basic_touch: true, ..*self }
    }

    pub open spec fn spec_set_combo_standard_touch(self, combo_basic_touch: bool) -> State {
        State { combo_standard_touch: combo_basic_touch, ..self }
    }

    fn set_combo_standard_touch(&self, combo_basic_touch: bool) -> (r: State)
        ensures
            r == self.spec_set_combo_standard_touch(combo_basic_touch),
    {
        State { combo_standard_touch: combo_basic_touch, ..*self }
    }

    pub open spec fn spec_set_combo_observe(self) -> State {
        State { combo_observe: true, ..self }
    }

    fn set_combo_observe(&self) -> (r: State)
        ensures
            r == self.spec_set_combo_observe(),
    {
        State { combo_observe: true, ..*self }
    }

    pub open spec fn spec_clear_combo(self) -> State {
        State { combo_observe: false, combo_basic_touch: false, combo_standard_touch: false, ..self }
    }

    fn clear_combo(&self) -> (r: State)
        ensures
            r == self.spec_clear_combo(),
    {
        State { combo_observe: false, combo_basic_touch: false, combo_standard_touch: false, ..*self }
    }

    /// Heart-and-soul survives a use made under a high-quality condition.
    pub open spec fn spec_clear_heart_and_soul(self) -> State {
        if self.condition == Condition::HighQuality {
            self
        } else {
            State { heart_and_soul: false, ..self }
        }
    }

    fn clear_heart_and_soul(&self) -> (r: State)
        ensures
            r == self.spec_clear_heart_and_soul(),
    {
        if self.condition == Condition::HighQuality {
            *self
        } else {
            State { heart_and_soul: false, ..*self }
        }
    }
}

impl State {
    /// An action that neither advances the turn nor re-rolls the condition.
    pub open spec fn spec_is_free_action(a: Action) -> bool {
        a == Action::FinalAppraisal || a == Action::CarefulObservation || a == Action::HeartAndSoul
    }

    /// The estimated duration an action adds: 3 for a full turn, 2 for
    /// buff-setting and free actions.
    pub open spec fn spec_time_cost(a: Action) -> u32 {
        match a {
            Action::MastersMend => 2,
            Action::WasteNot => 2,
            Action::Veneration => 2,
            Action::GreatStrides => 2,
            Action::Innovation => 2,
            Action::FinalAppraisal => 2,
            Action::WasteNot2 => 2,
            Action::CarefulObservation => 2,
            Action::Manipulation => 2,
            Action::HeartAndSoul => 2,
            _ => 3,
        }
    }

    /// Everything an action does before the condition roll and the time
    /// accounting: rewards, costs, buffs, the turn advance.
    pub open spec fn spec_apply_main(self, mp: ModifierParameter, a: Action, success: bool) -> State {
        match a {
            Action::BasicSynthesis => self.spec_add_working(mp, 12).spec_consume_durability(10).spec_next_turn(mp),
            Action::BasicTouch => self.spec_add_quality(mp, 100, 1).spec_consume_cp(a).spec_consume_durability(10).spec_next_turn(mp).spec_set_combo_basic_touch(),
            Action::MastersMend => self.spec_consume_cp(a).spec_add_durability(30, mp).spec_next_turn(mp),
            Action::HastyTouch => if success {
                self.spec_add_quality(mp, 100, 1).spec_consume_durability(10).spec_next_turn(mp)
            } else {
                self.spec_consume_durability(10).spec_next_turn(mp)
            },
            Action::RapidSynthesis => if success {
                self.spec_add_working(mp, 50).spec_consume_durability(10).spec_next_turn(mp)
            } else {
                self.spec_consume_durability(10).spec_next_turn(mp)
            },
            Action::Observe => self.spec_consume_cp(a).spec_next_turn(mp).spec_set_combo_observe(),
            Action::TricksOfTheTrade => self.spec_next_turn(mp).spec_add_cp(20, mp).spec_clear_heart_and_soul(),
            Action::WasteNot => self.spec_consume_cp(a).spec_next_turn(mp).spec_set_waste_not(4),
            Action::Veneration => self.spec_consume_cp(a).spec_next_turn(mp).spec_set_veneration(4),
            Action::StandardTouch => self.spec_add_quality(mp, 125, 1).spec_consume_cp(a).spec_consume_durability(10).spec_next_turn(mp).spec_set_combo_standard_touch(self.combo_basic_touch),
            Action::GreatStrides => self.spec_consume_cp(a).spec_next_turn(mp).spec_set_great_strides(3),
            Action::Innovation => self.spec_consume_cp(a).spec_next_turn(mp).spec_set_innovation(4),
            Action::FinalAppraisal => self.spec_consume_cp(a).spec_clear_combo().spec_set_final_appraisal(5),
            Action::WasteNot2 => self.spec_consume_cp(a).spec_next_turn(mp).spec_set_waste_not(8),
            Action::ByregotsBlessing => self.spec_add_quality_byregots(mp).spec_consume_cp(a).spec_consume_durability(10).spec_next_turn(mp),
            Action::PreciseTouch => self.spec_add_quality(mp, 150, 2).spec_consume_cp(a).spec_consume_durability(10).spec_next_turn(mp).spec_clear_heart_and_soul(),
            Action::MuscleMemory => self.spec_add_working(mp, 30).spec_consume_cp(a).spec_consume_durability(10).spec_next_turn(mp).spec_set_muscle_memory(5),
            Action::CarefulObservation => self.spec_clear_combo().spec_consume_careful_observation(),
            Action::CarefulSynthesis => self.spec_add_working(mp, 18).spec_consume_cp(a).spec_consume_durability(10).spec_next_turn(mp),
            Action::Manipulation => self.spec_clear_manipulation().spec_consume_cp(a).spec_next_turn(mp).spec_set_manipulation(8),
            Action::PrudentTouch => self.spec_add_quality(mp, 100, 1).spec_consume_cp(a).spec_consume_durability(5).spec_next_turn(mp),
            Action::FocusedSynthesis => if success {
                self.spec_add_working(mp, 15).spec_consume_cp(a).spec_consume_durability(10).spec_next_turn(mp)
            } else {
                self.spec_consume_cp(a).spec_consume_durability(10).spec_next_turn(mp)
            },
            Action::FocusedTouch => if success {
                self.spec_add_quality(mp, 150, 1).spec_consume_cp(a).spec_consume_durability(10).spec_next_turn(mp)
            } else {
                self.spec_consume_cp(a).spec_consume_durability(10).spec_next_turn(mp)
            },
            Action::Reflect => self.spec_add_quality(mp, 100, 2).spec_consume_cp(a).spec_consume_durability(10).spec_next_turn(mp),
            Action::PreparatoryTouch => self.spec_add_quality(mp, 200, 2).spec_consume_cp(a).spec_consume_durability(20).spec_next_turn(mp),
            Action::Groundwork => {
                let eff10: u32 = if self.spec_required_cp(a) < self.durability { 18 } else { 36 };
                self.spec_add_working(mp, eff10).spec_consume_cp(a).spec_consume_durability(20).spec_next_turn(mp)
            },
            Action::DelicateSynthesis => self.spec_add_working(mp, 10).spec_add_quality(mp, 100, 1).spec_consume_cp(a).spec_consume_durability(10).spec_next_turn(mp),
            Action::IntensiveSynthesis => self.spec_add_working(mp, 40).spec_consume_cp(a).spec_consume_durability(10).spec_next_turn(mp).spec_clear_heart_and_soul(),
            Action::AdvancedTouch => self.spec_add_quality(mp, 150, 1).spec_consume_cp(a).spec_consume_durability(10).spec_next_turn(mp),
            Action::HeartAndSoul => self.spec_clear_combo().spec_set_heart_and_soul(),
            Action::PrudentSynthesis => self.spec_add_working(mp, 18).spec_consume_cp(a).spec_consume_durability(5).spec_next_turn(mp),
            Action::TrainedFinesse => self.spec_add_quality(mp, 100, 1).spec_consume_cp(a).spec_next_turn(mp),
        }
    }

    /// The full transition one action makes, given the outcome `success` of
    /// its random roll (ignored for certain actions) and the uniform word
    /// `draw` behind the condition roll (ignored for free actions and
    /// terminal outcomes).
    #[verifier::opaque]
    pub open spec fn spec_apply(self, mp: ModifierParameter, a: Action, success: bool, draw: u32) -> State {
        let mid = self.spec_apply_main(mp, a, success);
        let rolled = if State::spec_is_free_action(a) { mid } else { mid.spec_change_condition(draw) };
        rolled.spec_add_time(State::spec_time_cost(a))
    }

    /// Draw a success with the action's current probability: one half,
    /// raised to three quarters under a stable condition.
    fn try_random(&self, modifier: &mut Modifier) -> (r: bool)
        ensures
            final(modifier).mod_param == old(modifier).mod_param,
    {
        let quarters = self.probability_quarters();
        let draw = rng_next_u32(&mut modifier.rng);
        (draw as u64) < (quarters as u64) * 0x4000_0000
    }

    /// The precondition of running action `a` on a live state: the action
    /// is legal, the game is not over, the state is within the engine's
    /// arithmetic capacity.
    pub open spec fn spec_can_run(self, mp: ModifierParameter, a: Action) -> bool {
        &&& mp.valid()
        &&& self.spec_check_action(a)
        &&& !self.spec_terminated()
        &&& self.inner_quiet <= 20
        &&& self.turn < u32::MAX
        &&& self.time + 3 <= u32::MAX
    }


    fn action_basic_synthesis(&self, modifier: &mut Modifier, a: &Action) -> (r: State)
        requires
            *a == Action::BasicSynthesis,
            self.spec_can_run(old(modifier).mod_param, *a),
        ensures
            final(modifier).mod_param == old(modifier).mod_param,
            exists|success: bool, draw: u32| r == self.spec_apply(old(modifier).mod_param, *a, success, draw),
    {
        proof { reveal(State::spec_apply); }
        let mp = modifier.mod_param;
        let mid = self.add_working(&mp, 12).consume_durability(10).next_turn(&mp);
        let rolled = mid.change_condition(modifier);
        let r = rolled.add_time(3);
        proof {
            let draw = choose|d: u32| rolled == mid.spec_change_condition(d);
            assert(r == self.spec_apply(mp, *a, false, draw));
        }
        r
    }

    fn action_basic_touch(&self, modifier: &mut Modifier, a: &Action) -> (r: State)
        requires
            *a == Action::BasicTouch,
            self.spec_can_run(old(modifier).mod_param, *a),
        ensures
            final(modifier).mod_param == old(modifier).mod_param,
            exists|success: bool, draw: u32| r == self.spec_apply(old(modifier).mod_param, *a, success, draw),
    {
        proof { reveal(State::spec_apply); }
        let mp = modifier.mod_param;
        let mid = self.add_quality(&mp, 100, 1).consume_cp(a).consume_durability(10).next_turn(&mp).set_combo_basic_touch();
        let rolled = mid.change_condition(modifier);
        let r = rolled.add_time(3);
        proof {
            let draw = choose|d: u32| rolled == mid.spec_change_condition(d);
            assert(r == self.spec_apply(mp, *a, false, draw));
        }
        r
    }

    fn action_masters_mend(&self, modifier: &mut Modifier, a: &Action) -> (r: State)
        requires
            *a == Action::MastersMend,
            self.spec_can_run(old(modifier).mod_param, *a),
        ensures
            final(modifier).mod_param == old(modifier).mod_param,
            exists|success: bool, draw: u32| r == self.spec_apply(old(modifier).mod_param, *a, success, draw),
    {
        proof { reveal(State::spec_apply); }
        let mp = modifier.mod_param;
        let mid = self.consume_cp(a).add_durability(30, &mp).next_turn(&mp);
        let rolled = mid.change_condition(modifier);
        let r = rolled.add_time(2);
        proof {
            let draw = choose|d: u32| rolled == mid.spec_change_condition(d);
            assert(r == self.spec_apply(mp, *a, false, draw));
        }
        r
    }

    fn action_hasty_touch(&self, modifier: &mut Modifier, a: &Action) -> (r: State)
        requires
            *a == Action::HastyTouch,
            self.spec_can_run(old(modifier).mod_param, *a),
        ensures
            final(modifier).mod_param == old(modifier).mod_param,
            exists|success: bool, draw: u32| r == self.spec_apply(old(modifier).mod_param, *a, success, draw),
    {
        proof { reveal(State::spec_apply); }
        let mp = modifier.mod_param;
        let success = self.try_random(modifier);
        let mid = if success {
            self.add_quality(&mp, 100, 1).consume_durability(10).next_turn(&mp)
        } else {
            self.consume_durability(10).next_turn(&mp)
        };
        let rolled = mid.change_condition(modifier);
        let r = rolled.add_time(3);
        proof {
            let draw = choose|d: u32| rolled == mid.spec_change_condition(d);
            assert(r == self.spec_apply(mp, *a, success, draw));
        }
        r
    }

    fn action_rapid_synthesis(&self, modifier: &mut Modifier, a: &Action) -> (r: State)
        requires
            *a == Action::RapidSynthesis,
            self.spec_can_run(old(modifier).mod_param, *a),
        ensures
            final(modifier).mod_param == old(modifier).mod_param,
            exists|success: bool, draw: u32| r == self.spec_apply(old(modifier).mod_param, *a, success, draw),
    {
        proof { reveal(State::spec_apply); }
        let mp = modifier.mod_param;
        let success = self.try_random(modifier);
        let mid = if success {
            self.add_working(&mp, 50).consume_durability(10).next_turn(&mp)
        } else {
            self.consume_durability(10).next_turn(&mp)
        };
        let rolled = mid.change_condition(modifier);
        let r = rolled.add_time(3);
        proof {
            let draw = choose|d: u32| rolled == mid.spec_change_condition(d);
            assert(r == self.spec_apply(mp, *a, success, draw));
        }
        r
    }

    fn action_observe(&self, modifier: &mut Modifier, a: &Action) -> (r: State)
        requires
            *a == Action::Observe,
            self.spec_can_run(old(modifier).mod_param, *a),
        ensures
            final(modifier).mod_param == old(modifier).mod_param,
            exists|success: bool, draw: u32| r == self.spec_apply(old(modifier).mod_param, *a, success, draw),
    {
        proof { reveal(State::spec_apply); }
        let mp = modifier.mod_param;
        let mid = self.consume_cp(a).next_turn(&mp).set_combo_observe();
        let rolled = mid.change_condition(modifier);
        let r = rolled.add_time(3);
        proof {
            let draw = choose|d: u32| rolled == mid.spec_change_condition(d);
            assert(r == self.spec_apply(mp, *a, false, draw));
        }
        r
    }

    fn action_tricks_of_the_trade(&self, modifier: &mut Modifier, a: &Action) -> (r: State)
        requires
            *a == Action::TricksOfTheTrade,
            self.spec_can_run(old(modifier).mod_param, *a),
        ensures
            final(modifier).mod_param == old(modifier).mod_param,
            exists|success: bool, draw: u32| r == self.spec_apply(old(modifier).mod_param, *a, success, draw),
    {
        proof { reveal(State::spec_apply); }
        let mp = modifier.mod_param;
        let mid = self.next_turn(&mp).add_cp(20, &mp).clear_heart_and_soul();
        let rolled = mid.change_condition(modifier);
        let r = rolled.add_time(3);
        proof {
            let draw = choose|d: u32| rolled == mid.spec_change_condition(d);
            assert(r == self.spec_apply(mp, *a, false, draw));
        }
        r
    }

    fn action_waste_not(&self, modifier: &mut Modifier, a: &Action) -> (r: State)
        requires
            *a == Action::WasteNot,
            self.spec_can_run(old(modifier).mod_param, *a),
        ensures
            final(modifier).mod_param == old(modifier).mod_param,
            exists|success: bool, draw: u32| r == self.spec_apply(old(modifier).mod_param, *a, success, draw),
    {
        proof { reveal(State::spec_apply); }
        let mp = modifier.mod_param;
        let mid = self.consume_cp(a).next_turn(&mp).set_waste_not(4);
        let rolled = mid.change_condition(modifier);
        let r = rolled.add_time(2);
        proof {
            let draw = choose|d: u32| rolled == mid.spec_change_condition(d);
            assert(r == self.spec_apply(mp, *a, false, draw));
        }
        r
    }

    fn action_veneration(&self, modifier: &mut Modifier, a: &Action) -> (r: State)
        requires
            *a == Action::Veneration,
            self.spec_can_run(old(modifier).mod_param, *a),
        ensures
            final(modifier).mod_param == old(modifier).mod_param,
            exists|success: bool, draw: u32| r == self.spec_apply(old(modifier).mod_param, *a, success, draw),
    {
        proof { reveal(State::spec_apply); }
        let mp = modifier.mod_param;
        let mid = self.consume_cp(a).next_turn(&mp).set_veneration(4);
        let rolled = mid.change_condition(modifier);
        let r = rolled.add_time(2);
        proof {
            let draw = choose|d: u32| rolled == mid.spec_change_condition(d);
            assert(r == self.spec_apply(mp, *a, false, draw));
        }
        r
    }

    fn action_standard_touch(&self, modifier: &mut Modifier, a: &Action) -> (r: State)
        requires
            *a == Action::StandardTouch,
            self.spec_can_run(old(modifier).mod_param, *a),
        ensures
            final(modifier).mod_param == old(modifier).mod_param,
            exists|success: bool, draw: u32| r == self.spec_apply(old(modifier).mod_param, *a, success, draw),
    {
        proof { reveal(State::spec_apply); }
        let mp = modifier.mod_param;
        let combo_basic_touch = self.combo_basic_touch;
        let mid = self.add_quality(&mp, 125, 1).consume_cp(a).consume_durability(10).next_turn(&mp).set_combo_standard_touch(combo_basic_touch);
        let rolled = mid.change_condition(modifier);
        let r = rolled.add_time(3);
        proof {
            let draw = choose|d: u32| rolled == mid.spec_change_condition(d);
            assert(r == self.spec_apply(mp, *a, false, draw));
        }
        r
    }

    fn action_great_strides(&self, modifier: &mut Modifier, a: &Action) -> (r: State)
        requires
            *a == Action::GreatStrides,
            self.spec_can_run(old(modifier).mod_param, *a),
        ensures
            final(modifier).mod_param == old(modifier).mod_param,
            exists|success: bool, draw: u32| r == self.spec_apply(old(modifier).mod_param, *a, success, draw),
    {
        proof { reveal(State::spec_apply); }
        let mp = modifier.mod_param;
        let mid = self.consume_cp(a).next_turn(&mp).set_great_strides(3);
        let rolled = mid.change_condition(modifier);
        let r = rolled.add_time(2);
        proof {
            let draw = choose|d: u32| rolled == mid.spec_change_condition(d);
            assert(r == self.spec_apply(mp, *a, false, draw));
        }
        r
    }

    fn action_innovation(&self, modifier: &mut Modifier, a: &Action) -> (r: State)
        requires
            *a == Action::Innovation,
            self.spec_can_run(old(modifier).mod_param, *a),
        ensures
            final(modifier).mod_param == old(modifier).mod_param,
            exists|success: bool, draw: u32| r == self.spec_apply(old(modifier).mod_param, *a, success, draw),
    {
        proof { reveal(State::spec_apply); }
        let mp = modifier.mod_param;
        let mid = self.consume_cp(a).next_turn(&mp).set_innovation(4);
        let rolled = mid.change_condition(modifier);
        let r = rolled.add_time(2);
        proof {
            let draw = choose|d: u32| rolled == mid.spec_change_condition(d);
            assert(r == self.spec_apply(mp, *a, false, draw));
        }
        r
    }

    fn action_final_appraisal(&self, modifier: &mut Modifier, a: &Action) -> (r: State)
        requires
            *a == Action::FinalAppraisal,
            self.spec_can_run(old(modifier).mod_param, *a),
        ensures
            final(modifier).mod_param == old(modifier).mod_param,
            exists|success: bool, draw: u32| r == self.spec_apply(old(modifier).mod_param, *a, success, draw),
    {
        proof { reveal(State::spec_apply); }
        let mp = modifier.mod_param;
        let mid = self.consume_cp(a).clear_combo().set_final_appraisal(5);
        let r = mid.add_time(2);
        assert(r == self.spec_apply(mp, *a, false, 0u32));
        r
    }

    fn action_waste_not2(&self, modifier: &mut Modifier, a: &Action) -> (r: State)
        requires
            *a == Action::WasteNot2,
            self.spec_can_run(old(modifier).mod_param, *a),
        ensures
            final(modifier).mod_param == old(modifier).mod_param,
            exists|success: bool, draw: u32| r == self.spec_apply(old(modifier).mod_param, *a, success, draw),
    {
        proof { reveal(State::spec_apply); }
        let mp = modifier.mod_param;
        let mid = self.consume_cp(a).next_turn(&mp).set_waste_not(8);
        let rolled = mid.change_condition(modifier);
        let r = rolled.add_time(2);
        proof {
            let draw = choose|d: u32| rolled == mid.spec_change_condition(d);
            assert(r == self.spec_apply(mp, *a, false, draw));
        }
        r
    }

    fn action_byregots_blessing(&self, modifier: &mut Modifier, a: &Action) -> (r: State)
        requires
            *a == Action::ByregotsBlessing,
            self.spec_can_run(old(modifier).mod_param, *a),
        ensures
            final(modifier).mod_param == old(modifier).mod_param,
            exists|success: bool, draw: u32| r == self.spec_apply(old(modifier).mod_param, *a, success, draw),
    {
        proof { reveal(State::spec_apply); }
        let mp = modifier.mod_param;
        let mid = self.add_quality_byregots(&mp).consume_cp(a).consume_durability(10).next_turn(&mp);
        let rolled = mid.change_condition(modifier);
        let r = rolled.add_time(3);
        proof {
            let draw = choose|d: u32| rolled == mid.spec_change_condition(d);
            assert(r == self.spec_apply(mp, *a, false, draw));
        }
        r
    }

    fn action_precise_touch(&self, modifier: &mut Modifier, a: &Action) -> (r: State)
        requires
            *a == Action::PreciseTouch,
            self.spec_can_run(old(modifier).mod_param, *a),
        ensures
            final(modifier).mod_param == old(modifier).mod_param,
            exists|success: bool, draw: u32| r == self.spec_apply(old(modifier).mod_param, *a, success, draw),
    {
        proof { reveal(State::spec_apply); }
        let mp = modifier.mod_param;
        let mid = self.add_quality(&mp, 150, 2).consume_cp(a).consume_durability(10).next_turn(&mp).clear_heart_and_soul();
        let rolled = mid.change_condition(modifier);
        let r = rolled.add_time(3);
        proof {
            let draw = choose|d: u32| rolled == mid.spec_change_condition(d);
            assert(r == self.spec_apply(mp, *a, false, draw));
        }
        r
    }

    fn action_muscle_memory(&self, modifier: &mut Modifier, a: &Action) -> (r: State)
        requires
            *a == Action::MuscleMemory,
            self.spec_can_run(old(modifier).mod_param, *a),
        ensures
            final(modifier).mod_param == old(modifier).mod_param,
            exists|success: bool, draw: u32| r == self.spec_apply(old(modifier).mod_param, *a, success, draw),
    {
        proof { reveal(State::spec_apply); }
        let mp = modifier.mod_param;
        let mid = self.add_working(&mp, 30).consume_cp(a).consume_durability(10).next_turn(&mp).set_muscle_memory(5);
        let rolled = mid.change_condition(modifier);
        let r = rolled.add_time(3);
        proof {
            let draw = choose|d: u32| rolled == mid.spec_change_condition(d);
            assert(r == self.spec_apply(mp, *a, false, draw));
        }
        r
    }

    fn action_careful_observation(&self, modifier: &mut Modifier, a: &Action) -> (r: State)
        requires
            *a == Action::CarefulObservation,
            self.spec_can_run(old(modifier).mod_param, *a),
        ensures
            final(modifier).mod_param == old(modifier).mod_param,
            exists|success: bool, draw: u32| r == self.spec_apply(old(modifier).mod_param, *a, success, draw),
    {
        proof { reveal(State::spec_apply); }
        let mp = modifier.mod_param;
        let mid = self.clear_combo().consume_careful_observation();
        let r = mid.add_time(2);
        assert(r == self.spec_apply(mp, *a, false, 0u32));
        r
    }

    fn action_careful_synthesis(&self, modifier: &mut Modifier, a: &Action) -> (r: State)
        requires
            *a == Action::CarefulSynthesis,
            self.spec_can_run(old(modifier).mod_param, *a),
        ensures
            final(modifier).mod_param == old(modifier).mod_param,
            exists|success: bool, draw: u32| r == self.spec_apply(old(modifier).mod_param, *a, success, draw),
    {
        proof { reveal(State::spec_apply); }
        let mp = modifier.mod_param;
        let mid = self.add_working(&mp, 18).consume_cp(a).consume_durability(10).next_turn(&mp);
        let rolled = mid.change_condition(modifier);
        let r = rolled.add_time(3);
        proof {
            let draw = choose|d: u32| rolled == mid.spec_change_condition(d);
            assert(r == self.spec_apply(mp, *a, false, draw));
        }
        r
    }

    fn action_manipulation(&self, modifier: &mut Modifier, a: &Action) -> (r: State)
        requires
            *a == Action::Manipulation,
            self.spec_can_run(old(modifier).mod_param, *a),
        ensures
            final(modifier).mod_param == old(modifier).mod_param,
            exists|success: bool, draw: u32| r == self.spec_apply(old(modifier).mod_param, *a, success, draw),
    {
        proof { reveal(State::spec_apply); }
        let mp = modifier.mod_param;
        let mid = self.clear_manipulation().consume_cp(a).next_turn(&mp).set_manipulation(8);
        let rolled = mid.change_condition(modifier);
        let r = rolled.add_time(2);
        proof {
            let draw = choose|d: u32| rolled == mid.spec_change_condition(d);
            assert(r == self.spec_apply(mp, *a, false, draw));
        }
        r
    }

    fn action_prudent_touch(&self, modifier: &mut Modifier, a: &Action) -> (r: State)
        requires
            *a == Action::PrudentTouch,
            self.spec_can_run(old(modifier).mod_param, *a),
        ensures
            final(modifier).mod_param == old(modifier).mod_param,
            exists|success: bool, draw: u32| r == self.spec_apply(old(modifier).mod_param, *a, success, draw),
    {
        proof { reveal(State::spec_apply); }
        let mp = modifier.mod_param;
        let mid = self.add_quality(&mp, 100, 1).consume_cp(a).consume_durability(5).next_turn(&mp);
        let rolled = mid.change_condition(modifier);
        let r = rolled.add_time(3);
        proof {
            let draw = choose|d: u32| rolled == mid.spec_change_condition(d);
            assert(r == self.spec_apply(mp, *a, false, draw));
        }
        r
    }

    fn action_focused_synthesis(&self, modifier: &mut Modifier, a: &Action) -> (r: State)
        requires
            *a == Action::FocusedSynthesis,
            self.spec_can_run(old(modifier).mod_param, *a),
        ensures
            final(modifier).mod_param == old(modifier).mod_param,
            exists|success: bool, draw: u32| r == self.spec_apply(old(modifier).mod_param, *a, success, draw),
            // After an observe, success is certain: no roll is consumed.
            self.combo_observe ==> exists|draw: u32| r == self.spec_apply(old(modifier).mod_param, *a, true, draw),
    {
        proof { reveal(State::spec_apply); }
        let mp = modifier.mod_param;
        let success = if self.combo_observe { true } else { self.try_random(modifier) };
        let mid = if success {
            self.add_working(&mp, 15).consume_cp(a).consume_durability(10).next_turn(&mp)
        } else {
            self.consume_cp(a).consume_durability(10).next_turn(&mp)
        };
        let rolled = mid.change_condition(modifier);
        let r = rolled.add_time(3);
        proof {
            let draw = choose|d: u32| rolled == mid.spec_change_condition(d);
            assert(r == self.spec_apply(mp, *a, success, draw));
            if self.combo_observe {
                assert(r == self.spec_apply(mp, *a, true, draw));
            }
        }
        r
    }

    fn action_focused_touch(&self, modifier: &mut Modifier, a: &Action) -> (r: State)
        requires
            *a == Action::FocusedTouch,
            self.spec_can_run(old(modifier).mod_param, *a),
        ensures
            final(modifier).mod_param == old(modifier).mod_param,
            exists|success: bool, draw: u32| r == self.spec_apply(old(modifier).mod_param, *a, success, draw),
            // After an observe, success is certain: no roll is consumed.
            self.combo_observe ==> exists|draw: u32| r == self.spec_apply(old(modifier).mod_param, *a, true, draw),
    {
        proof { reveal(State::spec_apply); }
        let mp = modifier.mod_param;
        let success = if self.combo_observe { true } else { self.try_random(modifier) };
        let mid = if success {
            self.add_quality(&mp, 150, 1).consume_cp(a).consume_durability(10).next_turn(&mp)
        } else {
            self.consume_cp(a).consume_durability(10).next_turn(&mp)
        };
        let rolled = mid.change_condition(modifier);
        let r = rolled.add_time(3);
        proof {
            let draw = choose|d: u32| rolled == mid.spec_change_condition(d);
            assert(r == self.spec_apply(mp, *a, success, draw));
            if self.combo_observe {
                assert(r == self.spec_apply(mp, *a, true, draw));
            }
        }
        r
    }

    fn action_reflect(&self, modifier: &mut Modifier, a: &Action) -> (r: State)
        requires
            *a == Action::Reflect,
            self.spec_can_run(old(modifier).mod_param, *a),
        ensures
            final(modifier).mod_param == old(modifier).mod_param,
            exists|success: bool, draw: u32| r == self.spec_apply(old(modifier).mod_param, *a, success, draw),
    {
        proof { reveal(State::spec_apply); }
        let mp = modifier.mod_param;
        let mid = self.add_quality(&mp, 100, 2).consume_cp(a).consume_durability(10).next_turn(&mp);
        let rolled = mid.change_condition(modifier);
        let r = rolled.add_time(3);
        proof {
            let draw = choose|d: u32| rolled == mid.spec_change_condition(d);
            assert(r == self.spec_apply(mp, *a, false, draw));
        }
        r
    }

    fn action_preparatory_touch(&self, modifier: &mut Modifier, a: &Action) -> (r: State)
        requires
            *a == Action::PreparatoryTouch,
            self.spec_can_run(old(modifier).mod_param, *a),
        ensures
            final(modifier).mod_param == old(modifier).mod_param,
            exists|success: bool, draw: u32| r == self.spec_apply(old(modifier).mod_param, *a, success, draw),
    {
        proof { reveal(State::spec_apply); }
        let mp = modifier.mod_param;
        let mid = self.add_quality(&mp, 200, 2).consume_cp(a).consume_durability(20).next_turn(&mp);
        let rolled = mid.change_condition(modifier);
        let r = rolled.add_time(3);
        proof {
            let draw = choose|d: u32| rolled == mid.spec_change_condition(d);
            assert(r == self.spec_apply(mp, *a, false, draw));
        }
        r
    }

    fn action_groundwork(&self, modifier: &mut Modifier, a: &Action) -> (r: State)
        requires
            *a == Action::Groundwork,
            self.spec_can_run(old(modifier).mod_param, *a),
        ensures
            final(modifier).mod_param == old(modifier).mod_param,
            exists|success: bool, draw: u32| r == self.spec_apply(old(modifier).mod_param, *a, success, draw),
    {
        proof { reveal(State::spec_apply); }
        let mp = modifier.mod_param;
        let eff10: u32 = if self.get_required_cp(a) < self.durability { 18 } else { 36 };
        let mid = self.add_working(&mp, eff10).consume_cp(a).consume_durability(20).next_turn(&mp);
        let rolled = mid.change_condition(modifier);
        let r = rolled.add_time(3);
        proof {
            let draw = choose|d: u32| rolled == mid.spec_change_condition(d);
            assert(r == self.spec_apply(mp, *a, false, draw));
        }
        r
    }

    fn action_delicate_synthesis(&self, modifier: &mut Modifier, a: &Action) -> (r: State)
        requires
            *a == Action::DelicateSynthesis,
            self.spec_can_run(old(modifier).mod_param, *a),
        ensures
            final(modifier).mod_param == old(modifier).mod_param,
            exists|success: bool, draw: u32| r == self.spec_apply(old(modifier).mod_param, *a, success, draw),
    {
        proof { reveal(State::spec_apply); }
        let mp = modifier.mod_param;
        let mid = self.add_working(&mp, 10).add_quality(&mp, 100, 1).consume_cp(a).consume_durability(10).next_turn(&mp);
        let rolled = mid.change_condition(modifier);
        let r = rolled.add_time(3);
        proof {
            let draw = choose|d: u32| rolled == mid.spec_change_condition(d);
            assert(r == self.spec_apply(mp, *a, false, draw));
        }
        r
    }

    fn action_intensive_synthesis(&self, modifier: &mut Modifier, a: &Action) -> (r: State)
        requires
            *a == Action::IntensiveSynthesis,
            self.spec_can_run(old(modifier).mod_param, *a),
        ensures
            final(modifier).mod_param == old(modifier).mod_param,
            exists|success: bool, draw: u32| r == self.spec_apply(old(modifier).mod_param, *a, success, draw),
    {
        proof { reveal(State::spec_apply); }
        let mp = modifier.mod_param;
        let mid = self.add_working(&mp, 40).consume_cp(a).consume_durability(10).next_turn(&mp).clear_heart_and_soul();
        let rolled = mid.change_condition(modifier);
        let r = rolled.add_time(3);
        proof {
            let draw = choose|d: u32| rolled == mid.spec_change_condition(d);
            assert(r == self.spec_apply(mp, *a, false, draw));
        }
        r
    }

    fn action_advanced_touch(&self, modifier: &mut Modifier, a: &Action) -> (r: State)
        requires
            *a == Action::AdvancedTouch,
            self.spec_can_run(old(modifier).mod_param, *a),
        ensures
            final(modifier).mod_param == old(modifier).mod_param,
            exists|success: bool, draw: u32| r == self.spec_apply(old(modifier).mod_param, *a, success, draw),
    {
        proof { reveal(State::spec_apply); }
        let mp = modifier.mod_param;
        let mid = self.add_quality(&mp, 150, 1).consume_cp(a).consume_durability(10).next_turn(&mp);
        let rolled = mid.change_condition(modifier);
        let r = rolled.add_time(3);
        proof {
            let draw = choose|d: u32| rolled == mid.spec_change_condition(d);
            assert(r == self.spec_apply(mp, *a, false, draw));
        }
        r
    }

    fn action_heart_and_soul(&self, modifier: &mut Modifier, a: &Action) -> (r: State)
        requires
            *a == Action::HeartAndSoul,
            self.spec_can_run(old(modifier).mod_param, *a),
        ensures
            final(modifier).mod_param == old(modifier).mod_param,
            exists|success: bool, draw: u32| r == self.spec_apply(old(modifier).mod_param, *a, success, draw),
    {
        proof { reveal(State::spec_apply); }
        let mp = modifier.mod_param;
        let mid = self.clear_combo().set_heart_and_soul();
        let r = mid.add_time(2);
        assert(r == self.spec_apply(mp, *a, false, 0u32));
        r
    }

    fn action_prudent_synthesis(&self, modifier: &mut Modifier, a: &Action) -> (r: State)
        requires
            *a == Action::PrudentSynthesis,
            self.spec_can_run(old(modifier).mod_param, *a),
        ensures
            final(modifier).mod_param == old(modifier).mod_param,
            exists|success: bool, draw: u32| r == self.spec_apply(old(modifier).mod_param, *a, success, draw),
    {
        proof { reveal(State::spec_apply); }
        let mp = modifier.mod_param;
        let mid = self.add_working(&mp, 18).consume_cp(a).consume_durability(5).next_turn(&mp);
        let rolled = mid.change_condition(modifier);
        let r = rolled.add_time(3);
        proof {
            let draw = choose|d: u32| rolled == mid.spec_change_condition(d);
            assert(r == self.spec_apply(mp, *a, false, draw));
        }
        r
    }

    fn action_trained_finesse(&self, modifier: &mut Modifier, a: &Action) -> (r: State)
        requires
            *a == Action::TrainedFinesse,
            self.spec_can_run(old(modifier).mod_param, *a),
        ensures
            final(modifier).mod_param == old(modifier).mod_param,
            exists|success: bool, draw: u32| r == self.spec_apply(old(modifier).mod_param, *a, success, draw),
    {
        proof { reveal(State::spec_apply); }
        let mp = modifier.mod_param;
        let mid = self.add_quality(&mp, 100, 1).consume_cp(a).next_turn(&mp);
        let rolled = mid.change_condition(modifier);
        let r = rolled.add_time(3);
        proof {
            let draw = choose|d: u32| rolled == mid.spec_change_condition(d);
            assert(r == self.spec_apply(mp, *a, false, draw));
        }
        r
    }

    /// Run one legal action from a live state. The caller must have checked
    /// `check_action`; the result is `spec_apply` for the drawn outcomes,
    /// whatever the generator produced.
    pub fn run_action(&self, modifier: &mut Modifier, a: &Action) -> (r: State)
        requires
            self.spec_can_run(old(modifier).mod_param, *a),
        ensures
            final(modifier).mod_param == old(modifier).mod_param,
            exists|success: bool, draw: u32| r == self.spec_apply(old(modifier).mod_param, *a, success, draw),
            // A focused action taken right after an observe succeeds with
            // certainty: the result is a success outcome for some roll.
            (*a == Action::FocusedSynthesis || *a == Action::FocusedTouch) && self.combo_observe
                ==> exists|draw: u32| r == self.spec_apply(old(modifier).mod_param, *a, true, draw),
    {
        match a {
            Action::BasicSynthesis => self.action_basic_synthesis(modifier, a),
            Action::BasicTouch => self.action_basic_touch(modifier, a),
            Action::MastersMend => self.action_masters_mend(modifier, a),
            Action::HastyTouch => self.action_hasty_touch(modifier, a),
            Action::RapidSynthesis => self.action_rapid_synthesis(modifier, a),
            Action::Observe => self.action_observe(modifier, a),
            Action::TricksOfTheTrade => self.action_tricks_of_the_trade(modifier, a),
            Action::WasteNot => self.action_waste_not(modifier, a),
            Action::Veneration => self.action_veneration(modifier, a),
            Action::StandardTouch => self.action_standard_touch(modifier, a),
            Action::GreatStrides => self.action_great_strides(modifier, a),
            Action::Innovation => self.action_innovation(modifier, a),
            Action::FinalAppraisal => self.action_final_appraisal(modifier, a),
            Action::WasteNot2 => self.action_waste_not2(modifier, a),
            Action::ByregotsBlessing => self.action_byregots_blessing(modifier, a),
            Action::PreciseTouch => self.action_precise_touch(modifier, a),
            Action::MuscleMemory => self.action_muscle_memory(modifier, a),
            Action::CarefulObservation => self.action_careful_observation(modifier, a),
            Action::CarefulSynthesis => self.action_careful_synthesis(modifier, a),
            Action::Manipulation => self.action_manipulation(modifier, a),
            Action::PrudentTouch => self.action_prudent_touch(modifier, a),
            Action::FocusedSynthesis => self.action_focused_synthesis(modifier, a),
            Action::FocusedTouch => self.action_focused_touch(modifier, a),
            Action::Reflect => self.action_reflect(modifier, a),
            Action::PreparatoryTouch => self.action_preparatory_touch(modifier, a),
            Action::Groundwork => self.action_groundwork(modifier, a),
            Action::DelicateSynthesis => self.action_delicate_synthesis(modifier, a),
            Action::IntensiveSynthesis => self.action_intensive_synthesis(modifier, a),
            Action::AdvancedTouch => self.action_advanced_touch(modifier, a),
            Action::HeartAndSoul => self.action_heart_and_soul(modifier, a),
            Action::PrudentSynthesis => self.action_prudent_synthesis(modifier, a),
            Action::TrainedFinesse => self.action_trained_finesse(modifier, a),
        }
    }
}

/// Technical points awarded for a finished craft's worth, a piecewise
/// linear curve measured from the game.
pub open spec fn spec_technical_point(worth: u32) -> int {
    if worth < 5800 { 0 }
    else if worth < 6500 { (worth - 4050) / 10 }
    else if worth < 7400 { (3 * worth - 15800) / 10 }
    else { (6 * worth - 36200) / 10 }
}

/// Technical points for a worth value.
pub fn get_technical_point(worth: u32) -> (r: u32)
    ensures
        r == spec_technical_point(worth),
{
    if worth < 5800 {
        0
    } else if worth < 6500 {
        (1 * worth - 4050) / 10
    } else if worth < 7400 {
        (3 * worth - 15800) / 10
    } else {
        let w: u64 = worth as u64;
        ((6 * w - 36200) / 10) as u32
    }
}

impl State {
    /// A bound under which every game strictly runs down: the turn counts
    /// up toward its limit, and the free actions spend stock that never
    /// comes back (careful observations, the one heart-and-soul, crafting
    /// points for a final appraisal).
    pub open spec fn spec_measure(self) -> int {
        (0x1_0000_0000 - self.turn) * 0x4_0000_0000_0000_0000
            + self.careful_observation * 0x2_0000_0000
            + (if !self.heart_and_soul_used { 1int } else { 0 }) * 0x1_0000_0000
            + self.cp
    }
}

proof fn lemma_wf_basic_synthesis(s: State, mp: ModifierParameter, success: bool, draw: u32)
    requires
        mp.valid(),
        s.wf(mp),
        s.spec_check_action(Action::BasicSynthesis),
        !s.spec_terminated(),
        s.turn < u32::MAX,
    ensures
        s.spec_apply(mp, Action::BasicSynthesis, success, draw).wf(mp),
{
    reveal(State::spec_apply);
}

proof fn lemma_wf_basic_touch(s: State, mp: ModifierParameter, success: bool, draw: u32)
    requires
        mp.valid(),
        s.wf(mp),
        s.spec_check_action(Action::BasicTouch),
        !s.spec_terminated(),
        s.turn < u32::MAX,
    ensures
        s.spec_apply(mp, Action::BasicTouch, success, draw).wf(mp),
{
    reveal(State::spec_apply);
}

proof fn lemma_wf_masters_mend(s: State, mp: ModifierParameter, success: bool, draw: u32)
    requires
        mp.valid(),
        s.wf(mp),
        s.spec_check_action(Action::MastersMend),
        !s.spec_terminated(),
        s.turn < u32::MAX,
    ensures
        s.spec_apply(mp, Action::MastersMend, success, draw).wf(mp),
{
    reveal(State::spec_apply);
}

proof fn lemma_wf_hasty_touch(s: State, mp: ModifierParameter, success: bool, draw: u32)
    requires
        mp.valid(),
        s.wf(mp),
        s.spec_check_action(Action::HastyTouch),
        !s.spec_terminated(),
        s.turn < u32::MAX,
    ensures
        s.spec_apply(mp, Action::HastyTouch, success, draw).wf(mp),
{
    reveal(State::spec_apply);
}

proof fn lemma_wf_rapid_synthesis(s: State, mp: ModifierParameter, success: bool, draw: u32)
    requires
        mp.valid(),
        s.wf(mp),
        s.spec_check_action(Action::RapidSynthesis),
        !s.spec_terminated(),
        s.turn < u32::MAX,
    ensures
        s.spec_apply(mp, Action::RapidSynthesis, success, draw).wf(mp),
{
    reveal(State::spec_apply);
}

proof fn lemma_wf_observe(s: State, mp: ModifierParameter, success: bool, draw: u32)
    requires
        mp.valid(),
        s.wf(mp),
        s.spec_check_action(Action::Observe),
        !s.spec_terminated(),
        s.turn < u32::MAX,
    ensures
        s.spec_apply(mp, Action::Observe, success, draw).wf(mp),
{
    reveal(State::spec_apply);
}

proof fn lemma_wf_tricks_of_the_trade(s: State, mp: ModifierParameter, success: bool, draw: u32)
    requires
        mp.valid(),
        s.wf(mp),
        s.spec_check_action(Action::TricksOfTheTrade),
        !s.spec_terminated(),
        s.turn < u32::MAX,
    ensures
        s.spec_apply(mp, Action::TricksOfTheTrade, success, draw).wf(mp),
{
    reveal(State::spec_apply);
}

proof fn lemma_wf_waste_not(s: State, mp: ModifierParameter, success: bool, draw: u32)
    requires
        mp.valid(),
        s.wf(mp),
        s.spec_check_action(Action::WasteNot),
        !s.spec_terminated(),
        s.turn < u32::MAX,
    ensures
        s.spec_apply(mp, Action::WasteNot, success, draw).wf(mp),
{
    reveal(State::spec_apply);
}

proof fn lemma_wf_veneration(s: State, mp: ModifierParameter, success: bool, draw: u32)
    requires
        mp.valid(),
        s.wf(mp),
        s.spec_check_action(Action::Veneration),
        !s.spec_terminated(),
        s.turn < u32::MAX,
    ensures
        s.spec_apply(mp, Action::Veneration, success, draw).wf(mp),
{
    reveal(State::spec_apply);
}

proof fn lemma_wf_standard_touch(s: State, mp: ModifierParameter, success: bool, draw: u32)
    requires
        mp.valid(),
        s.wf(mp),
        s.spec_check_action(Action::StandardTouch),
        !s.spec_terminated(),
        s.turn < u32::MAX,
    ensures
        s.spec_apply(mp, Action::StandardTouch, success, draw).wf(mp),
{
    reveal(State::spec_apply);
}

proof fn lemma_wf_great_strides(s: State, mp: ModifierParameter, success: bool, draw: u32)
    requires
        mp.valid(),
        s.wf(mp),
        s.spec_check_action(Action::GreatStrides),
        !s.spec_terminated(),
        s.turn < u32::MAX,
    ensures
        s.spec_apply(mp, Action::GreatStrides, success, draw).wf(mp),
{
    reveal(State::spec_apply);
}

proof fn lemma_wf_innovation(s: State, mp: ModifierParameter, success: bool, draw: u32)
    requires
        mp.valid(),
        s.wf(mp),
        s.spec_check_action(Action::Innovation),
        !s.spec_terminated(),
        s.turn < u32::MAX,
    ensures
        s.spec_apply(mp, Action::Innovation, success, draw).wf(mp),
{
    reveal(State::spec_apply);
}

proof fn lemma_wf_final_appraisal(s: State, mp: ModifierParameter, success: bool, draw: u32)
    requires
        mp.valid(),
        s.wf(mp),
        s.spec_check_action(Action::FinalAppraisal),
        !s.spec_terminated(),
        s.turn < u32::MAX,
    ensures
        s.spec_apply(mp, Action::FinalAppraisal, success, draw).wf(mp),
{
    reveal(State::spec_apply);
}

proof fn lemma_wf_waste_not2(s: State, mp: ModifierParameter, success: bool, draw: u32)
    requires
        mp.valid(),
        s.wf(mp),
        s.spec_check_action(Action::WasteNot2),
        !s.spec_terminated(),
        s.turn < u32::MAX,
    ensures
        s.spec_apply(mp, Action::WasteNot2, success, draw).wf(mp),
{
    reveal(State::spec_apply);
}

proof fn lemma_wf_byregots_blessing(s: State, mp: ModifierParameter, success: bool, draw: u32)
    requires
        mp.valid(),
        s.wf(mp),
        s.spec_check_action(Action::ByregotsBlessing),
        !s.spec_terminated(),
        s.turn < u32::MAX,
    ensures
        s.spec_apply(mp, Action::ByregotsBlessing, success, draw).wf(mp),
{
    reveal(State::spec_apply);
}

proof fn lemma_wf_precise_touch(s: State, mp: ModifierParameter, success: bool, draw: u32)
    requires
        mp.valid(),
        s.wf(mp),
        s.spec_check_action(Action::PreciseTouch),
        !s.spec_terminated(),
        s.turn < u32::MAX,
    ensures
        s.spec_apply(mp, Action::PreciseTouch, success, draw).wf(mp),
{
    reveal(State::spec_apply);
}

proof fn lemma_wf_muscle_memory(s: State, mp: ModifierParameter, success: bool, draw: u32)
    requires
        mp.valid(),
        s.wf(mp),
        s.spec_check_action(Action::MuscleMemory),
        !s.spec_terminated(),
        s.turn < u32::MAX,
    ensures
        s.spec_apply(mp, Action::MuscleMemory, success, draw).wf(mp),
{
    reveal(State::spec_apply);
}

proof fn lemma_wf_careful_observation(s: State, mp: ModifierParameter, success: bool, draw: u32)
    requires
        mp.valid(),
        s.wf(mp),
        s.spec_check_action(Action::CarefulObservation),
        !s.spec_terminated(),
        s.turn < u32::MAX,
    ensures
        s.spec_apply(mp, Action::CarefulObservation, success, draw).wf(mp),
{
    reveal(State::spec_apply);
}

proof fn lemma_wf_careful_synthesis(s: State, mp: ModifierParameter, success: bool, draw: u32)
    requires
        mp.valid(),
        s.wf(mp),
        s.spec_check_action(Action::CarefulSynthesis),
        !s.spec_terminated(),
        s.turn < u32::MAX,
    ensures
        s.spec_apply(mp, Action::CarefulSynthesis, success, draw).wf(mp),
{
    reveal(State::spec_apply);
}

proof fn lemma_wf_manipulation(s: State, mp: ModifierParameter, success: bool, draw: u32)
    requires
        mp.valid(),
        s.wf(mp),
        s.spec_check_action(Action::Manipulation),
        !s.spec_terminated(),
        s.turn < u32::MAX,
    ensures
        s.spec_apply(mp, Action::Manipulation, success, draw).wf(mp),
{
    reveal(State::spec_apply);
}

proof fn lemma_wf_prudent_touch(s: State, mp: ModifierParameter, success: bool, draw: u32)
    requires
        mp.valid(),
        s.wf(mp),
        s.spec_check_action(Action::PrudentTouch),
        !s.spec_terminated(),
        s.turn < u32::MAX,
    ensures
        s.spec_apply(mp, Action::PrudentTouch, success, draw).wf(mp),
{
    reveal(State::spec_apply);
}

proof fn lemma_wf_focused_synthesis(s: State, mp: ModifierParameter, success: bool, draw: u32)
    requires
        mp.valid(),
        s.wf(mp),
        s.spec_check_action(Action::FocusedSynthesis),
        !s.spec_terminated(),
        s.turn < u32::MAX,
    ensures
        s.spec_apply(mp, Action::FocusedSynthesis, success, draw).wf(mp),
{
    reveal(State::spec_apply);
}

proof fn lemma_wf_focused_touch(s: State, mp: ModifierParameter, success: bool, draw: u32)
    requires
        mp.valid(),
        s.wf(mp),
        s.spec_check_action(Action::FocusedTouch),
        !s.spec_terminated(),
        s.turn < u32::MAX,
    ensures
        s.spec_apply(mp, Action::FocusedTouch, success, draw).wf(mp),
{
    reveal(State::spec_apply);
}

proof fn lemma_wf_reflect(s: State, mp: ModifierParameter, success: bool, draw: u32)
    requires
        mp.valid(),
        s.wf(mp),
        s.spec_check_action(Action::Reflect),
        !s.spec_terminated(),
        s.turn < u32::MAX,
    ensures
        s.spec_apply(mp, Action::Reflect, success, draw).wf(mp),
{
    reveal(State::spec_apply);
}

proof fn lemma_wf_preparatory_touch(s: State, mp: ModifierParameter, success: bool, draw: u32)
    requires
        mp.valid(),
        s.wf(mp),
        s.spec_check_action(Action::PreparatoryTouch),
        !s.spec_terminated(),
        s.turn < u32::MAX,
    ensures
        s.spec_apply(mp, Action::PreparatoryTouch, success, draw).wf(mp),
{
    reveal(State::spec_apply);
}

proof fn lemma_wf_groundwork(s: State, mp: ModifierParameter, success: bool, draw: u32)
    requires
        mp.valid(),
        s.wf(mp),
        s.spec_check_action(Action::Groundwork),
        !s.spec_terminated(),
        s.turn < u32::MAX,
    ensures
        s.spec_apply(mp, Action::Groundwork, success, draw).wf(mp),
{
    reveal(State::spec_apply);
}

proof fn lemma_wf_delicate_synthesis(s: State, mp: ModifierParameter, success: bool, draw: u32)
    requires
        mp.valid(),
        s.wf(mp),
        s.spec_check_action(Action::DelicateSynthesis),
        !s.spec_terminated(),
        s.turn < u32::MAX,
    ensures
        s.spec_apply(mp, Action::DelicateSynthesis, success, draw).wf(mp),
{
    reveal(State::spec_apply);
}

proof fn lemma_wf_intensive_synthesis(s: State, mp: ModifierParameter, success: bool, draw: u32)
    requires
        mp.valid(),
        s.wf(mp),
        s.spec_check_action(Action::IntensiveSynthesis),
        !s.spec_terminated(),
        s.turn < u32::MAX,
    ensures
        s.spec_apply(mp, Action::IntensiveSynthesis, success, draw).wf(mp),
{
    reveal(State::spec_apply);
}

proof fn lemma_wf_advanced_touch(s: State, mp: ModifierParameter, success: bool, draw: u32)
    requires
        mp.valid(),
        s.wf(mp),
        s.spec_check_action(Action::AdvancedTouch),
        !s.spec_terminated(),
        s.turn < u32::MAX,
    ensures
        s.spec_apply(mp, Action::AdvancedTouch, success, draw).wf(mp),
{
    reveal(State::spec_apply);
}

proof fn lemma_wf_heart_and_soul(s: State, mp: ModifierParameter, success: bool, draw: u32)
    requires
        mp.valid(),
        s.wf(mp),
        s.spec_check_action(Action::HeartAndSoul),
        !s.spec_terminated(),
        s.turn < u32::MAX,
    ensures
        s.spec_apply(mp, Action::HeartAndSoul, success, draw).wf(mp),
{
    reveal(State::spec_apply);
}

proof fn lemma_wf_prudent_synthesis(s: State, mp: ModifierParameter, success: bool, draw: u32)
    requires
        mp.valid(),
        s.wf(mp),
        s.spec_check_action(Action::PrudentSynthesis),
        !s.spec_terminated(),
        s.turn < u32::MAX,
    ensures
        s.spec_apply(mp, Action::PrudentSynthesis, success, draw).wf(mp),
{
    reveal(State::spec_apply);
}

proof fn lemma_wf_trained_finesse(s: State, mp: ModifierParameter, success: bool, draw: u32)
    requires
        mp.valid(),
        s.wf(mp),
        s.spec_check_action(Action::TrainedFinesse),
        !s.spec_terminated(),
        s.turn < u32::MAX,
    ensures
        s.spec_apply(mp, Action::TrainedFinesse, success, draw).wf(mp),
{
    reveal(State::spec_apply);
}

/// Law: every reachable state keeps the engine's invariants. From a
/// well-formed live state, any legal action, whatever its random outcomes,
/// yields a well-formed state: resources stay within their maxima, inner
/// quiet within its ceiling, and the completed flag tracks the working
/// amount exactly.
pub proof fn lemma_apply_preserves_wf(s: State, mp: ModifierParameter, a: Action, success: bool, draw: u32)
    requires
        mp.valid(),
        s.wf(mp),
        s.spec_check_action(a),
        !s.spec_terminated(),
        s.turn < u32::MAX,
    ensures
        s.spec_apply(mp, a, success, draw).wf(mp),
{
    match a {
        Action::BasicSynthesis => lemma_wf_basic_synthesis(s, mp, success, draw),
        Action::BasicTouch => lemma_wf_basic_touch(s, mp, success, draw),
        Action::MastersMend => lemma_wf_masters_mend(s, mp, success, draw),
        Action::HastyTouch => lemma_wf_hasty_touch(s, mp, success, draw),
        Action::RapidSynthesis => lemma_wf_rapid_synthesis(s, mp, success, draw),
        Action::Observe => lemma_wf_observe(s, mp, success, draw),
        Action::TricksOfTheTrade => lemma_wf_tricks_of_the_trade(s, mp, success, draw),
        Action::WasteNot => lemma_wf_waste_not(s, mp, success, draw),
        Action::Veneration => lemma_wf_veneration(s, mp, success, draw),
        Action::StandardTouch => lemma_wf_standard_touch(s, mp, success, draw),
        Action::GreatStrides => lemma_wf_great_strides(s, mp, success, draw),
        Action::Innovation => lemma_wf_innovation(s, mp, success, draw),
        Action::FinalAppraisal => lemma_wf_final_appraisal(s, mp, success, draw),
        Action::WasteNot2 => lemma_wf_waste_not2(s, mp, success, draw),
        Action::ByregotsBlessing => lemma_wf_byregots_blessing(s, mp, success, draw),
        Action::PreciseTouch => lemma_wf_precise_touch(s, mp, success, draw),
        Action::MuscleMemory => lemma_wf_muscle_memory(s, mp, success, draw),
        Action::CarefulObservation => lemma_wf_careful_observation(s, mp, success, draw),
        Action::CarefulSynthesis => lemma_wf_careful_synthesis(s, mp, success, draw),
        Action::Manipulation => lemma_wf_manipulation(s, mp, success, draw),
        Action::PrudentTouch => lemma_wf_prudent_touch(s, mp, success, draw),
        Action::FocusedSynthesis => lemma_wf_focused_synthesis(s, mp, success, draw),
        Action::FocusedTouch => lemma_wf_focused_touch(s, mp, success, draw),
        Action::Reflect => lemma_wf_reflect(s, mp, success, draw),
        Action::PreparatoryTouch => lemma_wf_preparatory_touch(s, mp, success, draw),
        Action::Groundwork => lemma_wf_groundwork(s, mp, success, draw),
        Action::DelicateSynthesis => lemma_wf_delicate_synthesis(s, mp, success, draw),
        Action::IntensiveSynthesis => lemma_wf_intensive_synthesis(s, mp, success, draw),
        Action::AdvancedTouch => lemma_wf_advanced_touch(s, mp, success, draw),
        Action::HeartAndSoul => lemma_wf_heart_and_soul(s, mp, success, draw),
        Action::PrudentSynthesis => lemma_wf_prudent_synthesis(s, mp, success, draw),
        Action::TrainedFinesse => lemma_wf_trained_finesse(s, mp, success, draw),
    }
}

/// Law: a game cannot run forever. Whenever a legal action leaves the game
/// unfinished, the state's measure strictly drops, whatever the random
/// outcomes were.
#[verifier::spinoff_prover]
#[verifier::rlimit(100)]
pub proof fn lemma_apply_decreases_measure(s: State, mp: ModifierParameter, a: Action, success: bool, draw: u32)
    requires
        mp.valid(),
        s.spec_check_action(a),
        !s.spec_terminated(),
        s.turn < u32::MAX,
    ensures
        !s.spec_apply(mp, a, success, draw).spec_terminated()
            ==> s.spec_apply(mp, a, success, draw).spec_measure() < s.spec_measure(),
{
    reveal(State::spec_apply);
    match a {
        Action::BasicSynthesis => {}
        Action::BasicTouch => {}
        Action::MastersMend => {}
        Action::HastyTouch => {}
        Action::RapidSynthesis => {}
        Action::Observe => {}
        Action::TricksOfTheTrade => {}
        Action::WasteNot => {}
        Action::Veneration => {}
        Action::StandardTouch => {}
        Action::GreatStrides => {}
        Action::Innovation => {}
        Action::FinalAppraisal => {}
        Action::WasteNot2 => {}
        Action::ByregotsBlessing => {}
        Action::PreciseTouch => {}
        Action::MuscleMemory => {}
        Action::CarefulObservation => {}
        Action::CarefulSynthesis => {}
        Action::Manipulation => {}
        Action::PrudentTouch => {}
        Action::FocusedSynthesis => {}
        Action::FocusedTouch => {}
        Action::Reflect => {}
        Action::PreparatoryTouch => {}
        Action::Groundwork => {}
        Action::DelicateSynthesis => {}
        Action::IntensiveSynthesis => {}
        Action::AdvancedTouch => {}
        Action::HeartAndSoul => {}
        Action::PrudentSynthesis => {}
        Action::TrainedFinesse => {}
    }
}

/// Law: a destroyed state is never a completed one.
pub proof fn lemma_destroyed_not_completed(s: State)
    ensures
        s.spec_destroyed() ==> !s.spec_completed(),
{
}

/// The progress numerator: forty times the progress reward, before the
/// table's truncation, as a function of the factors alone.
pub open spec fn spec_working_x40(high_progress: bool, veneration: bool, muscle_memory: bool, eff10: u32) -> int {
    let c2: int = if high_progress { 3 } else { 2 };
    let b2: int = 2 + (if veneration { 1int } else { 0 }) + (if muscle_memory { 2int } else { 0 });
    472 * eff10 * c2 * b2
}

/// The progress reward is its numerator over forty, for the supported
/// work accuracy.
pub proof fn lemma_working_reward_from_x40(s: State, mp: ModifierParameter, eff10: u32)
    requires
        mp.work_accuracy == 2769,
        eff10 <= 50,
    ensures
        s.spec_working_reward(mp, eff10) == spec_working_x40(
            s.condition == Condition::HighProgress,
            s.veneration > 0,
            s.muscle_memory > 0,
            eff10,
        ) / 40,
{
    reveal(State::spec_working_reward);
    let c2: int = if s.condition == Condition::HighProgress { 3 } else { 2 };
    let b2: int = 2 + (if s.veneration > 0 { 1int } else { 0 }) + (if s.muscle_memory > 0 { 2int } else { 0 });
    assert(0 <= (472 * eff10 * c2 * b2) / 40 <= 8850) by (nonlinear_arith)
        requires eff10 <= 50, 2 <= c2 <= 3, 2 <= b2 <= 5;
}

/// Law: before truncation, the progress reward scales by exactly three
/// halves under veneration alone, by three halves under a high-progress
/// condition alone, and the two stack multiplicatively: together they
/// scale it by nine quarters.
pub proof fn lemma_working_reward_buff_rates(eff10: u32)
    ensures
        2 * spec_working_x40(false, true, false, eff10) == 3 * spec_working_x40(false, false, false, eff10),
        2 * spec_working_x40(true, false, false, eff10) == 3 * spec_working_x40(false, false, false, eff10),
        4 * spec_working_x40(true, true, false, eff10) == 9 * spec_working_x40(false, false, false, eff10),
{
    let e = eff10 as int;
    assert(2 * (472 * e * 2 * 3) == 3 * (472 * e * 2 * 2)) by (nonlinear_arith);
    assert(2 * (472 * e * 3 * 2) == 3 * (472 * e * 2 * 2)) by (nonlinear_arith);
    assert(4 * (472 * e * 3 * 3) == 9 * (472 * e * 2 * 2)) by (nonlinear_arith);
}

proof fn lemma_div_add_multiple(a: int, k: int, d: int)
    requires
        d > 0,
        a >= 0,
        k >= 0,
    ensures
        (a + k * d) / d == a / d + k,
{
    vstd::arithmetic::div_mod::lemma_fundamental_div_mod(a, d);
    assert(0 <= a % d < d) by (nonlinear_arith)
        requires d > 0;
    assert(a + k * d == d * (a / d + k) + a % d) by (nonlinear_arith)
        requires a == d * (a / d) + a % d;
    vstd::arithmetic::div_mod::lemma_div_multiples_vanish_fancy(a / d + k, a % d, d);
}

/// Law: with no quality buffs and an ordinary condition, the quality
/// reward strictly increases with each inner-quiet stack, for accuracies
/// and efficiencies in the practical range.
pub proof fn lemma_quality_reward_monotonic(s1: State, s2: State, mp: ModifierParameter, eff: u32)
    requires
        mp.valid(),
        300 <= mp.process_accuracy <= 10_000,
        s2 == (State { inner_quiet: (s1.inner_quiet + 1) as u32, ..s1 }),
        s1.inner_quiet < 20,
        100 <= eff <= 400,
        s1.great_strides == 0,
        s1.innovation == 0,
        s1.condition != Condition::HighQuality,
    ensures
        s1.spec_quality_reward(mp, eff) < s2.spec_quality_reward(mp, eff),
{
    reveal(State::spec_quality_reward);
    let pa = mp.process_accuracy as int;
    let rpa = mp.required_process_accuracy as int;
    let f1 = pa * (5 + s1.inner_quiet as int);
    let f2 = pa * (5 + s2.inner_quiet as int);
    let den = 10000 * (rpa + 10000);
    let num1 = (7 * f1 + 3500) * (f1 + 50000) * 3 * eff * 2 * 2;
    let num2 = (7 * f2 + 3500) * (f2 + 50000) * 3 * eff * 2 * 2;
    assert(f2 == f1 + pa) by (nonlinear_arith)
        requires
            f1 == pa * (5 + s1.inner_quiet as int),
            f2 == pa * (6 + s1.inner_quiet as int),
    ;
    assert(0 <= f1 <= 250_000) by (nonlinear_arith)
        requires f1 == pa * (5 + s1.inner_quiet as int), 0 <= pa <= 10_000, 5 <= 5 + s1.inner_quiet as int <= 25;
    assert(num2 - num1 >= 101 * den) by (nonlinear_arith)
        requires
            num1 == (7 * f1 + 3500) * (f1 + 50000) * 3 * eff * 2 * 2,
            num2 == (7 * f2 + 3500) * (f2 + 50000) * 3 * eff * 2 * 2,
            f2 == f1 + pa,
            f1 >= 0,
            pa >= 300,
            eff >= 100,
            den == 10000 * (rpa + 10000),
            rpa <= 100_000,
    ;
    assert(num2 <= 2_800_000_000_000_000) by (nonlinear_arith)
        requires
            num2 == (7 * f2 + 3500) * (f2 + 50000) * 3 * eff * 2 * 2,
            f2 == f1 + pa,
            0 <= f1 <= 250_000,
            0 <= pa <= 10_000,
            eff <= 400,
    ;
    assert(den >= 100_000_000);
    assert(num1 >= 0) by (nonlinear_arith)
        requires
            num1 == (7 * f1 + 3500) * (f1 + 50000) * 3 * eff * 2 * 2,
            f1 >= 0,
            eff >= 0,
    ;
    let q1 = num1 / den;
    let q2 = num2 / den;
    lemma_div_add_multiple(num1, 101, den);
    vstd::arithmetic::div_mod::lemma_div_is_ordered(num1 + 101 * den, num2, den);
    assert(q2 >= q1 + 101);
    assert(q2 <= 2_800_000_000_000_000int / 100_000_000int) by (nonlinear_arith)
        requires
            q2 == num2 / den,
            num2 <= 2_800_000_000_000_000,
            den >= 100_000_000,
    ;
    assert(q2 <= u32::MAX);
    assert(q1 >= 0) by (nonlinear_arith)
        requires q1 == num1 / den, num1 >= 0, den > 0;
    lemma_div_add_multiple(q1, 1, 100);
    vstd::arithmetic::div_mod::lemma_div_is_ordered(q1 + 100, q2, 100);
    assert(q2 / 100 >= q1 / 100 + 1);
}

} // verus!
