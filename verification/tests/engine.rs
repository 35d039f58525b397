use craft_selfplay::logic::{Action, Condition, Modifier, ModifierParameter, State, get_technical_point};

fn recipe() -> ModifierParameter {
    ModifierParameter {
        max_working: 12046,
        max_quality: 81447,
        max_durability: 55,
        work_accuracy: 2769,
        process_accuracy: 2910,
        required_process_accuracy: 2540,
        max_cp: 657,
    }
}

fn all_actions() -> Vec<Action> {
    (0..32).map(|i| Action::from_index(i).unwrap()).collect()
}

#[test]
fn test_action_index_round_trip() {
    for i in 0..32 {
        let a = Action::from_index(i).expect("index in range");
        assert_eq!(a.to_index(), i);
    }
    assert_eq!(Action::from_index(32), None);
    assert_eq!(Action::from_index(1000), None);
    assert_eq!(Action::from_index(0), Some(Action::BasicSynthesis));
    assert_eq!(Action::from_index(31), Some(Action::TrainedFinesse));
}

#[test]
fn test_initial_state() {
    let mp = recipe();
    let s = State::new(&mp);
    assert_eq!(s.turn, 1);
    assert_eq!(s.time, 0);
    assert!(!s.completed);
    assert_eq!(s.working, 0);
    assert_eq!(s.quality, 0);
    assert_eq!(s.durability, mp.max_durability);
    assert_eq!(s.cp, mp.max_cp);
    assert_eq!(s.inner_quiet, 0);
    assert_eq!(s.careful_observation, 3);
    assert_eq!(s.condition, Condition::Standard);
    assert!(!s.is_terminated());
    assert!(!s.is_destroyed());
    assert!(!s.is_completed());
}

#[test]
fn test_progress_table() {
    let mp = recipe();
    let s = State::new(&mp);
    // No buffs, standard condition, by tenfold efficiency.
    assert_eq!(s.working_reward(&mp, 10), 472);
    assert_eq!(s.working_reward(&mp, 12), 566);
    assert_eq!(s.working_reward(&mp, 15), 708);
    assert_eq!(s.working_reward(&mp, 20), 944);
    assert_eq!(s.working_reward(&mp, 30), 1416);
    assert_eq!(s.working_reward(&mp, 50), 2360);
    // Veneration alone: times 1.5.
    let ven = State { veneration: 3, ..s };
    assert_eq!(ven.working_reward(&mp, 10), 708);
    // High progress alone: times 1.5.
    let hp = State { condition: Condition::HighProgress, ..s };
    assert_eq!(hp.working_reward(&mp, 10), 708);
    // Both stack multiplicatively: times 2.25.
    let both = State { veneration: 3, condition: Condition::HighProgress, ..s };
    assert_eq!(both.working_reward(&mp, 10), 1062);
}

#[test]
fn test_progress_sentinel() {
    // The base table is measured for a work accuracy of 2769 only; any
    // other accuracy yields the large sentinel, never an interpolation.
    let mp = ModifierParameter { work_accuracy: 2770, ..recipe() };
    let s = State::new(&mp);
    assert_eq!(s.working_reward(&mp, 10), 99999);
}

#[test]
fn test_quality_strictly_increases_in_inner_quiet() {
    let mp = recipe();
    let expected = [811, 983, 1167, 1362, 1568, 1785, 2014, 2255, 2506, 2769];
    let mut prev = State::new(&mp).quality_reward(&mp, 100);
    for iq in 1..=10u32 {
        let s = State { inner_quiet: iq, ..State::new(&mp) };
        let q = s.quality_reward(&mp, 100);
        assert!(q > prev, "quality reward must rise with inner quiet");
        assert_eq!(q, expected[(iq - 1) as usize]);
        prev = q;
    }
}

#[test]
fn test_byregots_blessing_quality() {
    let mp = recipe();
    // Byregot's uses efficiency 100 + 20 per stack; the legacy ceiling of
    // 11 stacks is expressible even though play caps the field at 10.
    let s11 = State { inner_quiet: 11, ..State::new(&mp) };
    assert_eq!(s11.quality_reward(&mp, 100 + 11 * 20), 9740);
    let s2 = State { inner_quiet: 2, ..State::new(&mp) };
    assert_eq!(s2.quality_reward(&mp, 100 + 2 * 20), 1377);
}

#[test]
fn test_technical_point_curve() {
    assert_eq!(get_technical_point(5800), 175);
    assert_eq!(get_technical_point(6499), 244);
    assert_eq!(get_technical_point(6500), 370);
    assert_eq!(get_technical_point(7399), 639);
    assert_eq!(get_technical_point(7400), 820);
    assert_eq!(get_technical_point(8144), 1266);
    assert_eq!(get_technical_point(5799), 0);
    assert_eq!(get_technical_point(0), 0);
}

#[test]
fn test_required_cp() {
    let mp = recipe();
    let s = State::new(&mp);
    assert_eq!(s.get_required_cp(&Action::BasicTouch), 18);
    assert_eq!(s.get_required_cp(&Action::StandardTouch), 32);
    let combo = State { combo_basic_touch: true, ..s };
    assert_eq!(combo.get_required_cp(&Action::StandardTouch), 18);
    assert_eq!(s.get_required_cp(&Action::AdvancedTouch), 46);
    let combo2 = State { combo_standard_touch: true, ..s };
    assert_eq!(combo2.get_required_cp(&Action::AdvancedTouch), 18);
    // Half cost, rounded up, under a high-efficiency condition.
    let he = State { condition: Condition::HighEfficiency, ..s };
    assert_eq!(he.get_required_cp(&Action::StandardTouch), 16);
    assert_eq!(he.get_required_cp(&Action::ByregotsBlessing), 12);
    assert_eq!(he.get_required_cp(&Action::FinalAppraisal), 1);
}

#[test]
fn test_check_action() {
    let mp = recipe();
    let s = State::new(&mp);
    // Turn 1 openers.
    assert!(s.check_action(&Action::MuscleMemory));
    assert!(s.check_action(&Action::Reflect));
    let later = State { turn: 2, ..s };
    assert!(!later.check_action(&Action::MuscleMemory));
    assert!(!later.check_action(&Action::Reflect));
    // Byregot's needs inner quiet.
    assert!(!s.check_action(&Action::ByregotsBlessing));
    assert!(State { inner_quiet: 1, ..s }.check_action(&Action::ByregotsBlessing));
    // Trained finesse needs the full stack.
    assert!(!State { inner_quiet: 9, ..s }.check_action(&Action::TrainedFinesse));
    assert!(State { inner_quiet: 10, ..s }.check_action(&Action::TrainedFinesse));
    // Condition-gated actions accept heart-and-soul instead.
    assert!(!s.check_action(&Action::PreciseTouch));
    assert!(State { condition: Condition::HighQuality, ..s }.check_action(&Action::PreciseTouch));
    assert!(State { heart_and_soul: true, ..s }.check_action(&Action::PreciseTouch));
    // Heart-and-soul is single use.
    assert!(s.check_action(&Action::HeartAndSoul));
    assert!(!State { heart_and_soul_used: true, ..s }.check_action(&Action::HeartAndSoul));
    // Prudent actions cannot stack with waste-not.
    assert!(s.check_action(&Action::PrudentTouch));
    assert!(!State { waste_not: 2, ..s }.check_action(&Action::PrudentTouch));
    assert!(!State { waste_not: 2, ..s }.check_action(&Action::PrudentSynthesis));
    // Careful observation has a stock of three.
    assert!(s.check_action(&Action::CarefulObservation));
    assert!(!State { careful_observation: 0, ..s }.check_action(&Action::CarefulObservation));
    // Everything is gated on crafting points.
    assert!(!State { cp: 17, ..s }.check_action(&Action::BasicTouch));
    assert!(State { cp: 18, ..s }.check_action(&Action::BasicTouch));
}

#[test]
fn test_run_action_basic_synthesis() {
    let mp = recipe();
    let mut modifier = Modifier::from_seed(mp, 7, 7);
    let s = State::new(&mp);
    let next = s.run_action(&mut modifier, &Action::BasicSynthesis);
    assert_eq!(next.working, 566);
    assert_eq!(next.turn, 2);
    assert_eq!(next.durability, 45);
    assert_eq!(next.cp, mp.max_cp);
    assert_eq!(next.time, 3);
    assert!(!next.completed);
}

#[test]
fn test_run_action_condition_roll() {
    // A xorshift128+ generator seeded with (x, x) first yields 2x, so the
    // first condition roll is fully predictable: 2 000 000 000 / 2^32 is
    // about 0.47, which falls in the high-quality band.
    let mp = recipe();
    let mut modifier = Modifier::from_seed(mp, 1_000_000_000, 1_000_000_000);
    let s = State::new(&mp);
    let next = s.run_action(&mut modifier, &Action::MastersMend);
    assert_eq!(next.condition, Condition::HighQuality);
    assert_eq!(next.cp, mp.max_cp - 88);
    assert_eq!(next.turn, 2);
    assert_eq!(next.time, 2);
}

#[test]
fn test_run_action_free_actions() {
    let mp = recipe();
    let mut modifier = Modifier::from_seed(mp, 3, 9);
    let s = State { condition: Condition::Solid, combo_observe: true, ..State::new(&mp) };
    // Careful observation: no turn advance, no condition roll, one use spent.
    let co = s.run_action(&mut modifier, &Action::CarefulObservation);
    assert_eq!(co.turn, 1);
    assert_eq!(co.careful_observation, 2);
    assert_eq!(co.condition, Condition::Solid);
    assert!(!co.combo_observe);
    assert_eq!(co.time, 2);
    // Heart and soul: flag set and consumed, nothing else moves.
    let hs = s.run_action(&mut modifier, &Action::HeartAndSoul);
    assert_eq!(hs.turn, 1);
    assert!(hs.heart_and_soul);
    assert!(hs.heart_and_soul_used);
    assert_eq!(hs.condition, Condition::Solid);
    // Final appraisal: buff set for five turns, combos cleared.
    let fa = s.run_action(&mut modifier, &Action::FinalAppraisal);
    assert_eq!(fa.turn, 1);
    assert_eq!(fa.final_appraisal, 5);
    assert!(!fa.combo_observe);
    assert_eq!(fa.cp, mp.max_cp - 1);
    assert_eq!(fa.condition, Condition::Solid);
}

#[test]
fn test_run_action_hasty_touch_outcomes() {
    // Whatever the dice said, the result must be one of the two outcomes.
    let mp = recipe();
    let s = State { turn: 2, ..State::new(&mp) };
    for seed in 1..=20u64 {
        let mut modifier = Modifier::from_seed(mp, seed, seed.wrapping_mul(997));
        let next = s.run_action(&mut modifier, &Action::HastyTouch);
        assert_eq!(next.turn, 3);
        assert_eq!(next.durability, 45);
        assert!(next.quality == 0 || next.quality == 650);
        if next.quality > 0 {
            assert_eq!(next.inner_quiet, 1);
        } else {
            assert_eq!(next.inner_quiet, 0);
        }
    }
}

#[test]
fn test_waste_not_and_solid_durability() {
    let mp = recipe();
    let s = State { turn: 2, waste_not: 3, condition: Condition::Solid, ..State::new(&mp) };
    let mut modifier = Modifier::from_seed(mp, 5, 11);
    // Cost 10, halved twice and rounded up: ceil(10/4) = 3.
    let next = s.run_action(&mut modifier, &Action::BasicSynthesis);
    assert_eq!(next.durability, 55 - 3);
    assert_eq!(next.waste_not, 2);
}

#[test]
fn test_manipulation_heal() {
    let mp = recipe();
    let s = State { turn: 2, durability: 20, manipulation: 4, ..State::new(&mp) };
    let mut modifier = Modifier::from_seed(mp, 5, 11);
    let next = s.run_action(&mut modifier, &Action::Observe);
    // No durability cost for observe; manipulation heals 5 on turn end.
    assert_eq!(next.durability, 25);
    assert_eq!(next.manipulation, 3);
    assert!(next.combo_observe);
}

#[test]
fn test_completion_and_final_appraisal_clamp() {
    let mp = recipe();
    let mut modifier = Modifier::from_seed(mp, 5, 11);
    // One groundwork short of the target: completing hit sets the flag.
    let near = State { turn: 2, working: 12000, ..State::new(&mp) };
    let done = near.run_action(&mut modifier, &Action::BasicSynthesis);
    assert!(done.completed);
    assert_eq!(done.working, mp.max_working);
    assert!(done.is_terminated());
    assert_eq!(done.turn, 2, "a completing action does not advance the turn counter");
    // With final appraisal up, the craft is clamped one short instead.
    let clamped = State { turn: 2, working: 12000, final_appraisal: 2, ..State::new(&mp) };
    let held = clamped.run_action(&mut modifier, &Action::BasicSynthesis);
    assert!(!held.completed);
    assert_eq!(held.working, mp.max_working - 1);
    assert_eq!(held.final_appraisal, 0);
}

#[test]
fn test_destruction() {
    let mp = recipe();
    let mut modifier = Modifier::from_seed(mp, 5, 11);
    let thin = State { turn: 2, durability: 10, ..State::new(&mp) };
    let broken = thin.run_action(&mut modifier, &Action::BasicSynthesis);
    assert_eq!(broken.durability, 0);
    assert!(broken.is_destroyed());
    assert!(!broken.is_completed());
    assert!(broken.is_terminated());
}

#[test]
fn test_invariants_over_random_play() {
    // P1/P2 as a scenario: play many random legal actions and watch the
    // resource bounds and the completion flag.
    let mp = recipe();
    for seed in 1..=10u64 {
        let mut modifier = Modifier::from_seed(mp, seed, seed ^ 0xdead_beef);
        let mut s = State::new(&mp);
        let mut steps = 0;
        while !s.is_terminated() && steps < 200 {
            let actions = all_actions();
            let legal: Vec<&Action> = actions.iter().filter(|a| s.check_action_ex(a)).collect();
            assert!(!legal.is_empty());
            let pick = legal[(steps * 7 + seed as usize) % legal.len()];
            assert!(s.check_action(pick));
            s = s.run_action(&mut modifier, pick);
            assert!(s.durability <= mp.max_durability);
            assert!(s.cp <= mp.max_cp);
            assert!(s.quality <= mp.max_quality);
            assert!(s.working <= mp.max_working);
            assert!(s.inner_quiet <= 10);
            assert_eq!(s.completed, s.working == mp.max_working);
            if s.is_destroyed() {
                assert!(!s.is_completed());
            }
            steps += 1;
        }
    }
}
