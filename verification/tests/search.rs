use craft_selfplay::logic::{Action, Modifier, ModifierParameter, State};
use craft_selfplay::mcts::{
    get_reward, legal_action_indices, select_action, select_action_greedy, select_action_weighted,
    select_max_indices, MCTSContext, SimulationStep,
};
use craft_selfplay::encode::encode_state;
use craft_selfplay::predict::PredictQueue;
use craft_selfplay::records::{aggregate_records, Record, Sample};

fn recipe() -> ModifierParameter {
    ModifierParameter {
        max_working: 12046,
        max_quality: 81447,
        max_durability: 55,
        work_accuracy: 2769,
        process_accuracy: 2910,
        required_process_accuracy: 2540,
        max_cp: 657,
    }
}

fn fresh_rng(seed: u64) -> xorshift::Xorshift128 {
    let words = [seed, seed.wrapping_mul(31)];
    <xorshift::Xorshift128 as xorshift::SeedableRng<&[u64]>>::from_seed(&words[..])
}

#[test]
fn test_select_max_indices() {
    let mut mcts_policy: Vec<Option<u64>> = vec![Some(0); 32];
    mcts_policy[0] = Some(1_000_000);
    mcts_policy[15] = Some(1_000_000);
    assert_eq!(vec![0, 15], select_max_indices(&mcts_policy));
}

#[test]
fn test_select_max_indices_skips_refused() {
    let mut scores: Vec<Option<u64>> = vec![None; 32];
    scores[4] = Some(10);
    scores[7] = Some(10);
    scores[9] = Some(3);
    assert_eq!(vec![4, 7], select_max_indices(&scores));
    let empty: Vec<Option<u64>> = vec![None; 32];
    assert!(select_max_indices(&empty).is_empty());
}

#[test]
fn test_select_action_weighted_single_mass() {
    let mut rng = fresh_rng(42);
    let mut policy: Vec<u64> = vec![0; 32];
    policy[14] = 17;
    for _ in 0..16 {
        let a = select_action_weighted(&policy, &mut rng);
        assert_eq!(a, Action::ByregotsBlessing);
    }
}

#[test]
fn test_select_action_greedy_ties() {
    let mut rng = fresh_rng(43);
    let mut policy: Vec<u64> = vec![1; 32];
    policy[0] = 9;
    policy[15] = 9;
    let mut seen0 = false;
    let mut seen15 = false;
    for _ in 0..64 {
        let a = select_action_greedy(&policy, &mut rng);
        let i = a.to_index();
        assert!(i == 0 || i == 15);
        seen0 |= i == 0;
        seen15 |= i == 15;
    }
    assert!(seen0 && seen15, "ties must be broken between both maxima");
}

#[test]
fn test_select_action_threshold() {
    let mut rng = fresh_rng(44);
    let mut policy: Vec<u64> = vec![0; 32];
    policy[3] = 5;
    policy[8] = 100;
    // Greedy from the threshold on: always the most-visited action.
    let a = select_action(&policy, 30, 30, &mut rng);
    assert_eq!(a.to_index(), 8);
    // Weighted before it: any drawn action has a nonzero count.
    for _ in 0..16 {
        let a = select_action(&policy, 5, 30, &mut rng);
        assert!(a.to_index() == 3 || a.to_index() == 8);
    }
}

#[test]
fn test_legal_action_indices_turn_one() {
    let mp = recipe();
    let s = State::new(&mp);
    let legal = legal_action_indices(&s);
    assert_eq!(legal, vec![Action::MuscleMemory.to_index(), Action::Reflect.to_index()]);
}

#[test]
fn test_reward_values() {
    let mp = recipe();
    let destroyed = State { turn: 12, durability: 0, quality: 500, ..State::new(&mp) };
    assert_eq!(get_reward(&destroyed, &mp), 0);
    // Full quality at 20 turns or fewer: the full reward.
    let perfect = State { turn: 20, quality: mp.max_quality, completed: true, working: mp.max_working, ..State::new(&mp) };
    assert_eq!(get_reward(&perfect, &mp), 1_000_000);
    // Full quality at 40 turns: nine tenths plus half the turn bonus.
    let slow = State { turn: 40, ..perfect };
    assert_eq!(get_reward(&slow, &mp), 900_000 + 50_000);
    // Below the cap there is no turn bonus at all.
    let partial = State { turn: 20, quality: mp.max_quality / 2, completed: true, working: mp.max_working, ..State::new(&mp) };
    let expected = (900_000u64 * (mp.max_quality as u64 / 2)) / mp.max_quality as u64;
    assert_eq!(get_reward(&partial, &mp), expected);
}

#[test]
fn test_encoder_layout_and_determinism() {
    let mp = recipe();
    let s = State { quality: 1234, inner_quiet: 4, condition: craft_selfplay::logic::Condition::Solid, ..State::new(&mp) };
    let v = encode_state(&s, &mp);
    assert_eq!(v.len(), 36);
    assert_eq!(v[0], (1, 128));
    assert_eq!(v[1], (0, 256));
    assert_eq!(v[3], (1234, mp.max_quality));
    assert_eq!(v[5], (mp.max_cp, mp.max_cp));
    assert_eq!(v[6], (4, 10));
    assert_eq!(v[7], (1, 1));
    assert_eq!(v[8], (3, 10));
    assert_eq!(v[29], (0, 1));
    assert_eq!(v[34], (1, 1));
    // Determinism: the same state encodes identically; a different state
    // differs somewhere.
    assert_eq!(encode_state(&s, &mp), v);
    let other = State { quality: 1235, ..s };
    assert_ne!(encode_state(&other, &mp), v);
}

fn run_simulations(ctx: &mut MCTSContext, root: &State, modifier: &mut Modifier, sims: usize) {
    let uniform: Vec<u64> = vec![31_250; 32];
    for _ in 0..sims {
        match ctx.start_simulation(root, modifier).expect("simulation runs") {
            SimulationStep::Expand(_leaf) => ctx.finish_simulation(&uniform, 500_000),
            SimulationStep::Done => {}
        }
    }
}

#[test]
fn test_search_policy_counts() {
    let mp = recipe();
    let mut modifier = Modifier::from_seed(mp, 2024, 4202);
    let root = State::new(&mp);
    let mut ctx = MCTSContext::new(1_000_000, 0);
    ctx.remove_unused_nodes(&root);
    assert!(!ctx.has_node(&root));
    let uniform: Vec<u64> = vec![31_250; 32];
    ctx.expand(&root, &uniform);
    assert!(ctx.has_node(&root));
    run_simulations(&mut ctx, &root, &mut modifier, 40);
    let policy = ctx.get_mcts_policy(&root);
    assert_eq!(policy.len(), 32);
    // Every backed-up simulation passed through the root, so the root's
    // visit counts sum to the number of simulations.
    let total: u64 = policy.iter().sum();
    assert_eq!(total, 40);
    // The policy is zero on every action the search refuses at the root:
    // on turn one, everything but muscle memory and reflect.
    for (i, &count) in policy.iter().enumerate() {
        if i != Action::MuscleMemory.to_index() && i != Action::Reflect.to_index() {
            assert_eq!(count, 0);
        }
    }
}

#[test]
fn test_search_policy_idempotent_under_prune() {
    let mp = recipe();
    let mut modifier = Modifier::from_seed(mp, 77, 770);
    let root = State::new(&mp);
    let mut ctx = MCTSContext::new(1_000_000, 0);
    let uniform: Vec<u64> = vec![31_250; 32];
    ctx.expand(&root, &uniform);
    run_simulations(&mut ctx, &root, &mut modifier, 25);
    let first = ctx.get_mcts_policy(&root);
    // A second search round with zero extra simulations: prune, find the
    // root still expanded, and read the policy again.
    ctx.remove_unused_nodes(&root);
    assert!(ctx.has_node(&root), "pruning keeps the root's own turn");
    let second = ctx.get_mcts_policy(&root);
    assert_eq!(first, second);
}

#[test]
fn test_root_noise_changes_priors_only() {
    let mp = recipe();
    let root = State::new(&mp);
    let mut with_noise = MCTSContext::new(1_000_000, 250_000);
    let uniform: Vec<u64> = vec![31_250; 32];
    with_noise.expand(&root, &uniform);
    // All noise mass on muscle memory.
    let mut noise: Vec<u64> = vec![0; 32];
    noise[Action::MuscleMemory.to_index()] = 1_000_000;
    with_noise.add_dirichlet_noise(&root, &noise);
    // Counts are untouched, so the returned policy is unchanged.
    let policy = with_noise.get_mcts_policy(&root);
    assert_eq!(policy, vec![0u64; 32]);
    // A fresh search from the noised priors must still be legal-only.
    let mut modifier = Modifier::from_seed(mp, 5150, 15);
    run_simulations(&mut with_noise, &root, &mut modifier, 10);
    let policy = with_noise.get_mcts_policy(&root);
    let total: u64 = policy.iter().sum();
    assert_eq!(total, 10);
}

#[test]
fn test_predict_queue_batches() {
    let mp = recipe();
    let s1 = State::new(&mp);
    let s2 = State { turn: 2, ..s1 };
    let s3 = State { turn: 3, ..s1 };
    let mut q = PredictQueue::new();
    q.submit(7, s1);
    q.submit(9, s2);
    q.submit(7, s3);
    let batches = q.take_batches();
    assert_eq!(batches.len(), 2);
    assert_eq!(batches[0].0, 7);
    assert_eq!(batches[0].1, vec![s1, s3]);
    assert_eq!(batches[1].0, 9);
    assert_eq!(batches[1].1, vec![s2]);
    // The queue is drained by a flush.
    assert!(q.take_batches().is_empty());
}

#[test]
fn test_aggregate_records_sums() {
    let mp = recipe();
    let terminal = State { turn: 9, durability: 0, ..State::new(&mp) };
    let mk = |name: &str, reward: u64| Record {
        samples: vec![Sample {
            action: Action::BasicSynthesis,
            state: State::new(&mp),
            mcts_policy: vec![0; 32],
        }],
        name: name.to_string(),
        last_state: terminal,
        reward,
    };
    let records = vec![mk("b", 100), mk("a", 250), mk("b", 300), mk("a", 50), mk("c", 0)];
    let rows = aggregate_records(&records);
    assert_eq!(rows.len(), 3);
    // Rows come out sorted by name, whatever the buffer order was.
    assert_eq!(rows[0], ("a".to_string(), 300, 2));
    assert_eq!(rows[1], ("b".to_string(), 400, 2));
    assert_eq!(rows[2], ("c".to_string(), 0, 1));
}

#[test]
fn test_full_episode() {
    // One complete self-play episode through the verified pieces, the
    // network stubbed by a uniform prior and a constant value.
    let mp = recipe();
    let mut modifier = Modifier::from_seed(mp, 99, 901);
    let mut state = State::new(&mp);
    let mut ctx = MCTSContext::new(1_000_000, 0);
    let mut samples: Vec<Sample> = Vec::new();
    let mut turns = 0;
    while !state.is_terminated() && turns < 100 {
        ctx.remove_unused_nodes(&state);
        if !ctx.has_node(&state) {
            let uniform: Vec<u64> = vec![31_250; 32];
            ctx.expand(&state, &uniform);
        }
        run_simulations(&mut ctx, &state, &mut modifier, 16);
        let policy = ctx.get_mcts_policy(&state);
        let action = select_action(&policy, state.turn, 3, &mut modifier.rng);
        assert!(state.check_action(&action));
        samples.push(Sample { action, state, mcts_policy: policy });
        state = state.run_action(&mut modifier, &action);
        turns += 1;
    }
    assert!(state.is_terminated(), "an episode of this recipe ends quickly");
    let reward = get_reward(&state, &mp);
    assert!(reward <= 1_000_000);
    let record = Record { samples, name: "champion".to_string(), last_state: state, reward };
    assert!(!record.samples.is_empty());
    // Every recorded state encodes to the fixed width.
    for sample in &record.samples {
        assert_eq!(encode_state(&sample.state, &mp).len(), 36);
    }
}

#[test]
fn test_rng_seeding_is_deterministic() {
    let mut a = fresh_rng(123);
    let mut b = fresh_rng(123);
    for _ in 0..8 {
        assert_eq!(xorshift::Rng::next_u32(&mut a), xorshift::Rng::next_u32(&mut b));
    }
}
