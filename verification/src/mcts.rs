//! Monte-Carlo tree search with the PUCT selection rule.
//!
//! Probabilities and values are carried as parts-per-million integers, and
//! visit counts as plain integers, so the whole search is exact arithmetic:
//! a returned policy is the visit-count vector, whose normalization (each
//! count over the sum) is the distribution the search stands for.

use vstd::prelude::*;
use crate::logic::{Action, Modifier, ModifierParameter, State, ACTION_NUM};
use crate::rng::rng_next_u32;

verus! {

/// One million: the denominator of every fixed-point probability or value.
pub const PPM: u64 = 1_000_000;

impl State {
    /// The search's tightened legality: it prunes openings other than
    /// muscle memory or reflect, and final appraisals that are already
    /// active or far from completion. What it admits is always legal.
    pub open spec fn spec_check_action_ex(self, a: Action) -> bool {
        if self.turn == 1 {
            (a == Action::MuscleMemory || a == Action::Reflect) && self.spec_check_action(a)
        } else if self.final_appraisal > 0 && a == Action::FinalAppraisal {
            false
        } else if self.working < 5000 && a == Action::FinalAppraisal {
            false
        } else {
            self.spec_check_action(a)
        }
    }

    /// Legality as the search applies it.
    pub fn check_action_ex(&self, a: &Action) -> (r: bool)
        ensures
            r == self.spec_check_action_ex(*a),
    {
        if self.turn == 1 {
            match a {
                Action::MuscleMemory | Action::Reflect => self.check_action(a),
                _ => false,
            }
        } else if self.final_appraisal > 0 && *a == Action::FinalAppraisal {
            false
        } else if self.working < 5000 && *a == Action::FinalAppraisal {
            false
        } else {
            self.check_action(a)
        }
    }
}

/// Law: the search never admits an illegal action, so the game engine is
/// only ever applied to pairs that pass `check_action`.
pub proof fn lemma_check_action_ex_implies_check(s: State, a: Action)
    ensures
        s.spec_check_action_ex(a) ==> s.spec_check_action(a),
{
}

/// Whether the policy index `a` is an action the search admits at `s`.
pub open spec fn spec_legal_index(s: State, a: int) -> bool {
    0 <= a < 32 && s.spec_check_action_ex(Action::spec_from_index(a)->Some_0)
}

/// The indices of the actions the search admits at `s`, in increasing
/// order.
pub fn legal_action_indices(s: &State) -> (r: Vec<usize>)
    ensures
        forall|k: int| 0 <= k < r@.len() ==> spec_legal_index(*s, #[trigger] r@[k] as int),
        forall|k1: int, k2: int| 0 <= k1 < k2 < r@.len() ==> r@[k1] < r@[k2],
        forall|a: int| 0 <= a < 32 && spec_legal_index(*s, a) ==> r@.contains(a as usize),
        r@.len() <= 32,
{
    let mut r: Vec<usize> = Vec::new();
    let mut i: usize = 0;
    while i < ACTION_NUM
        invariant
            i <= 32,
            forall|k: int| 0 <= k < r@.len() ==> spec_legal_index(*s, #[trigger] r@[k] as int),
            forall|k: int| 0 <= k < r@.len() ==> r@[k] < i,
            forall|k1: int, k2: int| 0 <= k1 < k2 < r@.len() ==> r@[k1] < r@[k2],
            forall|a: int| 0 <= a < i && spec_legal_index(*s, a) ==> r@.contains(a as usize),
            r@.len() <= i,
        decreases 32 - i,
    {
        let a = Action::from_index(i).unwrap();
        if s.check_action_ex(&a) {
            let ghost old_r = r@;
            r.push(i);
            proof {
                assert forall|b: int| 0 <= b < i + 1 && spec_legal_index(*s, b) implies r@.contains(b as usize) by {
                    if b == i {
                        assert(r@[r@.len() - 1] == b as usize);
                    } else {
                        let k = choose|k: int| 0 <= k < old_r.len() && old_r[k] == b as usize;
                        assert(r@[k] == b as usize);
                    }
                }
            }
        }
        i += 1;
    }
    r
}

/// The turn bonus of a finished craft, in parts per million of the full
/// reward: everything at 20 turns or fewer, nothing at 60 or more, linear
/// in between, and only with the quality cap reached.
pub open spec fn spec_turn_bonus(turn: u32) -> int {
    if turn <= 20 { 100_000 }
    else if turn >= 60 { 0 }
    else { (60 - turn) * 2500 }
}

/// The scalar reward of a terminal state, in parts per million: zero when
/// destroyed, else nine tenths of the quality ratio plus the turn bonus.
pub open spec fn spec_reward(s: State, mp: ModifierParameter) -> int {
    if s.spec_destroyed() {
        0
    } else {
        (900_000 * s.quality as int) / (mp.max_quality as int)
            + if s.quality == mp.max_quality { spec_turn_bonus(s.turn) } else { 0 }
    }
}

/// Reward of a state, in parts per million of 1.
pub fn get_reward(s: &State, mp: &ModifierParameter) -> (r: u64)
    requires
        mp.max_quality >= 1,
        s.quality <= mp.max_quality,
    ensures
        r == spec_reward(*s, *mp),
        r <= PPM,
{
    if s.is_destroyed() {
        0
    } else {
        let q: u64 = (900_000 * s.quality as u64) / (mp.max_quality as u64);
        let b: u64 = if s.quality == mp.max_quality {
            if s.turn <= 20 { 100_000 }
            else if s.turn >= 60 { 0 }
            else { ((60 - s.turn) as u64) * 2500 }
        } else {
            0
        };
        assert(q <= 900_000) by (nonlinear_arith)
            requires
                q == (900_000 * s.quality as int) / (mp.max_quality as int),
                s.quality <= mp.max_quality,
                mp.max_quality >= 1,
        ;
        q + b
    }
}

/// The largest integer whose square does not exceed `x`.
pub open spec fn spec_isqrt(x: nat) -> nat
    decreases x,
{
    if x == 0 {
        0
    } else {
        let r = spec_isqrt((x - 1) as nat);
        if (r + 1) * (r + 1) <= x { r + 1 } else { r }
    }
}

proof fn lemma_isqrt_bounds(x: nat)
    ensures
        spec_isqrt(x) * spec_isqrt(x) <= x,
        x < (spec_isqrt(x) + 1) * (spec_isqrt(x) + 1),
    decreases x,
{
    if x > 0 {
        lemma_isqrt_bounds((x - 1) as nat);
        let r = spec_isqrt((x - 1) as nat);
        assert((r + 1) * (r + 1) < (r + 2) * (r + 2)) by (nonlinear_arith);
        if (r + 1) * (r + 1) <= x {
            assert(spec_isqrt(x) == r + 1);
            assert(x <= (r + 1) * (r + 1));
            assert(x < (r + 2) * (r + 2));
        } else {
            assert(spec_isqrt(x) == r);
        }
    } else {
        assert(spec_isqrt(x) == 0);
        assert((0nat + 1) * (0nat + 1) == 1) by (nonlinear_arith);
    }
}

proof fn lemma_isqrt_unique(x: nat, r: nat)
    requires
        r * r <= x,
        x < (r + 1) * (r + 1),
    ensures
        r == spec_isqrt(x),
{
    lemma_isqrt_bounds(x);
    let s = spec_isqrt(x);
    if r < s {
        assert((r + 1) * (r + 1) <= s * s) by (nonlinear_arith)
            requires r + 1 <= s;
    }
    if s < r {
        assert((s + 1) * (s + 1) <= r * r) by (nonlinear_arith)
            requires s + 1 <= r;
    }
}

/// Integer square root by bisection.
fn isqrt(x: u128) -> (r: u64)
    requires
        x < 0x1000_0000_0000_0000_0000_0000,
    ensures
        r == spec_isqrt(x as nat),
        r < 0x4000_0000_0000,
{
    let mut lo: u64 = 0;
    let mut hi: u64 = 0x4000_0000_0000;
    while lo + 1 < hi
        invariant
            lo < hi <= 0x4000_0000_0000,
            (lo as u128) * (lo as u128) <= x,
            x < (hi as u128) * (hi as u128),
        decreases hi - lo,
    {
        let mid: u64 = lo + (hi - lo) / 2;
        assert((mid as u128) * (mid as u128) <= 0x1000_0000_0000_0000_0000_0000) by (nonlinear_arith)
            requires mid <= 0x4000_0000_0000u64;
        if (mid as u128) * (mid as u128) <= x {
            lo = mid;
        } else {
            hi = mid;
        }
    }
    proof {
        lemma_isqrt_unique(x as nat, lo as nat);
    }
    lo
}

/// Sum of a sequence of counters.
pub open spec fn spec_sum_u64(s: Seq<u64>) -> int
    decreases s.len(),
{
    if s.len() == 0 {
        0
    } else {
        spec_sum_u64(s.drop_last()) + s.last()
    }
}

proof fn lemma_sum_take_step(s: Seq<u64>, i: int)
    requires
        0 <= i < s.len(),
    ensures
        spec_sum_u64(s.take(i + 1)) == spec_sum_u64(s.take(i)) + s[i],
{
    assert(s.take(i + 1).drop_last() =~= s.take(i));
    assert(s.take(i + 1).last() == s[i]);
}

proof fn lemma_sum_nonneg(s: Seq<u64>)
    ensures
        spec_sum_u64(s) >= 0,
    decreases s.len(),
{
    if s.len() > 0 {
        lemma_sum_nonneg(s.drop_last());
    }
}

proof fn lemma_sum_bound(s: Seq<u64>, cap: int)
    requires
        forall|i: int| 0 <= i < s.len() ==> s[i] <= cap,
        cap >= 0,
    ensures
        spec_sum_u64(s) <= s.len() * cap,
    decreases s.len(),
{
    if s.len() > 0 {
        lemma_sum_bound(s.drop_last(), cap);
        assert((s.len() - 1) * cap + cap == s.len() * cap) by (nonlinear_arith);
    }
}

/// Law: bumping one counter raises the sum by exactly the same amount. It
/// is how one sees that, after a backed-up simulation, the visit counts of
/// each node on its path sum to one more than before.
pub proof fn lemma_sum_update(s: Seq<u64>, i: int, v: u64)
    requires
        0 <= i < s.len(),
    ensures
        spec_sum_u64(s.update(i, v)) == spec_sum_u64(s) + v - s[i],
    decreases s.len(),
{
    let t = s.update(i, v);
    if i == s.len() - 1 {
        assert(t.drop_last() =~= s.drop_last());
    } else {
        assert(t.drop_last() =~= s.drop_last().update(i, v));
        lemma_sum_update(s.drop_last(), i, v);
    }
}

/// One searched position: per-action visit counts, cumulative backed-up
/// values (parts per million), and the network's prior probabilities
/// (parts per million).
pub struct Node {
    pub n: Vec<u64>,
    pub w: Vec<u64>,
    pub p: Vec<u64>,
}

/// The widest visit count a context will accumulate.
pub const MAX_BACKUPS: u64 = 1_000_000_000_000;

/// A node's internal consistency, against the running backup counter.
pub open spec fn spec_node_wf(node: Node, tb: u64) -> bool {
    &&& node.n@.len() == 32
    &&& node.w@.len() == 32
    &&& node.p@.len() == 32
    &&& forall|a: int| 0 <= a < 32 ==> #[trigger] node.n@[a] <= tb
    &&& forall|a: int| 0 <= a < 32 ==> #[trigger] node.w@[a] <= node.n@[a] * 1_000_000
    &&& forall|a: int| 0 <= a < 32 ==> #[trigger] node.p@[a] <= 1_000_000
}

/// The fixed-point PUCT score of action `a` at a node: the exploration
/// term `c_puct * P[a] * sqrt(sum N) / (1 + N[a])` plus the exploitation
/// term `W[a] / N[a]`, all in parts per million.
#[verifier::opaque]
pub open spec fn spec_puct_score(c_puct: u64, node: Node, a: int) -> int {
    let sum_n = spec_sum_u64(node.n@);
    let sqrt_scaled = spec_isqrt((sum_n * 1_000_000_000_000) as nat);
    let u = (c_puct * node.p@[a] * sqrt_scaled) / (1_000_000_000_000 * (1 + node.n@[a]));
    let q = if node.n@[a] > 0 { node.w@[a] / node.n@[a] } else { 0 };
    u + q
}

/// Scores of all 32 actions at a node: `None` where the search's legality
/// check refuses the action, the PUCT score elsewhere.
fn get_scores(c_puct: u64, s: &State, node: &Node) -> (scores: Vec<Option<u64>>)
    requires
        c_puct <= 1_000_000_000,
        spec_node_wf(*node, MAX_BACKUPS),
    ensures
        scores@.len() == 32,
        forall|a: int| 0 <= a < 32 ==> ((#[trigger] scores@[a]) is Some <==> spec_legal_index(*s, a)),
        forall|a: int| 0 <= a < 32 && scores@[a] is Some ==> scores@[a]->0 == spec_puct_score(c_puct, *node, a),
{
    let ghost nseq = node.n@;
    let mut sum_n: u64 = 0;
    let mut i: usize = 0;
    while i < 32
        invariant
            i <= 32,
            node.n@ == nseq,
            node.n@.len() == 32,
            forall|a: int| 0 <= a < 32 ==> #[trigger] node.n@[a] <= MAX_BACKUPS,
            sum_n == spec_sum_u64(node.n@.take(i as int)),
            sum_n <= i * (MAX_BACKUPS as int),
        decreases 32 - i,
    {
        proof {
            lemma_sum_take_step(node.n@, i as int);
        }
        sum_n = sum_n + node.n[i];
        i += 1;
    }
    proof {
        assert(node.n@.take(32) =~= node.n@);
    }
    let sqrt_scaled: u64 = isqrt(sum_n as u128 * 1_000_000_000_000);
    proof {
        lemma_sum_nonneg(node.n@);
    }

    let mut scores: Vec<Option<u64>> = Vec::new();
    let mut a: usize = 0;
    while a < 32
        invariant
            a <= 32,
            scores@.len() == a,
            c_puct <= 1_000_000_000,
            spec_node_wf(*node, MAX_BACKUPS),
            sqrt_scaled < 0x4000_0000_0000,
            sqrt_scaled == spec_isqrt((spec_sum_u64(node.n@) * 1_000_000_000_000) as nat),
            forall|b: int| 0 <= b < a ==> ((#[trigger] scores@[b]) is Some <==> spec_legal_index(*s, b)),
            forall|b: int| 0 <= b < a && scores@[b] is Some ==> scores@[b]->0 == spec_puct_score(c_puct, *node, b),
        decreases 32 - a,
    {
        proof {
            reveal(spec_puct_score);
        }
        let act = Action::from_index(a).unwrap();
        if s.check_action_ex(&act) {
            let p_a: u128 = node.p[a] as u128;
            assert((c_puct as int) * (p_a as int) <= 1_000_000_000_000_000int) by (nonlinear_arith)
                requires c_puct <= 1_000_000_000, p_a <= 1_000_000;
            let m1: u128 = (c_puct as u128) * p_a;
            assert((m1 as int) * (sqrt_scaled as int) <= 0x10_0000_0000_0000_0000_0000_0000int) by (nonlinear_arith)
                requires m1 <= 1_000_000_000_000_000, sqrt_scaled < 0x4000_0000_0000;
            let num: u128 = m1 * (sqrt_scaled as u128);
            let n_a: u128 = node.n[a] as u128;
            assert(1_000_000_000_000int * (1 + n_a as int) <= 1_000_000_000_000int * (1 + MAX_BACKUPS as int)) by (nonlinear_arith)
                requires n_a <= MAX_BACKUPS;
            let den: u128 = 1_000_000_000_000u128 * (1 + n_a);
            let u: u128 = num / den;
            assert(u <= 0x10_0000_0000_0000_0000_0000_0000int / 1_000_000_000_000int) by (nonlinear_arith)
                requires
                    u == num / den,
                    num <= 0x10_0000_0000_0000_0000_0000_0000int,
                    den >= 1_000_000_000_000int,
            ;
            let q: u128 = if node.n[a] > 0 {
                let quo: u128 = node.w[a] as u128 / (node.n[a] as u128);
                assert(quo <= 1_000_000) by (nonlinear_arith)
                    requires
                        quo == (node.w@[a as int] as int) / (node.n@[a as int] as int),
                        node.w@[a as int] <= node.n@[a as int] * 1_000_000,
                        node.n@[a as int] > 0,
                ;
                quo
            } else {
                0
            };
            scores.push(Some((u + q) as u64));
        } else {
            scores.push(None);
        }
        a += 1;
    }
    scores
}

/// Whether index `a` carries the greatest score among the admitted ones.
pub open spec fn spec_is_max(scores: Seq<Option<u64>>, a: int) -> bool {
    &&& 0 <= a < scores.len()
    &&& scores[a] is Some
    &&& forall|b: int| 0 <= b < scores.len() && (#[trigger] scores[b]) is Some ==> scores[b]->0 <= scores[a]->0
}

/// All indices that carry the greatest score, in increasing order.
pub fn select_max_indices(scores: &Vec<Option<u64>>) -> (r: Vec<usize>)
    ensures
        forall|k: int| 0 <= k < r@.len() ==> spec_is_max(scores@, #[trigger] r@[k] as int),
        forall|a: int| spec_is_max(scores@, a) ==> r@.contains(a as usize),
        forall|k1: int, k2: int| 0 <= k1 < k2 < r@.len() ==> r@[k1] < r@[k2],
        (exists|a: int| 0 <= a < scores@.len() && (#[trigger] scores@[a]) is Some) ==> r@.len() > 0,
{
    let mut best: Option<u64> = None;
    let mut i: usize = 0;
    while i < scores.len()
        invariant
            i <= scores@.len(),
            match best {
                None => forall|b: int| 0 <= b < i ==> (#[trigger] scores@[b]) is None,
                Some(m) => {
                    &&& exists|b: int| 0 <= b < i && scores@[b] == Some(m)
                    &&& forall|b: int| 0 <= b < i && (#[trigger] scores@[b]) is Some ==> scores@[b]->0 <= m
                },
            },
        decreases scores@.len() - i,
    {
        match scores[i] {
            Some(v) => {
                match best {
                    None => { best = Some(v); },
                    Some(m) => {
                        if v > m {
                            best = Some(v);
                        }
                    },
                }
            },
            None => {},
        }
        i += 1;
    }
    let mut r: Vec<usize> = Vec::new();
    match best {
        None => r,
        Some(m) => {
            let mut k: usize = 0;
            while k < scores.len()
                invariant
                    k <= scores@.len(),
                    exists|b: int| 0 <= b < scores@.len() && scores@[b] == Some(m),
                    forall|b: int| 0 <= b < scores@.len() && (#[trigger] scores@[b]) is Some ==> scores@[b]->0 <= m,
                    forall|j: int| 0 <= j < r@.len() ==> spec_is_max(scores@, #[trigger] r@[j] as int),
                    forall|j: int| 0 <= j < r@.len() ==> r@[j] < k,
                    forall|j1: int, j2: int| 0 <= j1 < j2 < r@.len() ==> r@[j1] < r@[j2],
                    forall|b: int| 0 <= b < k && spec_is_max(scores@, b) ==> r@.contains(b as usize),
                    (exists|b: int| 0 <= b < k && scores@[b] == Some(m)) ==> r@.len() > 0,
                decreases scores@.len() - k,
            {
                let keep = match scores[k] {
                    Some(v) => v == m,
                    None => false,
                };
                if keep {
                    let ghost old_r = r@;
                    r.push(k);
                    proof {
                        assert forall|b: int| 0 <= b < k + 1 && spec_is_max(scores@, b) implies r@.contains(b as usize) by {
                            if b == k {
                                assert(r@[r@.len() - 1] == b as usize);
                            } else {
                                let j = choose|j: int| 0 <= j < old_r.len() && old_r[j] == b as usize;
                                assert(r@[j] == b as usize);
                            }
                        }
                    }
                }
                k += 1;
            }
            proof {
                let b = choose|b: int| 0 <= b < scores@.len() && scores@[b] == Some(m);
                assert(spec_is_max(scores@, b));
            }
            r
        },
    }
}

/// One of the highest-scoring indices, picked by the generator when
/// several tie.
pub fn choose_max_index(scores: &Vec<Option<u64>>, rng: &mut xorshift::Xorshift128) -> (r: usize)
    requires
        exists|a: int| 0 <= a < scores@.len() && (#[trigger] scores@[a]) is Some,
    ensures
        spec_is_max(scores@, r as int),
{
    let indices = select_max_indices(scores);
    let d = rng_next_u32(rng) as usize % indices.len();
    indices[d]
}

/// What a started simulation asks of its caller: evaluate a leaf with the
/// network, or nothing, the simulation having ended at a terminal state.
pub enum SimulationStep {
    Expand(State),
    Done,
}

/// Why a simulation could not run: a live position the search admits no
/// action from, or a state at the integer limits of the engine.
#[derive(Debug, Clone, Copy, PartialEq, Eq, Structural)]
pub enum SearchError {
    NoLegalAction,
    StateOverflow,
}

/// One search tree: the node table, the exploration constant and the
/// root-noise weight, and the path of the simulation in flight.
pub struct MCTSContext {
    pub c_puct: u64,
    pub eps: u64,
    pub nodes: Vec<(State, Node)>,
    pub pending: Option<(Vec<(State, usize)>, State)>,
    pub total_backups: u64,
}

impl MCTSContext {
    pub open spec fn spec_contains(self, s: State) -> bool {
        exists|i: int| 0 <= i < self.nodes@.len() && (#[trigger] self.nodes@[i]).0 == s
    }

    pub open spec fn spec_node_idx(self, s: State) -> int {
        choose|i: int| 0 <= i < self.nodes@.len() && (#[trigger] self.nodes@[i]).0 == s
    }

    /// The node stored for `s`; meaningful under `spec_contains`.
    pub open spec fn spec_node(self, s: State) -> Node {
        self.nodes@[self.spec_node_idx(s)].1
    }

    pub open spec fn spec_eps(self) -> u64 {
        self.eps
    }

    pub open spec fn spec_c_puct(self) -> u64 {
        self.c_puct
    }

    pub open spec fn spec_pending(self) -> Option<(Vec<(State, usize)>, State)> {
        self.pending
    }

    pub open spec fn spec_total_backups(self) -> u64 {
        self.total_backups
    }

    /// The context's invariant: distinct keys, consistent nodes, a visit
    /// count only on actions the search admits, and an in-flight path that
    /// runs through stored positions toward an unstored leaf.
    pub open spec fn wf(self) -> bool {
        &&& self.c_puct <= 1_000_000_000
        &&& self.eps <= 1_000_000
        &&& self.total_backups <= MAX_BACKUPS
        &&& forall|i: int, j: int| 0 <= i < j < self.nodes@.len() ==> (#[trigger] self.nodes@[i]).0 != (#[trigger] self.nodes@[j]).0
        &&& forall|i: int| 0 <= i < self.nodes@.len() ==> spec_node_wf((#[trigger] self.nodes@[i]).1, self.total_backups)
        &&& forall|i: int, a: int| 0 <= i < self.nodes@.len() && 0 <= a < 32 && #[trigger] self.nodes@[i].1.n@[a] > 0 ==> spec_legal_index(self.nodes@[i].0, a)
        &&& match self.pending {
            None => true,
            Some(pp) => {
                &&& !self.spec_contains(pp.1)
                &&& forall|k: int| 0 <= k < pp.0@.len() ==> self.spec_contains((#[trigger] pp.0@[k]).0)
                &&& forall|k: int| 0 <= k < pp.0@.len() ==> spec_legal_index((#[trigger] pp.0@[k]).0, pp.0@[k].1 as int)
                &&& forall|k1: int, k2: int| 0 <= k1 < k2 < pp.0@.len() ==> (#[trigger] pp.0@[k1]).0 != (#[trigger] pp.0@[k2]).0
            },
        }
    }

    /// A fresh context with no nodes and no simulation in flight.
    pub fn new(c_puct: u64, eps: u64) -> (r: MCTSContext)
        requires
            c_puct <= 1_000_000_000,
            eps <= 1_000_000,
        ensures
            r.wf(),
            r.nodes@.len() == 0,
            r.spec_pending() is None,
            r.spec_eps() == eps,
            r.spec_c_puct() == c_puct,
    {
        MCTSContext { c_puct, eps, nodes: Vec::new(), pending: None, total_backups: 0 }
    }

    /// Index of the node stored for `s`, if any.
    fn find_node(&self, s: &State) -> (r: Option<usize>)
        ensures
            match r {
                Some(i) => i < self.nodes@.len() && self.nodes@[i as int].0 == *s,
                None => !self.spec_contains(*s),
            },
    {
        let mut i: usize = 0;
        while i < self.nodes.len()
            invariant
                i <= self.nodes@.len(),
                forall|j: int| 0 <= j < i ==> (#[trigger] self.nodes@[j]).0 != *s,
            decreases self.nodes@.len() - i,
        {
            if self.nodes[i].0 == *s {
                return Some(i);
            }
            i += 1;
        }
        None
    }

    /// Whether the search has already expanded `s`.
    pub fn has_node(&self, s: &State) -> (r: bool)
        ensures
            r == self.spec_contains(*s),
    {
        self.find_node(s).is_some()
    }

    proof fn lemma_node_at(self, s: State, i: int)
        requires
            self.wf(),
            0 <= i < self.nodes@.len(),
            self.nodes@[i].0 == s,
        ensures
            self.spec_contains(s),
            self.spec_node_idx(s) == i,
            self.spec_node(s) == self.nodes@[i].1,
    {
        assert(self.spec_contains(s));
        let j = self.spec_node_idx(s);
        if j < i {
            assert(self.nodes@[j].0 != self.nodes@[i].0);
            assert(false);
        } else if i < j {
            assert(self.nodes@[i].0 != self.nodes@[j].0);
            assert(false);
        }
    }

    /// Store a freshly evaluated position with the network's priors and
    /// untouched counts. The prior row is a softmax row: each entry at
    /// most one, and the whole row summing to at most one (the network
    /// promises a sum of one up to float error; what conversion to parts
    /// per million can guarantee is the upper bound).
    pub fn expand(&mut self, s: &State, nn_policy: &Vec<u64>)
        requires
            old(self).wf(),
            old(self).spec_pending() is None,
            !old(self).spec_contains(*s),
            nn_policy@.len() == 32,
            forall|a: int| 0 <= a < 32 ==> #[trigger] nn_policy@[a] <= 1_000_000,
            spec_sum_u64(nn_policy@) <= 1_000_000,
        ensures
            final(self).wf(),
            final(self).spec_pending() is None,
            final(self).nodes@.len() == old(self).nodes@.len() + 1,
            final(self).spec_contains(*s),
            final(self).spec_node(*s).n@ =~= Seq::new(32, |a: int| 0u64),
            final(self).spec_node(*s).w@ =~= Seq::new(32, |a: int| 0u64),
            final(self).spec_node(*s).p@ == nn_policy@,
            final(self).spec_eps() == old(self).spec_eps(),
            final(self).spec_c_puct() == old(self).spec_c_puct(),
            final(self).spec_total_backups() == old(self).spec_total_backups(),
            forall|t: State| t != *s ==> final(self).spec_contains(t) == old(self).spec_contains(t),
            forall|t: State| old(self).spec_contains(t) ==> final(self).spec_node(t) == old(self).spec_node(t),
            forall|i: int| 0 <= i < old(self).nodes@.len() ==> #[trigger] final(self).nodes@[i] == old(self).nodes@[i],
            final(self).nodes@.last().0 == *s,
            final(self).nodes@.last().1.n@ =~= Seq::new(32, |a: int| 0u64),
            final(self).nodes@.last().1.w@ =~= Seq::new(32, |a: int| 0u64),
            final(self).nodes@.last().1.p@ == nn_policy@,
    {
        let mut n: Vec<u64> = Vec::new();
        let mut w: Vec<u64> = Vec::new();
        let mut p: Vec<u64> = Vec::new();
        let mut a: usize = 0;
        while a < 32
            invariant
                a <= 32,
                n@ =~= Seq::new(a as nat, |b: int| 0u64),
                w@ =~= Seq::new(a as nat, |b: int| 0u64),
                p@ =~= nn_policy@.take(a as int),
                nn_policy@.len() == 32,
            decreases 32 - a,
        {
            n.push(0);
            w.push(0);
            p.push(nn_policy[a]);
            a += 1;
        }
        proof {
            assert(p@ =~= nn_policy@);
        }
        let ghost old_nodes = self.nodes@;
        let entry = (*s, Node { n, w, p });
        self.nodes.push(entry);
        proof {
            let len = self.nodes@.len();
            self.lemma_node_at(*s, len - 1);
            assert forall|t: State| t != *s implies self.spec_contains(t) == old(self).spec_contains(t) by {
                if old(self).spec_contains(t) {
                    let i = choose|i: int| 0 <= i < old_nodes.len() && old_nodes[i].0 == t;
                    assert(self.nodes@[i].0 == t);
                }
                if self.spec_contains(t) {
                    let i = choose|i: int| 0 <= i < self.nodes@.len() && (#[trigger] self.nodes@[i]).0 == t;
                    assert(i < len - 1 ==> old_nodes[i].0 == t);
                }
            }
            assert forall|t: State| old(self).spec_contains(t) implies self.spec_node(t) == old(self).spec_node(t) by {
                let i = choose|i: int| 0 <= i < old_nodes.len() && old_nodes[i].0 == t;
                assert(self.nodes@[i].0 == t);
                old(self).lemma_node_at(t, i);
                self.lemma_node_at(t, i);
            }
        }
    }

    /// Drop every stored position whose turn lies strictly before the
    /// root's: the game can never reach them again.
    pub fn remove_unused_nodes(&mut self, root_state: &State)
        requires
            old(self).wf(),
            old(self).spec_pending() is None,
        ensures
            final(self).wf(),
            final(self).spec_pending() is None,
            final(self).spec_eps() == old(self).spec_eps(),
            final(self).spec_c_puct() == old(self).spec_c_puct(),
            final(self).spec_total_backups() == old(self).spec_total_backups(),
            forall|j: int| 0 <= j < final(self).nodes@.len() ==> (#[trigger] final(self).nodes@[j]).0.turn >= root_state.turn,
            forall|j: int| 0 <= j < final(self).nodes@.len() ==> old(self).nodes@.contains(#[trigger] final(self).nodes@[j]),
            forall|i: int| 0 <= i < old(self).nodes@.len() && (#[trigger] old(self).nodes@[i]).0.turn >= root_state.turn ==> final(self).nodes@.contains(old(self).nodes@[i]),
            forall|t: State| t.turn >= root_state.turn ==> final(self).spec_contains(t) == old(self).spec_contains(t),
            forall|t: State| t.turn >= root_state.turn && old(self).spec_contains(t) ==> final(self).spec_node(t) == old(self).spec_node(t),
    {
        let ghost old_self = *self;
        let ghost old_len = self.nodes@.len() as int;
        let mut kept: Vec<(State, Node)> = Vec::new();
        while self.nodes.len() > 0
            invariant
                self.nodes@.len() <= old_len,
                self.nodes@ =~= old_self.nodes@.take(self.nodes@.len() as int),
                forall|j: int| 0 <= j < kept@.len() ==> (#[trigger] kept@[j]).0.turn >= root_state.turn,
                forall|j: int| 0 <= j < kept@.len() ==> exists|i2: int| self.nodes@.len() <= i2 < old_len && old_self.nodes@[i2] == #[trigger] kept@[j],
                forall|i2: int| self.nodes@.len() <= i2 < old_len && (#[trigger] old_self.nodes@[i2]).0.turn >= root_state.turn ==> kept@.contains(old_self.nodes@[i2]),
                forall|j1: int, j2: int| 0 <= j1 < j2 < kept@.len() ==> (#[trigger] kept@[j1]).0 != (#[trigger] kept@[j2]).0,
                old_self.wf(),
                old_len == old_self.nodes@.len(),
                self.c_puct == old_self.c_puct,
                self.eps == old_self.eps,
                self.total_backups == old_self.total_backups,
                self.pending == old_self.pending,
            decreases self.nodes@.len(),
        {
            let ghost m = self.nodes@.len() as int;
            let entry = self.nodes.pop().unwrap();
            proof {
                assert(entry == old_self.nodes@[m - 1]);
                assert(self.nodes@ =~= old_self.nodes@.take(m - 1));
            }
            if entry.0.turn >= root_state.turn {
                let ghost old_kept = kept@;
                kept.push(entry);
                proof {
                    assert(kept@.last() == old_self.nodes@[m - 1]);
                    assert forall|i2: int| m - 1 <= i2 < old_len && (#[trigger] old_self.nodes@[i2]).0.turn >= root_state.turn implies kept@.contains(old_self.nodes@[i2]) by {
                        if i2 == m - 1 {
                            assert(kept@[kept@.len() - 1] == old_self.nodes@[i2]);
                        } else {
                            let j = choose|j: int| 0 <= j < old_kept.len() && old_kept[j] == old_self.nodes@[i2];
                            assert(kept@[j] == old_self.nodes@[i2]);
                        }
                    }
                    assert forall|j1: int, j2: int| 0 <= j1 < j2 < kept@.len() implies (#[trigger] kept@[j1]).0 != (#[trigger] kept@[j2]).0 by {
                        if j2 == kept@.len() - 1 {
                            let i1 = choose|i1: int| m <= i1 < old_len && old_self.nodes@[i1] == kept@[j1];
                            assert(old_self.nodes@[m - 1].0 != old_self.nodes@[i1].0);
                        }
                    }
                }
            }
        }
        self.nodes = kept;
        proof {
            assert forall|i2: int| 0 <= i2 < self.nodes@.len() implies spec_node_wf((#[trigger] self.nodes@[i2]).1, self.total_backups) by {
                let k = choose|k: int| 0 <= k < old_self.nodes@.len() && old_self.nodes@[k] == self.nodes@[i2];
                assert(spec_node_wf(old_self.nodes@[k].1, self.total_backups));
            }
            assert forall|i2: int, a: int| 0 <= i2 < self.nodes@.len() && 0 <= a < 32 && #[trigger] self.nodes@[i2].1.n@[a] > 0 implies spec_legal_index(self.nodes@[i2].0, a) by {
                let k = choose|k: int| 0 <= k < old_self.nodes@.len() && old_self.nodes@[k] == self.nodes@[i2];
                assert(old_self.nodes@[k].1.n@[a] > 0);
            }
            assert forall|t: State| t.turn >= root_state.turn implies self.spec_contains(t) == old(self).spec_contains(t) by {
                if old(self).spec_contains(t) {
                    let i2 = choose|i2: int| 0 <= i2 < old_self.nodes@.len() && (#[trigger] old_self.nodes@[i2]).0 == t;
                    assert(self.nodes@.contains(old_self.nodes@[i2]));
                    let j = choose|j: int| 0 <= j < self.nodes@.len() && self.nodes@[j] == old_self.nodes@[i2];
                    assert(self.nodes@[j].0 == t);
                }
                if self.spec_contains(t) {
                    let j = choose|j: int| 0 <= j < self.nodes@.len() && (#[trigger] self.nodes@[j]).0 == t;
                    let i2 = choose|i2: int| 0 <= i2 < old_self.nodes@.len() && old_self.nodes@[i2] == self.nodes@[j];
                    assert(old_self.nodes@[i2].0 == t);
                }
            }
            assert forall|t: State| t.turn >= root_state.turn && old(self).spec_contains(t) implies self.spec_node(t) == old(self).spec_node(t) by {
                let i2 = choose|i2: int| 0 <= i2 < old_self.nodes@.len() && (#[trigger] old_self.nodes@[i2]).0 == t;
                old_self.lemma_node_at(t, i2);
                assert(self.nodes@.contains(old_self.nodes@[i2]));
                let j = choose|j: int| 0 <= j < self.nodes@.len() && self.nodes@[j] == old_self.nodes@[i2];
                self.lemma_node_at(t, j);
            }
        }
    }
}

/// Whether one of the first `upto` path entries passes through `s`.
pub open spec fn spec_path_hit(path: Seq<(State, usize)>, upto: int, s: State) -> bool {
    exists|k: int| 0 <= k < upto && (#[trigger] path[k]).0 == s
}

/// What crediting one simulation of value `value` along `path` does to a
/// node table: on each node of the path, the chosen action's visit count
/// rises by one and its cumulative value by `value`, so its counts sum to
/// one more than before; priors and every node off the path stay as they
/// were.
pub open spec fn spec_backup_effect(pre: Seq<(State, Node)>, post: Seq<(State, Node)>, path: Seq<(State, usize)>, value: u64) -> bool {
    &&& post.len() == pre.len()
    &&& forall|i: int| 0 <= i < pre.len() ==> (#[trigger] post[i]).0 == pre[i].0
    &&& forall|i: int| 0 <= i < pre.len() && !spec_path_hit(path, path.len() as int, pre[i].0) ==> (#[trigger] post[i]).1 == pre[i].1
    &&& forall|i: int, k: int| 0 <= i < pre.len() && 0 <= k < path.len() && (#[trigger] pre[i]).0 == (#[trigger] path[k]).0 ==> {
        let a = path[k].1 as int;
        &&& post[i].1.n@ == pre[i].1.n@.update(a, (pre[i].1.n@[a] + 1) as u64)
        &&& post[i].1.w@ == pre[i].1.w@.update(a, (pre[i].1.w@[a] + value) as u64)
        &&& post[i].1.p@ == pre[i].1.p@
        &&& spec_sum_u64(post[i].1.n@) == spec_sum_u64(pre[i].1.n@) + 1
    }
}

/// The action a policy index stands for, as the search applies it.
pub open spec fn spec_action_at(a: int) -> Action {
    Action::spec_from_index(a)->Some_0
}

/// Whether `a` is an action the PUCT rule may pick at `s` for `node`: it
/// is admitted, and no admitted action scores higher.
pub open spec fn spec_chosen_by_puct(c_puct: u64, node: Node, s: State, a: int) -> bool {
    &&& spec_legal_index(s, a)
    &&& forall|b: int| spec_legal_index(s, b) ==> #[trigger] spec_puct_score(c_puct, node, b) <= spec_puct_score(c_puct, node, a)
}

/// Whether applying the entry's action to its state can yield `t`: the
/// engine relates them for some random outcomes.
pub open spec fn spec_step_to(mp: ModifierParameter, entry: (State, usize), t: State) -> bool {
    exists|success: bool, draw: u32| t == #[trigger] entry.0.spec_apply(mp, spec_action_at(entry.1 as int), success, draw)
}

/// Consecutive path entries are related by the game engine: each state is
/// what applying the previous entry's action to the previous state gives,
/// for some random outcomes.
pub open spec fn spec_path_steps(mp: ModifierParameter, path: Seq<(State, usize)>) -> bool {
    forall|k: int| 0 <= k < path.len() - 1 ==> spec_step_to(mp, path[k], (#[trigger] path[k + 1]).0)
}

/// A walk the search can make from `root` through the node table of
/// `pre`: it starts at the root, every visited state is stored, every
/// recorded action is a highest-scoring admitted action of its node, and
/// consecutive states are one engine step apart.
pub open spec fn spec_descent(pre: MCTSContext, mp: ModifierParameter, root: State, path: Seq<(State, usize)>) -> bool {
    &&& path.len() > 0 ==> path[0].0 == root
    &&& forall|k: int| 0 <= k < path.len() ==> pre.spec_contains((#[trigger] path[k]).0)
    &&& forall|k: int| 0 <= k < path.len() ==> spec_legal_index((#[trigger] path[k]).0, path[k].1 as int)
    &&& forall|k: int| 0 <= k < path.len() ==> spec_chosen_by_puct(pre.spec_c_puct(), pre.spec_node((#[trigger] path[k]).0), path[k].0, path[k].1 as int)
    &&& spec_path_steps(mp, path)
}

/// Law: a state the search admits any action from keeps its turn counter
/// at two or above afterwards, as long as the game goes on. On the
/// opening turn only the two openers are admitted, and both advance the
/// turn.
pub proof fn lemma_apply_turn_advance(s: State, mp: ModifierParameter, a: Action, success: bool, draw: u32)
    requires
        s.spec_check_action_ex(a),
        !s.spec_terminated(),
        1 <= s.turn < u32::MAX,
    ensures
        !s.spec_apply(mp, a, success, draw).spec_terminated() ==> s.spec_apply(mp, a, success, draw).turn >= 2,
{
    reveal(State::spec_apply);
    match a {
        Action::BasicSynthesis => {}
        Action::BasicTouch => {}
        Action::MastersMend => {}
        Action::HastyTouch => {}
        Action::RapidSynthesis => {}
        Action::Observe => {}
        Action::TricksOfTheTrade => {}
        Action::WasteNot => {}
        Action::Veneration => {}
        Action::StandardTouch => {}
        Action::GreatStrides => {}
        Action::Innovation => {}
        Action::FinalAppraisal => {}
        Action::WasteNot2 => {}
        Action::ByregotsBlessing => {}
        Action::PreciseTouch => {}
        Action::MuscleMemory => {}
        Action::CarefulObservation => {}
        Action::CarefulSynthesis => {}
        Action::Manipulation => {}
        Action::PrudentTouch => {}
        Action::FocusedSynthesis => {}
        Action::FocusedTouch => {}
        Action::Reflect => {}
        Action::PreparatoryTouch => {}
        Action::Groundwork => {}
        Action::DelicateSynthesis => {}
        Action::IntensiveSynthesis => {}
        Action::AdvancedTouch => {}
        Action::HeartAndSoul => {}
        Action::PrudentSynthesis => {}
        Action::TrainedFinesse => {}
    }
}

/// Law: away from the opening turn the search always admits the free
/// basic synthesis, so a descent can only run out of moves at an opening
/// root.
pub proof fn lemma_basic_synthesis_ex_legal(s: State)
    requires
        s.turn >= 2,
    ensures
        spec_legal_index(s, 0),
{
}

/// Extending a PUCT walk by one chosen step keeps it a PUCT walk, with
/// the applied result one engine step past the new end.
proof fn lemma_path_extend(
    pre: MCTSContext,
    mp: ModifierParameter,
    root: State,
    gpath: Seq<(State, usize)>,
    prev: State,
    a_idx: usize,
    ns: State,
    npath: Seq<(State, usize)>,
)
    requires
        npath == gpath.push((prev, a_idx)),
        gpath.len() == 0 ==> prev == root,
        gpath.len() > 0 ==> gpath[0].0 == root,
        forall|k: int| 0 <= k < gpath.len() ==> pre.spec_contains((#[trigger] gpath[k]).0),
        forall|k: int| 0 <= k < gpath.len() ==> spec_legal_index((#[trigger] gpath[k]).0, gpath[k].1 as int),
        forall|k: int| 0 <= k < gpath.len() ==> spec_chosen_by_puct(pre.spec_c_puct(), pre.spec_node((#[trigger] gpath[k]).0), gpath[k].0, gpath[k].1 as int),
        spec_path_steps(mp, gpath),
        gpath.len() > 0 ==> spec_step_to(mp, gpath.last(), prev),
        pre.spec_contains(prev),
        spec_legal_index(prev, a_idx as int),
        spec_chosen_by_puct(pre.spec_c_puct(), pre.spec_node(prev), prev, a_idx as int),
        spec_step_to(mp, (prev, a_idx), ns),
    ensures
        spec_descent(pre, mp, root, npath),
        npath.len() > 0,
        npath[0].0 == root,
        spec_step_to(mp, npath.last(), ns),
{
    assert(npath.last() == (prev, a_idx));
    assert forall|k: int| 0 <= k < npath.len() implies pre.spec_contains((#[trigger] npath[k]).0) by {
        if k < gpath.len() {
            assert(npath[k] == gpath[k]);
        } else {
            assert(npath[k] == (prev, a_idx));
        }
    }
    assert forall|k: int| 0 <= k < npath.len() implies spec_legal_index((#[trigger] npath[k]).0, npath[k].1 as int) by {
        if k < gpath.len() {
            assert(npath[k] == gpath[k]);
        } else {
            assert(npath[k] == (prev, a_idx));
        }
    }
    assert forall|k: int| 0 <= k < npath.len() implies spec_chosen_by_puct(pre.spec_c_puct(), pre.spec_node((#[trigger] npath[k]).0), npath[k].0, npath[k].1 as int) by {
        if k < gpath.len() {
            assert(npath[k] == gpath[k]);
        } else {
            assert(npath[k] == (prev, a_idx));
        }
    }
    assert forall|k: int| 0 <= k < npath.len() - 1 implies spec_step_to(mp, npath[k], (#[trigger] npath[k + 1]).0) by {
        if k < gpath.len() - 1 {
            assert(npath[k] == gpath[k]);
            assert(npath[k + 1] == gpath[k + 1]);
            assert(spec_step_to(mp, gpath[k], gpath[k + 1].0));
        } else {
            assert(npath[k] == gpath.last());
            assert(npath[k + 1].0 == prev);
            assert(spec_step_to(mp, gpath.last(), prev));
        }
    }
    if gpath.len() == 0 {
        assert(npath[0] == (prev, a_idx));
    } else {
        assert(npath[0] == gpath[0]);
    }
}

impl MCTSContext {
    /// Credit one finished simulation to every node on its path: the chosen
    /// action's visit count rises by one and its cumulative value by the
    /// simulation's value. Nothing else changes, so the visit counts of a
    /// node always sum to the number of backed-up simulations that passed
    /// through it.
    fn backup(&mut self, path: &Vec<(State, usize)>, value: u64)
        requires
            old(self).wf(),
            old(self).spec_pending() is None,
            old(self).total_backups < MAX_BACKUPS,
            value <= 1_000_000,
            forall|k: int| 0 <= k < path@.len() ==> old(self).spec_contains((#[trigger] path@[k]).0),
            forall|k: int| 0 <= k < path@.len() ==> spec_legal_index((#[trigger] path@[k]).0, path@[k].1 as int),
            forall|k1: int, k2: int| 0 <= k1 < k2 < path@.len() ==> (#[trigger] path@[k1]).0 != (#[trigger] path@[k2]).0,
        ensures
            final(self).wf(),
            final(self).spec_pending() is None,
            final(self).total_backups == old(self).total_backups + 1,
            final(self).c_puct == old(self).c_puct,
            final(self).eps == old(self).eps,
            final(self).nodes@.len() == old(self).nodes@.len(),
            spec_backup_effect(old(self).nodes@, final(self).nodes@, path@, value),
    {
        let ghost old_nodes = old(self).nodes@;
        let mut k: usize = 0;
        while k < path.len()
            invariant
                k <= path@.len(),
                old_nodes == old(self).nodes@,
                self.c_puct == old(self).c_puct,
                self.eps == old(self).eps,
                self.pending == old(self).pending,
                self.total_backups == old(self).total_backups,
                old(self).wf(),
                old(self).total_backups < MAX_BACKUPS,
                value <= 1_000_000,
                forall|k2: int| 0 <= k2 < path@.len() ==> old(self).spec_contains((#[trigger] path@[k2]).0),
                forall|k2: int| 0 <= k2 < path@.len() ==> spec_legal_index((#[trigger] path@[k2]).0, path@[k2].1 as int),
                forall|k1: int, k2: int| 0 <= k1 < k2 < path@.len() ==> (#[trigger] path@[k1]).0 != (#[trigger] path@[k2]).0,
                self.nodes@.len() == old_nodes.len(),
                forall|i: int| 0 <= i < self.nodes@.len() ==> (#[trigger] self.nodes@[i]).0 == old_nodes[i].0,
                forall|i: int| 0 <= i < self.nodes@.len() && !spec_path_hit(path@, k as int, old_nodes[i].0) ==> (#[trigger] self.nodes@[i]).1 == old_nodes[i].1,
                forall|i: int, k2: int| 0 <= i < self.nodes@.len() && 0 <= k2 < k && (#[trigger] old_nodes[i]).0 == (#[trigger] path@[k2]).0 ==> {
                    let a = path@[k2].1 as int;
                    &&& self.nodes@[i].1.n@ == old_nodes[i].1.n@.update(a, (old_nodes[i].1.n@[a] + 1) as u64)
                    &&& self.nodes@[i].1.w@ == old_nodes[i].1.w@.update(a, (old_nodes[i].1.w@[a] + value) as u64)
                    &&& self.nodes@[i].1.p@ == old_nodes[i].1.p@
                },
            decreases path@.len() - k,
        {
            let (ps, pa) = path[k];
            proof {
                assert(ps == path@[k as int].0);
                assert(pa == path@[k as int].1);
                assert(old(self).spec_contains(path@[k as int].0));
                assert(spec_legal_index(path@[k as int].0, path@[k as int].1 as int));
            }
            let idx_opt = self.find_node(&ps);
            proof {
                if idx_opt is None {
                    let i = choose|i: int| 0 <= i < old_nodes.len() && (#[trigger] old_nodes[i]).0 == ps;
                    assert(self.nodes@[i].0 == ps);
                    assert(false);
                }
            }
            let idx = idx_opt.unwrap();
            proof {
                assert(!spec_path_hit(path@, k as int, old_nodes[idx as int].0));
                assert(self.nodes@[idx as int].1 == old_nodes[idx as int].1);
                assert(spec_node_wf(old_nodes[idx as int].1, old(self).total_backups));
                assert(spec_legal_index(ps, pa as int));
            }
            let ghost pre_nodes = self.nodes@;
            let node_n = self.nodes[idx].1.n[pa];
            self.nodes[idx].1.n[pa] = node_n + 1;
            let node_w = self.nodes[idx].1.w[pa];
            assert(node_w + value <= (node_n + 1) * 1_000_000) by (nonlinear_arith)
                requires node_w <= node_n * 1_000_000, value <= 1_000_000;
            self.nodes[idx].1.w[pa] = node_w + value;
            proof {
                assert forall|i: int| 0 <= i < self.nodes@.len() && !spec_path_hit(path@, k + 1, old_nodes[i].0) implies (#[trigger] self.nodes@[i]).1 == old_nodes[i].1 by {
                    assert(i != idx);
                    assert(self.nodes@[i] == pre_nodes[i]);
                }
                assert forall|i: int, k2: int| 0 <= i < self.nodes@.len() && 0 <= k2 < k + 1 && (#[trigger] old_nodes[i]).0 == (#[trigger] path@[k2]).0 implies {
                    let a = path@[k2].1 as int;
                    &&& self.nodes@[i].1.n@ == old_nodes[i].1.n@.update(a, (old_nodes[i].1.n@[a] + 1) as u64)
                    &&& self.nodes@[i].1.w@ == old_nodes[i].1.w@.update(a, (old_nodes[i].1.w@[a] + value) as u64)
                    &&& self.nodes@[i].1.p@ == old_nodes[i].1.p@
                } by {
                    if k2 == k {
                        assert(i == idx) by {
                            if i != idx {
                                assert(old_nodes[i].0 == old_nodes[idx as int].0);
                                assert(false);
                            }
                        }
                        assert(self.nodes@[i].1.n@ =~= old_nodes[i].1.n@.update(pa as int, (old_nodes[i].1.n@[pa as int] + 1) as u64));
                        assert(self.nodes@[i].1.w@ =~= old_nodes[i].1.w@.update(pa as int, (old_nodes[i].1.w@[pa as int] + value) as u64));
                    } else {
                        assert(i != idx) by {
                            if i == idx {
                                assert(path@[k2].0 == path@[k as int].0);
                                assert(false);
                            }
                        }
                        assert(self.nodes@[i] == pre_nodes[i]);
                    }
                }
            }
            k += 1;
        }
        self.total_backups = self.total_backups + 1;
        proof {
            assert forall|i: int| 0 <= i < self.nodes@.len() implies spec_node_wf((#[trigger] self.nodes@[i]).1, self.total_backups) by {
                if spec_path_hit(path@, path@.len() as int, old_nodes[i].0) {
                    let k2 = choose|k2: int| 0 <= k2 < path@.len() && (#[trigger] path@[k2]).0 == old_nodes[i].0;
                    assert(old_nodes[i].0 == path@[k2].0);
                    assert(spec_node_wf(old_nodes[i].1, old(self).total_backups));
                    let a = path@[k2].1 as int;
                    assert forall|b: int| 0 <= b < 32 implies #[trigger] self.nodes@[i].1.w@[b] <= self.nodes@[i].1.n@[b] * 1_000_000 by {
                        if b != a {
                            assert(self.nodes@[i].1.w@[b] == old_nodes[i].1.w@[b]);
                        }
                    }
                } else {
                    assert(self.nodes@[i].1 == old_nodes[i].1);
                }
            }
            assert forall|i: int, a: int| 0 <= i < self.nodes@.len() && 0 <= a < 32 && #[trigger] self.nodes@[i].1.n@[a] > 0 implies spec_legal_index(self.nodes@[i].0, a) by {
                if spec_path_hit(path@, path@.len() as int, old_nodes[i].0) {
                    let k2 = choose|k2: int| 0 <= k2 < path@.len() && (#[trigger] path@[k2]).0 == old_nodes[i].0;
                    if a != path@[k2].1 as int {
                        assert(self.nodes@[i].1.n@[a] == old_nodes[i].1.n@[a]);
                    }
                } else {
                    assert(self.nodes@[i].1 == old_nodes[i].1);
                }
            }
            assert forall|i: int, k: int| 0 <= i < self.nodes@.len() && 0 <= k < path@.len() && (#[trigger] old_nodes[i]).0 == (#[trigger] path@[k]).0 implies spec_sum_u64(self.nodes@[i].1.n@) == spec_sum_u64(old_nodes[i].1.n@) + 1 by {
                let a = path@[k].1 as int;
                assert(spec_legal_index(path@[k].0, a));
                assert(spec_node_wf(old_nodes[i].1, old(self).total_backups));
                assert(self.nodes@[i].1.n@ == old_nodes[i].1.n@.update(a, (old_nodes[i].1.n@[a] + 1) as u64));
                lemma_sum_update(old_nodes[i].1.n@, a, (old_nodes[i].1.n@[a] + 1) as u64);
            }
        }
    }
}

/// A plain copy of a counter vector.
fn copy_counts(v: &Vec<u64>) -> (r: Vec<u64>)
    ensures
        r@ == v@,
{
    let mut r: Vec<u64> = Vec::new();
    let mut i: usize = 0;
    while i < v.len()
        invariant
            i <= v@.len(),
            r@ =~= v@.take(i as int),
        decreases v@.len() - i,
    {
        r.push(v[i]);
        i += 1;
    }
    proof {
        assert(r@ =~= v@);
    }
    r
}

impl MCTSContext {
    /// Blend root noise into the stored priors of `s`: at each admitted
    /// action, the prior becomes `((1e6 - eps) * prior + eps * noise) / 1e6`;
    /// priors of refused actions, and all counts, stay as they were. With a
    /// zero noise weight nothing changes at all.
    pub fn add_dirichlet_noise(&mut self, s: &State, noise: &Vec<u64>)
        requires
            old(self).wf(),
            old(self).spec_contains(*s),
            noise@.len() == 32,
            forall|a: int| 0 <= a < 32 ==> #[trigger] noise@[a] <= 1_000_000,
            spec_sum_u64(noise@) <= 1_000_000,
        ensures
            final(self).wf(),
            final(self).spec_pending() == old(self).spec_pending(),
            final(self).total_backups == old(self).total_backups,
            final(self).c_puct == old(self).c_puct,
            final(self).eps == old(self).eps,
            final(self).nodes@.len() == old(self).nodes@.len(),
            forall|i: int| 0 <= i < final(self).nodes@.len() ==> (#[trigger] final(self).nodes@[i]).0 == old(self).nodes@[i].0,
            forall|i: int| 0 <= i < final(self).nodes@.len() && old(self).nodes@[i].0 != *s ==> (#[trigger] final(self).nodes@[i]).1 == old(self).nodes@[i].1,
            forall|i: int| 0 <= i < final(self).nodes@.len() && old(self).nodes@[i].0 == *s ==> {
                &&& (#[trigger] final(self).nodes@[i]).1.n@ == old(self).nodes@[i].1.n@
                &&& final(self).nodes@[i].1.w@ == old(self).nodes@[i].1.w@
                &&& final(self).nodes@[i].1.p@.len() == 32
                &&& forall|a: int| 0 <= a < 32 ==> #[trigger] final(self).nodes@[i].1.p@[a] == (
                    if old(self).eps > 0 && spec_legal_index(*s, a) {
                        (((1_000_000 - old(self).eps) * old(self).nodes@[i].1.p@[a] + old(self).eps * noise@[a]) / 1_000_000) as u64
                    } else {
                        old(self).nodes@[i].1.p@[a]
                    })
            },
    {
        let ghost old_nodes = old(self).nodes@;
        if self.eps == 0 {
            return;
        }
        let idx_opt = self.find_node(s);
        proof {
            if idx_opt is None {
                let i = choose|i: int| 0 <= i < old_nodes.len() && (#[trigger] old_nodes[i]).0 == *s;
                assert(self.nodes@[i].0 == *s);
                assert(false);
            }
        }
        let idx = idx_opt.unwrap();
        let eps = self.eps;
        let mut a: usize = 0;
        while a < 32
            invariant
                a <= 32,
                0 < eps <= 1_000_000,
                eps == old(self).eps,
                idx < old_nodes.len(),
                old_nodes == old(self).nodes@,
                old_nodes[idx as int].0 == *s,
                old(self).wf(),
                noise@.len() == 32,
                forall|b: int| 0 <= b < 32 ==> #[trigger] noise@[b] <= 1_000_000,
                self.c_puct == old(self).c_puct,
                self.eps == old(self).eps,
                self.pending == old(self).pending,
                self.total_backups == old(self).total_backups,
                self.nodes@.len() == old_nodes.len(),
                forall|i: int| 0 <= i < self.nodes@.len() && i != idx ==> #[trigger] self.nodes@[i] == old_nodes[i],
                self.nodes@[idx as int].0 == old_nodes[idx as int].0,
                self.nodes@[idx as int].1.n@ == old_nodes[idx as int].1.n@,
                self.nodes@[idx as int].1.w@ == old_nodes[idx as int].1.w@,
                self.nodes@[idx as int].1.p@.len() == 32,
                forall|b: int| 0 <= b < a ==> #[trigger] self.nodes@[idx as int].1.p@[b] == (
                    if spec_legal_index(*s, b) {
                        (((1_000_000 - eps) * old_nodes[idx as int].1.p@[b] + eps * noise@[b]) / 1_000_000) as u64
                    } else {
                        old_nodes[idx as int].1.p@[b]
                    }),
                forall|b: int| a <= b < 32 ==> #[trigger] self.nodes@[idx as int].1.p@[b] == old_nodes[idx as int].1.p@[b],
            decreases 32 - a,
        {
            let act = Action::from_index(a).unwrap();
            let state_copy = self.nodes[idx].0;
            if state_copy.check_action_ex(&act) {
                let p_old: u64 = self.nodes[idx].1.p[a];
                proof {
                    assert(p_old == old_nodes[idx as int].1.p@[a as int]);
                    assert(spec_node_wf(old_nodes[idx as int].1, old(self).total_backups));
                    assert(p_old <= 1_000_000);
                    assert((1_000_000 - eps) * p_old <= 1_000_000 * 1_000_000) by (nonlinear_arith)
                        requires p_old <= 1_000_000, 0 < eps <= 1_000_000;
                    assert(eps * noise@[a as int] <= 1_000_000 * 1_000_000) by (nonlinear_arith)
                        requires noise@[a as int] <= 1_000_000, eps <= 1_000_000;
                }
                let mixed: u64 = ((1_000_000 - eps) * p_old + eps * noise[a]) / 1_000_000;
                proof {
                    assert(mixed <= 2_000_000_000_000u64 / 1_000_000) by (nonlinear_arith)
                        requires mixed == ((1_000_000 - eps) * p_old + eps * noise@[a as int]) / 1_000_000, (1_000_000 - eps) * p_old + eps * noise@[a as int] <= 2_000_000_000_000u64;
                }
                self.nodes[idx].1.p[a] = mixed;
            }
            a += 1;
        }
        proof {
            assert forall|i: int| 0 <= i < self.nodes@.len() implies spec_node_wf((#[trigger] self.nodes@[i]).1, self.total_backups) by {
                if i != idx {
                    assert(self.nodes@[i] == old_nodes[i]);
                } else {
                    assert forall|b: int| 0 <= b < 32 implies #[trigger] self.nodes@[i].1.p@[b] <= 1_000_000 by {
                        if spec_legal_index(*s, b) {
                            let po = old_nodes[idx as int].1.p@[b];
                            assert(po <= 1_000_000);
                            assert((((1_000_000 - eps) * po + eps * noise@[b]) / 1_000_000) <= 1_000_000) by (nonlinear_arith)
                                requires po <= 1_000_000, noise@[b] <= 1_000_000, 0 < eps <= 1_000_000;
                        }
                    }
                }
            }
            assert forall|i: int, b: int| 0 <= i < self.nodes@.len() && 0 <= b < 32 && #[trigger] self.nodes@[i].1.n@[b] > 0 implies spec_legal_index(self.nodes@[i].0, b) by {
                if i != idx {
                    assert(self.nodes@[i] == old_nodes[i]);
                } else {
                    assert(self.nodes@[i].1.n@ == old_nodes[i].1.n@);
                }
            }
            if self.pending is Some {
                let ghost pp = self.pending->Some_0;
                {
                    assert forall|k: int| 0 <= k < pp.0@.len() implies self.spec_contains((#[trigger] pp.0@[k]).0) by {
                        assert(old(self).spec_contains(pp.0@[k].0));
                        let i = choose|i: int| 0 <= i < old_nodes.len() && (#[trigger] old_nodes[i]).0 == pp.0@[k].0;
                        assert(self.nodes@[i].0 == pp.0@[k].0);
                    }
                    if self.spec_contains(pp.1) {
                        let i = choose|i: int| 0 <= i < self.nodes@.len() && (#[trigger] self.nodes@[i]).0 == pp.1;
                        assert(old_nodes[i].0 == pp.1);
                        assert(false);
                    }
                }
            }
        }
    }

    /// The policy the search returns for a root: the raw visit counts of
    /// its node. The normalized policy is each count over the sum of all
    /// 32, so it sums to exactly one; an action the search refuses at the
    /// root was never visited and gets exactly zero.
    pub fn get_mcts_policy(&self, root: &State) -> (r: Vec<u64>)
        requires
            self.wf(),
            self.spec_contains(*root),
        ensures
            r@ == self.spec_node(*root).n@,
            r@.len() == 32,
            forall|a: int| 0 <= a < 32 && !spec_legal_index(*root, a) ==> r@[a] == 0,
            forall|a: int| 0 <= a < 32 ==> #[trigger] r@[a] <= MAX_BACKUPS,
    {
        let idx_opt = self.find_node(root);
        proof {
            if idx_opt is None {
                let i = choose|i: int| 0 <= i < self.nodes@.len() && (#[trigger] self.nodes@[i]).0 == *root;
                assert(false);
            }
        }
        let idx = idx_opt.unwrap();
        proof {
            self.lemma_node_at(*root, idx as int);
        }
        let r = copy_counts(&self.nodes[idx].1.n);
        r
    }

    /// The PUCT choice at a stored node: one of the highest-scoring
    /// admitted actions, ties broken by the generator; `None` exactly when
    /// the search admits nothing at `s`.
    fn select_puct_action(&self, idx: usize, s: &State, rng: &mut xorshift::Xorshift128) -> (r: Option<usize>)
        requires
            self.wf(),
            idx < self.nodes@.len(),
            self.nodes@[idx as int].0 == *s,
        ensures
            match r {
                Some(a) => a < 32 && spec_legal_index(*s, a as int)
                    && spec_chosen_by_puct(self.spec_c_puct(), self.spec_node(*s), *s, a as int),
                None => forall|b: int| !spec_legal_index(*s, b),
            },
    {
        proof {
            self.lemma_node_at(*s, idx as int);
            assert(spec_node_wf(self.nodes@[idx as int].1, MAX_BACKUPS)) by {
                assert(spec_node_wf(self.nodes@[idx as int].1, self.total_backups));
                assert forall|b: int| 0 <= b < 32 implies #[trigger] self.nodes@[idx as int].1.n@[b] <= MAX_BACKUPS by {}
            }
        }
        let scores = get_scores(self.c_puct, s, &self.nodes[idx].1);
        let indices = select_max_indices(&scores);
        if indices.len() == 0 {
            proof {
                assert forall|b: int| !spec_legal_index(*s, b) by {
                    if spec_legal_index(*s, b) {
                        assert(scores@[b] is Some);
                        assert(false);
                    }
                }
            }
            return None;
        }
        let d = rng_next_u32(rng) as usize % indices.len();
        let a_idx = indices[d];
        proof {
            assert(spec_is_max(scores@, a_idx as int));
            assert(spec_legal_index(*s, a_idx as int));
            assert forall|b: int| spec_legal_index(*s, b) implies #[trigger] spec_puct_score(self.c_puct, self.spec_node(*s), b) <= spec_puct_score(self.c_puct, self.spec_node(*s), a_idx as int) by {
                assert(scores@[b] is Some);
                assert(scores@[b]->0 == spec_puct_score(self.c_puct, self.spec_node(*s), b));
                assert(scores@[a_idx as int]->0 == spec_puct_score(self.c_puct, self.spec_node(*s), a_idx as int));
            }
        }
        Some(a_idx)
    }

    /// Start one simulation from a live root the search has expanded:
    /// descend by the PUCT rule, applying each chosen action through the
    /// game engine. A terminal state ends the simulation at once, its
    /// reward backed up along the path; an unexpanded state is handed back
    /// for network evaluation, the path kept until `finish_simulation`.
    #[verifier::spinoff_prover]
    #[verifier::rlimit(100)]
    pub fn start_simulation(&mut self, root: &State, modifier: &mut Modifier) -> (r: Result<SimulationStep, SearchError>)
        requires
            old(self).wf(),
            old(self).spec_pending() is None,
            old(self).total_backups < MAX_BACKUPS,
            old(modifier).mod_param.valid(),
            root.wf(old(modifier).mod_param),
            !root.spec_terminated(),
        ensures
            final(self).wf(),
            final(modifier).mod_param == old(modifier).mod_param,
            final(self).c_puct == old(self).c_puct,
            final(self).eps == old(self).eps,
            // An unexpanded root is handed back for evaluation at once,
            // before any random draw.
            !old(self).spec_contains(*root) ==> r == Ok::<SimulationStep, SearchError>(SimulationStep::Expand(*root)),
            // The search runs out of moves exactly when the stored root
            // itself admits none.
            (old(self).spec_contains(*root) && (forall|a: int| !spec_legal_index(*root, a)))
                ==> r == Err::<SimulationStep, SearchError>(SearchError::NoLegalAction),
            r == Err::<SimulationStep, SearchError>(SearchError::NoLegalAction)
                ==> old(self).spec_contains(*root) && (forall|a: int| !spec_legal_index(*root, a)),
            // The overflow escape is tied to its cause: it happens only
            // when a PUCT walk from the root reached a stored state at the
            // integer limits of the engine.
            r == Err::<SimulationStep, SearchError>(SearchError::StateOverflow) ==> exists|path: Seq<(State, usize)>| {
                &&& #[trigger] spec_descent(*old(self), old(modifier).mod_param, *root, path)
                &&& exists|t: State| {
                    &&& #[trigger] old(self).spec_contains(t)
                    &&& (path.len() == 0 ==> t == *root)
                    &&& (path.len() > 0 ==> spec_step_to(old(modifier).mod_param, path.last(), t))
                    &&& !(t.turn < u32::MAX && t.time + 3 <= u32::MAX)
                }
            },
            match r {
                Ok(SimulationStep::Expand(leaf)) => {
                    &&& final(self).spec_pending() is Some
                    &&& final(self).spec_pending()->Some_0.1 == leaf
                    &&& final(self).nodes@ == old(self).nodes@
                    &&& final(self).total_backups == old(self).total_backups
                    &&& !final(self).spec_contains(leaf)
                    // The stored path is a PUCT walk from the root, and the
                    // leaf lies one engine step past its end.
                    &&& spec_descent(*old(self), old(modifier).mod_param, *root, final(self).spec_pending()->Some_0.0@)
                    &&& (final(self).spec_pending()->Some_0.0@.len() == 0 ==> leaf == *root)
                    &&& (final(self).spec_pending()->Some_0.0@.len() > 0
                        ==> spec_step_to(old(modifier).mod_param, final(self).spec_pending()->Some_0.0@.last(), leaf))
                },
                Ok(SimulationStep::Done) => {
                    &&& final(self).spec_pending() is None
                    &&& final(self).total_backups == old(self).total_backups + 1
                    // The simulation reached a terminal state whose reward
                    // was credited along a PUCT walk from the root; in
                    // particular the root's own visit counts now sum to one
                    // more than before.
                    &&& old(self).spec_contains(*root)
                    &&& final(self).spec_contains(*root)
                    &&& spec_sum_u64(final(self).spec_node(*root).n@) == spec_sum_u64(old(self).spec_node(*root).n@) + 1
                    &&& exists|path: Seq<(State, usize)>, value: u64| {
                        &&& #[trigger] spec_backup_effect(old(self).nodes@, final(self).nodes@, path, value)
                        &&& spec_descent(*old(self), old(modifier).mod_param, *root, path)
                        &&& path.len() >= 1
                        &&& value <= 1_000_000
                        &&& exists|t: State| {
                            &&& #[trigger] spec_step_to(old(modifier).mod_param, path.last(), t)
                            &&& t.spec_terminated()
                            &&& value == spec_reward(t, old(modifier).mod_param)
                        }
                    }
                },
                Err(_) => *final(self) == *old(self),
            },
    {
        let mp = modifier.mod_param;
        let mut s: State = *root;
        let mut path: Vec<(State, usize)> = Vec::new();
        loop
            invariant
                *self == *old(self),
                old(self).wf(),
                old(self).spec_pending() is None,
                old(self).total_backups < MAX_BACKUPS,
                modifier.mod_param == mp,
                mp == old(modifier).mod_param,
                mp.valid(),
                s.wf(mp),
                !s.spec_terminated(),
                path@.len() == 0 ==> s == *root,
                path@.len() > 0 ==> path@[0].0 == *root,
                path@.len() > 0 ==> s.turn >= 2,
                path@.len() > 0 ==> old(self).spec_contains(*root),
                forall|k: int| 0 <= k < path@.len() ==> self.spec_contains((#[trigger] path@[k]).0),
                forall|k: int| 0 <= k < path@.len() ==> spec_legal_index((#[trigger] path@[k]).0, path@[k].1 as int),
                forall|k: int| 0 <= k < path@.len() ==> spec_chosen_by_puct(old(self).spec_c_puct(), old(self).spec_node((#[trigger] path@[k]).0), path@[k].0, path@[k].1 as int),
                spec_path_steps(mp, path@),
                path@.len() > 0 ==> spec_step_to(mp, path@.last(), s),
                forall|k: int| 0 <= k < path@.len() ==> (#[trigger] path@[k]).0.spec_measure() > s.spec_measure(),
                forall|k1: int, k2: int| 0 <= k1 < k2 < path@.len() ==> (#[trigger] path@[k1]).0.spec_measure() > (#[trigger] path@[k2]).0.spec_measure(),
            decreases s.spec_measure(),
        {
            let idx_opt = self.find_node(&s);
            match idx_opt {
                None => {
                    let ghost gpath = path@;
                    self.pending = Some((path, s));
                    proof {
                        assert(self.pending->Some_0.0@ == gpath);
                        assert forall|k1: int, k2: int| 0 <= k1 < k2 < self.pending->Some_0.0@.len() implies (#[trigger] self.pending->Some_0.0@[k1]).0 != (#[trigger] self.pending->Some_0.0@[k2]).0 by {
                            assert(self.pending->Some_0.0@[k1].0.spec_measure() > self.pending->Some_0.0@[k2].0.spec_measure());
                        }
                        assert(spec_descent(*old(self), mp, *root, gpath));
                    }
                    return Ok(SimulationStep::Expand(s));
                },
                Some(idx) => {
                    let choice = self.select_puct_action(idx, &s, &mut modifier.rng);
                    let a_idx = match choice {
                        Some(a) => a,
                        None => {
                            proof {
                                // Away from the opening turn the search
                                // always admits the free synthesis, so only
                                // an opening root can run dry.
                                if path@.len() > 0 {
                                    lemma_basic_synthesis_ex_legal(s);
                                    assert(false);
                                }
                                assert(s == *root);
                            }
                            return Err(SearchError::NoLegalAction);
                        },
                    };
                    proof {
                        assert(spec_legal_index(s, a_idx as int));
                        assert(spec_chosen_by_puct(self.c_puct, self.spec_node(s), s, a_idx as int));
                    }
                    let action = Action::from_index(a_idx).unwrap();
                    proof {
                        lemma_check_action_ex_implies_check(s, action);
                        assert(action == spec_action_at(a_idx as int));
                        assert(spec_legal_index(self.nodes@[idx as int].0, a_idx as int));
                    }
                    if !(s.turn < 0xFFFF_FFFFu32 && s.time <= 0xFFFF_FFFCu32) {
                        proof {
                            assert(spec_descent(*old(self), mp, *root, path@));
                            assert(self.nodes@[idx as int].0 == s);
                            assert(old(self).spec_contains(s));
                        }
                        return Err(SearchError::StateOverflow);
                    }
                    let ns = s.run_action(modifier, &action);
                    let ghost prev = s;
                    let ghost gpath_before = path@;
                    path.push((s, a_idx));
                    proof {
                        let (success, draw) = choose|success: bool, draw: u32| ns == prev.spec_apply(mp, action, success, draw);
                        crate::logic::lemma_apply_preserves_wf(prev, mp, action, success, draw);
                        crate::logic::lemma_apply_decreases_measure(prev, mp, action, success, draw);
                        lemma_apply_turn_advance(prev, mp, action, success, draw);
                        assert(self.spec_contains(prev)) by {
                            assert(self.nodes@[idx as int].0 == prev);
                        }
                        assert(spec_chosen_by_puct(old(self).spec_c_puct(), old(self).spec_node(prev), prev, a_idx as int));
                        assert(spec_step_to(mp, (prev, a_idx), ns)) by {
                            assert(ns == (prev, a_idx).0.spec_apply(mp, spec_action_at((prev, a_idx).1 as int), success, draw));
                        }
                        lemma_path_extend(*old(self), mp, *root, gpath_before, prev, a_idx, ns, path@);
                    }
                    if ns.is_terminated() {
                        let reward = get_reward(&ns, &mp);
                        proof {
                            assert forall|k1: int, k2: int| 0 <= k1 < k2 < path@.len() implies (#[trigger] path@[k1]).0 != (#[trigger] path@[k2]).0 by {
                                assert(path@[k1].0.spec_measure() > path@[k2].0.spec_measure());
                            }
                        }
                        self.backup(&path, reward);
                        proof {
                            assert(spec_backup_effect(old(self).nodes@, self.nodes@, path@, reward));
                            assert(spec_descent(*old(self), mp, *root, path@));
                            assert(old(self).spec_contains(*root));
                            let i_root = choose|i: int| 0 <= i < old(self).nodes@.len() && (#[trigger] old(self).nodes@[i]).0 == *root;
                            old(self).lemma_node_at(*root, i_root);
                            assert(old(self).nodes@[i_root].0 == path@[0].0);
                            assert(spec_sum_u64(self.nodes@[i_root].1.n@) == spec_sum_u64(old(self).nodes@[i_root].1.n@) + 1);
                            assert(self.nodes@[i_root].0 == *root);
                            self.lemma_node_at(*root, i_root);
                            assert(spec_step_to(mp, path@.last(), ns));
                            assert(reward == spec_reward(ns, mp));
                        }
                        return Ok(SimulationStep::Done);
                    }
                    s = ns;
                },
            }
        }
    }

    /// Feed the network's answer for the pending leaf back into the tree:
    /// the leaf is expanded with the given priors, and the value is backed
    /// up along the stored path, which is then released.
    pub fn finish_simulation(&mut self, nn_policy: &Vec<u64>, value: u64)
        requires
            old(self).wf(),
            old(self).spec_pending() is Some,
            old(self).total_backups < MAX_BACKUPS,
            nn_policy@.len() == 32,
            forall|a: int| 0 <= a < 32 ==> #[trigger] nn_policy@[a] <= 1_000_000,
            spec_sum_u64(nn_policy@) <= 1_000_000,
            value <= 1_000_000,
        ensures
            final(self).wf(),
            final(self).spec_pending() is None,
            final(self).total_backups == old(self).total_backups + 1,
            final(self).c_puct == old(self).c_puct,
            final(self).eps == old(self).eps,
            final(self).spec_contains(old(self).spec_pending()->Some_0.1),
            final(self).spec_node(old(self).spec_pending()->Some_0.1).p@ == nn_policy@,
            // The leaf is stored as the last entry, freshly expanded: its
            // counts are all zero even after the backup, since the leaf is
            // never part of its own path.
            final(self).nodes@.len() == old(self).nodes@.len() + 1,
            final(self).nodes@.last().0 == old(self).spec_pending()->Some_0.1,
            final(self).nodes@.last().1.n@ =~= Seq::new(32, |a: int| 0u64),
            final(self).nodes@.last().1.w@ =~= Seq::new(32, |a: int| 0u64),
            final(self).nodes@.last().1.p@ == nn_policy@,
            // The backup itself: every node on the stored path is credited
            // with this one simulation, everything else is untouched.
            spec_backup_effect(
                old(self).nodes@,
                final(self).nodes@.subrange(0, old(self).nodes@.len() as int),
                old(self).spec_pending()->Some_0.0@,
                value,
            ),
    {
        let mut taken: Option<(Vec<(State, usize)>, State)> = None;
        core::mem::swap(&mut self.pending, &mut taken);
        let (path, leaf) = match taken {
            Some(pp) => pp,
            None => { proof { assert(false); } unreached() },
        };
        self.expand(&leaf, nn_policy);
        let ghost mid = *self;
        let ghost iw = choose|i: int| 0 <= i < mid.nodes@.len() && (#[trigger] mid.nodes@[i]).0 == leaf;
        proof {
            assert(mid.spec_contains(leaf));
            assert(mid.nodes@[iw].0 == leaf);
            mid.lemma_node_at(leaf, iw);
            assert forall|k: int| 0 <= k < path@.len() implies self.spec_contains((#[trigger] path@[k]).0) by {
                assert(old(self).spec_contains(path@[k].0));
            }
        }
        self.backup(&path, value);
        proof {
            assert(old(self).spec_pending()->Some_0.1 == leaf);
            assert(self.nodes@[iw].0 == leaf);
            self.lemma_node_at(leaf, iw);
            assert(!spec_path_hit(path@, path@.len() as int, leaf)) by {
                if spec_path_hit(path@, path@.len() as int, leaf) {
                    let k = choose|k: int| 0 <= k < path@.len() && (#[trigger] path@[k]).0 == leaf;
                    assert(old(self).spec_contains(path@[k].0));
                    assert(false);
                }
            }
            assert(self.nodes@[iw].1 == mid.nodes@[iw].1);
            assert(iw == old(self).nodes@.len() as int);
            assert(self.nodes@.last() == self.nodes@[iw]);
            assert(mid.nodes@[iw].1.n@ =~= Seq::new(32, |a: int| 0u64));
            assert(mid.nodes@[iw].1.w@ =~= Seq::new(32, |a: int| 0u64));
            let prefix = self.nodes@.subrange(0, old(self).nodes@.len() as int);
            assert forall|i: int| 0 <= i < old(self).nodes@.len() implies (#[trigger] prefix[i]).0 == old(self).nodes@[i].0 by {
                assert(prefix[i] == self.nodes@[i]);
                assert(mid.nodes@[i] == old(self).nodes@[i]);
            }
            assert forall|i: int| 0 <= i < old(self).nodes@.len() && !spec_path_hit(path@, path@.len() as int, old(self).nodes@[i].0) implies (#[trigger] prefix[i]).1 == old(self).nodes@[i].1 by {
                assert(mid.nodes@[i] == old(self).nodes@[i]);
                assert(!spec_path_hit(path@, path@.len() as int, mid.nodes@[i].0));
                assert(self.nodes@[i].1 == mid.nodes@[i].1);
            }
            assert forall|i: int, k: int| 0 <= i < old(self).nodes@.len() && 0 <= k < path@.len() && (#[trigger] old(self).nodes@[i]).0 == (#[trigger] path@[k]).0 implies {
                let a = path@[k].1 as int;
                &&& prefix[i].1.n@ == old(self).nodes@[i].1.n@.update(a, (old(self).nodes@[i].1.n@[a] + 1) as u64)
                &&& prefix[i].1.w@ == old(self).nodes@[i].1.w@.update(a, (old(self).nodes@[i].1.w@[a] + value) as u64)
                &&& prefix[i].1.p@ == old(self).nodes@[i].1.p@
                &&& spec_sum_u64(prefix[i].1.n@) == spec_sum_u64(old(self).nodes@[i].1.n@) + 1
            } by {
                assert(mid.nodes@[i] == old(self).nodes@[i]);
                assert(prefix[i] == self.nodes@[i]);
            }
            assert(spec_backup_effect(old(self).nodes@, prefix, path@, value));
        }
    }
}

/// Draw an action according to a visit-count policy: action `a` comes out
/// with probability `policy[a] / sum(policy)`. The drawn action always has
/// a nonzero count, and so was admitted by the search at the root.
pub fn select_action_weighted(policy: &Vec<u64>, rng: &mut xorshift::Xorshift128) -> (r: Action)
    requires
        policy@.len() == 32,
        forall|a: int| 0 <= a < 32 ==> #[trigger] policy@[a] <= MAX_BACKUPS,
        spec_sum_u64(policy@) > 0,
    ensures
        policy@[r.spec_index()] > 0,
{
    let mut total: u64 = 0;
    let mut i: usize = 0;
    while i < 32
        invariant
            i <= 32,
            policy@.len() == 32,
            forall|a: int| 0 <= a < 32 ==> #[trigger] policy@[a] <= MAX_BACKUPS,
            total == spec_sum_u64(policy@.take(i as int)),
            total <= i * (MAX_BACKUPS as int),
        decreases 32 - i,
    {
        proof {
            lemma_sum_take_step(policy@, i as int);
        }
        total = total + policy[i];
        i += 1;
    }
    proof {
        assert(policy@.take(32) =~= policy@);
    }
    let hi = rng_next_u32(rng) as u64;
    let lo = rng_next_u32(rng) as u64;
    let t: u64 = ((hi << 32) | lo) % total;
    let mut cum: u64 = 0;
    let mut a: usize = 0;
    while a < 32
        invariant
            a <= 32,
            policy@.len() == 32,
            forall|b: int| 0 <= b < 32 ==> #[trigger] policy@[b] <= MAX_BACKUPS,
            cum == spec_sum_u64(policy@.take(a as int)),
            cum <= a * (MAX_BACKUPS as int),
            t >= cum,
            t < spec_sum_u64(policy@),
        decreases 32 - a,
    {
        proof {
            lemma_sum_take_step(policy@, a as int);
        }
        let next: u64 = cum + policy[a];
        if t < next {
            let act = Action::from_index(a).unwrap();
            proof {
                crate::logic::lemma_action_index_bijection();
                assert(policy@[a as int] > 0);
            }
            return act;
        }
        cum = next;
        a += 1;
    }
    proof {
        assert(policy@.take(32) =~= policy@);
        assert(false);
    }
    unreached()
}

/// Pick the most-visited action, breaking ties uniformly at random.
pub fn select_action_greedy(policy: &Vec<u64>, rng: &mut xorshift::Xorshift128) -> (r: Action)
    requires
        policy@.len() == 32,
    ensures
        forall|b: int| 0 <= b < 32 ==> #[trigger] policy@[b] <= policy@[r.spec_index()],
{
    let mut scores: Vec<Option<u64>> = Vec::new();
    let mut i: usize = 0;
    while i < 32
        invariant
            i <= 32,
            policy@.len() == 32,
            scores@.len() == i,
            forall|b: int| 0 <= b < i ==> #[trigger] scores@[b] == Some(policy@[b]),
        decreases 32 - i,
    {
        scores.push(Some(policy[i]));
        i += 1;
    }
    proof {
        assert(scores@[0] == Some(policy@[0]));
    }
    let idx = choose_max_index(&scores, rng);
    let act = Action::from_index(idx).unwrap();
    proof {
        crate::logic::lemma_action_index_bijection();
        assert forall|b: int| 0 <= b < 32 implies #[trigger] policy@[b] <= policy@[act.spec_index()] by {
            assert(scores@[b] == Some(policy@[b]));
            assert(scores@[idx as int] == Some(policy@[idx as int]));
        }
    }
    act
}

/// The action an episode takes for a policy: weighted by the visit counts
/// while the turn is before the greedy threshold, the most-visited action
/// from then on.
pub fn select_action(policy: &Vec<u64>, turn: u32, start_greedy_turn: u32, rng: &mut xorshift::Xorshift128) -> (r: Action)
    requires
        policy@.len() == 32,
        forall|a: int| 0 <= a < 32 ==> #[trigger] policy@[a] <= MAX_BACKUPS,
        spec_sum_u64(policy@) > 0,
    ensures
        turn < start_greedy_turn ==> policy@[r.spec_index()] > 0,
        turn >= start_greedy_turn ==> forall|b: int| 0 <= b < 32 ==> #[trigger] policy@[b] <= policy@[r.spec_index()],
{
    if turn < start_greedy_turn {
        select_action_weighted(policy, rng)
    } else {
        select_action_greedy(policy, rng)
    }
}

} // verus!
