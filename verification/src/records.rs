//! Finished episodes, and the aggregation the evaluation writer performs.

use vstd::prelude::*;
use crate::logic::{Action, State};

verus! {

/// One decision of an episode: the action taken, the state it was taken
/// in, and the search policy (visit counts) it was drawn from.
pub struct Sample {
    pub action: Action,
    pub state: State,
    pub mcts_policy: Vec<u64>,
}

/// One finished episode: its samples in play order, the identifier of the
/// champion network that produced it, the terminal state, and the terminal
/// reward in parts per million.
pub struct Record {
    pub samples: Vec<Sample>,
    pub name: String,
    pub last_state: State,
    pub reward: u64,
}

/// Total reward of the records named `name`.
pub open spec fn spec_total_reward(rs: Seq<Record>, name: Seq<char>) -> int
    decreases rs.len(),
{
    if rs.len() == 0 {
        0
    } else {
        spec_total_reward(rs.drop_last(), name) + if rs.last().name@ == name { rs.last().reward as int } else { 0 }
    }
}

/// How many records are named `name`.
pub open spec fn spec_name_count(rs: Seq<Record>, name: Seq<char>) -> int
    decreases rs.len(),
{
    if rs.len() == 0 {
        0
    } else {
        spec_name_count(rs.drop_last(), name) + if rs.last().name@ == name { 1int } else { 0 }
    }
}

proof fn lemma_aggregate_take_step(rs: Seq<Record>, name: Seq<char>, i: int)
    requires
        0 <= i < rs.len(),
    ensures
        spec_total_reward(rs.take(i + 1), name) == spec_total_reward(rs.take(i), name) + if rs[i].name@ == name { rs[i].reward as int } else { 0 },
        spec_name_count(rs.take(i + 1), name) == spec_name_count(rs.take(i), name) + if rs[i].name@ == name { 1int } else { 0 },
{
    assert(rs.take(i + 1).drop_last() =~= rs.take(i));
    assert(rs.take(i + 1).last() == rs[i]);
}

proof fn lemma_aggregate_bounds(rs: Seq<Record>, name: Seq<char>)
    requires
        forall|i: int| 0 <= i < rs.len() ==> (#[trigger] rs[i]).reward <= 1_000_000,
    ensures
        0 <= spec_total_reward(rs, name) <= rs.len() * 1_000_000,
        0 <= spec_name_count(rs, name) <= rs.len(),
    decreases rs.len(),
{
    if rs.len() > 0 {
        lemma_aggregate_bounds(rs.drop_last(), name);
        assert((rs.len() - 1) * 1_000_000 + 1_000_000 == rs.len() * 1_000_000) by (nonlinear_arith);
    }
}

/// Lexicographic order of names by character code point: the deterministic
/// sorted-by-key order the database writer needs to avoid insert deadlocks
/// between concurrent transactions.
pub open spec fn spec_name_le(a: Seq<char>, b: Seq<char>) -> bool
    decreases a.len(),
{
    if a.len() == 0 {
        true
    } else if b.len() == 0 {
        false
    } else if (a[0] as u32) < (b[0] as u32) {
        true
    } else if (a[0] as u32) > (b[0] as u32) {
        false
    } else {
        spec_name_le(a.skip(1), b.skip(1))
    }
}

/// Law: the name order is total — any two names compare one way or the
/// other.
pub proof fn lemma_name_le_total(a: Seq<char>, b: Seq<char>)
    ensures
        spec_name_le(a, b) || spec_name_le(b, a),
    decreases a.len(),
{
    if a.len() > 0 && b.len() > 0 && (a[0] as u32) == (b[0] as u32) {
        lemma_name_le_total(a.skip(1), b.skip(1));
    }
}

/// Law: the name order is transitive.
pub proof fn lemma_name_le_trans(a: Seq<char>, b: Seq<char>, c: Seq<char>)
    requires
        spec_name_le(a, b),
        spec_name_le(b, c),
    ensures
        spec_name_le(a, c),
    decreases a.len(),
{
    if a.len() > 0 {
        if (a[0] as u32) == (b[0] as u32) && (b[0] as u32) == (c[0] as u32) {
            lemma_name_le_trans(a.skip(1), b.skip(1), c.skip(1));
        }
    }
}

/// Compare two names in the sorted-by-key order.
fn name_le(x: &String, y: &String) -> (r: bool)
    ensures
        r == spec_name_le(x@, y@),
{
    let xs = x.as_str();
    let ys = y.as_str();
    let xl = xs.unicode_len();
    let yl = ys.unicode_len();
    let mut i: usize = 0;
    proof {
        assert(x@.skip(0) =~= x@);
        assert(y@.skip(0) =~= y@);
    }
    loop
        invariant
            i <= xl,
            i <= yl,
            xs@ == x@,
            ys@ == y@,
            xl == x@.len(),
            yl == y@.len(),
            spec_name_le(x@, y@) == spec_name_le(x@.skip(i as int), y@.skip(i as int)),
        decreases xl - i,
    {
        if i >= xl {
            proof {
                assert(x@.skip(i as int).len() == 0);
            }
            return true;
        }
        if i >= yl {
            proof {
                assert(y@.skip(i as int).len() == 0);
                assert(x@.skip(i as int).len() > 0);
            }
            return false;
        }
        let cx = xs.get_char(i);
        let cy = ys.get_char(i);
        proof {
            assert(x@.skip(i as int)[0] == x@[i as int]);
            assert(y@.skip(i as int)[0] == y@[i as int]);
        }
        if (cx as u32) < (cy as u32) {
            return true;
        }
        if (cx as u32) > (cy as u32) {
            return false;
        }
        proof {
            assert(x@.skip(i as int).skip(1) =~= x@.skip(i + 1));
            assert(y@.skip(i as int).skip(1) =~= y@.skip(i + 1));
        }
        i += 1;
    }
}

/// Whether some aggregate row carries `name`.
pub open spec fn spec_aggregate_has(rows: Seq<(String, u64, u64)>, name: Seq<char>) -> bool {
    exists|j: int| 0 <= j < rows.len() && (#[trigger] rows[j]).0@ == name
}

/// Sum the rewards and plays of a buffer of records per champion name: one
/// row per distinct name, carrying the total reward (parts per million)
/// and the number of episodes played under it. The rows come out sorted by
/// name, the deterministic key order the database transaction relies on.
#[verifier::spinoff_prover]
#[verifier::rlimit(100)]
pub fn aggregate_records(records: &Vec<Record>) -> (r: Vec<(String, u64, u64)>)
    requires
        records@.len() <= 1_000_000_000,
        forall|i: int| 0 <= i < records@.len() ==> (#[trigger] records@[i]).reward <= 1_000_000,
    ensures
        forall|j1: int, j2: int| 0 <= j1 < j2 < r@.len() ==> (#[trigger] r@[j1]).0@ != (#[trigger] r@[j2]).0@,
        forall|j1: int, j2: int| 0 <= j1 < j2 < r@.len() ==> spec_name_le((#[trigger] r@[j1]).0@, (#[trigger] r@[j2]).0@),
        forall|j: int| 0 <= j < r@.len() ==> (#[trigger] r@[j]).1 == spec_total_reward(records@, r@[j].0@),
        forall|j: int| 0 <= j < r@.len() ==> (#[trigger] r@[j]).2 == spec_name_count(records@, r@[j].0@),
        forall|i: int| 0 <= i < records@.len() ==> spec_aggregate_has(r@, (#[trigger] records@[i]).name@),
{
    let ghost all = records@;
    let mut r: Vec<(String, u64, u64)> = Vec::new();
    let mut i: usize = 0;
    while i < records.len()
        invariant
            i <= all.len(),
            records@ == all,
            all.len() <= 1_000_000_000,
            forall|i2: int| 0 <= i2 < all.len() ==> (#[trigger] all[i2]).reward <= 1_000_000,
            forall|j1: int, j2: int| 0 <= j1 < j2 < r@.len() ==> (#[trigger] r@[j1]).0@ != (#[trigger] r@[j2]).0@,
            forall|j1: int, j2: int| 0 <= j1 < j2 < r@.len() ==> spec_name_le((#[trigger] r@[j1]).0@, (#[trigger] r@[j2]).0@),
            forall|j: int| 0 <= j < r@.len() ==> (#[trigger] r@[j]).1 == spec_total_reward(all, r@[j].0@),
            forall|j: int| 0 <= j < r@.len() ==> (#[trigger] r@[j]).2 == spec_name_count(all, r@[j].0@),
            forall|i2: int| 0 <= i2 < i ==> spec_aggregate_has(r@, (#[trigger] all[i2]).name@),
        decreases all.len() - i,
    {
        let name = &records[i].name;
        let mut seen = false;
        let mut j: usize = 0;
        while j < r.len()
            invariant
                j <= r@.len(),
                records@ == all,
                i < all.len(),
                name == all[i as int].name,
                seen == exists|j2: int| 0 <= j2 < j && (#[trigger] r@[j2]).0@ == name@,
            decreases r@.len() - j,
        {
            if r[j].0 == *name {
                seen = true;
            }
            j += 1;
        }
        if !seen {
            let mut total: u64 = 0;
            let mut count: u64 = 0;
            let mut k: usize = 0;
            while k < records.len()
                invariant
                    k <= all.len(),
                    records@ == all,
                    i < all.len(),
                    all.len() <= 1_000_000_000,
                    forall|i2: int| 0 <= i2 < all.len() ==> (#[trigger] all[i2]).reward <= 1_000_000,
                    name == all[i as int].name,
                    total == spec_total_reward(all.take(k as int), name@),
                    count == spec_name_count(all.take(k as int), name@),
                decreases all.len() - k,
            {
                proof {
                    lemma_aggregate_take_step(all, name@, k as int);
                    lemma_aggregate_bounds(all.take(k as int), name@);
                    assert(all.take(k as int).len() * 1_000_000 <= 1_000_000_000_000_000int) by (nonlinear_arith)
                        requires all.take(k as int).len() <= 1_000_000_000;
                }
                if records[k].name == *name {
                    total = total + records[k].reward;
                    count = count + 1;
                }
                k += 1;
            }
            proof {
                assert(all.take(all.len() as int) =~= all);
            }
            // Insert at the sorted position: before the first row whose
            // name comes strictly after this one.
            let mut p: usize = 0;
            let mut scanning = true;
            while scanning && p < r.len()
                invariant
                    p <= r@.len(),
                    records@ == all,
                    i < all.len(),
                    name == all[i as int].name,
                    forall|j2: int| 0 <= j2 < p ==> spec_name_le((#[trigger] r@[j2]).0@, name@),
                    !scanning ==> p < r@.len() && !spec_name_le(r@[p as int].0@, name@),
                decreases r@.len() - p, (if scanning { 1int } else { 0int }),
            {
                if name_le(&r[p].0, name) {
                    p += 1;
                } else {
                    scanning = false;
                }
            }
            let ghost old_r = r@;
            let row = (clone_string(name), total, count);
            r.insert(p, row);
            proof {
                assert(r@ == old_r.insert(p as int, (row.0, row.1, row.2)));
                assert(r@[p as int].0@ == name@);
                assert forall|j1: int, j2: int| 0 <= j1 < j2 < r@.len() implies (#[trigger] r@[j1]).0@ != (#[trigger] r@[j2]).0@ by {
                    lemma_insert_entry(old_r, p as int, j1);
                    lemma_insert_entry(old_r, p as int, j2);
                    if j1 != p && j2 != p {
                    } else {
                        let other = if j1 == p { j2 } else { j1 };
                        let oi = if other < p { other } else { other - 1 };
                        assert(r@[other] == old_r[oi]);
                        if r@[other].0@ == name@ {
                            assert(exists|j3: int| 0 <= j3 < old_r.len() && (#[trigger] old_r[j3]).0@ == name@);
                            assert(seen == false);
                            assert(false);
                        }
                    }
                }
                assert forall|j1: int, j2: int| 0 <= j1 < j2 < r@.len() implies spec_name_le((#[trigger] r@[j1]).0@, (#[trigger] r@[j2]).0@) by {
                    lemma_insert_entry(old_r, p as int, j1);
                    lemma_insert_entry(old_r, p as int, j2);
                    if j1 == p {
                        // name before everything that comes after the slot
                        let oi = j2 - 1;
                        assert(r@[j2] == old_r[oi]);
                        assert(!spec_name_le(old_r[p as int].0@, name@));
                        lemma_name_le_total(old_r[p as int].0@, name@);
                        if oi > p {
                            lemma_name_le_trans(name@, old_r[p as int].0@, old_r[oi].0@);
                        }
                    } else if j2 == p {
                        assert(r@[j1] == old_r[j1]);
                    } else {
                    }
                }
                assert forall|j2: int| 0 <= j2 < r@.len() implies (#[trigger] r@[j2]).1 == spec_total_reward(all, r@[j2].0@) && r@[j2].2 == spec_name_count(all, r@[j2].0@) by {
                    lemma_insert_entry(old_r, p as int, j2);
                }
                assert forall|i2: int| 0 <= i2 < i + 1 implies spec_aggregate_has(r@, (#[trigger] all[i2]).name@) by {
                    if i2 == i {
                        assert(r@[p as int].0@ == all[i2].name@);
                    } else {
                        let j2 = choose|j2: int| 0 <= j2 < old_r.len() && (#[trigger] old_r[j2]).0@ == all[i2].name@;
                        let nj = if j2 < p { j2 } else { j2 + 1 };
                        lemma_insert_entry(old_r, p as int, nj);
                        assert(r@[nj].0@ == all[i2].name@);
                    }
                }
            }
        } else {
            proof {
                assert forall|i2: int| 0 <= i2 < i + 1 implies spec_aggregate_has(r@, (#[trigger] all[i2]).name@) by {
                    if i2 == i {
                        let j2 = choose|j2: int| 0 <= j2 < r@.len() && (#[trigger] r@[j2]).0@ == name@;
                    }
                }
            }
        }
        i += 1;
    }
    r
}

/// Where each index of an insertion result comes from.
proof fn lemma_insert_entry(rows: Seq<(String, u64, u64)>, p: int, j: int)
    requires
        0 <= p <= rows.len(),
        0 <= j < rows.len() + 1,
    ensures
        forall|row: (String, u64, u64)| j < p ==> #[trigger] rows.insert(p, row)[j] == rows[j],
        forall|row: (String, u64, u64)| j == p ==> #[trigger] rows.insert(p, row)[j] == row,
        forall|row: (String, u64, u64)| j > p ==> #[trigger] rows.insert(p, row)[j] == rows[j - 1],
{
}

/// A copy of a champion identifier.
fn clone_string(s: &String) -> (r: String)
    ensures
        r@ == s@,
{
    s.clone()
}

} // verus!
