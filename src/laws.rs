//! Laws of the counter store over histories of operations.
//!
//! Every operation on a store is atomic, so any run of operations, however
//! the contexts that issued them interleaved, is observed as one sequence of
//! single operations: a history. These laws describe the value a history
//! leaves, built from the same step functions that the store's operations
//! guarantee.
use vstd::prelude::*;
use vstd::arithmetic::div_mod::{
    lemma_add_mod_noop,
    lemma_mod_add_multiples_vanish,
    lemma_mod_bound,
    lemma_mod_self_0,
    lemma_small_mod,
};
use crate::repository::{modulus, value_after_decrement, value_after_increment};

verus! {

/// One operation of a store's history.
pub enum StoreOp {
    Get,
    Increment,
    Decrement,
}

/// The value a store holds after applying `op` at value `v`.
pub open spec fn apply_op(v: usize, op: StoreOp) -> usize {
    match op {
        StoreOp::Get => v,
        StoreOp::Increment => value_after_increment(v) as usize,
        StoreOp::Decrement => value_after_decrement(v) as usize,
    }
}

/// The value a store holds after the history `ops`, starting at `v`.
pub open spec fn run(v: usize, ops: Seq<StoreOp>) -> usize
    decreases ops.len(),
{
    if ops.len() == 0 {
        v
    } else {
        apply_op(run(v, ops.drop_last()), ops.last())
    }
}

/// How many times `op` occurs in `ops`.
pub open spec fn count(ops: Seq<StoreOp>, op: StoreOp) -> nat
    decreases ops.len(),
{
    if ops.len() == 0 {
        0
    } else {
        count(ops.drop_last(), op) + if ops.last() == op { 1nat } else { 0nat }
    }
}

/// `n` copies of `op`.
pub open spec fn repeated(op: StoreOp, n: nat) -> Seq<StoreOp> {
    Seq::new(n, |_i: int| op)
}

proof fn lemma_increment_mod(t: int)
    ensures
        value_after_increment((t % modulus()) as usize) == (t + 1) % modulus(),
{
    let m = modulus();
    let x = t % m;
    lemma_mod_bound(t, m);
    lemma_small_mod(1, m as nat);
    lemma_add_mod_noop(t, 1, m);
    if x == usize::MAX {
        lemma_mod_self_0(m);
    } else {
        lemma_small_mod((x + 1) as nat, m as nat);
    }
}

proof fn lemma_decrement_mod(t: int)
    ensures
        value_after_decrement((t % modulus()) as usize) == (t - 1) % modulus(),
{
    let m = modulus();
    let x = t % m;
    lemma_mod_bound(t, m);
    lemma_small_mod((m - 1) as nat, m as nat);
    lemma_add_mod_noop(t, m - 1, m);
    lemma_mod_add_multiples_vanish(t - 1, m);
    if x == 0 {
        lemma_small_mod((m - 1) as nat, m as nat);
    } else {
        lemma_mod_add_multiples_vanish(x - 1, m);
        lemma_small_mod((x - 1) as nat, m as nat);
    }
}

/// The value a history leaves depends only on how many increments and
/// decrements it holds, never on their order: starting at `v`, it is
/// `v + increments - decrements`, wrapped into the range of `usize`.
pub proof fn lemma_run_counts(v: usize, ops: Seq<StoreOp>)
    ensures
        run(v, ops) == (v + count(ops, StoreOp::Increment) - count(ops, StoreOp::Decrement))
            % modulus(),
    decreases ops.len(),
{
    let m = modulus();
    if ops.len() == 0 {
        lemma_small_mod(v as nat, m as nat);
    } else {
        let init = ops.drop_last();
        lemma_run_counts(v, init);
        let t = v + count(init, StoreOp::Increment) - count(init, StoreOp::Decrement);
        match ops.last() {
            StoreOp::Get => {},
            StoreOp::Increment => lemma_increment_mod(t),
            StoreOp::Decrement => lemma_decrement_mod(t),
        }
    }
}

proof fn lemma_count_repeated(op: StoreOp, n: nat, other: StoreOp)
    ensures
        count(repeated(op, n), other) == if op == other { n } else { 0 },
    decreases n,
{
    if n > 0 {
        assert(repeated(op, n).drop_last() =~= repeated(op, (n - 1) as nat));
        lemma_count_repeated(op, (n - 1) as nat, other);
    }
}

proof fn lemma_count_concat(a: Seq<StoreOp>, b: Seq<StoreOp>, op: StoreOp)
    ensures
        count(a + b, op) == count(a, op) + count(b, op),
    decreases b.len(),
{
    if b.len() == 0 {
        assert(a + b =~= a);
    } else {
        assert((a + b).drop_last() =~= a + b.drop_last());
        lemma_count_concat(a, b.drop_last(), op);
    }
}

/// `n` increments from zero leave the value `n`, for every `n` that a store
/// can hold.
pub proof fn lemma_increments_from_zero(n: nat)
    requires
        n <= usize::MAX,
    ensures
        run(0, repeated(StoreOp::Increment, n)) == n,
{
    lemma_run_counts(0, repeated(StoreOp::Increment, n));
    lemma_count_repeated(StoreOp::Increment, n, StoreOp::Increment);
    lemma_count_repeated(StoreOp::Increment, n, StoreOp::Decrement);
    lemma_small_mod(n, modulus() as nat);
}

/// `a` increments followed by `b` decrements from zero leave `a - b`, wrapped
/// into the range of `usize` (so a negative difference `-k` reads as
/// `usize::MAX + 1 - k`); when `b <= a <= usize::MAX` that is exactly `a - b`.
pub proof fn lemma_increments_then_decrements(a: nat, b: nat)
    ensures
        run(0, repeated(StoreOp::Increment, a) + repeated(StoreOp::Decrement, b))
            == (a - b) % modulus(),
        b <= a <= usize::MAX ==> run(
            0,
            repeated(StoreOp::Increment, a) + repeated(StoreOp::Decrement, b),
        ) == a - b,
{
    let ups = repeated(StoreOp::Increment, a);
    let downs = repeated(StoreOp::Decrement, b);
    lemma_run_counts(0, ups + downs);
    lemma_count_concat(ups, downs, StoreOp::Increment);
    lemma_count_concat(ups, downs, StoreOp::Decrement);
    lemma_count_repeated(StoreOp::Increment, a, StoreOp::Increment);
    lemma_count_repeated(StoreOp::Increment, a, StoreOp::Decrement);
    lemma_count_repeated(StoreOp::Decrement, b, StoreOp::Increment);
    lemma_count_repeated(StoreOp::Decrement, b, StoreOp::Decrement);
    if b <= a <= usize::MAX {
        lemma_small_mod((a - b) as nat, modulus() as nat);
    }
}

/// No update is lost: a history of reads and `n` increments, interleaved in
/// any order, that starts at `v` leaves `v + n`, wrapped into the range of
/// `usize`; when `v + n <= usize::MAX` that is exactly `v + n`.
pub proof fn lemma_no_lost_updates(v: usize, ops: Seq<StoreOp>, n: nat)
    requires
        forall|i: int| 0 <= i < ops.len() ==> ops[i] != StoreOp::Decrement,
        count(ops, StoreOp::Increment) == n,
    ensures
        run(v, ops) == (v + n) % modulus(),
        v + n <= usize::MAX ==> run(v, ops) == v + n,
{
    lemma_no_decrements(ops);
    lemma_run_counts(v, ops);
    if v + n <= usize::MAX {
        lemma_small_mod((v + n) as nat, modulus() as nat);
    }
}

proof fn lemma_no_decrements(ops: Seq<StoreOp>)
    requires
        forall|i: int| 0 <= i < ops.len() ==> ops[i] != StoreOp::Decrement,
    ensures
        count(ops, StoreOp::Decrement) == 0,
    decreases ops.len(),
{
    if ops.len() > 0 {
        lemma_no_decrements(ops.drop_last());
    }
}

} // verus!
