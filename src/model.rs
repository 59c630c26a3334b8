//! The abstract state of a mean accumulator, the merge rule that both feeding
//! and combining follow, and the laws that make partial results mergeable in
//! any grouping and order.
use crate::kind::{lemma_wrap_reduces, NumericKind};
use vstd::arithmetic::div_mod::{lemma_add_mod_noop_right, lemma_mod_bound};
use vstd::prelude::*;

verus! {

/// Partial state of a mean: the (wrapped) sum of the present values folded so
/// far, `None` before the first one, and how many there were.
pub struct MeanState {
    pub sum: Option<int>,
    pub count: nat,
}

/// The state of an accumulator that has seen no present value.
pub open spec fn empty_state() -> MeanState {
    MeanState { sum: None, count: 0 }
}

/// The partial state of a single present value.
pub open spec fn single_state(v: int) -> MeanState {
    MeanState { sum: Some(v), count: 1 }
}

/// A sum is present exactly when something was counted, and it is a value of
/// the kind.
pub open spec fn state_wf(k: NumericKind, s: MeanState) -> bool {
    &&& (s.sum is Some <==> s.count > 0)
    &&& (s.sum matches Some(x) ==> k.holds(x))
}

/// Merge rule: an empty side leaves the other as it is; two sums add with the
/// kind's wraparound and their counts add.
pub open spec fn merge(k: NumericKind, a: MeanState, b: MeanState) -> MeanState {
    match (a.sum, b.sum) {
        (Some(x), Some(y)) => MeanState { sum: Some(k.wrap(x + y)), count: a.count + b.count },
        (None, Some(_)) => b,
        _ => a,
    }
}

/// Feeding one optional value: absent leaves the state alone, present merges
/// it in as a single-value partial state.
pub open spec fn step(k: NumericKind, s: MeanState, item: Option<int>) -> MeanState {
    match item {
        Some(v) => merge(k, s, single_state(v)),
        None => s,
    }
}

/// State after feeding `items` in order to a fresh accumulator.
pub open spec fn fold_items(k: NumericKind, items: Seq<Option<int>>) -> MeanState
    decreases items.len(),
{
    if items.len() == 0 {
        empty_state()
    } else {
        step(k, fold_items(k, items.drop_last()), items.last())
    }
}

/// Combining a sequence of partial states left to right into an empty one.
pub open spec fn merge_all(k: NumericKind, parts: Seq<MeanState>) -> MeanState
    decreases parts.len(),
{
    if parts.len() == 0 {
        empty_state()
    } else {
        merge(k, merge_all(k, parts.drop_last()), parts.last())
    }
}

/// Every present item is a value of the kind.
pub open spec fn items_fit(k: NumericKind, items: Seq<Option<int>>) -> bool {
    forall|i: int| 0 <= i < items.len() ==> (#[trigger] items[i] matches Some(v) ==> k.holds(v))
}

/// The output of finalizing a state: `None` when nothing was folded, else the
/// sum and count whose quotient is the mean.
pub open spec fn finalize_state(s: MeanState) -> Option<(int, nat)> {
    match s.sum {
        Some(x) => Some((x, s.count)),
        None => None,
    }
}

pub proof fn lemma_wrap_holds(k: NumericKind, x: int)
    ensures
        k.holds(k.wrap(x)),
{
    lemma_wrap_reduces(k, x);
    lemma_mod_bound(x - k.lo(), k.modulus());
}

/// Wrapping an intermediate result does not change the wrapped total.
pub proof fn lemma_wrap_absorb(k: NumericKind, x: int, y: int)
    ensures
        k.wrap(k.wrap(x) + y) == k.wrap(x + y),
        k.wrap(y + k.wrap(x)) == k.wrap(x + y),
{
    let m = k.modulus();
    lemma_wrap_reduces(k, x);
    lemma_wrap_reduces(k, x + y);
    lemma_wrap_reduces(k, k.wrap(x) + y);
    lemma_add_mod_noop_right(y, x - k.lo(), m);
    assert(k.wrap(x) + y - k.lo() == y + (x - k.lo()) % m);
    assert(y + (x - k.lo()) == x + y - k.lo());
}

/// Merging keeps states well formed.
pub proof fn lemma_merge_wf(k: NumericKind, a: MeanState, b: MeanState)
    requires
        state_wf(k, a),
        state_wf(k, b),
    ensures
        state_wf(k, merge(k, a, b)),
{
    if let (Some(x), Some(y)) = (a.sum, b.sum) {
        lemma_wrap_holds(k, x + y);
    }
}

/// Feeding any fitting sequence yields a well-formed state.
pub proof fn lemma_fold_wf(k: NumericKind, items: Seq<Option<int>>)
    requires
        items_fit(k, items),
    ensures
        state_wf(k, fold_items(k, items)),
    decreases items.len(),
{
    if items.len() > 0 {
        let init = items.drop_last();
        assert(items_fit(k, init)) by {
            assert forall|i: int| 0 <= i < init.len() implies (#[trigger] init[i] matches Some(
                v,
            ) ==> k.holds(v)) by {
                assert(init[i] == items[i]);
            }
        }
        lemma_fold_wf(k, init);
        assert(items[items.len() - 1] == items.last());
        if let Some(v) = items.last() {
            lemma_merge_wf(k, fold_items(k, init), single_state(v));
        }
    }
}

/// An empty partial state is a two-sided identity of the merge.
pub proof fn lemma_merge_identity(k: NumericKind, a: MeanState)
    requires
        state_wf(k, a),
    ensures
        merge(k, a, empty_state()) == a,
        merge(k, empty_state(), a) == a,
{
}

/// The order of two partial states does not matter to their merge.
pub proof fn lemma_merge_commutative(k: NumericKind, a: MeanState, b: MeanState)
    requires
        state_wf(k, a),
        state_wf(k, b),
    ensures
        merge(k, a, b) == merge(k, b, a),
{
    if let (Some(x), Some(y)) = (a.sum, b.sum) {
        assert(x + y == y + x);
    }
}

/// The grouping of three partial states does not matter to their merge.
pub proof fn lemma_merge_associative(k: NumericKind, a: MeanState, b: MeanState, c: MeanState)
    requires
        state_wf(k, a),
        state_wf(k, b),
        state_wf(k, c),
    ensures
        merge(k, merge(k, a, b), c) == merge(k, a, merge(k, b, c)),
{
    if let (Some(x), Some(y), Some(z)) = (a.sum, b.sum, c.sum) {
        lemma_wrap_absorb(k, x + y, z);
        lemma_wrap_absorb(k, y + z, x);
        assert(x + y + z == x + (y + z));
    }
}

/// Feeding a sequence split in two to two accumulators and combining them
/// gives the state of feeding the whole sequence to one.
pub proof fn lemma_fold_concat(k: NumericKind, s: Seq<Option<int>>, t: Seq<Option<int>>)
    requires
        items_fit(k, s),
        items_fit(k, t),
    ensures
        fold_items(k, s + t) == merge(k, fold_items(k, s), fold_items(k, t)),
    decreases t.len(),
{
    lemma_fold_wf(k, s);
    if t.len() == 0 {
        assert(s + t =~= s);
        lemma_merge_identity(k, fold_items(k, s));
    } else {
        let t0 = t.drop_last();
        assert((s + t).drop_last() =~= s + t0);
        assert((s + t).last() == t.last());
        assert(items_fit(k, t0)) by {
            assert forall|i: int| 0 <= i < t0.len() implies (#[trigger] t0[i] matches Some(
                v,
            ) ==> k.holds(v)) by {
                assert(t0[i] == t[i]);
            }
        }
        lemma_fold_concat(k, s, t0);
        lemma_fold_wf(k, t0);
        if let Some(v) = t.last() {
            assert(t[t.len() - 1] == t.last());
            lemma_merge_associative(k, fold_items(k, s), fold_items(k, t0), single_state(v));
        }
    }
}

/// Concatenating fitting sequences gives a fitting sequence.
pub proof fn lemma_fit_concat(k: NumericKind, s: Seq<Option<int>>, t: Seq<Option<int>>)
    requires
        items_fit(k, s),
        items_fit(k, t),
    ensures
        items_fit(k, s + t),
{
    assert forall|i: int| 0 <= i < (s + t).len() implies (#[trigger] (s + t)[i] matches Some(v)
        ==> k.holds(v)) by {
        if i < s.len() {
            assert((s + t)[i] == s[i]);
        } else {
            assert((s + t)[i] == t[i - s.len()]);
        }
    }
}

/// Every part fits the kind.
pub open spec fn parts_fit(k: NumericKind, parts: Seq<Seq<Option<int>>>) -> bool {
    forall|i: int| 0 <= i < parts.len() ==> items_fit(k, #[trigger] parts[i])
}

/// The partial state of each part, in order.
pub open spec fn fold_parts(k: NumericKind, parts: Seq<Seq<Option<int>>>) -> Seq<MeanState> {
    parts.map_values(|p: Seq<Option<int>>| fold_items(k, p))
}

proof fn lemma_fold_partition_alt(k: NumericKind, parts: Seq<Seq<Option<int>>>)
    requires
        parts_fit(k, parts),
    ensures
        items_fit(k, parts.flatten_alt()),
        fold_items(k, parts.flatten_alt()) == merge_all(k, fold_parts(k, parts)),
    decreases parts.len(),
{
    if parts.len() == 0 {
        assert(fold_parts(k, parts).len() == 0);
        assert(parts.flatten_alt() =~= Seq::<Option<int>>::empty());
    } else {
        let init = parts.drop_last();
        assert(parts_fit(k, init)) by {
            assert forall|i: int| 0 <= i < init.len() implies items_fit(k, #[trigger] init[i]) by {
                assert(init[i] == parts[i]);
            }
        }
        assert(parts[parts.len() - 1] == parts.last());
        lemma_fold_partition_alt(k, init);
        lemma_fit_concat(k, init.flatten_alt(), parts.last());
        lemma_fold_concat(k, init.flatten_alt(), parts.last());
        assert(fold_parts(k, parts).drop_last() =~= fold_parts(k, init));
        assert(fold_parts(k, parts).last() == fold_items(k, parts.last()));
    }
}

/// Splitting a sequence into any number of consecutive parts, feeding each
/// part to its own accumulator and combining the partial states gives the
/// state of feeding the whole sequence to a single accumulator.
pub proof fn lemma_fold_partition(k: NumericKind, parts: Seq<Seq<Option<int>>>)
    requires
        parts_fit(k, parts),
    ensures
        fold_items(k, parts.flatten()) == merge_all(k, fold_parts(k, parts)),
{
    parts.lemma_flatten_and_flatten_alt_are_equivalent();
    lemma_fold_partition_alt(k, parts);
}

/// An accumulator fed only absent values is in the same state as one fed
/// nothing, and finalizes to `None`.
pub proof fn lemma_all_absent(k: NumericKind, items: Seq<Option<int>>)
    requires
        forall|i: int| 0 <= i < items.len() ==> #[trigger] items[i] is None,
    ensures
        fold_items(k, items) == empty_state(),
        finalize_state(fold_items(k, items)) is None,
    decreases items.len(),
{
    if items.len() > 0 {
        let init = items.drop_last();
        assert forall|i: int| 0 <= i < init.len() implies #[trigger] init[i] is None by {
            assert(init[i] == items[i]);
        }
        assert(items[items.len() - 1] == items.last());
        lemma_all_absent(k, init);
    }
}

/// Every partial state is well formed.
pub open spec fn states_wf(k: NumericKind, parts: Seq<MeanState>) -> bool {
    forall|i: int| 0 <= i < parts.len() ==> state_wf(k, #[trigger] parts[i])
}

proof fn lemma_states_wf_drop_last(k: NumericKind, parts: Seq<MeanState>)
    requires
        states_wf(k, parts),
        parts.len() > 0,
    ensures
        states_wf(k, parts.drop_last()),
        state_wf(k, parts.last()),
{
    let init = parts.drop_last();
    assert forall|i: int| 0 <= i < init.len() implies state_wf(k, #[trigger] init[i]) by {
        assert(init[i] == parts[i]);
    }
    assert(parts[parts.len() - 1] == parts.last());
}

proof fn lemma_merge_all_wf(k: NumericKind, parts: Seq<MeanState>)
    requires
        states_wf(k, parts),
    ensures
        state_wf(k, merge_all(k, parts)),
    decreases parts.len(),
{
    if parts.len() > 0 {
        lemma_states_wf_drop_last(k, parts);
        lemma_merge_all_wf(k, parts.drop_last());
        lemma_merge_wf(k, merge_all(k, parts.drop_last()), parts.last());
    }
}

/// Any one partial state can be merged in last.
proof fn lemma_merge_all_extract(k: NumericKind, parts: Seq<MeanState>, j: int)
    requires
        states_wf(k, parts),
        0 <= j < parts.len(),
    ensures
        merge_all(k, parts) == merge(k, merge_all(k, parts.remove(j)), parts[j]),
    decreases parts.len(),
{
    let n = parts.len() - 1;
    lemma_states_wf_drop_last(k, parts);
    if j == n {
        assert(parts.remove(j) =~= parts.drop_last());
    } else {
        let init = parts.drop_last();
        let rest = parts.remove(j);
        lemma_merge_all_extract(k, init, j);
        assert(rest.drop_last() =~= init.remove(j));
        assert(rest.last() == parts.last());
        assert(init[j] == parts[j]);
        assert(states_wf(k, init.remove(j))) by {
            assert forall|i: int| 0 <= i < init.remove(j).len() implies state_wf(
                k,
                #[trigger] init.remove(j)[i],
            ) by {
                if i < j {
                    assert(init.remove(j)[i] == init[i]);
                } else {
                    assert(init.remove(j)[i] == init[i + 1]);
                }
            }
        }
        let r = merge_all(k, init.remove(j));
        lemma_merge_all_wf(k, init.remove(j));
        lemma_merge_associative(k, r, parts[j], parts.last());
        lemma_merge_commutative(k, parts[j], parts.last());
        lemma_merge_associative(k, r, parts.last(), parts[j]);
    }
}

/// Combining the same partial states in any order gives the same state.
pub proof fn lemma_merge_all_permutation(k: NumericKind, p: Seq<MeanState>, q: Seq<MeanState>)
    requires
        states_wf(k, p),
        p.to_multiset() == q.to_multiset(),
    ensures
        merge_all(k, p) == merge_all(k, q),
    decreases p.len(),
{
    broadcast use vstd::seq_lib::to_multiset_build, vstd::seq_lib::to_multiset_remove;
    broadcast use vstd::multiset::group_multiset_axioms;

    p.to_multiset_ensures();
    q.to_multiset_ensures();
    if p.len() > 0 {
        let x = p.last();
        let init = p.drop_last();
        assert(p =~= init.push(x));
        assert(p.contains(x)) by {
            assert(p[p.len() - 1] == x);
        }
        assert(p.to_multiset().count(x) > 0);
        assert(q.to_multiset().count(x) > 0);
        assert(q.contains(x));
        let j = choose|j: int| 0 <= j < q.len() && q[j] == x;
        let q1 = q.remove(j);
        assert(init.to_multiset() =~= q1.to_multiset());
        assert(states_wf(k, q)) by {
            assert forall|i: int| 0 <= i < q.len() implies state_wf(k, #[trigger] q[i]) by {
                assert(q.contains(q[i]));
                assert(q.to_multiset().count(q[i]) > 0);
                assert(p.to_multiset().count(q[i]) > 0);
                assert(p.contains(q[i]));
            }
        }
        lemma_states_wf_drop_last(k, p);
        lemma_merge_all_permutation(k, init, q1);
        lemma_merge_all_extract(k, q, j);
    } else {
        assert(q.len() == 0);
    }
}

} // verus!
