//! The mean accumulator: minimal per-group partial state, fed value by value
//! through typed or dynamic channels, merged with sibling partials, and
//! finalized into a sum and a count.
use crate::kind::NumericKind;
use crate::model::{
    empty_state, finalize_state, lemma_merge_wf, merge, single_state, state_wf, step, MeanState,
};
use polars_utils::IdxSize;
use vstd::prelude::*;

verus! {

/// The finalized state of a group: the mean is `sum / count`, with
/// `count > 0`. The division is left to the caller: a mean in floating point
/// is defined for floating-point kinds only, and these integer kinds hand out
/// the exact sum and count instead.
#[derive(Clone, Copy, Debug, PartialEq, Eq, Structural)]
pub struct MeanValue {
    pub sum: i128,
    pub count: IdxSize,
}

/// Running mean of one group in one execution branch, summing in a fixed
/// numeric kind.
pub struct MeanAgg {
    kind: NumericKind,
    sum: Option<i128>,
    count: IdxSize,
}

impl View for MeanAgg {
    type V = MeanState;

    closed spec fn view(&self) -> MeanState {
        MeanState { sum: opt_int(self.sum), count: self.count as nat }
    }
}

/// Lifts an optional machine value to the model.
pub open spec fn opt_int(v: Option<i128>) -> Option<int> {
    match v {
        Some(x) => Some(x as int),
        None => None,
    }
}

/// What a dynamic value extracted as `item` contributes to an accumulator of
/// kind `k`.
pub open spec fn extracted_item(k: NumericKind, item: Option<i128>) -> Option<int> {
    match item {
        Some(x) => k.cast_spec(x as int),
        None => None,
    }
}

/// The finalized output the model gives, as a machine value.
pub open spec fn mean_value_of(s: MeanState) -> Option<MeanValue> {
    match finalize_state(s) {
        Some((x, c)) => Some(MeanValue { sum: x as i128, count: c as IdxSize }),
        None => None,
    }
}

/// Feeding `item` cannot overflow the counter.
pub open spec fn count_room(s: MeanState, item: Option<int>) -> bool {
    item is Some ==> s.count < IdxSize::MAX
}

/// Merging `b` into `a` cannot overflow the counter.
pub open spec fn merge_room(a: MeanState, b: MeanState) -> bool {
    (a.sum is Some && b.sum is Some) ==> a.count + b.count <= IdxSize::MAX
}

impl MeanAgg {
    /// The numeric kind the accumulator sums in, fixed at construction.
    pub closed spec fn spec_kind(&self) -> NumericKind {
        self.kind
    }

    pub open spec fn wf(&self) -> bool {
        state_wf(self.spec_kind(), self@)
    }

    /// A fresh accumulator of kind `kind` that has seen nothing.
    pub fn new(kind: NumericKind) -> (r: Self)
        ensures
            r.wf(),
            r.spec_kind() == kind,
            r@ == empty_state(),
    {
        MeanAgg { kind, sum: None, count: 0 }
    }

    /// The fold rule shared by every ingestion channel: an absent value is
    /// skipped, a present one is merged in as a single-value partial state.
    pub fn pre_agg_primitive(&mut self, item: Option<i128>)
        requires
            old(self).wf(),
            item matches Some(v) ==> old(self).spec_kind().holds(v as int),
            count_room(old(self)@, opt_int(item)),
        ensures
            final(self).wf(),
            final(self).spec_kind() == old(self).spec_kind(),
            final(self)@ == step(old(self).spec_kind(), old(self)@, opt_int(item)),
    {
        proof {
            if let Some(v) = item {
                lemma_merge_wf(self.kind, self@, single_state(v as int));
            }
        }
        match (item, self.sum) {
            (Some(val), Some(sum)) => {
                self.sum = Some(self.kind.wrapping_add(sum, val));
                self.count = self.count + 1;
            },
            (Some(val), None) => {
                self.sum = Some(val);
                self.count = self.count + 1;
            },
            _ => {},
        }
    }

    /// Typed channel for `i16` values: cast into the accumulator's kind, then
    /// folded. The value must fit the kind.
    pub fn pre_agg_i16(&mut self, _chunk_idx: IdxSize, item: Option<i16>)
        requires
            old(self).wf(),
            item matches Some(v) ==> old(self).spec_kind().holds(v as int),
            item is Some ==> old(self)@.count < IdxSize::MAX,
        ensures
            final(self).wf(),
            final(self).spec_kind() == old(self).spec_kind(),
            final(self)@ == step(
                old(self).spec_kind(),
                old(self)@,
                match item {
                    Some(v) => Some(v as int),
                    None => None,
                },
            ),
    {
        let v: Option<i128> = match item {
            Some(x) => Some(x as i128),
            None => None,
        };
        self.pre_agg_primitive(v)
    }

    /// Typed channel for `u16` values: cast into the accumulator's kind, then
    /// folded. The value must fit the kind.
    pub fn pre_agg_u16(&mut self, _chunk_idx: IdxSize, item: Option<u16>)
        requires
            old(self).wf(),
            item matches Some(v) ==> old(self).spec_kind().holds(v as int),
            item is Some ==> old(self)@.count < IdxSize::MAX,
        ensures
            final(self).wf(),
            final(self).spec_kind() == old(self).spec_kind(),
            final(self)@ == step(
                old(self).spec_kind(),
                old(self)@,
                match item {
                    Some(v) => Some(v as int),
                    None => None,
                },
            ),
    {
        let v: Option<i128> = match item {
            Some(x) => Some(x as i128),
            None => None,
        };
        self.pre_agg_primitive(v)
    }

    /// Typed channel for `i32` values: cast into the accumulator's kind, then
    /// folded. The value must fit the kind.
    pub fn pre_agg_i32(&mut self, _chunk_idx: IdxSize, item: Option<i32>)
        requires
            old(self).wf(),
            item matches Some(v) ==> old(self).spec_kind().holds(v as int),
            item is Some ==> old(self)@.count < IdxSize::MAX,
        ensures
            final(self).wf(),
            final(self).spec_kind() == old(self).spec_kind(),
            final(self)@ == step(
                old(self).spec_kind(),
                old(self)@,
                match item {
                    Some(v) => Some(v as int),
                    None => None,
                },
            ),
    {
        let v: Option<i128> = match item {
            Some(x) => Some(x as i128),
            None => None,
        };
        self.pre_agg_primitive(v)
    }

    /// Typed channel for `i64` values: cast into the accumulator's kind, then
    /// folded. The value must fit the kind.
    pub fn pre_agg_i64(&mut self, _chunk_idx: IdxSize, item: Option<i64>)
        requires
            old(self).wf(),
            item matches Some(v) ==> old(self).spec_kind().holds(v as int),
            item is Some ==> old(self)@.count < IdxSize::MAX,
        ensures
            final(self).wf(),
            final(self).spec_kind() == old(self).spec_kind(),
            final(self)@ == step(
                old(self).spec_kind(),
                old(self)@,
                match item {
                    Some(v) => Some(v as int),
                    None => None,
                },
            ),
    {
        let v: Option<i128> = match item {
            Some(x) => Some(x as i128),
            None => None,
        };
        self.pre_agg_primitive(v)
    }

    /// Typed channel for `u32` values: cast into the accumulator's kind, then
    /// folded. The value must fit the kind.
    pub fn pre_agg_u32(&mut self, _chunk_idx: IdxSize, item: Option<u32>)
        requires
            old(self).wf(),
            item matches Some(v) ==> old(self).spec_kind().holds(v as int),
            item is Some ==> old(self)@.count < IdxSize::MAX,
        ensures
            final(self).wf(),
            final(self).spec_kind() == old(self).spec_kind(),
            final(self)@ == step(
                old(self).spec_kind(),
                old(self)@,
                match item {
                    Some(v) => Some(v as int),
                    None => None,
                },
            ),
    {
        let v: Option<i128> = match item {
            Some(x) => Some(x as i128),
            None => None,
        };
        self.pre_agg_primitive(v)
    }

    /// Typed channel for `u64` values: cast into the accumulator's kind, then
    /// folded. The value must fit the kind.
    pub fn pre_agg_u64(&mut self, _chunk_idx: IdxSize, item: Option<u64>)
        requires
            old(self).wf(),
            item matches Some(v) ==> old(self).spec_kind().holds(v as int),
            item is Some ==> old(self)@.count < IdxSize::MAX,
        ensures
            final(self).wf(),
            final(self).spec_kind() == old(self).spec_kind(),
            final(self)@ == step(
                old(self).spec_kind(),
                old(self)@,
                match item {
                    Some(v) => Some(v as int),
                    None => None,
                },
            ),
    {
        let v: Option<i128> = match item {
            Some(x) => Some(x as i128),
            None => None,
        };
        self.pre_agg_primitive(v)
    }

    /// Folds the outcome of extracting a dynamic value as a number: nothing
    /// extracted, or a number that does not fit the kind, is skipped.
    pub fn pre_agg_extracted(&mut self, item: Option<i128>)
        requires
            old(self).wf(),
            count_room(old(self)@, extracted_item(old(self).spec_kind(), item)),
        ensures
            final(self).wf(),
            final(self).spec_kind() == old(self).spec_kind(),
            final(self)@ == step(
                old(self).spec_kind(),
                old(self)@,
                extracted_item(old(self).spec_kind(), item),
            ),
    {
        let v: Option<i128> = match item {
            Some(x) => self.kind.cast(x),
            None => None,
        };
        self.pre_agg_primitive(v)
    }

    /// Whether the statically-typed channels can be used for this aggregate.
    pub fn has_physical_agg(&self) -> (r: bool)
        ensures
            r,
    {
        true
    }

    /// How many present values the state holds.
    pub fn count(&self) -> (r: IdxSize)
        ensures
            r == self@.count,
    {
        self.count
    }

    /// The declared output kind; it never changes over the accumulator's life.
    pub fn dtype(&self) -> (r: NumericKind)
        ensures
            r == self.spec_kind(),
    {
        self.kind
    }

    /// Merges a sibling partial state of the same kind into this one.
    pub fn combine(&mut self, other: &MeanAgg)
        requires
            old(self).wf(),
            other.wf(),
            old(self).spec_kind() == other.spec_kind(),
            merge_room(old(self)@, other@),
        ensures
            final(self).wf(),
            final(self).spec_kind() == old(self).spec_kind(),
            final(self)@ == merge(old(self).spec_kind(), old(self)@, other@),
    {
        proof {
            lemma_merge_wf(self.kind, self@, other@);
        }
        match (self.sum, other.sum) {
            (Some(lhs), Some(rhs)) => {
                self.sum = Some(self.kind.wrapping_add(lhs, rhs));
                self.count = self.count + other.count;
            },
            (None, Some(rhs)) => {
                self.sum = Some(rhs);
                self.count = other.count;
            },
            _ => {},
        }
    }

    /// The group's output: `None` if no value was folded, else the sum and
    /// count whose quotient the caller takes as the mean (no floating-point
    /// division is defined at an integer kind). The state is left as it was.
    pub fn finalize(&mut self) -> (r: Option<MeanValue>)
        requires
            old(self).wf(),
        ensures
            *final(self) == *old(self),
            r == mean_value_of(old(self)@),
            r matches Some(m) ==> m.count > 0,
    {
        match self.sum {
            Some(val) => Some(MeanValue { sum: val, count: self.count }),
            None => None,
        }
    }
}

} // verus!
