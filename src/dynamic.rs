//! The dynamically-typed ingestion channel: values arrive as polars
//! `AnyValue`s, one drawn per call from a caller-supplied sequence.
use crate::mean::{extracted_item, MeanAgg};
use crate::model::step;
use polars_core::datatypes::AnyValue;
use polars_utils::IdxSize;
use vstd::prelude::*;

verus! {

#[verifier::external_type_specification]
#[verifier::external_body]
pub struct ExAnyValue<'a>(AnyValue<'a>);

/// What `AnyValue::extract::<i128>` gives for a value: it depends on the
/// value alone.
pub uninterp spec fn extract_of(v: AnyValue<'_>) -> Option<i128>;

/// Relies on `AnyValue::extract`: numeric, boolean and numeric-string values
/// convert when they fit `i128`, every other value gives `None`; the result is
/// a function of the value alone.
#[verifier::external_body]
fn extract_i128(v: &AnyValue<'_>) -> (r: Option<i128>)
    ensures
        r == extract_of(*v),
{
    v.extract::<i128>()
}

impl MeanAgg {
    /// Dynamic channel: draws the value at `*next` from `values`, extracts it
    /// as a number and folds it. The sequence must have a value left.
    pub fn pre_agg(&mut self, _chunk_idx: IdxSize, values: &[AnyValue<'_>], next: &mut usize)
        requires
            old(self).wf(),
            old(self)@.count < IdxSize::MAX,
            *old(next) < values@.len(),
        ensures
            *final(next) == *old(next) + 1,
            final(self).wf(),
            final(self).spec_kind() == old(self).spec_kind(),
            final(self)@ == step(
                old(self).spec_kind(),
                old(self)@,
                extracted_item(old(self).spec_kind(), extract_of(values@[*old(next) as int])),
            ),
    {
        let e = extract_i128(&values[*next]);
        *next = *next + 1;
        self.pre_agg_extracted(e);
    }

    /// Checked form of [`MeanAgg::pre_agg`]: returns `false`, and changes
    /// nothing, when the sequence has no value left.
    pub fn pre_agg_checked(
        &mut self,
        chunk_idx: IdxSize,
        values: &[AnyValue<'_>],
        next: &mut usize,
    ) -> (fed: bool)
        requires
            old(self).wf(),
            old(self)@.count < IdxSize::MAX,
        ensures
            fed == (*old(next) < values@.len()),
            final(self).wf(),
            final(self).spec_kind() == old(self).spec_kind(),
            !fed ==> *final(next) == *old(next) && final(self)@ == old(self)@,
            fed ==> *final(next) == *old(next) + 1 && final(self)@ == step(
                old(self).spec_kind(),
                old(self)@,
                extracted_item(old(self).spec_kind(), extract_of(values@[*old(next) as int])),
            ),
    {
        if *next < values.len() {
            self.pre_agg(chunk_idx, values, next);
            true
        } else {
            false
        }
    }
}

} // verus!
