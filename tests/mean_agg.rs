use mean_agg::{MeanAgg, MeanValue, NumericKind};
use polars_core::datatypes::AnyValue;

fn fed_i64(kind: NumericKind, items: &[Option<i64>]) -> MeanAgg {
    let mut agg = MeanAgg::new(kind);
    for item in items {
        agg.pre_agg_i64(0, *item);
    }
    agg
}

fn as_mean(m: Option<MeanValue>) -> Option<f64> {
    m.map(|v| v.sum as f64 / v.count as f64)
}

#[test]
fn mean_of_three_values() {
    let mut agg = fed_i64(NumericKind::Int64, &[Some(10), Some(20), Some(30)]);
    let r = agg.finalize();
    assert_eq!(r, Some(MeanValue { sum: 60, count: 3 }));
    assert_eq!(as_mean(r), Some(20.0));
}

#[test]
fn absent_value_is_skipped() {
    let mut agg = fed_i64(NumericKind::Int64, &[Some(10), None, Some(30)]);
    let r = agg.finalize();
    assert_eq!(r, Some(MeanValue { sum: 40, count: 2 }));
    assert_eq!(as_mean(r), Some(20.0));
}

#[test]
fn nothing_fed_finalizes_to_none() {
    let mut agg = MeanAgg::new(NumericKind::Int64);
    assert_eq!(agg.finalize(), None);
}

#[test]
fn only_absent_values_finalize_to_none() {
    let mut fed = fed_i64(NumericKind::Int32, &[None, None, None]);
    let mut fresh = MeanAgg::new(NumericKind::Int32);
    assert_eq!(fed.finalize(), None);
    assert_eq!(fed.finalize(), fresh.finalize());
}

#[test]
fn split_and_combine_equals_single_pass() {
    let mut left = fed_i64(NumericKind::Int64, &[Some(10), Some(20)]);
    let right = fed_i64(NumericKind::Int64, &[Some(30), Some(40)]);
    left.combine(&right);
    let mut whole = fed_i64(NumericKind::Int64, &[Some(10), Some(20), Some(30), Some(40)]);
    let r = left.finalize();
    assert_eq!(r, Some(MeanValue { sum: 100, count: 4 }));
    assert_eq!(as_mean(r), Some(25.0));
    assert_eq!(r, whole.finalize());
}

#[test]
fn combine_order_and_grouping_do_not_matter() {
    let items = [Some(7), None, Some(-3), Some(12), None, Some(5), Some(1)];
    let mut whole = fed_i64(NumericKind::Int64, &items);
    let expected = whole.finalize();
    let a = fed_i64(NumericKind::Int64, &items[0..2]);
    let b = fed_i64(NumericKind::Int64, &items[2..5]);
    let c = fed_i64(NumericKind::Int64, &items[5..7]);
    // ((c + a) + b)
    let mut first = fed_i64(NumericKind::Int64, &items[5..7]);
    first.combine(&a);
    first.combine(&b);
    // (b + (a + c)), built in an empty accumulator
    let mut ac = fed_i64(NumericKind::Int64, &items[0..2]);
    ac.combine(&c);
    let mut second = MeanAgg::new(NumericKind::Int64);
    second.combine(&b);
    second.combine(&ac);
    assert_eq!(first.finalize(), expected);
    assert_eq!(second.finalize(), expected);
    assert_eq!(expected, Some(MeanValue { sum: 22, count: 5 }));
}

#[test]
fn wrapping_sums_still_merge_in_any_order() {
    let items = [Some(i64::MAX), Some(5), Some(i64::MIN), Some(-7)];
    let mut whole = fed_i64(NumericKind::Int64, &items);
    let mut left = fed_i64(NumericKind::Int64, &items[2..4]);
    let right = fed_i64(NumericKind::Int64, &items[0..2]);
    left.combine(&right);
    let expected = Some(MeanValue { sum: -3, count: 4 });
    assert_eq!(whole.finalize(), expected);
    assert_eq!(left.finalize(), expected);
}

#[test]
fn dtype_is_stable() {
    let mut agg = MeanAgg::new(NumericKind::UInt32);
    assert_eq!(agg.dtype(), NumericKind::UInt32);
    agg.pre_agg_u32(0, Some(4));
    agg.pre_agg_u16(1, None);
    assert_eq!(agg.dtype(), NumericKind::UInt32);
    let other = MeanAgg::new(NumericKind::UInt32);
    agg.combine(&other);
    let _ = agg.finalize();
    assert_eq!(agg.dtype(), NumericKind::UInt32);
}

#[test]
fn finalize_twice_gives_the_same() {
    let mut agg = fed_i64(NumericKind::Int64, &[Some(3), Some(4)]);
    let first = agg.finalize();
    let second = agg.finalize();
    assert_eq!(first, Some(MeanValue { sum: 7, count: 2 }));
    assert_eq!(first, second);
}

#[test]
fn combine_with_empty_other_leaves_self() {
    let mut agg = fed_i64(NumericKind::Int64, &[Some(3), Some(4)]);
    let empty = MeanAgg::new(NumericKind::Int64);
    agg.combine(&empty);
    assert_eq!(agg.finalize(), Some(MeanValue { sum: 7, count: 2 }));
}

#[test]
fn combine_into_empty_self_copies_other() {
    let mut agg = MeanAgg::new(NumericKind::Int64);
    let other = fed_i64(NumericKind::Int64, &[Some(3), None, Some(4), Some(5)]);
    agg.combine(&other);
    assert_eq!(agg.finalize(), Some(MeanValue { sum: 12, count: 3 }));
}

#[test]
fn both_empty_stay_empty() {
    let mut agg = MeanAgg::new(NumericKind::Int16);
    let other = MeanAgg::new(NumericKind::Int16);
    agg.combine(&other);
    assert_eq!(agg.finalize(), None);
}

#[test]
fn signed_16_bit_sum_wraps() {
    let mut agg = MeanAgg::new(NumericKind::Int16);
    agg.pre_agg_i16(0, Some(i16::MAX));
    agg.pre_agg_i16(0, Some(1));
    assert_eq!(agg.finalize(), Some(MeanValue { sum: -32768, count: 2 }));
}

#[test]
fn unsigned_sums_wrap() {
    let mut agg = MeanAgg::new(NumericKind::UInt16);
    agg.pre_agg_u16(0, Some(u16::MAX));
    agg.pre_agg_u16(0, Some(2));
    assert_eq!(agg.finalize(), Some(MeanValue { sum: 1, count: 2 }));
    let mut big = MeanAgg::new(NumericKind::UInt64);
    big.pre_agg_u64(0, Some(u64::MAX));
    big.pre_agg_u64(0, Some(u64::MAX));
    assert_eq!(big.finalize(), Some(MeanValue { sum: u64::MAX as i128 - 1, count: 2 }));
}

#[test]
fn combine_wraps_in_kind() {
    let mut a = MeanAgg::new(NumericKind::Int32);
    a.pre_agg_i32(0, Some(i32::MIN));
    let mut b = MeanAgg::new(NumericKind::Int32);
    b.pre_agg_i32(0, Some(-1));
    a.combine(&b);
    assert_eq!(a.finalize(), Some(MeanValue { sum: i32::MAX as i128, count: 2 }));
}

#[test]
fn typed_channels_cast_into_kind() {
    let mut agg = MeanAgg::new(NumericKind::Int64);
    agg.pre_agg_i16(0, Some(-2));
    agg.pre_agg_u16(0, Some(3));
    agg.pre_agg_i32(0, Some(-4));
    agg.pre_agg_u32(0, Some(5));
    agg.pre_agg_u64(0, Some(6));
    agg.pre_agg_i64(0, Some(-7));
    assert_eq!(agg.finalize(), Some(MeanValue { sum: 1, count: 6 }));
}

#[test]
fn extracted_values_out_of_range_are_skipped() {
    let mut agg = MeanAgg::new(NumericKind::UInt16);
    agg.pre_agg_extracted(Some(-1));
    agg.pre_agg_extracted(Some(65536));
    agg.pre_agg_extracted(None);
    assert_eq!(agg.finalize(), None);
    agg.pre_agg_extracted(Some(65535));
    agg.pre_agg_extracted(Some(1));
    assert_eq!(agg.finalize(), Some(MeanValue { sum: 0, count: 2 }));
}

#[test]
fn dynamic_channel_extracts_numbers() {
    let values = [
        AnyValue::Int64(5),
        AnyValue::Null,
        AnyValue::Boolean(true),
        AnyValue::Float64(2.75),
        AnyValue::String("12"),
        AnyValue::String("not a number"),
        AnyValue::UInt8(9),
    ];
    let mut agg = MeanAgg::new(NumericKind::Int32);
    let mut next: usize = 0;
    while next < values.len() {
        agg.pre_agg(0, &values, &mut next);
    }
    assert_eq!(next, values.len());
    assert_eq!(agg.finalize(), Some(MeanValue { sum: 29, count: 5 }));
}

#[test]
fn dynamic_channel_skips_values_that_do_not_fit() {
    let values = [AnyValue::Int64(-5), AnyValue::UInt64(70000), AnyValue::Int32(40)];
    let mut agg = MeanAgg::new(NumericKind::UInt16);
    let mut next: usize = 0;
    agg.pre_agg(0, &values, &mut next);
    agg.pre_agg(0, &values, &mut next);
    agg.pre_agg(0, &values, &mut next);
    assert_eq!(agg.finalize(), Some(MeanValue { sum: 40, count: 1 }));
}

#[test]
fn checked_dynamic_channel_reports_exhaustion() {
    let values = [AnyValue::Int16(8)];
    let mut agg = MeanAgg::new(NumericKind::Int16);
    let mut next: usize = 0;
    assert!(agg.pre_agg_checked(0, &values, &mut next));
    assert_eq!(next, 1);
    assert!(!agg.pre_agg_checked(0, &values, &mut next));
    assert_eq!(next, 1);
    assert_eq!(agg.finalize(), Some(MeanValue { sum: 8, count: 1 }));
}

#[test]
fn physical_agg_is_available() {
    let agg = MeanAgg::new(NumericKind::Int64);
    assert!(agg.has_physical_agg());
}

#[test]
fn kind_ranges_and_casts() {
    assert_eq!(NumericKind::Int16.min_value(), -32768);
    assert_eq!(NumericKind::UInt64.max_value(), u64::MAX as i128);
    assert_eq!(NumericKind::UInt32.cast(-1), None);
    assert_eq!(NumericKind::UInt32.cast(4_294_967_295), Some(4_294_967_295));
    assert_eq!(NumericKind::Int32.cast(2_147_483_648), None);
    assert_eq!(NumericKind::Int64.wrapping_add(i64::MAX as i128, 1), i64::MIN as i128);
    assert_eq!(NumericKind::UInt16.wrapping_add(0, 0), 0);
    assert_eq!(NumericKind::Int16.wrapping_add(-32768, -1), 32767);
}

#[test]
fn dynamic_channel_all_null_finalizes_to_none() {
    let values = [AnyValue::Null, AnyValue::Null, AnyValue::Null];
    let mut agg = MeanAgg::new(NumericKind::Int64);
    let mut next: usize = 0;
    while agg.pre_agg_checked(0, &values, &mut next) {}
    assert_eq!(next, 3);
    assert_eq!(agg.count(), 0);
    assert_eq!(agg.finalize(), None);
}

#[test]
fn count_follows_present_values() {
    let mut agg = fed_i64(NumericKind::Int64, &[Some(1), None, Some(2)]);
    assert_eq!(agg.count(), 2);
    let other = fed_i64(NumericKind::Int64, &[Some(5)]);
    agg.combine(&other);
    assert_eq!(agg.count(), 3);
}
