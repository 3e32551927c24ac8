use text2num::digit_string::DigitString;
use text2num::error::Error;
use text2num::lang::MorphologicalMarker;
use text2num::numeral::Value;

fn pushed(digits: &str) -> DigitString {
    let mut acc = DigitString::new();
    for c in digits.chars() {
        assert_eq!(acc.push(c.to_digit(10).unwrap() as u8), Ok(()));
    }
    acc
}

#[test]
fn new_accumulator_is_empty() {
    let acc = DigitString::new();
    assert!(acc.is_empty());
    assert_eq!(acc.len(), 0);
    assert_eq!(acc.to_string(), "");
    assert_eq!(acc.parse(), Some(0));
    assert!(!acc.is_frozen());
    assert!(acc.marker().is_none());
    assert!(acc.is_position_free(0));
    assert!(acc.is_position_free(2));
    assert!(!acc.is_position_free(3));
    assert!(acc.is_blank(true));
    assert!(acc.is_blank(false));
}

#[test]
fn place_writes_at_the_position() {
    let mut acc = DigitString::new();
    assert_eq!(acc.place(7, 0), Ok(()));
    assert_eq!(acc.to_string(), "7");
    assert!(!acc.is_position_free(0));

    let mut acc = DigitString::new();
    assert_eq!(acc.place(2, 1), Ok(()));
    assert_eq!(acc.to_string(), "20");
    assert!(acc.is_position_free(0));
    assert!(!acc.is_position_free(1));

    let mut acc = DigitString::new();
    assert_eq!(acc.place(5, 2), Ok(()));
    assert_eq!(acc.to_string(), "500");
    assert_eq!(acc.place(4, 1), Ok(()));
    assert_eq!(acc.to_string(), "540");
    assert_eq!(acc.place(3, 0), Ok(()));
    assert_eq!(acc.to_string(), "543");
    assert_eq!(acc.len(), 3);

    let mut acc = DigitString::new();
    assert_eq!(acc.place(5, 2), Ok(()));
    assert_eq!(acc.place(12, 0), Ok(()));
    assert_eq!(acc.to_string(), "512");

    let mut acc = DigitString::new();
    assert_eq!(acc.place(999, 0), Ok(()));
    assert_eq!(acc.parse(), Some(999));
}

#[test]
fn place_refuses_what_is_not_a_group() {
    let mut acc = DigitString::new();
    assert_eq!(acc.place(1000, 0), Err(Error::NotANumber));
    assert_eq!(acc.place(u16::MAX, 0), Err(Error::NotANumber));
    assert_eq!(acc.place(0, 1), Err(Error::NotANumber));
    assert_eq!(acc.place(0, 2), Err(Error::NotANumber));
    assert!(acc.is_empty());
    assert!(!acc.is_frozen());
    assert_eq!(acc.place(5, 2), Ok(()));
    assert_eq!(acc.place(0, 1), Err(Error::NotANumber));
    assert_eq!(acc.to_string(), "500");
}

#[test]
fn render_adds_the_ordinal_suffix() {
    let mut acc = DigitString::new();
    assert_eq!(acc.render(), "");
    assert_eq!(acc.place(2, 1), Ok(()));
    assert_eq!(acc.render(), "20");
    let mut ordinal = acc.duplicate();
    assert_eq!(ordinal.mark(MorphologicalMarker::Ordinal("th")), Ok(()));
    assert_eq!(ordinal.render(), "20th");
    assert_eq!(ordinal.to_string(), "20");
    assert_eq!(acc.mark(MorphologicalMarker::Fraction("ths")), Ok(()));
    assert_eq!(acc.render(), "20");
}

#[test]
fn place_refuses_committed_positions() {
    let mut acc = DigitString::new();
    assert_eq!(acc.place(12, 2), Err(Error::Overlap));
    assert_eq!(acc.place(123, 1), Err(Error::Overlap));
    assert_eq!(acc.place(1, 3), Err(Error::Overlap));
    assert_eq!(acc.place(1, usize::MAX), Err(Error::Overlap));
    assert!(acc.is_empty());
    assert_eq!(acc.place(3, 0), Ok(()));
    assert_eq!(acc.place(4, 1), Err(Error::Overlap));
    assert_eq!(acc.place(4, 0), Err(Error::Overlap));
    assert_eq!(acc.to_string(), "3");

    let mut acc = DigitString::new();
    assert_eq!(acc.place(2, 1), Ok(()));
    assert_eq!(acc.place(3, 1), Err(Error::Overlap));
    assert_eq!(acc.place(13, 0), Err(Error::Overlap));
    assert_eq!(acc.to_string(), "20");
}

#[test]
fn zero_stands_alone() {
    let mut acc = DigitString::new();
    assert_eq!(acc.place(0, 0), Ok(()));
    assert_eq!(acc.to_string(), "0");
    assert_eq!(acc.place(1, 0), Err(Error::Overlap));
    assert_eq!(acc.shift(2), Err(Error::Incomplete));

    let mut acc = DigitString::new();
    assert_eq!(acc.place(2, 1), Ok(()));
    assert_eq!(acc.place(0, 0), Err(Error::Inconsistent));
    assert_eq!(acc.to_string(), "20");
    assert!(!acc.is_frozen());
}

#[test]
fn shift_multiplies_inside_the_period() {
    let mut acc = DigitString::new();
    assert_eq!(acc.place(2, 0), Ok(()));
    assert_eq!(acc.shift(2), Ok(()));
    assert_eq!(acc.to_string(), "200");
    assert!(acc.is_position_free(0));
    assert!(acc.is_position_free(1));
    assert!(!acc.is_position_free(2));
    assert_eq!(acc.shift(2), Err(Error::Overlap));
    assert_eq!(acc.to_string(), "200");

    let mut acc = DigitString::new();
    assert_eq!(acc.place(12, 0), Ok(()));
    assert_eq!(acc.shift(1), Ok(()));
    assert_eq!(acc.to_string(), "120");

    let mut acc = DigitString::new();
    assert_eq!(acc.place(12, 0), Ok(()));
    assert_eq!(acc.shift(2), Err(Error::Overlap));
    assert_eq!(acc.to_string(), "12");

    let mut acc = DigitString::new();
    assert_eq!(acc.place(2, 1), Ok(()));
    assert_eq!(acc.shift(2), Err(Error::Overlap));
}

#[test]
fn shift_refuses_other_powers() {
    let mut acc = DigitString::new();
    assert_eq!(acc.place(2, 0), Ok(()));
    assert_eq!(acc.shift(0), Err(Error::NotANumber));
    assert_eq!(acc.shift(3), Err(Error::NotANumber));
    assert_eq!(acc.shift(u8::MAX), Err(Error::NotANumber));
    assert_eq!(acc.scale(0), Err(Error::NotANumber));
    assert_eq!(acc.to_string(), "2");
    assert_eq!(acc.scale(u8::MAX), Ok(()));
    assert_eq!(acc.len(), 256);
    assert_eq!(acc.parse(), None);
}

#[test]
fn dangling_multiplier_freezes() {
    let mut acc = DigitString::new();
    assert_eq!(acc.shift(2), Err(Error::Incomplete));
    assert!(acc.is_frozen());
    assert!(acc.is_empty());
    assert_eq!(acc.place(2, 0), Err(Error::Inconsistent));
    assert_eq!(acc.push(2), Err(Error::Inconsistent));
    assert_eq!(acc.scale(3), Err(Error::Inconsistent));
    assert!(acc.is_empty());

    let mut acc = DigitString::new();
    assert_eq!(acc.scale(3), Err(Error::Incomplete));
    assert!(acc.is_frozen());

    let mut acc = DigitString::new();
    assert_eq!(acc.place(2, 0), Ok(()));
    assert_eq!(acc.scale(6), Ok(()));
    assert!(acc.is_blank(false));
    assert_eq!(acc.scale(3), Err(Error::Incomplete));
    assert!(acc.is_frozen());
    assert_eq!(acc.to_string(), "2000000");
}

#[test]
fn scale_closes_scales_in_descending_order() {
    let mut acc = DigitString::new();
    assert_eq!(acc.place(2, 0), Ok(()));
    assert_eq!(acc.scale(6), Ok(()));
    assert_eq!(acc.to_string(), "2000000");
    assert!(acc.is_position_free(2));
    assert_eq!(acc.place(3, 0), Ok(()));
    assert_eq!(acc.shift(2), Ok(()));
    assert_eq!(acc.to_string(), "2000300");
    assert_eq!(acc.scale(3), Ok(()));
    assert_eq!(acc.to_string(), "2300000");
    assert_eq!(acc.place(5, 0), Ok(()));
    assert_eq!(acc.to_string(), "2300005");
    assert_eq!(acc.parse(), Some(2300005));
}

#[test]
fn scale_refuses_a_scale_that_is_not_smaller() {
    let mut acc = DigitString::new();
    assert_eq!(acc.place(2, 0), Ok(()));
    assert_eq!(acc.scale(3), Ok(()));
    assert_eq!(acc.place(3, 0), Ok(()));
    assert_eq!(acc.scale(3), Err(Error::Inconsistent));
    assert_eq!(acc.scale(6), Err(Error::Inconsistent));
    assert_eq!(acc.to_string(), "2003");
    assert!(!acc.is_frozen());
    assert_eq!(acc.shift(2), Ok(()));
    assert_eq!(acc.to_string(), "2300");
}

#[test]
fn scale_refuses_a_product_that_reaches_the_closed_scale() {
    let mut acc = DigitString::new();
    assert_eq!(acc.place(2, 0), Ok(()));
    assert_eq!(acc.scale(6), Ok(()));
    assert_eq!(acc.place(123, 0), Ok(()));
    assert_eq!(acc.scale(4), Err(Error::Overlap));
    assert_eq!(acc.to_string(), "2000123");
    assert_eq!(acc.scale(3), Ok(()));
    assert_eq!(acc.to_string(), "2123000");
}

#[test]
fn push_spells_digit_by_digit() {
    let mut acc = DigitString::new();
    assert_eq!(acc.push(0), Ok(()));
    assert_eq!(acc.push(5), Ok(()));
    assert_eq!(acc.to_string(), "05");
    assert_eq!(acc.parse(), Some(5));
    assert_eq!(acc.parse_decimal(), Some(Value { mantissa: 5, places: 2 }));
    assert_eq!(acc.push(10), Err(Error::NotANumber));
    assert_eq!(acc.place(1, 0), Err(Error::Overlap));
    assert_eq!(acc.scale(3), Err(Error::Inconsistent));
    assert_eq!(acc.shift(2), Err(Error::Inconsistent));
    assert_eq!(acc.to_string(), "05");

    let mut acc = DigitString::new();
    assert_eq!(acc.place(2, 1), Ok(()));
    assert_eq!(acc.push(5), Err(Error::Inconsistent));
    assert_eq!(acc.to_string(), "20");
}

#[test]
fn mark_sets_the_marker_once() {
    let mut acc = DigitString::new();
    assert_eq!(acc.mark(MorphologicalMarker::NoMarker), Ok(()));
    assert_eq!(acc.mark(MorphologicalMarker::Ordinal("th")), Err(Error::Inconsistent));
    assert!(acc.marker().is_none());
    assert!(!acc.is_frozen());
    assert_eq!(acc.place(2, 1), Ok(()));
    assert_eq!(acc.mark(MorphologicalMarker::Ordinal("th")), Ok(()));
    assert!(acc.is_frozen());
    assert_eq!(acc.marker(), MorphologicalMarker::Ordinal("th"));
    assert_eq!(acc.mark(MorphologicalMarker::Fraction("ths")), Err(Error::Inconsistent));
    assert_eq!(acc.marker(), MorphologicalMarker::Ordinal("th"));
    assert_eq!(acc.mark(MorphologicalMarker::NoMarker), Ok(()));
    assert_eq!(acc.marker(), MorphologicalMarker::Ordinal("th"));
    assert_eq!(acc.place(1, 0), Err(Error::Inconsistent));
    assert_eq!(acc.to_string(), "20");
}

#[test]
fn freeze_reset_and_duplicate() {
    let mut acc = DigitString::new();
    assert_eq!(acc.place(2, 1), Ok(()));
    let copy = acc.duplicate();
    acc.freeze();
    assert!(acc.is_frozen());
    assert!(!acc.is_position_free(0));
    assert_eq!(acc.place(1, 0), Err(Error::Inconsistent));
    assert!(!copy.is_frozen());
    assert_eq!(copy.to_string(), "20");
    acc.reset();
    assert!(acc.is_empty());
    assert!(!acc.is_frozen());
    assert_eq!(acc.place(1, 0), Ok(()));
    assert_eq!(acc.to_string(), "1");
    assert_eq!(copy.to_string(), "20");
}

#[test]
fn parse_gives_the_number_where_it_fits() {
    assert_eq!(pushed("18446744073709551615").parse(), Some(u64::MAX));
    assert_eq!(pushed("18446744073709551616").parse(), None);
    assert_eq!(pushed("99999999999999999999").parse(), None);
    assert_eq!(pushed("00000000000000000000007").parse(), Some(7));
    assert_eq!(pushed("18446744073709551616").parse_decimal(), None);
    assert_eq!(
        pushed("0012").parse_decimal(),
        Some(Value { mantissa: 12, places: 4 })
    );
    assert_eq!(DigitString::new().parse_decimal(), Some(Value { mantissa: 0, places: 0 }));
}

#[test]
fn compose_joins_whole_and_tail() {
    assert_eq!(Value::compose(12, 5, 1), Some(Value { mantissa: 125, places: 1 }));
    assert_eq!(Value::compose(3, 14, 2), Some(Value { mantissa: 314, places: 2 }));
    assert_eq!(Value::compose(7, 0, 0), Some(Value { mantissa: 7, places: 0 }));
    assert_eq!(Value::compose(0, 5, 30), Some(Value { mantissa: 5, places: 30 }));
    assert_eq!(Value::compose(1, 0, 19), Some(Value { mantissa: 10_000_000_000_000_000_000, places: 19 }));
    assert_eq!(Value::compose(1, 0, 20), None);
    assert_eq!(Value::compose(1844674407370955161, 5, 1), Some(Value { mantissa: u64::MAX, places: 1 }));
    assert_eq!(Value::compose(1844674407370955161, 6, 1), None);
    assert_eq!(Value::compose(u64::MAX, 1, 0), None);
}

#[test]
fn error_leaves_group_open_only_when_incomplete() {
    assert!(Error::Incomplete.leaves_group_open());
    assert!(!Error::NotANumber.leaves_group_open());
    assert!(!Error::Overlap.leaves_group_open());
    assert!(!Error::Inconsistent.leaves_group_open());
}
