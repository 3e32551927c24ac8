use text2num::digit_string::DigitString;
use text2num::error::Error;
use text2num::lang::en::English;
use text2num::lang::group::group_end;
use text2num::lang::{LangInterpreter, MorphologicalMarker};
use text2num::numeral::Value;

fn as_float(value: Option<Value>) -> f64 {
    let value = value.expect("the value fits");
    value.mantissa as f64 / 10f64.powi(value.places as i32)
}

fn digits(words: &[&str]) -> Result<String, Error> {
    English.exec_group(words).map(|acc| acc.to_string())
}

#[test]
fn ordinal_round_trip() {
    let lang = English;
    let acc = lang.exec_group(&["twentieth"]).unwrap();
    let (text, value) = lang.format_and_value(&acc);
    assert_eq!(text, "20th");
    assert_eq!(as_float(value), 20.0);
    assert_eq!(acc.marker(), MorphologicalMarker::Ordinal("th"));
    assert_eq!(lang.get_morph_marker("twentieth"), MorphologicalMarker::Ordinal("th"));
}

#[test]
fn decimal_composition() {
    let lang = English;
    let int = lang.exec_group(&["twelve"]).unwrap();
    let sep = lang.check_decimal_separator("point").unwrap();
    assert_eq!(sep, '.');
    let mut dec = DigitString::new();
    assert_eq!(lang.apply_decimal("five", &mut dec), Ok(()));
    let (text, value) = lang.format_decimal_and_value(&int, &dec, sep);
    assert_eq!(text, "12.5");
    assert_eq!(value, Some(Value { mantissa: 125, places: 1 }));
    assert_eq!(as_float(value), 12.5);
}

#[test]
fn magnitude_ordering() {
    let lang = English;
    let acc = lang.exec_group(&["two", "hundred", "thirty"]).unwrap();
    let (text, value) = lang.format_and_value(&acc);
    assert_eq!(text, "230");
    assert_eq!(value, Some(Value { mantissa: 230, places: 0 }));
    assert_eq!(as_float(value), 230.0);
    assert_eq!(lang.exec_group(&["hundred", "two"]).err(), Some(Error::Inconsistent));
}

#[test]
fn dangling_scale_is_incomplete() {
    assert_eq!(digits(&["hundred"]), Err(Error::Incomplete));
    assert_eq!(digits(&["thousand"]), Err(Error::Incomplete));
    assert_eq!(digits(&["million"]), Err(Error::Incomplete));
    assert_eq!(digits(&["billion"]), Err(Error::Incomplete));
    assert_eq!(digits(&["two", "hundred", "and"]), Err(Error::Incomplete));
    assert_eq!(digits(&["two", "million", "thousand"]), Err(Error::Incomplete));
}

#[test]
fn not_a_number_leaves_the_accumulator_empty() {
    let lang = English;
    for word in ["dogs", "", "and", "Twenty", "twenty one", "hundreds"] {
        let mut acc = DigitString::new();
        assert_eq!(lang.apply(word, &mut acc), Err(Error::NotANumber), "{word}");
        assert_eq!(lang.format_and_value(&acc).0, "");
        assert!(acc.is_empty());
        assert!(!acc.is_frozen());
        assert_eq!(lang.apply("two", &mut acc), Ok(()));
        assert_eq!(lang.apply(word, &mut acc), Err(Error::NotANumber), "{word}");
        assert_eq!(lang.format_and_value(&acc).0, "2");
    }
}

#[test]
fn rendering_is_read_only() {
    let lang = English;
    let acc = lang.exec_group(&["three", "hundred", "and", "first"]).unwrap();
    let first = lang.format_and_value(&acc);
    let second = lang.format_and_value(&acc);
    assert_eq!(first, second);
    assert_eq!(first.0, "301st");
    assert_eq!(first.1, Some(Value { mantissa: 301, places: 0 }));
    let dec = lang.exec_group(&[]).unwrap();
    assert_eq!(
        lang.format_decimal_and_value(&acc, &dec, '.'),
        lang.format_decimal_and_value(&acc, &dec, '.')
    );
    assert_eq!(acc.to_string(), "301");
}

#[test]
fn linking_segmentation() {
    let lang = English;
    assert!(lang.is_linking("and"));
    assert!(!lang.is_linking("dogs"));
    assert!(!lang.is_linking("two"));
    let tokens = ["two", "and", "thirty", "dogs"];
    assert_eq!(group_end(&lang, &tokens, 0), 3);
    assert_eq!(group_end(&lang, &tokens, 1), 3);
    assert_eq!(group_end(&lang, &tokens, 3), 3);
    assert_eq!(group_end(&lang, &tokens, 4), 4);
    assert_eq!(group_end(&lang, &tokens, 9), 9);
    let tokens = ["two", "pigs", "and", "three", "point", "five", "chickens"];
    assert_eq!(group_end(&lang, &tokens, 0), 1);
    assert_eq!(group_end(&lang, &tokens, 2), 6);
    let tokens = ["two", "plus", "three", "is", "uh", "five"];
    assert_eq!(group_end(&lang, &tokens, 0), 6);
}

#[test]
fn larger_numbers() {
    let cases: [(&[&str], &str); 12] = [
        (&["one", "thousand", "two", "hundred", "and", "three"], "1203"),
        (&["two", "million", "three", "hundred", "thousand", "five"], "2300005"),
        (&["twenty-one"], "21"),
        (&["ninety-nine", "thousand", "nine", "hundred", "ninety-nine"], "99999"),
        (&["zero"], "0"),
        (&["nought"], "0"),
        (&["nineteen"], "19"),
        (&["three", "billion"], "3000000000"),
        (&["one", "thousand", "and", "one"], "1001"),
        (&["twenty", "one"], "21"),
        (&["five", "hundred", "thousand"], "500000"),
        (
            &[
                "one", "hundred", "twenty", "three", "million", "four", "hundred", "fifty",
                "six", "thousand", "seven", "hundred", "eighty", "nine",
            ],
            "123456789",
        ),
    ];
    for (words, expected) in cases {
        assert_eq!(digits(words).as_deref(), Ok(expected), "{:?}", words);
    }
    assert_eq!(digits(&[]).as_deref(), Ok(""));
}

#[test]
fn malformed_numbers() {
    let cases: [(&[&str], Error); 12] = [
        (&["two", "three"], Error::Overlap),
        (&["twenty", "thirty"], Error::Overlap),
        (&["ten", "two"], Error::Overlap),
        (&["two", "twenty"], Error::Overlap),
        (&["two", "thousand", "three", "million"], Error::Inconsistent),
        (&["one", "thousand", "thousand"], Error::Inconsistent),
        (&["twenty", "hundred"], Error::Overlap),
        (&["twelve", "hundred"], Error::Overlap),
        (&["two", "dogs"], Error::NotANumber),
        (&["two", "and", "three"], Error::NotANumber),
        (&["twentieth", "one"], Error::Inconsistent),
        (&["zero", "one"], Error::Overlap),
    ];
    for (words, expected) in cases {
        assert_eq!(digits(words), Err(expected), "{:?}", words);
    }
}

#[test]
fn ordinals_and_fractions_bear_markers() {
    let lang = English;
    let cases: [(&[&str], &str, MorphologicalMarker); 8] = [
        (&["first"], "1st", MorphologicalMarker::Ordinal("st")),
        (&["twenty", "second"], "22nd", MorphologicalMarker::Ordinal("nd")),
        (&["thirty-third"], "33rd", MorphologicalMarker::Ordinal("rd")),
        (&["twelfth"], "12th", MorphologicalMarker::Ordinal("th")),
        (&["two", "hundredth"], "200th", MorphologicalMarker::Ordinal("th")),
        (&["one", "millionth"], "1000000th", MorphologicalMarker::Ordinal("th")),
        (&["thirds"], "3", MorphologicalMarker::Fraction("rds")),
        (&["fifths"], "5", MorphologicalMarker::Fraction("ths")),
    ];
    for (words, expected, marker) in cases {
        let acc = lang.exec_group(words).unwrap();
        assert_eq!(lang.format_and_value(&acc).0, expected, "{:?}", words);
        assert_eq!(acc.marker(), marker);
        assert!(acc.is_frozen());
    }
    assert_eq!(lang.get_morph_marker("third"), MorphologicalMarker::Ordinal("rd"));
    assert!(lang.get_morph_marker("thirds").is_fraction());
    assert!(lang.get_morph_marker("three").is_none());
    assert!(lang.get_morph_marker("dogs").is_none());
    assert!(lang.get_morph_marker("twenty-first").is_ordinal());
}

#[test]
fn decimals_are_spelled_digit_by_digit() {
    let lang = English;
    let mut dec = DigitString::new();
    for word in ["zero", "five", "o", "nine"] {
        assert_eq!(lang.apply_decimal(word, &mut dec), Ok(()));
    }
    assert_eq!(dec.to_string(), "0509");
    for word in ["twelve", "twenty", "hundred", "first", "point", "dogs", "and"] {
        assert_eq!(lang.apply_decimal(word, &mut dec), Err(Error::NotANumber), "{word}");
    }
    assert_eq!(dec.to_string(), "0509");
    let int = lang.exec_group(&["three"]).unwrap();
    let (text, value) = lang.format_decimal_and_value(&int, &dec, '.');
    assert_eq!(text, "3.0509");
    assert_eq!(value, Some(Value { mantissa: 30509, places: 4 }));
    assert_eq!(lang.apply_decimal("five", &mut lang.exec_group(&["two"]).unwrap()), Err(Error::Inconsistent));
}

#[test]
fn separators_and_links() {
    let lang = English;
    assert_eq!(lang.check_decimal_separator("point"), Some('.'));
    assert_eq!(lang.check_decimal_separator("comma"), None);
    assert_eq!(lang.check_decimal_separator("two"), None);
    for word in ["and", "or", "plus", "is", "uh", "um"] {
        assert!(lang.is_linking(word));
    }
    for word in ["pigs", "chickens", "two", "point", ""] {
        assert!(!lang.is_linking(word));
    }
}

#[test]
fn values_that_do_not_fit_have_no_value() {
    let lang = English;
    let mut dec = DigitString::new();
    for _ in 0..25 {
        assert_eq!(lang.apply_decimal("nine", &mut dec), Ok(()));
    }
    let int = lang.exec_group(&["one"]).unwrap();
    let (text, value) = lang.format_decimal_and_value(&int, &dec, '.');
    assert_eq!(text, "1.9999999999999999999999999");
    assert_eq!(value, None);
    assert_eq!(lang.format_and_value(&dec).1, None);
}
