use std::cell::Cell;
use text2num::digit_string::DigitString;
use text2num::error::Error;
use text2num::lang::en::English;
use text2num::lang::group::{after_word, close_group, group_end, is_boundary};
use text2num::lang::{BasicAnnotate, LangInterpreter, Language, MorphologicalMarker};
use text2num::numeral::Value;

/// A language that counts the words it is asked to interpret.
struct Probe {
    applied: Cell<u32>,
    sentinels: Cell<u32>,
}

impl Probe {
    fn new() -> Probe {
        Probe { applied: Cell::new(0), sentinels: Cell::new(0) }
    }
}

impl LangInterpreter for Probe {
    fn apply(&self, num_func: &str, b: &mut DigitString) -> Result<(), Error> {
        self.applied.set(self.applied.get() + 1);
        match num_func {
            "sentinel" => {
                self.sentinels.set(self.sentinels.get() + 1);
                b.push(7)
            }
            "overlap" => Err(Error::Overlap),
            "inconsistent" => Err(Error::Inconsistent),
            "open" => Err(Error::Incomplete),
            "digit" => b.push(1),
            _ => Err(Error::NotANumber),
        }
    }

    fn apply_decimal(&self, decimal_func: &str, b: &mut DigitString) -> Result<(), Error> {
        self.apply(decimal_func, b)
    }

    fn get_morph_marker(&self, _word: &str) -> MorphologicalMarker {
        MorphologicalMarker::NoMarker
    }

    fn check_decimal_separator(&self, word: &str) -> Option<char> {
        if word == "dot" {
            Some('.')
        } else {
            None
        }
    }

    fn is_linking(&self, word: &str) -> bool {
        word == "link"
    }
}

#[derive(Debug, Clone, PartialEq)]
struct Token {
    text: String,
    nan: bool,
}

impl BasicAnnotate for Token {
    fn text_lowercase(&self) -> &str {
        &self.text
    }

    fn set_nan(&mut self, val: bool) {
        self.nan = val;
    }
}

#[test]
fn fail_fast_stops_at_the_first_error() {
    for (word, error) in [
        ("overlap", Error::Overlap),
        ("inconsistent", Error::Inconsistent),
        ("dogs", Error::NotANumber),
    ] {
        let probe = Probe::new();
        let outcome = probe.exec_group(&["digit", word, "sentinel"]);
        assert_eq!(outcome.err(), Some(error));
        assert_eq!(probe.applied.get(), 2);
        assert_eq!(probe.sentinels.get(), 0);
    }
    let probe = Probe::new();
    let outcome = probe.exec_group(&["digit", "open", "sentinel"]);
    assert_eq!(outcome.unwrap().to_string(), "17");
    assert_eq!(probe.applied.get(), 3);
    assert_eq!(probe.sentinels.get(), 1);
}

#[test]
fn fail_fast_gives_the_same_error_whatever_follows() {
    let lang = English;
    let failing: [&[&str]; 3] = [&["two", "dogs"], &["two", "three"], &["hundred", "two"]];
    for before in failing {
        let error = lang.exec_group(before).err().unwrap();
        for after in ["three", "hundred", "dogs", "and"] {
            let mut longer = before.to_vec();
            longer.push(after);
            assert_eq!(lang.exec_group(&longer).err(), Some(error));
        }
    }
}

#[test]
fn group_ending_open_fails_with_incomplete() {
    let probe = Probe::new();
    assert_eq!(probe.exec_group(&["digit", "open"]).err(), Some(Error::Incomplete));
    assert_eq!(probe.exec_group(&["open"]).err(), Some(Error::Incomplete));
    assert_eq!(probe.exec_group(&["open", "open", "digit"]).unwrap().to_string(), "1");
    assert_eq!(probe.exec_group(&[]).unwrap().to_string(), "");
}

#[test]
fn after_word_and_close_group() {
    assert_eq!(after_word(Ok(())), Ok(false));
    assert_eq!(after_word(Err(Error::Incomplete)), Ok(true));
    assert_eq!(after_word(Err(Error::NotANumber)), Err(Error::NotANumber));
    assert_eq!(after_word(Err(Error::Overlap)), Err(Error::Overlap));
    assert_eq!(after_word(Err(Error::Inconsistent)), Err(Error::Inconsistent));
    let mut acc = DigitString::new();
    acc.place(42, 0).unwrap();
    assert_eq!(close_group(true, acc.duplicate()).err(), Some(Error::Incomplete));
    assert_eq!(close_group(false, acc).unwrap().to_string(), "42");
}

#[test]
fn default_rendering_serves_every_language() {
    let probe = Probe::new();
    let int = probe.exec_group(&["digit", "sentinel"]).unwrap();
    let dec = probe.exec_group(&["sentinel"]).unwrap();
    assert_eq!(
        probe.format_and_value(&int),
        ("17".to_string(), Some(Value { mantissa: 17, places: 0 }))
    );
    assert_eq!(
        probe.format_decimal_and_value(&int, &dec, ','),
        ("17,7".to_string(), Some(Value { mantissa: 177, places: 1 }))
    );
}

#[test]
fn boundaries_end_groups() {
    let probe = Probe::new();
    assert!(is_boundary(&probe, "dogs"));
    assert!(!is_boundary(&probe, "digit"));
    assert!(!is_boundary(&probe, "link"));
    assert!(!is_boundary(&probe, "dot"));
    assert!(!is_boundary(&probe, "open"));
    assert!(!is_boundary(&probe, "overlap"));
    let tokens = ["digit", "link", "digit", "dot", "digit", "dogs", "digit"];
    assert_eq!(group_end(&probe, &tokens, 0), 5);
    assert_eq!(group_end(&probe, &tokens, 5), 5);
    assert_eq!(group_end(&probe, &tokens, 6), 7);
    assert_eq!(group_end(&probe, &tokens, 7), 7);
    assert_eq!(group_end(&probe, &[], 0), 0);
    assert!(is_boundary(&English, "dogs"));
    assert!(!is_boundary(&English, "hundred"));
    assert!(!is_boundary(&English, "point"));
}

#[test]
fn annotation_leaves_the_tokens() {
    let tokens = vec![
        Token { text: "two".to_string(), nan: false },
        Token { text: "dogs".to_string(), nan: true },
    ];
    let mut seen = tokens.clone();
    English.basic_annotate(&mut seen);
    assert_eq!(seen, tokens);
    Language::french().basic_annotate(&mut seen);
    assert_eq!(seen, tokens);
    Probe::new().basic_annotate(&mut seen);
    assert_eq!(seen, tokens);
    seen[0].set_nan(true);
    assert!(seen[0].nan);
    assert_eq!(seen[0].text_lowercase(), "two");
}

#[test]
fn markers_tell_their_kind() {
    let ordinal = MorphologicalMarker::Ordinal("th");
    let fraction = MorphologicalMarker::Fraction("ths");
    let none = MorphologicalMarker::NoMarker;
    assert!(ordinal.is_ordinal() && !ordinal.is_fraction() && !ordinal.is_none());
    assert!(!fraction.is_ordinal() && fraction.is_fraction() && !fraction.is_none());
    assert!(!none.is_ordinal() && !none.is_fraction() && none.is_none());
}
