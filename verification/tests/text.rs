use text2num::digit_string::DigitString;
use text2num::error::Error;
use text2num::lang::lexicon::{interpret, interpret_decimal, Entry, Term};
use text2num::lang::MorphologicalMarker;
use text2num::text::{find, find_compound, same_text};

#[test]
fn same_text_compares_characters() {
    assert!(same_text("", ""));
    assert!(same_text("one", "one"));
    assert!(same_text("zwölf", "zwölf"));
    assert!(!same_text("one", "two"));
    assert!(!same_text("one", "ones"));
    assert!(!same_text("one", "One"));
    assert!(!same_text("zwölf", "zwolf"));
    assert!(!same_text("", "a"));
}

#[test]
fn find_gives_the_first_place() {
    let list = ["one", "two", "three", "two"];
    assert_eq!(find(&list, "one"), Some(0));
    assert_eq!(find(&list, "two"), Some(1));
    assert_eq!(find(&list, "three"), Some(2));
    assert_eq!(find(&list, "four"), None);
    assert_eq!(find(&list, ""), None);
    assert_eq!(find(&[], "one"), None);
}

#[test]
fn find_compound_gives_head_and_tail() {
    let heads = ["twenty", "thirty"];
    let tails = ["one", "two", "three"];
    assert_eq!(find_compound(&heads, "-", &tails, "twenty-one"), Some((0, 0)));
    assert_eq!(find_compound(&heads, "-", &tails, "thirty-three"), Some((1, 2)));
    assert_eq!(find_compound(&heads, "", &tails, "thirtytwo"), Some((1, 1)));
    assert_eq!(find_compound(&heads, "-", &tails, "thirtytwo"), None);
    assert_eq!(find_compound(&heads, "-", &tails, "twenty-"), None);
    assert_eq!(find_compound(&heads, "-", &tails, "twenty"), None);
    assert_eq!(find_compound(&heads, "-", &tails, "forty-one"), None);
    assert_eq!(find_compound(&[], "-", &tails, "one"), None);
    assert_eq!(find_compound(&heads, "-", &[], "twenty-"), None);
    assert_eq!(find_compound(&["a", "ab"], "", &["bc", "c"], "abc"), Some((0, 0)));
}

fn run(terms: &[Term]) -> (Result<(), Error>, String) {
    let mut acc = DigitString::new();
    let mut done = Ok(());
    for term in terms {
        done = interpret(Entry::cardinal(*term), &mut acc);
    }
    (done, acc.to_string())
}

#[test]
fn terms_act_on_the_accumulator() {
    assert_eq!(run(&[Term::Zero]), (Ok(()), "0".to_string()));
    assert_eq!(run(&[Term::Unit(7)]), (Ok(()), "7".to_string()));
    assert_eq!(run(&[Term::Pair(42)]), (Ok(()), "42".to_string()));
    assert_eq!(run(&[Term::Tens(4)]), (Ok(()), "40".to_string()));
    assert_eq!(run(&[Term::Hundreds(4)]), (Ok(()), "400".to_string()));
    assert_eq!(run(&[Term::Hundreds(4), Term::Tens(2), Term::Unit(1)]), (Ok(()), "421".to_string()));
    assert_eq!(
        run(&[Term::Unit(3), Term::Times { power: 2, alone: false }]),
        (Ok(()), "300".to_string())
    );
    assert_eq!(
        run(&[Term::Unit(3), Term::Scale { power: 3, alone: false }]),
        (Ok(()), "3000".to_string())
    );
    assert_eq!(run(&[Term::Times { power: 2, alone: true }]), (Ok(()), "100".to_string()));
    assert_eq!(run(&[Term::Scale { power: 6, alone: true }]), (Ok(()), "1000000".to_string()));
    assert_eq!(
        run(&[Term::Times { power: 2, alone: false }]),
        (Err(Error::Incomplete), "".to_string())
    );
    assert_eq!(
        run(&[Term::Unit(2), Term::Scale { power: 3, alone: true }, Term::Glue]),
        (Err(Error::Incomplete), "2000".to_string())
    );
}

#[test]
fn terms_out_of_range_are_no_numbers() {
    for term in [
        Term::Unit(0),
        Term::Unit(10),
        Term::Pair(9),
        Term::Pair(100),
        Term::Tens(0),
        Term::Tens(10),
        Term::Hundreds(0),
        Term::Hundreds(10),
        Term::Times { power: 0, alone: false },
        Term::Times { power: 3, alone: false },
        Term::Scale { power: 0, alone: false },
        Term::Glue,
    ] {
        assert_eq!(run(&[term]), (Err(Error::NotANumber), "".to_string()), "{:?}", term);
    }
    assert_eq!(
        run(&[Term::Times { power: 3, alone: true }]),
        (Err(Error::NotANumber), "".to_string())
    );
    let mut acc = DigitString::new();
    assert_eq!(interpret(None, &mut acc), Err(Error::NotANumber));
    assert_eq!(interpret_decimal(None, &mut acc), Err(Error::NotANumber));
    assert!(acc.is_empty() && !acc.is_frozen());
}

#[test]
fn a_multiplier_alone_changes_nothing_where_it_fails() {
    let mut acc = DigitString::new();
    acc.place(2, 0).unwrap();
    acc.scale(3).unwrap();
    assert_eq!(
        interpret(Entry::cardinal(Term::Scale { power: 3, alone: true }), &mut acc),
        Err(Error::Inconsistent)
    );
    assert_eq!(acc.to_string(), "2000");
    assert!(!acc.is_frozen());
    assert!(acc.is_position_free(0));
    assert_eq!(
        interpret(Entry::cardinal(Term::Times { power: 2, alone: true }), &mut acc),
        Ok(())
    );
    assert_eq!(acc.to_string(), "2100");
}

#[test]
fn entries_carry_their_marker() {
    let mut acc = DigitString::new();
    assert_eq!(interpret(Entry::ordinal(Term::Tens(2), "th"), &mut acc), Ok(()));
    assert_eq!(acc.marker(), MorphologicalMarker::Ordinal("th"));
    let mut acc = DigitString::new();
    assert_eq!(interpret(Entry::fraction(Term::Unit(3), "rds"), &mut acc), Ok(()));
    assert_eq!(acc.marker(), MorphologicalMarker::Fraction("rds"));
    let mut acc = DigitString::new();
    assert_eq!(interpret_decimal(Entry::ordinal(Term::Unit(3), "rd"), &mut acc), Err(Error::NotANumber));
    assert_eq!(interpret_decimal(Entry::cardinal(Term::Unit(3)), &mut acc), Ok(()));
    assert_eq!(interpret_decimal(Entry::cardinal(Term::Zero), &mut acc), Ok(()));
    assert_eq!(interpret_decimal(Entry::cardinal(Term::Pair(12)), &mut acc), Err(Error::NotANumber));
    assert_eq!(acc.to_string(), "30");
}
