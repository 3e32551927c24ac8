//! English.
//!
//! Numbers are read word by word, "two hundred and thirty", or from the
//! hyphenated compounds of tens and units, "twenty-one". A multiplier needs
//! its multiplicand: "hundred" alone is no number. Ordinals keep their
//! suffix on the digit form: "twentieth" is "20th".

use vstd::prelude::*;
use crate::digit_string::{DigitString, DigitStringView};
use crate::error::Error;
use crate::lang::lexicon::{
    cardinal, fraction, interpret, interpret_decimal, interpreted, interpreted_decimal,
    lemma_interpreted, marker_of, ordinal, Entry, Term,
};
use crate::lang::{LangInterpreter, MorphologicalMarker};
use crate::text::{
    compound_position, find, find_compound, lemma_compound_holds, lemma_position_holds,
    position, words,
};

verus! {

/// The words for zero.
pub const ZEROS: [&'static str; 3] = ["zero", "o", "nought"];

/// The words for one to nine.
pub const UNITS: [&'static str; 9] = [
    "one",
    "two",
    "three",
    "four",
    "five",
    "six",
    "seven",
    "eight",
    "nine",
];

/// The words for ten to nineteen.
pub const TEENS: [&'static str; 10] = [
    "ten",
    "eleven",
    "twelve",
    "thirteen",
    "fourteen",
    "fifteen",
    "sixteen",
    "seventeen",
    "eighteen",
    "nineteen",
];

/// The words for twenty to ninety.
pub const TENS: [&'static str; 8] = [
    "twenty",
    "thirty",
    "forty",
    "fifty",
    "sixty",
    "seventy",
    "eighty",
    "ninety",
];

/// The multiplier inside a period.
pub const HUNDRED: [&'static str; 1] = ["hundred"];

/// The multipliers that close a scale, and the power of ten of each.
pub const SCALES: [&'static str; 3] = ["thousand", "million", "billion"];

pub const SCALE_POWERS: [u8; 3] = [3, 6, 9];

/// The word that joins the parts of one number.
pub const GLUE: [&'static str; 1] = ["and"];

/// The ordinals of one to nine.
pub const ORDINAL_UNITS: [&'static str; 9] = [
    "first",
    "second",
    "third",
    "fourth",
    "fifth",
    "sixth",
    "seventh",
    "eighth",
    "ninth",
];

/// The ordinals of ten to nineteen.
pub const ORDINAL_TEENS: [&'static str; 10] = [
    "tenth",
    "eleventh",
    "twelfth",
    "thirteenth",
    "fourteenth",
    "fifteenth",
    "sixteenth",
    "seventeenth",
    "eighteenth",
    "nineteenth",
];

/// The ordinals of twenty to ninety.
pub const ORDINAL_TENS: [&'static str; 8] = [
    "twentieth",
    "thirtieth",
    "fortieth",
    "fiftieth",
    "sixtieth",
    "seventieth",
    "eightieth",
    "ninetieth",
];

/// The ordinal of the multiplier inside a period.
pub const ORDINAL_HUNDRED: [&'static str; 1] = ["hundredth"];

/// The ordinals of the multipliers that close a scale, in the order of
/// `SCALES`.
pub const ORDINAL_SCALES: [&'static str; 3] = ["thousandth", "millionth", "billionth"];

/// The plural denominators of fractions, for three to nine.
pub const FRACTIONS: [&'static str; 7] = [
    "thirds",
    "fourths",
    "fifths",
    "sixths",
    "sevenths",
    "eighths",
    "ninths",
];

/// The names of the decimal separator `'.'`.
pub const POINTS: [&'static str; 1] = ["point"];

/// The words that link numbers or are noise.
pub const LINKS: [&'static str; 6] = ["and", "or", "plus", "is", "uh", "um"];

/// The suffix of the ordinal of a number that ends in the digit `unit`.
pub open spec fn suffix_of(unit: nat) -> &'static str {
    if unit == 1 {
        "st"
    } else if unit == 2 {
        "nd"
    } else if unit == 3 {
        "rd"
    } else {
        "th"
    }
}

/// The suffix of the ordinal of a number that ends in the digit `unit`.
fn suffix(unit: usize) -> (suffix: &'static str)
    ensures
        suffix == suffix_of(unit as nat),
{
    if unit == 1 {
        "st"
    } else if unit == 2 {
        "nd"
    } else if unit == 3 {
        "rd"
    } else {
        "th"
    }
}

/// The entry of `word` in the English vocabulary, if it has one.
pub open spec fn entry(word: Seq<char>) -> Option<Entry> {
    if position(words(ZEROS@), word) is Some {
        cardinal(Term::Zero)
    } else if let Some(i) = position(words(UNITS@), word) {
        cardinal(Term::Unit((i + 1) as u8))
    } else if let Some(i) = position(words(TEENS@), word) {
        cardinal(Term::Pair((i + 10) as u8))
    } else if let Some(i) = position(words(TENS@), word) {
        cardinal(Term::Tens((i + 2) as u8))
    } else if position(words(HUNDRED@), word) is Some {
        cardinal(Term::Times { power: 2, alone: false })
    } else if let Some(i) = position(words(SCALES@), word) {
        cardinal(Term::Scale { power: SCALE_POWERS[i as int], alone: false })
    } else if position(words(GLUE@), word) is Some {
        cardinal(Term::Glue)
    } else if let Some(i) = position(words(ORDINAL_UNITS@), word) {
        ordinal(Term::Unit((i + 1) as u8), suffix_of(i + 1))
    } else if let Some(i) = position(words(ORDINAL_TEENS@), word) {
        ordinal(Term::Pair((i + 10) as u8), "th")
    } else if let Some(i) = position(words(ORDINAL_TENS@), word) {
        ordinal(Term::Tens((i + 2) as u8), "th")
    } else if position(words(ORDINAL_HUNDRED@), word) is Some {
        ordinal(Term::Times { power: 2, alone: false }, "th")
    } else if let Some(i) = position(words(ORDINAL_SCALES@), word) {
        ordinal(Term::Scale { power: SCALE_POWERS[i as int], alone: false }, "th")
    } else if let Some(i) = position(words(FRACTIONS@), word) {
        fraction(
            Term::Unit((i + 3) as u8),
            if i == 0 {
                "rds"
            } else {
                "ths"
            },
        )
    } else if let Some((i, j)) = compound_position(words(TENS@), "-"@, words(UNITS@), word) {
        cardinal(Term::Pair((10 * (i + 2) + j + 1) as u8))
    } else if let Some((i, j)) = compound_position(
        words(TENS@),
        "-"@,
        words(ORDINAL_UNITS@),
        word,
    ) {
        ordinal(Term::Pair((10 * (i + 2) + j + 1) as u8), suffix_of(j + 1))
    } else {
        None
    }
}

/// Looks `word` up in the English vocabulary.
pub fn lookup(word: &str) -> (found: Option<Entry>)
    ensures
        found == entry(word@),
{
    if find(&ZEROS, word).is_some() {
        Entry::cardinal(Term::Zero)
    } else if let Some(i) = find(&UNITS, word) {
        Entry::cardinal(Term::Unit((i + 1) as u8))
    } else if let Some(i) = find(&TEENS, word) {
        Entry::cardinal(Term::Pair((i + 10) as u8))
    } else if let Some(i) = find(&TENS, word) {
        Entry::cardinal(Term::Tens((i + 2) as u8))
    } else if find(&HUNDRED, word).is_some() {
        Entry::cardinal(Term::Times { power: 2, alone: false })
    } else if let Some(i) = find(&SCALES, word) {
        Entry::cardinal(Term::Scale { power: SCALE_POWERS[i], alone: false })
    } else if find(&GLUE, word).is_some() {
        Entry::cardinal(Term::Glue)
    } else if let Some(i) = find(&ORDINAL_UNITS, word) {
        Entry::ordinal(Term::Unit((i + 1) as u8), suffix(i + 1))
    } else if let Some(i) = find(&ORDINAL_TEENS, word) {
        Entry::ordinal(Term::Pair((i + 10) as u8), "th")
    } else if let Some(i) = find(&ORDINAL_TENS, word) {
        Entry::ordinal(Term::Tens((i + 2) as u8), "th")
    } else if find(&ORDINAL_HUNDRED, word).is_some() {
        Entry::ordinal(Term::Times { power: 2, alone: false }, "th")
    } else if let Some(i) = find(&ORDINAL_SCALES, word) {
        Entry::ordinal(Term::Scale { power: SCALE_POWERS[i], alone: false }, "th")
    } else if let Some(i) = find(&FRACTIONS, word) {
        Entry::fraction(
            Term::Unit((i + 3) as u8),
            if i == 0 {
                "rds"
            } else {
                "ths"
            },
        )
    } else if let Some((i, j)) = find_compound(&TENS, "-", &UNITS, word) {
        Entry::cardinal(Term::Pair((10 * (i + 2) + j + 1) as u8))
    } else if let Some((i, j)) = find_compound(&TENS, "-", &ORDINAL_UNITS, word) {
        Entry::ordinal(Term::Pair((10 * (i + 2) + j + 1) as u8), suffix(j + 1))
    } else {
        None
    }
}

/// Every entry of the vocabulary has a meaning that the accumulator can
/// take: its digits and powers are in range.
pub proof fn lemma_entries_are_sound(word: Seq<char>)
    ensures
        entry(word) matches Some(found) ==> found.term.sound(),
{
    lemma_position_holds(words(ZEROS@), word);
    lemma_position_holds(words(UNITS@), word);
    lemma_position_holds(words(TEENS@), word);
    lemma_position_holds(words(TENS@), word);
    lemma_position_holds(words(HUNDRED@), word);
    lemma_position_holds(words(SCALES@), word);
    lemma_position_holds(words(GLUE@), word);
    lemma_position_holds(words(ORDINAL_UNITS@), word);
    lemma_position_holds(words(ORDINAL_TEENS@), word);
    lemma_position_holds(words(ORDINAL_TENS@), word);
    lemma_position_holds(words(ORDINAL_HUNDRED@), word);
    lemma_position_holds(words(ORDINAL_SCALES@), word);
    lemma_position_holds(words(FRACTIONS@), word);
    lemma_compound_holds(words(TENS@), "-"@, words(UNITS@), word);
    lemma_compound_holds(words(TENS@), "-"@, words(ORDINAL_UNITS@), word);
}

/// The symbol of the decimal separator that `word` names, if it names one.
pub open spec fn separator(word: Seq<char>) -> Option<char> {
    if position(words(POINTS@), word) is Some {
        Some('.')
    } else {
        None
    }
}

/// The words that link numbers or are noise: they do not end a group of
/// number words.
pub open spec fn links(word: Seq<char>) -> bool {
    position(words(LINKS@), word) is Some
}

/// The interpreter of English. It is stateless.
#[derive(Debug, Clone, Copy)]
pub struct English;

impl Default for English {
    fn default() -> (lang: Self)
        ensures
            lang == English,
    {
        English
    }
}

impl LangInterpreter for English {
    open spec fn applied(&self, word: Seq<char>, acc: DigitStringView) -> Option<
        (Result<(), Error>, DigitStringView),
    > {
        Some(interpreted(entry(word), acc))
    }

    open spec fn applied_decimal(&self, word: Seq<char>, acc: DigitStringView) -> Option<
        (Result<(), Error>, DigitStringView),
    > {
        Some(interpreted_decimal(entry(word), acc))
    }

    open spec fn morph_marker(&self, word: Seq<char>) -> Option<MorphologicalMarker> {
        Some(marker_of(entry(word)))
    }

    open spec fn decimal_separator(&self, word: Seq<char>) -> Option<Option<char>> {
        Some(separator(word))
    }

    open spec fn linking(&self, word: Seq<char>) -> Option<bool> {
        Some(links(word))
    }

    open spec fn formats_plainly(&self) -> bool {
        true
    }

    open spec fn leaves_tokens(&self) -> bool {
        true
    }

    fn apply(&self, num_func: &str, b: &mut DigitString) -> (done: Result<(), Error>) {
        proof {
            lemma_interpreted(entry(num_func@), b@);
            assert(self.applied(num_func@, b@) == Some(interpreted(entry(num_func@), b@)));
        }
        interpret(lookup(num_func), b)
    }

    fn apply_decimal(&self, decimal_func: &str, b: &mut DigitString) -> (done: Result<(), Error>) {
        proof {
            lemma_interpreted(entry(decimal_func@), b@);
            assert(self.applied_decimal(decimal_func@, b@) == Some(
                interpreted_decimal(entry(decimal_func@), b@),
            ));
        }
        interpret_decimal(lookup(decimal_func), b)
    }

    fn get_morph_marker(&self, word: &str) -> (marker: MorphologicalMarker) {
        proof {
            assert(self.morph_marker(word@) == Some(marker_of(entry(word@))));
        }
        match lookup(word) {
            Some(found) => found.marker,
            None => MorphologicalMarker::NoMarker,
        }
    }

    fn check_decimal_separator(&self, word: &str) -> (symbol: Option<char>) {
        proof {
            assert(self.decimal_separator(word@) == Some(separator(word@)));
        }
        if find(&POINTS, word).is_some() {
            Some('.')
        } else {
            None
        }
    }

    fn is_linking(&self, word: &str) -> (found: bool) {
        proof {
            assert(self.linking(word@) == Some(links(word@)));
        }
        find(&LINKS, word).is_some()
    }
}

} // verus!
