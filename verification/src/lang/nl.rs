//! Dutch.
//!
//! Units come before tens, in one word: "eenentwintig", "tweeëntwintig". The
//! hundreds may be written in one word too: "tweehonderd". "honderd" and
//! "duizend" also stand alone, for one hundred and one thousand.

use vstd::prelude::*;
use crate::digit_string::{DigitString, DigitStringView};
use crate::error::Error;
use crate::lang::lexicon::{
    cardinal, interpret, interpret_decimal, interpreted, interpreted_decimal, lemma_interpreted,
    marker_of, ordinal, Entry, Term,
};
use crate::lang::{LangInterpreter, MorphologicalMarker};
use crate::text::{
    compound_position, find, find_compound, lemma_compound_holds, lemma_position_holds,
    position, words,
};

verus! {

/// The word for zero.
pub const ZEROS: [&'static str; 1] = ["nul"];

/// The words for one to nine.
pub const UNITS: [&'static str; 9] = [
    "een",
    "twee",
    "drie",
    "vier",
    "vijf",
    "zes",
    "zeven",
    "acht",
    "negen",
];

/// The stressed form of one.
pub const ONES: [&'static str; 1] = ["één"];

/// The words for ten to nineteen.
pub const TEENS: [&'static str; 10] = [
    "tien",
    "elf",
    "twaalf",
    "dertien",
    "veertien",
    "vijftien",
    "zestien",
    "zeventien",
    "achttien",
    "negentien",
];

/// The words for twenty to ninety.
pub const TENS: [&'static str; 8] = [
    "twintig",
    "dertig",
    "veertig",
    "vijftig",
    "zestig",
    "zeventig",
    "tachtig",
    "negentig",
];

/// One to nine with the "en" that joins them to the tens behind them.
pub const HEADS: [&'static str; 9] = [
    "eenen",
    "tweeën",
    "drieën",
    "vieren",
    "vijfen",
    "zesen",
    "zevenen",
    "achten",
    "negenen",
];

/// The multiplier inside a period.
pub const HUNDRED: [&'static str; 1] = ["honderd"];

/// The multiplier that closes the thousands.
pub const THOUSAND: [&'static str; 1] = ["duizend"];

/// The multipliers that close the larger scales.
pub const SCALES: [&'static str; 2] = ["miljoen", "miljard"];

/// The power of ten of each of `SCALES`.
pub const SCALE_POWERS: [u8; 2] = [6, 9];

/// The word that joins the parts of one number.
pub const GLUE: [&'static str; 1] = ["en"];

/// The ordinals of one to nine.
pub const ORDINALS: [&'static str; 9] = [
    "eerste",
    "tweede",
    "derde",
    "vierde",
    "vijfde",
    "zesde",
    "zevende",
    "achtste",
    "negende",
];

/// The ordinals of ten to twelve.
pub const ORDINAL_TEENS: [&'static str; 3] = ["tiende", "elfde", "twaalfde"];

/// The names of the decimal separator `','`.
pub const COMMAS: [&'static str; 1] = ["komma"];

/// The words that link numbers or are noise.
pub const LINKS: [&'static str; 5] = ["en", "of", "plus", "is", "uh"];

/// The entry of `word` in the Dutch vocabulary, if it has one.
pub open spec fn entry(word: Seq<char>) -> Option<Entry> {
    if position(words(ZEROS@), word) is Some {
        cardinal(Term::Zero)
    } else if let Some(i) = position(words(UNITS@), word) {
        cardinal(Term::Unit((i + 1) as u8))
    } else if position(words(ONES@), word) is Some {
        cardinal(Term::Unit(1))
    } else if let Some(i) = position(words(TEENS@), word) {
        cardinal(Term::Pair((i + 10) as u8))
    } else if let Some(i) = position(words(TENS@), word) {
        cardinal(Term::Tens((i + 2) as u8))
    } else if position(words(HUNDRED@), word) is Some {
        cardinal(Term::Times { power: 2, alone: true })
    } else if position(words(THOUSAND@), word) is Some {
        cardinal(Term::Scale { power: 3, alone: true })
    } else if let Some(i) = position(words(SCALES@), word) {
        cardinal(Term::Scale { power: SCALE_POWERS[i as int], alone: false })
    } else if position(words(GLUE@), word) is Some {
        cardinal(Term::Glue)
    } else if let Some(i) = position(words(ORDINALS@), word) {
        ordinal(
            Term::Unit((i + 1) as u8),
            if i == 0 || i == 7 {
                "ste"
            } else {
                "de"
            },
        )
    } else if let Some(i) = position(words(ORDINAL_TEENS@), word) {
        ordinal(Term::Pair((i + 10) as u8), "de")
    } else if let Some((i, j)) = compound_position(words(HEADS@), ""@, words(TENS@), word) {
        cardinal(Term::Pair((10 * (j + 2) + i + 1) as u8))
    } else if let Some((i, _)) = compound_position(words(UNITS@), ""@, words(HUNDRED@), word) {
        cardinal(Term::Hundreds((i + 1) as u8))
    } else {
        None
    }
}

/// Looks `word` up in the Dutch vocabulary.
pub fn lookup(word: &str) -> (found: Option<Entry>)
    ensures
        found == entry(word@),
{
    if find(&ZEROS, word).is_some() {
        Entry::cardinal(Term::Zero)
    } else if let Some(i) = find(&UNITS, word) {
        Entry::cardinal(Term::Unit((i + 1) as u8))
    } else if find(&ONES, word).is_some() {
        Entry::cardinal(Term::Unit(1))
    } else if let Some(i) = find(&TEENS, word) {
        Entry::cardinal(Term::Pair((i + 10) as u8))
    } else if let Some(i) = find(&TENS, word) {
        Entry::cardinal(Term::Tens((i + 2) as u8))
    } else if find(&HUNDRED, word).is_some() {
        Entry::cardinal(Term::Times { power: 2, alone: true })
    } else if find(&THOUSAND, word).is_some() {
        Entry::cardinal(Term::Scale { power: 3, alone: true })
    } else if let Some(i) = find(&SCALES, word) {
        Entry::cardinal(Term::Scale { power: SCALE_POWERS[i], alone: false })
    } else if find(&GLUE, word).is_some() {
        Entry::cardinal(Term::Glue)
    } else if let Some(i) = find(&ORDINALS, word) {
        Entry::ordinal(
            Term::Unit((i + 1) as u8),
            if i == 0 || i == 7 {
                "ste"
            } else {
                "de"
            },
        )
    } else if let Some(i) = find(&ORDINAL_TEENS, word) {
        Entry::ordinal(Term::Pair((i + 10) as u8), "de")
    } else if let Some((i, j)) = find_compound(&HEADS, "", &TENS, word) {
        Entry::cardinal(Term::Pair((10 * (j + 2) + i + 1) as u8))
    } else if let Some((i, _)) = find_compound(&UNITS, "", &HUNDRED, word) {
        Entry::cardinal(Term::Hundreds((i + 1) as u8))
    } else {
        None
    }
}

/// Every entry of the vocabulary has a meaning that the accumulator can
/// take: its digits and powers are in range.
pub proof fn lemma_entries_are_sound(word: Seq<char>)
    ensures
        entry(word) matches Some(found) ==> found.term.sound(),
{
    lemma_position_holds(words(ZEROS@), word);
    lemma_position_holds(words(UNITS@), word);
    lemma_position_holds(words(ONES@), word);
    lemma_position_holds(words(TEENS@), word);
    lemma_position_holds(words(TENS@), word);
    lemma_position_holds(words(HUNDRED@), word);
    lemma_position_holds(words(THOUSAND@), word);
    lemma_position_holds(words(SCALES@), word);
    lemma_position_holds(words(GLUE@), word);
    lemma_position_holds(words(ORDINALS@), word);
    lemma_position_holds(words(ORDINAL_TEENS@), word);
    lemma_compound_holds(words(HEADS@), ""@, words(TENS@), word);
    lemma_compound_holds(words(UNITS@), ""@, words(HUNDRED@), word);
}

/// The symbol of the decimal separator that `word` names, if it names one.
pub open spec fn separator(word: Seq<char>) -> Option<char> {
    if position(words(COMMAS@), word) is Some {
        Some(',')
    } else {
        None
    }
}

/// The words that link numbers or are noise: they do not end a group of
/// number words.
pub open spec fn links(word: Seq<char>) -> bool {
    position(words(LINKS@), word) is Some
}

/// The interpreter of Dutch. It is stateless.
#[derive(Debug, Clone, Copy)]
pub struct Dutch;

impl Default for Dutch {
    fn default() -> (lang: Self)
        ensures
            lang == Dutch,
    {
        Dutch
    }
}

impl LangInterpreter for Dutch {
    open spec fn applied(&self, word: Seq<char>, acc: DigitStringView) -> Option<
        (Result<(), Error>, DigitStringView),
    > {
        Some(interpreted(entry(word), acc))
    }

    open spec fn applied_decimal(&self, word: Seq<char>, acc: DigitStringView) -> Option<
        (Result<(), Error>, DigitStringView),
    > {
        Some(interpreted_decimal(entry(word), acc))
    }

    open spec fn morph_marker(&self, word: Seq<char>) -> Option<MorphologicalMarker> {
        Some(marker_of(entry(word)))
    }

    open spec fn decimal_separator(&self, word: Seq<char>) -> Option<Option<char>> {
        Some(separator(word))
    }

    open spec fn linking(&self, word: Seq<char>) -> Option<bool> {
        Some(links(word))
    }

    open spec fn formats_plainly(&self) -> bool {
        true
    }

    open spec fn leaves_tokens(&self) -> bool {
        true
    }

    fn apply(&self, num_func: &str, b: &mut DigitString) -> (done: Result<(), Error>) {
        proof {
            lemma_interpreted(entry(num_func@), b@);
            assert(self.applied(num_func@, b@) == Some(interpreted(entry(num_func@), b@)));
        }
        interpret(lookup(num_func), b)
    }

    fn apply_decimal(&self, decimal_func: &str, b: &mut DigitString) -> (done: Result<(), Error>) {
        proof {
            lemma_interpreted(entry(decimal_func@), b@);
            assert(self.applied_decimal(decimal_func@, b@) == Some(
                interpreted_decimal(entry(decimal_func@), b@),
            ));
        }
        interpret_decimal(lookup(decimal_func), b)
    }

    fn get_morph_marker(&self, word: &str) -> (marker: MorphologicalMarker) {
        proof {
            assert(self.morph_marker(word@) == Some(marker_of(entry(word@))));
        }
        match lookup(word) {
            Some(found) => found.marker,
            None => MorphologicalMarker::NoMarker,
        }
    }

    fn check_decimal_separator(&self, word: &str) -> (symbol: Option<char>) {
        proof {
            assert(self.decimal_separator(word@) == Some(separator(word@)));
        }
        if find(&COMMAS, word).is_some() {
            Some(',')
        } else {
            None
        }
    }

    fn is_linking(&self, word: &str) -> (found: bool) {
        proof {
            assert(self.linking(word@) == Some(links(word@)));
        }
        find(&LINKS, word).is_some()
    }
}

} // verus!
