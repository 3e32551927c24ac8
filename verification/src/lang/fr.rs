//! French.
//!
//! Tens and units are joined by hyphens, "vingt-deux", "trente-et-un", or
//! come as words of their own, "vingt et un". The forms that count by
//! twenties are read in their hyphenated spelling only: "soixante-douze",
//! "quatre-vingt-dix-sept"; "septante", "huitante", "octante" and "nonante"
//! are read as well. "cent" and "mille" also stand alone.

use vstd::prelude::*;
use crate::digit_string::{DigitString, DigitStringView};
use crate::error::Error;
use crate::lang::lexicon::{
    cardinal, interpret, interpret_decimal, interpreted, interpreted_decimal, lemma_interpreted,
    marker_of, ordinal, Entry, Term,
};
use crate::lang::{LangInterpreter, MorphologicalMarker};
use crate::text::{
    compound_position, find, find_compound, lemma_compound_holds, lemma_position_holds,
    position, words,
};

verus! {

/// The word for zero.
pub const ZEROS: [&'static str; 1] = ["zéro"];

/// The words for one to nine.
pub const UNITS: [&'static str; 9] = [
    "un",
    "deux",
    "trois",
    "quatre",
    "cinq",
    "six",
    "sept",
    "huit",
    "neuf",
];

/// The forms of one that follow "et".
pub const ONES: [&'static str; 2] = ["un", "une"];

/// The words for ten to nineteen.
pub const TEENS: [&'static str; 10] = [
    "dix",
    "onze",
    "douze",
    "treize",
    "quatorze",
    "quinze",
    "seize",
    "dix-sept",
    "dix-huit",
    "dix-neuf",
];

/// The words for twenty to ninety that count by tens.
pub const TENS: [&'static str; 8] = [
    "vingt",
    "trente",
    "quarante",
    "cinquante",
    "soixante",
    "septante",
    "huitante",
    "nonante",
];

/// The word for sixty, on which seventy to seventy-nine are built.
pub const SIXTY: [&'static str; 1] = ["soixante"];

/// The word for eleven, which follows "et" in seventy-one.
pub const ELEVEN: [&'static str; 1] = ["onze"];

/// The words for eighty, on which eighty-one to ninety-nine are built.
pub const EIGHTIES: [&'static str; 3] = ["quatre-vingt", "quatre-vingts", "octante"];

/// The multiplier inside a period.
pub const HUNDRED: [&'static str; 2] = ["cent", "cents"];

/// The multiplier that closes the thousands.
pub const THOUSAND: [&'static str; 1] = ["mille"];

/// The multipliers that close the larger scales.
pub const SCALES: [&'static str; 4] = ["million", "millions", "milliard", "milliards"];

/// The power of ten of each of `SCALES`.
pub const SCALE_POWERS: [u8; 4] = [6, 6, 9, 9];

/// The word that joins the parts of one number.
pub const GLUE: [&'static str; 1] = ["et"];

/// The ordinals of one to nine.
pub const ORDINALS: [&'static str; 9] = [
    "premier",
    "deuxième",
    "troisième",
    "quatrième",
    "cinquième",
    "sixième",
    "septième",
    "huitième",
    "neuvième",
];

/// The feminine ordinal of one.
pub const ORDINAL_FIRST: [&'static str; 1] = ["première"];

/// The ordinals of ten to twelve.
pub const ORDINAL_TEENS: [&'static str; 3] = ["dixième", "onzième", "douzième"];

/// The names of the decimal separator `','`.
pub const COMMAS: [&'static str; 1] = ["virgule"];

/// The words that link numbers or are noise.
pub const LINKS: [&'static str; 5] = ["et", "ou", "plus", "est", "euh"];

/// The entry of `word` in the French vocabulary, if it has one.
pub open spec fn entry(word: Seq<char>) -> Option<Entry> {
    if position(words(ZEROS@), word) is Some {
        cardinal(Term::Zero)
    } else if let Some(i) = position(words(UNITS@), word) {
        cardinal(Term::Unit((i + 1) as u8))
    } else if position(words(ONES@), word) is Some {
        cardinal(Term::Unit(1))
    } else if let Some(i) = position(words(TEENS@), word) {
        cardinal(Term::Pair((i + 10) as u8))
    } else if let Some(i) = position(words(TENS@), word) {
        cardinal(Term::Tens((i + 2) as u8))
    } else if position(words(EIGHTIES@), word) is Some {
        cardinal(Term::Tens(8))
    } else if position(words(HUNDRED@), word) is Some {
        cardinal(Term::Times { power: 2, alone: true })
    } else if position(words(THOUSAND@), word) is Some {
        cardinal(Term::Scale { power: 3, alone: true })
    } else if let Some(i) = position(words(SCALES@), word) {
        cardinal(Term::Scale { power: SCALE_POWERS[i as int], alone: false })
    } else if position(words(GLUE@), word) is Some {
        cardinal(Term::Glue)
    } else if let Some(i) = position(words(ORDINALS@), word) {
        ordinal(
            Term::Unit((i + 1) as u8),
            if i == 0 {
                "er"
            } else {
                "ème"
            },
        )
    } else if position(words(ORDINAL_FIRST@), word) is Some {
        ordinal(Term::Unit(1), "re")
    } else if let Some(i) = position(words(ORDINAL_TEENS@), word) {
        ordinal(Term::Pair((i + 10) as u8), "ème")
    } else if let Some((i, j)) = compound_position(words(TENS@), "-"@, words(UNITS@), word) {
        cardinal(Term::Pair((10 * (i + 2) + j + 1) as u8))
    } else if let Some((i, _)) = compound_position(words(TENS@), "-et-"@, words(ONES@), word) {
        cardinal(Term::Pair((10 * (i + 2) + 1) as u8))
    } else if let Some((_, j)) = compound_position(words(SIXTY@), "-"@, words(TEENS@), word) {
        cardinal(Term::Pair((j + 70) as u8))
    } else if compound_position(words(SIXTY@), "-et-"@, words(ELEVEN@), word) is Some {
        cardinal(Term::Pair(71))
    } else if let Some((_, j)) = compound_position(words(EIGHTIES@), "-"@, words(UNITS@), word) {
        cardinal(Term::Pair((j + 81) as u8))
    } else if let Some((_, j)) = compound_position(words(EIGHTIES@), "-"@, words(TEENS@), word) {
        cardinal(Term::Pair((j + 90) as u8))
    } else {
        None
    }
}

/// Looks `word` up in the French vocabulary.
pub fn lookup(word: &str) -> (found: Option<Entry>)
    ensures
        found == entry(word@),
{
    if find(&ZEROS, word).is_some() {
        Entry::cardinal(Term::Zero)
    } else if let Some(i) = find(&UNITS, word) {
        Entry::cardinal(Term::Unit((i + 1) as u8))
    } else if find(&ONES, word).is_some() {
        Entry::cardinal(Term::Unit(1))
    } else if let Some(i) = find(&TEENS, word) {
        Entry::cardinal(Term::Pair((i + 10) as u8))
    } else if let Some(i) = find(&TENS, word) {
        Entry::cardinal(Term::Tens((i + 2) as u8))
    } else if find(&EIGHTIES, word).is_some() {
        Entry::cardinal(Term::Tens(8))
    } else if find(&HUNDRED, word).is_some() {
        Entry::cardinal(Term::Times { power: 2, alone: true })
    } else if find(&THOUSAND, word).is_some() {
        Entry::cardinal(Term::Scale { power: 3, alone: true })
    } else if let Some(i) = find(&SCALES, word) {
        Entry::cardinal(Term::Scale { power: SCALE_POWERS[i], alone: false })
    } else if find(&GLUE, word).is_some() {
        Entry::cardinal(Term::Glue)
    } else if let Some(i) = find(&ORDINALS, word) {
        Entry::ordinal(
            Term::Unit((i + 1) as u8),
            if i == 0 {
                "er"
            } else {
                "ème"
            },
        )
    } else if find(&ORDINAL_FIRST, word).is_some() {
        Entry::ordinal(Term::Unit(1), "re")
    } else if let Some(i) = find(&ORDINAL_TEENS, word) {
        Entry::ordinal(Term::Pair((i + 10) as u8), "ème")
    } else if let Some((i, j)) = find_compound(&TENS, "-", &UNITS, word) {
        Entry::cardinal(Term::Pair((10 * (i + 2) + j + 1) as u8))
    } else if let Some((i, _)) = find_compound(&TENS, "-et-", &ONES, word) {
        Entry::cardinal(Term::Pair((10 * (i + 2) + 1) as u8))
    } else if let Some((_, j)) = find_compound(&SIXTY, "-", &TEENS, word) {
        Entry::cardinal(Term::Pair((j + 70) as u8))
    } else if find_compound(&SIXTY, "-et-", &ELEVEN, word).is_some() {
        Entry::cardinal(Term::Pair(71))
    } else if let Some((_, j)) = find_compound(&EIGHTIES, "-", &UNITS, word) {
        Entry::cardinal(Term::Pair((j + 81) as u8))
    } else if let Some((_, j)) = find_compound(&EIGHTIES, "-", &TEENS, word) {
        Entry::cardinal(Term::Pair((j + 90) as u8))
    } else {
        None
    }
}

/// Every entry of the vocabulary has a meaning that the accumulator can
/// take: its digits and powers are in range.
pub proof fn lemma_entries_are_sound(word: Seq<char>)
    ensures
        entry(word) matches Some(found) ==> found.term.sound(),
{
    lemma_position_holds(words(ZEROS@), word);
    lemma_position_holds(words(UNITS@), word);
    lemma_position_holds(words(ONES@), word);
    lemma_position_holds(words(TEENS@), word);
    lemma_position_holds(words(TENS@), word);
    lemma_position_holds(words(EIGHTIES@), word);
    lemma_position_holds(words(HUNDRED@), word);
    lemma_position_holds(words(THOUSAND@), word);
    lemma_position_holds(words(SCALES@), word);
    lemma_position_holds(words(GLUE@), word);
    lemma_position_holds(words(ORDINALS@), word);
    lemma_position_holds(words(ORDINAL_FIRST@), word);
    lemma_position_holds(words(ORDINAL_TEENS@), word);
    lemma_compound_holds(words(TENS@), "-"@, words(UNITS@), word);
    lemma_compound_holds(words(TENS@), "-et-"@, words(ONES@), word);
    lemma_compound_holds(words(SIXTY@), "-"@, words(TEENS@), word);
    lemma_compound_holds(words(SIXTY@), "-et-"@, words(ELEVEN@), word);
    lemma_compound_holds(words(EIGHTIES@), "-"@, words(UNITS@), word);
    lemma_compound_holds(words(EIGHTIES@), "-"@, words(TEENS@), word);
}

/// The symbol of the decimal separator that `word` names, if it names one.
pub open spec fn separator(word: Seq<char>) -> Option<char> {
    if position(words(COMMAS@), word) is Some {
        Some(',')
    } else {
        None
    }
}

/// The words that link numbers or are noise: they do not end a group of
/// number words.
pub open spec fn links(word: Seq<char>) -> bool {
    position(words(LINKS@), word) is Some
}

/// The interpreter of French. It is stateless.
#[derive(Debug, Clone, Copy)]
pub struct French;

impl Default for French {
    fn default() -> (lang: Self)
        ensures
            lang == French,
    {
        French
    }
}

impl LangInterpreter for French {
    open spec fn applied(&self, word: Seq<char>, acc: DigitStringView) -> Option<
        (Result<(), Error>, DigitStringView),
    > {
        Some(interpreted(entry(word), acc))
    }

    open spec fn applied_decimal(&self, word: Seq<char>, acc: DigitStringView) -> Option<
        (Result<(), Error>, DigitStringView),
    > {
        Some(interpreted_decimal(entry(word), acc))
    }

    open spec fn morph_marker(&self, word: Seq<char>) -> Option<MorphologicalMarker> {
        Some(marker_of(entry(word)))
    }

    open spec fn decimal_separator(&self, word: Seq<char>) -> Option<Option<char>> {
        Some(separator(word))
    }

    open spec fn linking(&self, word: Seq<char>) -> Option<bool> {
        Some(links(word))
    }

    open spec fn formats_plainly(&self) -> bool {
        true
    }

    open spec fn leaves_tokens(&self) -> bool {
        true
    }

    fn apply(&self, num_func: &str, b: &mut DigitString) -> (done: Result<(), Error>) {
        proof {
            lemma_interpreted(entry(num_func@), b@);
            assert(self.applied(num_func@, b@) == Some(interpreted(entry(num_func@), b@)));
        }
        interpret(lookup(num_func), b)
    }

    fn apply_decimal(&self, decimal_func: &str, b: &mut DigitString) -> (done: Result<(), Error>) {
        proof {
            lemma_interpreted(entry(decimal_func@), b@);
            assert(self.applied_decimal(decimal_func@, b@) == Some(
                interpreted_decimal(entry(decimal_func@), b@),
            ));
        }
        interpret_decimal(lookup(decimal_func), b)
    }

    fn get_morph_marker(&self, word: &str) -> (marker: MorphologicalMarker) {
        proof {
            assert(self.morph_marker(word@) == Some(marker_of(entry(word@))));
        }
        match lookup(word) {
            Some(found) => found.marker,
            None => MorphologicalMarker::NoMarker,
        }
    }

    fn check_decimal_separator(&self, word: &str) -> (symbol: Option<char>) {
        proof {
            assert(self.decimal_separator(word@) == Some(separator(word@)));
        }
        if find(&COMMAS, word).is_some() {
            Some(',')
        } else {
            None
        }
    }

    fn is_linking(&self, word: &str) -> (found: bool) {
        proof {
            assert(self.linking(word@) == Some(links(word@)));
        }
        find(&LINKS, word).is_some()
    }
}

} // verus!
