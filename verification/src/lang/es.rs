//! Spanish.
//!
//! Tens and units are joined by "y": "treinta y uno". The hundreds have
//! words of their own, "quinientos", and "mil" also stands alone. The digit
//! form of an ordinal ends in "º" or "ª".

use vstd::prelude::*;
use crate::digit_string::{DigitString, DigitStringView};
use crate::error::Error;
use crate::lang::lexicon::{
    cardinal, interpret, interpret_decimal, interpreted, interpreted_decimal, lemma_interpreted,
    marker_of, ordinal, Entry, Term,
};
use crate::lang::{LangInterpreter, MorphologicalMarker};
use crate::text::{find, lemma_position_holds, position, words};

verus! {

/// The word for zero.
pub const ZEROS: [&'static str; 1] = ["cero"];

/// The words for one to nine.
pub const UNITS: [&'static str; 9] = [
    "uno",
    "dos",
    "tres",
    "cuatro",
    "cinco",
    "seis",
    "siete",
    "ocho",
    "nueve",
];

/// The forms of one before a noun or a multiplier.
pub const ONES: [&'static str; 2] = ["un", "una"];

/// The words for ten to nineteen.
pub const TEENS: [&'static str; 10] = [
    "diez",
    "once",
    "doce",
    "trece",
    "catorce",
    "quince",
    "dieciséis",
    "diecisiete",
    "dieciocho",
    "diecinueve",
];

/// The words for twenty-one to twenty-nine.
pub const TWENTIES: [&'static str; 9] = [
    "veintiuno",
    "veintidós",
    "veintitrés",
    "veinticuatro",
    "veinticinco",
    "veintiséis",
    "veintisiete",
    "veintiocho",
    "veintinueve",
];

/// The forms of twenty-one before a noun or a multiplier.
pub const TWENTY_ONES: [&'static str; 2] = ["veintiún", "veintiuna"];

/// The words for twenty to ninety.
pub const TENS: [&'static str; 8] = [
    "veinte",
    "treinta",
    "cuarenta",
    "cincuenta",
    "sesenta",
    "setenta",
    "ochenta",
    "noventa",
];

/// The words for one hundred to nine hundred.
pub const HUNDREDS: [&'static str; 9] = [
    "ciento",
    "doscientos",
    "trescientos",
    "cuatrocientos",
    "quinientos",
    "seiscientos",
    "setecientos",
    "ochocientos",
    "novecientos",
];

/// The round hundred, and the feminine words for two hundred to nine
/// hundred.
pub const HUNDREDS_F: [&'static str; 9] = [
    "cien",
    "doscientas",
    "trescientas",
    "cuatrocientas",
    "quinientas",
    "seiscientas",
    "setecientas",
    "ochocientas",
    "novecientas",
];

/// The multiplier that closes the thousands.
pub const THOUSAND: [&'static str; 1] = ["mil"];

/// The multipliers that close the larger scales.
pub const SCALES: [&'static str; 4] = ["millón", "millones", "billón", "billones"];

/// The power of ten of each of `SCALES`.
pub const SCALE_POWERS: [u8; 4] = [6, 6, 12, 12];

/// The word that joins the parts of one number.
pub const GLUE: [&'static str; 1] = ["y"];

/// The masculine ordinals of one to nine.
pub const ORDINALS: [&'static str; 9] = [
    "primero",
    "segundo",
    "tercero",
    "cuarto",
    "quinto",
    "sexto",
    "séptimo",
    "octavo",
    "noveno",
];

/// The feminine ordinals of one to nine.
pub const ORDINALS_F: [&'static str; 9] = [
    "primera",
    "segunda",
    "tercera",
    "cuarta",
    "quinta",
    "sexta",
    "séptima",
    "octava",
    "novena",
];

/// The names of the decimal separator `','`.
pub const COMMAS: [&'static str; 1] = ["coma"];

/// The names of the decimal separator `'.'`.
pub const POINTS: [&'static str; 1] = ["punto"];

/// The words that link numbers or are noise.
pub const LINKS: [&'static str; 5] = ["y", "o", "más", "es", "eh"];

/// The entry of `word` in the Spanish vocabulary, if it has one.
pub open spec fn entry(word: Seq<char>) -> Option<Entry> {
    if position(words(ZEROS@), word) is Some {
        cardinal(Term::Zero)
    } else if let Some(i) = position(words(UNITS@), word) {
        cardinal(Term::Unit((i + 1) as u8))
    } else if position(words(ONES@), word) is Some {
        cardinal(Term::Unit(1))
    } else if let Some(i) = position(words(TEENS@), word) {
        cardinal(Term::Pair((i + 10) as u8))
    } else if let Some(i) = position(words(TWENTIES@), word) {
        cardinal(Term::Pair((i + 21) as u8))
    } else if position(words(TWENTY_ONES@), word) is Some {
        cardinal(Term::Pair(21))
    } else if let Some(i) = position(words(TENS@), word) {
        cardinal(Term::Tens((i + 2) as u8))
    } else if let Some(i) = position(words(HUNDREDS@), word) {
        cardinal(Term::Hundreds((i + 1) as u8))
    } else if let Some(i) = position(words(HUNDREDS_F@), word) {
        cardinal(Term::Hundreds((i + 1) as u8))
    } else if position(words(THOUSAND@), word) is Some {
        cardinal(Term::Scale { power: 3, alone: true })
    } else if let Some(i) = position(words(SCALES@), word) {
        cardinal(Term::Scale { power: SCALE_POWERS[i as int], alone: false })
    } else if position(words(GLUE@), word) is Some {
        cardinal(Term::Glue)
    } else if let Some(i) = position(words(ORDINALS@), word) {
        ordinal(Term::Unit((i + 1) as u8), "º")
    } else if let Some(i) = position(words(ORDINALS_F@), word) {
        ordinal(Term::Unit((i + 1) as u8), "ª")
    } else {
        None
    }
}

/// Looks `word` up in the Spanish vocabulary.
pub fn lookup(word: &str) -> (found: Option<Entry>)
    ensures
        found == entry(word@),
{
    if find(&ZEROS, word).is_some() {
        Entry::cardinal(Term::Zero)
    } else if let Some(i) = find(&UNITS, word) {
        Entry::cardinal(Term::Unit((i + 1) as u8))
    } else if find(&ONES, word).is_some() {
        Entry::cardinal(Term::Unit(1))
    } else if let Some(i) = find(&TEENS, word) {
        Entry::cardinal(Term::Pair((i + 10) as u8))
    } else if let Some(i) = find(&TWENTIES, word) {
        Entry::cardinal(Term::Pair((i + 21) as u8))
    } else if find(&TWENTY_ONES, word).is_some() {
        Entry::cardinal(Term::Pair(21))
    } else if let Some(i) = find(&TENS, word) {
        Entry::cardinal(Term::Tens((i + 2) as u8))
    } else if let Some(i) = find(&HUNDREDS, word) {
        Entry::cardinal(Term::Hundreds((i + 1) as u8))
    } else if let Some(i) = find(&HUNDREDS_F, word) {
        Entry::cardinal(Term::Hundreds((i + 1) as u8))
    } else if find(&THOUSAND, word).is_some() {
        Entry::cardinal(Term::Scale { power: 3, alone: true })
    } else if let Some(i) = find(&SCALES, word) {
        Entry::cardinal(Term::Scale { power: SCALE_POWERS[i], alone: false })
    } else if find(&GLUE, word).is_some() {
        Entry::cardinal(Term::Glue)
    } else if let Some(i) = find(&ORDINALS, word) {
        Entry::ordinal(Term::Unit((i + 1) as u8), "º")
    } else if let Some(i) = find(&ORDINALS_F, word) {
        Entry::ordinal(Term::Unit((i + 1) as u8), "ª")
    } else {
        None
    }
}

/// Every entry of the vocabulary has a meaning that the accumulator can
/// take: its digits and powers are in range.
pub proof fn lemma_entries_are_sound(word: Seq<char>)
    ensures
        entry(word) matches Some(found) ==> found.term.sound(),
{
    lemma_position_holds(words(ZEROS@), word);
    lemma_position_holds(words(UNITS@), word);
    lemma_position_holds(words(ONES@), word);
    lemma_position_holds(words(TEENS@), word);
    lemma_position_holds(words(TWENTIES@), word);
    lemma_position_holds(words(TWENTY_ONES@), word);
    lemma_position_holds(words(TENS@), word);
    lemma_position_holds(words(HUNDREDS@), word);
    lemma_position_holds(words(HUNDREDS_F@), word);
    lemma_position_holds(words(THOUSAND@), word);
    lemma_position_holds(words(SCALES@), word);
    lemma_position_holds(words(GLUE@), word);
    lemma_position_holds(words(ORDINALS@), word);
    lemma_position_holds(words(ORDINALS_F@), word);
}

/// The symbol of the decimal separator that `word` names, if it names one.
pub open spec fn separator(word: Seq<char>) -> Option<char> {
    if position(words(COMMAS@), word) is Some {
        Some(',')
    } else if position(words(POINTS@), word) is Some {
        Some('.')
    } else {
        None
    }
}

/// The words that link numbers or are noise: they do not end a group of
/// number words.
pub open spec fn links(word: Seq<char>) -> bool {
    position(words(LINKS@), word) is Some
}

/// The interpreter of Spanish. It is stateless.
#[derive(Debug, Clone, Copy)]
pub struct Spanish;

impl Default for Spanish {
    fn default() -> (lang: Self)
        ensures
            lang == Spanish,
    {
        Spanish
    }
}

impl LangInterpreter for Spanish {
    open spec fn applied(&self, word: Seq<char>, acc: DigitStringView) -> Option<
        (Result<(), Error>, DigitStringView),
    > {
        Some(interpreted(entry(word), acc))
    }

    open spec fn applied_decimal(&self, word: Seq<char>, acc: DigitStringView) -> Option<
        (Result<(), Error>, DigitStringView),
    > {
        Some(interpreted_decimal(entry(word), acc))
    }

    open spec fn morph_marker(&self, word: Seq<char>) -> Option<MorphologicalMarker> {
        Some(marker_of(entry(word)))
    }

    open spec fn decimal_separator(&self, word: Seq<char>) -> Option<Option<char>> {
        Some(separator(word))
    }

    open spec fn linking(&self, word: Seq<char>) -> Option<bool> {
        Some(links(word))
    }

    open spec fn formats_plainly(&self) -> bool {
        true
    }

    open spec fn leaves_tokens(&self) -> bool {
        true
    }

    fn apply(&self, num_func: &str, b: &mut DigitString) -> (done: Result<(), Error>) {
        proof {
            lemma_interpreted(entry(num_func@), b@);
            assert(self.applied(num_func@, b@) == Some(interpreted(entry(num_func@), b@)));
        }
        interpret(lookup(num_func), b)
    }

    fn apply_decimal(&self, decimal_func: &str, b: &mut DigitString) -> (done: Result<(), Error>) {
        proof {
            lemma_interpreted(entry(decimal_func@), b@);
            assert(self.applied_decimal(decimal_func@, b@) == Some(
                interpreted_decimal(entry(decimal_func@), b@),
            ));
        }
        interpret_decimal(lookup(decimal_func), b)
    }

    fn get_morph_marker(&self, word: &str) -> (marker: MorphologicalMarker) {
        proof {
            assert(self.morph_marker(word@) == Some(marker_of(entry(word@))));
        }
        match lookup(word) {
            Some(found) => found.marker,
            None => MorphologicalMarker::NoMarker,
        }
    }

    fn check_decimal_separator(&self, word: &str) -> (symbol: Option<char>) {
        proof {
            assert(self.decimal_separator(word@) == Some(separator(word@)));
        }
        if find(&COMMAS, word).is_some() {
            Some(',')
        } else if find(&POINTS, word).is_some() {
            Some('.')
        } else {
            None
        }
    }

    fn is_linking(&self, word: &str) -> (found: bool) {
        proof {
            assert(self.linking(word@) == Some(links(word@)));
        }
        find(&LINKS, word).is_some()
    }
}

} // verus!
