//! Portuguese.
//!
//! The parts of a number are joined by "e": "cento e vinte e três". The
//! hundreds have words of their own, "quinhentos", and "mil" also stands
//! alone. The words for fourteen, sixteen, seventeen and nineteen are read
//! in both spellings. The digit form of an ordinal ends in "º" or "ª".

use vstd::prelude::*;
use crate::digit_string::{DigitString, DigitStringView};
use crate::error::Error;
use crate::lang::lexicon::{
    cardinal, interpret, interpret_decimal, interpreted, interpreted_decimal, lemma_interpreted,
    marker_of, ordinal, Entry, Term,
};
use crate::lang::{LangInterpreter, MorphologicalMarker};
use crate::text::{find, lemma_position_holds, position, words};

verus! {

/// The word for zero.
pub const ZEROS: [&'static str; 1] = ["zero"];

/// The words for one to nine.
pub const UNITS: [&'static str; 9] = [
    "um",
    "dois",
    "três",
    "quatro",
    "cinco",
    "seis",
    "sete",
    "oito",
    "nove",
];

/// The feminine forms of one and two.
pub const FEMININES: [&'static str; 2] = ["uma", "duas"];

/// The words for ten to nineteen.
pub const TEENS: [&'static str; 10] = [
    "dez",
    "onze",
    "doze",
    "treze",
    "catorze",
    "quinze",
    "dezasseis",
    "dezassete",
    "dezoito",
    "dezanove",
];

/// The words for ten to nineteen as Brazil writes them.
pub const TEENS_BR: [&'static str; 10] = [
    "dez",
    "onze",
    "doze",
    "treze",
    "quatorze",
    "quinze",
    "dezesseis",
    "dezessete",
    "dezoito",
    "dezenove",
];

/// The words for twenty to ninety.
pub const TENS: [&'static str; 8] = [
    "vinte",
    "trinta",
    "quarenta",
    "cinquenta",
    "sessenta",
    "setenta",
    "oitenta",
    "noventa",
];

/// The words for one hundred to nine hundred.
pub const HUNDREDS: [&'static str; 9] = [
    "cento",
    "duzentos",
    "trezentos",
    "quatrocentos",
    "quinhentos",
    "seiscentos",
    "setecentos",
    "oitocentos",
    "novecentos",
];

/// The round hundred, and the feminine words for two hundred to nine
/// hundred.
pub const HUNDREDS_F: [&'static str; 9] = [
    "cem",
    "duzentas",
    "trezentas",
    "quatrocentas",
    "quinhentas",
    "seiscentas",
    "setecentas",
    "oitocentas",
    "novecentas",
];

/// The multiplier that closes the thousands.
pub const THOUSAND: [&'static str; 1] = ["mil"];

/// The multipliers that close the larger scales.
pub const SCALES: [&'static str; 4] = ["milhão", "milhões", "bilhão", "bilhões"];

/// The power of ten of each of `SCALES`.
pub const SCALE_POWERS: [u8; 4] = [6, 6, 9, 9];

/// The word that joins the parts of one number.
pub const GLUE: [&'static str; 1] = ["e"];

/// The masculine ordinals of one to nine.
pub const ORDINALS: [&'static str; 9] = [
    "primeiro",
    "segundo",
    "terceiro",
    "quarto",
    "quinto",
    "sexto",
    "sétimo",
    "oitavo",
    "nono",
];

/// The feminine ordinals of one to nine.
pub const ORDINALS_F: [&'static str; 9] = [
    "primeira",
    "segunda",
    "terceira",
    "quarta",
    "quinta",
    "sexta",
    "sétima",
    "oitava",
    "nona",
];

/// The names of the decimal separator `','`.
pub const COMMAS: [&'static str; 1] = ["vírgula"];

/// The words that link numbers or are noise.
pub const LINKS: [&'static str; 5] = ["e", "ou", "mais", "é", "hum"];

/// The entry of `word` in the Portuguese vocabulary, if it has one.
pub open spec fn entry(word: Seq<char>) -> Option<Entry> {
    if position(words(ZEROS@), word) is Some {
        cardinal(Term::Zero)
    } else if let Some(i) = position(words(UNITS@), word) {
        cardinal(Term::Unit((i + 1) as u8))
    } else if let Some(i) = position(words(FEMININES@), word) {
        cardinal(Term::Unit((i + 1) as u8))
    } else if let Some(i) = position(words(TEENS@), word) {
        cardinal(Term::Pair((i + 10) as u8))
    } else if let Some(i) = position(words(TEENS_BR@), word) {
        cardinal(Term::Pair((i + 10) as u8))
    } else if let Some(i) = position(words(TENS@), word) {
        cardinal(Term::Tens((i + 2) as u8))
    } else if let Some(i) = position(words(HUNDREDS@), word) {
        cardinal(Term::Hundreds((i + 1) as u8))
    } else if let Some(i) = position(words(HUNDREDS_F@), word) {
        cardinal(Term::Hundreds((i + 1) as u8))
    } else if position(words(THOUSAND@), word) is Some {
        cardinal(Term::Scale { power: 3, alone: true })
    } else if let Some(i) = position(words(SCALES@), word) {
        cardinal(Term::Scale { power: SCALE_POWERS[i as int], alone: false })
    } else if position(words(GLUE@), word) is Some {
        cardinal(Term::Glue)
    } else if let Some(i) = position(words(ORDINALS@), word) {
        ordinal(Term::Unit((i + 1) as u8), "º")
    } else if let Some(i) = position(words(ORDINALS_F@), word) {
        ordinal(Term::Unit((i + 1) as u8), "ª")
    } else {
        None
    }
}

/// Looks `word` up in the Portuguese vocabulary.
pub fn lookup(word: &str) -> (found: Option<Entry>)
    ensures
        found == entry(word@),
{
    if find(&ZEROS, word).is_some() {
        Entry::cardinal(Term::Zero)
    } else if let Some(i) = find(&UNITS, word) {
        Entry::cardinal(Term::Unit((i + 1) as u8))
    } else if let Some(i) = find(&FEMININES, word) {
        Entry::cardinal(Term::Unit((i + 1) as u8))
    } else if let Some(i) = find(&TEENS, word) {
        Entry::cardinal(Term::Pair((i + 10) as u8))
    } else if let Some(i) = find(&TEENS_BR, word) {
        Entry::cardinal(Term::Pair((i + 10) as u8))
    } else if let Some(i) = find(&TENS, word) {
        Entry::cardinal(Term::Tens((i + 2) as u8))
    } else if let Some(i) = find(&HUNDREDS, word) {
        Entry::cardinal(Term::Hundreds((i + 1) as u8))
    } else if let Some(i) = find(&HUNDREDS_F, word) {
        Entry::cardinal(Term::Hundreds((i + 1) as u8))
    } else if find(&THOUSAND, word).is_some() {
        Entry::cardinal(Term::Scale { power: 3, alone: true })
    } else if let Some(i) = find(&SCALES, word) {
        Entry::cardinal(Term::Scale { power: SCALE_POWERS[i], alone: false })
    } else if find(&GLUE, word).is_some() {
        Entry::cardinal(Term::Glue)
    } else if let Some(i) = find(&ORDINALS, word) {
        Entry::ordinal(Term::Unit((i + 1) as u8), "º")
    } else if let Some(i) = find(&ORDINALS_F, word) {
        Entry::ordinal(Term::Unit((i + 1) as u8), "ª")
    } else {
        None
    }
}

/// Every entry of the vocabulary has a meaning that the accumulator can
/// take: its digits and powers are in range.
pub proof fn lemma_entries_are_sound(word: Seq<char>)
    ensures
        entry(word) matches Some(found) ==> found.term.sound(),
{
    lemma_position_holds(words(ZEROS@), word);
    lemma_position_holds(words(UNITS@), word);
    lemma_position_holds(words(FEMININES@), word);
    lemma_position_holds(words(TEENS@), word);
    lemma_position_holds(words(TEENS_BR@), word);
    lemma_position_holds(words(TENS@), word);
    lemma_position_holds(words(HUNDREDS@), word);
    lemma_position_holds(words(HUNDREDS_F@), word);
    lemma_position_holds(words(THOUSAND@), word);
    lemma_position_holds(words(SCALES@), word);
    lemma_position_holds(words(GLUE@), word);
    lemma_position_holds(words(ORDINALS@), word);
    lemma_position_holds(words(ORDINALS_F@), word);
}

/// The symbol of the decimal separator that `word` names, if it names one.
pub open spec fn separator(word: Seq<char>) -> Option<char> {
    if position(words(COMMAS@), word) is Some {
        Some(',')
    } else {
        None
    }
}

/// The words that link numbers or are noise: they do not end a group of
/// number words.
pub open spec fn links(word: Seq<char>) -> bool {
    position(words(LINKS@), word) is Some
}

/// The interpreter of Portuguese. It is stateless.
#[derive(Debug, Clone, Copy)]
pub struct Portuguese;

impl Default for Portuguese {
    fn default() -> (lang: Self)
        ensures
            lang == Portuguese,
    {
        Portuguese
    }
}

impl LangInterpreter for Portuguese {
    open spec fn applied(&self, word: Seq<char>, acc: DigitStringView) -> Option<
        (Result<(), Error>, DigitStringView),
    > {
        Some(interpreted(entry(word), acc))
    }

    open spec fn applied_decimal(&self, word: Seq<char>, acc: DigitStringView) -> Option<
        (Result<(), Error>, DigitStringView),
    > {
        Some(interpreted_decimal(entry(word), acc))
    }

    open spec fn morph_marker(&self, word: Seq<char>) -> Option<MorphologicalMarker> {
        Some(marker_of(entry(word)))
    }

    open spec fn decimal_separator(&self, word: Seq<char>) -> Option<Option<char>> {
        Some(separator(word))
    }

    open spec fn linking(&self, word: Seq<char>) -> Option<bool> {
        Some(links(word))
    }

    open spec fn formats_plainly(&self) -> bool {
        true
    }

    open spec fn leaves_tokens(&self) -> bool {
        true
    }

    fn apply(&self, num_func: &str, b: &mut DigitString) -> (done: Result<(), Error>) {
        proof {
            lemma_interpreted(entry(num_func@), b@);
            assert(self.applied(num_func@, b@) == Some(interpreted(entry(num_func@), b@)));
        }
        interpret(lookup(num_func), b)
    }

    fn apply_decimal(&self, decimal_func: &str, b: &mut DigitString) -> (done: Result<(), Error>) {
        proof {
            lemma_interpreted(entry(decimal_func@), b@);
            assert(self.applied_decimal(decimal_func@, b@) == Some(
                interpreted_decimal(entry(decimal_func@), b@),
            ));
        }
        interpret_decimal(lookup(decimal_func), b)
    }

    fn get_morph_marker(&self, word: &str) -> (marker: MorphologicalMarker) {
        proof {
            assert(self.morph_marker(word@) == Some(marker_of(entry(word@))));
        }
        match lookup(word) {
            Some(found) => found.marker,
            None => MorphologicalMarker::NoMarker,
        }
    }

    fn check_decimal_separator(&self, word: &str) -> (symbol: Option<char>) {
        proof {
            assert(self.decimal_separator(word@) == Some(separator(word@)));
        }
        if find(&COMMAS, word).is_some() {
            Some(',')
        } else {
            None
        }
    }

    fn is_linking(&self, word: &str) -> (found: bool) {
        proof {
            assert(self.linking(word@) == Some(links(word@)));
        }
        find(&LINKS, word).is_some()
    }
}

} // verus!
