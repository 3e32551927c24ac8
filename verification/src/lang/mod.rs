//! Language interpreters and what they share.

use vstd::prelude::*;
use vstd::string::StringExecFns;
use crate::digit_string::{DigitString, DigitStringView};
use crate::error::Error;
use crate::numeral::{digits_text, digits_value, Value};
use crate::text::{find, position, push_char, words};
use self::de::German;
use self::en::English;
use self::es::Spanish;
use self::fr::French;
use self::it::Italian;
use self::nl::Dutch;
use self::pt::Portuguese;

pub mod lexicon;
pub mod group;
pub mod laws;
pub mod de;
pub mod en;
pub mod es;
pub mod fr;
pub mod it;
pub mod nl;
pub mod pt;

verus! {

/// The morphological marker that sets an ordinal or a fraction apart from
/// a cardinal, and that the digit form keeps.
///
/// In English "twentieth" becomes "20th": the marker is `Ordinal("th")`.
#[derive(Debug, PartialEq, Clone, Copy)]
pub enum MorphologicalMarker {
    Ordinal(&'static str),
    Fraction(&'static str),
    NoMarker,
}

impl MorphologicalMarker {
    pub fn is_ordinal(&self) -> (ordinal: bool)
        ensures
            ordinal == (self is Ordinal),
    {
        matches!(self, Self::Ordinal(_))
    }

    pub fn is_fraction(&self) -> (fraction: bool)
        ensures
            fraction == (self is Fraction),
    {
        matches!(self, Self::Fraction(_))
    }

    pub fn is_none(&self) -> (none: bool)
        ensures
            none == (self is NoMarker),
    {
        matches!(self, Self::NoMarker)
    }
}

/// What a caller's token has to offer for a pass that rules tokens out
/// before numbers are looked for.
pub trait BasicAnnotate {
    /// The token's text in lower case.
    fn text_lowercase(&self) -> &str;

    /// Records whether the token can be part of a number: `true` says it
    /// cannot.
    fn set_nan(&mut self, val: bool);
}

/// The digit form of a finished number and its value, as every regular
/// language renders them: the digits, followed by the suffix of an ordinal
/// marker, and the number that the digits denote.
pub open spec fn plain_format(acc: DigitStringView) -> (Seq<char>, Option<Value>) {
    (acc.text(), Value::of(digits_value(acc.digits), 0, 0))
}

/// The digit form of a decimal number and its value, as every regular
/// language renders them: the digits of the integral part, the separator,
/// the digits of the decimal part; and the integral part plus the decimal
/// part over ten to the power of its length.
pub open spec fn plain_format_decimal(integral: DigitStringView, dec: DigitStringView, sep: char) -> (
    Seq<char>,
    Option<Value>,
) {
    (
        digits_text(integral.digits).push(sep) + digits_text(dec.digits),
        Value::of(digits_value(integral.digits), digits_value(dec.digits), dec.digits.len()),
    )
}

/// The linguistic services that the interpreter of a human language
/// provides. A language is stateless.
///
/// The spec functions say what a language's methods compute. A
/// language that leaves them as they are declared here says nothing of its
/// methods beyond what this trait asks of every language.
pub trait LangInterpreter {
    /// What `apply` answers and what it leaves in the accumulator.
    open spec fn applied(&self, word: Seq<char>, acc: DigitStringView) -> Option<
        (Result<(), Error>, DigitStringView),
    > {
        None
    }

    /// What `apply_decimal` answers and what it leaves in the accumulator.
    open spec fn applied_decimal(&self, word: Seq<char>, acc: DigitStringView) -> Option<
        (Result<(), Error>, DigitStringView),
    > {
        None
    }

    /// The marker that `get_morph_marker` finds on a word.
    open spec fn morph_marker(&self, word: Seq<char>) -> Option<MorphologicalMarker> {
        None
    }

    /// What `check_decimal_separator` answers.
    open spec fn decimal_separator(&self, word: Seq<char>) -> Option<Option<char>> {
        None
    }

    /// What `is_linking` answers.
    open spec fn linking(&self, word: Seq<char>) -> Option<bool> {
        None
    }

    /// The language renders numbers as [`plain_format`] and
    /// [`plain_format_decimal`] say.
    open spec fn formats_plainly(&self) -> bool {
        false
    }

    /// The language rules no token out in `basic_annotate`.
    open spec fn leaves_tokens(&self) -> bool {
        false
    }

    /// Interprets the word `num_func`, which may be part of a larger
    /// sequence, as part of the integral portion of a number, by operations
    /// on `b`.
    ///
    /// The answer is `NotANumber` if the word has no numeral meaning where
    /// it stands, and `b` is then as it was; `Incomplete` if the word
    /// belongs to a number but does not close it; an error of the
    /// accumulator if it refuses what the word asks for.
    fn apply(&self, num_func: &str, b: &mut DigitString) -> (done: Result<(), Error>)
        requires
            old(b)@.wf(),
        ensures
            final(b)@.wf(),
            done == Err::<(), Error>(Error::NotANumber) ==> final(b)@ == old(b)@,
            self.applied(num_func@, old(b)@) matches Some(said) ==> (done, final(b)@) == said,
    ;

    /// Interprets the word `decimal_func` as part of the decimal portion of
    /// a number, whose grammar often differs from that of the integral
    /// portion.
    fn apply_decimal(&self, decimal_func: &str, b: &mut DigitString) -> (done: Result<(), Error>)
        requires
            old(b)@.wf(),
        ensures
            final(b)@.wf(),
            done == Err::<(), Error>(Error::NotANumber) ==> final(b)@ == old(b)@,
            self.applied_decimal(decimal_func@, old(b)@) matches Some(said) ==> (done, final(b)@)
                == said,
    ;

    /// The morphological marker of `word`, if it bears one that the digit
    /// form keeps.
    fn get_morph_marker(&self, word: &str) -> (marker: MorphologicalMarker)
        ensures
            self.morph_marker(word@) matches Some(said) ==> marker == said,
    ;

    /// The symbol of the decimal separator, if `word` is one in the
    /// language: "point" is one in English, and its symbol is `'.'`.
    fn check_decimal_separator(&self, word: &str) -> (symbol: Option<char>)
        ensures
            self.decimal_separator(word@) matches Some(said) ==> symbol == said,
    ;

    /// Formats `b` as digits and evaluates it, by the language's rules.
    ///
    /// There is no value where the number does not fit the mantissa of a
    /// [`Value`].
    fn format_and_value(&self, b: &DigitString) -> (rendered: (String, Option<Value>))
        requires
            b@.wf(),
        ensures
            self.formats_plainly() ==> (rendered.0@, rendered.1) == plain_format(b@),
    {
        let text = b.render();
        let value = match b.parse() {
            Some(mantissa) => Some(Value { mantissa, places: 0 }),
            None => None,
        };
        proof {
            assert(crate::numeral::pow10(0) == 1);
            assert(digits_value(b@.digits) * 1 + 0 == digits_value(b@.digits)) by (nonlinear_arith);
        }
        (text, value)
    }

    /// Formats the decimal number with the integral part `integral` and the
    /// decimals `dec` and evaluates it, by the language's rules, with the
    /// separator `sep` that `check_decimal_separator` gave.
    ///
    /// There is no value where the digits of both parts, read as one
    /// integer, do not fit the mantissa of a [`Value`].
    fn format_decimal_and_value(&self, integral: &DigitString, dec: &DigitString, sep: char) -> (rendered:
        (String, Option<Value>))
        requires
            integral@.wf(),
            dec@.wf(),
        ensures
            self.formats_plainly() ==> (rendered.0@, rendered.1) == plain_format_decimal(
                integral@,
                dec@,
                sep,
            ),
    {
        let mut text = integral.to_string();
        push_char(&mut text, sep);
        let tail = dec.to_string();
        text.append(tail.as_str());
        let value = match (integral.parse(), dec.parse()) {
            (Some(whole), Some(part)) => Value::compose(whole, part, dec.len()),
            _ => None,
        };
        proof {
            crate::numeral::lemma_pow10_grows(0, dec@.digits.len());
            assert(digits_value(integral@.digits) * crate::numeral::pow10(dec@.digits.len())
                >= digits_value(integral@.digits)) by (nonlinear_arith)
                requires
                    crate::numeral::pow10(dec@.digits.len()) >= 1,
            ;
        }
        (text, value)
    }

    /// Tells whether `word` links numbers or is noise, rather than ending a
    /// group of number words.
    ///
    /// In "two plus three is uh five", "plus" and "is" link and "uh" is
    /// noise. In "two pigs and three chickens", "pigs" and "chickens" set
    /// unrelated numbers apart.
    fn is_linking(&self, word: &str) -> (links: bool)
        ensures
            self.linking(word@) matches Some(said) ==> links == said,
    ;

    /// Interprets `group` as one number, all or nothing.
    ///
    /// The words are applied in order to an empty accumulator. The first
    /// error other than `Incomplete` ends the group and is the answer; the
    /// words behind it are not looked at. A group whose last word is
    /// answered with `Incomplete` fails with `Incomplete`. Otherwise the
    /// answer is the accumulator.
    fn exec_group(&self, group: &[&str]) -> (outcome: Result<DigitString, Error>)
        ensures
            outcome matches Ok(acc) ==> acc@.wf(),
            group::folded(
                |word: Seq<char>, acc: DigitStringView| self.applied(word, acc),
                words(group@),
                DigitStringView::fresh(),
                false,
            ) matches Some(said) ==> group::outcome_view(outcome) == said,
    {
        let ghost step = |word: Seq<char>, acc: DigitStringView| self.applied(word, acc);
        let ghost whole = group::folded(
            step,
            words(group@),
            DigitStringView::fresh(),
            false,
        );
        assert(words(group@).skip(0) =~= words(group@));
        let mut b = DigitString::new();
        let mut incomplete: bool = false;
        let mut i: usize = 0;
        while i < group.len()
            invariant
                i <= group@.len(),
                b@.wf(),
                step == (|word: Seq<char>, acc: DigitStringView| self.applied(word, acc)),
                whole == group::folded(
                    step,
                    words(group@),
                    DigitStringView::fresh(),
                    false,
                ),
                whole is Some ==> whole == group::folded(
                    step,
                    words(group@).skip(i as int),
                    b@,
                    incomplete,
                ),
            decreases group@.len() - i,
        {
            let ghost before = b@;
            proof {
                let rest = words(group@).skip(i as int);
                assert(rest[0] == group@[i as int]@);
                assert(rest.drop_first() =~= words(group@).skip(i + 1));
                assert(step(rest[0], before) == self.applied(rest[0], before));
            }
            let done = self.apply(group[i], &mut b);
            match group::after_word(done) {
                Ok(open) => {
                    incomplete = open;
                },
                Err(error) => {
                    return Err(error);
                },
            }
            i += 1;
        }
        group::close_group(incomplete, b)
    }

    /// Looks through the tokens before numbers are searched in them and
    /// flags those that can never be part of a number. A language that has
    /// nothing to rule out leaves them as they are.
    fn basic_annotate<T: BasicAnnotate>(&self, _tokens: &mut Vec<T>)
        ensures
            self.leaves_tokens() ==> final(_tokens)@ == old(_tokens)@,
    {
    }
}

/// The codes of the languages that the library speaks, in the order of
/// the variants of [`Language`].
pub const CODES: [&'static str; 7] = ["de", "es", "en", "fr", "it", "nl", "pt"];

/// The languages that the library speaks, gathered in one type.
#[derive(Debug, Clone, Copy)]
pub enum Language {
    German(German),
    Spanish(Spanish),
    English(English),
    French(French),
    Italian(Italian),
    Dutch(Dutch),
    Portuguese(Portuguese),
}

impl Language {
    /// The interpreter of German.
    pub fn german() -> (lang: Language)
        ensures
            lang == Language::German(German),
    {
        Language::German(German)
    }

    /// The interpreter of Spanish.
    pub fn spanish() -> (lang: Language)
        ensures
            lang == Language::Spanish(Spanish),
    {
        Language::Spanish(Spanish)
    }

    /// The interpreter of English.
    pub fn english() -> (lang: Language)
        ensures
            lang == Language::English(English),
    {
        Language::English(English)
    }

    /// The interpreter of French.
    pub fn french() -> (lang: Language)
        ensures
            lang == Language::French(French),
    {
        Language::French(French)
    }

    /// The interpreter of Italian.
    pub fn italian() -> (lang: Language)
        ensures
            lang == Language::Italian(Italian),
    {
        Language::Italian(Italian)
    }

    /// The interpreter of Dutch.
    pub fn dutch() -> (lang: Language)
        ensures
            lang == Language::Dutch(Dutch),
    {
        Language::Dutch(Dutch)
    }

    /// The interpreter of Portuguese.
    pub fn portugese() -> (lang: Language)
        ensures
            lang == Language::Portuguese(Portuguese),
    {
        Language::Portuguese(Portuguese)
    }

    /// The language at place `index` of [`CODES`].
    pub open spec fn at(index: nat) -> Option<Language> {
        if index == 0 {
            Some(Language::German(German))
        } else if index == 1 {
            Some(Language::Spanish(Spanish))
        } else if index == 2 {
            Some(Language::English(English))
        } else if index == 3 {
            Some(Language::French(French))
        } else if index == 4 {
            Some(Language::Italian(Italian))
        } else if index == 5 {
            Some(Language::Dutch(Dutch))
        } else if index == 6 {
            Some(Language::Portuguese(Portuguese))
        } else {
            None
        }
    }

    /// The place of the language's code in [`CODES`].
    pub open spec fn index(self) -> nat {
        match self {
            Language::German(_) => 0,
            Language::Spanish(_) => 1,
            Language::English(_) => 2,
            Language::French(_) => 3,
            Language::Italian(_) => 4,
            Language::Dutch(_) => 5,
            Language::Portuguese(_) => 6,
        }
    }

    /// The entry of `word` in the language's vocabulary, if it has one.
    pub open spec fn entry(self, word: Seq<char>) -> Option<lexicon::Entry> {
        match self {
            Language::German(_) => de::entry(word),
            Language::Spanish(_) => es::entry(word),
            Language::English(_) => en::entry(word),
            Language::French(_) => fr::entry(word),
            Language::Italian(_) => it::entry(word),
            Language::Dutch(_) => nl::entry(word),
            Language::Portuguese(_) => pt::entry(word),
        }
    }

    /// The language's code.
    pub fn code(&self) -> (code: &'static str)
        ensures
            code == CODES[self.index() as int],
    {
        match self {
            Language::German(_) => CODES[0],
            Language::Spanish(_) => CODES[1],
            Language::English(_) => CODES[2],
            Language::French(_) => CODES[3],
            Language::Italian(_) => CODES[4],
            Language::Dutch(_) => CODES[5],
            Language::Portuguese(_) => CODES[6],
        }
    }
}

/// The interpreter that [`get_interpreter_for`] gives for a code: that of
/// the language whose code it is, and none for any other text.
pub open spec fn interpreter_for(code: Seq<char>) -> Option<Language> {
    match position(words(CODES@), code) {
        Some(index) => Language::at(index),
        None => None,
    }
}

/// The interpreter of the language with the code `language_code`, if the
/// library speaks that language.
pub fn get_interpreter_for(language_code: &str) -> (found: Option<Language>)
    ensures
        found == interpreter_for(language_code@),
        found is Some <==> position(words(CODES@), language_code@) is Some,
{
    match find(&CODES, language_code) {
        Some(0) => Some(Language::German(German)),
        Some(1) => Some(Language::Spanish(Spanish)),
        Some(2) => Some(Language::English(English)),
        Some(3) => Some(Language::French(French)),
        Some(4) => Some(Language::Italian(Italian)),
        Some(5) => Some(Language::Dutch(Dutch)),
        Some(_) => Some(Language::Portuguese(Portuguese)),
        None => None,
    }
}

/// A [`Language`] does what the language that it holds does.
impl LangInterpreter for Language {
    open spec fn applied(&self, word: Seq<char>, acc: DigitStringView) -> Option<
        (Result<(), Error>, DigitStringView),
    > {
        match self {
            Language::German(l) => l.applied(word, acc),
            Language::Spanish(l) => l.applied(word, acc),
            Language::English(l) => l.applied(word, acc),
            Language::French(l) => l.applied(word, acc),
            Language::Italian(l) => l.applied(word, acc),
            Language::Dutch(l) => l.applied(word, acc),
            Language::Portuguese(l) => l.applied(word, acc),
        }
    }

    open spec fn applied_decimal(&self, word: Seq<char>, acc: DigitStringView) -> Option<
        (Result<(), Error>, DigitStringView),
    > {
        match self {
            Language::German(l) => l.applied_decimal(word, acc),
            Language::Spanish(l) => l.applied_decimal(word, acc),
            Language::English(l) => l.applied_decimal(word, acc),
            Language::French(l) => l.applied_decimal(word, acc),
            Language::Italian(l) => l.applied_decimal(word, acc),
            Language::Dutch(l) => l.applied_decimal(word, acc),
            Language::Portuguese(l) => l.applied_decimal(word, acc),
        }
    }

    open spec fn morph_marker(&self, word: Seq<char>) -> Option<MorphologicalMarker> {
        match self {
            Language::German(l) => l.morph_marker(word),
            Language::Spanish(l) => l.morph_marker(word),
            Language::English(l) => l.morph_marker(word),
            Language::French(l) => l.morph_marker(word),
            Language::Italian(l) => l.morph_marker(word),
            Language::Dutch(l) => l.morph_marker(word),
            Language::Portuguese(l) => l.morph_marker(word),
        }
    }

    open spec fn decimal_separator(&self, word: Seq<char>) -> Option<Option<char>> {
        match self {
            Language::German(l) => l.decimal_separator(word),
            Language::Spanish(l) => l.decimal_separator(word),
            Language::English(l) => l.decimal_separator(word),
            Language::French(l) => l.decimal_separator(word),
            Language::Italian(l) => l.decimal_separator(word),
            Language::Dutch(l) => l.decimal_separator(word),
            Language::Portuguese(l) => l.decimal_separator(word),
        }
    }

    open spec fn linking(&self, word: Seq<char>) -> Option<bool> {
        match self {
            Language::German(l) => l.linking(word),
            Language::Spanish(l) => l.linking(word),
            Language::English(l) => l.linking(word),
            Language::French(l) => l.linking(word),
            Language::Italian(l) => l.linking(word),
            Language::Dutch(l) => l.linking(word),
            Language::Portuguese(l) => l.linking(word),
        }
    }

    open spec fn formats_plainly(&self) -> bool {
        match self {
            Language::German(l) => l.formats_plainly(),
            Language::Spanish(l) => l.formats_plainly(),
            Language::English(l) => l.formats_plainly(),
            Language::French(l) => l.formats_plainly(),
            Language::Italian(l) => l.formats_plainly(),
            Language::Dutch(l) => l.formats_plainly(),
            Language::Portuguese(l) => l.formats_plainly(),
        }
    }

    open spec fn leaves_tokens(&self) -> bool {
        match self {
            Language::German(l) => l.leaves_tokens(),
            Language::Spanish(l) => l.leaves_tokens(),
            Language::English(l) => l.leaves_tokens(),
            Language::French(l) => l.leaves_tokens(),
            Language::Italian(l) => l.leaves_tokens(),
            Language::Dutch(l) => l.leaves_tokens(),
            Language::Portuguese(l) => l.leaves_tokens(),
        }
    }

    fn apply(&self, num_func: &str, b: &mut DigitString) -> (done: Result<(), Error>) {
        proof {
            let _ = self.applied(num_func@, b@);
        }
        match self {
            Language::German(l) => l.apply(num_func, b),
            Language::Spanish(l) => l.apply(num_func, b),
            Language::English(l) => l.apply(num_func, b),
            Language::French(l) => l.apply(num_func, b),
            Language::Italian(l) => l.apply(num_func, b),
            Language::Dutch(l) => l.apply(num_func, b),
            Language::Portuguese(l) => l.apply(num_func, b),
        }
    }

    fn apply_decimal(&self, decimal_func: &str, b: &mut DigitString) -> (done: Result<(), Error>) {
        proof {
            let _ = self.applied_decimal(decimal_func@, b@);
        }
        match self {
            Language::German(l) => l.apply_decimal(decimal_func, b),
            Language::Spanish(l) => l.apply_decimal(decimal_func, b),
            Language::English(l) => l.apply_decimal(decimal_func, b),
            Language::French(l) => l.apply_decimal(decimal_func, b),
            Language::Italian(l) => l.apply_decimal(decimal_func, b),
            Language::Dutch(l) => l.apply_decimal(decimal_func, b),
            Language::Portuguese(l) => l.apply_decimal(decimal_func, b),
        }
    }

    fn get_morph_marker(&self, word: &str) -> (marker: MorphologicalMarker) {
        proof {
            let _ = self.morph_marker(word@);
        }
        match self {
            Language::German(l) => l.get_morph_marker(word),
            Language::Spanish(l) => l.get_morph_marker(word),
            Language::English(l) => l.get_morph_marker(word),
            Language::French(l) => l.get_morph_marker(word),
            Language::Italian(l) => l.get_morph_marker(word),
            Language::Dutch(l) => l.get_morph_marker(word),
            Language::Portuguese(l) => l.get_morph_marker(word),
        }
    }

    fn check_decimal_separator(&self, word: &str) -> (symbol: Option<char>) {
        proof {
            let _ = self.decimal_separator(word@);
        }
        match self {
            Language::German(l) => l.check_decimal_separator(word),
            Language::Spanish(l) => l.check_decimal_separator(word),
            Language::English(l) => l.check_decimal_separator(word),
            Language::French(l) => l.check_decimal_separator(word),
            Language::Italian(l) => l.check_decimal_separator(word),
            Language::Dutch(l) => l.check_decimal_separator(word),
            Language::Portuguese(l) => l.check_decimal_separator(word),
        }
    }

    fn format_and_value(&self, b: &DigitString) -> (rendered: (String, Option<Value>)) {
        proof {
            let _ = self.formats_plainly();
        }
        match self {
            Language::German(l) => l.format_and_value(b),
            Language::Spanish(l) => l.format_and_value(b),
            Language::English(l) => l.format_and_value(b),
            Language::French(l) => l.format_and_value(b),
            Language::Italian(l) => l.format_and_value(b),
            Language::Dutch(l) => l.format_and_value(b),
            Language::Portuguese(l) => l.format_and_value(b),
        }
    }

    fn format_decimal_and_value(&self, integral: &DigitString, dec: &DigitString, sep: char) -> (rendered:
        (String, Option<Value>)) {
        proof {
            let _ = self.formats_plainly();
        }
        match self {
            Language::German(l) => l.format_decimal_and_value(integral, dec, sep),
            Language::Spanish(l) => l.format_decimal_and_value(integral, dec, sep),
            Language::English(l) => l.format_decimal_and_value(integral, dec, sep),
            Language::French(l) => l.format_decimal_and_value(integral, dec, sep),
            Language::Italian(l) => l.format_decimal_and_value(integral, dec, sep),
            Language::Dutch(l) => l.format_decimal_and_value(integral, dec, sep),
            Language::Portuguese(l) => l.format_decimal_and_value(integral, dec, sep),
        }
    }

    fn is_linking(&self, word: &str) -> (links: bool) {
        proof {
            let _ = self.linking(word@);
        }
        match self {
            Language::German(l) => l.is_linking(word),
            Language::Spanish(l) => l.is_linking(word),
            Language::English(l) => l.is_linking(word),
            Language::French(l) => l.is_linking(word),
            Language::Italian(l) => l.is_linking(word),
            Language::Dutch(l) => l.is_linking(word),
            Language::Portuguese(l) => l.is_linking(word),
        }
    }

    fn basic_annotate<T: BasicAnnotate>(&self, tokens: &mut Vec<T>) {
        proof {
            let _ = self.leaves_tokens();
        }
        match self {
            Language::German(l) => l.basic_annotate(tokens),
            Language::Spanish(l) => l.basic_annotate(tokens),
            Language::English(l) => l.basic_annotate(tokens),
            Language::French(l) => l.basic_annotate(tokens),
            Language::Italian(l) => l.basic_annotate(tokens),
            Language::Dutch(l) => l.basic_annotate(tokens),
            Language::Portuguese(l) => l.basic_annotate(tokens),
        }
    }
}

} // verus!
