//! The fold of a group of words into one number.

use vstd::prelude::*;
use crate::digit_string::{DigitString, DigitStringView};
use crate::error::Error;
use crate::lang::LangInterpreter;
use crate::text::words;

verus! {

/// What an outcome of `exec_group` says: the content of the accumulator,
/// or the error.
pub open spec fn outcome_view(outcome: Result<DigitString, Error>) -> Result<
    DigitStringView,
    Error,
> {
    match outcome {
        Ok(acc) => Ok(acc@),
        Err(error) => Err(error),
    }
}

/// The outcome of applying `words` in order, starting from the accumulator
/// `acc`, where `incomplete` tells whether the word before them left the
/// number open, and `step` says what one word does: its answer and the
/// accumulator after it. There is no outcome where `step` does not say what
/// a word that is reached does.
pub open spec fn folded(
    step: spec_fn(Seq<char>, DigitStringView) -> Option<(Result<(), Error>, DigitStringView)>,
    words: Seq<Seq<char>>,
    acc: DigitStringView,
    incomplete: bool,
) -> Option<Result<DigitStringView, Error>>
    decreases words.len(),
{
    if words.len() == 0 {
        Some(
            if incomplete {
                Err(Error::Incomplete)
            } else {
                Ok(acc)
            },
        )
    } else {
        match step(words[0], acc) {
            None => None,
            Some((Ok(()), next)) => folded(step, words.drop_first(), next, false),
            Some((Err(Error::Incomplete), next)) => folded(step, words.drop_first(), next, true),
            Some((Err(error), _)) => Some(Err(error)),
        }
    }
}

/// What one word does in the language `lang`.
pub open spec fn step_of<L: LangInterpreter + ?Sized>(lang: &L) -> spec_fn(
    Seq<char>,
    DigitStringView,
) -> Option<(Result<(), Error>, DigitStringView)> {
    |word: Seq<char>, acc: DigitStringView| lang.applied(word, acc)
}

/// The outcome of a group of words in the language `lang`.
pub open spec fn group_outcome<L: LangInterpreter + ?Sized>(lang: &L, words: Seq<Seq<char>>)
    -> Option<Result<DigitStringView, Error>> {
    folded(step_of(lang), words, DigitStringView::fresh(), false)
}

/// What the answer to one word means for its group: the number is closed
/// after a word that was accepted, open after one that was answered with
/// `Incomplete`, and every other error ends the group.
pub fn after_word(done: Result<(), Error>) -> (next: Result<bool, Error>)
    ensures
        next == match done {
            Ok(()) => Ok::<bool, Error>(false),
            Err(Error::Incomplete) => Ok(true),
            Err(error) => Err(error),
        },
{
    match done {
        Ok(()) => Ok(false),
        Err(error) => if error.leaves_group_open() {
            Ok(true)
        } else {
            Err(error)
        },
    }
}

/// The outcome of a group whose words have all been applied: the
/// accumulator, unless the last word left the number open.
pub fn close_group(incomplete: bool, acc: DigitString) -> (outcome: Result<DigitString, Error>)
    ensures
        outcome_view(outcome) == if incomplete {
            Err::<DigitStringView, Error>(Error::Incomplete)
        } else {
            Ok(acc@)
        },
        outcome matches Ok(kept) ==> kept == acc,
{
    if incomplete {
        Err(Error::Incomplete)
    } else {
        Ok(acc)
    }
}

/// Tells whether `word` ends a group of number words in the language
/// `lang`: it does where it neither links, nor names a decimal separator,
/// nor has a numeral meaning at the start of a number. There is no answer
/// where the language does not say one of the three.
pub open spec fn ends_group<L: LangInterpreter + ?Sized>(lang: &L, word: Seq<char>) -> Option<
    bool,
> {
    match (
        lang.linking(word),
        lang.decimal_separator(word),
        lang.applied(word, DigitStringView::fresh()),
    ) {
        (Some(links), Some(symbol), Some((answer, _))) => Some(
            !links && symbol is None && answer == Err::<(), Error>(Error::NotANumber),
        ),
        _ => None,
    }
}

/// Tells whether `word` ends a group of number words in the language
/// `lang`: whether it neither links, nor names a decimal separator, nor
/// has a numeral meaning at the start of a number.
pub fn is_boundary<L: LangInterpreter>(lang: &L, word: &str) -> (ends: bool)
    ensures
        ends_group(lang, word@) matches Some(said) ==> ends == said,
{
    if lang.is_linking(word) {
        return false;
    }
    if lang.check_decimal_separator(word).is_some() {
        return false;
    }
    let mut probe = DigitString::new();
    match lang.apply(word, &mut probe) {
        Err(Error::NotANumber) => true,
        _ => false,
    }
}

/// The end of the group of number words that begins at `start`: the place
/// of the first word, from `start` on, that ends the group, or the number
/// of tokens if there is none. The group is `tokens[start..end]`; behind
/// the last token there is the empty group.
pub fn group_end<L: LangInterpreter>(lang: &L, tokens: &[&str], start: usize) -> (end: usize)
    ensures
        start >= tokens@.len() ==> end == start,
        start < tokens@.len() ==> start <= end <= tokens@.len(),
        forall|k: int| start <= k < end ==> ends_group(lang, #[trigger] tokens@[k]@) != Some(true),
        end < tokens@.len() ==> ends_group(lang, tokens@[end as int]@) != Some(false),
{
    let mut end: usize = start;
    while end < tokens.len()
        invariant
            start <= end,
            start < tokens@.len() ==> end <= tokens@.len(),
            start >= tokens@.len() ==> end == start,
            forall|k: int| start <= k < end ==> ends_group(lang, #[trigger] tokens@[k]@) != Some(true),
        decreases tokens@.len() - end,
    {
        if is_boundary(lang, tokens[end]) {
            return end;
        }
        end += 1;
    }
    end
}

} // verus!
