//! What holds of every group, of every language of the library and of
//! every rendering.

use vstd::prelude::*;
use crate::digit_string::DigitStringView;
use crate::error::Error;
use crate::lang::group::{folded, group_outcome, step_of};
use crate::lang::lexicon::{
    interpreted, interpreted_decimal, lemma_interpreted, lemma_sound_is_a_number, Term,
};
use crate::lang::{
    interpreter_for, plain_format, plain_format_decimal, LangInterpreter, Language,
    MorphologicalMarker, CODES,
};
use crate::numeral::{digits_text, Value};
use crate::text::{lemma_position_found, position, words};

verus! {

/// A fold that has failed with an error other than `Incomplete` fails with
/// the same error whatever words follow: they are not applied.
pub proof fn lemma_fold_fails_fast(
    step: spec_fn(Seq<char>, DigitStringView) -> Option<(Result<(), Error>, DigitStringView)>,
    before: Seq<Seq<char>>,
    after: Seq<Seq<char>>,
    acc: DigitStringView,
    incomplete: bool,
)
    requires
        folded(step, before, acc, incomplete) matches Some(Err(error)) && error
            != Error::Incomplete,
    ensures
        folded(step, before + after, acc, incomplete) == folded(step, before, acc, incomplete),
    decreases before.len(),
{
    if before.len() > 0 {
        let all = before + after;
        assert(all[0] == before[0]);
        assert(all.drop_first() =~= before.drop_first() + after);
        match step(before[0], acc) {
            None => {},
            Some((Ok(()), next)) => {
                lemma_fold_fails_fast(step, before.drop_first(), after, next, false);
            },
            Some((Err(Error::Incomplete), next)) => {
                lemma_fold_fails_fast(step, before.drop_first(), after, next, true);
            },
            Some((Err(error), _)) => {},
        }
    }
}

/// Fail-fast: a group that fails with an error other than `Incomplete`
/// fails with the same error whatever words are added behind it. The word
/// that brought the error is the last one that is interpreted.
pub proof fn lemma_group_fails_fast<L: LangInterpreter>(
    lang: &L,
    before: Seq<Seq<char>>,
    after: Seq<Seq<char>>,
)
    requires
        group_outcome(lang, before) matches Some(Err(error)) && error != Error::Incomplete,
    ensures
        group_outcome(lang, before + after) == group_outcome(lang, before),
{
    lemma_fold_fails_fast(step_of(lang), before, after, DigitStringView::fresh(), false);
}

/// A group of one word that the language answers with `Incomplete` on an
/// empty accumulator fails with `Incomplete`.
pub proof fn lemma_lone_word_left_open<L: LangInterpreter>(lang: &L, word: Seq<char>)
    requires
        lang.applied(word, DigitStringView::fresh()) matches Some((Err(Error::Incomplete), _)),
    ensures
        group_outcome(lang, seq![word]) == Some(
            Err::<DigitStringView, Error>(Error::Incomplete),
        ),
{
    let group = seq![word];
    assert(group[0] == word);
    assert(group.drop_first().len() == 0);
    reveal_with_fuel(folded, 2);
}

/// What a language of the library does with a word is what the
/// vocabulary's entry for the word, or its having none, asks for.
pub proof fn lemma_language_follows_vocabulary(lang: Language, word: Seq<char>, acc: DigitStringView)
    ensures
        lang.applied(word, acc) == Some(interpreted(lang.entry(word), acc)),
        lang.applied_decimal(word, acc) == Some(interpreted_decimal(lang.entry(word), acc)),
{
}

/// Every language of the library says what each of its methods computes,
/// renders plainly and leaves the tokens.
pub proof fn lemma_language_says_all(lang: Language, word: Seq<char>, acc: DigitStringView)
    ensures
        lang.applied(word, acc) is Some,
        lang.applied_decimal(word, acc) is Some,
        lang.morph_marker(word) is Some,
        lang.decimal_separator(word) is Some,
        lang.linking(word) is Some,
        lang.formats_plainly(),
        lang.leaves_tokens(),
{
}

/// In every language of the library every group of words has its outcome:
/// what `exec_group` answers is said for each of them.
pub proof fn lemma_every_group_has_its_outcome(lang: Language, group: Seq<Seq<char>>)
    ensures
        group_outcome(&lang, group) is Some,
{
    lemma_every_fold_has_its_outcome(lang, group, DigitStringView::fresh(), false);
}

/// In every language of the library the fold of a group has its outcome
/// from every accumulator on.
pub proof fn lemma_every_fold_has_its_outcome(
    lang: Language,
    group: Seq<Seq<char>>,
    acc: DigitStringView,
    incomplete: bool,
)
    ensures
        folded(step_of(&lang), group, acc, incomplete) is Some,
    decreases group.len(),
{
    if group.len() > 0 {
        lemma_language_says_all(lang, group[0], acc);
        let said = lang.applied(group[0], acc)->0;
        assert(step_of(&lang)(group[0], acc) == Some(said));
        lemma_every_fold_has_its_outcome(lang, group.drop_first(), said.1, false);
        lemma_every_fold_has_its_outcome(lang, group.drop_first(), said.1, true);
    }
}

/// Dangling numbers are rejected: in every language of the library, a
/// group that consists of nothing but a multiplier that needs a
/// multiplicand, such as the English "hundred", fails with `Incomplete`.
pub proof fn lemma_lone_multiplier_is_incomplete(lang: Language, word: Seq<char>)
    requires
        lang.entry(word) matches Some(found) && found.term.needs_multiplicand(),
    ensures
        group_outcome(&lang, seq![word]) == Some(
            Err::<DigitStringView, Error>(Error::Incomplete),
        ),
{
    lemma_language_follows_vocabulary(lang, word, DigitStringView::fresh());
    let fresh = DigitStringView::fresh();
    assert(crate::numeral::all_zero(fresh.digits));
    assert(DigitStringView::blank(fresh.digits, fresh.window(true)));
    assert(DigitStringView::blank(fresh.digits, fresh.window(false)));
    lemma_lone_word_left_open(&lang, word);
}

/// In every language of the library, a word that is answered with
/// `NotANumber` leaves the accumulator as it was, and a word without entry
/// in the vocabulary is answered so wherever it comes.
pub proof fn lemma_not_a_number_changes_nothing(lang: Language, word: Seq<char>, acc: DigitStringView)
    requires
        acc.wf(),
    ensures
        lang.applied(word, acc) matches Some((Err(Error::NotANumber), after)) ==> after == acc,
        lang.applied_decimal(word, acc) matches Some((Err(Error::NotANumber), after)) ==> after
            == acc,
        lang.entry(word) is None ==> lang.applied(word, acc) == Some(
            (Err::<(), Error>(Error::NotANumber), acc),
        ) && lang.applied_decimal(word, acc) == Some((Err::<(), Error>(Error::NotANumber), acc)),
{
    lemma_language_follows_vocabulary(lang, word, acc);
    lemma_interpreted(lang.entry(word), acc);
}

/// In every language of the library, the entries of the vocabulary have
/// meanings that the accumulator can take. So a word is answered with
/// `NotANumber` only if it has no entry, or only joins and stands where
/// there is nothing to join.
pub proof fn lemma_vocabulary_is_sound(lang: Language, word: Seq<char>, acc: DigitStringView)
    ensures
        lang.entry(word) matches Some(found) ==> found.term.sound(),
        lang.applied(word, acc) matches Some((Err(Error::NotANumber), _)) ==> lang.entry(word)
            is None || lang.entry(word)->0.term == Term::Glue,
{
    match lang {
        Language::German(_) => crate::lang::de::lemma_entries_are_sound(word),
        Language::Spanish(_) => crate::lang::es::lemma_entries_are_sound(word),
        Language::English(_) => crate::lang::en::lemma_entries_are_sound(word),
        Language::French(_) => crate::lang::fr::lemma_entries_are_sound(word),
        Language::Italian(_) => crate::lang::it::lemma_entries_are_sound(word),
        Language::Dutch(_) => crate::lang::nl::lemma_entries_are_sound(word),
        Language::Portuguese(_) => crate::lang::pt::lemma_entries_are_sound(word),
    }
    lemma_language_follows_vocabulary(lang, word, acc);
    if let Some(found) = lang.entry(word) {
        if found.term != Term::Glue {
            lemma_sound_is_a_number(found, acc);
        }
    }
}

/// In every language of the library, a word that is answered with
/// `NotANumber` on an empty accumulator leaves its rendered text empty.
pub proof fn lemma_not_a_number_renders_empty(lang: Language, word: Seq<char>)
    requires
        lang.applied(word, DigitStringView::fresh()) matches Some((Err(Error::NotANumber), _)),
    ensures
        lang.applied(word, DigitStringView::fresh()) matches Some((_, after)) ==> plain_format(
            after,
        ).0 == Seq::<char>::empty(),
{
    lemma_not_a_number_changes_nothing(lang, word, DigitStringView::fresh());
    assert(digits_text(DigitStringView::fresh().digits) =~= Seq::<char>::empty());
}

/// Rendering reads only: what a language that renders plainly answers
/// for an accumulator is the text and the value that [`plain_format`]
/// gives, so two renderings of one accumulator are the same text and the
/// same value.
pub proof fn lemma_rendering_repeats<L: LangInterpreter>(
    lang: &L,
    acc: DigitStringView,
    first: (Seq<char>, Option<Value>),
    second: (Seq<char>, Option<Value>),
)
    requires
        lang.formats_plainly(),
        first == plain_format(acc),
        second == plain_format(acc),
    ensures
        first == second,
{
}

/// Two renderings of one decimal number by a language that renders plainly
/// are the same text and the same value.
pub proof fn lemma_decimal_rendering_repeats<L: LangInterpreter>(
    lang: &L,
    integral: DigitStringView,
    dec: DigitStringView,
    sep: char,
    first: (Seq<char>, Option<Value>),
    second: (Seq<char>, Option<Value>),
)
    requires
        lang.formats_plainly(),
        first == plain_format_decimal(integral, dec, sep),
        second == plain_format_decimal(integral, dec, sep),
    ensures
        first == second,
{
}

/// Scales descend: once the scale `10^m` is closed, a multiplier by
/// `10^n` that is not smaller is refused as `Inconsistent`, and nothing
/// changes.
pub proof fn lemma_scales_descend(acc: DigitStringView, m: nat, n: nat)
    requires
        acc.wf(),
        acc.scale(m).0 is Ok,
        n >= m,
    ensures
        acc.scale(m).1.scale(n) == (Err::<(), Error>(Error::Inconsistent), acc.scale(m).1),
        acc.scale(m).1.shift(n).0 is Err,
        acc.scale(m).1.shift(n).1 == acc.scale(m).1,
{
}

/// A frozen accumulator refuses every write, and nothing changes: neither
/// the digits that are committed nor a marker that is set.
pub proof fn lemma_frozen_refuses(
    acc: DigitStringView,
    value: nat,
    pos: nat,
    n: nat,
    marker: MorphologicalMarker,
)
    requires
        acc.frozen,
    ensures
        acc.place(value, pos).0 is Err && acc.place(value, pos).1 == acc,
        acc.shift(n).0 is Err && acc.shift(n).1 == acc,
        acc.scale(n).0 is Err && acc.scale(n).1 == acc,
        acc.push(value).0 is Err && acc.push(value).1 == acc,
        !(marker is NoMarker) ==> acc.mark(marker).0 is Err,
        acc.mark(marker).1 == acc,
{
}

/// A multiplier that finds no multiplicand freezes the accumulator: the
/// words that follow cannot turn the group into a number.
pub proof fn lemma_dangling_multiplier_freezes(acc: DigitStringView, n: nat, inside: bool)
    requires
        acc.multiply(n, inside).0 == Err::<(), Error>(Error::Incomplete),
    ensures
        acc.multiply(n, inside).1 == acc.freeze(),
{
}

/// Every language of the library is found under its code.
pub proof fn lemma_found_under_its_code(lang: Language)
    ensures
        interpreter_for(words(CODES@)[lang.index() as int]) == Some(lang),
{
    reveal_strlit("de");
    reveal_strlit("es");
    reveal_strlit("en");
    reveal_strlit("fr");
    reveal_strlit("it");
    reveal_strlit("nl");
    reveal_strlit("pt");
    let codes = words(CODES@);
    let at = lang.index() as int;
    assert(codes.len() == 7);
    assert forall|i: int, j: int| 0 <= i < j < 7 implies codes[i] != codes[j] by {
        assert(codes[i].len() == 2 && codes[j].len() == 2);
        assert(codes[i][0] != codes[j][0] || codes[i][1] != codes[j][1]);
    }
    lemma_absent_before(codes, at);
    lemma_position_found(codes, codes[at], at);
}

/// In a list without repetition, no word stands before its own place.
proof fn lemma_absent_before(list: Seq<Seq<char>>, at: int)
    requires
        0 <= at < list.len(),
        forall|i: int, j: int| 0 <= i < j < list.len() ==> list[i] != list[j],
    ensures
        position(list.take(at), list[at]) is None,
    decreases at,
{
    lemma_absent_upto(list, at, at);
}

/// In a list without repetition, the word at `at` does not stand among
/// the first `n` words, for `n` up to `at`.
proof fn lemma_absent_upto(list: Seq<Seq<char>>, at: int, n: int)
    requires
        0 <= n <= at < list.len(),
        forall|i: int, j: int| 0 <= i < j < list.len() ==> list[i] != list[j],
    ensures
        position(list.take(n), list[at]) is None,
    decreases n,
{
    if n > 0 {
        assert(list.take(n).drop_last() =~= list.take(n - 1));
        lemma_absent_upto(list, at, n - 1);
        assert(list.take(n).last() == list[n - 1]);
    }
}

} // verus!
