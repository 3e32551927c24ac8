//! What a word of a language stands for, and how it acts on the
//! accumulator.
//!
//! A language's vocabulary is a table from words to entries. The entry says
//! which elementary operation the word stands for; the accumulator decides
//! whether the operation is valid where the word comes.

use vstd::prelude::*;
use crate::digit_string::{DigitString, DigitStringView, PERIOD};
use crate::error::Error;
use crate::lang::MorphologicalMarker;

verus! {

/// The numeral meaning of a word.
#[derive(Debug, Clone, Copy, PartialEq, Eq)]
pub enum Term {
    /// The number zero.
    Zero,
    /// One of 1 to 9: a digit for the units.
    Unit(u8),
    /// One of 10 to 99 that takes both units and tens, such as "twelve".
    Pair(u8),
    /// A multiple of ten, given by its digit 1 to 9, that leaves the units
    /// free, such as "twenty".
    Tens(u8),
    /// A multiple of one hundred, given by its digit 1 to 9, that leaves
    /// tens and units free, such as the Spanish "quinientos".
    Hundreds(u8),
    /// A multiplier by `10^power` inside the period, such as "hundred".
    /// With `alone`, the word also stands by itself, for one times the
    /// multiplier.
    Times { power: u8, alone: bool },
    /// A multiplier by `10^power` that closes a scale, such as "thousand".
    /// With `alone`, the word also stands by itself, for one times the
    /// multiplier.
    Scale { power: u8, alone: bool },
    /// A word that only joins the parts of one number, such as the "and"
    /// of "two hundred and three".
    Glue,
}

/// An entry of a vocabulary: the meaning of a word and the marker it bears.
#[derive(Debug, Clone, Copy)]
pub struct Entry {
    pub term: Term,
    pub marker: MorphologicalMarker,
}

impl Entry {
    /// The entry of a cardinal: a word with the meaning `term` and no
    /// marker.
    pub fn cardinal(term: Term) -> (entry: Option<Entry>)
        ensures
            entry == cardinal(term),
    {
        Some(Entry { term, marker: MorphologicalMarker::NoMarker })
    }

    /// The entry of an ordinal with the suffix `suffix`.
    pub fn ordinal(term: Term, suffix: &'static str) -> (entry: Option<Entry>)
        ensures
            entry == ordinal(term, suffix),
    {
        Some(Entry { term, marker: MorphologicalMarker::Ordinal(suffix) })
    }

    /// The entry of a fraction's denominator with the suffix `suffix`.
    pub fn fraction(term: Term, suffix: &'static str) -> (entry: Option<Entry>)
        ensures
            entry == fraction(term, suffix),
    {
        Some(Entry { term, marker: MorphologicalMarker::Fraction(suffix) })
    }
}

/// The entry of a cardinal: a word with the meaning `term` and no marker.
pub open spec fn cardinal(term: Term) -> Option<Entry> {
    Some(Entry { term, marker: MorphologicalMarker::NoMarker })
}

/// The entry of an ordinal with the suffix `suffix`.
pub open spec fn ordinal(term: Term, suffix: &'static str) -> Option<Entry> {
    Some(Entry { term, marker: MorphologicalMarker::Ordinal(suffix) })
}

/// The entry of a fraction's denominator with the suffix `suffix`.
pub open spec fn fraction(term: Term, suffix: &'static str) -> Option<Entry> {
    Some(Entry { term, marker: MorphologicalMarker::Fraction(suffix) })
}

/// The marker of a word with the entry `entry`, or of a word without
/// entry.
pub open spec fn marker_of(entry: Option<Entry>) -> MorphologicalMarker {
    match entry {
        Some(found) => found.marker,
        None => MorphologicalMarker::NoMarker,
    }
}

/// A multiplier word on `acc`. Where the word may stand alone and finds
/// nothing to multiply, it multiplies a one that it writes itself; either
/// both steps succeed or nothing changes.
pub open spec fn multiplied(acc: DigitStringView, power: nat, inside: bool, alone: bool) -> (
    Result<(), Error>,
    DigitStringView,
) {
    if alone && !acc.frozen && DigitStringView::blank(acc.digits, acc.window(inside)) {
        let one = acc.place(1, 0);
        let product = one.1.multiply(power, inside);
        if one.0 is Err {
            (one.0, acc)
        } else if product.0 is Err {
            (product.0, acc)
        } else {
            product
        }
    } else {
        acc.multiply(power, inside)
    }
}

impl Term {
    /// What the word does to `acc`, and what it answers.
    pub open spec fn run(self, acc: DigitStringView) -> (Result<(), Error>, DigitStringView) {
        match self {
            Term::Zero => acc.place(0, 0),
            Term::Unit(d) => if 1 <= d <= 9 {
                acc.place(d as nat, 0)
            } else {
                (Err(Error::NotANumber), acc)
            },
            Term::Pair(n) => if 10 <= n <= 99 {
                acc.place(n as nat, 0)
            } else {
                (Err(Error::NotANumber), acc)
            },
            Term::Tens(d) => if 1 <= d <= 9 {
                acc.place(d as nat, 1)
            } else {
                (Err(Error::NotANumber), acc)
            },
            Term::Hundreds(d) => if 1 <= d <= 9 {
                acc.place(d as nat, 2)
            } else {
                (Err(Error::NotANumber), acc)
            },
            Term::Times { power, alone } => multiplied(acc, power as nat, true, alone),
            Term::Scale { power, alone } => multiplied(acc, power as nat, false, alone),
            Term::Glue => if !acc.frozen && acc.digits.len() > 0 && acc.open > 0 {
                (Err(Error::Incomplete), acc)
            } else {
                (Err(Error::NotANumber), acc)
            },
        }
    }

    /// The meaning is one that the accumulator can take: a digit is one
    /// of 1 to 9, a pair one of 10 to 99, the power of a multiplier inside
    /// the period 1 or 2, and that of a scale at least 1.
    pub open spec fn sound(self) -> bool {
        match self {
            Term::Zero => true,
            Term::Unit(d) => 1 <= d <= 9,
            Term::Pair(n) => 10 <= n <= 99,
            Term::Tens(d) => 1 <= d <= 9,
            Term::Hundreds(d) => 1 <= d <= 9,
            Term::Times { power, alone } => 1 <= power < PERIOD,
            Term::Scale { power, alone } => 1 <= power,
            Term::Glue => true,
        }
    }

    /// Tells whether the word is a multiplier that needs a multiplicand
    /// before it.
    pub open spec fn needs_multiplicand(self) -> bool {
        match self {
            Term::Times { power, alone } => !alone && 1 <= power < PERIOD,
            Term::Scale { power, alone } => !alone && 1 <= power,
            _ => false,
        }
    }
}

/// What a word with the entry `entry`, or a word without entry, does to
/// `acc` as part of the integral portion of a number.
pub open spec fn interpreted(entry: Option<Entry>, acc: DigitStringView) -> (
    Result<(), Error>,
    DigitStringView,
) {
    match entry {
        None => (Err(Error::NotANumber), acc),
        Some(e) => {
            let written = e.term.run(acc);
            if written.0 is Ok {
                written.1.mark(e.marker)
            } else {
                written
            }
        },
    }
}

/// What a word with the entry `entry`, or a word without entry, does to
/// `acc` behind a decimal separator: there a number is spelled digit by
/// digit, and only the words for zero to nine count.
pub open spec fn interpreted_decimal(entry: Option<Entry>, acc: DigitStringView) -> (
    Result<(), Error>,
    DigitStringView,
) {
    match entry {
        Some(Entry { term: Term::Zero, marker: MorphologicalMarker::NoMarker }) => acc.push(0),
        Some(Entry { term: Term::Unit(d), marker: MorphologicalMarker::NoMarker }) => if 1 <= d
            <= 9 {
            acc.push(d as nat)
        } else {
            (Err(Error::NotANumber), acc)
        },
        _ => (Err(Error::NotANumber), acc),
    }
}

/// A word that is answered with an error other than `Incomplete` leaves
/// the accumulator as it was; a word that is accepted leaves it open to
/// its marker.
pub proof fn lemma_interpreted(entry: Option<Entry>, acc: DigitStringView)
    requires
        acc.wf(),
    ensures
        interpreted(entry, acc).1.wf(),
        interpreted_decimal(entry, acc).1.wf(),
        interpreted(entry, acc).0 is Err && interpreted(entry, acc).0 != Err::<(), Error>(
            Error::Incomplete,
        ) ==> interpreted(entry, acc).1 == acc,
        interpreted_decimal(entry, acc).0 is Err ==> interpreted_decimal(entry, acc).1 == acc,
        entry is Some && entry->0.term.run(acc).0 is Ok ==> interpreted(entry, acc).0 is Ok,
{
    crate::digit_string::lemma_push_keeps_wf(acc, 0);
    if let Some(e) = entry {
        lemma_run_keeps_wf(e.term, acc);
        if let Term::Unit(d) = e.term {
            crate::digit_string::lemma_push_keeps_wf(acc, d as nat);
        }
    }
}

/// A word keeps the accumulator's invariant; where it is accepted, the
/// accumulator holds digits and is not frozen.
pub proof fn lemma_run_keeps_wf(term: Term, acc: DigitStringView)
    requires
        acc.wf(),
    ensures
        term.run(acc).1.wf(),
        term.run(acc).0 is Ok ==> !term.run(acc).1.frozen && term.run(acc).1.digits.len() > 0
            && term.run(acc).1.marker is NoMarker,
{
    match term {
        Term::Zero => {
            crate::digit_string::lemma_place_keeps_wf(acc, 0, 0);
        },
        Term::Unit(d) => {
            crate::digit_string::lemma_place_keeps_wf(acc, d as nat, 0);
        },
        Term::Pair(n) => {
            crate::digit_string::lemma_place_keeps_wf(acc, n as nat, 0);
        },
        Term::Tens(d) => {
            crate::digit_string::lemma_place_keeps_wf(acc, d as nat, 1);
        },
        Term::Hundreds(d) => {
            crate::digit_string::lemma_place_keeps_wf(acc, d as nat, 2);
        },
        Term::Times { power, alone } => {
            crate::digit_string::lemma_place_keeps_wf(acc, 1, 0);
            crate::digit_string::lemma_multiply_keeps_wf(acc, power as nat, true);
            crate::digit_string::lemma_multiply_keeps_wf(acc.place(1, 0).1, power as nat, true);
        },
        Term::Scale { power, alone } => {
            crate::digit_string::lemma_place_keeps_wf(acc, 1, 0);
            crate::digit_string::lemma_multiply_keeps_wf(acc, power as nat, false);
            crate::digit_string::lemma_multiply_keeps_wf(acc.place(1, 0).1, power as nat, false);
        },
        Term::Glue => {},
    }
}

/// A word with a sound meaning, other than a word that only joins, is
/// not answered with `NotANumber`, wherever it comes: it is written, or
/// left open, or refused by the accumulator.
pub proof fn lemma_sound_is_a_number(entry: Entry, acc: DigitStringView)
    requires
        entry.term.sound(),
        entry.term != Term::Glue,
    ensures
        interpreted(Some(entry), acc).0 != Err::<(), Error>(Error::NotANumber),
{
}

/// Runs a multiplier word on `acc`.
fn multiply(acc: &mut DigitString, power: u8, inside: bool, alone: bool) -> (done: Result<
    (),
    Error,
>)
    requires
        old(acc)@.wf(),
    ensures
        (done, final(acc)@) == multiplied(old(acc)@, power as nat, inside, alone),
        final(acc)@.wf(),
{
    proof {
        crate::digit_string::lemma_place_keeps_wf(acc@, 1, 0);
        crate::digit_string::lemma_multiply_keeps_wf(acc@, power as nat, inside);
        crate::digit_string::lemma_multiply_keeps_wf(acc@.place(1, 0).1, power as nat, inside);
    }
    if alone && !acc.is_frozen() && acc.is_blank(inside) {
        let saved = acc.duplicate();
        match acc.place(1, 0) {
            Err(e) => Err(e),
            Ok(()) => {
                let product = if inside {
                    acc.shift(power)
                } else {
                    acc.scale(power)
                };
                if product.is_err() {
                    *acc = saved;
                }
                product
            },
        }
    } else if inside {
        acc.shift(power)
    } else {
        acc.scale(power)
    }
}

/// Lets a word with the entry `entry`, or a word without entry, act on
/// `acc` as part of the integral portion of a number.
///
/// A word without entry is answered with `NotANumber`. Otherwise the
/// accumulator decides: the word's digits or multiplier are written if they
/// are valid where the word comes, followed by its marker.
pub fn interpret(entry: Option<Entry>, acc: &mut DigitString) -> (done: Result<(), Error>)
    requires
        old(acc)@.wf(),
    ensures
        (done, final(acc)@) == interpreted(entry, old(acc)@),
        final(acc)@.wf(),
{
    proof {
        lemma_interpreted(entry, acc@);
    }
    match entry {
        None => Err(Error::NotANumber),
        Some(e) => {
            let written = match e.term {
                Term::Zero => acc.place(0, 0),
                Term::Unit(d) => if 1 <= d && d <= 9 {
                    acc.place(d as u16, 0)
                } else {
                    Err(Error::NotANumber)
                },
                Term::Pair(n) => if 10 <= n && n <= 99 {
                    acc.place(n as u16, 0)
                } else {
                    Err(Error::NotANumber)
                },
                Term::Tens(d) => if 1 <= d && d <= 9 {
                    acc.place(d as u16, 1)
                } else {
                    Err(Error::NotANumber)
                },
                Term::Hundreds(d) => if 1 <= d && d <= 9 {
                    acc.place(d as u16, 2)
                } else {
                    Err(Error::NotANumber)
                },
                Term::Times { power, alone } => multiply(acc, power, true, alone),
                Term::Scale { power, alone } => multiply(acc, power, false, alone),
                Term::Glue => if !acc.is_frozen() && !acc.is_empty() && acc.is_position_free(0) {
                    Err(Error::Incomplete)
                } else {
                    Err(Error::NotANumber)
                },
            };
            assert((written, acc@) == e.term.run(old(acc)@));
            match written {
                Ok(()) => acc.mark(e.marker),
                Err(e) => Err(e),
            }
        },
    }
}

/// Lets a word with the entry `entry`, or a word without entry, act on
/// `acc` behind a decimal separator.
///
/// The words for zero to nine, without a marker, append their digit; every
/// other word is answered with `NotANumber`.
pub fn interpret_decimal(entry: Option<Entry>, acc: &mut DigitString) -> (done: Result<
    (),
    Error,
>)
    requires
        old(acc)@.wf(),
    ensures
        (done, final(acc)@) == interpreted_decimal(entry, old(acc)@),
        final(acc)@.wf(),
{
    proof {
        lemma_interpreted(entry, acc@);
    }
    match entry {
        Some(e) => {
            if e.marker.is_none() {
                match e.term {
                    Term::Zero => acc.push(0),
                    Term::Unit(d) => if 1 <= d && d <= 9 {
                        acc.push(d)
                    } else {
                        Err(Error::NotANumber)
                    },
                    _ => Err(Error::NotANumber),
                }
            } else {
                Err(Error::NotANumber)
            }
        },
        None => Err(Error::NotANumber),
    }
}

} // verus!
