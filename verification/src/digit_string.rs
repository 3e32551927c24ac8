//! The digit accumulator: the register on which a language's words operate.

use vstd::prelude::*;
use vstd::string::StringExecFns;
use crate::error::Error;
use crate::lang::MorphologicalMarker;
use crate::numeral::{
    all_decimal, all_zero, digits_text, digits_value, group_digits, lemma_value_of_concat,
    lemma_value_of_group, lemma_value_of_prefix, lemma_value_of_zeros, low, pow10, zeros, Value,
};
use crate::text::push_char;

verus! {

/// How many positions a period has: units, tens, hundreds.
pub const PERIOD: usize = 3;

/// The mathematical content of a [`DigitString`].
pub struct DigitStringView {
    /// The digits assembled so far, most significant first.
    pub digits: Seq<u8>,
    /// How many of the lowest positions are still free. A free position
    /// holds zero; every position above them is committed.
    pub open: nat,
    /// The power of ten of the last scale that was closed, if any. Zero
    /// stands for a number that was spelled digit by digit.
    pub ceiling: Option<nat>,
    /// No word may write any more.
    pub frozen: bool,
    /// The marker that rendering will echo.
    pub marker: MorphologicalMarker,
}

impl DigitStringView {
    /// The accumulator before any word.
    pub open spec fn fresh() -> DigitStringView {
        DigitStringView {
            digits: Seq::empty(),
            open: PERIOD as nat,
            ceiling: None,
            frozen: false,
            marker: MorphologicalMarker::NoMarker,
        }
    }

    /// The invariant of the accumulator: the digits are decimal digits;
    /// the free positions are the lowest ones, at most a period of them,
    /// and hold zeros; a closed scale lies above them and within the
    /// number; unless the number was spelled digit by digit, it has no
    /// leading zero; and an accumulator that bears a marker is frozen.
    pub open spec fn wf(self) -> bool {
        &&& all_decimal(self.digits)
        &&& self.open <= PERIOD
        &&& self.digits.len() == 0 ==> self.open == PERIOD && self.ceiling is None
        &&& self.digits.len() > 0 ==> self.open <= self.digits.len() && all_zero(
            low(self.digits, self.open),
        )
        &&& self.ceiling matches Some(c) ==> self.open <= c < self.digits.len()
        &&& self.ceiling != Some(0nat) && self.digits.len() > 1 ==> self.digits[0] != 0
        &&& !(self.marker is NoMarker) ==> self.frozen && self.digits.len() > 0
    }

    /// The same accumulator, closed to further writes.
    pub open spec fn freeze(self) -> DigitStringView {
        DigitStringView { frozen: true, ..self }
    }

    /// Writes the digits of `value` so that the lowest of them stands at
    /// position `pos` of the current period.
    pub open spec fn place(self, value: nat, pos: nat) -> (Result<(), Error>, DigitStringView) {
        let group = group_digits(value);
        if value >= 1000 || (value == 0 && pos > 0) {
            (Err(Error::NotANumber), self)
        } else if self.frozen {
            (Err(Error::Inconsistent), self)
        } else if pos + group.len() > self.open {
            (Err(Error::Overlap), self)
        } else if self.digits.len() == 0 {
            (Ok(()), DigitStringView { digits: group + zeros(pos), open: pos, ..self })
        } else if value == 0 {
            (Err(Error::Inconsistent), self)
        } else {
            (
                Ok(()),
                DigitStringView {
                    digits: self.digits.subrange(0, self.digits.len() - pos - group.len()) + group
                        + zeros(pos),
                    open: pos,
                    ..self
                },
            )
        }
    }

    /// The width of the window that a multiplier by `10^n` works on: the
    /// positions below the last closed scale, and for a multiplier inside
    /// the period no more than the period.
    pub open spec fn window(self, inside: bool) -> Option<nat> {
        match self.ceiling {
            Some(c) => if inside && c > PERIOD {
                Some(PERIOD as nat)
            } else {
                Some(c)
            },
            None => if inside {
                Some(PERIOD as nat)
            } else {
                None
            },
        }
    }

    /// The digits after the window's content has been multiplied by `10^n`,
    /// if the product fits into the window.
    pub open spec fn lifted(digits: Seq<u8>, window: Option<nat>, n: nat) -> Option<Seq<u8>> {
        match window {
            None => Some(digits + zeros(n)),
            Some(w) => {
                let len = digits.len();
                if len < w {
                    if len + n <= w {
                        Some(digits + zeros(n))
                    } else {
                        None
                    }
                } else if n <= w && all_zero(digits.subrange(len - w, len - w + n)) {
                    Some(digits.subrange(0, len - w) + digits.subrange(len - w + n, len as int) + zeros(n))
                } else {
                    None
                }
            },
        }
    }

    /// The window holds no multiplicand.
    pub open spec fn blank(digits: Seq<u8>, window: Option<nat>) -> bool {
        match window {
            None => all_zero(digits),
            Some(w) => all_zero(low(digits, w)),
        }
    }

    /// Multiplies the window's content by `10^n`. With `inside`, the
    /// multiplier works within the current period and closes nothing; without
    /// it, it closes the scale `10^n`.
    pub open spec fn multiply(self, n: nat, inside: bool) -> (Result<(), Error>, DigitStringView) {
        let window = self.window(inside);
        if n == 0 || (inside && n >= PERIOD) {
            (Err(Error::NotANumber), self)
        } else if self.frozen {
            (Err(Error::Inconsistent), self)
        } else if self.ceiling is Some && n >= self.ceiling->0 {
            (Err(Error::Inconsistent), self)
        } else if Self::blank(self.digits, window) {
            (Err(Error::Incomplete), self.freeze())
        } else {
            match Self::lifted(self.digits, window, n) {
                None => (Err(Error::Overlap), self),
                Some(digits) => (
                    Ok(()),
                    if inside {
                        DigitStringView { digits, open: n, ..self }
                    } else {
                        DigitStringView {
                            digits,
                            open: if n < PERIOD {
                                n
                            } else {
                                PERIOD as nat
                            },
                            ceiling: Some(n),
                            ..self
                        }
                    },
                ),
            }
        }
    }

    /// Multiplies what the current period holds by `10^n`: the work of a
    /// word such as "hundred".
    pub open spec fn shift(self, n: nat) -> (Result<(), Error>, DigitStringView) {
        self.multiply(n, true)
    }

    /// Multiplies what stands below the last closed scale by `10^n` and
    /// closes that scale: the work of a word such as "thousand".
    pub open spec fn scale(self, n: nat) -> (Result<(), Error>, DigitStringView) {
        self.multiply(n, false)
    }

    /// Appends one digit to a number that is spelled digit by digit.
    pub open spec fn push(self, digit: nat) -> (Result<(), Error>, DigitStringView) {
        if digit > 9 {
            (Err(Error::NotANumber), self)
        } else if self.frozen {
            (Err(Error::Inconsistent), self)
        } else if self.digits.len() > 0 && self.ceiling != Some(0nat) {
            (Err(Error::Inconsistent), self)
        } else {
            (
                Ok(()),
                DigitStringView {
                    digits: self.digits.push(digit as u8),
                    open: 0,
                    ceiling: Some(0),
                    ..self
                },
            )
        }
    }

    /// Attaches a marker and closes the accumulator.
    pub open spec fn mark(self, marker: MorphologicalMarker) -> (Result<(), Error>, DigitStringView) {
        if marker is NoMarker {
            (Ok(()), self)
        } else if self.frozen || self.digits.len() == 0 {
            (Err(Error::Inconsistent), self)
        } else {
            (Ok(()), DigitStringView { marker, frozen: true, ..self })
        }
    }
}

/// The digit accumulator: one number under construction.
///
/// A language feeds it the elementary operations that its words stand for.
/// Each operation checks the write against what is already committed,
/// commits it if it is valid, and otherwise reports an error and leaves the
/// digits as they were.
pub struct DigitString {
    digits: Vec<u8>,
    open: usize,
    ceiling: Option<usize>,
    frozen: bool,
    marker: MorphologicalMarker,
}

impl View for DigitString {
    type V = DigitStringView;

    closed spec fn view(&self) -> DigitStringView {
        DigitStringView {
            digits: self.digits@,
            open: self.open as nat,
            ceiling: match self.ceiling {
                Some(c) => Some(c as nat),
                None => None,
            },
            frozen: self.frozen,
            marker: self.marker,
        }
    }
}

/// Appends `src[from..to]` to `out`.
fn extend_range(out: &mut Vec<u8>, src: &Vec<u8>, from: usize, to: usize)
    requires
        from <= to <= src@.len(),
    ensures
        final(out)@ == old(out)@ + src@.subrange(from as int, to as int),
{
    let mut i: usize = from;
    while i < to
        invariant
            from <= i <= to <= src@.len(),
            out@ == old(out)@ + src@.subrange(from as int, i as int),
        decreases to - i,
    {
        out.push(src[i]);
        i += 1;
        assert(out@ =~= old(out)@ + src@.subrange(from as int, i as int));
    }
    assert(out@ =~= old(out)@ + src@.subrange(from as int, to as int));
}

/// Appends `n` zeros to `out`.
fn extend_zeros(out: &mut Vec<u8>, n: usize)
    ensures
        final(out)@ == old(out)@ + zeros(n as nat),
{
    let mut i: usize = 0;
    while i < n
        invariant
            i <= n,
            out@ == old(out)@ + zeros(i as nat),
        decreases n - i,
    {
        out.push(0);
        i += 1;
        assert(out@ =~= old(out)@ + zeros(i as nat));
    }
}

/// Appends the digits of `value` to `out`.
fn extend_group(out: &mut Vec<u8>, value: u16)
    requires
        value < 1000,
    ensures
        final(out)@ == old(out)@ + group_digits(value as nat),
{
    if value >= 100 {
        out.push((value / 100) as u8);
    }
    if value >= 10 {
        out.push((value / 10 % 10) as u8);
    }
    out.push((value % 10) as u8);
    assert(out@ =~= old(out)@ + group_digits(value as nat));
}

/// Tells whether `src[from..to]` holds zeros only.
fn zero_range(src: &Vec<u8>, from: usize, to: usize) -> (zero: bool)
    requires
        from <= to <= src@.len(),
    ensures
        zero == all_zero(src@.subrange(from as int, to as int)),
{
    let mut i: usize = from;
    while i < to
        invariant
            from <= i <= to <= src@.len(),
            all_zero(src@.subrange(from as int, i as int)),
        decreases to - i,
    {
        if src[i] != 0 {
            assert(src@.subrange(from as int, to as int)[i - from] != 0);
            return false;
        }
        i += 1;
        assert forall|k: int| 0 <= k < i - from implies #[trigger] src@.subrange(
            from as int,
            i as int,
        )[k] == 0 by {
            if k < i - from - 1 {
                assert(src@.subrange(from as int, i - 1)[k] == 0);
            }
        }
    }
    true
}

impl DigitString {
    /// An empty accumulator.
    pub fn new() -> (fresh: DigitString)
        ensures
            fresh@ == DigitStringView::fresh(),
            fresh@.wf(),
    {
        DigitString {
            digits: Vec::new(),
            open: PERIOD,
            ceiling: None,
            frozen: false,
            marker: MorphologicalMarker::NoMarker,
        }
    }

    /// Empties the accumulator.
    pub fn reset(&mut self)
        ensures
            final(self)@ == DigitStringView::fresh(),
            final(self)@.wf(),
    {
        self.digits.clear();
        self.open = PERIOD;
        self.ceiling = None;
        self.frozen = false;
        self.marker = MorphologicalMarker::NoMarker;
    }

    /// A copy of the accumulator.
    pub fn duplicate(&self) -> (copy: DigitString)
        ensures
            copy@ == self@,
    {
        let mut digits: Vec<u8> = Vec::new();
        extend_range(&mut digits, &self.digits, 0, self.digits.len());
        assert(digits@ =~= self.digits@);
        DigitString {
            digits,
            open: self.open,
            ceiling: self.ceiling,
            frozen: self.frozen,
            marker: self.marker,
        }
    }

    /// Tells whether a multiplier would find nothing to multiply: within
    /// the current period with `inside`, below the last closed scale
    /// without.
    pub fn is_blank(&self, inside: bool) -> (blank: bool)
        requires
            self@.wf(),
        ensures
            blank == DigitStringView::blank(self@.digits, self@.window(inside)),
    {
        let len = self.digits.len();
        let width: usize = match self.ceiling {
            Some(c) => if inside && c > PERIOD {
                PERIOD
            } else {
                c
            },
            None => if inside {
                PERIOD
            } else {
                len
            },
        };
        let base: usize = if len < width {
            0
        } else {
            len - width
        };
        assert(self.digits@.subrange(base as int, len as int) =~= match self@.window(inside) {
            Some(w) => low(self.digits@, w),
            None => self.digits@,
        });
        zero_range(&self.digits, base, len)
    }

    /// Closes the accumulator to further writes.
    pub fn freeze(&mut self)
        ensures
            final(self)@ == old(self)@.freeze(),
            old(self)@.wf() ==> final(self)@.wf(),
    {
        self.frozen = true;
    }

    /// Tells whether the accumulator is closed to further writes.
    pub fn is_frozen(&self) -> (frozen: bool)
        ensures
            frozen == self@.frozen,
    {
        self.frozen
    }

    /// Tells whether no digit has been written.
    pub fn is_empty(&self) -> (empty: bool)
        ensures
            empty == (self@.digits.len() == 0),
    {
        self.digits.len() == 0
    }

    /// The number of digits.
    pub fn len(&self) -> (len: usize)
        ensures
            len == self@.digits.len(),
    {
        self.digits.len()
    }

    /// The marker that rendering will echo.
    pub fn marker(&self) -> (marker: MorphologicalMarker)
        ensures
            marker == self@.marker,
    {
        self.marker
    }

    /// Tells whether a word may still write at `position` of the current
    /// period: the accumulator is not frozen and the position is free.
    pub fn is_position_free(&self, position: usize) -> (free: bool)
        ensures
            free == (!self@.frozen && position < self@.open),
    {
        !self.frozen && position < self.open
    }

    /// The digits as text: empty for an empty accumulator.
    pub fn to_string(&self) -> (text: String)
        requires
            self@.wf(),
        ensures
            text@ == digits_text(self@.digits),
    {
        let mut text = String::new();
        let mut i: usize = 0;
        while i < self.digits.len()
            invariant
                i <= self.digits@.len(),
                all_decimal(self.digits@),
                text@ == digits_text(self.digits@.take(i as int)),
            decreases self.digits@.len() - i,
        {
            let digit = self.digits[i];
            assert(self.digits@[i as int] <= 9);
            push_char(&mut text, (48u8 + digit) as char);
            i += 1;
            assert(text@ =~= digits_text(self.digits@.take(i as int)));
        }
        assert(self.digits@.take(i as int) =~= self.digits@);
        text
    }

    /// The canonical text of the number: the digits, followed by the
    /// suffix of the marker if it is an ordinal one.
    pub fn render(&self) -> (text: String)
        requires
            self@.wf(),
        ensures
            text@ == self@.text(),
    {
        let mut text = self.to_string();
        if let MorphologicalMarker::Ordinal(suffix) = self.marker {
            text.append(suffix);
        }
        text
    }

    /// The number that the digits denote, zero for an empty accumulator;
    /// none if it does not fit.
    pub fn parse(&self) -> (value: Option<u64>)
        ensures
            value == if digits_value(self@.digits) <= u64::MAX {
                Some(digits_value(self@.digits) as u64)
            } else {
                None
            },
    {
        let mut value: u64 = 0;
        let mut i: usize = 0;
        while i < self.digits.len()
            invariant
                i <= self.digits@.len(),
                value == digits_value(self.digits@.take(i as int)),
            decreases self.digits@.len() - i,
        {
            let digit = self.digits[i];
            proof {
                let next = self.digits@.take(i + 1);
                assert(next.drop_last() =~= self.digits@.take(i as int));
                assert(next.last() == digit);
                lemma_value_of_prefix(self.digits@, i + 1);
            }
            if value > (u64::MAX - digit as u64) / 10 {
                return None;
            }
            value = value * 10 + digit as u64;
            i += 1;
        }
        assert(self.digits@.take(i as int) =~= self.digits@);
        Some(value)
    }

    /// The number that the digits denote when they stand behind a decimal
    /// separator: the digits, read as an integer, over ten to the power of
    /// their count. There is none if that integer does not fit.
    pub fn parse_decimal(&self) -> (value: Option<Value>)
        ensures
            value == Value::of(0, digits_value(self@.digits), self@.digits.len()),
    {
        match self.parse() {
            Some(mantissa) => Some(Value { mantissa, places: self.digits.len() }),
            None => None,
        }
    }

    /// Writes the digits of `value`, a number below one thousand, so that
    /// the lowest of them stands at `pos` of the current period: `pos` is 0
    /// for units, 1 for tens, 2 for hundreds. The positions below `pos` stay
    /// free, every other position is committed from now on.
    ///
    /// Fails with `NotANumber` if `value` has more than three digits or is
    /// a zero that is not meant for the units, with `Inconsistent` if the
    /// accumulator is frozen or if a zero is to follow other digits, and
    /// with `Overlap` if the digits do not all fall on free positions. On
    /// failure nothing changes.
    pub fn place(&mut self, value: u16, pos: usize) -> (done: Result<(), Error>)
        requires
            old(self)@.wf(),
        ensures
            (done, final(self)@) == old(self)@.place(value as nat, pos as nat),
            final(self)@.wf(),
    {
        proof {
            lemma_place_keeps_wf(self@, value as nat, pos as nat);
        }
        if value >= 1000 || (value == 0 && pos > 0) {
            return Err(Error::NotANumber);
        }
        if self.frozen {
            return Err(Error::Inconsistent);
        }
        let width: usize = if value >= 100 {
            3
        } else if value >= 10 {
            2
        } else {
            1
        };
        assert(width == group_digits(value as nat).len());
        if pos > self.open || width > self.open - pos {
            return Err(Error::Overlap);
        }
        let len = self.digits.len();
        if len > 0 {
            if value == 0 {
                return Err(Error::Inconsistent);
            }
            self.digits.truncate(len - pos - width);
        }
        extend_group(&mut self.digits, value);
        extend_zeros(&mut self.digits, pos);
        self.open = pos;
        assert(self.digits@ =~= old(self)@.place(value as nat, pos as nat).1.digits);
        Ok(())
    }

    /// Multiplies the window's content by `10^n`; see
    /// [`DigitStringView::multiply`].
    fn multiply(&mut self, power: u8, inside: bool) -> (done: Result<(), Error>)
        requires
            old(self)@.wf(),
        ensures
            (done, final(self)@) == old(self)@.multiply(power as nat, inside),
            final(self)@.wf(),
    {
        let n: usize = power as usize;
        proof {
            lemma_multiply_keeps_wf(self@, n as nat, inside);
        }
        if n == 0 || (inside && n >= PERIOD) {
            return Err(Error::NotANumber);
        }
        if self.frozen {
            return Err(Error::Inconsistent);
        }
        let window: Option<usize> = match self.ceiling {
            Some(c) => {
                if n >= c {
                    return Err(Error::Inconsistent);
                }
                if inside && c > PERIOD {
                    Some(PERIOD)
                } else {
                    Some(c)
                }
            },
            None => if inside {
                Some(PERIOD)
            } else {
                None
            },
        };
        assert(self@.window(inside) == match window {
            Some(w) => Some(w as nat),
            None => None,
        });
        let len = self.digits.len();
        let base: usize = match window {
            Some(w) => if len < w {
                0
            } else {
                len - w
            },
            None => 0,
        };
        assert(self.digits@.subrange(base as int, len as int) =~= match window {
            Some(w) => low(self.digits@, w as nat),
            None => self.digits@,
        });
        if zero_range(&self.digits, base, len) {
            self.frozen = true;
            return Err(Error::Incomplete);
        }
        match window {
            Some(w) => {
                if len < w {
                    if n > w - len {
                        return Err(Error::Overlap);
                    }
                } else {
                    if n > w || !zero_range(&self.digits, base, base + n) {
                        return Err(Error::Overlap);
                    }
                    let mut lifted: Vec<u8> = Vec::new();
                    extend_range(&mut lifted, &self.digits, 0, base);
                    extend_range(&mut lifted, &self.digits, base + n, len);
                    assert(lifted@ =~= self.digits@.subrange(0, base as int)
                        + self.digits@.subrange(base + n, len as int));
                    self.digits = lifted;
                }
            },
            None => {},
        }
        extend_zeros(&mut self.digits, n);
        if inside {
            self.open = n;
        } else {
            self.open = if n < PERIOD {
                n
            } else {
                PERIOD
            };
            self.ceiling = Some(n);
        }
        assert(self.digits@ =~= old(self)@.multiply(n as nat, inside).1.digits);
        Ok(())
    }

    /// Multiplies what the current period holds by `10^n`, for `n` 1 or 2:
    /// the work of a word such as "hundred". The multiplicand moves up by
    /// `n` positions, and the `n` positions below it become free.
    ///
    /// Fails with `NotANumber` for any other `n`, with `Inconsistent` if
    /// the accumulator is frozen or `10^n` is not below the last closed
    /// scale, and with `Overlap` if the product does not fit into the period.
    /// In these cases nothing changes. Where the period holds no
    /// multiplicand, the multiplier dangles: the answer is `Incomplete`, the
    /// digits stay, and the accumulator is frozen.
    pub fn shift(&mut self, n: u8) -> (done: Result<(), Error>)
        requires
            old(self)@.wf(),
        ensures
            (done, final(self)@) == old(self)@.shift(n as nat),
            final(self)@.wf(),
    {
        self.multiply(n, true)
    }

    /// Multiplies what stands below the last closed scale by `10^n` and
    /// closes the scale `10^n`: the work of a word such as "thousand".
    /// A new period of free positions opens below it.
    ///
    /// Fails with `NotANumber` if `n` is zero, with `Inconsistent` if the
    /// accumulator is frozen or a scale that is not larger has been closed
    /// before, and with `Overlap` if the product would reach that scale. In
    /// these cases nothing changes. Where no multiplicand stands below the
    /// last closed scale, the multiplier dangles: the answer is
    /// `Incomplete`, the digits stay, and the accumulator is frozen.
    pub fn scale(&mut self, n: u8) -> (done: Result<(), Error>)
        requires
            old(self)@.wf(),
        ensures
            (done, final(self)@) == old(self)@.scale(n as nat),
            final(self)@.wf(),
    {
        self.multiply(n, false)
    }

    /// Appends one digit to a number that is spelled digit by digit.
    ///
    /// Fails with `NotANumber` if `digit` is above nine, and with
    /// `Inconsistent` if the accumulator is frozen or holds a number that
    /// was not spelled digit by digit. On failure nothing changes.
    pub fn push(&mut self, digit: u8) -> (done: Result<(), Error>)
        requires
            old(self)@.wf(),
        ensures
            (done, final(self)@) == old(self)@.push(digit as nat),
            final(self)@.wf(),
    {
        proof {
            lemma_push_keeps_wf(self@, digit as nat);
        }
        if digit > 9 {
            return Err(Error::NotANumber);
        }
        if self.frozen {
            return Err(Error::Inconsistent);
        }
        if self.digits.len() > 0 {
            match self.ceiling {
                Some(c) => if c != 0 {
                    return Err(Error::Inconsistent);
                },
                None => {
                    return Err(Error::Inconsistent);
                },
            }
        }
        self.digits.push(digit);
        self.open = 0;
        self.ceiling = Some(0);
        Ok(())
    }

    /// Attaches `marker` and freezes the accumulator; without a marker to
    /// attach, does nothing.
    ///
    /// Fails with `Inconsistent`, and changes nothing, if there is a marker
    /// to attach and the accumulator is empty or frozen: a marker that was
    /// set stays.
    pub fn mark(&mut self, marker: MorphologicalMarker) -> (done: Result<(), Error>)
        requires
            old(self)@.wf(),
        ensures
            (done, final(self)@) == old(self)@.mark(marker),
            final(self)@.wf(),
    {
        if marker.is_none() {
            return Ok(());
        }
        if self.frozen || self.digits.len() == 0 {
            return Err(Error::Inconsistent);
        }
        self.marker = marker;
        self.frozen = true;
        Ok(())
    }
}

/// Writing a group keeps the invariant, whatever the answer.
pub proof fn lemma_place_keeps_wf(v: DigitStringView, value: nat, pos: nat)
    requires
        v.wf(),
    ensures
        v.place(value, pos).1.wf(),
{
    let r = v.place(value, pos);
    if r.0 is Ok {
        let g = group_digits(value);
        let d = r.1.digits;
        assert(all_decimal(g));
        assert(d.len() >= g.len() + pos);
        assert forall|i: int| 0 <= i < d.len() implies #[trigger] d[i] <= 9 by {
            if v.digits.len() > 0 && i < v.digits.len() - pos - g.len() {
                assert(d[i] == v.digits[i]);
            } else if i < d.len() - pos {
                assert(d[i] == g[i - (d.len() - pos - g.len())]);
            }
        }
        assert(low(d, pos) =~= zeros(pos));
    }
}

/// Multiplying keeps the invariant, whatever the answer.
pub proof fn lemma_multiply_keeps_wf(v: DigitStringView, n: nat, inside: bool)
    requires
        v.wf(),
    ensures
        v.multiply(n, inside).1.wf(),
{
    let r = v.multiply(n, inside);
    if r.0 is Ok {
        let d = r.1.digits;
        let len = v.digits.len();
        assert(len > 0) by {
            if len == 0 {
                assert(all_zero(v.digits));
                assert(all_zero(low(v.digits, 0)));
            }
        }
        match v.window(inside) {
            None => {
                assert(d == v.digits + zeros(n));
            },
            Some(w) => {
                if len < w {
                    assert(d == v.digits + zeros(n));
                } else {
                    assert(d == v.digits.subrange(0, len - w) + v.digits.subrange(
                        len - w + n,
                        len as int,
                    ) + zeros(n));
                    assert(d.len() == len);
                }
            },
        }
        assert forall|i: int| 0 <= i < d.len() implies #[trigger] d[i] <= 9 by {}
        assert(low(d, n) =~= zeros(n));
        assert(low(d, r.1.open) =~= zeros(r.1.open));
        assert(v.ceiling != Some(0nat));
        assert(d[0] == v.digits[0] && v.digits[0] != 0) by {
            match v.window(inside) {
                None => {
                    if v.digits[0] == 0 {
                        assert(len == 1);
                        assert(all_zero(v.digits));
                    }
                },
                Some(w) => {
                    if len < w {
                        assert(low(v.digits, w) == v.digits);
                        if v.digits[0] == 0 {
                            assert(len == 1);
                            assert(all_zero(v.digits));
                        }
                    } else if len == w {
                        assert(v.digits.subrange(len - w, len - w + n)[0] == 0);
                        assert(v.digits[0] == 0);
                        assert(len == 1);
                        assert(low(v.digits, w) =~= v.digits);
                        assert(all_zero(v.digits));
                    } else {
                        assert(d[0] == v.digits.subrange(0, len - w)[0]);
                    }
                },
            }
        }
    }
}

/// Appending a digit keeps the invariant, whatever the answer.
pub proof fn lemma_push_keeps_wf(v: DigitStringView, digit: nat)
    requires
        v.wf(),
    ensures
        v.push(digit).1.wf(),
{
    let r = v.push(digit);
    if r.0 is Ok {
        assert(all_decimal(r.1.digits));
        assert(low(r.1.digits, 0) =~= zeros(0));
    }
}

impl DigitStringView {
    /// The canonical text of the number: the digits, followed by the
    /// suffix of the marker if it is an ordinal one.
    pub open spec fn text(self) -> Seq<char> {
        match self.marker {
            MorphologicalMarker::Ordinal(suffix) => digits_text(self.digits) + suffix@,
            _ => digits_text(self.digits),
        }
    }

    /// The number that the accumulator holds.
    pub open spec fn value(self) -> nat {
        digits_value(self.digits)
    }

    /// The number that a multiplier finds in its window: its multiplicand.
    pub open spec fn multiplicand(self, inside: bool) -> nat {
        match self.window(inside) {
            None => digits_value(self.digits),
            Some(w) => digits_value(low(self.digits, w)),
        }
    }

    /// Everything but the frozen state is the same in both.
    pub open spec fn same_number(self, other: DigitStringView) -> bool {
        &&& self.digits == other.digits
        &&& self.open == other.open
        &&& self.ceiling == other.ceiling
        &&& self.marker == other.marker
    }
}

/// An operation that is refused changes no digit, frees and commits no
/// position, closes no scale and sets no marker. Only a multiplier that
/// dangles leaves a trace: it freezes the accumulator.
pub proof fn lemma_refusal_keeps_number(
    acc: DigitStringView,
    value: nat,
    pos: nat,
    n: nat,
    marker: MorphologicalMarker,
)
    ensures
        acc.place(value, pos).0 is Err ==> acc.place(value, pos).1 == acc,
        acc.push(value).0 is Err ==> acc.push(value).1 == acc,
        acc.mark(marker).0 is Err ==> acc.mark(marker).1 == acc,
        acc.shift(n).0 is Err ==> acc.shift(n).1.same_number(acc),
        acc.scale(n).0 is Err ==> acc.scale(n).1.same_number(acc),
        acc.shift(n).0 is Err && acc.shift(n).0 != Err::<(), Error>(Error::Incomplete)
            ==> acc.shift(n).1 == acc,
        acc.scale(n).0 is Err && acc.scale(n).0 != Err::<(), Error>(Error::Incomplete)
            ==> acc.scale(n).1 == acc,
{
}

/// No silent overwrite: a group that is written leaves every committed
/// digit as it was, and adds its own number, at its position, to the
/// number that the accumulator holds.
pub proof fn lemma_place_adds(acc: DigitStringView, value: nat, pos: nat)
    requires
        acc.wf(),
        acc.place(value, pos).0 is Ok,
    ensures
        acc.place(value, pos).1.value() == acc.value() + value * pow10(pos),
        acc.digits.len() > 0 ==> acc.place(value, pos).1.digits.len() == acc.digits.len(),
        forall|i: int|
            0 <= i < acc.digits.len() - acc.open ==> acc.place(value, pos).1.digits[i]
                == #[trigger] acc.digits[i],
{
    let after = acc.place(value, pos).1;
    let group = group_digits(value);
    let width = group.len();
    lemma_value_of_group(value);
    lemma_value_of_zeros(zeros(pos));
    lemma_value_of_concat(group, zeros(pos));
    if acc.digits.len() == 0 {
        assert(digits_value(acc.digits) == 0);
        assert(after.digits == group + zeros(pos));
    } else {
        let len = acc.digits.len();
        let kept = acc.digits.subrange(0, len - pos - width);
        let freed = acc.digits.subrange(len - pos - width, len as int);
        assert(acc.digits =~= kept + freed);
        assert(all_zero(freed)) by {
            assert forall|i: int| 0 <= i < freed.len() implies #[trigger] freed[i] == 0 by {
                assert(low(acc.digits, acc.open)[i + acc.open - pos - width] == 0);
            }
        }
        lemma_value_of_zeros(freed);
        lemma_value_of_concat(kept, freed);
        assert(after.digits =~= kept + (group + zeros(pos)));
        lemma_value_of_concat(kept, group + zeros(pos));
        assert(digits_value(kept) * pow10(freed.len()) + (value * pow10(pos) + 0)
            == digits_value(kept) * pow10((group + zeros(pos)).len()) + (value * pow10(pos) + 0));
    }
}

/// A multiplier that is accepted puts the product in the place of its
/// multiplicand, and leaves every digit above its window as it was.
pub proof fn lemma_multiply_multiplies(acc: DigitStringView, n: nat, inside: bool)
    requires
        acc.wf(),
        acc.multiply(n, inside).0 is Ok,
    ensures
        acc.multiplicand(inside) > 0,
        acc.multiply(n, inside).1.value() + acc.multiplicand(inside) == acc.value()
            + acc.multiplicand(inside) * pow10(n),
        acc.window(inside) is None ==> acc.multiply(n, inside).1.value() == acc.value() * pow10(n),
{
    let after = acc.multiply(n, inside).1;
    let len = acc.digits.len();
    let m = acc.multiplicand(inside);
    lemma_value_of_zeros(zeros(n));
    assert(m > 0) by {
        let content = match acc.window(inside) {
            None => acc.digits,
            Some(w) => low(acc.digits, w),
        };
        if digits_value(content) == 0 {
            lemma_zero_value_is_blank(content);
        }
    }
    let whole = match acc.window(inside) {
        None => true,
        Some(w) => len < w,
    };
    if whole {
        assert(after.digits == acc.digits + zeros(n));
        lemma_value_of_concat(acc.digits, zeros(n));
        assert(m == acc.value()) by {
            if let Some(w) = acc.window(inside) {
                assert(low(acc.digits, w) == acc.digits);
            }
        }
    } else {
        let w = acc.window(inside)->0;
        let above = acc.digits.subrange(0, len - w);
        let window = acc.digits.subrange(len - w, len as int);
        let gap = acc.digits.subrange(len - w, len - w + n);
        let rest = acc.digits.subrange(len - w + n, len as int);
        assert(low(acc.digits, w) =~= window);
        assert(window =~= gap + rest);
        assert(acc.digits =~= above + window);
        assert(after.digits =~= above + (rest + zeros(n)));
        lemma_value_of_zeros(gap);
        lemma_value_of_concat(gap, rest);
        lemma_value_of_concat(above, window);
        lemma_value_of_concat(rest, zeros(n));
        lemma_value_of_concat(above, rest + zeros(n));
        assert(0 * pow10(rest.len()) == 0) by (nonlinear_arith);
        assert((rest + zeros(n)).len() == window.len());
    }
}

/// Digits that denote zero are zeros.
pub proof fn lemma_zero_value_is_blank(digits: Seq<u8>)
    requires
        digits_value(digits) == 0,
    ensures
        all_zero(digits),
    decreases digits.len(),
{
    if digits.len() > 0 {
        lemma_zero_value_is_blank(digits.drop_last());
        assert forall|i: int| 0 <= i < digits.len() implies #[trigger] digits[i] == 0 by {
            if i < digits.len() - 1 {
                assert(digits.drop_last()[i] == 0);
            }
        }
    }
}

/// A digit that is appended stands behind the digits that were there: the
/// number is ten times what it was, plus the digit.
pub proof fn lemma_push_appends(acc: DigitStringView, digit: nat)
    requires
        acc.push(digit).0 is Ok,
    ensures
        acc.push(digit).1.value() == 10 * acc.value() + digit,
        acc.push(digit).1.digits.len() == acc.digits.len() + 1,
{
    let after = acc.push(digit).1;
    assert(after.digits.drop_last() =~= acc.digits);
}

} // verus!
