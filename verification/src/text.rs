//! Words and lists of words.

use vstd::prelude::*;
use vstd::string::{StringExecFns, StringSliceAdditionalSpecFns};

verus! {

/// Tells whether two words are made of the same characters.
pub fn same_text(a: &str, b: &str) -> (same: bool)
    ensures
        same == (a@ == b@),
{
    let x = a.as_bytes();
    let y = b.as_bytes();
    proof {
        vstd::utf8::encode_utf8_decode_utf8(a@);
        vstd::utf8::encode_utf8_decode_utf8(b@);
    }
    if x.len() != y.len() {
        return false;
    }
    let n: usize = x.len();
    let mut i: usize = 0;
    while i < n
        invariant
            x@ == a.spec_bytes(),
            y@ == b.spec_bytes(),
            n == x@.len(),
            n == y@.len(),
            i <= n,
            forall|k: int| 0 <= k < i ==> x@[k] == y@[k],
        decreases n - i,
    {
        if x[i] != y[i] {
            return false;
        }
        i += 1;
    }
    assert(x@ =~= y@);
    true
}

/// Appends a character to a string: std's `String::push`, which adds the
/// character at the end and leaves what was there.
#[verifier::external_body]
pub(crate) fn push_char(text: &mut String, c: char)
    ensures
        final(text)@ == old(text)@.push(c),
{
    text.push(c);
}

/// The words of a list as character sequences.
pub open spec fn words(list: Seq<&str>) -> Seq<Seq<char>> {
    Seq::new(list.len(), |i: int| list[i]@)
}

/// The first place of `word` in `list`, counted from zero.
pub open spec fn position(list: Seq<Seq<char>>, word: Seq<char>) -> Option<nat>
    decreases list.len(),
{
    if list.len() == 0 {
        None
    } else if position(list.drop_last(), word) is Some {
        position(list.drop_last(), word)
    } else if list.last() == word {
        Some((list.len() - 1) as nat)
    } else {
        None
    }
}

/// The words made of `head`, `infix` and each of `tails` in turn.
pub open spec fn compounds(head: Seq<char>, infix: Seq<char>, tails: Seq<Seq<char>>) -> Seq<
    Seq<char>,
> {
    Seq::new(tails.len(), |j: int| head + infix + tails[j])
}

/// The first head, and for it the first tail, such that `word` is made
/// of the head, `infix` and the tail; both counted from zero.
pub open spec fn compound_position(
    heads: Seq<Seq<char>>,
    infix: Seq<char>,
    tails: Seq<Seq<char>>,
    word: Seq<char>,
) -> Option<(nat, nat)>
    decreases heads.len(),
{
    if heads.len() == 0 {
        None
    } else if compound_position(heads.drop_last(), infix, tails, word) is Some {
        compound_position(heads.drop_last(), infix, tails, word)
    } else if let Some(j) = position(compounds(heads.last(), infix, tails), word) {
        Some(((heads.len() - 1) as nat, j))
    } else {
        None
    }
}

/// A word that is absent from the beginning of a list and stands right
/// behind it has its first place there.
pub proof fn lemma_position_found(list: Seq<Seq<char>>, word: Seq<char>, i: int)
    requires
        0 <= i < list.len(),
        position(list.take(i), word) is None,
        list[i] == word,
    ensures
        position(list, word) == Some(i as nat),
    decreases list.len(),
{
    if i == list.len() - 1 {
        assert(list.drop_last() =~= list.take(i));
    } else {
        assert(list.drop_last().take(i) =~= list.take(i));
        lemma_position_found(list.drop_last(), word, i);
    }
}

/// A place that `position` gives lies in the list and holds the word.
pub proof fn lemma_position_holds(list: Seq<Seq<char>>, word: Seq<char>)
    ensures
        position(list, word) matches Some(i) ==> i < list.len() && list[i as int] == word,
    decreases list.len(),
{
    if list.len() > 0 {
        lemma_position_holds(list.drop_last(), word);
    }
}

/// The places that `compound_position` gives lie in the lists, and the
/// head and the tail there make the word with the infix.
pub proof fn lemma_compound_holds(
    heads: Seq<Seq<char>>,
    infix: Seq<char>,
    tails: Seq<Seq<char>>,
    word: Seq<char>,
)
    ensures
        compound_position(heads, infix, tails, word) matches Some((i, j)) ==> i < heads.len() && j
            < tails.len() && word == heads[i as int] + infix + tails[j as int],
    decreases heads.len(),
{
    if heads.len() > 0 {
        lemma_compound_holds(heads.drop_last(), infix, tails, word);
        lemma_position_holds(compounds(heads.last(), infix, tails), word);
    }
}

/// Looks for `word` in `list`: its first place, counted from zero.
pub fn find(list: &[&str], word: &str) -> (at: Option<usize>)
    ensures
        position(words(list@), word@) == match at {
            Some(i) => Some(i as nat),
            None => None,
        },
        at matches Some(i) ==> i < list@.len(),
{
    let mut i: usize = 0;
    while i < list.len()
        invariant
            i <= list@.len(),
            position(words(list@).take(i as int), word@) is None,
        decreases list@.len() - i,
    {
        assert(words(list@).take(i + 1).drop_last() =~= words(list@).take(i as int));
        if same_text(list[i], word) {
            proof {
                lemma_position_found(words(list@), word@, i as int);
            }
            return Some(i);
        }
        i += 1;
    }
    assert(words(list@).take(i as int) =~= words(list@));
    None
}

/// Looks for the tail that makes `word` together with `head` and `infix`.
fn find_tail(head: &str, infix: &str, tails: &[&str], word: &str) -> (at: Option<usize>)
    ensures
        position(compounds(head@, infix@, words(tails@)), word@) == match at {
            Some(j) => Some(j as nat),
            None => None,
        },
        at matches Some(j) ==> j < tails@.len(),
{
    let ghost all = compounds(head@, infix@, words(tails@));
    let mut j: usize = 0;
    while j < tails.len()
        invariant
            j <= tails@.len(),
            all == compounds(head@, infix@, words(tails@)),
            position(all.take(j as int), word@) is None,
        decreases tails@.len() - j,
    {
        assert(all.take(j + 1).drop_last() =~= all.take(j as int));
        let mut candidate = String::from_str(head);
        candidate.append(infix);
        candidate.append(tails[j]);
        assert(candidate@ == all[j as int]);
        if same_text(candidate.as_str(), word) {
            proof {
                lemma_position_found(all, word@, j as int);
            }
            return Some(j);
        }
        j += 1;
    }
    assert(all.take(j as int) =~= all);
    None
}

/// Looks for a head and a tail that make `word` with `infix` between
/// them: the first such head, and the first tail for it.
pub fn find_compound(heads: &[&str], infix: &str, tails: &[&str], word: &str) -> (at: Option<
    (usize, usize),
>)
    ensures
        compound_position(words(heads@), infix@, words(tails@), word@) == match at {
            Some((i, j)) => Some((i as nat, j as nat)),
            None => None,
        },
        at matches Some((i, j)) ==> i < heads@.len() && j < tails@.len(),
{
    let mut i: usize = 0;
    while i < heads.len()
        invariant
            i <= heads@.len(),
            compound_position(words(heads@).take(i as int), infix@, words(tails@), word@) is None,
        decreases heads@.len() - i,
    {
        assert(words(heads@).take(i + 1).drop_last() =~= words(heads@).take(i as int));
        match find_tail(heads[i], infix, tails, word) {
            Some(j) => {
                proof {
                    lemma_compound_found(words(heads@), infix@, words(tails@), word@, i as int);
                }
                return Some((i, j));
            },
            None => {},
        }
        i += 1;
    }
    assert(words(heads@).take(i as int) =~= words(heads@));
    None
}

/// A compound that no head at the beginning of a list makes, and the
/// head right behind them does make, has its first place there.
pub proof fn lemma_compound_found(
    heads: Seq<Seq<char>>,
    infix: Seq<char>,
    tails: Seq<Seq<char>>,
    word: Seq<char>,
    i: int,
)
    requires
        0 <= i < heads.len(),
        compound_position(heads.take(i), infix, tails, word) is None,
        position(compounds(heads[i], infix, tails), word) is Some,
    ensures
        compound_position(heads, infix, tails, word) == Some(
            (i as nat, position(compounds(heads[i], infix, tails), word)->0),
        ),
    decreases heads.len(),
{
    if i == heads.len() - 1 {
        assert(heads.drop_last() =~= heads.take(i));
    } else {
        assert(heads.drop_last().take(i) =~= heads.take(i));
        lemma_compound_found(heads.drop_last(), infix, tails, word, i);
    }
}

} // verus!
