//! The list of post pairs to merge: one pair of numbers on each line.

use crate::text::{lines, pieces, split_lines, split_words, to_chars, words};
use vstd::prelude::*;

verus! {

/// Whether a character is a decimal digit.
pub open spec fn is_digit(c: char) -> bool {
    '0' <= c <= '9'
}

/// The value of a decimal digit.
pub open spec fn digit_value(c: char) -> nat {
    (c as u32 - '0' as u32) as nat
}

/// The number that a row of decimal digits writes.
pub open spec fn decimal(digits: Seq<char>) -> nat
    decreases digits.len(),
{
    if digits.len() == 0 {
        0
    } else {
        decimal(digits.drop_last()) * 10 + digit_value(digits.last())
    }
}

/// Whether every character is a decimal digit.
pub open spec fn all_digits(s: Seq<char>) -> bool {
    forall|i: int| 0 <= i < s.len() ==> is_digit(#[trigger] s[i])
}

/// A word without the plus sign that may stand before its digits.
pub open spec fn unsigned_part(word: Seq<char>) -> Seq<char> {
    if word.len() > 0 && word[0] == '+' {
        word.drop_first()
    } else {
        word
    }
}

/// The number that a word writes: one decimal digit or more, after at most
/// one plus sign, with a value that fits in 32 bits. Any other word writes
/// no number.
pub open spec fn number_of(word: Seq<char>) -> Option<u32> {
    let digits = unsigned_part(word);
    if digits.len() > 0 && all_digits(digits) && decimal(digits) <= u32::MAX {
        Some(decimal(digits) as u32)
    } else {
        None
    }
}

/// A longer row of digits writes no smaller number.
pub proof fn lemma_decimal_grows(digits: Seq<char>, n: int)
    requires
        0 <= n <= digits.len(),
    ensures
        decimal(digits.take(n)) <= decimal(digits),
    decreases digits.len() - n,
{
    if n == digits.len() {
        assert(digits.take(n) =~= digits);
    } else {
        lemma_decimal_grows(digits, n + 1);
        assert(digits.take(n + 1).drop_last() =~= digits.take(n));
    }
}

/// The number that a word writes.
pub fn parse_number(word: &Vec<char>) -> (r: Option<u32>)
    ensures
        r == number_of(word@),
{
    let n = word.len();
    let start: usize = if n > 0 && word[0] == '+' {
        1
    } else {
        0
    };
    let ghost digits = unsigned_part(word@);
    assert(digits =~= word@.skip(start as int));
    if start == n {
        return None;
    }
    let mut value: u64 = 0;
    let mut i: usize = start;
    assert(digits.take(0) =~= Seq::<char>::empty());
    while i < n
        invariant
            start <= i <= n == word.len(),
            digits == word@.skip(start as int),
            digits == unsigned_part(word@),
            all_digits(digits.take(i - start)),
            value == decimal(digits.take(i - start)),
            value <= u32::MAX,
        decreases n - i,
    {
        let c = word[i];
        let ghost k = i - start;
        assert(digits[k] == c);
        assert(digits.take(k + 1).drop_last() =~= digits.take(k));
        if c < '0' || c > '9' {
            assert(!is_digit(digits[k]));
            return None;
        }
        let d: u64 = (c as u32 - '0' as u32) as u64;
        let next: u64 = value * 10 + d;
        assert(next == decimal(digits.take(k + 1)));
        assert(all_digits(digits.take(k + 1))) by {
            assert forall|j: int| 0 <= j < k + 1 implies is_digit(
                #[trigger] digits.take(k + 1)[j],
            ) by {
                if j < k {
                    assert(digits.take(k)[j] == digits.take(k + 1)[j]);
                }
            }
        }
        if next > 0xFFFF_FFFF {
            proof {
                lemma_decimal_grows(digits, k + 1);
            }
            return None;
        }
        value = next;
        i += 1;
    }
    assert(digits.take(n - start) =~= digits);
    Some(value as u32)
}

/// What is wrong with a line.
#[derive(Clone, Copy, Debug, PartialEq, Eq, Structural)]
pub enum LineFault {
    /// It does not hold exactly two words.
    WrongCount,
    /// Its first word writes no number.
    FirstNumber,
    /// Its second word writes no number.
    SecondNumber,
}

/// Why a list of pairs could not be read: the first line that is wrong,
/// counted from 0, and what is wrong with it.
#[derive(Clone, Copy, Debug, PartialEq, Eq, Structural)]
pub struct PairsError {
    pub line: usize,
    pub fault: LineFault,
}

/// The pair that a line writes.
pub open spec fn line_pair(line: Seq<char>) -> Result<(u32, u32), LineFault> {
    let w = words(line);
    if w.len() != 2 {
        Err(LineFault::WrongCount)
    } else {
        match number_of(w[0]) {
            None => Err(LineFault::FirstNumber),
            Some(a) => match number_of(w[1]) {
                None => Err(LineFault::SecondNumber),
                Some(b) => Ok((a, b)),
            },
        }
    }
}

/// The pairs that a list of lines writes, or its first wrong line.
pub open spec fn pairs_of(ls: Seq<Seq<char>>) -> Result<Seq<(u32, u32)>, PairsError>
    decreases ls.len(),
{
    if ls.len() == 0 {
        Ok(Seq::empty())
    } else {
        match pairs_of(ls.drop_last()) {
            Err(e) => Err(e),
            Ok(found) => match line_pair(ls.last()) {
                Ok(p) => Ok(found.push(p)),
                Err(fault) => Err(PairsError { line: (ls.len() - 1) as usize, fault }),
            },
        }
    }
}

/// A list is read exactly when each of its lines writes a pair, and the
/// pairs then stand in the order of the lines. Else the error names the
/// first line that writes none.
pub proof fn lemma_pairs_of(ls: Seq<Seq<char>>)
    requires
        ls.len() <= usize::MAX,
    ensures
        match pairs_of(ls) {
            Ok(found) => {
                &&& found.len() == ls.len()
                &&& forall|i: int|
                    0 <= i < ls.len() ==> line_pair(ls[i]) == Ok::<(u32, u32), LineFault>(
                        #[trigger] found[i],
                    )
            },
            Err(e) => {
                &&& e.line < ls.len()
                &&& line_pair(ls[e.line as int]) == Err::<(u32, u32), LineFault>(e.fault)
                &&& forall|i: int| 0 <= i < e.line ==> (#[trigger] line_pair(ls[i])) is Ok
            },
        },
    decreases ls.len(),
{
    if ls.len() > 0 {
        lemma_pairs_of(ls.drop_last());
        let init = ls.drop_last();
        match pairs_of(init) {
            Ok(found) => {
                assert forall|i: int| 0 <= i < init.len() implies #[trigger] line_pair(
                    ls[i],
                ) is Ok by {
                    assert(init[i] == ls[i]);
                    assert(line_pair(init[i]) == Ok::<(u32, u32), LineFault>(found[i]));
                }
                match line_pair(ls.last()) {
                    Ok(p) => {
                        assert forall|i: int| 0 <= i < ls.len() implies line_pair(ls[i]) == Ok::<
                            (u32, u32),
                            LineFault,
                        >(#[trigger] found.push(p)[i]) by {
                            if i < init.len() {
                                assert(init[i] == ls[i]);
                                assert(found.push(p)[i] == found[i]);
                            }
                        }
                    },
                    Err(_) => {},
                }
            },
            Err(e) => {
                assert(init[e.line as int] == ls[e.line as int]);
                assert forall|i: int| 0 <= i < e.line implies (#[trigger] line_pair(
                    ls[i],
                )) is Ok by {
                    assert(init[i] == ls[i]);
                }
            },
        }
    }
}

/// Reads one line.
pub fn parse_pair(line: &Vec<char>) -> (r: Result<(u32, u32), LineFault>)
    ensures
        r == line_pair(line@),
{
    let found = split_words(line);
    if found.len() != 2 {
        assert(pieces(found@).len() == found.len());
        return Err(LineFault::WrongCount);
    }
    assert(pieces(found@)[0] == found@[0]@);
    assert(pieces(found@)[1] == found@[1]@);
    match parse_number(&found[0]) {
        None => Err(LineFault::FirstNumber),
        Some(a) => match parse_number(&found[1]) {
            None => Err(LineFault::SecondNumber),
            Some(b) => Ok((a, b)),
        },
    }
}

/// Reads a list of pairs. Every line has to write exactly two numbers: at
/// the first line that does not, the whole list is refused.
pub fn parse_number_pairs(text: &str) -> (r: Result<Vec<(u32, u32)>, PairsError>)
    ensures
        match r {
            Ok(v) => pairs_of(lines(text@)) == Ok::<Seq<(u32, u32)>, PairsError>(v@),
            Err(e) => pairs_of(lines(text@)) == Err::<Seq<(u32, u32)>, PairsError>(e),
        },
{
    let all = split_lines(&to_chars(text));
    let ghost ls = lines(text@);
    let mut found: Vec<(u32, u32)> = Vec::new();
    let mut i: usize = 0;
    assert(ls.take(0) =~= Seq::<Seq<char>>::empty());
    while i < all.len()
        invariant
            i <= all.len(),
            pieces(all@) == ls,
            ls == lines(text@),
            pairs_of(ls.take(i as int)) == Ok::<Seq<(u32, u32)>, PairsError>(found@),
        decreases all.len() - i,
    {
        assert(pieces(all@).len() == all.len());
        assert(ls.take(i + 1).drop_last() == ls.take(i as int));
        assert(ls.take(i + 1).last() == all@[i as int]@) by {
            assert(pieces(all@)[i as int] == all@[i as int]@);
        }
        match parse_pair(&all[i]) {
            Ok(p) => {
                found.push(p);
            },
            Err(fault) => {
                proof {
                    let e = PairsError { line: i, fault };
                    assert(ls.take(i + 1).len() == i + 1);
                    assert(line_pair(ls.take(i + 1).last()) == Err::<(u32, u32), LineFault>(fault));
                    assert(pairs_of(ls.take(i + 1)) == Err::<Seq<(u32, u32)>, PairsError>(e));
                    lemma_pairs_prefix_error(ls, i as int + 1);
                }
                return Err(PairsError { line: i, fault });
            },
        }
        i += 1;
    }
    assert(pieces(all@).len() == all.len());
    assert(ls.take(all.len() as int) == ls);
    Ok(found)
}

/// An error in the first lines of a list is the error of the whole list.
pub proof fn lemma_pairs_prefix_error(ls: Seq<Seq<char>>, n: int)
    requires
        0 <= n <= ls.len(),
        pairs_of(ls.take(n)) is Err,
    ensures
        pairs_of(ls) == pairs_of(ls.take(n)),
    decreases ls.len() - n,
{
    if n == ls.len() {
        assert(ls.take(n) =~= ls);
    } else {
        assert(ls.take(n + 1).drop_last() =~= ls.take(n));
        lemma_pairs_prefix_error(ls, n + 1);
    }
}

} // verus!
