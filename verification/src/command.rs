//! What a human player types when asked for a move.

use vstd::prelude::*;
use vstd::string::*;
use crate::text::{is_word, lowercase, to_lowercase, trim, trimmed};

verus! {

/// A move as typed.
#[derive(Debug, Copy, Clone, PartialEq, Eq, Structural)]
pub enum Answer {
    /// Draw a card.
    Draw,
    /// Show the hand and the top card again.
    See,
    /// Play the card with this number, counting the hand from one.
    Card(usize),
    /// Anything else.
    Other,
}

/// Whether `c` is a decimal digit.
pub open spec fn is_digit(c: char) -> bool {
    '0' <= c <= '9'
}

/// The number that the digits `digits` write in decimal notation.
pub open spec fn decimal_value(digits: Seq<char>) -> nat
    decreases digits.len(),
{
    if digits.len() == 0 {
        0
    } else {
        (decimal_value(digits.drop_last()) * 10 + (digits.last() as u32 - '0' as u32)) as nat
    }
}

/// `text` without the plus sign that may stand before a number.
pub open spec fn unsigned(text: Seq<char>) -> Seq<char> {
    if text.len() > 0 && text[0] == '+' {
        text.skip(1)
    } else {
        text
    }
}

/// Whether `text` holds decimal digits only.
pub open spec fn all_digits(text: Seq<char>) -> bool {
    forall|i: int| 0 <= i < text.len() ==> is_digit(#[trigger] text[i])
}

/// The number that `text` writes: one or more decimal digits, with or
/// without a plus sign before them, as long as the number fits a `usize`.
pub open spec fn number_of(text: Seq<char>) -> Option<usize> {
    let digits = unsigned(text);
    if digits.len() == 0 || !all_digits(digits) || decimal_value(digits) > usize::MAX {
        None
    } else {
        Some(decimal_value(digits) as usize)
    }
}

/// The move that a line in lower case stands for, where `number` is the
/// number that the line writes, if it writes one.
pub open spec fn answer_of(lowered: Seq<char>, number: Option<usize>) -> Answer {
    if lowered == "draw"@ || lowered == "d"@ {
        Answer::Draw
    } else if lowered == "s"@ || lowered == "see"@ {
        Answer::See
    } else {
        match number {
            Some(n) => Answer::Card(n),
            None => Answer::Other,
        }
    }
}

/// Reads a number in decimal notation.
pub fn parse_number(text: &str) -> (number: Option<usize>)
    ensures
        number == number_of(text@),
{
    let n = text.unicode_len();
    let start: usize = if n > 0 && text.get_char(0) == '+' {
        1
    } else {
        0
    };
    let ghost digits = unsigned(text@);
    if start == n {
        return None;
    }
    let mut value: usize = 0;
    let mut overflow = false;
    let mut i: usize = start;
    while i < n
        invariant
            start <= i <= n,
            n == text@.len(),
            digits == text@.skip(start as int),
            digits == unsigned(text@),
            forall|k: int| 0 <= k < i - start ==> is_digit(#[trigger] digits[k]),
            !overflow ==> value == decimal_value(digits.take(i - start)),
            overflow ==> decimal_value(digits.take(i - start)) > usize::MAX,
        decreases n - i,
    {
        let c = text.get_char(i);
        if c < '0' || c > '9' {
            assert(!is_digit(digits[i - start]));
            return None;
        }
        let d: usize = (c as u32 - '0' as u32) as usize;
        proof {
            assert(digits.take(i - start + 1).drop_last() =~= digits.take(i - start));
        }
        if !overflow {
            match value.checked_mul(10) {
                Some(tens) => match tens.checked_add(d) {
                    Some(sum) => {
                        value = sum;
                    },
                    None => {
                        overflow = true;
                    },
                },
                None => {
                    overflow = true;
                },
            }
        }
        i += 1;
    }
    assert(digits.take(n - start) =~= digits);
    if overflow {
        None
    } else {
        Some(value)
    }
}

/// The move that a line in lower case, with nothing around it, stands for.
pub fn answer_from(lowered: &String, number: Option<usize>) -> (answer: Answer)
    ensures
        answer == answer_of(lowered@, number),
{
    if is_word(lowered, "draw") || is_word(lowered, "d") {
        Answer::Draw
    } else if is_word(lowered, "s") || is_word(lowered, "see") {
        Answer::See
    } else {
        match number {
            Some(n) => Answer::Card(n),
            None => Answer::Other,
        }
    }
}

/// Reads the move that a human player typed. Blanks around it and the case
/// of its letters do not count. `draw` or `d` asks for a card, `see` or `s`
/// for another look, and a number for the card with that number.
pub fn parse_answer(line: &str) -> (answer: Answer)
    ensures
        answer == answer_of(
            lowercase(trimmed(line@)),
            number_of(trimmed(lowercase(trimmed(line@)))),
        ),
{
    let lowered = to_lowercase(trim(line));
    let number = parse_number(trim(lowered.as_str()));
    answer_from(&lowered, number)
}

} // verus!
