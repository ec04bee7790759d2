//! The decisions of a number guessing game: reading a guess, and telling the
//! player how it compares with the secret.

use vstd::prelude::*;
use crate::calculator::{from_str_radix, i32_in_radix};
use crate::text::{trim_text, trimmed};

verus! {

/// How a guess compares with the secret number.
#[derive(Clone, Copy, Debug, PartialEq, Eq, Structural)]
pub enum GuessVerdict {
    Correct,
    TooLow,
    TooHigh,
}

/// The verdict on `guess` against `secret`.
pub fn judge_guess(secret: i32, guess: i32) -> (r: GuessVerdict)
    ensures
        r == GuessVerdict::Correct <==> guess == secret,
        r == GuessVerdict::TooLow <==> guess < secret,
        r == GuessVerdict::TooHigh <==> guess > secret,
{
    if guess == secret {
        GuessVerdict::Correct
    } else if guess < secret {
        GuessVerdict::TooLow
    } else {
        GuessVerdict::TooHigh
    }
}

/// Whether a game with `verdict` goes on to another guess.
pub fn keeps_guessing(verdict: GuessVerdict) -> (r: bool)
    ensures
        r == (verdict != GuessVerdict::Correct),
{
    verdict != GuessVerdict::Correct
}

/// Reads a guess: a decimal `i32` with whitespace around it allowed.
pub fn parse_guess(line: &str) -> (r: Option<i32>)
    ensures
        r == i32_in_radix(trimmed(line@), 10),
{
    match from_str_radix(trim_text(line), 10) {
        Ok(v) => Some(v),
        Err(_) => None,
    }
}

} // verus!
