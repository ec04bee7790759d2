//! A bitwise calculator: numbers in decimal, hexadecimal (`0x`) or binary
//! (`0b`), an operator named by symbol or word, and the sentence that reports
//! the result.

use vstd::prelude::*;
use vstd::string::{StrSliceExecFns, StringExecFns};
use std::num::ParseIntError;
use crate::text::{decimal, lower_of, lowercase, push_decimal, push_text, string_of};

verus! {

#[verifier::external_type_specification]
#[verifier::external_body]
pub struct ExParseIntError(ParseIntError);

/// A bitwise operator, or the marker of an unrecognised one.
#[derive(Clone, Copy, Debug, PartialEq, Eq, Structural)]
pub enum Operator {
    And,
    Or,
    Xor,
    Invalid,
}

/// The value of a digit character in any radix up to 36; 36 for a character
/// that is no digit at all.
pub open spec fn digit_value(c: char) -> int {
    if '0' <= c && c <= '9' {
        c as int - '0' as int
    } else if 'a' <= c && c <= 'z' {
        c as int - 'a' as int + 10
    } else if 'A' <= c && c <= 'Z' {
        c as int - 'A' as int + 10
    } else {
        36
    }
}

/// The value of a run of digits in `radix`, most significant first.
pub open spec fn digits_value(s: Seq<char>, radix: int) -> int
    decreases s.len(),
{
    if s.len() == 0 {
        0
    } else {
        digits_value(s.drop_last(), radix) * radix + digit_value(s.last())
    }
}

/// The integer that `s` spells in `radix`: an optional sign, then one or more
/// digits of that radix, and nothing else.
pub open spec fn signed_value(s: Seq<char>, radix: int) -> Option<int> {
    let negative = s.len() > 0 && s[0] == '-';
    let body = if s.len() > 0 && (s[0] == '-' || s[0] == '+') {
        s.drop_first()
    } else {
        s
    };
    if body.len() == 0 || exists|i: int| 0 <= i < body.len() && digit_value(#[trigger] body[i]) >= radix {
        None
    } else if negative {
        Some(-digits_value(body, radix))
    } else {
        Some(digits_value(body, radix))
    }
}

/// What `i32::from_str_radix` yields: the spelled integer when it fits in an `i32`.
pub open spec fn i32_in_radix(s: Seq<char>, radix: int) -> Option<i32> {
    match signed_value(s, radix) {
        Some(v) => if i32::MIN <= v && v <= i32::MAX {
            Some(v as i32)
        } else {
            None
        },
        None => None,
    }
}

/// Relies on `i32::from_str_radix`: an optional `+` or `-`, then digits of the
/// radix (letters in either case), with no other character, and a value that
/// fits in an `i32`.
#[verifier::external_body]
pub(crate) fn from_str_radix(s: &str, radix: u32) -> (r: Result<i32, ParseIntError>)
    requires
        2 <= radix <= 36,
    ensures
        r matches Ok(v) ==> i32_in_radix(s@, radix as int) == Some(v),
        r is Err ==> i32_in_radix(s@, radix as int) is None,
{
    i32::from_str_radix(s, radix)
}

/// `s` starts with the two characters `a`, `b`.
pub open spec fn has_prefix(s: Seq<char>, a: char, b: char) -> bool {
    s.len() >= 2 && s[0] == a && s[1] == b
}

/// The number that an input spells: hexadecimal after `0x`, binary after
/// `0b`, decimal otherwise.
pub open spec fn number_of(s: Seq<char>) -> Option<i32> {
    if has_prefix(s, '0', 'x') {
        i32_in_radix(s.subrange(2, s.len() as int), 16)
    } else if has_prefix(s, '0', 'b') {
        i32_in_radix(s.subrange(2, s.len() as int), 2)
    } else {
        i32_in_radix(s, 10)
    }
}

/// Parses a number written in decimal, in hexadecimal after `0x`, or in
/// binary after `0b`.
pub fn parse_num_input(num_input: &str) -> (r: Result<i32, ParseIntError>)
    ensures
        r matches Ok(v) ==> number_of(num_input@) == Some(v),
        r is Err ==> number_of(num_input@) is None,
{
    let n = num_input.unicode_len();
    if n >= 2 && num_input.get_char(0) == '0' && num_input.get_char(1) == 'x' {
        from_str_radix(num_input.substring_char(2, n), 16)
    } else if n >= 2 && num_input.get_char(0) == '0' && num_input.get_char(1) == 'b' {
        from_str_radix(num_input.substring_char(2, n), 2)
    } else {
        from_str_radix(num_input, 10)
    }
}

/// The operator that a lowercased word names.
pub open spec fn operator_named(w: Seq<char>) -> Operator {
    if w == "&"@ || w == "and"@ {
        Operator::And
    } else if w == "|"@ || w == "or"@ {
        Operator::Or
    } else if w == "^"@ || w == "xor"@ {
        Operator::Xor
    } else {
        Operator::Invalid
    }
}

/// Reads an operator by symbol or by word, in any letter case.
pub fn parse_operator(operator_input: &str) -> (r: Operator)
    ensures
        r == operator_named(lower_of(operator_input@)),
{
    let w = lowercase(operator_input);
    if w == String::from_str("&") || w == String::from_str("and") {
        Operator::And
    } else if w == String::from_str("|") || w == String::from_str("or") {
        Operator::Or
    } else if w == String::from_str("^") || w == String::from_str("xor") {
        Operator::Xor
    } else {
        Operator::Invalid
    }
}

/// The sentence that reports `a op b`, or asks for another operator.
pub open spec fn result_text(operator: Operator, a: i32, b: i32) -> Seq<char> {
    match operator {
        Operator::And => "The result of "@ + decimal(a as int) + " & "@ + decimal(b as int) + " is "@
            + decimal((a & b) as int),
        Operator::Or => "The result of "@ + decimal(a as int) + " | "@ + decimal(b as int) + " is "@
            + decimal((a | b) as int),
        Operator::Xor => "The result of "@ + decimal(a as int) + " ^ "@ + decimal(b as int) + " is "@
            + decimal((a ^ b) as int),
        Operator::Invalid => "Invalid operator. Try again."@,
    }
}

/// Applies a bitwise operator and reports the result in a sentence.
pub fn get_result(operator: Operator, num1: i32, num2: i32) -> (r: String)
    ensures
        r@ == result_text(operator, num1, num2),
{
    let (symbol, value) = match operator {
        Operator::And => (" & ", num1 & num2),
        Operator::Or => (" | ", num1 | num2),
        Operator::Xor => (" ^ ", num1 ^ num2),
        Operator::Invalid => {
            return String::from_str("Invalid operator. Try again.");
        },
    };
    let mut out: Vec<char> = Vec::new();
    push_text(&mut out, "The result of ");
    push_decimal(&mut out, num1 as i64);
    push_text(&mut out, symbol);
    push_decimal(&mut out, num2 as i64);
    push_text(&mut out, " is ");
    push_decimal(&mut out, value as i64);
    let r = string_of(&out);
    proof {
        assert(r@ =~= result_text(operator, num1, num2));
    }
    r
}

} // verus!
