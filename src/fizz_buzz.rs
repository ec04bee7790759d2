//! The fizz-buzz counting game.

use vstd::prelude::*;
use vstd::string::StringExecFns;
use crate::text::{decimal, push_decimal, string_of};

verus! {

/// What is said for `i`: "Fizz" for multiples of three, "Buzz" for multiples
/// of five, "FizzBuzz" for both, and the number itself otherwise.
pub open spec fn fizz_buzz_text(i: u32) -> Seq<char> {
    if i % 3 == 0 && i % 5 == 0 {
        "FizzBuzz"@
    } else if i % 3 == 0 {
        "Fizz"@
    } else if i % 5 == 0 {
        "Buzz"@
    } else {
        decimal(i as int)
    }
}

/// The line said for `i`.
pub fn fizz_buzz_line(i: u32) -> (r: String)
    ensures
        r@ == fizz_buzz_text(i),
{
    match (i % 3, i % 5) {
        (0, 0) => String::from_str("FizzBuzz"),
        (0, _) => String::from_str("Fizz"),
        (_, 0) => String::from_str("Buzz"),
        _ => {
            let mut out: Vec<char> = Vec::new();
            push_decimal(&mut out, i as i64);
            proof {
                assert(out@ =~= decimal(i as int));
            }
            string_of(&out)
        },
    }
}

/// The lines said when counting from 1 to `max_num`.
pub fn fizz_buzz_lines(max_num: u32) -> (r: Vec<String>)
    ensures
        r@.len() == max_num,
        forall|k: int| 0 <= k < max_num ==> (#[trigger] r@[k])@ == fizz_buzz_text((k + 1) as u32),
{
    let mut r: Vec<String> = Vec::new();
    let mut i: u32 = 0;
    while i < max_num
        invariant
            i <= max_num,
            r@.len() == i,
            forall|k: int| 0 <= k < i ==> (#[trigger] r@[k])@ == fizz_buzz_text((k + 1) as u32),
        decreases max_num - i,
    {
        r.push(fizz_buzz_line(i + 1));
        i = i + 1;
    }
    r
}

} // verus!
