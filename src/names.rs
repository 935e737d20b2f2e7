//! English words for the numbers below twenty and for the multiples of ten.

use vstd::prelude::*;

verus! {

/// The word for `n`, for `n` from one to nineteen.
pub open spec fn small_word(n: nat) -> Seq<char> {
    if n == 1 { "one"@ }
    else if n == 2 { "two"@ }
    else if n == 3 { "three"@ }
    else if n == 4 { "four"@ }
    else if n == 5 { "five"@ }
    else if n == 6 { "six"@ }
    else if n == 7 { "seven"@ }
    else if n == 8 { "eight"@ }
    else if n == 9 { "nine"@ }
    else if n == 10 { "ten"@ }
    else if n == 11 { "eleven"@ }
    else if n == 12 { "twelve"@ }
    else if n == 13 { "thirteen"@ }
    else if n == 14 { "fourteen"@ }
    else if n == 15 { "fifteen"@ }
    else if n == 16 { "sixteen"@ }
    else if n == 17 { "seventeen"@ }
    else if n == 18 { "eighteen"@ }
    else { "nineteen"@ }
}

/// The word for `t` tens, for `t` from one to nine.
pub open spec fn tens_word(t: nat) -> Seq<char> {
    if t == 1 { "ten"@ }
    else if t == 2 { "twenty"@ }
    else if t == 3 { "thirty"@ }
    else if t == 4 { "forty"@ }
    else if t == 5 { "fifty"@ }
    else if t == 6 { "sixty"@ }
    else if t == 7 { "seventy"@ }
    else if t == 8 { "eighty"@ }
    else { "ninety"@ }
}

/// The word for a number from one to nineteen.
pub fn less_20_name(n: usize) -> (r: &'static str)
    requires
        1 <= n <= 19,
    ensures
        r@ == small_word(n as nat),
{
    if n == 1 { "one" }
    else if n == 2 { "two" }
    else if n == 3 { "three" }
    else if n == 4 { "four" }
    else if n == 5 { "five" }
    else if n == 6 { "six" }
    else if n == 7 { "seven" }
    else if n == 8 { "eight" }
    else if n == 9 { "nine" }
    else if n == 10 { "ten" }
    else if n == 11 { "eleven" }
    else if n == 12 { "twelve" }
    else if n == 13 { "thirteen" }
    else if n == 14 { "fourteen" }
    else if n == 15 { "fifteen" }
    else if n == 16 { "sixteen" }
    else if n == 17 { "seventeen" }
    else if n == 18 { "eighteen" }
    else { "nineteen" }
}

/// The word for a number of tens from one to nine.
pub fn tens_name(t: usize) -> (r: &'static str)
    requires
        1 <= t <= 9,
    ensures
        r@ == tens_word(t as nat),
{
    if t == 1 { "ten" }
    else if t == 2 { "twenty" }
    else if t == 3 { "thirty" }
    else if t == 4 { "forty" }
    else if t == 5 { "fifty" }
    else if t == 6 { "sixty" }
    else if t == 7 { "seventy" }
    else if t == 8 { "eighty" }
    else { "ninety" }
}

} // verus!
