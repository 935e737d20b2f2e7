//! FizzBuzz up to one hundred: multiples of three and five are replaced by words,
//! every other number is written out in English.

use vstd::prelude::*;
use vstd::string::StringExecFns;
use crate::names::{less_20_name, tens_name, small_word, tens_word};

verus! {

/// The largest number that has a name.
pub const LIMIT: usize = 100;

/// What `num` is called, exclamation mark included, or `None` past one hundred.
pub open spec fn called(num: nat) -> Option<Seq<char>> {
    if num > 100 {
        None
    } else if num % 3 == 0 && num % 5 == 0 {
        Some("fizzbuzz"@ + "!"@)
    } else if num % 3 == 0 {
        Some("fizz"@ + "!"@)
    } else if num % 5 == 0 {
        Some("buzz"@ + "!"@)
    } else if num <= 19 {
        Some(small_word(num) + "!"@)
    } else {
        Some(tens_word(num / 10) + " "@ + small_word(num % 10) + "!"@)
    }
}

/// What `num` is called, or `None` for a number above one hundred.
pub fn string_composer(num: usize) -> (r: Option<String>)
    ensures
        r is Some <==> num <= 100,
        r matches Some(s) ==> Some(s@) == called(num as nat),
{
    if num > LIMIT {
        return None;
    }
    let ret_string = if num % 3 == 0 && num % 5 == 0 {
        String::from_str("fizzbuzz")
    } else if num % 3 == 0 {
        String::from_str("fizz")
    } else if num % 5 == 0 {
        String::from_str("buzz")
    } else if num <= 19 {
        String::from_str(less_20_name(num))
    } else {
        let mut s = String::from_str(tens_name(num / 10));
        s.append(" ");
        s.append(less_20_name(num % 10));
        s
    };
    Some(ret_string.concat("!"))
}

/// The one-character text of a decimal digit.
pub open spec fn digit_text(d: nat) -> Seq<char> {
    if d == 0 { "0"@ }
    else if d == 1 { "1"@ }
    else if d == 2 { "2"@ }
    else if d == 3 { "3"@ }
    else if d == 4 { "4"@ }
    else if d == 5 { "5"@ }
    else if d == 6 { "6"@ }
    else if d == 7 { "7"@ }
    else if d == 8 { "8"@ }
    else { "9"@ }
}

/// `n` written in decimal, without leading zeros.
pub open spec fn decimal(n: nat) -> Seq<char>
    decreases n,
{
    if n < 10 {
        digit_text(n)
    } else {
        decimal(n / 10) + digit_text(n % 10)
    }
}

fn digit_str(d: usize) -> (r: &'static str)
    requires
        d < 10,
    ensures
        r@ == digit_text(d as nat),
{
    if d == 0 { "0" }
    else if d == 1 { "1" }
    else if d == 2 { "2" }
    else if d == 3 { "3" }
    else if d == 4 { "4" }
    else if d == 5 { "5" }
    else if d == 6 { "6" }
    else if d == 7 { "7" }
    else if d == 8 { "8" }
    else { "9" }
}

/// `n` written in decimal.
pub fn decimal_string(n: usize) -> (r: String)
    ensures
        r@ == decimal(n as nat),
    decreases n,
{
    if n < 10 {
        String::from_str(digit_str(n))
    } else {
        let mut s = decimal_string(n / 10);
        s.append(digit_str(n % 10));
        s
    }
}

/// One line of the listing: the number, then what it is called.
pub open spec fn line(i: nat) -> Seq<char> {
    decimal(i) + " is "@ + called(i).unwrap()
}

/// The lines for `from` up to `to`, separated by line breaks; the line of `from` alone
/// where `to` is not above it.
pub open spec fn chain(from: int, to: int) -> Seq<char>
    decreases to - from,
{
    if from >= to {
        line(from as nat)
    } else {
        line(from as nat) + "\n"@ + chain(from + 1, to)
    }
}

/// The listing of `num` up to `to_num`, built by a loop: lines separated by line breaks;
/// the line of `num` alone where `to_num` is not above it, and `None` where a number of the
/// range is above one hundred.
pub fn imperative_concat(num: usize, to_num: usize) -> (r: Option<String>)
    ensures
        r is Some <==> (if num >= to_num { num <= 100 } else { to_num <= 100 }),
        r matches Some(s) ==> s@ == chain(num as int, to_num as int),
{
    let first = match string_composer(num) {
        Some(s) => s,
        None => return None,
    };
    let mut acum_string = decimal_string(num);
    acum_string.append(" is ");
    acum_string.append(first.as_str());
    if num >= to_num {
        return Some(acum_string);
    }
    let mut i: usize = num;
    while i < to_num
        invariant
            num <= i <= to_num,
            i <= 100,
            acum_string@ == chain(num as int, i as int),
        decreases to_num - i,
    {
        let next = i + 1;
        let name = match string_composer(next) {
            Some(s) => s,
            None => return None,
        };
        let number = decimal_string(next);
        acum_string.append("\n");
        acum_string.append(number.as_str());
        acum_string.append(" is ");
        acum_string.append(name.as_str());
        proof {
            lemma_chain_snoc(num as int, next as int);
        }
        assert(acum_string@ =~= chain(num as int, next as int));
        i = next;
    }
    Some(acum_string)
}

/// The listing of `num` up to `to_num`, built by recursion: lines separated by line breaks; the line of `num`
/// alone where `to_num` is not above it, and `None` where a number of the range is above
/// one hundred.
pub fn recursive_concat(num: usize, to_num: usize) -> (r: Option<String>)
    ensures
        r is Some <==> (if num >= to_num { num <= 100 } else { to_num <= 100 }),
        r matches Some(s) ==> s@ == chain(num as int, to_num as int),
    decreases to_num - num,
{
    let name = match string_composer(num) {
        Some(s) => s,
        None => return None,
    };
    let mut out = decimal_string(num);
    out.append(" is ");
    out.append(name.as_str());
    if num >= to_num {
        return Some(out);
    }
    let rest = match recursive_concat(num + 1, to_num) {
        Some(s) => s,
        None => return None,
    };
    out.append("\n");
    out.append(rest.as_str());
    assert(out@ =~= chain(num as int, to_num as int));
    Some(out)
}

/// A chain of lines ends with the line of its last number.
proof fn lemma_chain_snoc(from: int, to: int)
    requires
        0 <= from < to,
    ensures
        chain(from, to) == chain(from, to - 1) + "\n"@ + line(to as nat),
    decreases to - from,
{
    if from + 1 < to {
        lemma_chain_snoc(from + 1, to);
        assert(chain(from, to) =~= chain(from, to - 1) + "\n"@ + line(to as nat));
    } else {
        assert(chain(from + 1, to) == line(to as nat));
    }
}

} // verus!
