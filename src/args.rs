//! Reading parsed arguments: lookup by parameter name (ASCII case ignored,
//! first match wins) and decimal conversion of a value.

use vstd::prelude::*;
use crate::bounded::{message_text, param_str, value_str};
use crate::error::{Error, into_truncated, is_truncation};
use crate::parser::Argument;
use crate::text::{chars_of, same_ignoring_case, str_eq_ignore_case};

verus! {

/// Index of the first argument whose parameter equals `name`, ignoring ASCII case.
pub open spec fn index_of_param(args: Seq<Argument>, name: Seq<char>) -> Option<int> {
    if exists|i: int| 0 <= i < args.len() && same_ignoring_case(args[i]@.0, name) {
        Some(
            choose|i: int|
                0 <= i < args.len() && same_ignoring_case(args[i]@.0, name) && forall|j: int|
                    0 <= j < i ==> !same_ignoring_case(#[trigger] args[j]@.0, name),
        )
    } else {
        None
    }
}

pub open spec fn is_digit(c: char) -> bool {
    '0' <= c && c <= '9'
}

/// The number that a run of decimal digits stands for.
pub open spec fn digits_value(s: Seq<char>) -> nat
    decreases s.len(),
{
    if s.len() == 0 {
        0
    } else {
        digits_value(s.drop_last()) * 10 + ((s.last() as u32) - ('0' as u32)) as nat
    }
}

/// A text without its leading `+`, if it has one.
pub open spec fn unsigned_part(s: Seq<char>) -> Seq<char> {
    if s.len() > 0 && s[0] == '+' {
        s.skip(1)
    } else {
        s
    }
}

/// The unsigned 32-bit number written in `s`: optionally `+`, then at
/// least one decimal digit, with a value that fits.
pub open spec fn decimal_u32(s: Seq<char>) -> Option<u32> {
    let digits = unsigned_part(s);
    if digits.len() > 0 && (forall|i: int| 0 <= i < digits.len() ==> is_digit(#[trigger] digits[i]))
        && digits_value(digits) <= u32::MAX {
        Some(digits_value(digits) as u32)
    } else {
        None
    }
}

proof fn lemma_index_of_param(args: Seq<Argument>, name: Seq<char>, i: int)
    requires
        0 <= i < args.len(),
        same_ignoring_case(args[i]@.0, name),
        forall|j: int| 0 <= j < i ==> !same_ignoring_case(#[trigger] args[j]@.0, name),
    ensures
        index_of_param(args, name) == Some(i),
{
    let c = choose|k: int|
        0 <= k < args.len() && same_ignoring_case(args[k]@.0, name) && forall|j: int|
            0 <= j < k ==> !same_ignoring_case(#[trigger] args[j]@.0, name);
    assert(0 <= c < args.len() && same_ignoring_case(args[c]@.0, name));
    if c < i {
        assert(!same_ignoring_case(args[c]@.0, name));
    } else if c > i {
        assert(!same_ignoring_case(args[i]@.0, name));
    }
}

proof fn lemma_digits_value_grows(s: Seq<char>, k: int)
    requires
        0 <= k <= s.len(),
        forall|i: int| 0 <= i < s.len() ==> is_digit(#[trigger] s[i]),
    ensures
        digits_value(s.take(k)) <= digits_value(s),
    decreases s.len() - k,
{
    if k < s.len() {
        lemma_digits_value_grows(s, k + 1);
        assert(s.take(k + 1).drop_last() == s.take(k));
    } else {
        assert(s.take(k) == s);
    }
}

fn find_param(arg_list: &[Argument], name: &str) -> (r: Option<usize>)
    ensures
        match index_of_param(arg_list@, name@) {
            Some(i) => r is Some && r->0 as int == i,
            None => r is None,
        },
        r matches Some(i) ==> i < arg_list@.len(),
{
    let mut i: usize = 0;
    while i < arg_list.len()
        invariant
            i <= arg_list@.len(),
            forall|k: int| 0 <= k < i ==> !same_ignoring_case(#[trigger] arg_list@[k]@.0, name@),
        decreases arg_list.len() - i,
    {
        if str_eq_ignore_case(param_str(&arg_list[i].param), name) {
            proof {
                lemma_index_of_param(arg_list@, name@, i as int);
            }
            return Some(i);
        }
        i += 1;
    }
    None
}

/// Whether some argument has the parameter `name` (ASCII case ignored).
pub fn contains_param(arg_list: &[Argument], name: &str) -> (r: bool)
    ensures
        r == index_of_param(arg_list@, name@) is Some,
{
    find_param(arg_list, name).is_some()
}

/// The value of the first argument named `param` (ASCII case ignored).
pub fn get_str_param<'a>(param: &str, arg_list: &'a [Argument]) -> (r: Option<&'a str>)
    ensures
        match index_of_param(arg_list@, param@) {
            Some(i) => r is Some && r->0@ == arg_list@[i]@.1,
            None => r is None,
        },
{
    match find_param(arg_list, param) {
        Some(i) => Some(value_str(&arg_list[i].value)),
        None => None,
    }
}

/// Reads an unsigned decimal number of 32 bits.
pub fn parse_u32(s: &str) -> (r: Option<u32>)
    ensures
        r == decimal_u32(s@),
{
    let c = chars_of(s);
    let start: usize = if c.len() > 0 && c[0] == '+' {
        1
    } else {
        0
    };
    let ghost digits = c@.skip(start as int);
    proof {
        if start == 0 {
            assert(digits == c@);
        }
        assert(digits == unsigned_part(s@));
    }
    if start >= c.len() {
        return None;
    }
    let mut value: u64 = 0;
    let mut i: usize = start;
    while i < c.len()
        invariant
            start <= i <= c@.len(),
            c@ == s@,
            digits == c@.skip(start as int),
            digits == unsigned_part(s@),
            forall|k: int| 0 <= k < i - start ==> is_digit(#[trigger] digits[k]),
            value as nat == digits_value(digits.take(i - start)),
            value <= u32::MAX,
        decreases c.len() - i,
    {
        let ch = c[i];
        let ghost n = i - start;
        proof {
            assert(digits.take(n + 1).drop_last() == digits.take(n));
            assert(digits[n] == ch);
        }
        if !('0' <= ch && ch <= '9') {
            proof {
                assert(!is_digit(digits[n]));
            }
            return None;
        }
        let d = (ch as u32 - '0' as u32) as u64;
        value = value * 10 + d;
        if value > 0xFFFF_FFFF {
            return digits_overflow(&c, start, i + 1);
        }
        i += 1;
    }
    proof {
        assert(digits.take(i - start) == digits);
    }
    Some(value as u32)
}

/// The rest of a number whose first digits already exceed 32 bits: the
/// text is not a number that fits, whether or not more digits follow.
fn digits_overflow(c: &Vec<char>, start: usize, from: usize) -> (r: Option<u32>)
    requires
        start < from <= c@.len(),
        forall|k: int| 0 <= k < from - start ==> is_digit(#[trigger] c@.skip(start as int)[k]),
        digits_value(c@.skip(start as int).take(from - start)) > u32::MAX,
    ensures
        r is None,
        ({
            let digits = c@.skip(start as int);
            !(digits.len() > 0 && (forall|i: int| 0 <= i < digits.len() ==> is_digit(#[trigger] digits[i]))
                && digits_value(digits) <= u32::MAX)
        }),
{
    proof {
        let digits = c@.skip(start as int);
        if forall|i: int| 0 <= i < digits.len() ==> is_digit(#[trigger] digits[i]) {
            lemma_digits_value_grows(digits, from - start);
        }
    }
    None
}

/// The value of the first argument named `param`, read as an unsigned
/// decimal number. Fails with `MissingArg` when no argument has that name,
/// and with `Parse` when its value is not such a number; both carry the name.
pub fn get_parsed_param(param: &str, arg_list: &[Argument]) -> (r: Result<u32, Error>)
    ensures
        match index_of_param(arg_list@, param@) {
            None => r is Err && r->Err_0 is MissingArg && is_truncation(
                message_text(r->Err_0->MissingArg_0),
                param@,
                48,
            ),
            Some(i) => match decimal_u32(arg_list@[i]@.1) {
                Some(v) => r == Ok::<u32, Error>(v),
                None => r is Err && r->Err_0 is Parse && is_truncation(
                    message_text(r->Err_0->Parse_0),
                    param@,
                    48,
                ),
            },
        },
{
    let i = match find_param(arg_list, param) {
        Some(i) => i,
        None => return Err(Error::MissingArg(into_truncated(param))),
    };
    match parse_u32(value_str(&arg_list[i].value)) {
        Some(v) => Ok(v),
        None => Err(Error::Parse(into_truncated(param))),
    }
}

/// Lookups on a list of parsed arguments.
pub trait ArgList {
    /// The arguments, in order.
    spec fn arguments(&self) -> Seq<Argument>;

    /// See [`get_parsed_param`].
    fn get_parsed_param(&self, param: &str) -> (r: Result<u32, Error>)
        ensures
            match index_of_param(self.arguments(), param@) {
                None => r is Err && r->Err_0 is MissingArg,
                Some(i) => match decimal_u32(self.arguments()[i]@.1) {
                    Some(v) => r == Ok::<u32, Error>(v),
                    None => r is Err && r->Err_0 is Parse,
                },
            },
    ;

    /// See [`get_str_param`].
    fn get_str_param(&self, param: &str) -> (r: Option<&str>)
        ensures
            match index_of_param(self.arguments(), param@) {
                Some(i) => r is Some && r->0@ == self.arguments()[i]@.1,
                None => r is None,
            },
    ;

    /// See [`contains_param`].
    fn contains_param(&self, name: &str) -> (r: bool)
        ensures
            r == index_of_param(self.arguments(), name@) is Some,
    ;
}

impl ArgList for [Argument] {
    open spec fn arguments(&self) -> Seq<Argument> {
        self@
    }

    fn get_parsed_param(&self, param: &str) -> (r: Result<u32, Error>) {
        get_parsed_param(param, self)
    }

    fn get_str_param(&self, param: &str) -> (r: Option<&str>) {
        get_str_param(param, self)
    }

    fn contains_param(&self, name: &str) -> (r: bool) {
        contains_param(self, name)
    }
}

} // verus!
