//! Fixed-capacity strings and the argument list, held in `heapless`
//! containers. Each capacity the console uses gets a name for what its strings
//! hold, and wrappers whose contracts follow `heapless` 0.8: a push succeeds
//! exactly when the UTF-8 bytes still fit, and leaves the value unchanged when
//! they do not.

use vstd::prelude::*;
use crate::parser::Argument;
use crate::text::{char_width, text_width};

verus! {

#[verifier::external_type_specification]
#[verifier::external_body]
pub struct ExHeaplessString<const N: usize>(heapless::String<N>);

#[verifier::external_type_specification]
#[verifier::external_body]
#[verifier::reject_recursive_types(T)]
pub struct ExHeaplessVec<T, const N: usize>(heapless::Vec<T, N>);

/// Byte capacity of a normalized command line.
pub const LINE_CAPACITY: usize = 192;
/// Byte capacity of a command name.
pub const NAME_CAPACITY: usize = 24;
/// Byte capacity of a parameter name.
pub const PARAM_CAPACITY: usize = 16;
/// Byte capacity of a parameter value.
pub const VALUE_CAPACITY: usize = 64;
/// Byte capacity of the text carried by an error.
pub const MESSAGE_CAPACITY: usize = 48;
/// Number of arguments one command line may carry.
pub const MAX_ARGS: usize = 5;

/// The characters held by a normalized command line.
pub uninterp spec fn line_text(s: heapless::String<192>) -> Seq<char>;

/// The characters held by a command name.
pub uninterp spec fn name_text(s: heapless::String<24>) -> Seq<char>;

/// The characters held by a parameter name.
pub uninterp spec fn param_text(s: heapless::String<16>) -> Seq<char>;

/// The characters held by a parameter value.
pub uninterp spec fn value_text(s: heapless::String<64>) -> Seq<char>;

/// The characters held by an error's text.
pub uninterp spec fn message_text(s: heapless::String<48>) -> Seq<char>;

/// The (parameter, value) pairs held by an argument list, in order.
pub uninterp spec fn arg_pairs(v: heapless::Vec<Argument, 5>) -> Seq<(Seq<char>, Seq<char>)>;

/// Relies on heapless::String::new: a new string is empty.
#[verifier::external_body]
pub(crate) fn empty_line() -> (r: heapless::String<192>)
    ensures
        line_text(r) == Seq::<char>::empty(),
{
    heapless::String::new()
}

/// Relies on heapless::String::push: the character is appended when its
/// UTF-8 bytes fit in the remaining capacity; otherwise nothing changes.
#[verifier::external_body]
pub(crate) fn push_line(s: &mut heapless::String<192>, c: char) -> (r: Result<(), ()>)
    ensures
        text_width(line_text(*old(s))) <= 192 ==> (r is Ok <==> text_width(line_text(*old(s)))
            + char_width(c) <= 192),
        r is Ok ==> line_text(*final(s)) == line_text(*old(s)).push(c),
        r is Err ==> *final(s) == *old(s),
{
    s.push(c)
}

/// Relies on heapless::String::as_str: the slice holds the string's characters.
#[verifier::external_body]
pub(crate) fn line_str(s: &heapless::String<192>) -> (r: &str)
    ensures
        r@ == line_text(*s),
{
    s.as_str()
}

/// Relies on heapless::String::new: a new string is empty.
#[verifier::external_body]
pub(crate) fn empty_name() -> (r: heapless::String<24>)
    ensures
        name_text(r) == Seq::<char>::empty(),
{
    heapless::String::new()
}

/// Relies on heapless::String::push: the character is appended when its
/// UTF-8 bytes fit in the remaining capacity; otherwise nothing changes.
#[verifier::external_body]
pub(crate) fn push_name(s: &mut heapless::String<24>, c: char) -> (r: Result<(), ()>)
    ensures
        text_width(name_text(*old(s))) <= 24 ==> (r is Ok <==> text_width(name_text(*old(s)))
            + char_width(c) <= 24),
        r is Ok ==> name_text(*final(s)) == name_text(*old(s)).push(c),
        r is Err ==> *final(s) == *old(s),
{
    s.push(c)
}

/// Relies on heapless::String::as_str: the slice holds the string's characters.
#[verifier::external_body]
pub(crate) fn name_str(s: &heapless::String<24>) -> (r: &str)
    ensures
        r@ == name_text(*s),
{
    s.as_str()
}

/// Relies on heapless::String::new: a new string is empty.
#[verifier::external_body]
pub(crate) fn empty_param() -> (r: heapless::String<16>)
    ensures
        param_text(r) == Seq::<char>::empty(),
{
    heapless::String::new()
}

/// Relies on heapless::String::push: the character is appended when its
/// UTF-8 bytes fit in the remaining capacity; otherwise nothing changes.
#[verifier::external_body]
pub(crate) fn push_param(s: &mut heapless::String<16>, c: char) -> (r: Result<(), ()>)
    ensures
        text_width(param_text(*old(s))) <= 16 ==> (r is Ok <==> text_width(param_text(*old(s)))
            + char_width(c) <= 16),
        r is Ok ==> param_text(*final(s)) == param_text(*old(s)).push(c),
        r is Err ==> *final(s) == *old(s),
{
    s.push(c)
}

/// Relies on heapless::String::as_str: the slice holds the string's characters.
#[verifier::external_body]
pub(crate) fn param_str(s: &heapless::String<16>) -> (r: &str)
    ensures
        r@ == param_text(*s),
{
    s.as_str()
}

/// Relies on heapless::String::new: a new string is empty.
#[verifier::external_body]
pub(crate) fn empty_value() -> (r: heapless::String<64>)
    ensures
        value_text(r) == Seq::<char>::empty(),
{
    heapless::String::new()
}

/// Relies on heapless::String::push: the character is appended when its
/// UTF-8 bytes fit in the remaining capacity; otherwise nothing changes.
#[verifier::external_body]
pub(crate) fn push_value(s: &mut heapless::String<64>, c: char) -> (r: Result<(), ()>)
    ensures
        text_width(value_text(*old(s))) <= 64 ==> (r is Ok <==> text_width(value_text(*old(s)))
            + char_width(c) <= 64),
        r is Ok ==> value_text(*final(s)) == value_text(*old(s)).push(c),
        r is Err ==> *final(s) == *old(s),
{
    s.push(c)
}

/// Relies on heapless::String::as_str: the slice holds the string's characters.
#[verifier::external_body]
pub(crate) fn value_str(s: &heapless::String<64>) -> (r: &str)
    ensures
        r@ == value_text(*s),
{
    s.as_str()
}

/// Relies on heapless::String::new: a new string is empty.
#[verifier::external_body]
pub(crate) fn empty_message() -> (r: heapless::String<48>)
    ensures
        message_text(r) == Seq::<char>::empty(),
{
    heapless::String::new()
}

/// Relies on heapless::String::push: the character is appended when its
/// UTF-8 bytes fit in the remaining capacity; otherwise nothing changes.
#[verifier::external_body]
pub(crate) fn push_message(s: &mut heapless::String<48>, c: char) -> (r: Result<(), ()>)
    ensures
        text_width(message_text(*old(s))) <= 48 ==> (r is Ok <==> text_width(
            message_text(*old(s)),
        ) + char_width(c) <= 48),
        r is Ok ==> message_text(*final(s)) == message_text(*old(s)).push(c),
        r is Err ==> *final(s) == *old(s),
{
    s.push(c)
}

/// Relies on heapless::Vec::new: a new vector is empty.
#[verifier::external_body]
pub(crate) fn empty_args() -> (r: heapless::Vec<Argument, 5>)
    ensures
        arg_pairs(r) == Seq::<(Seq<char>, Seq<char>)>::empty(),
{
    heapless::Vec::new()
}

/// Relies on heapless::Vec::push: the item is appended while fewer than five
/// are held; otherwise the item is handed back and nothing changes.
#[verifier::external_body]
pub(crate) fn push_arg(v: &mut heapless::Vec<Argument, 5>, a: Argument) -> (r: Result<(), Argument>)
    ensures
        arg_pairs(*old(v)).len() <= 5 ==> (r is Ok <==> arg_pairs(*old(v)).len() < 5),
        r is Ok ==> arg_pairs(*final(v)) == arg_pairs(*old(v)).push(a@),
        r is Err ==> *final(v) == *old(v),
{
    v.push(a)
}

/// Relies on heapless::Vec::as_slice: the slice holds the vector's items in order.
#[verifier::external_body]
pub(crate) fn args_slice(v: &heapless::Vec<Argument, 5>) -> (r: &[Argument])
    ensures
        r@.len() == arg_pairs(*v).len(),
        forall|i: int| 0 <= i < r@.len() ==> #[trigger] r@[i]@ == arg_pairs(*v)[i],
{
    v.as_slice()
}

} // verus!
