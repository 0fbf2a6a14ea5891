//! Errors reported by the console, and the truncating conversion of a text
//! into the fixed-capacity string that some of them carry.

use vstd::prelude::*;
use crate::bounded::{empty_message, message_text, push_message};
use crate::config::ConfigError;
use crate::text::{text_width, lemma_text_width_push};

verus! {

/// Everything that can go wrong while reading, parsing or running a command.
#[derive(Debug, PartialEq, Eq)]
pub enum Error {
    BufferWrite,
    ParseBuffer,
    IoInput,
    Parse(heapless::String<48>),
    MissingArg(heapless::String<48>),
    CmdExec(heapless::String<48>),
    CmdNotFound(heapless::String<48>),
    CommandTooLong,
    ArgTooLong,
    TooManyArgs,
    CriticalFail,
    Exit,
    Configuration(ConfigError),
}

/// `t` is the longest prefix of `s` whose UTF-8 bytes fit in `cap`.
pub open spec fn is_truncation(t: Seq<char>, s: Seq<char>, cap: nat) -> bool {
    exists|k: int|
        0 <= k <= s.len() && t == #[trigger] s.take(k) && text_width(s.take(k)) <= cap && (k == s.len()
            || text_width(s.take(k + 1)) > cap)
}

/// Copies as much of `s` as fits into an error text, stopping before the
/// first character that would not fit.
pub fn into_truncated(s: &str) -> (r: heapless::String<48>)
    ensures
        is_truncation(message_text(r), s@, 48),
{
    let chars = crate::text::chars_of(s);
    let mut out = empty_message();
    let mut i: usize = 0;
    while i < chars.len()
        invariant
            i <= chars.len(),
            chars@ == s@,
            message_text(out) == s@.take(i as int),
            text_width(s@.take(i as int)) <= 48,
        decreases chars.len() - i,
    {
        proof {
            assert(s@.take(i as int).push(chars@[i as int]) == s@.take(i + 1));
            lemma_text_width_push(s@.take(i as int), chars@[i as int]);
        }
        match push_message(&mut out, chars[i]) {
            Ok(()) => {},
            Err(()) => {
                assert(0 <= i <= s@.len());
                return out;
            },
        }
        i += 1;
    }
    proof {
        assert(s@.take(i as int) == s@);
        assert(0 <= i <= s@.len());
    }
    out
}

} // verus!
