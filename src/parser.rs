//! The line tokenizer: turns one line of text into a command name and an
//! ordered list of `(parameter, value)` arguments.
//!
//! Outside double quotes every character is folded to ASCII lowercase; inside
//! them case is kept, a space is kept inside the token, and a backslash escapes
//! a quote or itself. The normalized line is split on ASCII whitespace; each
//! argument token is split at its first `=`.

use vstd::prelude::*;
use crate::bounded::{
    LINE_CAPACITY, empty_line, line_str, line_text, push_line,
    empty_args, empty_name, empty_param, empty_value, push_arg, push_name, push_param,
    push_value,
    MAX_ARGS, NAME_CAPACITY, PARAM_CAPACITY, VALUE_CAPACITY, arg_pairs, name_text, param_text,
    value_text,
};
use crate::error::{Error, into_truncated};
use crate::text::{
    char_width, chars_of, is_blank, is_blank_char, lemma_text_width_push, lower,
    text_width, to_lower,
};

verus! {

/// Stands for a space inside quotes until the value is extracted.
pub const SEPARATOR: char = '\x1E';
/// The escape character inside quotes.
pub const ESCAPE: char = '\\';
/// Carriage return, dropped from the line.
pub const CR: char = '\r';
/// Command name of an empty line.
pub const DEFAULT_CMD: &'static str = "help";

/// One `parameter[=value]` token of a command line.
#[derive(Debug)]
pub struct Argument {
    pub param: heapless::String<16>,
    pub value: heapless::String<64>,
}

impl View for Argument {
    type V = (Seq<char>, Seq<char>);

    open spec fn view(&self) -> (Seq<char>, Seq<char>) {
        (param_text(self.param), value_text(self.value))
    }
}

/// A command name with its arguments in the order they appeared.
#[derive(Debug)]
pub struct ParsedCommand {
    pub cmd: heapless::String<24>,
    pub args: heapless::Vec<Argument, 5>,
}

impl View for ParsedCommand {
    type V = (Seq<char>, Seq<(Seq<char>, Seq<char>)>);

    open spec fn view(&self) -> (Seq<char>, Seq<(Seq<char>, Seq<char>)>) {
        (name_text(self.cmd), arg_pairs(self.args))
    }
}

// ------------------------------------------------------------------------
// The model
// ------------------------------------------------------------------------

/// Why a line is rejected.
pub enum Fault {
    /// The normalized line does not fit in its buffer.
    LineTooLong,
    /// A backslash is the last thing inside quotes.
    DanglingEscape,
    /// A quote is left open at the end of the line.
    UnmatchedQuote,
    /// A token is `=`, or starts or ends with `=`.
    EqualsSpacing,
    /// The command name does not fit.
    NameTooLong,
    /// A parameter name or a value does not fit.
    ArgTooLong,
    /// More arguments than the list holds.
    TooManyArgs,
}

/// The error value that reports `f`.
pub open spec fn reports(e: Error, f: Fault) -> bool {
    match f {
        Fault::LineTooLong => e is CommandTooLong,
        Fault::DanglingEscape => e is Parse,
        Fault::UnmatchedQuote => e is Parse,
        Fault::EqualsSpacing => e is Parse,
        Fault::NameTooLong => e is CommandTooLong,
        Fault::ArgTooLong => e is ArgTooLong,
        Fault::TooManyArgs => e is TooManyArgs,
    }
}

/// The state of the first pass after some prefix of the line.
pub struct Scan {
    pub out: Seq<char>,
    pub in_quotes: bool,
    pub escaped: bool,
    pub full: bool,
}

pub open spec fn scan_start() -> Scan {
    Scan { out: Seq::empty(), in_quotes: false, escaped: false, full: false }
}

/// Appends `c` to the normalized text, or marks the buffer full when its
/// bytes do not fit.
pub open spec fn emit(st: Scan, c: char, in_quotes: bool, escaped: bool) -> Scan {
    if text_width(st.out) + char_width(c) <= LINE_CAPACITY {
        Scan { out: st.out.push(c), in_quotes, escaped, full: false }
    } else {
        Scan { full: true, ..st }
    }
}

/// One character of the first pass.
pub open spec fn scan_step(st: Scan, c: char) -> Scan {
    if st.full {
        st
    } else if c == CR {
        st
    } else if c == '"' {
        if st.escaped && st.in_quotes {
            emit(st, '"', st.in_quotes, false)
        } else {
            Scan { in_quotes: !st.in_quotes, escaped: false, ..st }
        }
    } else if st.in_quotes && c == ' ' {
        emit(st, SEPARATOR, true, false)
    } else if st.in_quotes && c == ESCAPE {
        if st.escaped {
            emit(st, ESCAPE, true, false)
        } else {
            Scan { escaped: true, ..st }
        }
    } else if st.in_quotes {
        emit(st, c, true, false)
    } else {
        emit(st, lower(c), false, st.escaped)
    }
}

/// The first pass over a whole line.
pub open spec fn scan(s: Seq<char>) -> Scan
    decreases s.len(),
{
    if s.len() == 0 {
        scan_start()
    } else {
        scan_step(scan(s.drop_last()), s.last())
    }
}

/// Words found so far, and the word being read.
pub open spec fn split_state(s: Seq<char>) -> (Seq<Seq<char>>, Seq<char>)
    decreases s.len(),
{
    if s.len() == 0 {
        (Seq::empty(), Seq::empty())
    } else {
        let (done, cur) = split_state(s.drop_last());
        if is_blank(s.last()) {
            if cur.len() > 0 {
                (done.push(cur), Seq::empty())
            } else {
                (done, Seq::empty())
            }
        } else {
            (done, cur.push(s.last()))
        }
    }
}

/// The maximal runs of non-whitespace characters of `s`, in order.
pub open spec fn words(s: Seq<char>) -> Seq<Seq<char>> {
    let (done, cur) = split_state(s);
    if cur.len() > 0 {
        done.push(cur)
    } else {
        done
    }
}

/// A value with every separator turned back into a space.
pub open spec fn restore(v: Seq<char>) -> Seq<char> {
    v.map_values(|c: char| if c == SEPARATOR { ' ' } else { c })
}

/// Index of the first `=` in `t`, if any.
pub open spec fn first_equals(t: Seq<char>) -> Option<int> {
    if exists|k: int| 0 <= k < t.len() && t[k] == '=' {
        Some(choose|k: int| 0 <= k < t.len() && t[k] == '=' && forall|j: int| 0 <= j < k ==> t[j] != '=')
    } else {
        None
    }
}

/// The argument that one token stands for.
pub open spec fn arg_of(t: Seq<char>) -> Result<(Seq<char>, Seq<char>), Fault> {
    if t.len() > 0 && (t[0] == '=' || t.last() == '=') {
        Err(Fault::EqualsSpacing)
    } else {
        let p = match first_equals(t) {
            Some(k) => t.take(k),
            None => t,
        };
        let v = match first_equals(t) {
            Some(k) => restore(t.skip(k + 1)),
            None => Seq::empty(),
        };
        if text_width(p) > PARAM_CAPACITY {
            Err(Fault::ArgTooLong)
        } else if text_width(v) > VALUE_CAPACITY {
            Err(Fault::ArgTooLong)
        } else {
            Ok((p, v))
        }
    }
}

/// The arguments that a sequence of tokens stands for; the first failing
/// token decides the error.
pub open spec fn args_of(ts: Seq<Seq<char>>) -> Result<Seq<(Seq<char>, Seq<char>)>, Fault>
    decreases ts.len(),
{
    if ts.len() == 0 {
        Ok(Seq::empty())
    } else {
        match args_of(ts.drop_last()) {
            Err(f) => Err(f),
            Ok(prev) => match arg_of(ts.last()) {
                Err(f) => Err(f),
                Ok(a) => if prev.len() >= MAX_ARGS {
                    Err(Fault::TooManyArgs)
                } else {
                    Ok(prev.push(a))
                },
            },
        }
    }
}

/// The tokens of a line after the first pass, or why it fails there.
pub open spec fn line_words(s: Seq<char>) -> Result<Seq<Seq<char>>, Fault> {
    let st = scan(s);
    if st.full {
        Err(Fault::LineTooLong)
    } else if st.escaped {
        Err(Fault::DanglingEscape)
    } else if st.in_quotes {
        Err(Fault::UnmatchedQuote)
    } else {
        Ok(words(st.out))
    }
}

/// What `parse` gives for a line holding only arguments.
pub open spec fn parse_args_spec(s: Seq<char>) -> Result<Seq<(Seq<char>, Seq<char>)>, Fault> {
    match line_words(s) {
        Err(f) => Err(f),
        Ok(ws) => args_of(ws),
    }
}

/// What `ParsedCommand::parse` gives for a whole command line.
pub open spec fn parse_spec(s: Seq<char>) -> Result<(Seq<char>, Seq<(Seq<char>, Seq<char>)>), Fault> {
    match line_words(s) {
        Err(f) => Err(f),
        Ok(ws) => if ws.len() == 0 {
            Ok((seq!['h', 'e', 'l', 'p'], Seq::empty()))
        } else if text_width(ws[0]) > NAME_CAPACITY {
            Err(Fault::NameTooLong)
        } else {
            match args_of(ws.drop_first()) {
                Err(f) => Err(f),
                Ok(args) => Ok((ws[0], args)),
            }
        },
    }
}


/// The texts held by a list of character vectors.
pub open spec fn texts(v: Seq<Vec<char>>) -> Seq<Seq<char>> {
    v.map_values(|w: Vec<char>| w@)
}

// ------------------------------------------------------------------------
// Facts about the model
// ------------------------------------------------------------------------

proof fn lemma_full_sticks(s: Seq<char>, i: int)
    requires
        0 <= i <= s.len(),
        scan(s.take(i)).full,
    ensures
        scan(s).full,
    decreases s.len() - i,
{
    if i < s.len() {
        assert(s.take(i + 1).drop_last() == s.take(i));
        lemma_full_sticks(s, i + 1);
    } else {
        assert(s.take(i) == s);
    }
}

proof fn lemma_width_monotone(s: Seq<char>, a: int, b: int)
    requires
        0 <= a <= b <= s.len(),
    ensures
        text_width(s.take(a)) <= text_width(s.take(b)),
    decreases b - a,
{
    if a < b {
        lemma_width_monotone(s, a, b - 1);
        assert(s.take(b).drop_last() == s.take(b - 1));
    }
}

proof fn lemma_args_err_sticks(ts: Seq<Seq<char>>, n: int)
    requires
        0 <= n <= ts.len(),
        args_of(ts.take(n)) is Err,
    ensures
        args_of(ts) == args_of(ts.take(n)),
    decreases ts.len() - n,
{
    if n < ts.len() {
        assert(ts.take(n + 1).drop_last() == ts.take(n));
        lemma_args_err_sticks(ts, n + 1);
    } else {
        assert(ts.take(n) == ts);
    }
}

// ------------------------------------------------------------------------
// The passes
// ------------------------------------------------------------------------

/// Appends `c` to the line buffer when its bytes fit.
fn emit_char(out: &mut heapless::String<192>, c: char) -> (ok: bool)
    requires
        text_width(line_text(*old(out))) <= LINE_CAPACITY,
    ensures
        ok == (text_width(line_text(*old(out))) + char_width(c) <= LINE_CAPACITY),
        ok ==> line_text(*final(out)) == line_text(*old(out)).push(c),
        !ok ==> line_text(*final(out)) == line_text(*old(out)),
        text_width(line_text(*final(out))) <= LINE_CAPACITY,
{
    proof {
        lemma_text_width_push(line_text(*out), c);
    }
    push_line(out, c).is_ok()
}

/// The first pass: folds case outside quotes, keeps quoted spaces inside
/// their token, resolves escapes, and drops carriage returns.
fn normalize(input: &str) -> (r: Result<Vec<char>, Error>)
    ensures
        match line_words(input@) {
            Ok(_) => r is Ok && r->Ok_0@ == scan(input@).out,
            Err(f) => r is Err && reports(r->Err_0, f),
        },
{
    let chars = chars_of(input);
    let mut out = empty_line();
    let mut in_quotes = false;
    let mut escaped = false;
    let mut i: usize = 0;
    while i < chars.len()
        invariant
            chars@ == input@,
            i <= chars.len(),
            !scan(input@.take(i as int)).full,
            scan(input@.take(i as int)).out == line_text(out),
            scan(input@.take(i as int)).in_quotes == in_quotes,
            scan(input@.take(i as int)).escaped == escaped,
            text_width(line_text(out)) <= LINE_CAPACITY,
        decreases chars.len() - i,
    {
        let c = chars[i];
        let ghost before = scan(input@.take(i as int));
        proof {
            assert(input@.take(i + 1).drop_last() == input@.take(i as int));
        }
        let ok = if c == CR {
            true
        } else if c == '"' {
            if escaped && in_quotes {
                let ok = emit_char(&mut out, '"');
                escaped = false;
                ok
            } else {
                in_quotes = !in_quotes;
                escaped = false;
                true
            }
        } else if in_quotes && c == ' ' {
            escaped = false;
            emit_char(&mut out, SEPARATOR)
        } else if in_quotes && c == ESCAPE {
            if escaped {
                escaped = false;
                emit_char(&mut out, ESCAPE)
            } else {
                escaped = true;
                true
            }
        } else if in_quotes {
            escaped = false;
            emit_char(&mut out, c)
        } else {
            let lc = to_lower(c);
            emit_char(&mut out, lc)
        };
        if !ok {
            proof {
                assert(scan(input@.take(i + 1)).full);
                lemma_full_sticks(input@, i + 1);
            }
            return Err(Error::CommandTooLong);
        }
        i += 1;
    }
    proof {
        assert(input@.take(i as int) == input@);
    }
    if escaped {
        return Err(Error::Parse(into_truncated("dangling escape \"\\\" char")));
    }
    if in_quotes {
        return Err(Error::Parse(into_truncated("unmatched quotes")));
    }
    Ok(chars_of(line_str(&out)))
}

/// The second pass: splits the normalized line on ASCII whitespace.
fn split_words(s: &Vec<char>) -> (r: Vec<Vec<char>>)
    ensures
        texts(r@) == words(s@),
{
    let mut done: Vec<Vec<char>> = Vec::new();
    let mut cur: Vec<char> = Vec::new();
    let mut i: usize = 0;
    while i < s.len()
        invariant
            i <= s.len(),
            split_state(s@.take(i as int)) == (texts(done@), cur@),
        decreases s.len() - i,
    {
        let c = s[i];
        proof {
            assert(s@.take(i + 1).drop_last() == s@.take(i as int));
        }
        if is_blank_char(c) {
            if cur.len() > 0 {
                let ghost d = texts(done@);
                let ghost w = cur@;
                let mut word: Vec<char> = Vec::new();
                std::mem::swap(&mut cur, &mut word);
                done.push(word);
                proof {
                    assert(texts(done@) =~= d.push(w));
                }
            }
        } else {
            cur.push(c);
        }
        i += 1;
    }
    proof {
        assert(s@.take(i as int) == s@);
    }
    if cur.len() > 0 {
        let ghost d = texts(done@);
        let ghost w = cur@;
        done.push(cur);
        proof {
            assert(texts(done@) =~= d.push(w));
        }
    }
    done
}

/// Index of the first `=` of `t`, or `t.len()` when there is none.
fn find_equals(t: &Vec<char>) -> (k: usize)
    ensures
        k <= t.len(),
        forall|j: int| 0 <= j < k ==> t@[j] != '=',
        k < t.len() ==> t@[k as int] == '=',
        first_equals(t@) == (if k < t.len() { Some(k as int) } else { None::<int> }),
{
    let mut k: usize = 0;
    while k < t.len()
        invariant
            k <= t.len(),
            forall|j: int| 0 <= j < k ==> t@[j] != '=',
        decreases t.len() - k,
    {
        if t[k] == '=' {
            proof {
                let c = choose|m: int|
                    0 <= m < t@.len() && t@[m] == '=' && forall|j: int| 0 <= j < m ==> t@[j] != '=';
                assert(0 <= c < t@.len() && t@[c] == '=' && forall|j: int| 0 <= j < c ==> t@[j] != '=');
                assert(c == k);
            }
            return k;
        }
        k += 1;
    }
    k
}

/// The third pass, for one token: its parameter name and value.
fn make_arg(t: &Vec<char>) -> (r: Result<Argument, Error>)
    ensures
        match arg_of(t@) {
            Ok(a) => r is Ok && r->Ok_0@ == a,
            Err(f) => r is Err && reports(r->Err_0, f),
        },
{
    let n = t.len();
    if n > 0 && (t[0] == '=' || t[n - 1] == '=') {
        return Err(Error::Parse(into_truncated("\"=\" spacing")));
    }
    let k = find_equals(t);
    proof {
        assert(!(t@.len() > 0 && (t@[0] == '=' || t@.last() == '=')));
        if k < n {
            assert(first_equals(t@) == Some(k as int));
        } else {
            assert(first_equals(t@) == None::<int>);
        }
    }
    let ghost p = t@.take(k as int);
    proof {
        if k == n {
            assert(p =~= t@);
        }
    }
    let ghost v = if k < n { restore(t@.skip(k + 1)) } else { Seq::<char>::empty() };
    let mut param = empty_param();
    let mut j: usize = 0;
    while j < k
        invariant
            k <= t.len(),
            j <= k,
            k == t.len() ==> p == t@,
            !(t@.len() > 0 && (t@[0] == '=' || t@.last() == '=')),
            first_equals(t@) == (if k < t.len() { Some(k as int) } else { None::<int> }),
            p == t@.take(k as int),
            param_text(param) == p.take(j as int),
            text_width(p.take(j as int)) <= PARAM_CAPACITY,
        decreases k - j,
    {
        proof {
            assert(p.take(j as int).push(t@[j as int]) == p.take(j + 1));
            lemma_text_width_push(p.take(j as int), t@[j as int]);
        }
        if push_param(&mut param, t[j]).is_err() {
            proof {
                lemma_width_monotone(p, j + 1, k as int);
                assert(p.take(k as int) == p);
                assert(text_width(p) > PARAM_CAPACITY);
                assert(arg_of(t@) == Err::<(Seq<char>, Seq<char>), Fault>(Fault::ArgTooLong));
            }
            return Err(Error::ArgTooLong);
        }
        j += 1;
    }
    proof {
        assert(p.take(k as int) == p);
    }
    let mut value = empty_value();
    if k < n {
        let ghost raw = t@.skip(k + 1);
        let mut j: usize = k + 1;
        while j < n
            invariant
                k < n == t.len(),
                k + 1 <= j <= n,
                !(t@.len() > 0 && (t@[0] == '=' || t@.last() == '=')),
                first_equals(t@) == (if k < t.len() { Some(k as int) } else { None::<int> }),
                raw == t@.skip(k + 1),
                v == restore(raw),
                value_text(value) == v.take(j - k - 1),
                text_width(v.take(j - k - 1)) <= VALUE_CAPACITY,
            decreases n - j,
        {
            let c = if t[j] == SEPARATOR { ' ' } else { t[j] };
            let ghost m = j - k - 1;
            proof {
                assert(v[m] == c);
                assert(v.take(m).push(c) == v.take(m + 1));
                lemma_text_width_push(v.take(m), c);
            }
            if push_value(&mut value, c).is_err() {
                proof {
                    lemma_width_monotone(v, m + 1, v.len() as int);
                    assert(v.take(v.len() as int) == v);
                    assert(text_width(v) > VALUE_CAPACITY);
                    assert(arg_of(t@) == Err::<(Seq<char>, Seq<char>), Fault>(Fault::ArgTooLong));
                }
                return Err(Error::ArgTooLong);
            }
            j += 1;
        }
        proof {
            assert(v.take(j - k - 1) == v);
        }
    } else {
        proof {
            assert(v.take(0) == v);
        }
    }
    let r = Argument { param, value };
    proof {
        assert(r@ == (p, v));
        assert(arg_of(t@) == Ok::<(Seq<char>, Seq<char>), Fault>((p, v)));
    }
    Ok(r)
}

/// The third pass, for the tokens from `start` on.
fn collect_args(ws: &Vec<Vec<char>>, start: usize) -> (r: Result<heapless::Vec<Argument, 5>, Error>)
    requires
        start <= ws.len(),
    ensures
        match args_of(texts(ws@).skip(start as int)) {
            Ok(a) => r is Ok && arg_pairs(r->Ok_0) == a,
            Err(f) => r is Err && reports(r->Err_0, f),
        },
{
    let ghost ts = texts(ws@).skip(start as int);
    let mut out = empty_args();
    let mut i: usize = start;
    while i < ws.len()
        invariant
            start <= i <= ws.len(),
            ts == texts(ws@).skip(start as int),
            args_of(ts.take(i - start)) == Ok::<Seq<(Seq<char>, Seq<char>)>, Fault>(arg_pairs(out)),
            arg_pairs(out).len() <= MAX_ARGS,
        decreases ws.len() - i,
    {
        let ghost n = i - start;
        proof {
            assert(ts.take(n + 1).drop_last() == ts.take(n));
            assert(ts.take(n + 1).last() == ws[i as int]@);
        }
        match make_arg(&ws[i]) {
            Err(e) => {
                proof {
                    lemma_args_err_sticks(ts, n + 1);
                }
                return Err(e);
            },
            Ok(a) => {
                if push_arg(&mut out, a).is_err() {
                    proof {
                        lemma_args_err_sticks(ts, n + 1);
                    }
                    return Err(Error::TooManyArgs);
                }
            },
        }
        i += 1;
    }
    proof {
        assert(ts.take(i - start) == ts);
    }
    Ok(out)
}

/// The command name of an empty line.
fn default_name() -> (r: heapless::String<24>)
    ensures
        name_text(r) == seq!['h', 'e', 'l', 'p'],
{
    let mut cmd = empty_name();
    proof {
        lemma_text_width_push(Seq::empty(), 'h');
        lemma_text_width_push(seq!['h'], 'e');
        lemma_text_width_push(seq!['h', 'e'], 'l');
        assert(Seq::<char>::empty().push('h') == seq!['h']);
        assert(seq!['h'].push('e') == seq!['h', 'e']);
        assert(seq!['h', 'e'].push('l') == seq!['h', 'e', 'l']);
        assert(seq!['h', 'e', 'l'].push('p') == seq!['h', 'e', 'l', 'p']);
    }
    let _ = push_name(&mut cmd, 'h');
    let _ = push_name(&mut cmd, 'e');
    let _ = push_name(&mut cmd, 'l');
    let _ = push_name(&mut cmd, 'p');
    cmd
}

/// Parses a line that holds only arguments, `param` or `param=value` tokens
/// separated by whitespace.
pub fn parse(input: &str) -> (r: Result<heapless::Vec<Argument, 5>, Error>)
    ensures
        match parse_args_spec(input@) {
            Ok(a) => r is Ok && arg_pairs(r->Ok_0) == a,
            Err(f) => r is Err && reports(r->Err_0, f),
        },
{
    let out = normalize(input)?;
    let ws = split_words(&out);
    proof {
        assert(texts(ws@).skip(0) == texts(ws@));
    }
    collect_args(&ws, 0)
}

impl ParsedCommand {
    /// Parses a whole command line: a command name (`help` when the line is
    /// empty) followed by its arguments.
    pub fn parse(input: &str) -> (r: Result<ParsedCommand, Error>)
        ensures
            match parse_spec(input@) {
                Ok(c) => r is Ok && r->Ok_0@ == c,
                Err(f) => r is Err && reports(r->Err_0, f),
            },
    {
        let out = normalize(input)?;
        let ws = split_words(&out);
        let ghost dv = texts(ws@);
        if ws.len() == 0 {
            let cmd = default_name();
            let args = empty_args();
            return Ok(ParsedCommand { cmd, args });
        }
        let first = &ws[0];
        let ghost w0 = first@;
        proof {
            assert(dv[0] == w0);
        }
        let mut cmd = empty_name();
        let mut j: usize = 0;
        while j < first.len()
            invariant
                w0 == first@,
                ws.len() > 0,
                dv == texts(ws@),
                dv[0] == w0,
                line_words(input@) == Ok::<Seq<Seq<char>>, Fault>(dv),
                j <= first.len(),
                name_text(cmd) == w0.take(j as int),
                text_width(w0.take(j as int)) <= NAME_CAPACITY,
            decreases first.len() - j,
        {
            proof {
                assert(w0.take(j as int).push(w0[j as int]) == w0.take(j + 1));
                lemma_text_width_push(w0.take(j as int), w0[j as int]);
            }
            if push_name(&mut cmd, first[j]).is_err() {
                proof {
                    lemma_width_monotone(w0, j + 1, w0.len() as int);
                    assert(w0.take(w0.len() as int) == w0);
                }
                return Err(Error::CommandTooLong);
            }
            j += 1;
        }
        proof {
            assert(w0.take(j as int) == w0);
            assert(dv.skip(1) == dv.drop_first());
        }
        let args = collect_args(&ws, 1)?;
        Ok(ParsedCommand { cmd, args })
    }
}


// ------------------------------------------------------------------------
// Round trip of a quoted value
// ------------------------------------------------------------------------

/// A character of a command or parameter name that the first pass keeps as it is.
pub open spec fn is_name_char(c: char) -> bool {
    ('a' <= c && c <= 'z') || ('0' <= c && c <= '9') || c == '_'
}

/// A character that a quoted value may hold and get back unchanged.
pub open spec fn is_value_char(c: char) -> bool {
    c != '"' && c != ESCAPE && c != CR && c != SEPARATOR && (c == ' ' || !is_blank(c))
}

/// The line `name param="value"`.
pub open spec fn quoted_line(name: Seq<char>, param: Seq<char>, value: Seq<char>) -> Seq<char> {
    name + seq![' '] + param + seq!['=', '"'] + value + seq!['"']
}

/// A value with its spaces replaced by the separator, as inside quotes.
pub open spec fn hide_spaces(v: Seq<char>) -> Seq<char> {
    v.map_values(|c: char| if c == ' ' { SEPARATOR } else { c })
}

/// The first pass from a given state over more characters.
pub open spec fn scan_from(st: Scan, s: Seq<char>) -> Scan
    decreases s.len(),
{
    if s.len() == 0 {
        st
    } else {
        scan_step(scan_from(st, s.drop_last()), s.last())
    }
}

/// Word splitting from a given state over more characters.
pub open spec fn split_from(st: (Seq<Seq<char>>, Seq<char>), s: Seq<char>) -> (Seq<Seq<char>>, Seq<char>)
    decreases s.len(),
{
    if s.len() == 0 {
        st
    } else {
        let (done, cur) = split_from(st, s.drop_last());
        if is_blank(s.last()) {
            if cur.len() > 0 {
                (done.push(cur), Seq::empty())
            } else {
                (done, Seq::empty())
            }
        } else {
            (done, cur.push(s.last()))
        }
    }
}

proof fn lemma_width_concat(a: Seq<char>, b: Seq<char>)
    ensures
        text_width(a + b) == text_width(a) + text_width(b),
    decreases b.len(),
{
    if b.len() > 0 {
        lemma_width_concat(a, b.drop_last());
        assert((a + b).drop_last() == a + b.drop_last());
    } else {
        assert(a + b == a);
    }
}

proof fn lemma_scan_concat(a: Seq<char>, b: Seq<char>)
    ensures
        scan(a + b) == scan_from(scan(a), b),
    decreases b.len(),
{
    if b.len() > 0 {
        lemma_scan_concat(a, b.drop_last());
        assert((a + b).drop_last() == a + b.drop_last());
    } else {
        assert(a + b == a);
    }
}

proof fn lemma_split_concat(a: Seq<char>, b: Seq<char>)
    ensures
        split_state(a + b) == split_from(split_state(a), b),
    decreases b.len(),
{
    if b.len() > 0 {
        lemma_split_concat(a, b.drop_last());
        assert((a + b).drop_last() == a + b.drop_last());
    } else {
        assert(a + b == a);
    }
}

proof fn lemma_scan_plain(st: Scan, s: Seq<char>)
    requires
        !st.full,
        !st.in_quotes,
        !st.escaped,
        forall|i: int| 0 <= i < s.len() ==> #[trigger] s[i] != '"' && s[i] != CR && lower(s[i]) == s[i],
        text_width(st.out) + text_width(s) <= LINE_CAPACITY,
    ensures
        scan_from(st, s) == (Scan { out: st.out + s, in_quotes: false, escaped: false, full: false }),
    decreases s.len(),
{
    if s.len() > 0 {
        let c = s.last();
        assert(s[s.len() - 1] == c);
        lemma_scan_plain(st, s.drop_last());
        lemma_width_concat(st.out, s.drop_last());
        assert(st.out + s.drop_last() + seq![c] == st.out + s);
        assert((st.out + s.drop_last()).push(c) == st.out + s);
    } else {
        assert(st.out + s == st.out);
    }
}

proof fn lemma_hide_spaces_width(v: Seq<char>)
    ensures
        text_width(hide_spaces(v)) == text_width(v),
        hide_spaces(v).len() == v.len(),
    decreases v.len(),
{
    if v.len() > 0 {
        lemma_hide_spaces_width(v.drop_last());
        assert(hide_spaces(v).drop_last() == hide_spaces(v.drop_last()));
    }
}

proof fn lemma_scan_quoted(st: Scan, s: Seq<char>)
    requires
        !st.full,
        st.in_quotes,
        !st.escaped,
        forall|i: int| 0 <= i < s.len() ==> #[trigger] is_value_char(s[i]),
        text_width(st.out) + text_width(s) <= LINE_CAPACITY,
    ensures
        scan_from(st, s) == (Scan { out: st.out + hide_spaces(s), in_quotes: true, escaped: false, full: false }),
    decreases s.len(),
{
    if s.len() > 0 {
        let c = s.last();
        assert(is_value_char(s[s.len() - 1]));
        lemma_scan_quoted(st, s.drop_last());
        lemma_hide_spaces_width(s.drop_last());
        lemma_width_concat(st.out, hide_spaces(s.drop_last()));
        assert(hide_spaces(s) == hide_spaces(s.drop_last()).push(if c == ' ' { SEPARATOR } else { c }));
        assert((st.out + hide_spaces(s.drop_last())).push(if c == ' ' { SEPARATOR } else { c }) == st.out
            + hide_spaces(s));
    } else {
        assert(st.out + hide_spaces(s) == st.out);
    }
}

proof fn lemma_split_word(st: (Seq<Seq<char>>, Seq<char>), s: Seq<char>)
    requires
        forall|i: int| 0 <= i < s.len() ==> !is_blank(#[trigger] s[i]),
    ensures
        split_from(st, s) == (st.0, st.1 + s),
    decreases s.len(),
{
    if s.len() > 0 {
        assert(!is_blank(s[s.len() - 1]));
        lemma_split_word(st, s.drop_last());
        assert((st.1 + s.drop_last()).push(s.last()) == st.1 + s);
    } else {
        assert(st.1 + s == st.1);
    }
}

#[verifier::rlimit(50)]
proof fn lemma_quoted_line_words(name: Seq<char>, param: Seq<char>, value: Seq<char>)
    requires
        name.len() > 0,
        param.len() > 0,
        value.len() > 0,
        forall|i: int| 0 <= i < name.len() ==> is_name_char(#[trigger] name[i]),
        forall|i: int| 0 <= i < param.len() ==> is_name_char(#[trigger] param[i]),
        forall|i: int| 0 <= i < value.len() ==> is_value_char(#[trigger] value[i]),
        value.last() != '=',
        text_width(name) <= NAME_CAPACITY,
        text_width(param) <= PARAM_CAPACITY,
        text_width(value) <= VALUE_CAPACITY,
        text_width(name) + text_width(param) + text_width(value) + 2 <= LINE_CAPACITY,
    ensures
        line_words(quoted_line(name, param, value)) == Ok::<Seq<Seq<char>>, Fault>(
            seq![name, param + seq!['='] + hide_spaces(value)],
        ),
{
    let head = name + seq![' '] + param + seq!['='];
    assert forall|i: int| 0 <= i < head.len() implies #[trigger] head[i] != '"' && head[i] != CR
        && lower(head[i]) == head[i] by {
        if i < name.len() {
            assert(head[i] == name[i]);
            assert(is_name_char(name[i]));
        } else if i == name.len() {
        } else if i < name.len() + 1 + param.len() {
            assert(head[i] == param[i - name.len() - 1]);
            assert(is_name_char(param[i - name.len() - 1]));
        }
    }
    // widths of the pieces
    lemma_width_concat(name, seq![' ']);
    lemma_width_concat(name + seq![' '], param);
    lemma_width_concat(name + seq![' '] + param, seq!['=']);
    lemma_text_width_push(Seq::empty(), ' ');
    lemma_text_width_push(Seq::empty(), '=');
    assert(Seq::<char>::empty().push(' ') == seq![' ']);
    assert(Seq::<char>::empty().push('=') == seq!['=']);
    assert(text_width(head) == text_width(name) + text_width(param) + 2);
    // first pass over the unquoted head
    lemma_scan_concat(Seq::empty(), head);
    assert(Seq::<char>::empty() + head == head);
    lemma_scan_plain(scan_start(), head);
    let s1 = scan(head);
    assert(s1 == Scan { out: head, in_quotes: false, escaped: false, full: false });
    // opening quote
    let q1 = head.push('"');
    assert(q1.drop_last() == head);
    let s2 = scan(q1);
    assert(s2 == Scan { out: head, in_quotes: true, escaped: false, full: false });
    // the quoted value
    lemma_scan_concat(q1, value);
    lemma_scan_quoted(s2, value);
    let s3 = scan(q1 + value);
    assert(s3 == Scan { out: head + hide_spaces(value), in_quotes: true, escaped: false, full: false });
    // closing quote
    let line = (q1 + value).push('"');
    assert(line == quoted_line(name, param, value));
    assert(line.drop_last() == q1 + value);
    let out = head + hide_spaces(value);
    assert(scan(line) == Scan { out, in_quotes: false, escaped: false, full: false });
    assert(line_words(line) == Ok::<Seq<Seq<char>>, Fault>(words(out)));
    // the words
    let tok = param + seq!['='] + hide_spaces(value);
    lemma_hide_spaces_width(value);
    assert(out == name + seq![' '] + tok);
    assert forall|i: int| 0 <= i < name.len() implies !is_blank(#[trigger] name[i]) by {
        assert(is_name_char(name[i]));
    }
    assert forall|i: int| 0 <= i < tok.len() implies !is_blank(#[trigger] tok[i]) by {
        if i < param.len() {
            assert(tok[i] == param[i]);
            assert(is_name_char(param[i]));
        } else if i > param.len() {
            let k = i - param.len() - 1;
            assert(tok[i] == hide_spaces(value)[k]);
            assert(is_value_char(value[k]));
        }
    }
    lemma_split_concat(Seq::empty(), name);
    assert(Seq::<char>::empty() + name == name);
    lemma_split_word((Seq::empty(), Seq::empty()), name);
    let nb = name.push(' ');
    assert(nb.drop_last() == name);
    assert(split_state(nb) == (seq![name], Seq::<char>::empty()));
    lemma_split_concat(nb, tok);
    lemma_split_word((seq![name], Seq::<char>::empty()), tok);
    assert(Seq::<char>::empty() + tok == tok);
    assert(nb + tok == out);
    assert(words(out) == seq![name, tok]);
}

#[verifier::rlimit(50)]
proof fn lemma_quoted_arg(param: Seq<char>, value: Seq<char>)
    requires
        param.len() > 0,
        value.len() > 0,
        forall|i: int| 0 <= i < param.len() ==> is_name_char(#[trigger] param[i]),
        forall|i: int| 0 <= i < value.len() ==> is_value_char(#[trigger] value[i]),
        value.last() != '=',
        text_width(param) <= PARAM_CAPACITY,
        text_width(value) <= VALUE_CAPACITY,
    ensures
        arg_of(param + seq!['='] + hide_spaces(value)) == Ok::<(Seq<char>, Seq<char>), Fault>(
            (param, value),
        ),
{
    let tok = param + seq!['='] + hide_spaces(value);
    lemma_hide_spaces_width(value);
    assert(tok[0] == param[0]);
    assert(is_name_char(param[0]));
    assert(tok.last() == hide_spaces(value).last());
    assert(is_value_char(value[value.len() - 1]));
    let k = param.len() as int;
    assert(tok[k] == '=');
    assert forall|j: int| 0 <= j < k implies tok[j] != '=' by {
        assert(tok[j] == param[j]);
        assert(is_name_char(param[j]));
    }
    let c = choose|m: int| 0 <= m < tok.len() && tok[m] == '=' && forall|j: int| 0 <= j < m ==> tok[j] != '=';
    assert(0 <= c < tok.len() && tok[c] == '=' && forall|j: int| 0 <= j < c ==> tok[j] != '=');
    if c < k {
        assert(tok[c] == param[c]);
        assert(is_name_char(param[c]));
    }
    if c > k {
        assert(tok[k] != '=');
    }
    assert(first_equals(tok) == Some(k));
    assert(tok.take(k) == param);
    assert(tok.skip(k + 1) == hide_spaces(value));
    assert(restore(hide_spaces(value)) == value) by {
        assert forall|i: int| 0 <= i < value.len() implies restore(hide_spaces(value))[i] == value[i] by {
            assert(is_value_char(value[i]));
        }
        assert(restore(hide_spaces(value)) =~= value);
    }
    assert(arg_of(tok) == Ok::<(Seq<char>, Seq<char>), Fault>((param, value)));
}

/// Quoting a value keeps it whole: for a command name and a parameter name
/// written in lowercase letters, digits and underscores, and any value
/// without quotes, backslashes, line breaks, tabs or the internal separator
/// (spaces allowed) that does not end in `=`, the line `name param="value"`
/// parses back to that name with the single argument `(param, value)`, as
/// long as the parts fit their capacities.
#[verifier::rlimit(100)]
pub proof fn lemma_quoted_value_round_trip(name: Seq<char>, param: Seq<char>, value: Seq<char>)
    requires
        name.len() > 0,
        param.len() > 0,
        value.len() > 0,
        forall|i: int| 0 <= i < name.len() ==> is_name_char(#[trigger] name[i]),
        forall|i: int| 0 <= i < param.len() ==> is_name_char(#[trigger] param[i]),
        forall|i: int| 0 <= i < value.len() ==> is_value_char(#[trigger] value[i]),
        value.last() != '=',
        text_width(name) <= NAME_CAPACITY,
        text_width(param) <= PARAM_CAPACITY,
        text_width(value) <= VALUE_CAPACITY,
        text_width(name) + text_width(param) + text_width(value) + 2 <= LINE_CAPACITY,
    ensures
        parse_spec(quoted_line(name, param, value)) == Ok::<
            (Seq<char>, Seq<(Seq<char>, Seq<char>)>),
            Fault,
        >((name, seq![(param, value)])),
{
    let tok = param + seq!['='] + hide_spaces(value);
    lemma_quoted_line_words(name, param, value);
    lemma_quoted_arg(param, value);
    let ws = seq![name, tok];
    assert(ws.drop_first() == seq![tok]);
    assert(ws[0] == name);
    lemma_single_arg(tok, param, value);
    let line = quoted_line(name, param, value);
    assert(line_words(line) == Ok::<Seq<Seq<char>>, Fault>(ws));
    assert(text_width(ws[0]) <= NAME_CAPACITY);
}

proof fn lemma_single_arg(tok: Seq<char>, param: Seq<char>, value: Seq<char>)
    requires
        arg_of(tok) == Ok::<(Seq<char>, Seq<char>), Fault>((param, value)),
    ensures
        args_of(seq![tok]) == Ok::<Seq<(Seq<char>, Seq<char>)>, Fault>(seq![(param, value)]),
{
    let one = seq![tok];
    assert(one.drop_last() == Seq::<Seq<char>>::empty());
    assert(args_of(Seq::<Seq<char>>::empty()) == Ok::<Seq<(Seq<char>, Seq<char>)>, Fault>(Seq::empty()));
    assert(one.last() == tok);
    assert(one.len() == 1);
    assert(Seq::<(Seq<char>, Seq<char>)>::empty().push((param, value)) == seq![(param, value)]);
}

proof fn lemma_plain_arg(name: Seq<char>)
    requires
        name.len() > 0,
        forall|i: int| 0 <= i < name.len() ==> is_name_char(#[trigger] name[i]),
        text_width(name) <= PARAM_CAPACITY,
    ensures
        arg_of(name) == Ok::<(Seq<char>, Seq<char>), Fault>((name, Seq::empty())),
{
    assert(is_name_char(name[0]));
    assert(is_name_char(name[name.len() - 1]));
    assert(!exists|k: int| 0 <= k < name.len() && name[k] == '=') by {
        assert forall|k: int| 0 <= k < name.len() implies name[k] != '=' by {
            assert(is_name_char(name[k]));
        }
    }
    assert(text_width(Seq::<char>::empty()) == 0);
}

/// The same round trip through the argument-only parser: the line
/// `word param="value"` gives the flag `word` with an empty value, then the
/// argument `(param, value)`.
#[verifier::rlimit(100)]
pub proof fn lemma_quoted_value_round_trip_args(word: Seq<char>, param: Seq<char>, value: Seq<char>)
    requires
        word.len() > 0,
        param.len() > 0,
        value.len() > 0,
        forall|i: int| 0 <= i < word.len() ==> is_name_char(#[trigger] word[i]),
        forall|i: int| 0 <= i < param.len() ==> is_name_char(#[trigger] param[i]),
        forall|i: int| 0 <= i < value.len() ==> is_value_char(#[trigger] value[i]),
        value.last() != '=',
        text_width(word) <= PARAM_CAPACITY,
        text_width(param) <= PARAM_CAPACITY,
        text_width(value) <= VALUE_CAPACITY,
        text_width(word) + text_width(param) + text_width(value) + 2 <= LINE_CAPACITY,
    ensures
        parse_args_spec(quoted_line(word, param, value)) == Ok::<Seq<(Seq<char>, Seq<char>)>, Fault>(
            seq![(word, Seq::<char>::empty()), (param, value)],
        ),
{
    let tok = param + seq!['='] + hide_spaces(value);
    lemma_quoted_line_words(word, param, value);
    lemma_quoted_arg(param, value);
    lemma_plain_arg(word);
    lemma_single_arg(word, word, Seq::empty());
    let ws = seq![word, tok];
    assert(ws.drop_last() == seq![word]);
    assert(ws.last() == tok);
    assert(seq![(word, Seq::<char>::empty())].push((param, value)) == seq![
        (word, Seq::<char>::empty()),
        (param, value),
    ]);
}

} // verus!
