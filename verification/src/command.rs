//! The user-facing command grammar.
//!
//! A line of input is split into whitespace-separated tokens; the first
//! token names the command and the rest are its arguments.  Hexadecimal and
//! decimal number parsing for breakpoint targets lives here too.

use vstd::prelude::*;

verus! {

use crate::strutil::str_eq;

/// A parsed user command.
pub enum Command {
    /// Start (or restart) the target, passing the given arguments.
    Run(Vec<String>),
    /// Resume a stopped inferior.
    Continue,
    /// Walk and report the inferior's call stack.
    Backtrace,
    /// Set a breakpoint; the payload is the raw target token
    /// (`*HEX`, a decimal line number, or a function name).
    Breakpoint(String),
    /// Leave the debugger.
    Quit,
}

pub open spec fn is_run_word(w: Seq<char>) -> bool {
    w == "run"@ || w == "r"@
}

pub open spec fn is_continue_word(w: Seq<char>) -> bool {
    w == "continue"@ || w == "cont"@ || w == "c"@
}

pub open spec fn is_backtrace_word(w: Seq<char>) -> bool {
    w == "backtrace"@ || w == "back"@ || w == "bt"@
}

pub open spec fn is_break_word(w: Seq<char>) -> bool {
    w == "break"@ || w == "b"@
}

pub open spec fn is_quit_word(w: Seq<char>) -> bool {
    w == "quit"@ || w == "q"@
}

impl Command {
    /// Parse a tokenized input line.  The first token picks the command;
    /// `run` keeps the remaining tokens as the inferior's arguments;
    /// `break` wants exactly its target token after it.  Anything else is
    /// unrecognized and yields `None`.
    pub fn from_tokens(tokens: &Vec<String>) -> (r: Option<Command>)
        ensures
            ({
                let ts = tokens@.map_values(|t: String| t@);
                match r {
                    Option::Some(Command::Run(args)) => ts.len() >= 1 && is_run_word(ts[0])
                        && args@.map_values(|t: String| t@) =~= ts.drop_first(),
                    Option::Some(Command::Continue) => ts.len() >= 1 && is_continue_word(ts[0]),
                    Option::Some(Command::Backtrace) => ts.len() >= 1 && is_backtrace_word(ts[0]),
                    Option::Some(Command::Breakpoint(t)) => ts.len() >= 2 && is_break_word(ts[0])
                        && t@ == ts[1],
                    Option::Some(Command::Quit) => ts.len() >= 1 && is_quit_word(ts[0]),
                    Option::None => ts.len() == 0 || (!is_run_word(ts[0]) && !is_continue_word(
                        ts[0],
                    ) && !is_backtrace_word(ts[0]) && !is_quit_word(ts[0]) && !(is_break_word(ts[0])
                        && ts.len() >= 2)),
                }
            }),
    {
        if tokens.len() == 0 {
            return None;
        }
        let head = tokens[0].as_str();
        proof {
            assert(tokens@.map_values(|t: String| t@)[0] == head@);
        }
        if str_eq(head, "run") || str_eq(head, "r") {
            let mut args: Vec<String> = Vec::new();
            let mut i: usize = 1;
            while i < tokens.len()
                invariant
                    1 <= i <= tokens@.len(),
                    args@.len() == i - 1,
                    forall|j: int| 0 <= j < args@.len() ==> #[trigger] args@[j]@ == tokens@[j + 1]@,
                decreases tokens@.len() - i,
            {
                args.push(tokens[i].clone());
                i = i + 1;
            }
            proof {
                let ts = tokens@.map_values(|t: String| t@);
                assert forall|j: int| 0 <= j < args@.len() implies args@.map_values(
                    |t: String| t@,
                )[j] == ts.drop_first()[j] by {
                    assert(args@[j]@ == tokens@[j + 1]@);
                }
                assert(args@.map_values(|t: String| t@) =~= ts.drop_first());
            }
            Some(Command::Run(args))
        } else if str_eq(head, "continue") || str_eq(head, "cont") || str_eq(head, "c") {
            Some(Command::Continue)
        } else if str_eq(head, "backtrace") || str_eq(head, "back") || str_eq(head, "bt") {
            Some(Command::Backtrace)
        } else if str_eq(head, "break") || str_eq(head, "b") {
            if tokens.len() >= 2 {
                Some(Command::Breakpoint(tokens[1].clone()))
            } else {
                proof {
                    reveal_strlit("break");
                    reveal_strlit("b");
                    reveal_strlit("quit");
                    reveal_strlit("q");
                    assert("b"@[0] != "q"@[0]);
                    assert(!is_quit_word(head@));
                }
                None
            }
        } else if str_eq(head, "quit") || str_eq(head, "q") {
            Some(Command::Quit)
        } else {
            None
        }
    }
}

/// The whitespace that separates tokens on an input line: the Unicode
/// White_Space characters, as an input line is conventionally split.
pub open spec fn is_space_char(c: char) -> bool {
    let u = c as u32;
    (9 <= u <= 13) || u == 32 || u == 0x85 || u == 0xA0 || u == 0x1680 || (0x2000 <= u <= 0x200A)
        || u == 0x2028 || u == 0x2029 || u == 0x202F || u == 0x205F || u == 0x3000
}

/// Length of the leading run of non-whitespace characters.
pub open spec fn token_run_len(s: Seq<char>) -> nat
    decreases s.len(),
{
    if s.len() == 0 || is_space_char(s[0]) {
        0
    } else {
        1 + token_run_len(s.drop_first())
    }
}

/// The whitespace-separated tokens of a line: each token is a maximal run
/// of non-whitespace characters, in order of appearance.
pub open spec fn spec_tokens(s: Seq<char>) -> Seq<Seq<char>>
    decreases s.len(),
{
    if s.len() == 0 {
        Seq::empty()
    } else if is_space_char(s[0]) {
        spec_tokens(s.drop_first())
    } else {
        let k = token_run_len(s) as int;
        if 1 <= k <= s.len() {
            seq![s.subrange(0, k)] + spec_tokens(s.subrange(k, s.len() as int))
        } else {
            Seq::empty()
        }
    }
}

/// A run of `k` non-whitespace characters bounded by the end of the string
/// or a whitespace character has `token_run_len` exactly `k`.
proof fn lemma_token_run_len_eq(s: Seq<char>, k: int)
    requires
        0 <= k <= s.len(),
        forall|t: int| 0 <= t < k ==> !is_space_char(#[trigger] s[t]),
        k == s.len() || is_space_char(s[k]),
    ensures
        token_run_len(s) == k,
    decreases k,
{
    if k == 0 {
    } else {
        let d = s.drop_first();
        assert(forall|t: int| 0 <= t < k - 1 ==> d[t] == s[t + 1]);
        lemma_token_run_len_eq(d, k - 1);
    }
}

fn is_space(c: char) -> (r: bool)
    ensures
        r == is_space_char(c),
{
    let u = c as u32;
    (9 <= u && u <= 13) || u == 32 || u == 0x85 || u == 0xA0 || u == 0x1680 || (0x2000 <= u && u
        <= 0x200A) || u == 0x2028 || u == 0x2029 || u == 0x202F || u == 0x205F || u == 0x3000
}

/// Split an input line into its whitespace-separated tokens.
pub fn tokenize(line: &str) -> (r: Vec<String>)
    ensures
        r@.map_values(|t: String| t@) =~= spec_tokens(line@),
{
    let n = line.unicode_len();
    let mut toks: Vec<String> = Vec::new();
    let mut i: usize = 0;
    proof {
        assert(line@.subrange(0, n as int) =~= line@);
    }
    while i < n
        invariant
            n == line@.len(),
            0 <= i <= n,
            toks@.map_values(|t: String| t@) + spec_tokens(line@.subrange(i as int, n as int))
                =~= spec_tokens(line@),
        decreases n - i,
    {
        let c = line.get_char(i);
        if is_space(c) {
            proof {
                assert(line@.subrange(i as int, n as int).drop_first() =~= line@.subrange(
                    i + 1,
                    n as int,
                ));
            }
            i = i + 1;
        } else {
            let start = i;
            let mut j: usize = i + 1;
            while j < n && !is_space(line.get_char(j))
                invariant
                    n == line@.len(),
                    i < j <= n,
                    forall|t: int| i <= t < j ==> !is_space_char(#[trigger] line@[t]),
                decreases n - j,
            {
                j = j + 1;
            }
            let tok = line.substring_char(start, j).to_owned();
            proof {
                let rest = line@.subrange(i as int, n as int);
                assert(forall|t: int| 0 <= t < rest.len() ==> rest[t] == line@[t + i]);
                lemma_token_run_len_eq(rest, j - i);
                assert(rest.subrange(0, j - i) =~= line@.subrange(i as int, j as int));
                assert(rest.subrange(j - i, rest.len() as int) =~= line@.subrange(
                    j as int,
                    n as int,
                ));
                assert(spec_tokens(rest) =~= seq![line@.subrange(i as int, j as int)]
                    + spec_tokens(line@.subrange(j as int, n as int)));
                assert(tok@ == line@.subrange(i as int, j as int));
            }
            toks.push(tok);
            i = j;
        }
    }
    proof {
        assert(line@.subrange(n as int, n as int) =~= Seq::<char>::empty());
        assert(toks@.map_values(|t: String| t@) =~= spec_tokens(line@));
    }
    toks
}

pub open spec fn is_dec_digit(c: char) -> bool {
    48 <= c as u32 <= 57
}

pub open spec fn is_hex_digit(c: char) -> bool {
    is_dec_digit(c) || (97 <= c as u32 <= 102) || (65 <= c as u32 <= 70)
}

/// Numeric value of one hexadecimal digit (`0-9`, `a-f`, `A-F`).
pub open spec fn hex_digit_val(c: char) -> nat
    recommends
        is_hex_digit(c),
{
    if is_dec_digit(c) {
        (c as u32 - 48) as nat
    } else if 97 <= c as u32 <= 102 {
        (c as u32 - 97 + 10) as nat
    } else if 65 <= c as u32 <= 70 {
        (c as u32 - 65 + 10) as nat
    } else {
        0
    }
}

/// The number the digit string denotes, most significant digit first.
pub open spec fn hex_num(s: Seq<char>) -> nat
    decreases s.len(),
{
    if s.len() == 0 {
        0
    } else {
        hex_num(s.drop_last()) * 16 + hex_digit_val(s.last())
    }
}

pub open spec fn all_hex(s: Seq<char>) -> bool {
    forall|i: int| 0 <= i < s.len() ==> is_hex_digit(#[trigger] s[i])
}

/// What parsing `s` as an unsigned hexadecimal number yields: the value if
/// `s` is a non-empty string of hex digits whose value fits in a machine
/// word, and nothing otherwise.
pub open spec fn spec_parse_hex_digits(s: Seq<char>) -> Option<usize> {
    if s.len() > 0 && all_hex(s) && hex_num(s) <= usize::MAX {
        Some(hex_num(s) as usize)
    } else {
        None
    }
}

/// A longer digit string never denotes a smaller number: the value of a
/// prefix is at most the value of the whole.
proof fn lemma_hex_prefix_le(s: Seq<char>, i: int)
    requires
        0 <= i <= s.len(),
    ensures
        hex_num(s.subrange(0, i)) <= hex_num(s),
    decreases s.len() - i,
{
    if i == s.len() {
        assert(s.subrange(0, i) =~= s);
    } else {
        let p = s.subrange(0, i);
        let q = s.subrange(0, i + 1);
        assert(q.drop_last() =~= p);
        assert(hex_num(q) == hex_num(p) * 16 + hex_digit_val(q.last()));
        assert(hex_num(p) * 16 >= hex_num(p)) by (nonlinear_arith);
        lemma_hex_prefix_le(s, i + 1);
    }
}

/// Parse a non-empty string of hexadecimal digits into a machine word,
/// most significant digit first.  Anything that is not such a string, or
/// denotes a number too large for a word, yields `None`.
pub fn parse_hex_digits(s: &str) -> (r: Option<usize>)
    ensures
        r == spec_parse_hex_digits(s@),
{
    let n = s.unicode_len();
    if n == 0 {
        return None;
    }
    let mut acc: usize = 0;
    let mut i: usize = 0;
    while i < n
        invariant
            n == s@.len(),
            0 <= i <= n,
            all_hex(s@.subrange(0, i as int)),
            acc == hex_num(s@.subrange(0, i as int)),
        decreases n - i,
    {
        let c = s.get_char(i);
        let u = c as u32;
        let d: usize = if 48 <= u && u <= 57 {
            (u - 48) as usize
        } else if 97 <= u && u <= 102 {
            (u - 97 + 10) as usize
        } else if 65 <= u && u <= 70 {
            (u - 65 + 10) as usize
        } else {
            return None;
        };
        proof {
            assert(is_hex_digit(c) && d == hex_digit_val(c));
            assert(s@.subrange(0, i + 1).drop_last() =~= s@.subrange(0, i as int));
            assert(s@.subrange(0, i + 1).last() == s@[i as int]);
        }
        if acc > usize::MAX / 16 || 16 * acc > usize::MAX - d {
            proof {
                lemma_hex_prefix_le(s@, i + 1);
            }
            return None;
        }
        acc = 16 * acc + d;
        i = i + 1;
    }
    proof {
        assert(s@.subrange(0, n as int) =~= s@);
    }
    Some(acc)
}

/// The number a decimal digit string denotes.
pub open spec fn dec_num(s: Seq<char>) -> nat
    decreases s.len(),
{
    if s.len() == 0 {
        0
    } else {
        dec_num(s.drop_last()) * 10 + (s.last() as u32 - 48) as nat
    }
}

pub open spec fn all_dec(s: Seq<char>) -> bool {
    forall|i: int| 0 <= i < s.len() ==> is_dec_digit(#[trigger] s[i])
}

/// What parsing `s` as an unsigned decimal number yields.
pub open spec fn spec_parse_dec(s: Seq<char>) -> Option<usize> {
    if s.len() > 0 && all_dec(s) && dec_num(s) <= usize::MAX {
        Some(dec_num(s) as usize)
    } else {
        None
    }
}

proof fn lemma_dec_prefix_le(s: Seq<char>, i: int)
    requires
        0 <= i <= s.len(),
    ensures
        dec_num(s.subrange(0, i)) <= dec_num(s),
    decreases s.len() - i,
{
    if i == s.len() {
        assert(s.subrange(0, i) =~= s);
    } else {
        let p = s.subrange(0, i);
        let q = s.subrange(0, i + 1);
        assert(q.drop_last() =~= p);
        assert(dec_num(q) == dec_num(p) * 10 + (q.last() as u32 - 48) as nat);
        assert(dec_num(p) * 10 >= dec_num(p)) by (nonlinear_arith);
        lemma_dec_prefix_le(s, i + 1);
    }
}

/// Parse a non-empty string of decimal digits into a machine word.
pub fn parse_dec(s: &str) -> (r: Option<usize>)
    ensures
        r == spec_parse_dec(s@),
{
    let n = s.unicode_len();
    if n == 0 {
        return None;
    }
    let mut acc: usize = 0;
    let mut i: usize = 0;
    while i < n
        invariant
            n == s@.len(),
            0 <= i <= n,
            all_dec(s@.subrange(0, i as int)),
            acc == dec_num(s@.subrange(0, i as int)),
        decreases n - i,
    {
        let c = s.get_char(i);
        let u = c as u32;
        if !(48 <= u && u <= 57) {
            return None;
        }
        let d: usize = (u - 48) as usize;
        proof {
            assert(s@.subrange(0, i + 1).drop_last() =~= s@.subrange(0, i as int));
            assert(s@.subrange(0, i + 1).last() == s@[i as int]);
        }
        if acc > usize::MAX / 10 || 10 * acc > usize::MAX - d {
            proof {
                lemma_dec_prefix_le(s@, i + 1);
            }
            return None;
        }
        acc = 10 * acc + d;
        i = i + 1;
    }
    proof {
        assert(s@.subrange(0, n as int) =~= s@);
    }
    Some(acc)
}

/// What parsing a breakpoint address token yields: an optional `0x` or
/// `0X` prefix followed by hexadecimal digits.
pub open spec fn spec_parse_address(s: Seq<char>) -> Option<usize> {
    if s.len() >= 2 && s[0] == '0' && (s[1] == 'x' || s[1] == 'X') {
        spec_parse_hex_digits(s.subrange(2, s.len() as int))
    } else {
        spec_parse_hex_digits(s)
    }
}

/// Parse a hexadecimal address, tolerating a leading `0x` or `0X`.
pub fn parse_address(addr: &str) -> (r: Option<usize>)
    ensures
        r == spec_parse_address(addr@),
{
    let n = addr.unicode_len();
    if n >= 2 && addr.get_char(0) == '0' && (addr.get_char(1) == 'x' || addr.get_char(1) == 'X') {
        let rest = addr.substring_char(2, n);
        parse_hex_digits(rest)
    } else {
        parse_hex_digits(addr)
    }
}

} // verus!
