//! Reading a command line: which command it names, its arguments, and
//! breakpoint addresses written in hexadecimal.

use vstd::prelude::*;
use crate::interactive::text::{
    skip_space, skip_word, split_first_word, str_equal, trimmed_end,
};

verus! {

/// A command of the interactive shell.
#[derive(Clone, Copy, Debug, PartialEq, Eq, Structural)]
pub enum Command {
    Test,
    Run,
    Context,
    Continue,
    Break,
    Registers,
    Memory,
    Env,
    Pcode,
    Help,
    ListCommands,
    ListVariables,
    History,
    SaveHistory,
    Quit,
    SetVariable,
    /// A word that names no command, or an empty line.
    Unknown,
}

/// The command that the word `w` names.
pub open spec fn command_of(w: Seq<char>) -> Command {
    if w == "test"@ {
        Command::Test
    } else if w == "run"@ {
        Command::Run
    } else if w == "context"@ {
        Command::Context
    } else if w == "continue"@ {
        Command::Continue
    } else if w == "break"@ {
        Command::Break
    } else if w == "registers"@ {
        Command::Registers
    } else if w == "memory"@ {
        Command::Memory
    } else if w == "env"@ {
        Command::Env
    } else if w == "pcode"@ {
        Command::Pcode
    } else if w == "help"@ {
        Command::Help
    } else if w == "list-commands"@ {
        Command::ListCommands
    } else if w == "list-variables"@ {
        Command::ListVariables
    } else if w == "history"@ {
        Command::History
    } else if w == "save-history"@ {
        Command::SaveHistory
    } else if w == "quit"@ {
        Command::Quit
    } else if w == "set"@ {
        Command::SetVariable
    } else {
        Command::Unknown
    }
}

/// The command named by `w`.
pub fn command_named(w: &str) -> (r: Command)
    ensures
        r == command_of(w@),
{
    if str_equal(w, "test") {
        Command::Test
    } else if str_equal(w, "run") {
        Command::Run
    } else if str_equal(w, "context") {
        Command::Context
    } else if str_equal(w, "continue") {
        Command::Continue
    } else if str_equal(w, "break") {
        Command::Break
    } else if str_equal(w, "registers") {
        Command::Registers
    } else if str_equal(w, "memory") {
        Command::Memory
    } else if str_equal(w, "env") {
        Command::Env
    } else if str_equal(w, "pcode") {
        Command::Pcode
    } else if str_equal(w, "help") {
        Command::Help
    } else if str_equal(w, "list-commands") {
        Command::ListCommands
    } else if str_equal(w, "list-variables") {
        Command::ListVariables
    } else if str_equal(w, "history") {
        Command::History
    } else if str_equal(w, "save-history") {
        Command::SaveHistory
    } else if str_equal(w, "quit") {
        Command::Quit
    } else if str_equal(w, "set") {
        Command::SetVariable
    } else {
        Command::Unknown
    }
}

/// Reads a command line: the command its first word names, and the rest
/// of the line without surrounding spaces.
pub fn parse_command(line: &str) -> (r: (Command, &str))
    ensures
        ({
            let i = skip_space(line@, 0);
            let j = skip_word(line@, i);
            let k = skip_space(line@, j);
            let e = trimmed_end(line@, line@.len() as int);
            &&& r.0 == command_of(line@.subrange(i, j))
            &&& r.1@ == if k < e {
                line@.subrange(k, e)
            } else {
                Seq::<char>::empty()
            }
        }),
{
    let (w, args) = split_first_word(line);
    (command_named(w), args)
}

/// The value of a hexadecimal digit.
pub open spec fn hex_digit(c: char) -> Option<u64> {
    if '0' <= c <= '9' {
        Some((c as u32 - '0' as u32) as u64)
    } else if 'a' <= c <= 'f' {
        Some((c as u32 - 'a' as u32 + 10) as u64)
    } else if 'A' <= c <= 'F' {
        Some((c as u32 - 'A' as u32 + 10) as u64)
    } else {
        None
    }
}

/// The number that the hexadecimal digits `d` write.
pub open spec fn hex_value(d: Seq<char>) -> int
    decreases d.len(),
{
    if d.len() == 0 {
        0
    } else {
        hex_value(d.drop_last()) * 16 + hex_digit(d.last())->0
    }
}

/// The digits of an address: the text without a leading `0x` or `0X`.
pub open spec fn address_digits(s: Seq<char>) -> Seq<char> {
    if s.len() >= 2 && s[0] == '0' && (s[1] == 'x' || s[1] == 'X') {
        s.subrange(2, s.len() as int)
    } else {
        s
    }
}

/// The address that `s` writes in hexadecimal, with or without `0x`: at
/// least one digit, only digits, and a value that fits in 64 bits.
pub open spec fn address_of(s: Seq<char>) -> Option<u64> {
    let d = address_digits(s);
    if d.len() > 0 && (forall|i: int| 0 <= i < d.len() ==> (#[trigger] hex_digit(d[i])) is Some)
        && hex_value(d) <= u64::MAX {
        Some(hex_value(d) as u64)
    } else {
        None
    }
}

fn digit_value(c: char) -> (r: Option<u64>)
    ensures
        r == hex_digit(c),
{
    if '0' <= c && c <= '9' {
        Some((c as u32 - '0' as u32) as u64)
    } else if 'a' <= c && c <= 'f' {
        Some((c as u32 - 'a' as u32 + 10) as u64)
    } else if 'A' <= c && c <= 'F' {
        Some((c as u32 - 'A' as u32 + 10) as u64)
    } else {
        None
    }
}

proof fn lemma_hex_value_grows(d: Seq<char>, i: int, j: int)
    requires
        0 <= i <= j <= d.len(),
        forall|k: int| 0 <= k < d.len() ==> (#[trigger] hex_digit(d[k])) is Some,
    ensures
        0 <= hex_value(d.subrange(0, i)) <= hex_value(d.subrange(0, j)),
    decreases j - i,
{
    lemma_hex_value_nonneg(d.subrange(0, i));
    if i < j {
        lemma_hex_value_grows(d, i, j - 1);
        assert(d.subrange(0, j).drop_last() =~= d.subrange(0, j - 1));
        assert(hex_digit(d[j - 1]) is Some);
        lemma_hex_value_nonneg(d.subrange(0, j - 1));
    }
}

proof fn lemma_hex_value_nonneg(d: Seq<char>)
    ensures
        0 <= hex_value(d),
    decreases d.len(),
{
    if d.len() > 0 {
        lemma_hex_value_nonneg(d.drop_last());
    }
}

/// Reads a breakpoint address written in hexadecimal.
pub fn parse_address(s: &str) -> (r: Option<u64>)
    ensures
        r == address_of(s@),
{
    let n = s.unicode_len();
    let mut start: usize = 0;
    if n >= 2 && s.get_char(0) == '0' && (s.get_char(1) == 'x' || s.get_char(1) == 'X') {
        start = 2;
    }
    let ghost d = address_digits(s@);
    proof {
        assert(d =~= s@.subrange(start as int, n as int));
    }
    if start >= n {
        assert(d.len() == 0);
        return None;
    }
    let mut v: u64 = 0;
    let mut i: usize = start;
    while i < n
        invariant
            d == s@.subrange(start as int, n as int),
            d == address_digits(s@),
            n == s@.len(),
            start <= i <= n,
            forall|k: int| 0 <= k < i - start ==> (#[trigger] hex_digit(d[k])) is Some,
            v == hex_value(d.subrange(0, i - start)),
        decreases n - i,
    {
        let c = s.get_char(i);
        let ghost m = i - start;
        proof {
            assert(d[m] == c);
            assert(d.subrange(0, m + 1).drop_last() =~= d.subrange(0, m));
        }
        match digit_value(c) {
            None => {
                proof {
                    assert(hex_digit(d[m]) is None);
                }
                return None;
            },
            Some(x) => {
                if v > (u64::MAX - x) / 16 {
                    proof {
                        assert(hex_value(d.subrange(0, m + 1)) > u64::MAX);
                        let ok = forall|k: int| 0 <= k < d.len() ==> (#[trigger] hex_digit(d[k])) is Some;
                        if ok {
                            lemma_hex_value_grows(d, m + 1, d.len() as int);
                            assert(d.subrange(0, d.len() as int) =~= d);
                        }
                    }
                    return None;
                }
                v = v * 16 + x;
            },
        }
        i = i + 1;
    }
    proof {
        assert(d.subrange(0, n - start) =~= d);
    }
    Some(v)
}

/// Reads the breakpoint addresses `words`, in order; on failure, the index
/// of the first word that is not an address.
pub fn parse_addresses(words: &Vec<&str>) -> (r: Result<Vec<u64>, usize>)
    ensures
        match r {
            Ok(v) => v@.len() == words@.len() && forall|k: int|
                0 <= k < words@.len() ==> address_of(words@[k]@) == Some(#[trigger] v@[k]),
            Err(i) => i < words@.len() && address_of(words@[i as int]@) is None && forall|k: int|
                0 <= k < i ==> (#[trigger] address_of(words@[k]@)) is Some,
        },
{
    let mut v: Vec<u64> = Vec::new();
    let mut i: usize = 0;
    while i < words.len()
        invariant
            i <= words@.len(),
            v@.len() == i,
            forall|k: int| 0 <= k < i ==> address_of(words@[k]@) == Some(#[trigger] v@[k]),
            forall|k: int| 0 <= k < i ==> (#[trigger] address_of(words@[k]@)) is Some,
        decreases words@.len() - i,
    {
        match parse_address(words[i]) {
            None => {
                return Err(i);
            },
            Some(a) => {
                v.push(a);
            },
        }
        i = i + 1;
    }
    Ok(v)
}

} // verus!
