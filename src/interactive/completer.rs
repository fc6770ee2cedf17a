//! Tab completion of command names, and of variable names after `get` or
//! `set`.

use vstd::prelude::*;
use crate::interactive::commands::{command_table, rdbg_commands};
use crate::interactive::text::{
    find_nonspace, find_space, first_word, has_second_word, starts_with, str_equal,
};

verus! {

/// The names among `names` that begin with `word`, in order.
pub open spec fn matching(names: Seq<Seq<char>>, word: Seq<char>) -> Seq<Seq<char>>
    decreases names.len(),
{
    if names.len() == 0 {
        Seq::empty()
    } else {
        let rest = matching(names.drop_last(), word);
        if word.is_prefix_of(names.last()) {
            rest.push(names.last())
        } else {
            rest
        }
    }
}

/// The command names.
pub open spec fn command_names() -> Seq<Seq<char>> {
    command_table().map_values(|p: (&'static str, &'static str)| p.0@)
}

/// The completions of `word`, given the text `before` it on the line and
/// the shell's variable names: command names while no word precedes it,
/// variable names right after `get` or `set`, and nothing otherwise.
pub open spec fn completions(word: Seq<char>, before: Seq<char>, vars: Seq<Seq<char>>) -> Option<
    Seq<Seq<char>>,
> {
    match first_word(before) {
        None => Some(matching(command_names(), word)),
        Some(w) => if (w == "get"@ || w == "set"@) && !has_second_word(before) {
            Some(matching(vars, word))
        } else {
            None
        },
    }
}

/// The strings' characters.
pub open spec fn views(v: Seq<String>) -> Seq<Seq<char>> {
    v.map_values(|s: String| s@)
}

/// Completes command names and variable names.
pub struct DbgCompleter;

fn matching_commands(word: &str) -> (r: Vec<String>)
    ensures
        views(r@) == matching(command_names(), word@),
{
    let table = rdbg_commands();
    let ghost names = command_names();
    let mut out: Vec<String> = Vec::new();
    let mut i: usize = 0;
    while i < table.len()
        invariant
            table@ == command_table(),
            names == command_names(),
            names.len() == table@.len(),
            i <= table@.len(),
            views(out@) == matching(names.subrange(0, i as int), word@),
        decreases table@.len() - i,
    {
        let name = table[i].0;
        proof {
            assert(names[i as int] == name@);
            assert(names.subrange(0, i + 1).drop_last() =~= names.subrange(0, i as int));
        }
        if starts_with(name, word) {
            let ghost before = out@;
            out.push(name.to_owned());
            proof {
                assert(views(out@) =~= views(before).push(name@));
            }
        }
        i = i + 1;
    }
    proof {
        assert(names.subrange(0, table@.len() as int) =~= names);
    }
    out
}

fn matching_variables(word: &str, vars: &Vec<String>) -> (r: Vec<String>)
    ensures
        views(r@) == matching(views(vars@), word@),
{
    let ghost names = views(vars@);
    let mut out: Vec<String> = Vec::new();
    let mut i: usize = 0;
    while i < vars.len()
        invariant
            names == views(vars@),
            i <= vars@.len(),
            views(out@) == matching(names.subrange(0, i as int), word@),
        decreases vars@.len() - i,
    {
        let name = vars[i].as_str();
        proof {
            assert(names[i as int] == name@);
            assert(names.subrange(0, i + 1).drop_last() =~= names.subrange(0, i as int));
        }
        if starts_with(name, word) {
            let ghost before = out@;
            out.push(vars[i].clone());
            proof {
                assert(views(out@) =~= views(before).push(name@));
            }
        }
        i = i + 1;
    }
    proof {
        assert(names.subrange(0, vars@.len() as int) =~= names);
    }
    out
}

impl DbgCompleter {
    /// The completions of `word`, where `before` is the line up to the
    /// word and `variables` the shell's variable names.
    pub fn complete(&self, word: &str, before: &str, variables: &Vec<String>) -> (r: Option<
        Vec<String>,
    >)
        ensures
            match completions(word@, before@, views(variables@)) {
                None => r is None,
                Some(c) => r matches Some(v) && views(v@) == c,
            },
    {
        let i = find_nonspace(before, 0);
        if i >= before.unicode_len() {
            return Some(matching_commands(word));
        }
        let j = find_space(before, i);
        let w = before.substring_char(i, j);
        if str_equal(w, "get") || str_equal(w, "set") {
            let k = find_nonspace(before, j);
            if k >= before.unicode_len() {
                Some(matching_variables(word, variables))
            } else {
                None
            }
        } else {
            None
        }
    }
}

} // verus!
