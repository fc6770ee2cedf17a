//! The debugger's command table.

use vstd::prelude::*;

verus! {

/// The commands, each with its help line.
pub open spec fn command_table() -> Seq<(&'static str, &'static str)> {
    seq![
        ("help", "Display help"),
        ("quit", "Exit rdbg"),
        ("load", "Load a file"),
        ("run", "Execute a file"),
        ("execute", "Execute a file"),
        ("break", "Set a breakpoint"),
        ("continue", "Continue execution"),
        ("hexdump", "Dump Hex"),
        ("registers", "Show register information for inferior"),
        ("symbols", "Show symbols for inferior"),
        ("disas", "Disassemble a function"),
        ("pcode", "Show pcode for a function"),
        ("memory", "Show memory map of inferior"),
        ("context", "Show context for current inferior"),
    ]
}

/// The command table, in the order that help lists it.
pub fn rdbg_commands() -> (r: Vec<(&'static str, &'static str)>)
    ensures
        r@ == command_table(),
{
    let r = vec![
        ("help", "Display help"),
        ("quit", "Exit rdbg"),
        ("load", "Load a file"),
        ("run", "Execute a file"),
        ("execute", "Execute a file"),
        ("break", "Set a breakpoint"),
        ("continue", "Continue execution"),
        ("hexdump", "Dump Hex"),
        ("registers", "Show register information for inferior"),
        ("symbols", "Show symbols for inferior"),
        ("disas", "Disassemble a function"),
        ("pcode", "Show pcode for a function"),
        ("memory", "Show memory map of inferior"),
        ("context", "Show context for current inferior"),
    ];
    assert(r@ =~= command_table());
    r
}

} // verus!
