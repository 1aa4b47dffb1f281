//! A command line after the grammar has accepted it, as far as the shell
//! reads it: which arguments occurred, what values they had, and which
//! subcommand followed.

use vstd::prelude::*;
use crate::text::{same_text, views};

verus! {

/// The arguments of one command of the line.
#[derive(Debug)]
pub struct ParsedArgs {
    /// The names of the flags and options that occurred.
    pub present: Vec<String>,
    /// The options that had a value, by name, each with its first value.
    pub values: Vec<(String, String)>,
    /// The subcommand that followed, if one did.
    pub subcommand: Option<Box<ParsedCommand>>,
}

/// A subcommand of the line: its name and its own arguments.
#[derive(Debug)]
pub struct ParsedCommand {
    pub name: String,
    pub matches: ParsedArgs,
}

/// The value that the first pair called `name` has.
pub open spec fn lookup(pairs: Seq<(String, String)>, name: Seq<char>) -> Option<Seq<char>>
    decreases pairs.len(),
{
    if pairs.len() == 0 {
        None
    } else if pairs[0].0@ == name {
        Some(pairs[0].1@)
    } else {
        lookup(pairs.drop_first(), name)
    }
}

/// The names of the subcommands of a line, outermost first.
pub open spec fn command_chain(matches: ParsedArgs) -> Seq<Seq<char>>
    decreases matches,
{
    match matches.subcommand {
        None => Seq::empty(),
        Some(command) => seq![command.name@] + command_chain(command.matches),
    }
}

/// The text of an optional string.
pub open spec fn text_of(found: Option<&String>) -> Option<Seq<char>> {
    match found {
        None => None,
        Some(text) => Some(text@),
    }
}

impl ParsedArgs {
    /// Whether the flag or option called `name` occurred.
    pub open spec fn has(self, name: Seq<char>) -> bool {
        views(self.present@).contains(name)
    }

    /// The value of the option called `name`, if it occurred with one.
    pub open spec fn value(self, name: Seq<char>) -> Option<Seq<char>> {
        lookup(self.values@, name)
    }

    /// Arguments of a command that was given none.
    pub fn new() -> (matches: ParsedArgs)
        ensures
            matches.present@.len() == 0,
            matches.values@.len() == 0,
            matches.subcommand is None,
    {
        ParsedArgs { present: Vec::new(), values: Vec::new(), subcommand: None }
    }

    /// Whether the flag or option called `name` occurred.
    pub fn is_present(&self, name: &str) -> (yes: bool)
        ensures
            yes == self.has(name@),
    {
        let mut i: usize = 0;
        while i < self.present.len()
            invariant
                i <= self.present.len(),
                forall|k: int| 0 <= k < i ==> views(self.present@)[k] != name@,
            decreases self.present.len() - i,
        {
            if same_text(self.present[i].as_str(), name) {
                assert(views(self.present@)[i as int] == name@);
                return true;
            }
            i = i + 1;
        }
        false
    }

    /// The value of the option called `name`, if it occurred with one.
    pub fn value_of(&self, name: &str) -> (found: Option<&String>)
        ensures
            text_of(found) == self.value(name@),
    {
        let mut i: usize = 0;
        assert(self.values@.skip(0) == self.values@);
        while i < self.values.len()
            invariant
                i <= self.values.len(),
                lookup(self.values@, name@) == lookup(self.values@.skip(i as int), name@),
            decreases self.values.len() - i,
        {
            let ghost rest = self.values@.skip(i as int);
            assert(rest[0] == self.values@[i as int]);
            assert(rest.drop_first() == self.values@.skip(i + 1));
            if same_text(self.values[i].0.as_str(), name) {
                return Some(&self.values[i].1);
            }
            i = i + 1;
        }
        None
    }
}

/// The names of the subcommands of a line, outermost first.
pub fn get_command_chain(matches: &ParsedArgs) -> (names: Vec<String>)
    ensures
        views(names@) == command_chain(*matches),
{
    let mut names: Vec<String> = Vec::new();
    let mut current: &ParsedArgs = matches;
    assert(views(names@) == Seq::<Seq<char>>::empty());
    loop
        invariant
            command_chain(*matches) == views(names@) + command_chain(*current),
        decreases current,
    {
        match &current.subcommand {
            None => {
                assert(views(names@) + command_chain(*current) == views(names@));
                return names;
            },
            Some(command) => {
                let ghost before = views(names@);
                names.push(command.name.clone());
                assert(views(names@) == before.push(command.name@));
                assert(before + (seq![command.name@] + command_chain(command.matches)) == views(
                    names@,
                ) + command_chain(command.matches));
                current = &command.matches;
            },
        }
    }
}

} // verus!
