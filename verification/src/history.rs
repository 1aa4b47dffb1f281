//! The lines entered so far, each kept once.

use vstd::prelude::*;
use crate::text::{contains_string, views};

verus! {

/// The history with `line` at its end, unless it holds the line already.
pub open spec fn appended(history: Seq<Seq<char>>, line: Seq<char>) -> Seq<Seq<char>> {
    if history.contains(line) {
        history
    } else {
        history.push(line)
    }
}

/// The history after each line of `lines` was appended in turn.
pub open spec fn appended_all(history: Seq<Seq<char>>, lines: Seq<Seq<char>>) -> Seq<Seq<char>>
    decreases lines.len(),
{
    if lines.len() == 0 {
        history
    } else {
        appended(appended_all(history, lines.drop_last()), lines.last())
    }
}

/// Appending a line that the history holds already leaves it as long as it
/// was, and appending any line leaves every line in it once.
pub proof fn lemma_known_line_keeps_count(history: Seq<Seq<char>>, line: Seq<char>)
    ensures
        history.contains(line) ==> appended(history, line).len() == history.len(),
        history.contains(line) ==> appended(history, line) == history,
        !history.contains(line) ==> appended(history, line).len() == history.len() + 1,
        appended(history, line).contains(line),
        appended(appended(history, line), line) == appended(history, line),
        history.no_duplicates() ==> appended(history, line).no_duplicates(),
{
    let after = appended(history, line);
    if !history.contains(line) {
        assert(after[after.len() - 1] == line);
    }
}

/// The lines entered so far, oldest first. No line is in it twice.
#[derive(Debug)]
pub struct History {
    entries: Vec<String>,
}

impl View for History {
    type V = Seq<Seq<char>>;

    closed spec fn view(&self) -> Seq<Seq<char>> {
        views(self.entries@)
    }
}

impl History {
    #[verifier::type_invariant]
    spec fn each_line_once(self) -> bool {
        views(self.entries@).no_duplicates()
    }

    /// A history without lines.
    pub fn new() -> (history: History)
        ensures
            history@.len() == 0,
    {
        History { entries: Vec::new() }
    }

    /// The history that holds `lines`, oldest first, each at its first place
    /// only.
    pub fn from_lines(lines: Vec<String>) -> (history: History)
        ensures
            history@ == appended_all(Seq::empty(), views(lines@)),
    {
        let mut history = History::new();
        let mut i: usize = 0;
        assert(views(lines@).take(0) == Seq::<Seq<char>>::empty());
        while i < lines.len()
            invariant
                i <= lines.len(),
                history@ == appended_all(Seq::empty(), views(lines@).take(i as int)),
            decreases lines.len() - i,
        {
            assert(views(lines@).take(i + 1).drop_last() == views(lines@).take(i as int));
            history.add_unique(lines[i].clone());
            i = i + 1;
        }
        assert(views(lines@).take(lines.len() as int) == views(lines@));
        history
    }

    /// The number of lines.
    pub fn len(&self) -> (count: usize)
        ensures
            count == self@.len(),
    {
        self.entries.len()
    }

    /// The lines, oldest first.
    pub fn entries(&self) -> (lines: &Vec<String>)
        ensures
            views(lines@) == self@,
            self@.no_duplicates(),
    {
        proof {
            use_type_invariant(self);
        }
        &self.entries
    }

    /// Whether `line` was entered before.
    pub fn contains(&self, line: &String) -> (yes: bool)
        ensures
            yes == self@.contains(line@),
    {
        contains_string(&self.entries, line)
    }

    /// Appends `line`, unless the history holds it already, and says whether
    /// it was appended.
    pub fn add_unique(&mut self, line: String) -> (added: bool)
        ensures
            final(self)@ == appended(old(self)@, line@),
            added == !old(self)@.contains(line@),
            old(self)@.contains(line@) ==> final(self)@.len() == old(self)@.len(),
    {
        proof {
            use_type_invariant(&*self);
        }
        if contains_string(&self.entries, &line) {
            return false;
        }
        let mut entries: Vec<String> = Vec::new();
        std::mem::swap(&mut entries, &mut self.entries);
        let ghost before = views(entries@);
        entries.push(line);
        assert(views(entries@) == before.push(line@));
        self.entries = entries;
        true
    }
}

} // verus!
