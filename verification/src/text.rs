//! Strings as sequences of characters: prefixes, substrings and case folding.

use vstd::prelude::*;

verus! {

/// The words of a list of strings, each as its sequence of characters.
pub open spec fn views(words: Seq<String>) -> Seq<Seq<char>> {
    Seq::new(words.len(), |i: int| words[i]@)
}

/// `needle` occurs in `hay` as a run of adjacent characters, starting at `at`.
pub open spec fn occurs_at(needle: Seq<char>, hay: Seq<char>, at: int) -> bool {
    &&& 0 <= at
    &&& at + needle.len() <= hay.len()
    &&& hay.subrange(at, at + needle.len()) == needle
}

/// `needle` occurs somewhere in `hay`.
pub open spec fn is_substring(needle: Seq<char>, hay: Seq<char>) -> bool {
    exists|at: int| occurs_at(needle, hay, at)
}

/// The result of `str::to_lowercase`, as a function of the characters given.
pub uninterp spec fn lowercase(s: Seq<char>) -> Seq<char>;

/// Calls `str::to_lowercase`, which maps every character to its lowercase
/// form by the Unicode tables, without regard to a locale. The result is
/// named, not described; of the empty string it is empty.
#[verifier::external_body]
pub(crate) fn to_lowercase(s: &str) -> (lower: String)
    ensures
        lower@ == lowercase(s@),
        s@.len() == 0 ==> lower@.len() == 0,
{
    s.to_lowercase()
}

/// Calls `String::push`, which appends one character to the string.
#[verifier::external_body]
pub(crate) fn push_char(s: &mut String, c: char)
    ensures
        final(s)@ == old(s)@.push(c),
{
    s.push(c)
}

/// Whether `word` is one of `list`.
pub fn contains_string(list: &Vec<String>, word: &String) -> (yes: bool)
    ensures
        yes == views(list@).contains(word@),
{
    let mut i: usize = 0;
    while i < list.len()
        invariant
            i <= list.len(),
            forall|k: int| 0 <= k < i ==> views(list@)[k] != word@,
        decreases list.len() - i,
    {
        if list[i] == *word {
            assert(views(list@)[i as int] == word@);
            return true;
        }
        i = i + 1;
    }
    false
}

/// The characters of a string, in order.
pub fn chars_of(s: &str) -> (chars: Vec<char>)
    ensures
        chars@ == s@,
{
    broadcast use vstd::string::group_string_axioms;

    let mut chars: Vec<char> = Vec::new();
    for c in it: s.chars()
        invariant
            it.seq() == s@,
            chars@ == s@.take(it.index() as int),
    {
        chars.push(c);
    }
    assert(s@.take(s@.len() as int) == s@);
    chars
}

/// Whether two strings hold the same characters.
pub fn same_text(left: &str, right: &str) -> (same: bool)
    ensures
        same == (left@ == right@),
{
    let a = chars_of(left);
    let b = chars_of(right);
    if a.len() != b.len() {
        return false;
    }
    let mut i: usize = 0;
    while i < a.len()
        invariant
            i <= a.len(),
            a.len() == b.len(),
            a@ == left@,
            b@ == right@,
            forall|k: int| 0 <= k < i ==> a@[k] == b@[k],
        decreases a.len() - i,
    {
        if a[i] != b[i] {
            return false;
        }
        i = i + 1;
    }
    assert(a@ == b@);
    true
}

/// Whether `word` begins with `prefix`, character for character.
pub fn starts_with(word: &Vec<char>, prefix: &Vec<char>) -> (yes: bool)
    ensures
        yes == prefix@.is_prefix_of(word@),
{
    if prefix.len() > word.len() {
        return false;
    }
    let mut i: usize = 0;
    while i < prefix.len()
        invariant
            i <= prefix.len() <= word.len(),
            word@.subrange(0, i as int) == prefix@.subrange(0, i as int),
        decreases prefix.len() - i,
    {
        if word[i] != prefix[i] {
            assert(word@.subrange(0, prefix.len() as int)[i as int] != prefix@[i as int]);
            return false;
        }
        assert(word@.subrange(0, i + 1) == word@.subrange(0, i as int).push(word@[i as int]));
        assert(prefix@.subrange(0, i + 1) == prefix@.subrange(0, i as int).push(prefix@[i as int]));
        i = i + 1;
    }
    assert(prefix@.subrange(0, prefix.len() as int) == prefix@);
    true
}

/// Whether `needle` occurs in `hay` at position `at`.
fn matches_at(needle: &Vec<char>, hay: &Vec<char>, at: usize) -> (yes: bool)
    requires
        at + needle.len() <= hay.len(),
    ensures
        yes == occurs_at(needle@, hay@, at as int),
{
    let mut i: usize = 0;
    while i < needle.len()
        invariant
            i <= needle.len(),
            at + needle.len() <= hay.len(),
            hay@.subrange(at as int, at + i) == needle@.subrange(0, i as int),
        decreases needle.len() - i,
    {
        if hay[at + i] != needle[i] {
            assert(hay@.subrange(at as int, at + needle.len())[i as int] != needle@[i as int]);
            return false;
        }
        assert(hay@.subrange(at as int, at + i + 1) == hay@.subrange(at as int, at + i).push(
            hay@[at + i],
        ));
        assert(needle@.subrange(0, i + 1) == needle@.subrange(0, i as int).push(needle@[i as int]));
        i = i + 1;
    }
    assert(needle@.subrange(0, needle.len() as int) == needle@);
    true
}

/// Whether `needle` occurs anywhere in `hay`. The empty needle occurs in
/// every string.
pub fn contains(hay: &Vec<char>, needle: &Vec<char>) -> (yes: bool)
    ensures
        yes == is_substring(needle@, hay@),
{
    if needle.len() > hay.len() {
        return false;
    }
    let last: usize = hay.len() - needle.len();
    let mut at: usize = 0;
    loop
        invariant
            last == hay.len() - needle.len(),
            at <= last,
            forall|k: int| 0 <= k < at ==> !occurs_at(needle@, hay@, k),
        decreases last - at,
    {
        if matches_at(needle, hay, at) {
            return true;
        }
        if at == last {
            return false;
        }
        at = at + 1;
    }
}

} // verus!
