//! The protection list: paths that a sweep never deletes.

use vstd::prelude::*;
use vstd::hash_set::StringHashSet;
use crate::text::{find_line_end, lines, lines_from, string_of_range, to_chars, trim, trim_bounds};

verus! {

/// The paths that a list file names: each of its lines, without the white
/// space at either end. A blank line names the empty path; a path that is
/// named twice is one path.
pub open spec fn paths_in(text: Seq<char>) -> Set<Seq<char>> {
    lines(text).map_values(|line: Seq<char>| trim(line)).to_set()
}

/// A set of paths that are exempt from deletion. A path is on the list when
/// its text equals an entry's text, character for character: nothing is
/// normalised.
pub struct Blacklist {
    entries: StringHashSet,
}

impl View for Blacklist {
    type V = Set<Seq<char>>;

    closed spec fn view(&self) -> Set<Seq<char>> {
        self.entries@
    }
}

impl Blacklist {
    /// A list with no path on it.
    pub fn new() -> (list: Blacklist)
        ensures
            list@ == Set::<Seq<char>>::empty(),
    {
        Blacklist { entries: StringHashSet::new() }
    }

    /// Whether `path` is on the list.
    pub fn contains(&self, path: &str) -> (listed: bool)
        ensures
            listed == self@.contains(path@),
    {
        self.entries.contains(path)
    }

    /// Puts `path` on the list. Returns whether it was new.
    pub fn insert(&mut self, path: &str) -> (fresh: bool)
        ensures
            final(self)@ == old(self)@.insert(path@),
            fresh == !old(self)@.contains(path@),
    {
        self.entries.insert(path.to_owned())
    }

    /// The number of paths on the list.
    pub fn len(&self) -> (n: usize)
        ensures
            n == self@.len(),
    {
        self.entries.len()
    }
}

/// Reads a protection list from the text of a list file, which names one
/// path on each line. White space around a path is dropped.
pub fn load_do_not_delete_set(text: &str) -> (list: Blacklist)
    ensures
        list@ == paths_in(text@),
{
    let chars = to_chars(text);
    let mut list = Blacklist::new();
    let mut at: usize = 0;
    let ghost mut done: Seq<Seq<char>> = Seq::empty();
    assert(done.map_values(|line: Seq<char>| trim(line)).to_set() =~= Set::<Seq<char>>::empty());
    while at < chars.len()
        invariant
            chars@ == text@,
            lines(chars@) == done + lines_from(chars@, at as int),
            list@ == done.map_values(|line: Seq<char>| trim(line)).to_set(),
        decreases chars@.len() + 1 - at,
    {
        let end = find_line_end(&chars, at);
        let kept = trim_bounds(&chars, at, end);
        let path = string_of_range(&chars, kept.0, kept.1);
        proof {
            let line = chars@.subrange(at as int, end as int);
            let f = |line: Seq<char>| trim(line);
            assert(done.push(line).map_values(f) =~= done.map_values(f).push(trim(line)));
            done.map_values(f).lemma_push_to_set_commute(trim(line));
            assert(done + lines_from(chars@, at as int) =~= done.push(line) + lines_from(
                chars@,
                end + 1,
            ));
            done = done.push(line);
        }
        list.entries.insert(path);
        if end == chars.len() {
            at = end;
        } else {
            at = end + 1;
        }
    }
    assert(done + lines_from(chars@, at as int) =~= done);
    list
}

} // verus!
