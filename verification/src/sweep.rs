//! The deleting sweep: what happens to each entry that a traversal meets.

use vstd::prelude::*;
use crate::blacklist::Blacklist;
use crate::clock::Cutoff;
use crate::entry::{Entry, EntryKind};

verus! {

/// What a sweep does with one entry.
#[derive(Clone, Copy, Debug, PartialEq, Eq, Structural)]
pub enum Action {
    /// Leave the entry as it is.
    Keep,
    /// Delete the file.
    Delete,
    /// List the directory and sweep what is in it.
    Descend,
}

/// Whether a sweep deletes `entry`: it is a regular file, its path is not
/// protected, and it is known to have been modified strictly before the cutoff.
pub open spec fn is_swept(entry: Entry, cutoff: Cutoff, protected: Set<Seq<char>>) -> bool {
    &&& entry.is_file()
    &&& !entry.is_listed(protected)
    &&& entry.modified() matches Some(when)
    &&& when.instant() < cutoff@
}

/// The action of a sweep on `entry`.
pub open spec fn action_of(entry: Entry, cutoff: Cutoff, protected: Set<Seq<char>>) -> Action {
    if is_swept(entry, cutoff, protected) {
        Action::Delete
    } else if entry.kind is Directory {
        Action::Descend
    } else {
        Action::Keep
    }
}

/// Decides what a sweep does with one entry.
///
/// A regular file is deleted when its path is not on the protection list and
/// it was last modified strictly before the cutoff; the list is consulted
/// first. A directory is descended into, whether or not its own path is
/// protected. Everything else is left alone: links and other special entries,
/// entries whose metadata could not be read, and files with no known
/// modification time.
pub fn deletion_action(entry: &Entry, cutoff: &Cutoff, blacklist: &Blacklist) -> (action: Action)
    ensures
        action == action_of(*entry, *cutoff, blacklist@),
        action is Delete <==> is_swept(*entry, *cutoff, blacklist@),
        action is Descend <==> entry.kind is Directory,
{
    match entry.kind {
        EntryKind::File { modified, size: _ } => {
            let listed = match &entry.path {
                Some(path) => blacklist.contains(path.as_str()),
                None => false,
            };
            if listed {
                Action::Keep
            } else {
                match modified {
                    Some(when) => {
                        if cutoff.expires(&when) {
                            Action::Delete
                        } else {
                            Action::Keep
                        }
                    },
                    None => Action::Keep,
                }
            }
        },
        EntryKind::Directory => Action::Descend,
        EntryKind::Other => Action::Keep,
        EntryKind::Unreadable => Action::Keep,
    }
}

/// Decides what a sweep does with each entry of a listing. The actions come
/// back in the order of the entries.
pub fn plan_deletions(listing: &Vec<Entry>, cutoff: &Cutoff, blacklist: &Blacklist) -> (plan: Vec<
    Action,
>)
    ensures
        plan@.len() == listing@.len(),
        forall|i: int|
            0 <= i < listing@.len() ==> plan@[i] == action_of(listing@[i], *cutoff, blacklist@),
        // An unprotected file that was modified strictly before the cutoff goes.
        forall|i: int|
            0 <= i < listing@.len() && listing@[i].is_file() && !listing@[i].is_listed(blacklist@)
                && (listing@[i].modified() matches Some(when) && when.instant() < cutoff@)
                ==> plan@[i] is Delete,
        // A protected path stays, however old it is.
        forall|i: int|
            0 <= i < listing@.len() && listing@[i].is_listed(blacklist@) ==> !(plan@[i]
                is Delete),
        // A file modified at or after the cutoff stays.
        forall|i: int|
            0 <= i < listing@.len() && (listing@[i].modified() matches Some(when) && when.instant()
                >= cutoff@) ==> !(plan@[i] is Delete),
{
    let mut plan: Vec<Action> = Vec::new();
    let mut i: usize = 0;
    while i < listing.len()
        invariant
            i <= listing@.len(),
            plan@.len() == i,
            forall|k: int| 0 <= k < i ==> plan@[k] == action_of(listing@[k], *cutoff, blacklist@),
        decreases listing@.len() - i,
    {
        let action = deletion_action(&listing[i], cutoff, blacklist);
        plan.push(action);
        i += 1;
    }
    plan
}

/// What a sweep of `listing` leaves behind: the entries that it does not delete.
pub open spec fn survivors(listing: Seq<Entry>, cutoff: Cutoff, protected: Set<Seq<char>>) -> Seq<
    Entry,
> {
    listing.filter(|entry: Entry| !is_swept(entry, cutoff, protected))
}

/// A second sweep with the same cutoff and the same protection list finds
/// nothing to delete: whatever the first one left behind is protected, not
/// yet past the cutoff, or not a file whose age is known.
pub proof fn lemma_second_sweep_deletes_nothing(
    listing: Seq<Entry>,
    cutoff: Cutoff,
    protected: Set<Seq<char>>,
)
    ensures
        forall|i: int|
            0 <= i < survivors(listing, cutoff, protected).len() ==> !(action_of(
                #[trigger] survivors(listing, cutoff, protected)[i],
                cutoff,
                protected,
            ) is Delete),
        survivors(survivors(listing, cutoff, protected), cutoff, protected) == survivors(
            listing,
            cutoff,
            protected,
        ),
{
    let spared = |entry: Entry| !is_swept(entry, cutoff, protected);
    let left = listing.filter(spared);
    assert forall|i: int| 0 <= i < left.len() implies spared(#[trigger] left[i]) by {
        listing.lemma_filter_pred(spared, i);
    }
    lemma_filter_all(left, spared);
}

/// A filter keeps a sequence whose elements all pass it as it is.
proof fn lemma_filter_all<A>(s: Seq<A>, pred: spec_fn(A) -> bool)
    requires
        forall|i: int| 0 <= i < s.len() ==> pred(#[trigger] s[i]),
    ensures
        s.filter(pred) == s,
    decreases s.len(),
{
    reveal(Seq::filter);
    if s.len() > 0 {
        lemma_filter_all(s.drop_last(), pred);
        assert(s.drop_last().push(s.last()) =~= s);
    }
}

/// The entries that a sweep leaves behind are those of the listing that it
/// does not delete, in the order of the listing: every entry stays that is
/// protected, that was modified at or after the cutoff, or that is no file
/// whose age is known, and no entry stays that is an unprotected file
/// modified strictly before the cutoff.
pub proof fn lemma_survivors(
    listing: Seq<Entry>,
    cutoff: Cutoff,
    protected: Set<Seq<char>>,
    entry: Entry,
)
    ensures
        survivors(listing, cutoff, protected).contains(entry) <==> (listing.contains(entry)
            && !is_swept(entry, cutoff, protected)),
        listing.contains(entry) && entry.is_listed(protected) ==> survivors(
            listing,
            cutoff,
            protected,
        ).contains(entry),
        listing.contains(entry) && (entry.modified() matches Some(when) && when.instant()
            >= cutoff@) ==> survivors(listing, cutoff, protected).contains(entry),
        entry.is_file() && !entry.is_listed(protected) && (entry.modified() matches Some(when)
            && when.instant() < cutoff@) ==> !survivors(listing, cutoff, protected).contains(entry),
{
    let spared = |entry: Entry| !is_swept(entry, cutoff, protected);
    let left = listing.filter(spared);
    if left.contains(entry) {
        listing.lemma_filter_contains_rev(spared, entry);
        let j = choose|j: int| 0 <= j < left.len() && left[j] == entry;
        listing.lemma_filter_pred(spared, j);
    }
    if listing.contains(entry) && !is_swept(entry, cutoff, protected) {
        let i = choose|i: int| 0 <= i < listing.len() && listing[i] == entry;
        listing.lemma_filter_contains(spared, i);
    }
}

} // verus!
