//! What a caller reports of one directory entry.

use vstd::prelude::*;
use crate::clock::Timestamp;

verus! {

/// What the metadata of a directory entry said it is.
#[derive(Clone, Copy, Debug)]
pub enum EntryKind {
    /// A regular file of `size` bytes. `modified` is `None` where the
    /// platform could not tell when the file was last modified.
    File { modified: Option<Timestamp>, size: u64 },
    /// A directory.
    Directory,
    /// Anything else, such as a symbolic link.
    Other,
    /// An entry whose metadata could not be read.
    Unreadable,
}

/// One entry of a directory listing.
#[derive(Clone, Debug)]
pub struct Entry {
    /// The entry's path as text, which is what the protection list is matched
    /// against; `None` for a path that is no text, which no list can name.
    pub path: Option<String>,
    pub kind: EntryKind,
}

impl Entry {
    /// Whether `protected` names the entry's path.
    pub open spec fn is_listed(self, protected: Set<Seq<char>>) -> bool {
        match self.path {
            Some(path) => protected.contains(path@),
            None => false,
        }
    }

    /// Whether the entry is a regular file.
    pub open spec fn is_file(self) -> bool {
        self.kind is File
    }

    /// When the entry was last modified, where it is a regular file and the
    /// time is known.
    pub open spec fn modified(self) -> Option<Timestamp> {
        match self.kind {
            EntryKind::File { modified, .. } => modified,
            _ => None,
        }
    }

    /// The number of bytes in the entry, where it is a regular file; 0 otherwise.
    pub open spec fn size(self) -> nat {
        match self.kind {
            EntryKind::File { size, .. } => size as nat,
            _ => 0,
        }
    }
}

} // verus!
