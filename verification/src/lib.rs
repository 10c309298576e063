//! Rules for tools that walk a directory tree and act on files by their
//! modification time: which files a sweep deletes, which paths a protection
//! list spares, and how file sizes add up per calendar month.
//!
//! The library never touches the file system. A caller lists directories and
//! reads metadata, hands each entry over as an [`entry::Entry`], and carries
//! out the action that comes back.

pub mod blacklist;
pub mod calendar;
pub mod clock;
pub mod decimal;
pub mod entry;
pub mod sizes;
pub mod sweep;
pub mod text;

pub use blacklist::{load_do_not_delete_set, Blacklist};
pub use calendar::Month;
pub use clock::{Cutoff, Timestamp};
pub use entry::{Entry, EntryKind};
pub use sizes::{report_line, MonthlySizes, Visit};
pub use sweep::{deletion_action, plan_deletions, Action};
