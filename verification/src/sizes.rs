//! File sizes added up per calendar month.

use vstd::prelude::*;
use dashmap::DashMap;
use std::collections::hash_map::RandomState;
use vstd::string::StringExecFns;
use crate::calendar::Month;
use crate::entry::{Entry, EntryKind};
use crate::decimal::{decimal, push_decimal};

verus! {

/// How the table keys a month: the year, then the month number.
pub type MonthKey = (i32, u32);

#[verifier::external_type_specification]
#[verifier::external_body]
#[verifier::reject_recursive_types(K)]
#[verifier::reject_recursive_types(V)]
#[verifier::reject_recursive_types(S)]
pub struct ExDashMap<K, V, S>(DashMap<K, V, S>);

/// What a table holds: the total for each key that is in it.
pub uninterp spec fn totals_of(table: DashMap<MonthKey, u64, RandomState>) -> Map<MonthKey, u64>;

/// Calls `DashMap::new`, which makes a table with nothing in it.
#[verifier::external_body]
fn table_new() -> (table: DashMap<MonthKey, u64, RandomState>)
    ensures
        totals_of(table) == (Map::<MonthKey, u64>::empty()),
{
    DashMap::new()
}

/// Calls `DashMap::get` and copies the value out: the total under `key`,
/// where the table holds one.
#[verifier::external_body]
fn table_get(table: &DashMap<MonthKey, u64, RandomState>, key: MonthKey) -> (total: Option<u64>)
    ensures
        total == (if totals_of(*table).contains_key(key) {
            Some(totals_of(*table)[key])
        } else {
            None
        }),
{
    match table.get(&key) {
        Some(total) => Some(*total),
        None => None,
    }
}

/// The sum of two sizes that fit together.
fn add_sizes(total: u64, size: u64) -> (sum: u64)
    requires
        total + size <= u64::MAX,
    ensures
        sum == total + size,
{
    total + size
}

/// Calls `DashMap::entry`, then `Entry::and_modify` and `Entry::or_insert`:
/// a key that the table holds gets `size` added to its total, a key that it
/// does not hold comes in with `size` as its total. No other key changes.
#[verifier::external_body]
fn table_add(table: &mut DashMap<MonthKey, u64, RandomState>, key: MonthKey, size: u64)
    requires
        totals_of(*old(table)).contains_key(key) ==> totals_of(*old(table))[key] + size
            <= u64::MAX,
    ensures
        totals_of(*final(table)) == totals_of(*old(table)).insert(
            key,
            if totals_of(*old(table)).contains_key(key) {
                (totals_of(*old(table))[key] + size) as u64
            } else {
                size
            },
        ),
    no_unwind
{
    table.entry(key).and_modify(|total| *total = add_sizes(*total, size)).or_insert(size);
}

/// Calls `DashMap::iter` and copies each key with its total out. Every key of
/// the table comes once, with the total that the table holds for it; the order
/// is the one in which the table happens to be walked.
#[verifier::external_body]
fn table_pairs(table: &DashMap<MonthKey, u64, RandomState>) -> (pairs: Vec<(MonthKey, u64)>)
    ensures
        (forall|i: int|
            0 <= i < pairs@.len() ==> totals_of(*table).contains_key(#[trigger] pairs@[i].0)
                && totals_of(*table)[pairs@[i].0] == pairs@[i].1),
        (forall|key: MonthKey| #[trigger]
            totals_of(*table).contains_key(key) ==> exists|i: int|
                0 <= i < pairs@.len() && #[trigger] pairs@[i].0 == key),
        (forall|i: int, j: int|
            0 <= i < j < pairs@.len() ==> #[trigger] pairs@[i].0 != #[trigger] pairs@[j].0),
{
    table.iter().map(|pair| (*pair.key(), *pair.value())).collect()
}

/// A line of the report: the month's first day, a colon, the total and the
/// word "bytes", as in "2024-03-01: 300 bytes".
pub open spec fn line_text(month: Month, total: u64) -> Seq<char> {
    month.label_text() + seq![':', ' '] + decimal(total as nat) + seq![' ', 'b', 'y', 't', 'e', 's']
}

/// A month with its total.
pub type Row = (Month, u64);

/// The row that a key of the table and its total stand for.
pub open spec fn row_of(pair: (MonthKey, u64)) -> Row {
    (Month { year: pair.0.0, month: pair.0.1 }, pair.1)
}

/// Whether each row's month comes before the months of the rows after it.
pub open spec fn ascending(rows: Seq<Row>) -> bool {
    forall|i: int, j: int|
        0 <= i < j < rows.len() ==> (#[trigger] rows[i]).0.precedes((#[trigger] rows[j]).0)
}

/// Whether `rows` lists `totals`: each month of `totals` once with its total,
/// and nothing else, the earlier month before the later one.
pub open spec fn lists(rows: Seq<Row>, totals: Map<Month, u64>) -> bool {
    &&& forall|i: int|
        0 <= i < rows.len() ==> totals.contains_key(#[trigger] rows[i].0) && totals[rows[i].0]
            == rows[i].1
    &&& forall|month: Month| #[trigger]
        totals.contains_key(month) ==> exists|i: int|
            0 <= i < rows.len() && #[trigger] rows[i].0 == month
    &&& ascending(rows)
}

/// Whether `lines` are the report lines of `rows`, in order.
pub open spec fn reports(lines: Seq<String>, rows: Seq<Row>) -> bool {
    &&& lines.len() == rows.len()
    &&& forall|i: int| 0 <= i < rows.len() ==> (#[trigger] lines[i])@ == line_text(rows[i].0, rows[i].1)
}

/// What counting does with one entry.
#[derive(Clone, Copy, Debug, PartialEq, Eq, Structural)]
pub enum Visit {
    /// Nothing to count: not a regular file, or a file whose month is not known.
    Skipped,
    /// A regular file, whose size was added to the total of its month.
    Counted,
    /// A regular file whose size no longer fits in the total of its month;
    /// nothing was added.
    Full,
    /// A directory, to be listed and counted in turn.
    Descend,
}

/// The month in which `entry` counts: the month in UTC of its last
/// modification, where it is a regular file and that month is known.
pub open spec fn entry_month(entry: Entry) -> Option<Month> {
    match entry.modified() {
        Some(when) => Month::of_spec(when),
        None => None,
    }
}

/// The total that `totals` holds for `month`, which is 0 where it holds none.
pub open spec fn total_in(totals: Map<Month, u64>, month: Month) -> nat {
    if totals.contains_key(month) {
        totals[month] as nat
    } else {
        0
    }
}

/// What counting does with `entry` when the totals so far are `totals`.
pub open spec fn visit_of(totals: Map<Month, u64>, entry: Entry) -> Visit {
    if entry.kind is Directory {
        Visit::Descend
    } else {
        match entry_month(entry) {
            Some(month) => if total_in(totals, month) + entry.size() <= u64::MAX {
                Visit::Counted
            } else {
                Visit::Full
            },
            None => Visit::Skipped,
        }
    }
}

/// The totals after `entry` was counted into `totals`.
pub open spec fn after_visit(totals: Map<Month, u64>, entry: Entry) -> Map<Month, u64> {
    match entry_month(entry) {
        Some(month) => if total_in(totals, month) + entry.size() <= u64::MAX {
            totals.insert(month, (total_in(totals, month) + entry.size()) as u64)
        } else {
            totals
        },
        None => totals,
    }
}

/// The totals after each of `entries` was counted into `totals`, one after
/// the other.
pub open spec fn after_all(totals: Map<Month, u64>, entries: Seq<Entry>) -> Map<Month, u64>
    decreases entries.len(),
{
    if entries.len() == 0 {
        totals
    } else {
        after_visit(after_all(totals, entries.drop_last()), entries.last())
    }
}

/// The sum of the sizes of the files among `entries` that count in `month`.
pub open spec fn month_total(entries: Seq<Entry>, month: Month) -> nat
    decreases entries.len(),
{
    if entries.len() == 0 {
        0
    } else {
        month_total(entries.drop_last(), month) + if entry_month(entries.last()) == Some(month) {
            entries.last().size()
        } else {
            0
        }
    }
}

/// Whether a file among `entries` counts in `month`.
pub open spec fn has_file_in(entries: Seq<Entry>, month: Month) -> bool {
    exists|i: int| 0 <= i < entries.len() && entry_month(#[trigger] entries[i]) == Some(month)
}

/// An inserted element joins the elements of a sequence; the others stay.
proof fn lemma_insert_to_set<A>(s: Seq<A>, at: int, x: A)
    requires
        0 <= at <= s.len(),
    ensures
        s.insert(at, x).to_set() =~= s.to_set().insert(x),
{
    let t = s.insert(at, x);
    assert forall|y: A| t.to_set().contains(y) <==> s.to_set().insert(x).contains(y) by {
        if t.contains(y) {
            let i = choose|i: int| 0 <= i < t.len() && t[i] == y;
            if i < at {
                assert(s[i] == y);
            } else if i > at {
                assert(s[i - 1] == y);
            }
        }
        if s.contains(y) {
            let i = choose|i: int| 0 <= i < s.len() && s[i] == y;
            if i < at {
                assert(t[i] == y);
            } else {
                assert(t[i + 1] == y);
            }
        }
        if y == x {
            assert(t[at] == y);
        }
    }
}

/// Puts `row` where it belongs among rows that are in ascending order.
fn insert_row(rows: &mut Vec<Row>, row: Row)
    requires
        ascending(old(rows)@),
        forall|i: int| 0 <= i < old(rows)@.len() ==> (#[trigger] old(rows)@[i]).0 != row.0,
    ensures
        ascending(final(rows)@),
        final(rows)@.len() == old(rows)@.len() + 1,
        final(rows)@.to_set() == old(rows)@.to_set().insert(row),
{
    let mut at: usize = 0;
    while at < rows.len() && rows[at].0.is_before(&row.0)
        invariant
            rows@ == old(rows)@,
            at <= rows@.len(),
            forall|a: int| 0 <= a < at ==> (#[trigger] rows@[a]).0.precedes(row.0),
        decreases rows@.len() - at,
    {
        at += 1;
    }
    let ghost before = rows@;
    assert forall|a: int| at <= a < before.len() implies row.0.precedes(
        (#[trigger] before[a]).0,
    ) by {
        assert(!before[at as int].0.precedes(row.0));
        assert(before[at as int].0 != row.0);
        assert(before[a].0 != row.0);
    }
    rows.insert(at, row);
    proof {
        lemma_insert_to_set(before, at as int, row);
    }
}

/// The running totals of file sizes, one for each month in which a counted
/// file was last modified.
pub struct MonthlySizes {
    table: DashMap<MonthKey, u64, RandomState>,
}

impl View for MonthlySizes {
    type V = Map<Month, u64>;

    closed spec fn view(&self) -> Map<Month, u64> {
        Map::new(
            |m: Month| totals_of(self.table).contains_key((m.year, m.month)),
            |m: Month| totals_of(self.table)[(m.year, m.month)],
        )
    }
}

impl MonthlySizes {
    #[verifier::type_invariant]
    spec fn valid_months(self) -> bool {
        forall|key: MonthKey| #[trigger]
            totals_of(self.table).contains_key(key) ==> (Month { year: key.0, month: key.1 }).wf()
    }

    /// The total for `month`, which is 0 where no file was counted in it.
    pub open spec fn total_of(self, month: Month) -> nat {
        total_in(self@, month)
    }

    /// Totals with no month in them.
    pub fn new() -> (sizes: MonthlySizes)
        ensures
            sizes@ == Map::<Month, u64>::empty(),
    {
        let sizes = MonthlySizes { table: table_new() };
        assert(sizes@ =~= Map::<Month, u64>::empty());
        sizes
    }

    /// The total for `month`, where a file was counted in it.
    pub fn total(&self, month: Month) -> (total: Option<u64>)
        ensures
            total == (if self@.contains_key(month) {
                Some(self@[month])
            } else {
                None
            }),
    {
        table_get(&self.table, (month.year, month.month))
    }

    /// Adds `size` bytes to the total of `month`; a month that had no total
    /// starts at `size`. Nothing is added, and `false` comes back, where
    /// `month` is not one that the calendar can hold or where the total would
    /// no longer fit.
    pub fn record(&mut self, month: Month, size: u64) -> (recorded: bool)
        ensures
            recorded == (month.wf() && old(self).total_of(month) + size <= u64::MAX),
            recorded ==> final(self)@ == old(self)@.insert(
                month,
                (old(self).total_of(month) + size) as u64,
            ),
            !recorded ==> final(self)@ == old(self)@,
    {
        if !month.is_valid() {
            return false;
        }
        let key: MonthKey = (month.year, month.month);
        let fits = match table_get(&self.table, key) {
            Some(total) => total <= u64::MAX - size,
            None => true,
        };
        if !fits {
            return false;
        }
        proof {
            use_type_invariant(&*self);
        }
        table_add(&mut self.table, key, size);
        assert(self@ =~= old(self)@.insert(month, (old(self).total_of(month) + size) as u64));
        true
    }

    /// The months with their totals, the earliest month first.
    pub fn rows(&self) -> (rows: Vec<Row>)
        ensures
            lists(rows@, self@),
            forall|i: int| 0 <= i < rows@.len() ==> (#[trigger] rows@[i]).0.wf(),
    {
        proof {
            use_type_invariant(self);
        }
        let pairs = table_pairs(&self.table);
        let ghost items = pairs@.map_values(|pair: (MonthKey, u64)| row_of(pair));
        let mut rows: Vec<Row> = Vec::new();
        let mut i: usize = 0;
        assert(rows@.to_set() =~= items.take(0).to_set());
        while i < pairs.len()
            invariant
                i <= pairs@.len(),
                items == pairs@.map_values(|pair: (MonthKey, u64)| row_of(pair)),
                forall|k: int, l: int|
                    0 <= k < l < pairs@.len() ==> #[trigger] pairs@[k].0 != #[trigger] pairs@[l].0,
                ascending(rows@),
                rows@.to_set() == items.take(i as int).to_set(),
            decreases pairs@.len() - i,
        {
            let pair: (MonthKey, u64) = pairs[i];
            let row: Row = (Month { year: pair.0.0, month: pair.0.1 }, pair.1);
            proof {
                assert(row == items[i as int]);
                assert forall|a: int| 0 <= a < rows@.len() implies (#[trigger] rows@[a]).0
                    != row.0 by {
                    assert(rows@.to_set().contains(rows@[a]));
                    assert(items.take(i as int).contains(rows@[a]));
                    let k = choose|k: int|
                        0 <= k < items.take(i as int).len() && items.take(i as int)[k] == rows@[a];
                    assert(items[k] == row_of(pairs@[k]));
                    assert(pairs@[k].0 != pairs@[i as int].0);
                }
                assert(items.take(i + 1) =~= items.take(i as int).push(items[i as int]));
                items.take(i as int).lemma_push_to_set_commute(items[i as int]);
            }
            insert_row(&mut rows, row);
            i += 1;
        }
        proof {
            assert(items.take(i as int) =~= items);
            let totals = totals_of(self.table);
            assert forall|a: int| 0 <= a < rows@.len() implies self@.contains_key(
                #[trigger] rows@[a].0,
            ) && self@[rows@[a].0] == rows@[a].1 && rows@[a].0.wf() by {
                assert(rows@.to_set().contains(rows@[a]));
                assert(items.contains(rows@[a]));
                let k = choose|k: int| 0 <= k < items.len() && items[k] == rows@[a];
                assert(totals.contains_key(pairs@[k].0));
            }
            assert forall|month: Month| #[trigger] self@.contains_key(month) implies exists|a: int|
                0 <= a < rows@.len() && #[trigger] rows@[a].0 == month by {
                let key: MonthKey = (month.year, month.month);
                assert(totals.contains_key(key));
                let k = choose|k: int| 0 <= k < pairs@.len() && #[trigger] pairs@[k].0 == key;
                assert(items[k] == row_of(pairs@[k]));
                assert(items.contains(items[k]));
                assert(rows@.to_set().contains(items[k]));
                assert(rows@.contains(items[k]));
                let a = choose|a: int| 0 <= a < rows@.len() && rows@[a] == items[k];
                assert(rows@[a].0 == month);
            }
        }
        rows
    }

    /// Counts one entry: the size of a regular file goes to the total of the
    /// month in which it was last modified; a directory is to be descended
    /// into; anything else is passed over.
    pub fn visit(&mut self, entry: &Entry) -> (visit: Visit)
        ensures
            visit == visit_of(old(self)@, *entry),
            final(self)@ == after_visit(old(self)@, *entry),
    {
        match entry.kind {
            EntryKind::File { modified, size } => {
                match modified {
                    Some(when) => {
                        match Month::of(&when) {
                            Some(month) => {
                                if self.record(month, size) {
                                    Visit::Counted
                                } else {
                                    Visit::Full
                                }
                            },
                            None => Visit::Skipped,
                        }
                    },
                    None => Visit::Skipped,
                }
            },
            EntryKind::Directory => Visit::Descend,
            EntryKind::Other => Visit::Skipped,
            EntryKind::Unreadable => Visit::Skipped,
        }
    }

    /// Counts each entry of a listing, in order. What was done with each
    /// comes back in the order of the entries.
    pub fn visit_all(&mut self, listing: &Vec<Entry>) -> (visits: Vec<Visit>)
        ensures
            visits@.len() == listing@.len(),
            forall|i: int|
                0 <= i < listing@.len() ==> #[trigger] visits@[i] == visit_of(
                    after_all(old(self)@, listing@.take(i)),
                    listing@[i],
                ),
            final(self)@ == after_all(old(self)@, listing@),
    {
        let mut visits: Vec<Visit> = Vec::new();
        let mut i: usize = 0;
        assert(listing@.take(0) =~= Seq::<Entry>::empty());
        while i < listing.len()
            invariant
                i <= listing@.len(),
                visits@.len() == i,
                forall|k: int|
                    0 <= k < i ==> #[trigger] visits@[k] == visit_of(
                        after_all(old(self)@, listing@.take(k)),
                        listing@[k],
                    ),
                self@ == after_all(old(self)@, listing@.take(i as int)),
            decreases listing@.len() - i,
        {
            proof {
                let next = listing@.take(i + 1);
                assert(next.drop_last() =~= listing@.take(i as int));
                assert(next.last() == listing@[i as int]);
            }
            let visit = self.visit(&listing[i]);
            visits.push(visit);
            i += 1;
        }
        assert(listing@.take(i as int) =~= listing@);
        visits
    }

    /// One line of the report for each month, the earliest month first.
    pub fn report(&self) -> (lines: Vec<String>)
        ensures
            exists|rows: Seq<Row>| lists(rows, self@) && reports(lines@, rows),
    {
        let rows = self.rows();
        let mut lines: Vec<String> = Vec::new();
        let mut i: usize = 0;
        while i < rows.len()
            invariant
                i <= rows@.len(),
                lines@.len() == i,
                forall|k: int| 0 <= k < rows@.len() ==> (#[trigger] rows@[k]).0.wf(),
                forall|k: int|
                    0 <= k < i ==> (#[trigger] lines@[k])@ == line_text(rows@[k].0, rows@[k].1),
            decreases rows@.len() - i,
        {
            let row: Row = rows[i];
            if let Some(line) = report_line(&row.0, row.1) {
                lines.push(line);
            }
            i += 1;
        }
        assert(reports(lines@, rows@));
        lines
    }
}

/// One line of the report: the first day of `month` as a date, then the
/// total, as in "2024-03-01: 300 bytes". `None` for a month that the calendar
/// cannot hold.
pub fn report_line(month: &Month, total: u64) -> (line: Option<String>)
    ensures
        line is Some <==> month.wf(),
        line matches Some(text) ==> text@ == line_text(*month, total),
{
    match month.label() {
        Some(label) => {
            let mut text = label;
            proof {
                reveal_strlit(": ");
                reveal_strlit(" bytes");
            }
            text.append(": ");
            push_decimal(&mut text, total);
            text.append(" bytes");
            assert(text@ =~= line_text(*month, total));
            Some(text)
        },
        None => None,
    }
}

/// Counting adds up. Where every month's total still fits at the end, each
/// month's total after counting `entries` into `totals` is what `totals` held
/// for it plus the sizes of the files among `entries` that count in it, and
/// the months with a total are those of `totals` and those in which a file
/// among `entries` counts.
pub proof fn lemma_counting_adds_up(totals: Map<Month, u64>, entries: Seq<Entry>)
    requires
        forall|month: Month| total_in(totals, month) + month_total(entries, month) <= u64::MAX,
    ensures
        forall|month: Month|
            total_in(#[trigger] after_all(totals, entries), month) == total_in(totals, month)
                + month_total(entries, month),
        forall|month: Month|
            #[trigger] after_all(totals, entries).contains_key(month) <==> (totals.contains_key(
                month,
            ) || has_file_in(entries, month)),
    decreases entries.len(),
{
    if entries.len() == 0 {
        assert forall|month: Month| !has_file_in(entries, month) by {}
    } else {
        let rest = entries.drop_last();
        let last = entries.last();
        assert forall|month: Month| total_in(totals, month) + month_total(rest, month)
            <= u64::MAX by {
            assert(month_total(rest, month) <= month_total(entries, month));
        }
        lemma_counting_adds_up(totals, rest);
        let mid = after_all(totals, rest);
        let end = after_all(totals, entries);
        assert(end == after_visit(mid, last));
        assert forall|month: Month| has_file_in(entries, month) <==> (has_file_in(rest, month)
            || entry_month(last) == Some(month)) by {
            if has_file_in(entries, month) {
                let i = choose|i: int|
                    0 <= i < entries.len() && entry_month(#[trigger] entries[i]) == Some(month);
                if i < rest.len() {
                    assert(rest[i] == entries[i]);
                }
            }
            if has_file_in(rest, month) {
                let i = choose|i: int|
                    0 <= i < rest.len() && entry_month(#[trigger] rest[i]) == Some(month);
                assert(entries[i] == rest[i]);
            }
            if entry_month(last) == Some(month) {
                assert(entries[entries.len() - 1] == last);
            }
        }
        assert forall|month: Month|
            total_in(end, month) == total_in(totals, month) + month_total(entries, month)
            && (end.contains_key(month) <==> (totals.contains_key(month) || has_file_in(
                entries,
                month,
            ))) by {
            assert(total_in(mid, month) == total_in(totals, month) + month_total(rest, month));
            match entry_month(last) {
                Some(counted) => {
                    assert(total_in(mid, counted) == total_in(totals, counted) + month_total(
                        rest,
                        counted,
                    ));
                },
                None => {},
            }
        }
    }
}

/// The sums of a run of counting that starts with no totals: a total for each
/// month in which a file among `entries` counts, and for no other month.
pub open spec fn sums(entries: Seq<Entry>) -> Map<Month, u64> {
    Map::new(
        |month: Month| has_file_in(entries, month),
        |month: Month| month_total(entries, month) as u64,
    )
}

/// What a report shows. Where every month's sum fits, rows that list the
/// totals of a count of `entries` hold, for each month in which a file among
/// `entries` was last modified, the sum of the sizes of those files; they
/// hold no other month; and they stand in ascending order of month.
pub proof fn lemma_rows_are_month_sums(entries: Seq<Entry>, rows: Seq<Row>)
    requires
        forall|month: Month| month_total(entries, month) <= u64::MAX,
        lists(rows, after_all(Map::<Month, u64>::empty(), entries)),
    ensures
        after_all(Map::<Month, u64>::empty(), entries) == sums(entries),
        forall|i: int|
            0 <= i < rows.len() ==> has_file_in(entries, (#[trigger] rows[i]).0) && rows[i].1
                == month_total(entries, rows[i].0),
        forall|month: Month|
            has_file_in(entries, month) ==> exists|i: int|
                0 <= i < rows.len() && (#[trigger] rows[i]).0 == month,
        ascending(rows),
{
    let start = Map::<Month, u64>::empty();
    let end = after_all(start, entries);
    lemma_counting_adds_up(start, entries);
    assert forall|month: Month| end.contains_key(month) <==> has_file_in(entries, month) by {
        assert(!start.contains_key(month));
    }
    assert forall|month: Month| end.contains_key(month) implies end[month] == month_total(
        entries,
        month,
    ) as u64 by {
        assert(total_in(end, month) == total_in(start, month) + month_total(entries, month));
    }
    assert(end =~= sums(entries));
    assert forall|i: int| 0 <= i < rows.len() implies has_file_in(entries, (#[trigger] rows[i]).0)
        && rows[i].1 == month_total(entries, rows[i].0) by {
        assert(end.contains_key(rows[i].0));
    }
    assert forall|month: Month| has_file_in(entries, month) implies exists|i: int|
        0 <= i < rows.len() && (#[trigger] rows[i]).0 == month by {
        assert(end.contains_key(month));
    }
}

/// Rows without the first list the totals without the first row's month.
proof fn lemma_tail_lists(rows: Seq<Row>, totals: Map<Month, u64>)
    requires
        lists(rows, totals),
        rows.len() > 0,
    ensures
        lists(rows.drop_first(), totals.remove(rows[0].0)),
{
    let rest = totals.remove(rows[0].0);
    let tail = rows.drop_first();
    assert forall|k: int| 0 <= k < tail.len() implies rest.contains_key((#[trigger] tail[k]).0)
        && rest[tail[k].0] == tail[k].1 by {
        assert(tail[k] == rows[k + 1]);
        assert(rows[0].0.precedes(rows[k + 1].0));
    }
    assert forall|month: Month| #[trigger] rest.contains_key(month) implies exists|k: int|
        0 <= k < tail.len() && (#[trigger] tail[k]).0 == month by {
        let m = choose|m: int| 0 <= m < rows.len() && (#[trigger] rows[m]).0 == month;
        assert(tail[m - 1] == rows[m]);
    }
    assert forall|k: int, l: int| 0 <= k < l < tail.len() implies (#[trigger] tail[k]).0.precedes(
        (#[trigger] tail[l]).0,
    ) by {
        assert(tail[k] == rows[k + 1]);
        assert(tail[l] == rows[l + 1]);
    }
}

/// Totals have one listing: two sequences of rows that list the same totals
/// are the same sequence.
pub proof fn lemma_listing_is_unique(first: Seq<Row>, second: Seq<Row>, totals: Map<Month, u64>)
    requires
        lists(first, totals),
        lists(second, totals),
    ensures
        first == second,
    decreases first.len(),
{
    if first.len() == 0 {
        if second.len() > 0 {
            assert(totals.contains_key(second[0].0));
        }
        assert(first =~= second);
    } else {
        let head = first[0];
        assert(totals.contains_key(head.0));
        let j = choose|j: int| 0 <= j < second.len() && (#[trigger] second[j]).0 == head.0;
        assert(totals.contains_key(second[0].0));
        let i = choose|i: int| 0 <= i < first.len() && (#[trigger] first[i]).0 == second[0].0;
        if j > 0 {
            assert(second[0].0.precedes(second[j].0));
            if i > 0 {
                assert(first[0].0.precedes(first[i].0));
            }
        }
        assert(second[0] == head);
        lemma_tail_lists(first, totals);
        lemma_tail_lists(second, totals);
        lemma_listing_is_unique(first.drop_first(), second.drop_first(), totals.remove(head.0));
        assert(first =~= seq![head] + first.drop_first());
        assert(second =~= seq![head] + second.drop_first());
    }
}

} // verus!
