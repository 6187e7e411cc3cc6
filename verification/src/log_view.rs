//! A bounded view of the most recent log entries.

use vstd::prelude::*;

verus! {

/// How severe a log entry is.
#[derive(Debug, Clone, Copy, PartialEq, Eq, Structural)]
pub enum LogLevel {
    Error,
    Warn,
    Info,
    Debug,
    Trace,
}

/// One log entry.
#[derive(Clone, Debug)]
pub struct LogEntry {
    pub timestamp: String,
    pub level: LogLevel,
    pub message: String,
}

/// The last entries logged, the oldest first.
pub struct LogView {
    pub max_entries: usize,
    pub entries: Vec<LogEntry>,
}

/// The entries after one more is added to a view that keeps `max_entries`:
/// where the view is full, its oldest entry leaves first.
pub open spec fn with_entry(entries: Seq<LogEntry>, max_entries: nat, entry: LogEntry) -> Seq<
    LogEntry,
> {
    if entries.len() >= max_entries && entries.len() > 0 {
        entries.skip(1).push(entry)
    } else {
        entries.push(entry)
    }
}

impl LogView {
    /// An empty view that keeps the last `max_entries` entries.
    pub fn new(max_entries: usize) -> (view: LogView)
        ensures
            view.max_entries == max_entries,
            view.entries@.len() == 0,
    {
        LogView { max_entries, entries: Vec::new() }
    }

    /// Adds an entry; where the view is full, the oldest one leaves.
    pub fn add_entry(&mut self, entry: LogEntry)
        ensures
            final(self).max_entries == old(self).max_entries,
            final(self).entries@ == with_entry(
                old(self).entries@,
                old(self).max_entries as nat,
                entry,
            ),
    {
        if self.entries.len() >= self.max_entries && self.entries.len() > 0 {
            let ghost before = self.entries@;
            self.entries.remove(0);
            assert(self.entries@ =~= before.skip(1));
        }
        self.entries.push(entry);
    }
}

/// A view that holds at most its limit holds at most its limit after an
/// entry is added, as long as the limit is not zero.
pub proof fn lemma_view_stays_bounded(entries: Seq<LogEntry>, max_entries: nat, entry: LogEntry)
    requires
        entries.len() <= max_entries,
        max_entries > 0,
    ensures
        with_entry(entries, max_entries, entry).len() <= max_entries,
        with_entry(entries, max_entries, entry).last() == entry,
{
}

} // verus!
