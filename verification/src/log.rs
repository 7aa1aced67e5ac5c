//! The record log: where its records lie, and how its bytes are read back
//! into records.

use crate::command::{Command, CommandView};
use crate::history::{lemma_tiles_push, tiles, Entry};
use crate::json::{json_head, read_head, Head, HeadView};
use crate::pos::CommandPos;
use vstd::prelude::*;
use vstd::slice::slice_subrange;

verus! {

/// The account of an append-only log: the records that it holds, the offset
/// at which the last of them ends, and the offset at which the log ends,
/// which is where the next record is written. Between the two lies
/// whitespace only, and it belongs to the span of the next record.
pub struct RecordLog {
    next: u64,
    end: u64,
    history: Ghost<Seq<Entry>>,
}

impl RecordLog {
    /// The records of the log, oldest first.
    pub closed spec fn history(&self) -> Seq<Entry> {
        self.history@
    }

    /// The offset at which the last record ends and the span of the next
    /// begins.
    pub closed spec fn next_offset(&self) -> u64 {
        self.next
    }

    /// The offset at which the log ends.
    pub closed spec fn end_offset(&self) -> u64 {
        self.end
    }

    /// The records lie end to end from offset 0 up to the start of the next
    /// span, which is not beyond the end of the log.
    pub open spec fn wf(&self) -> bool {
        &&& tiles(self.history(), self.next_offset() as int)
        &&& self.next_offset() <= self.end_offset()
    }

    /// The account of an empty log.
    pub fn new() -> (log: RecordLog)
        ensures
            log.wf(),
            log.history() == Seq::<Entry>::empty(),
            log.next_offset() == 0,
            log.end_offset() == 0,
    {
        RecordLog { next: 0, end: 0, history: Ghost(Seq::empty()) }
    }

    /// The offset at which the log ends.
    pub fn end(&self) -> (end: u64)
        ensures
            end == self.end_offset(),
    {
        self.end
    }

    /// Accounts for a record of `len` bytes that holds `command` and was laid
    /// at the end of the log. Returns the span of the record: it starts where
    /// the record before it ended, and ends with the log.
    pub fn append(&mut self, command: &Command, len: u64) -> (span: CommandPos)
        requires
            old(self).wf(),
            old(self).end_offset() + len <= u64::MAX,
        ensures
            final(self).wf(),
            span.pos == old(self).next_offset(),
            span.len == old(self).end_offset() - old(self).next_offset() + len,
            final(self).end_offset() == old(self).end_offset() + len,
            final(self).next_offset() == final(self).end_offset(),
            final(self).history() == old(self).history().push(
                Entry { command: command@, span },
            ),
    {
        let span = CommandPos { pos: self.next, len: self.end - self.next + len };
        proof {
            lemma_tiles_push(self.history@, self.next as int, Entry { command: command@, span });
        }
        self.history = Ghost(self.history@.push(Entry { command: command@, span }));
        self.end = self.end + len;
        self.next = self.end;
        span
    }

    /// Accounts for `len` bytes of whitespace at the end of the log. The
    /// records stay as they are, and the log ends `len` bytes later.
    pub fn pad(&mut self, len: u64)
        requires
            old(self).wf(),
            old(self).end_offset() + len <= u64::MAX,
        ensures
            final(self).wf(),
            final(self).history() == old(self).history(),
            final(self).next_offset() == old(self).next_offset(),
            final(self).end_offset() == old(self).end_offset() + len,
    {
        self.end = self.end + len;
    }
}

/// What a log holds from some offset on.
#[derive(Debug)]
pub enum Scanned {
    /// Nothing but whitespace.
    End,
    /// Bytes that the end of the log cuts off in the middle of a JSON value,
    /// as an interrupted write leaves them.
    Truncated,
    /// Bytes that are no record.
    Corrupt,
    /// A whole record: its command and the offset at which it ends.
    Complete { command: Command, end: usize },
}

/// The mathematical value of a `Scanned`.
pub enum ScannedView {
    End,
    Truncated,
    Corrupt,
    Complete { command: CommandView, end: nat },
}

impl View for Scanned {
    type V = ScannedView;

    open spec fn view(&self) -> ScannedView {
        match *self {
            Scanned::End => ScannedView::End,
            Scanned::Truncated => ScannedView::Truncated,
            Scanned::Corrupt => ScannedView::Corrupt,
            Scanned::Complete { command, end } => ScannedView::Complete {
                command: command@,
                end: end as nat,
            },
        }
    }
}

/// What `log` holds from `start` on. Where no byte is left, that is the end.
/// A whole record is a JSON object that stands for a command and that ends
/// after `start` and within the log; an object of which one of these fails
/// is no record.
pub open spec fn record_at(log: Seq<u8>, start: int) -> ScannedView {
    if start >= log.len() {
        ScannedView::End
    } else {
        match json_head(log.subrange(start, log.len() as int)) {
            HeadView::End => ScannedView::End,
            HeadView::Truncated => ScannedView::Truncated,
            HeadView::Malformed => ScannedView::Corrupt,
            HeadView::Object { members, len } => match CommandView::of_members(members) {
                Some(command) if 0 < len && start + len <= log.len() => ScannedView::Complete {
                    command,
                    end: (start + len) as nat,
                },
                _ => ScannedView::Corrupt,
            },
        }
    }
}

/// Reads what `log` holds from `start` on.
pub fn scan(log: &[u8], start: usize) -> (found: Scanned)
    requires
        start <= log@.len(),
    ensures
        found@ == record_at(log@, start as int),
{
    if start == log.len() {
        return Scanned::End;
    }
    match read_head(slice_subrange(log, start, log.len())) {
        Head::End => Scanned::End,
        Head::Truncated => Scanned::Truncated,
        Head::Malformed => Scanned::Corrupt,
        Head::Object { members, len } => {
            if len == 0 || len > log.len() - start {
                return Scanned::Corrupt;
            }
            match Command::from_members(&members) {
                Some(command) => Scanned::Complete { command, end: start + len },
                None => Scanned::Corrupt,
            }
        },
    }
}

/// What follows the last whole record of a log.
#[derive(Clone, Copy, Debug, PartialEq, Eq, Structural)]
pub enum Tail {
    /// Nothing but whitespace.
    Blank,
    /// Bytes that the end of the log cuts off.
    Cut,
    /// Bytes that are no record and no beginning of one.
    Corrupt,
}

/// The outcome of reading bytes of a log, record by record.
pub struct Scan {
    /// The whole records met, in order, up to the first thing that is none.
    pub records: Seq<Entry>,
    /// The offset in the bytes at which the last of these records ends.
    pub end: nat,
    /// What follows the last of these records.
    pub tail: Tail,
}

/// Reads `log` from `start` on, record by record, where `log` holds the bytes
/// that lie in the whole log from offset `base` on. The span of each record
/// runs from the end of the record before it to its own end. The scan stops
/// at the first thing that is no whole record.
pub open spec fn scan_from(log: Seq<u8>, start: nat, base: nat) -> Scan
    decreases log.len() - start,
{
    match record_at(log, start as int) {
        ScannedView::Complete { command, end } => {
            let rest = scan_from(log, end, base);
            let span = CommandPos { pos: (base + start) as u64, len: (end - start) as u64 };
            Scan {
                records: seq![Entry { command, span }] + rest.records,
                end: rest.end,
                tail: rest.tail,
            }
        },
        ScannedView::Corrupt => Scan { records: Seq::empty(), end: start, tail: Tail::Corrupt },
        ScannedView::Truncated => Scan { records: Seq::empty(), end: start, tail: Tail::Cut },
        ScannedView::End => Scan { records: Seq::empty(), end: start, tail: Tail::Blank },
    }
}

/// A scan never ends beyond the bytes that it reads, nor before its start.
pub proof fn lemma_scan_end(log: Seq<u8>, start: nat, base: nat)
    requires
        start <= log.len(),
    ensures
        start <= scan_from(log, start, base).end <= log.len(),
    decreases log.len() - start,
{
    match record_at(log, start as int) {
        ScannedView::Complete { command, end } => {
            lemma_scan_end(log, end, base);
        },
        _ => {},
    }
}

} // verus!
