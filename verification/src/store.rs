//! The store: a record log and the index over it.
//!
//! The store performs no I/O. `open` takes the bytes that the log holds; a
//! `Recovery` takes them piece by piece. `set` and `remove` hand out the
//! record to append; once the caller has appended and flushed it at offset
//! `end`, `commit` brings it to account. `get` names the span to read, and
//! `read` takes the bytes read from it.

use crate::command::{Command, CommandView};
use crate::error::KvsError;
use crate::history::{
    contents_of, index_of, latest, lemma_contents_push, lemma_index_push, lemma_replay_is_index,
    live, live_keys, replay, step, tiles, Entry, Spans,
};
use crate::index::Index;
use crate::log::{
    lemma_scan_end, record_at, scan, scan_from, RecordLog, Scanned, ScannedView, Tail,
};
use crate::pos::CommandPos;
use vstd::prelude::*;

verus! {

/// A command together with the bytes of its record, ready to be appended to
/// the log.
pub struct Record {
    command: Command,
    bytes: Vec<u8>,
}

impl Record {
    #[verifier::type_invariant]
    spec fn inv(self) -> bool {
        self.bytes@ == self.command@.text() && self.bytes@.len() > 0
    }

    /// The command that the record holds.
    pub closed spec fn command(&self) -> CommandView {
        self.command@
    }

    /// The bytes of the record.
    pub closed spec fn text(&self) -> Seq<u8> {
        self.bytes@
    }

    /// The number of bytes that the record takes.
    pub open spec fn len(&self) -> nat {
        self.text().len()
    }

    /// The bytes to append to the log: the text of the record's command,
    /// which is never empty.
    pub fn bytes(&self) -> (bytes: &Vec<u8>)
        ensures
            bytes@ == self.text(),
            self.text() == self.command().text(),
            self.len() > 0,
    {
        proof {
            use_type_invariant(self);
        }
        &self.bytes
    }
}

/// The scan of a log after a whole record is the scan from the record's end,
/// with the record put in front.
proof fn lemma_scan_unfold(
    log: Seq<u8>,
    start: nat,
    base: nat,
    seen: Seq<Entry>,
    entry: Entry,
    end: nat,
)
    requires
        record_at(log, start as int) == (ScannedView::Complete { command: entry.command, end }),
        entry.span == (CommandPos { pos: (base + start) as u64, len: (end - start) as u64 }),
        scan_from(log, 0, base).records == seen + scan_from(log, start, base).records,
    ensures
        scan_from(log, 0, base).records == seen.push(entry) + scan_from(log, end, base).records,
        scan_from(log, start, base).end == scan_from(log, end, base).end,
        scan_from(log, start, base).tail == scan_from(log, end, base).tail,
{
    let rest = scan_from(log, end, base).records;
    assert(seen + (seq![entry] + rest) =~= seen.push(entry) + rest);
}

/// Brings to account the whole records at the head of `window`, the bytes
/// that lie in the log from the end of the account on.
///
/// Reads record after record and applies each to the index: a `Put` points
/// its key at the record, a `Remove` drops its key, present or not. Reading
/// stops at the first thing that is no whole record. Where that is
/// whitespace up to the end of the window, or bytes that the end of the
/// window cuts off, the result is the number of bytes read into records and
/// which of the two follows them. Where it is anything else the error is
/// `Serde`; the records before it are part of the account. A window that
/// would end beyond the last offset is refused with `Io`, and nothing
/// changes.
pub fn load(window: &[u8], index: &mut Index, writer: &mut RecordLog) -> (loaded: Result<
    (usize, Tail),
    KvsError,
>)
    requires
        old(writer).wf(),
        old(writer).next_offset() == old(writer).end_offset(),
        old(index)@ == index_of(old(writer).history()),
    ensures
        final(writer).wf(),
        final(writer).next_offset() == final(writer).end_offset(),
        final(index)@ == index_of(final(writer).history()),
        old(writer).end_offset() + window@.len() > u64::MAX ==> {
            &&& loaded matches Err(KvsError::Io)
            &&& final(writer).history() == old(writer).history()
            &&& final(writer).end_offset() == old(writer).end_offset()
        },
        old(writer).end_offset() + window@.len() <= u64::MAX ==> {
            let scan = scan_from(window@, 0, old(writer).end_offset() as nat);
            &&& final(writer).history() == old(writer).history() + scan.records
            &&& final(writer).end_offset() == old(writer).end_offset() + scan.end
            &&& match loaded {
                Ok((used, tail)) => used == scan.end && tail == scan.tail && tail != Tail::Corrupt,
                Err(e) => e is Serde && scan.tail == Tail::Corrupt,
            }
        },
{
    let base = writer.end();
    if window.len() as u64 > u64::MAX - base {
        return Err(KvsError::Io);
    }
    let ghost before = writer.history();
    let ghost seen = Seq::<Entry>::empty();
    let mut pos: usize = 0;
    assert(before + seen =~= before);
    assert(scan_from(window@, 0, base as nat).records =~= seen + scan_from(
        window@,
        0,
        base as nat,
    ).records);
    loop
        invariant
            pos <= window@.len(),
            base + window@.len() <= u64::MAX,
            base == old(writer).end_offset(),
            before == old(writer).history(),
            writer.wf(),
            writer.next_offset() == writer.end_offset(),
            writer.end_offset() == base + pos,
            index@ == index_of(writer.history()),
            writer.history() == before + seen,
            scan_from(window@, 0, base as nat).records == seen + scan_from(
                window@,
                pos as nat,
                base as nat,
            ).records,
            scan_from(window@, 0, base as nat).end == scan_from(
                window@,
                pos as nat,
                base as nat,
            ).end,
            scan_from(window@, 0, base as nat).tail == scan_from(
                window@,
                pos as nat,
                base as nat,
            ).tail,
        decreases window@.len() - pos,
    {
        let tail = match scan(window, pos) {
            Scanned::Complete { command, end } => {
                let ghost history = writer.history();
                let span = writer.append(&command, (end - pos) as u64);
                proof {
                    let entry = Entry { command: command@, span };
                    lemma_scan_unfold(window@, pos as nat, base as nat, seen, entry, end as nat);
                    lemma_index_push(history, entry);
                    assert((before + seen).push(entry) =~= before + seen.push(entry));
                    seen = seen.push(entry);
                }
                match command {
                    Command::Put { key, .. } => {
                        index.insert(key, span);
                    },
                    Command::Remove { key } => {
                        index.remove(key.as_str());
                    },
                }
                pos = end;
                continue ;
            },
            Scanned::Corrupt => Tail::Corrupt,
            Scanned::Truncated => Tail::Cut,
            Scanned::End => Tail::Blank,
        };
        assert(scan_from(window@, 0, base as nat).records =~= seen);
        return match tail {
            Tail::Corrupt => Err(KvsError::Serde),
            _ => Ok((pos, tail)),
        };
    }
}

/// The value that `bytes` hold, where they are exactly one `Put` record.
pub open spec fn value_in(bytes: Seq<u8>) -> Option<Seq<char>> {
    match record_at(bytes, 0) {
        ScannedView::Complete { command: CommandView::Put { value, .. }, end } if end
            == bytes.len() => Some(value),
        _ => None,
    }
}

/// The mathematical value of a store.
pub struct StoreView {
    /// The records of the log, oldest first.
    pub history: Seq<Entry>,
    /// The index: each key that it holds with the span that it points at.
    pub index: Spans,
    /// The offset at which the last record ends.
    pub next: nat,
    /// The offset at which the log ends.
    pub end: nat,
}

/// A key-value store over an append-only log of commands.
pub struct KvStore {
    writer: RecordLog,
    map: Index,
}

impl View for KvStore {
    type V = StoreView;

    closed spec fn view(&self) -> StoreView {
        StoreView {
            history: self.writer.history(),
            index: self.map@,
            next: self.writer.next_offset() as nat,
            end: self.writer.end_offset() as nat,
        }
    }
}

/// The state of a recovery: the account of the part of a log that was read
/// so far, and the index over it.
pub struct Recovery {
    writer: RecordLog,
    map: Index,
}

impl Recovery {
    /// The records read so far, oldest first.
    pub closed spec fn history(&self) -> Seq<Entry> {
        self.writer.history()
    }

    /// The offset up to which the log was read into records.
    pub closed spec fn offset(&self) -> u64 {
        self.writer.end_offset()
    }

    /// The records read lie end to end up to `offset`, and the index held is
    /// the one that they determine.
    pub closed spec fn wf(&self) -> bool {
        &&& self.writer.wf()
        &&& self.writer.next_offset() == self.writer.end_offset()
        &&& self.map@ == index_of(self.writer.history())
    }

    /// The recovery of a log of which nothing was read yet.
    pub fn new() -> (recovery: Recovery)
        ensures
            recovery.wf(),
            recovery.history() == Seq::<Entry>::empty(),
            recovery.offset() == 0,
    {
        let recovery = Recovery { writer: RecordLog::new(), map: Index::new() };
        assert(recovery.map@ =~= index_of(recovery.writer.history()));
        recovery
    }

    /// Reads the whole records at the head of `window`, the bytes that lie
    /// in the log from `offset` on, not needfully up to its end. Returns the
    /// number of bytes read into records: the next window begins after
    /// them.
    ///
    /// The error is `Serde` exactly when the records are followed by bytes
    /// that are no record and no beginning of one, and `Io`, with nothing
    /// read, exactly when the window would end beyond the last offset.
    pub fn feed(&mut self, window: &[u8]) -> (used: Result<usize, KvsError>)
        requires
            old(self).wf(),
        ensures
            final(self).wf(),
            old(self).offset() + window@.len() > u64::MAX ==> {
                &&& used matches Err(KvsError::Io)
                &&& final(self).history() == old(self).history()
                &&& final(self).offset() == old(self).offset()
            },
            old(self).offset() + window@.len() <= u64::MAX ==> {
                let scan = scan_from(window@, 0, old(self).offset() as nat);
                &&& final(self).history() == old(self).history() + scan.records
                &&& final(self).offset() == old(self).offset() + scan.end
                &&& match used {
                    Ok(n) => n == scan.end && scan.tail != Tail::Corrupt,
                    Err(e) => e is Serde && scan.tail == Tail::Corrupt,
                }
            },
    {
        match load(window, &mut self.map, &mut self.writer) {
            Ok((used, _)) => Ok(used),
            Err(e) => Err(e),
        }
    }

    /// Ends the recovery with `rest`, the bytes that lie in the log from
    /// `offset` up to its end, and returns the store over the log.
    ///
    /// The whole records of `rest` join the store. Whitespace after the last
    /// of them stays in the log, which ends where `rest` ends. Bytes that the
    /// end of the log cuts off are no part of the log, which ends after the
    /// last whole record: a caller cuts the log back to the store's `end`
    /// before it appends. Anything else after the last record is an error,
    /// `Serde`; a log that would end beyond the last offset is `Io`.
    pub fn finish(self, rest: &[u8]) -> (opened: Result<KvStore, KvsError>)
        requires
            self.wf(),
        ensures
            self.offset() + rest@.len() > u64::MAX ==> opened matches Err(KvsError::Io),
            self.offset() + rest@.len() <= u64::MAX ==> {
                let scan = scan_from(rest@, 0, self.offset() as nat);
                match opened {
                    Ok(store) => {
                        &&& store.wf()
                        &&& store.history() == self.history() + scan.records
                        &&& store.next_offset() == self.offset() + scan.end
                        &&& match scan.tail {
                            Tail::Blank => store.end_offset() == self.offset() + rest@.len(),
                            Tail::Cut => store.end_offset() == self.offset() + scan.end,
                            Tail::Corrupt => false,
                        }
                    },
                    Err(e) => e is Serde && scan.tail == Tail::Corrupt,
                }
            },
    {
        let mut writer = self.writer;
        let mut map = self.map;
        let ghost base = writer.end_offset() as nat;
        match load(rest, &mut map, &mut writer) {
            Ok((used, tail)) => {
                proof {
                    lemma_scan_end(rest@, 0, base);
                }
                if tail == Tail::Blank {
                    writer.pad((rest.len() - used) as u64);
                }
                Ok(KvStore { writer, map })
            },
            Err(e) => Err(e),
        }
    }
}

impl KvStore {
    /// The records of the store's log, oldest first.
    pub open spec fn history(&self) -> Seq<Entry> {
        self@.history
    }

    /// The store's index.
    pub open spec fn index(&self) -> Spans {
        self@.index
    }

    /// The offset at which the last record ends and the span of the next
    /// begins.
    pub open spec fn next_offset(&self) -> nat {
        self@.next
    }

    /// The offset at which the store's log ends.
    pub open spec fn end_offset(&self) -> nat {
        self@.end
    }

    /// The values of the store: each live key with its value.
    pub open spec fn values(&self) -> Map<Seq<char>, Seq<char>> {
        contents_of(self.history())
    }

    /// The records lie end to end up to the end of the last, the log ends
    /// there or later, at an offset that fits, and the index is the one that
    /// the records determine: a key is present exactly if the last record
    /// about it is a `Put`, and then it points at that record.
    pub open spec fn wf(&self) -> bool {
        &&& tiles(self.history(), self.next_offset() as int)
        &&& self.next_offset() <= self.end_offset() <= u64::MAX
        &&& self.index() == index_of(self.history())
    }

    /// Opens the store over a log that holds the bytes `log`.
    ///
    /// The store holds the whole records of the log. Where nothing but
    /// whitespace follows them, the log ends where `log` ends. Where bytes
    /// follow that the end of the log cuts off, as an interrupted write
    /// leaves them, the log ends after the last whole record: a caller cuts
    /// the log back to `end` before it appends. The error is `Serde`, and
    /// comes exactly when anything else follows the last whole record.
    pub fn open(log: &[u8]) -> (opened: Result<KvStore, KvsError>)
        ensures
            match opened {
                Ok(store) => {
                    &&& store.wf()
                    &&& store.history() == scan_from(log@, 0, 0).records
                    &&& store.index() == replay(scan_from(log@, 0, 0).records)
                    &&& store.next_offset() == scan_from(log@, 0, 0).end
                    &&& match scan_from(log@, 0, 0).tail {
                        Tail::Blank => store.end_offset() == log@.len(),
                        Tail::Cut => store.end_offset() == scan_from(log@, 0, 0).end,
                        Tail::Corrupt => false,
                    }
                },
                Err(e) => e is Serde && scan_from(log@, 0, 0).tail == Tail::Corrupt,
            },
    {
        let recovery = Recovery::new();
        let opened = recovery.finish(log);
        proof {
            vstd::slice::axiom_spec_len(log);
            let records = scan_from(log@, 0, 0).records;
            assert(Seq::<Entry>::empty() + records =~= records);
            lemma_replay_is_index(records);
        }
        opened
    }

    /// The offset at which the log ends: where the next record is appended.
    pub fn end(&self) -> (end: u64)
        ensures
            end == self.end_offset(),
    {
        self.writer.end()
    }

    /// The number of live keys.
    pub fn len(&self) -> (count: usize)
        requires
            self.wf(),
        ensures
            count == live_keys(self.history()).len(),
            count == self.values().len(),
    {
        assert(self.index().dom() =~= live_keys(self.history()));
        assert(self.values().dom() =~= live_keys(self.history()));
        self.map.len()
    }

    /// Looks `key` up: the span of the record that holds its value, to be
    /// read from the log and handed to `read`, or `None` where the key has no
    /// value.
    pub fn get(&self, key: String) -> (span: Option<CommandPos>)
        requires
            self.wf(),
        ensures
            span == if self.values().contains_key(key@) {
                Some(latest(self.history(), key@).span)
            } else {
                None
            },
    {
        self.map.get(key.as_str())
    }

    /// Takes the bytes read from `span` and returns the value that they
    /// hold.
    ///
    /// Fewer or more bytes than the span has are a failed read: `Io`. Bytes
    /// that are not exactly one `Put` record are `UnexpectedCommandType`.
    pub fn read(span: CommandPos, bytes: &[u8]) -> (value: Result<String, KvsError>)
        ensures
            match value {
                Ok(v) => bytes@.len() == span.len && value_in(bytes@) == Some(v@),
                Err(KvsError::Io) => bytes@.len() != span.len,
                Err(KvsError::UnexpectedCommandType) => bytes@.len() == span.len && value_in(
                    bytes@,
                ) is None,
                Err(_) => false,
            },
    {
        if bytes.len() as u64 != span.len {
            return Err(KvsError::Io);
        }
        match scan(bytes, 0) {
            Scanned::Complete { command: Command::Put { value, .. }, end } => {
                if end == bytes.len() {
                    Ok(value)
                } else {
                    Err(KvsError::UnexpectedCommandType)
                }
            },
            _ => Err(KvsError::UnexpectedCommandType),
        }
    }

    /// Makes the record of `command` from its bytes, if the log can take
    /// them.
    fn stage(&self, command: Command, bytes: Result<Vec<u8>, KvsError>) -> (record: Result<
        Record,
        KvsError,
    >)
        requires
            bytes matches Ok(b) && b@ == command@.text() && b@.len() > 0,
        ensures
            command@.text().len() <= usize::MAX,
            record is Ok <==> self.end_offset() + command@.text().len() <= u64::MAX,
            match record {
                Ok(r) => r.command() == command@ && r.text() == command@.text() && r.len() > 0,
                Err(e) => e is Io,
            },
    {
        match bytes {
            Ok(b) => {
                if b.len() as u64 > u64::MAX - self.writer.end() {
                    Err(KvsError::Io)
                } else {
                    Ok(Record { command, bytes: b })
                }
            },
            Err(e) => Err(e),
        }
    }

    /// Makes the record that sets `key` to `value`. The store is unchanged
    /// until the record is committed.
    ///
    /// There is a record exactly when it would not end beyond the last
    /// offset; otherwise the error is `Io`. The text of a command is no
    /// longer than a vector can be.
    pub fn set(&self, key: String, value: String) -> (record: Result<Record, KvsError>)
        ensures
            (CommandView::Put { key: key@, value: value@ }).text().len() <= usize::MAX,
            record is Ok <==> self.end_offset() + (CommandView::Put {
                key: key@,
                value: value@,
            }).text().len() <= u64::MAX,
            match record {
                Ok(r) => {
                    &&& r.command() == (CommandView::Put { key: key@, value: value@ })
                    &&& r.text() == r.command().text()
                    &&& r.len() > 0
                },
                Err(e) => e is Io,
            },
    {
        let command = Command::Put { key, value };
        let bytes = command.to_bytes();
        self.stage(command, bytes)
    }

    /// Makes the record that removes `key`, whether or not the key has a
    /// value. The store is unchanged until the record is committed.
    ///
    /// There is a record exactly when it would not end beyond the last
    /// offset; otherwise the error is `Io`. The text of a command is no
    /// longer than a vector can be.
    pub fn remove(&self, key: String) -> (record: Result<Record, KvsError>)
        ensures
            (CommandView::Remove { key: key@ }).text().len() <= usize::MAX,
            record is Ok <==> self.end_offset() + (CommandView::Remove {
                key: key@,
            }).text().len() <= u64::MAX,
            match record {
                Ok(r) => {
                    &&& r.command() == (CommandView::Remove { key: key@ })
                    &&& r.text() == r.command().text()
                    &&& r.len() > 0
                },
                Err(e) => e is Io,
            },
    {
        let command = Command::Remove { key };
        let bytes = command.to_bytes();
        self.stage(command, bytes)
    }

    /// Whether committing `command` after `history` succeeds: a `Put` always
    /// does, a `Remove` only where its key has a value.
    pub open spec fn accepts(history: Seq<Entry>, command: CommandView) -> bool {
        command is Put || live(history, command.key())
    }

    /// Brings to account a record that was appended to the log at `end` and
    /// flushed.
    ///
    /// The record joins the history; its span runs from the end of the
    /// record before it to the new end of the log, which lies beyond the old
    /// one. Unless the log was opened with whitespace at its end and nothing
    /// was appended since, that is the span of the record's own bytes. A
    /// `Put` points its key at the record. A `Remove` drops its key;
    /// where the key had no value the index stays as it was and the error is
    /// `KeyNotFound`, though the record is part of the log. A record that
    /// would end beyond the last offset cannot have been appended: the store
    /// is unchanged and the error is `Io`.
    pub fn commit(&mut self, record: Record) -> (done: Result<(), KvsError>)
        requires
            old(self).wf(),
        ensures
            final(self).wf(),
            old(self).end_offset() + record.len() > u64::MAX ==> {
                &&& done matches Err(KvsError::Io)
                &&& final(self)@ == old(self)@
            },
            old(self).end_offset() + record.len() <= u64::MAX ==> {
                &&& final(self).end_offset() == old(self).end_offset() + record.len()
                &&& final(self).end_offset() > old(self).end_offset()
                &&& final(self).next_offset() == final(self).end_offset()
                &&& final(self).history() == old(self).history().push(
                    Entry {
                        command: record.command(),
                        span: CommandPos {
                            pos: old(self).next_offset() as u64,
                            len: (final(self).end_offset() - old(self).next_offset()) as u64,
                        },
                    },
                )
                &&& old(self).next_offset() == old(self).end_offset()
                    ==> final(self).history().last().span == (CommandPos {
                    pos: old(self).end_offset() as u64,
                    len: record.len() as u64,
                })
                &&& final(self).index() == step(old(self).index(), final(self).history().last())
                &&& final(self).values() == match record.command() {
                    CommandView::Put { key, value } => old(self).values().insert(key, value),
                    CommandView::Remove { key } => old(self).values().remove(key),
                }
                &&& if KvStore::accepts(old(self).history(), record.command()) {
                    done is Ok
                } else {
                    done matches Err(KvsError::KeyNotFound)
                }
            },
    {
        proof {
            use_type_invariant(&record);
        }
        let len = record.bytes.len() as u64;
        if len > u64::MAX - self.writer.end() {
            return Err(KvsError::Io);
        }
        let ghost before = self.writer.history();
        let span = self.writer.append(&record.command, len);
        proof {
            lemma_index_push(before, Entry { command: record.command@, span });
            lemma_contents_push(before, Entry { command: record.command@, span });
        }
        match record.command {
            Command::Put { key, .. } => {
                self.map.insert(key, span);
                Ok(())
            },
            Command::Remove { key } => {
                match self.map.remove(key.as_str()) {
                    Some(_) => Ok(()),
                    None => Err(KvsError::KeyNotFound),
                }
            },
        }
    }
}

} // verus!
