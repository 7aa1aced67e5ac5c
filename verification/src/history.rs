//! The log as a sequence of records, and the index that it determines.

use crate::command::CommandView;
use crate::pos::CommandPos;
use vstd::prelude::*;

verus! {

/// One record of the log: a command and the span that its bytes take.
pub struct Entry {
    pub command: CommandView,
    pub span: CommandPos,
}

/// The mathematical value of an index: for each live key, the span of the
/// record that gave it its value.
pub type Spans = Map<Seq<char>, CommandPos>;

/// Record `i` of `history` is about `key`, and no later record is.
pub open spec fn is_last_mention(history: Seq<Entry>, key: Seq<char>, i: int) -> bool {
    &&& 0 <= i < history.len()
    &&& history[i].command.key() == key
    &&& forall|j: int| i < j < history.len() ==> (#[trigger] history[j]).command.key() != key
}

/// The position of the last record about `key`, if any record is about it.
pub open spec fn last_mention(history: Seq<Entry>, key: Seq<char>) -> Option<int>
    decreases history.len(),
{
    if history.len() == 0 {
        None
    } else if history.last().command.key() == key {
        Some(history.len() - 1)
    } else {
        last_mention(history.drop_last(), key)
    }
}

/// The last record about `key`, where some record is about it.
pub open spec fn latest(history: Seq<Entry>, key: Seq<char>) -> Entry {
    history[last_mention(history, key).unwrap()]
}

/// `key` has a value: the last record about it is a `Put`.
pub open spec fn live(history: Seq<Entry>, key: Seq<char>) -> bool {
    last_mention(history, key) is Some && latest(history, key).command is Put
}

/// The keys that have a value after `history`.
pub open spec fn live_keys(history: Seq<Entry>) -> Set<Seq<char>> {
    Set::new(|key: Seq<char>| live(history, key))
}

/// The index that `history` determines: each live key with the span of the
/// last record about it.
pub open spec fn index_of(history: Seq<Entry>) -> Spans {
    Map::new(
        |key: Seq<char>| live(history, key),
        |key: Seq<char>| latest(history, key).span,
    )
}

/// The values that `history` determines: each live key with the value that
/// the last record about it set.
pub open spec fn contents_of(history: Seq<Entry>) -> Map<Seq<char>, Seq<char>> {
    Map::new(
        |key: Seq<char>| live(history, key),
        |key: Seq<char>| latest(history, key).command->value,
    )
}

/// What one record does to an index during recovery: a `Put` points its key
/// at the record, a `Remove` drops its key, present or not.
pub open spec fn step(index: Spans, entry: Entry) -> Spans {
    match entry.command {
        CommandView::Put { key, .. } => index.insert(key, entry.span),
        CommandView::Remove { key } => index.remove(key),
    }
}

/// The index that recovery builds: the records applied in order, one `step`
/// each, to the empty index.
pub open spec fn replay(history: Seq<Entry>) -> Spans
    decreases history.len(),
{
    if history.len() == 0 {
        Map::empty()
    } else {
        step(replay(history.drop_last()), history.last())
    }
}

/// The records lie end to end from offset 0 and stop at `end`.
pub open spec fn tiles(history: Seq<Entry>, end: int) -> bool {
    &&& history.len() > 0 ==> history[0].span.pos == 0
    &&& forall|i: int, j: int|
        0 <= i && j == i + 1 && j < history.len() ==> (#[trigger] history[j]).span.pos == (
        #[trigger] history[i]).span.end()
    &&& end == if history.len() == 0 {
        0
    } else {
        history.last().span.end()
    }
}

/// `last_mention` finds the last record about the key, and finds none only
/// where no record is about it.
pub proof fn lemma_last_mention(history: Seq<Entry>, key: Seq<char>)
    ensures
        match last_mention(history, key) {
            Some(i) => is_last_mention(history, key, i),
            None => forall|j: int|
                0 <= j < history.len() ==> (#[trigger] history[j]).command.key() != key,
        },
    decreases history.len(),
{
    if history.len() > 0 && history.last().command.key() != key {
        let front = history.drop_last();
        lemma_last_mention(front, key);
        assert forall|j: int| 0 <= j < front.len() implies front[j] == history[j] by {}
        match last_mention(front, key) {
            Some(i) => {
                assert forall|j: int| i < j < history.len() implies (#[trigger] history[j]).command.key()
                    != key by {
                    if j < front.len() {
                        assert(front[j] == history[j]);
                    }
                }
            },
            None => {
                assert forall|j: int| 0 <= j < history.len() implies (#[trigger] history[j]).command.key()
                    != key by {
                    if j < front.len() {
                        assert(front[j] == history[j]);
                    }
                }
            },
        }
    }
}

/// There is at most one last record about a key, and `last_mention` names it.
pub proof fn lemma_last_mention_unique(history: Seq<Entry>, key: Seq<char>, i: int)
    requires
        is_last_mention(history, key, i),
    ensures
        last_mention(history, key) == Some(i),
{
    lemma_last_mention(history, key);
    match last_mention(history, key) {
        Some(k) => {
            if k < i {
                assert(history[i].command.key() != key);
            }
            if i < k {
                assert(history[k].command.key() != key);
            }
        },
        None => {
            assert(history[i].command.key() != key);
        },
    }
}

/// After one more record, the last record about that record's key is the new
/// one, and nothing changes for any other key.
pub proof fn lemma_last_mention_push(history: Seq<Entry>, entry: Entry, key: Seq<char>)
    ensures
        last_mention(history.push(entry), key) == if entry.command.key() == key {
            Some(history.len() as int)
        } else {
            last_mention(history, key)
        },
{
    assert(history.push(entry).drop_last() =~= history);
    assert(history.push(entry).last() == entry);
}

/// After one more record, the last record about that record's key is the new
/// one, and for any other key it is the one that it was.
pub proof fn lemma_latest_push(history: Seq<Entry>, entry: Entry, key: Seq<char>)
    ensures
        entry.command.key() == key ==> last_mention(history.push(entry), key) is Some && latest(
            history.push(entry),
            key,
        ) == entry,
        entry.command.key() != key ==> last_mention(history.push(entry), key) is Some
            == last_mention(history, key) is Some,
        entry.command.key() != key && last_mention(history, key) is Some ==> latest(
            history.push(entry),
            key,
        ) == latest(history, key),
{
    lemma_last_mention_push(history, entry, key);
    lemma_last_mention(history, key);
}

/// One more record changes the index by one `step`.
pub proof fn lemma_index_push(history: Seq<Entry>, entry: Entry)
    ensures
        index_of(history.push(entry)) == step(index_of(history), entry),
{
    let longer = history.push(entry);
    let stepped = step(index_of(history), entry);
    assert forall|key: Seq<char>| #[trigger]
        index_of(longer).dom().contains(key) == stepped.dom().contains(key) by {
        lemma_latest_push(history, entry, key);
    }
    assert forall|key: Seq<char>| #[trigger]
        index_of(longer).dom().contains(key) implies index_of(longer)[key] == stepped[key] by {
        lemma_latest_push(history, entry, key);
    }
    assert(index_of(longer) =~= stepped);
}

/// One more record changes the values as its command says: a `Put` sets its
/// key to its value, a `Remove` takes its key away.
pub proof fn lemma_contents_push(history: Seq<Entry>, entry: Entry)
    ensures
        contents_of(history.push(entry)) == match entry.command {
            CommandView::Put { key, value } => contents_of(history).insert(key, value),
            CommandView::Remove { key } => contents_of(history).remove(key),
        },
{
    let longer = history.push(entry);
    let expected = match entry.command {
        CommandView::Put { key, value } => contents_of(history).insert(key, value),
        CommandView::Remove { key } => contents_of(history).remove(key),
    };
    assert forall|key: Seq<char>| #[trigger]
        contents_of(longer).dom().contains(key) == expected.dom().contains(key) by {
        lemma_latest_push(history, entry, key);
    }
    assert forall|key: Seq<char>| #[trigger]
        contents_of(longer).dom().contains(key) implies contents_of(longer)[key]
        == expected[key] by {
        lemma_latest_push(history, entry, key);
    }
    assert(contents_of(longer) =~= expected);
}

/// Recovery builds the index that the records determine: applying them one
/// by one leaves each live key pointing at the last record about it.
pub proof fn lemma_replay_is_index(history: Seq<Entry>)
    ensures
        replay(history) == index_of(history),
    decreases history.len(),
{
    if history.len() == 0 {
        assert(index_of(history) =~= Map::empty());
    } else {
        lemma_replay_is_index(history.drop_last());
        lemma_index_push(history.drop_last(), history.last());
        assert(history.drop_last().push(history.last()) =~= history);
    }
}

/// Only finitely many keys are live, and they are the keys of the index.
pub proof fn lemma_live_keys_finite(history: Seq<Entry>)
    ensures
        live_keys(history).finite(),
        index_of(history).dom() == live_keys(history),
        contents_of(history).dom() == live_keys(history),
    decreases history.len(),
{
    assert(index_of(history).dom() =~= live_keys(history));
    assert(contents_of(history).dom() =~= live_keys(history));
    if history.len() == 0 {
        assert(live_keys(history) =~= Set::empty());
    } else {
        let front = history.drop_last();
        lemma_live_keys_finite(front);
        lemma_index_push(front, history.last());
        assert(front.push(history.last()) =~= history);
        match history.last().command {
            CommandView::Put { key, .. } => {
                assert(live_keys(history) =~= live_keys(front).insert(key));
            },
            CommandView::Remove { key } => {
                assert(live_keys(history) =~= live_keys(front).remove(key));
            },
        }
    }
}

/// One more record, laid at the end, keeps the records end to end.
pub proof fn lemma_tiles_push(history: Seq<Entry>, end: int, entry: Entry)
    requires
        tiles(history, end),
        entry.span.pos == end,
    ensures
        tiles(history.push(entry), entry.span.end()),
{
    let longer = history.push(entry);
    assert forall|i: int, j: int| 0 <= i && j == i + 1 && j < longer.len() implies (
    #[trigger] longer[j]).span.pos == (#[trigger] longer[i]).span.end() by {
        assert(longer[i] == history[i]);
        if j < history.len() {
            assert(longer[j] == history[j]);
        }
    }
}

} // verus!
