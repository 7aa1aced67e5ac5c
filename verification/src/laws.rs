//! What holds of every store, stated over the history of its log.

use crate::command::CommandView;
use crate::history::{
    contents_of, index_of, is_last_mention, last_mention, latest, lemma_last_mention,
    lemma_last_mention_unique, lemma_live_keys_finite, lemma_replay_is_index, live, live_keys,
    replay, Entry,
};
use crate::store::KvStore;
use vstd::prelude::*;

verus! {

/// None of `later` is about `key`.
pub open spec fn silent_about(later: Seq<Entry>, key: Seq<char>) -> bool {
    forall|i: int| 0 <= i < later.len() ==> (#[trigger] later[i]).command.key() != key
}

/// A record stays the last one about its key while no later record is about
/// that key.
proof fn lemma_latest_survives(history: Seq<Entry>, entry: Entry, later: Seq<Entry>)
    requires
        silent_about(later, entry.command.key()),
    ensures
        last_mention(history.push(entry) + later, entry.command.key()) == Some(
            history.len() as int,
        ),
        latest(history.push(entry) + later, entry.command.key()) == entry,
{
    let all = history.push(entry) + later;
    let at = history.len() as int;
    assert(all[at] == entry);
    assert forall|j: int| at < j < all.len() implies (#[trigger] all[j]).command.key()
        != entry.command.key() by {
        assert(all[j] == later[j - at - 1]);
    }
    assert(is_last_mention(all, entry.command.key(), at));
    lemma_last_mention_unique(all, entry.command.key(), at);
}

/// A key that was set keeps its value until a later record is about it: after
/// a `Put`, and after any records about other keys, the key is live, its
/// value is the one that was put, and the index points at that `Put`.
pub proof fn law_put_then_get(history: Seq<Entry>, put: Entry, later: Seq<Entry>)
    requires
        put.command is Put,
        silent_about(later, put.command.key()),
    ensures
        contents_of(history.push(put) + later).contains_key(put.command.key()),
        contents_of(history.push(put) + later)[put.command.key()] == put.command->value,
        index_of(history.push(put) + later).contains_key(put.command.key()),
        index_of(history.push(put) + later)[put.command.key()] == put.span,
{
    lemma_latest_survives(history, put, later);
}

/// A key that was removed has no value until a later record is about it, and
/// removing it once more straight away is refused.
pub proof fn law_remove_then_get(history: Seq<Entry>, removal: Entry, later: Seq<Entry>)
    requires
        removal.command is Remove,
        silent_about(later, removal.command.key()),
    ensures
        !contents_of(history.push(removal) + later).contains_key(removal.command.key()),
        !index_of(history.push(removal) + later).contains_key(removal.command.key()),
        !KvStore::accepts(history.push(removal), removal.command),
{
    lemma_latest_survives(history, removal, later);
    lemma_latest_survives(history, removal, Seq::empty());
    assert(history.push(removal) + Seq::<Entry>::empty() =~= history.push(removal));
}

/// Recovery is faithful: replaying the records of a store's log from the
/// first gives the index that the store holds.
pub proof fn law_replay_fidelity(store: KvStore)
    requires
        store.wf(),
    ensures
        replay(store.history()) == store.index(),
{
    lemma_replay_is_index(store.history());
}

/// The index and the values of a store are those of its log alone: two
/// stores whose logs hold the same records, such as a store and the one
/// opened later over its log, hold the same index and the same values, and
/// their next spans begin at the same offset.
pub proof fn law_reopen(before: KvStore, after: KvStore)
    requires
        before.wf(),
        after.wf(),
        after.history() == before.history(),
    ensures
        after.index() == before.index(),
        after.values() == before.values(),
        after.next_offset() == before.next_offset(),
{
}

/// The later of two `Put`s of one key wins: both records are part of the log,
/// the key has the second value, and only the second record is indexed.
pub proof fn law_overwrite(history: Seq<Entry>, first: Entry, second: Entry)
    requires
        first.command is Put,
        second.command is Put,
        first.command.key() == second.command.key(),
    ensures
        history.push(first).push(second)[history.len() as int] == first,
        history.push(first).push(second)[history.len() as int + 1] == second,
        contents_of(history.push(first).push(second))[second.command.key()]
            == second.command->value,
        index_of(history.push(first).push(second))[second.command.key()] == second.span,
        index_of(history.push(first).push(second)).dom() == index_of(history.push(first)).dom(),
{
    let longer = history.push(first);
    lemma_latest_survives(longer, second, Seq::empty());
    assert(longer.push(second) + Seq::<Entry>::empty() =~= longer.push(second));
    lemma_latest_survives(history, first, Seq::empty());
    assert(longer + Seq::<Entry>::empty() =~= longer);
    crate::history::lemma_index_push(longer, second);
    assert(index_of(longer.push(second)).dom() =~= index_of(longer).dom());
}

/// The index has one key for each key whose last record is a `Put`, and no
/// other.
pub proof fn law_cardinality(history: Seq<Entry>)
    ensures
        live_keys(history).finite(),
        index_of(history).dom() == live_keys(history),
        index_of(history).len() == live_keys(history).len(),
        forall|key: Seq<char>|
            live_keys(history).contains(key) <==> exists|i: int|
                is_last_mention(history, key, i) && history[i].command is Put,
{
    lemma_live_keys_finite(history);
    assert forall|key: Seq<char>|
        live_keys(history).contains(key) <==> exists|i: int|
            is_last_mention(history, key, i) && history[i].command is Put by {
        lemma_last_mention(history, key);
        if live(history, key) {
            let i = last_mention(history, key).unwrap();
            assert(is_last_mention(history, key, i) && history[i].command is Put);
        }
        if exists|i: int| is_last_mention(history, key, i) && history[i].command is Put {
            let i = choose|i: int| is_last_mention(history, key, i) && history[i].command is Put;
            lemma_last_mention_unique(history, key, i);
        }
    }
}

} // verus!
