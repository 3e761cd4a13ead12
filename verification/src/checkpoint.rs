//! Checkpoints, the store that keeps them, and the search filter over the store.
//!
//! A checkpoint is a batch of consecutive messages together with the digest of
//! their canonical form. The store keeps checkpoints in the order in which they
//! closed, keyed by the closing timestamp; keys strictly increase, so a key
//! names at most one checkpoint, and nothing stored is ever removed or changed.

use crate::encoding::{Digest32, checkpoint_digest, checkpoint_hash};
use crate::message::{ChatMessage, MessageView, copy_messages, views_of};
use crate::text::{chars_contain, chars_of, occurs_in};
use vstd::prelude::*;

verus! {

/// A closed batch of messages with its integrity digest.
#[derive(Debug, PartialEq, Eq)]
pub struct Checkpoint {
    /// Digest of `messages` in canonical form.
    pub hash: Digest32,
    /// The messages, in arrival order.
    pub messages: Vec<ChatMessage>,
}

/// What a [`Checkpoint`] stands for.
pub struct CheckpointView {
    pub hash: Seq<u8>,
    pub messages: Seq<MessageView>,
}

impl CheckpointView {
    /// The digest belongs to exactly these messages.
    pub open spec fn sealed(self) -> bool {
        self.hash == checkpoint_digest(self.messages)
    }

    /// At least one message text contains `search`.
    pub open spec fn mentions(self, search: Seq<char>) -> bool {
        exists|i: int|
            0 <= i < self.messages.len() && occurs_in(search, #[trigger] self.messages[i].text)
    }
}

impl View for Checkpoint {
    type V = CheckpointView;

    open spec fn view(&self) -> CheckpointView {
        CheckpointView { hash: self.hash@, messages: views_of(self.messages@) }
    }
}

impl Clone for Checkpoint {
    fn clone(&self) -> (copy: Self)
        ensures
            copy@ == self@,
    {
        Checkpoint { hash: self.hash, messages: copy_messages(&self.messages) }
    }
}

impl Checkpoint {
    /// Closes `messages` into a checkpoint: computes their digest and binds it to
    /// them. Hash and messages come from the same snapshot. Always succeeds.
    pub fn seal(messages: Vec<ChatMessage>) -> (sealed: Result<
        Checkpoint,
        (serde_json::Error, Vec<ChatMessage>),
    >)
        ensures
            sealed matches Ok(checkpoint) && checkpoint.messages == messages
                && checkpoint@.sealed(),
    {
        match checkpoint_hash(&messages) {
            Ok(hash) => Ok(Checkpoint { hash, messages }),
            Err(e) => Err((e, messages)),
        }
    }

    /// Decides [`CheckpointView::mentions`] for a pattern given as characters.
    pub fn mentions_chars(&self, search: &Vec<char>) -> (found: bool)
        ensures
            found == self@.mentions(search@),
    {
        let mut i: usize = 0;
        while i < self.messages.len()
            invariant
                i <= self.messages.len(),
                forall|j: int| 0 <= j < i ==> !occurs_in(search@, #[trigger] self@.messages[j].text),
            decreases self.messages.len() - i,
        {
            let text = chars_of(self.messages[i].text.as_str());
            if chars_contain(&text, search) {
                assert(occurs_in(search@, self@.messages[i as int].text));
                return true;
            }
            i += 1;
        }
        false
    }

    /// Whether some message text of this checkpoint contains `search` as a
    /// substring: case-sensitive, exact, nothing trimmed.
    pub fn mentions(&self, search: &str) -> (found: bool)
        ensures
            found == self@.mentions(search@),
    {
        let pattern = chars_of(search);
        self.mentions_chars(&pattern)
    }
}

/// The store as a mathematical object: `(closing timestamp, checkpoint)` pairs
/// in closing order.
pub type StoreView = Seq<(u64, CheckpointView)>;

/// The views of stored entries, in the same order.
pub open spec fn entries_view(entries: Seq<(u64, Checkpoint)>) -> StoreView {
    entries.map_values(|e: (u64, Checkpoint)| (e.0, e.1@))
}

/// Keys strictly increase along the sequence.
pub open spec fn increasing(entries: StoreView) -> bool {
    forall|i: int, j: int| 0 <= i < j < entries.len() ==> entries[i].0 < entries[j].0
}

/// Some entry is keyed by `closed_at`.
pub open spec fn has_key(entries: StoreView, closed_at: u64) -> bool {
    exists|i: int| 0 <= i < entries.len() && (#[trigger] entries[i]).0 == closed_at
}

/// The selection predicate of the search filter.
pub open spec fn mentioning(search: Seq<char>) -> spec_fn((u64, CheckpointView)) -> bool {
    |entry: (u64, CheckpointView)| entry.1.mentions(search)
}

/// The candidates for `search`: the entries that mention it, order kept.
pub open spec fn candidates_of(entries: StoreView, search: Seq<char>) -> StoreView {
    entries.filter(mentioning(search))
}

/// Checkpoints keyed by closing timestamp, in closing order.
#[derive(Debug, PartialEq, Eq)]
pub struct CheckpointStore {
    entries: Vec<(u64, Checkpoint)>,
}

impl View for CheckpointStore {
    type V = StoreView;

    closed spec fn view(&self) -> StoreView {
        entries_view(self.entries@)
    }
}

impl CheckpointStore {
    /// Keys strictly increase in closing order, hence are unique.
    pub open spec fn wf(&self) -> bool {
        increasing(self@)
    }

    /// The empty store.
    pub fn new() -> (store: Self)
        ensures
            store@ == StoreView::empty(),
            store.wf(),
    {
        let store = CheckpointStore { entries: Vec::new() };
        assert(store@ =~= StoreView::empty());
        store
    }

    /// Number of checkpoints held.
    pub fn len(&self) -> (n: usize)
        ensures
            n == self@.len(),
    {
        self.entries.len()
    }

    /// The stored pairs in closing order.
    pub fn entries(&self) -> (entries: &Vec<(u64, Checkpoint)>)
        ensures
            entries_view(entries@) == self@,
    {
        &self.entries
    }

    /// The closing timestamp of the newest checkpoint, if any.
    pub fn last_key(&self) -> (key: Option<u64>)
        ensures
            match key {
                Some(k) => self@.len() > 0 && k == self@.last().0,
                None => self@.len() == 0,
            },
    {
        let n = self.entries.len();
        if n == 0 {
            None
        } else {
            Some(self.entries[n - 1].0)
        }
    }

    /// Adds a checkpoint that closed at `closed_at` behind all others.
    ///
    /// The store only grows at its end and never overwrites: the checkpoint is
    /// taken exactly when `closed_at` is later than every key already present.
    /// Otherwise the store is left as it was and the checkpoint is handed back.
    pub fn append(&mut self, closed_at: u64, checkpoint: Checkpoint) -> (refused: Option<
        Checkpoint,
    >)
        ensures
            match refused {
                None => {
                    &&& old(self)@.len() == 0 || old(self)@.last().0 < closed_at
                    &&& final(self)@ == old(self)@.push((closed_at, checkpoint@))
                },
                Some(returned) => {
                    &&& old(self)@.len() > 0 && old(self)@.last().0 >= closed_at
                    &&& returned == checkpoint
                    &&& *final(self) == *old(self)
                },
            },
            old(self).wf() ==> final(self).wf(),
    {
        let n = self.entries.len();
        if n > 0 && self.entries[n - 1].0 >= closed_at {
            return Some(checkpoint);
        }
        let ghost before = self.entries@;
        self.entries.push((closed_at, checkpoint));
        assert(self@ =~= entries_view(before).push((closed_at, checkpoint@)));
        proof {
            if old(self).wf() {
                assert forall|i: int, j: int| 0 <= i < j < self@.len() implies self@[i].0
                    < self@[j].0 by {
                    if j == self@.len() - 1 {
                        assert(old(self)@[i].0 <= old(self)@.last().0);
                    } else {
                        assert(old(self)@[i].0 < old(self)@[j].0);
                    }
                }
            }
        }
        None
    }

    /// The checkpoint that closed at `closed_at`, if there is one.
    pub fn get(&self, closed_at: u64) -> (found: Option<&Checkpoint>)
        ensures
            found is Some <==> has_key(self@, closed_at),
            found matches Some(checkpoint) ==> self@.contains((closed_at, checkpoint@)),
    {
        let mut i: usize = 0;
        while i < self.entries.len()
            invariant
                i <= self.entries.len(),
                forall|j: int| 0 <= j < i ==> (#[trigger] self@[j]).0 != closed_at,
            decreases self.entries.len() - i,
        {
            if self.entries[i].0 == closed_at {
                assert(self@[i as int] == (closed_at, self.entries@[i as int].1@));
                assert(has_key(self@, closed_at));
                return Some(&self.entries[i].1);
            }
            i += 1;
        }
        None
    }

    /// The search filter: every stored checkpoint with at least one message whose
    /// text contains `search`, and no other, each under its key and in closing
    /// order. An empty result is a valid outcome.
    pub fn filter(&self, search: &str) -> (candidates: CheckpointStore)
        ensures
            candidates@ == candidates_of(self@, search@),
            self.wf() ==> candidates.wf(),
    {
        let pattern = chars_of(search);
        let mut kept: Vec<(u64, Checkpoint)> = Vec::new();
        let mut i: usize = 0;
        while i < self.entries.len()
            invariant
                i <= self.entries.len(),
                pattern@ == search@,
                entries_view(kept@) == candidates_of(self@.take(i as int), search@),
            decreases self.entries.len() - i,
        {
            proof {
                self@.take(i as int).lemma_filter_push(self@[i as int], mentioning(search@));
                assert(self@.take(i + 1) =~= self@.take(i as int).push(self@[i as int]));
            }
            if self.entries[i].1.mentions_chars(&pattern) {
                let ghost before = kept@;
                let copy = self.entries[i].1.clone();
                kept.push((self.entries[i].0, copy));
                assert(entries_view(kept@) =~= entries_view(before).push(self@[i as int]));
            }
            i += 1;
        }
        assert(self@.take(self.entries.len() as int) =~= self@);
        let candidates = CheckpointStore { entries: kept };
        proof {
            if self.wf() {
                lemma_candidates_increasing(self@, search@);
            }
        }
        candidates
    }
}

/// Every candidate is a stored entry that mentions the search string, and every
/// stored entry that mentions it is a candidate.
pub proof fn lemma_filter_exact(entries: StoreView, search: Seq<char>, entry: (u64, CheckpointView))
    ensures
        candidates_of(entries, search).contains(entry) <==> entries.contains(entry)
            && entry.1.mentions(search),
{
    let pred = mentioning(search);
    let kept = entries.filter(pred);
    if kept.contains(entry) {
        let i = choose|i: int| 0 <= i < kept.len() && kept[i] == entry;
        entries.lemma_filter_pred(pred, i);
        entries.lemma_filter_contains_rev(pred, entry);
    }
    if entries.contains(entry) && entry.1.mentions(search) {
        let i = choose|i: int| 0 <= i < entries.len() && entries[i] == entry;
        entries.lemma_filter_contains(pred, i);
    }
}

/// Filtering keeps the closing order: the candidates of a store with strictly
/// increasing keys have strictly increasing keys, all of them keys of the store.
pub proof fn lemma_candidates_increasing(entries: StoreView, search: Seq<char>)
    requires
        increasing(entries),
    ensures
        increasing(candidates_of(entries, search)),
        forall|k: int|
            0 <= k < candidates_of(entries, search).len() ==> has_key(
                entries,
                #[trigger] candidates_of(entries, search)[k].0,
            ),
        entries.len() > 0 && candidates_of(entries, search).len() > 0 ==> candidates_of(
            entries,
            search,
        ).last().0 <= entries.last().0,
    decreases entries.len(),
{
    reveal(Seq::filter);
    if entries.len() > 0 {
        let earlier = entries.drop_last();
        lemma_candidates_increasing(earlier, search);
        let kept = candidates_of(earlier, search);
        assert forall|k: int| 0 <= k < kept.len() implies has_key(entries, #[trigger] kept[k].0) by {
            let i = choose|i: int| 0 <= i < earlier.len() && earlier[i].0 == kept[k].0;
            assert(entries[i].0 == kept[k].0);
        }
        if kept.len() > 0 {
            assert(earlier.last() == entries[entries.len() - 2]);
        }
    }
}

} // verus!
