//! The registry of running challenges: for each chat the sending end of the
//! queue on which its challenge takes commands.

use crate::context::{ContextCommand, ContextData, ContextView};
use std::collections::HashMap;
use tokio::sync::mpsc::{channel, Receiver, Sender};
use vstd::prelude::*;
use vstd::std_specs::iter::IteratorSpec;

verus! {

/// The sending end of a queue of tokio, `tokio::sync::mpsc::Sender`. Nothing
/// is known of a value of it.
#[verifier::external_type_specification]
#[verifier::external_body]
#[verifier::reject_recursive_types(T)]
pub struct ExSender<T>(tokio::sync::mpsc::Sender<T>);

/// The receiving end of a queue of tokio, `tokio::sync::mpsc::Receiver`.
/// Nothing is known of a value of it.
#[verifier::external_type_specification]
#[verifier::external_body]
#[verifier::reject_recursive_types(T)]
pub struct ExReceiver<T>(tokio::sync::mpsc::Receiver<T>);

/// `tokio::sync::mpsc::channel` makes a queue that holds up to `buffer`
/// values. It panics on a capacity of zero and on one above an eighth of the
/// largest `usize`, which this contract leaves out. Nothing is said of the
/// two ends.
pub assume_specification<T>[ tokio::sync::mpsc::channel::<T> ](buffer: usize) -> (ends: (
    Sender<T>,
    Receiver<T>,
))
    requires
        0 < buffer <= usize::MAX / 8,
;

/// `Sender::is_closed` tells whether the queue is closed at the moment of the
/// call. That depends on what the receiving side has done, so nothing is said
/// of the answer.
pub assume_specification<T>[ tokio::sync::mpsc::Sender::<T>::is_closed ](
    sender: &Sender<T>,
) -> (closed: bool)
;

/// How many commands may wait on the queue of one challenge.
pub const QUEUE_CAPACITY: usize = 2048;

/// The registry: the chats with a running challenge, each with the sending
/// end of its queue.
pub struct Contexts {
    pub txs: HashMap<i64, Sender<ContextCommand>>,
}

impl View for Contexts {
    type V = Map<i64, Sender<ContextCommand>>;

    open spec fn view(&self) -> Map<i64, Sender<ContextCommand>> {
        self.txs@
    }
}

impl Contexts {
    /// A registry without entries.
    pub fn new() -> (contexts: Contexts)
        ensures
            contexts@ == Map::<i64, Sender<ContextCommand>>::empty(),
    {
        Contexts { txs: HashMap::new() }
    }

    /// Whether `chat_id` has an entry.
    pub fn is_registered(&self, chat_id: i64) -> (registered: bool)
        ensures
            registered == self@.contains_key(chat_id),
    {
        self.txs.contains_key(&chat_id)
    }

    /// Enters `tx` for `chat_id`, in place of what was entered for it before.
    pub fn register(&mut self, chat_id: i64, tx: Sender<ContextCommand>)
        ensures
            final(self)@ == old(self)@.insert(chat_id, tx),
    {
        self.txs.insert(chat_id, tx);
    }

    /// Takes out the entry of `chat_id`, if there is one.
    pub fn remove(&mut self, chat_id: i64)
        ensures
            final(self)@ == old(self)@.remove(chat_id),
    {
        self.txs.remove(&chat_id);
    }

    /// A copy of all entries as they are now.
    pub fn snapshot(&self) -> (txs: HashMap<i64, Sender<ContextCommand>>)
        ensures
            txs@ == self@,
    {
        self.txs.clone()
    }

    /// The chats that have an entry, each once, in no order in particular.
    pub fn chat_ids(&self) -> (ids: Vec<i64>)
        ensures
            ids@.to_set() == self@.dom(),
            ids@.no_duplicates(),
    {
        let ghost keys = self.txs.keys().remaining().unref();
        let mut ids: Vec<i64> = Vec::new();
        for chat_id in it: self.txs.keys()
            invariant
                it.seq().unref() == keys,
                ids@ == keys.take(it.index()),
        {
            ids.push(*chat_id);
            assert(ids@ =~= keys.take(it.index() + 1));
        }
        assert(ids@ =~= keys);
        ids
    }

    /// What becomes of the entry of `chat_id` once it is known whether its
    /// queue is closed: a closed one is taken out, an open one stays. Returns
    /// whether it stays.
    pub fn settle(&mut self, chat_id: i64, closed: bool) -> (live: bool)
        ensures
            live == !closed,
            final(self)@ == (if closed {
                old(self)@.remove(chat_id)
            } else {
                old(self)@
            }),
    {
        if closed {
            self.remove(chat_id);
        }
        !closed
    }

    /// One round over the registry at the start of a day: every entry whose
    /// queue turns out closed is taken out, and the others are returned, each
    /// once, for the new day to be announced on them.
    pub fn sweep(&mut self) -> (live: Vec<(i64, Sender<ContextCommand>)>)
        ensures
            final(self)@.submap_of(old(self)@),
            ids_of(live@).to_set() == final(self)@.dom(),
            ids_of(live@).no_duplicates(),
            forall|j: int|
                0 <= j < live.len() ==> final(self)@[(#[trigger] live[j]).0] == live[j].1,
    {
        let mut snapshot = self.snapshot();
        let ids = self.chat_ids();
        let mut live: Vec<(i64, Sender<ContextCommand>)> = Vec::new();
        let mut i: usize = 0;
        while i < ids.len()
            invariant
                i <= ids.len(),
                ids@.no_duplicates(),
                ids@.to_set() == old(self)@.dom(),
                forall|k: i64| #[trigger]
                    self@.contains_key(k) ==> old(self)@.contains_key(k) && self@[k] == old(
                        self,
                    )@[k],
                forall|j: int|
                    i <= j < ids.len() ==> self@.contains_key(#[trigger] ids[j])
                        && snapshot@.contains_key(ids[j]) && snapshot@[ids[j]] == old(
                        self,
                    )@[ids[j]],
                forall|j: int|
                    0 <= j < live.len() ==> self@.contains_key((#[trigger] live[j]).0)
                        && self@[live[j].0] == live[j].1 && ids@.take(i as int).contains(
                        live[j].0,
                    ),
                forall|m: int|
                    0 <= m < i && self@.contains_key(#[trigger] ids[m]) ==> ids_of(
                        live@,
                    ).contains(ids[m]),
                ids_of(live@).no_duplicates(),
            decreases ids.len() - i,
        {
            let chat_id = ids[i];
            let ghost live_before = live@;
            let ghost registry_before = self@;
            assert(!ids@.take(i as int).contains(chat_id));
            match snapshot.remove(&chat_id) {
                Some(tx) => {
                    let closed = tx.is_closed();
                    if self.settle(chat_id, closed) {
                        live.push((chat_id, tx));
                    }
                },
                None => {},
            }
            proof {
                assert forall|k: i64| #[trigger] self@.contains_key(k) implies old(
                    self,
                )@.contains_key(k) && self@[k] == old(self)@[k] by {
                    assert(registry_before.contains_key(k));
                }
                assert forall|j: int| 0 <= j < live.len() implies self@.contains_key(
                    (#[trigger] live[j]).0,
                ) && self@[live[j].0] == live[j].1 && ids@.take(i + 1).contains(live[j].0) by {
                    if j < live_before.len() {
                        assert(live[j] == live_before[j]);
                        let m = ids@.take(i as int).index_of(live_before[j].0);
                        assert(ids@.take(i + 1)[m] == live[j].0);
                    } else {
                        assert(ids@.take(i + 1)[i as int] == chat_id);
                    }
                }
                assert forall|m: int|
                    0 <= m < i + 1 && self@.contains_key(#[trigger] ids[m]) implies ids_of(
                    live@,
                ).contains(ids[m]) by {
                    if m < i {
                        let j = ids_of(live_before).index_of(ids[m]);
                        assert(ids_of(live@)[j] == ids[m]);
                    } else {
                        assert(ids_of(live@)[live_before.len() as int] == chat_id);
                    }
                }
                assert(ids_of(live@).no_duplicates()) by {
                    assert forall|a: int, b: int|
                        0 <= a < b < live.len() implies ids_of(live@)[a] != ids_of(live@)[b] by {
                        assert(ids_of(live_before)[a] == live[a].0);
                        if b < live_before.len() {
                            assert(ids_of(live_before)[b] == live[b].0);
                        } else {
                            assert(ids@.take(i as int).contains(live_before[a].0));
                        }
                    }
                }
            }
            i = i + 1;
        }
        proof {
            assert(self@.submap_of(old(self)@)) by {
                assert forall|k: i64| #[trigger] self@.dom().contains(k) implies old(
                    self,
                )@.dom().contains(k) && self@[k] == old(self)@[k] by {
                    assert(self@.contains_key(k));
                }
            }
            assert(ids_of(live@).to_set() =~= self@.dom()) by {
                assert forall|k: i64| self@.contains_key(k) implies ids_of(live@).contains(k) by {
                    assert(old(self)@.dom().contains(k));
                    assert(ids@.to_set().contains(k));
                    let m = ids@.index_of(k);
                    assert(ids[m] == k);
                }
                assert forall|k: i64| ids_of(live@).contains(k) implies self@.contains_key(k) by {
                    let j = ids_of(live@).index_of(k);
                    assert(live[j].0 == k);
                }
            }
        }
        live
    }
}

/// The chats of the entries `entries`, in their order.
pub open spec fn ids_of(entries: Seq<(i64, Sender<ContextCommand>)>) -> Seq<i64> {
    Seq::new(entries.len(), |j: int| entries[j].0)
}

/// Starts a challenge for `chat_id`: opens its queue, enters the sending end
/// in the registry, and returns the state at the start together with the
/// receiving end of the queue.
pub fn init_context(contexts: &mut Contexts, chat_id: i64) -> (started: (
    ContextData,
    Receiver<ContextCommand>,
))
    ensures
        final(contexts)@.dom() == old(contexts)@.dom().insert(chat_id),
        final(contexts)@.remove(chat_id) == old(contexts)@.remove(chat_id),
        started.0.wf(),
        started.0@ == ContextView::initial(chat_id),
{
    let (tx, rx) = channel(QUEUE_CAPACITY);
    contexts.register(chat_id, tx);
    assert(contexts@.remove(chat_id) =~= old(contexts)@.remove(chat_id));
    assert(contexts@.dom() =~= old(contexts)@.dom().insert(chat_id));
    (ContextData::new(chat_id), rx)
}

} // verus!
