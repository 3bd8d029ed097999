//! The update manager: polls channels over a duplex stream, suppresses
//! payloads already seen, decodes fresh ones, and gathers one batch per
//! cycle.
//!
//! The dedup cache keeps, per channel, the last raw payload seen (the empty
//! string before anything was seen). It never stores a payload that failed to
//! decode, and a batch never holds an entry for a channel whose payload was
//! absent, empty, or unchanged since the last cycle.

use vstd::prelude::*;

use crate::markup::{decode_message, parse_message, Message};
use crate::scan::bytes_eq;
use crate::wire::{Action, Channel, ManagerError, ToolRequest, ToolResponse, CHANNEL_COUNT};

verus! {

/// A duplex channel: one request in, exactly one response out, synchronously.
/// Implementations must not interleave concurrent request/response pairs on
/// one underlying transport (at most one in-flight request per instance).
///
/// Nothing is promised of the response: the manager is verified to behave
/// correctly whatever comes back.
pub trait ToolStream {
    fn do_request(&mut self, req: &ToolRequest) -> (r: Result<ToolResponse, ManagerError>);
}

/// The request a poll sends: a consuming receive when asked for, a
/// non-consuming view otherwise, for the given channel, with no payload.
pub fn make_request(c: Channel, receive: bool) -> (r: ToolRequest)
    ensures
        r.channel == c,
        r.payload is None,
        r.action == (if receive {
            Action::Receive
        } else {
            Action::View
        }),
{
    ToolRequest {
        action: if receive {
            Action::Receive
        } else {
            Action::View
        },
        channel: c,
        payload: None,
    }
}

/// Polls channels through a stream and deduplicates their payloads.
pub struct ToolManager<S: ToolStream> {
    stream: S,
    fetch_cache: Vec<Vec<u8>>,
}

impl<S: ToolStream> ToolManager<S> {
    /// One slot per channel.
    pub closed spec fn wf(self) -> bool {
        self.fetch_cache@.len() == CHANNEL_COUNT
    }

    /// The dedup cache as a sequence of byte strings, indexed by
    /// `Channel::index_spec`.
    pub closed spec fn cache(self) -> Seq<Seq<u8>> {
        self.fetch_cache@.map_values(|v: Vec<u8>| v@)
    }

    /// A fresh manager: every channel's last-seen payload is the empty
    /// string.
    pub fn new(stream: S) -> (m: ToolManager<S>)
        ensures
            m.wf(),
            forall|i: int| 0 <= i < CHANNEL_COUNT ==> m.cache()[i] == Seq::<u8>::empty(),
    {
        let mut fetch_cache: Vec<Vec<u8>> = Vec::new();
        let mut k: usize = 0;
        while k < CHANNEL_COUNT
            invariant
                k <= CHANNEL_COUNT,
                fetch_cache@.len() == k,
                forall|i: int| 0 <= i < k ==> fetch_cache@[i]@ == Seq::<u8>::empty(),
            decreases CHANNEL_COUNT - k,
        {
            fetch_cache.push(Vec::new());
            k = k + 1;
        }
        ToolManager { stream, fetch_cache }
    }

    /// Fold one response for channel `c` into the cache and decide what it
    /// yields: `None` for "no update" (data absent, unchanged, or empty), a
    /// decoded message for a fresh payload, a conversion failure for a fresh
    /// payload that does not decode. The cache takes the new payload exactly
    /// when the call does not fail.
    pub fn process_response(&mut self, c: Channel, rsp: ToolResponse) -> (r: Result<
        Option<Message>,
        ManagerError,
    >)
        requires
            old(self).wf(),
        ensures
            final(self).wf(),
            rsp.data is None ==> r == Ok::<Option<Message>, ManagerError>(None)
                && final(self).cache() == old(self).cache(),
            rsp.data matches Some(p) ==> ({
                let idx = c.index_spec();
                let cached = old(self).cache()[idx];
                &&& (p@ == cached ==> r == Ok::<Option<Message>, ManagerError>(None)
                    && final(self).cache() == old(self).cache())
                &&& (p@ != cached && p@.len() == 0
                    ==> r == Ok::<Option<Message>, ManagerError>(None)
                    && final(self).cache() == old(self).cache().update(idx, p@))
                &&& (p@ != cached && p@.len() > 0 && parse_message(p@) is Some
                    ==> (r matches Ok(opt) && opt matches Some(m)
                        && Some(m.model()) == parse_message(p@))
                    && final(self).cache() == old(self).cache().update(idx, p@))
                &&& (p@ != cached && p@.len() > 0 && parse_message(p@) is None
                    ==> r == Err::<Option<Message>, ManagerError>(ManagerError::ConvertError)
                    && final(self).cache() == old(self).cache())
            }),
    {
        let idx = c.index();
        match rsp.data {
            None => Ok(None),
            Some(p) => {
                let same = bytes_eq(p.as_slice(), self.fetch_cache[idx].as_slice());
                if same {
                    Ok(None)
                } else if p.len() == 0 {
                    let ghost pv = p@;
                    self.fetch_cache[idx] = p;
                    proof {
                        assert(pv =~= Seq::<u8>::empty());
                        assert(self.cache() =~= old(self).cache().update(idx as int, pv));
                    }
                    Ok(None)
                } else {
                    match decode_message(p.as_slice()) {
                        Ok(m) => {
                            let ghost pv = p@;
                            self.fetch_cache[idx] = p;
                            proof {
                                assert(self.cache() =~= old(self).cache().update(idx as int, pv));
                            }
                            Ok(Some(m))
                        },
                        Err(e) => Err(e),
                    }
                }
            },
        }
    }

    /// Poll one channel: send a view (or consuming receive) request, then
    /// fold the response into the cache. An error leaves the cache as it
    /// was; a fresh decoded message leaves the cache holding exactly the
    /// payload it was decoded from; no other channel's slot ever moves.
    pub fn fetch_updates(&mut self, c: Channel, receive: bool) -> (r: Result<
        Option<Message>,
        ManagerError,
    >)
        requires
            old(self).wf(),
        ensures
            final(self).wf(),
            forall|j: int|
                0 <= j < CHANNEL_COUNT && j != c.index_spec()
                    ==> final(self).cache()[j] == old(self).cache()[j],
            r is Err ==> final(self).cache() == old(self).cache(),
            r matches Ok(Some(m)) ==> ({
                let idx = c.index_spec();
                &&& parse_message(final(self).cache()[idx]) == Some(m.model())
                &&& final(self).cache()[idx] != old(self).cache()[idx]
                &&& final(self).cache()[idx].len() > 0
            }),
            r matches Ok(opt) && opt is None ==> ({
                let idx = c.index_spec();
                final(self).cache()[idx] == old(self).cache()[idx] || final(self).cache()[idx]
                    == Seq::<u8>::empty()
            }),
    {
        let req = make_request(c, receive);
        match self.stream.do_request(&req) {
            Err(e) => Err(e),
            Ok(rsp) => self.process_response(c, rsp),
        }
    }

    /// One pass over the given channels of interest, with non-consuming
    /// view requests. A failing channel never aborts the pass and never
    /// raises an error to the caller; only fresh, non-empty, decoded results
    /// enter the batch. The batch comes back exactly when it is non-empty,
    /// so the caller emits it at most once per cycle; every entry belongs to
    /// one of the given channels, and distinct channels give distinct
    /// entries.
    #[verifier::rlimit(60)]
    pub fn fetch_cycle(&mut self, channels: &Vec<Channel>) -> (r: Option<Vec<(Channel, Message)>>)
        requires
            old(self).wf(),
        ensures
            final(self).wf(),
            r matches Some(batch) ==> batch@.len() > 0,
            r matches Some(batch) ==> forall|i: int|
                0 <= i < batch@.len() ==> channels@.contains(#[trigger] batch@[i].0),
            (forall|i: int, j: int|
                0 <= i < j < channels@.len() ==> channels@[i] != channels@[j]) ==> (r matches Some(
                batch,
            ) ==> forall|i: int, j: int|
                0 <= i < j < batch@.len() ==> batch@[i].0 != batch@[j].0),
            (forall|i: int, j: int|
                0 <= i < j < channels@.len() ==> channels@[i] != channels@[j]) ==> (r matches Some(
                batch,
            ) ==> forall|i: int|
                0 <= i < batch@.len() ==> parse_message(
                    final(self).cache()[(#[trigger] batch@[i].0).index_spec()],
                ) == Some(batch@[i].1.model())),
            forall|ch: Channel|
                #![trigger ch.index_spec()]
                !channels@.contains(ch)
                    ==> final(self).cache()[ch.index_spec()]
                    == old(self).cache()[ch.index_spec()],
            (forall|i: int, j: int|
                0 <= i < j < channels@.len() ==> channels@[i] != channels@[j]) ==> (r matches Some(
                batch,
            ) ==> forall|i: int|
                0 <= i < batch@.len()
                    ==> final(self).cache()[(#[trigger] batch@[i].0).index_spec()]
                    != old(self).cache()[batch@[i].0.index_spec()]
                    && final(self).cache()[batch@[i].0.index_spec()].len() > 0),
            (forall|i: int, j: int|
                0 <= i < j < channels@.len() ==> channels@[i] != channels@[j]) ==> (forall|w: int|
                0 <= w < channels@.len()
                    && final(self).cache()[(#[trigger] channels@[w]).index_spec()]
                    != old(self).cache()[channels@[w].index_spec()]
                    && final(self).cache()[channels@[w].index_spec()].len() > 0
                    ==> (r matches Some(batch) && exists|i: int|
                    0 <= i < batch@.len() && batch@[i].0 == channels@[w])),
    {
        let mut batch: Vec<(Channel, Message)> = Vec::new();
        let n = channels.len();
        let mut k: usize = 0;
        while k < n
            invariant
                self.wf(),
                n == channels@.len(),
                k <= n,
                forall|i: int|
                    0 <= i < batch@.len() ==> channels@.contains(#[trigger] batch@[i].0),
                forall|i: int|
                    0 <= i < batch@.len() ==> channels@.subrange(0, k as int).contains(
                        #[trigger] batch@[i].0,
                    ),
                (forall|i: int, j: int|
                    0 <= i < j < channels@.len() ==> channels@[i] != channels@[j]) ==> (forall|
                    i: int,
                    j: int,
                |
                    0 <= i < j < batch@.len() ==> batch@[i].0 != batch@[j].0),
                (forall|i: int, j: int|
                    0 <= i < j < channels@.len() ==> channels@[i] != channels@[j]) ==> (forall|
                    i: int,
                |
                    0 <= i < batch@.len() ==> parse_message(
                        self.cache()[(#[trigger] batch@[i].0).index_spec()],
                    ) == Some(batch@[i].1.model())),
                forall|ch: Channel|
                    #![trigger ch.index_spec()]
                    !channels@.subrange(0, k as int).contains(ch)
                        ==> self.cache()[ch.index_spec()]
                        == old(self).cache()[ch.index_spec()],
                (forall|i: int, j: int|
                    0 <= i < j < channels@.len() ==> channels@[i] != channels@[j]) ==> (forall|
                    i: int,
                |
                    0 <= i < batch@.len()
                        ==> self.cache()[(#[trigger] batch@[i].0).index_spec()]
                        != old(self).cache()[batch@[i].0.index_spec()]
                        && self.cache()[batch@[i].0.index_spec()].len() > 0),
                (forall|i: int, j: int|
                    0 <= i < j < channels@.len() ==> channels@[i] != channels@[j]) ==> (forall|
                    w: int,
                |
                    0 <= w < k
                        && self.cache()[(#[trigger] channels@[w]).index_spec()]
                        != old(self).cache()[channels@[w].index_spec()]
                        && self.cache()[channels@[w].index_spec()].len() > 0 ==> exists|i: int|
                        0 <= i < batch@.len() && batch@[i].0 == channels@[w]),
            decreases n - k,
        {
            let c = channels[k];
            let ghost pre_self = *self;
            let step = self.fetch_updates(c, false);
            let ghost pre_batch = batch@;
            match step {
                Ok(opt) => {
                    match opt {
                        Some(m) => {
                            proof {
                                if forall|i: int, j: int|
                                    0 <= i < j < channels@.len() ==> channels@[i] != channels@[j] {
                                    assert forall|i: int| 0 <= i < pre_batch.len() implies
                                        pre_batch[i].0 != channels@[k as int] by {
                                        let sub = channels@.subrange(0, k as int);
                                        assert(sub.contains(pre_batch[i].0));
                                        let w = choose|w: int|
                                            0 <= w < sub.len() && sub[w] == pre_batch[i].0;
                                        assert(channels@[w] == pre_batch[i].0);
                                    }
                                }
                            }
                            batch.push((c, m));
                        },
                        None => {},
                    }
                },
                Err(_) => {},
            }
            proof {
                assert forall|i: int| 0 <= i < batch@.len() implies channels@.subrange(
                    0,
                    (k + 1) as int,
                ).contains(#[trigger] batch@[i].0) by {
                    if i < pre_batch.len() {
                        let sub = channels@.subrange(0, k as int);
                        assert(sub.contains(batch@[i].0));
                        let w = choose|w: int| 0 <= w < sub.len() && sub[w] == batch@[i].0;
                        assert(channels@.subrange(0, (k + 1) as int)[w] == batch@[i].0);
                    } else {
                        assert(batch@[i].0 == channels@[k as int]);
                        assert(channels@.subrange(0, (k + 1) as int)[k as int]
                            == channels@[k as int]);
                    }
                }
                assert forall|i: int| 0 <= i < batch@.len() implies channels@.contains(
                    #[trigger] batch@[i].0,
                ) by {
                    if i >= pre_batch.len() {
                        assert(batch@[i].0 == channels@[k as int]);
                    }
                }
                if forall|i: int, j: int|
                    0 <= i < j < channels@.len() ==> channels@[i] != channels@[j] {
                    assert forall|i: int| 0 <= i < batch@.len() implies parse_message(
                        self.cache()[(#[trigger] batch@[i].0).index_spec()],
                    ) == Some(batch@[i].1.model()) by {
                        if i < pre_batch.len() {
                            let sub = channels@.subrange(0, k as int);
                            assert(sub.contains(batch@[i].0));
                            let w = choose|w: int| 0 <= w < sub.len() && sub[w] == batch@[i].0;
                            assert(channels@[w] == batch@[i].0);
                            assert(batch@[i].0 != c);
                            Channel::lemma_index_injective(batch@[i].0, c);
                            Channel::lemma_index_bounds(batch@[i].0);
                            assert(self.cache()[batch@[i].0.index_spec()] == pre_self.cache()[
                                batch@[i].0.index_spec()]);
                        } else {
                            assert(batch@[i] == (c, step->Ok_0->Some_0));
                        }
                    }
                }
                assert forall|ch: Channel|
                    #![trigger ch.index_spec()]
                    !channels@.subrange(0, (k + 1) as int).contains(ch) implies self.cache()[
                    ch.index_spec()] == old(self).cache()[ch.index_spec()] by {
                    let sub0 = channels@.subrange(0, k as int);
                    let sub1 = channels@.subrange(0, (k + 1) as int);
                    if ch == c {
                        assert(sub1[k as int] == ch);
                        assert(sub1.contains(ch));
                    }
                    if sub0.contains(ch) {
                        let w = choose|w: int| 0 <= w < sub0.len() && sub0[w] == ch;
                        assert(sub1[w] == ch);
                        assert(sub1.contains(ch));
                    }
                    Channel::lemma_index_injective(ch, c);
                    Channel::lemma_index_bounds(ch);
                    assert(self.cache()[ch.index_spec()] == pre_self.cache()[ch.index_spec()]);
                }
                if forall|i: int, j: int|
                    0 <= i < j < channels@.len() ==> channels@[i] != channels@[j] {
                    assert(!channels@.subrange(0, k as int).contains(c)) by {
                        let sub = channels@.subrange(0, k as int);
                        if sub.contains(c) {
                            let w = choose|w: int| 0 <= w < sub.len() && sub[w] == c;
                            assert(channels@[w] == channels@[k as int]);
                        }
                    }
                    assert(pre_self.cache()[c.index_spec()] == old(self).cache()[c.index_spec()]);
                    assert forall|i: int|
                        0 <= i < batch@.len()
                        implies self.cache()[(#[trigger] batch@[i].0).index_spec()]
                        != old(self).cache()[batch@[i].0.index_spec()]
                        && self.cache()[batch@[i].0.index_spec()].len() > 0 by {
                        if i < pre_batch.len() {
                            let sub = channels@.subrange(0, k as int);
                            assert(sub.contains(batch@[i].0));
                            let w = choose|w: int| 0 <= w < sub.len() && sub[w] == batch@[i].0;
                            assert(channels@[w] == batch@[i].0);
                            assert(batch@[i].0 != c);
                            Channel::lemma_index_injective(batch@[i].0, c);
                            Channel::lemma_index_bounds(batch@[i].0);
                            assert(self.cache()[batch@[i].0.index_spec()] == pre_self.cache()[
                                batch@[i].0.index_spec()]);
                        } else {
                            assert(batch@[i].0 == c);
                        }
                    }
                    assert forall|w: int|
                        0 <= w < k + 1 && self.cache()[(#[trigger] channels@[w]).index_spec()]
                        != old(self).cache()[channels@[w].index_spec()]
                        && self.cache()[channels@[w].index_spec()].len() > 0 implies exists|i: int|
                        0 <= i < batch@.len() && batch@[i].0 == channels@[w] by {
                        if w < k {
                            assert(channels@[w] != c);
                            Channel::lemma_index_injective(channels@[w], c);
                            Channel::lemma_index_bounds(channels@[w]);
                            assert(self.cache()[channels@[w].index_spec()] == pre_self.cache()[
                                channels@[w].index_spec()]);
                            let ii = choose|ii: int|
                                0 <= ii < pre_batch.len() && pre_batch[ii].0 == channels@[w];
                            assert(batch@[ii].0 == channels@[w]);
                        } else {
                            if step matches Ok(o) && o is Some {
                                assert(batch@[pre_batch.len() as int].0 == c);
                            }
                        }
                    }
                }
            }
            k = k + 1;
        }
        proof {
            assert(channels@.subrange(0, n as int) =~= channels@);
        }
        if batch.len() > 0 {
            Some(batch)
        } else {
            None
        }
    }
}

} // verus!
