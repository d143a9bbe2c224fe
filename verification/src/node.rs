//! The event-loop decision logic of one node: the live peer set, the
//! dedup cache, and the flood-propagation rules.
//!
//! The node owns no connections itself: a peer is known by an
//! application-chosen handle and by its remote address, and every
//! decision — who receives a frame, which message is fresh, which peer
//! is dropped — is a function from the node's state and one event to
//! the new state and a list of outbound writes. The surrounding
//! application performs the reads and writes and feeds the results
//! back in as events.

use vstd::prelude::*;

use crate::msg::CAPACITY;
use crate::msg::Msg;
use crate::msg::TryFromArrayToMsgError;
use crate::msg::TryFromStringToMsgError;
use crate::msg::UUID_SIZE;
use crate::msg::SEP_SIZE;
use crate::msg::clone_bytes;
use crate::msg::msg_eq;
use crate::msg::decodes_to;
use crate::msg::spec_encode;
use crate::queue::Queue;
use crate::queue::contains_eq;
use crate::queue::spec_push;
use crate::queue::spec_push_all;
use crate::queue::window;
use crate::queue::lemma_push_all_window;
use vstd::std_specs::cmp::PartialEqSpec;

verus! {

/// Number of recently seen messages the dedup cache tracks.
pub const DEDUP_CAPACITY: usize = 16;

/// A live peer: the application's handle for the underlying connection
/// and the peer's remote address, used only as a same-origin comparison
/// key for loop avoidance.
pub struct Peer {
    /// Application-chosen identifier of the connection.
    pub handle: u64,
    /// The remote address, as bytes.
    pub addr: Vec<u8>,
}

/// One outbound write: the handle of the peer to write to and the
/// frame bytes to write.
pub struct OutFrame {
    /// Handle of the peer the frame goes to.
    pub to: u64,
    /// The encoded frame, exactly [`CAPACITY`] bytes.
    pub frame: Vec<u8>,
}

/// The peers a message received from the address `origin` is written
/// to: every peer whose address differs from the origin. This is the
/// loop-avoidance rule: a message is never echoed back to the address
/// it arrived from.
pub open spec fn spec_targets(peers: Seq<Peer>, origin: Seq<u8>) -> Seq<Peer> {
    peers.filter(|p: Peer| p.addr@ != origin)
}

/// The peers held back from a propagation: those whose address equals
/// the origin.
pub open spec fn spec_origins(peers: Seq<Peer>, origin: Seq<u8>) -> Seq<Peer> {
    peers.filter(|p: Peer| p.addr@ == origin)
}

/// What the outbound writes of one fan-out must be: one frame per
/// target peer, in peer order, each carrying the message's encoding.
pub open spec fn sends_for(outs: Seq<OutFrame>, targets: Seq<Peer>, m: Msg) -> bool {
    &&& outs.len() == targets.len()
    &&& forall|k: int| 0 <= k < outs.len() ==> #[trigger] outs[k].to == targets[k].handle
    &&& forall|k: int| 0 <= k < outs.len() ==> #[trigger] outs[k].frame@ == spec_encode(
        m.text@,
        m.id@,
    )
}

/// Produces the writes of an unconditional fan-out: the message's
/// frame, once to every peer, in peer order. The peer set itself is
/// not touched.
pub fn broadcast(peers: &Vec<Peer>, msg: &Msg) -> (outs: Vec<OutFrame>)
    requires
        msg.wf(),
    ensures
        sends_for(outs@, peers@, *msg),
{
    let frame = msg.clone().into_bytes();
    let mut outs: Vec<OutFrame> = Vec::new();
    let n = peers.len();
    let mut i: usize = 0;
    while i < n
        invariant
            i <= n,
            n == peers@.len(),
            msg.wf(),
            frame@ == spec_encode(msg.text@, msg.id@),
            outs@.len() == i,
            forall|k: int| 0 <= k < i ==> #[trigger] outs@[k].to == peers@[k].handle,
            forall|k: int| 0 <= k < i ==> #[trigger] outs@[k].frame@ == spec_encode(
                msg.text@,
                msg.id@,
            ),
        decreases n - i,
    {
        outs.push(OutFrame { to: peers[i].handle, frame: clone_bytes(&frame) });
        i = i + 1;
    }
    outs
}

/// Propagates a message received from the address `origin` to the
/// other peers.
///
/// The peer set is partitioned: peers at the origin address are held
/// back and never written to; every other peer gets one frame. The
/// returned peer set holds the written-to peers first and re-merges
/// the held-back origin peers after them, unchanged.
pub fn propagate(peers: Vec<Peer>, msg: &Msg, origin: &Vec<u8>) -> (r: (Vec<Peer>, Vec<OutFrame>))
    requires
        msg.wf(),
    ensures
        r.0@ == spec_targets(peers@, origin@) + spec_origins(peers@, origin@),
        sends_for(r.1@, spec_targets(peers@, origin@), *msg),
{
    let ghost all = peers@;
    let mut remaining = peers;
    let mut rest: Vec<Peer> = Vec::new();
    let mut origins: Vec<Peer> = Vec::new();
    let ghost mut i: int = 0;
    proof {
        reveal(Seq::filter);
        assert(all.take(0) =~= Seq::<Peer>::empty());
    }
    while remaining.len() > 0
        invariant
            0 <= i <= all.len(),
            i == all.len() - remaining@.len(),
            remaining@ == all.skip(i),
            rest@ == spec_targets(all.take(i), origin@),
            origins@ == spec_origins(all.take(i), origin@),
        decreases remaining@.len(),
    {
        let p = remaining.remove(0);
        proof {
            reveal(Seq::filter);
            assert(p == all[i]);
            assert(remaining@ =~= all.skip(i + 1));
            assert(all.take(i + 1).drop_last() =~= all.take(i));
            assert(all.take(i + 1).last() == p);
        }
        if !crate::msg::bytes_eq(&p.addr, origin) {
            rest.push(p);
        } else {
            origins.push(p);
        }
        proof {
            i = i + 1;
        }
    }
    proof {
        assert(all.take(i) =~= all);
    }
    let outs = broadcast(&rest, msg);
    let mut rest = rest;
    rest.append(&mut origins);
    (rest, outs)
}

/// Loop avoidance: no propagation target is at the origin address;
/// every peer at another address is among the targets; and the targets
/// together with the held-back origin peers are a rearrangement of the
/// whole peer set — propagation loses and duplicates no peer.
pub proof fn lemma_no_echo(peers: Seq<Peer>, origin: Seq<u8>)
    ensures
        forall|k: int|
            0 <= k < spec_targets(peers, origin).len() ==> #[trigger] spec_targets(
                peers,
                origin,
            )[k].addr@ != origin,
        forall|j: int|
            0 <= j < peers.len() && peers[j].addr@ != origin ==> spec_targets(
                peers,
                origin,
            ).contains(#[trigger] peers[j]),
        (spec_targets(peers, origin) + spec_origins(peers, origin)).to_multiset()
            == peers.to_multiset(),
    decreases peers.len(),
{
    broadcast use vstd::seq_lib::group_filter_ensures;
    broadcast use vstd::seq_lib::group_to_multiset_ensures;
    broadcast use vstd::multiset::group_multiset_axioms;

    let t = spec_targets(peers, origin);
    let o = spec_origins(peers, origin);
    if peers.len() == 0 {
        reveal(Seq::filter);
        assert(t + o =~= peers);
    } else {
        let a = peers.drop_last();
        let x = peers.last();
        lemma_no_echo(a, origin);
        let ta = spec_targets(a, origin);
        let oa = spec_origins(a, origin);
        vstd::seq_lib::lemma_multiset_commutative(ta, oa);
        vstd::seq_lib::lemma_multiset_commutative(t, o);
        reveal(Seq::filter);
        if x.addr@ != origin {
            assert(t == ta.push(x));
            assert(o == oa);
            assert(t.to_multiset() =~= ta.to_multiset().insert(x));
            assert((t + o).to_multiset() =~= peers.to_multiset()) by {
                assert(a.push(x) =~= peers);
                assert(peers.to_multiset() =~= a.to_multiset().insert(x));
            }
        } else {
            assert(t == ta);
            assert(o == oa.push(x));
            assert(o.to_multiset() =~= oa.to_multiset().insert(x));
            assert((t + o).to_multiset() =~= peers.to_multiset()) by {
                assert(a.push(x) =~= peers);
                assert(peers.to_multiset() =~= a.to_multiset().insert(x));
            }
        }
    }
}

/// Bounded eviction of the dedup cache: after pushing `cap + 1`
/// pairwise-distinct messages into an empty cache of capacity `cap`,
/// the first message is no longer held — it has been evicted — while
/// the most recent `cap` messages all are.
pub proof fn lemma_dedup_eviction(cap: nat, msgs: Seq<Msg>)
    requires
        msgs.len() == cap + 1,
        forall|i: int, j: int|
            0 <= i < j < msgs.len() ==> !msg_eq(#[trigger] msgs[i], #[trigger] msgs[j]),
    ensures
        spec_push_all(Seq::empty(), cap, msgs).len() == cap,
        !contains_eq(spec_push_all(Seq::empty(), cap, msgs), msgs[0]),
        forall|i: int|
            1 <= i < msgs.len() ==> contains_eq(
                spec_push_all(Seq::empty(), cap, msgs),
                #[trigger] msgs[i],
            ),
{
    lemma_push_all_window(Seq::empty(), cap, msgs);
    let res = spec_push_all(Seq::empty(), cap, msgs);
    assert(Seq::empty() + msgs =~= msgs);
    assert(res == window(msgs, cap));
    assert(res =~= msgs.skip(1));
    assert forall|i: int| 1 <= i < msgs.len() implies contains_eq(res, #[trigger] msgs[i]) by {
        assert(res[i - 1] == msgs[i]);
        assert(res[i - 1].eq_spec(&msgs[i]));
    }
    assert forall|k: int| 0 <= k < res.len() implies !res[k].eq_spec(&msgs[0]) by {
        assert(res[k] == msgs[k + 1]);
        assert(!msg_eq(msgs[0], msgs[k + 1]));
    }
}

/// A message is added to the dedup cache only when the cache does not
/// already hold it; a held message leaves the cache unchanged.
pub open spec fn spec_record(s: Seq<Msg>, cap: nat, m: Msg) -> Seq<Msg> {
    if contains_eq(s, m) {
        s
    } else {
        spec_push(s, cap, m).0
    }
}

/// Recording the same message twice in a row equals recording it once:
/// the second recording finds the message present and changes nothing.
/// From an empty cache the size is then one, and nothing is evicted.
pub proof fn lemma_record_idempotent(s: Seq<Msg>, cap: nat, m: Msg)
    requires
        s.len() <= cap,
    ensures
        spec_record(spec_record(s, cap, m), cap, m) == spec_record(s, cap, m),
        s.len() == 0 && 1 <= cap ==> spec_record(s, cap, m) == seq![m] && spec_push(
            s,
            cap,
            m,
        ).1 is None,
{
    let r = spec_record(s, cap, m);
    if !contains_eq(s, m) {
        let r0 = spec_push(s, cap, m).0;
        if s.len() + 1 > cap {
            if cap > 0 {
                assert(r0[cap - 1] == s.push(m)[s.len() as int]);
                assert(r0[cap - 1].eq_spec(&m));
                assert(contains_eq(r0, m));
            } else {
                assert(spec_push(r0, cap, m).0 =~= r0);
            }
        } else {
            assert(r0[s.len() as int] == m);
            assert(r0[s.len() as int].eq_spec(&m));
            assert(contains_eq(r0, m));
        }
    }
    if s.len() == 0 && 1 <= cap {
        assert(spec_record(s, cap, m) =~= seq![m]);
    }
}

/// The node's decision on one inbound frame.
pub enum FrameOutcome {
    /// The frame did not decode; it is dropped and the node unchanged.
    Malformed(TryFromArrayToMsgError),
    /// The message was seen before: neither delivered nor propagated.
    Duplicate,
    /// A fresh message: it is recorded in the dedup cache, handed to
    /// the application for delivery, and propagated.
    Delivered { msg: Msg, outs: Vec<OutFrame> },
}

/// One flooding node: the live peer set and the bounded record of
/// recently seen messages.
pub struct Node {
    /// The live peers, in the order propagation maintains.
    pub peers: Vec<Peer>,
    /// The dedup cache of recently seen messages.
    pub seen: Queue<Msg>,
}

impl Node {
    /// The node's invariant: the dedup cache respects its capacity,
    /// which is always [`DEDUP_CAPACITY`].
    pub open spec fn wf(&self) -> bool {
        &&& self.seen.wf()
        &&& self.seen.spec_capacity() == DEDUP_CAPACITY as nat
    }

    /// Creates a node with no peers and an empty dedup cache.
    pub fn new() -> (n: Node)
        ensures
            n.peers@ == Seq::<Peer>::empty(),
            n.seen@ == Seq::<Msg>::empty(),
            n.wf(),
    {
        Node { peers: Vec::new(), seen: Queue::new(DEDUP_CAPACITY) }
    }

    /// A newly accepted or newly connected peer joins the peer set at
    /// the end; nothing else changes. There is no admission control and
    /// no deduplication of peers by address.
    pub fn add_peer(&mut self, handle: u64, addr: Vec<u8>)
        ensures
            final(self).peers@ == old(self).peers@.push((Peer { handle, addr })),
            final(self).seen == old(self).seen,
    {
        self.peers.push(Peer { handle, addr });
    }

    /// End of stream from a connection: every peer with that handle
    /// leaves the peer set; the others keep their order. The dedup
    /// cache is untouched.
    pub fn remove_peer(&mut self, handle: u64)
        ensures
            final(self).peers@ == old(self).peers@.filter(|p: Peer| p.handle != handle),
            final(self).seen == old(self).seen,
    {
        let ghost all = self.peers@;
        let mut remaining: Vec<Peer> = Vec::new();
        core::mem::swap(&mut remaining, &mut self.peers);
        let mut kept: Vec<Peer> = Vec::new();
        let ghost mut i: int = 0;
        proof {
            reveal(Seq::filter);
            assert(all.take(0) =~= Seq::<Peer>::empty());
        }
        while remaining.len() > 0
            invariant
                0 <= i <= all.len(),
                i == all.len() - remaining@.len(),
                remaining@ == all.skip(i),
                kept@ == all.take(i).filter(|p: Peer| p.handle != handle),
            decreases remaining@.len(),
        {
            let p = remaining.remove(0);
            proof {
                reveal(Seq::filter);
                assert(p == all[i]);
                assert(remaining@ =~= all.skip(i + 1));
                assert(all.take(i + 1).drop_last() =~= all.take(i));
                assert(all.take(i + 1).last() == p);
            }
            if p.handle != handle {
                kept.push(p);
            }
            proof {
                i = i + 1;
            }
        }
        proof {
            assert(all.take(i) =~= all);
        }
        self.peers = kept;
    }

    /// The operator's disconnect instruction: every connection is to be
    /// shut down, in both directions. The peer set itself is retained;
    /// a closed peer leaves it only when a later read reports end of
    /// stream.
    pub fn on_disconnect(&self) -> (handles: Vec<u64>)
        ensures
            handles@.len() == self.peers@.len(),
            forall|k: int| 0 <= k < handles@.len() ==> #[trigger] handles@[k]
                == self.peers@[k].handle,
    {
        let mut handles: Vec<u64> = Vec::new();
        let n = self.peers.len();
        let mut i: usize = 0;
        while i < n
            invariant
                i <= n,
                n == self.peers@.len(),
                handles@.len() == i,
                forall|k: int| 0 <= k < i ==> #[trigger] handles@[k] == self.peers@[k].handle,
            decreases n - i,
        {
            handles.push(self.peers[i].handle);
            i = i + 1;
        }
        handles
    }

    /// An operator broadcast whose message is already built: the
    /// message is recorded in the dedup cache unconditionally and one
    /// frame is produced for every peer — a locally originated message
    /// has no origin to exclude.
    pub fn on_broadcast_msg(&mut self, msg: Msg) -> (outs: Vec<OutFrame>)
        requires
            old(self).wf(),
            msg.wf(),
        ensures
            final(self).wf(),
            final(self).peers@ == old(self).peers@,
            final(self).seen@ == spec_push(old(self).seen@, DEDUP_CAPACITY as nat, msg).0,
            sends_for(outs@, old(self).peers@, msg),
    {
        let outs = broadcast(&self.peers, &msg);
        self.seen.push(msg);
        outs
    }

    /// The operator's broadcast instruction: a new message with a
    /// freshly generated id is built from the text, recorded in the
    /// dedup cache, and sent to every peer. Fails exactly when the text
    /// is too large for one frame, leaving the node unchanged.
    pub fn on_broadcast(&mut self, text: Vec<u8>) -> (r: Result<
        Vec<OutFrame>,
        TryFromStringToMsgError,
    >)
        requires
            old(self).wf(),
        ensures
            final(self).wf(),
            final(self).peers@ == old(self).peers@,
            match r {
                Ok(outs) => {
                    &&& text@.len() + SEP_SIZE as int + UUID_SIZE as int <= CAPACITY as int
                    &&& exists|m: Msg|
                        #![auto]
                        {
                            &&& m.wf()
                            &&& m.text@ == text@
                            &&& final(self).seen@ == spec_push(
                                old(self).seen@,
                                DEDUP_CAPACITY as nat,
                                m,
                            ).0
                            &&& sends_for(outs@, old(self).peers@, m)
                        }
                },
                Err(e) => {
                    &&& text@.len() + SEP_SIZE as int + UUID_SIZE as int > CAPACITY as int
                    &&& e == TryFromStringToMsgError
                    &&& *final(self) == *old(self)
                },
            },
    {
        let m = match Msg::try_from_text(text) {
            Ok(m) => m,
            Err(e) => {
                return Err(e);
            },
        };
        let ghost gm = m;
        let outs = self.on_broadcast_msg(m);
        proof {
            assert({
                &&& gm.wf()
                &&& final(self).seen@ == spec_push(old(self).seen@, DEDUP_CAPACITY as nat, gm).0
                &&& sends_for(outs@, old(self).peers@, gm)
            });
        }
        Ok(outs)
    }

    /// One inbound frame from the peer at address `origin`.
    ///
    /// A frame that does not decode is dropped and changes nothing. A
    /// decoded message the dedup cache already holds is a duplicate: it
    /// is neither delivered nor propagated, no matter which peer it
    /// arrived from. A fresh message is recorded in the cache and
    /// propagated to every peer whose address differs from `origin`;
    /// the peer set then holds the written-to peers first and the
    /// held-back origin peers after them.
    pub fn on_frame(&mut self, origin: &Vec<u8>, frame: &Vec<u8>) -> (r: FrameOutcome)
        requires
            old(self).wf(),
            frame@.len() == CAPACITY as int,
        ensures
            final(self).wf(),
            match r {
                FrameOutcome::Malformed(e) => {
                    &&& *final(self) == *old(self)
                    &&& match e {
                        TryFromArrayToMsgError::MissingSep => forall|i: int|
                            0 <= i < CAPACITY as int ==> frame@[i] != 0,
                        TryFromArrayToMsgError::CorruptUuid => {
                            &&& forall|i: int|
                                0 <= i <= CAPACITY as int - SEP_SIZE as int - UUID_SIZE as int
                                    ==> frame@[i] != 0
                            &&& exists|i: int|
                                {
                                    &&& (CAPACITY as int - SEP_SIZE as int - UUID_SIZE as int) < i
                                        < CAPACITY as int
                                    &&& frame@[i] == 0
                                }
                        },
                    }
                },
                FrameOutcome::Duplicate => {
                    &&& *final(self) == *old(self)
                    &&& exists|m: Msg|
                        #![auto]
                        decodes_to(frame@, m.text@, m.id@) && contains_eq(old(self).seen@, m)
                },
                FrameOutcome::Delivered { msg, outs } => {
                    &&& decodes_to(frame@, msg.text@, msg.id@)
                    &&& msg.wf()
                    &&& !contains_eq(old(self).seen@, msg)
                    &&& exists|v: Msg|
                        #![auto]
                        msg_eq(v, msg) && final(self).seen@ == spec_push(
                            old(self).seen@,
                            DEDUP_CAPACITY as nat,
                            v,
                        ).0
                    &&& final(self).peers@ == spec_targets(old(self).peers@, origin@)
                        + spec_origins(old(self).peers@, origin@)
                    &&& sends_for(outs@, spec_targets(old(self).peers@, origin@), msg)
                },
            },
    {
        let m = match Msg::try_from_bytes(frame) {
            Ok(m) => m,
            Err(e) => {
                return FrameOutcome::Malformed(e);
            },
        };
        if self.seen.contains(&m) {
            return FrameOutcome::Duplicate;
        }
        let c = m.clone();
        let ghost gc = c;
        self.seen.push(c);
        let mut peers: Vec<Peer> = Vec::new();
        core::mem::swap(&mut peers, &mut self.peers);
        let (kept, outs) = propagate(peers, &m, origin);
        self.peers = kept;
        proof {
            assert(msg_eq(gc, m) && final(self).seen@ == spec_push(
                old(self).seen@,
                DEDUP_CAPACITY as nat,
                gc,
            ).0);
        }
        FrameOutcome::Delivered { msg: m, outs }
    }
}

} // verus!
