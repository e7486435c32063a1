//! The inbound message queue: bounded, priority-ordered, FIFO within a
//! priority.  Control messages preempt commands, commands preempt data,
//! data preempts audio, audio preempts video.

use vstd::prelude::*;
use crate::packet::RtmpPacket;
use crate::constants::{MSG_TYPE_SET_CHUNK_SIZE, MSG_TYPE_ABORT, MSG_TYPE_ACK, MSG_TYPE_WINDOW_ACK,
    MSG_TYPE_SET_PEER_BW, MSG_TYPE_COMMAND_AMF0, MSG_TYPE_COMMAND_AMF3, MSG_TYPE_DATA_AMF0,
    MSG_TYPE_DATA_AMF3, MSG_TYPE_AUDIO, MSG_TYPE_VIDEO};
use crate::error::Error;

verus! {

broadcast use vstd::std_specs::vec::axiom_spec_len;

/// The processing priority of a message type: control 10, command 8,
/// data 6, audio 4, video 2, anything else 1.
pub open spec fn type_priority(t: u8) -> u8 {
    if t == MSG_TYPE_SET_CHUNK_SIZE || t == MSG_TYPE_ABORT || t == MSG_TYPE_ACK || t
        == MSG_TYPE_WINDOW_ACK || t == MSG_TYPE_SET_PEER_BW {
        10u8
    } else if t == MSG_TYPE_COMMAND_AMF0 || t == MSG_TYPE_COMMAND_AMF3 {
        8u8
    } else if t == MSG_TYPE_DATA_AMF0 || t == MSG_TYPE_DATA_AMF3 {
        6u8
    } else if t == MSG_TYPE_AUDIO {
        4u8
    } else if t == MSG_TYPE_VIDEO {
        2u8
    } else {
        1u8
    }
}

/// The index the queue serves next: the first position holding the highest
/// priority present.
pub open spec fn best_idx(s: Seq<RtmpPacket>) -> int
    decreases s.len(),
{
    if s.len() <= 1 {
        0
    } else {
        let b = 1 + best_idx(s.drop_first());
        if type_priority(s[0].header.message_type) >= type_priority(s[b].header.message_type) {
            0
        } else {
            b
        }
    }
}

/// The next-served index is a real index, and nothing in the queue beats
/// it: no element has higher priority, and no earlier element has as high
/// a priority.
pub proof fn lemma_best_idx(s: Seq<RtmpPacket>)
    requires
        s.len() > 0,
    ensures
        0 <= best_idx(s) < s.len(),
        forall|j: int|
            0 <= j < s.len() ==> type_priority((#[trigger] s[j]).header.message_type)
                <= type_priority(s[best_idx(s)].header.message_type),
        forall|j: int|
            0 <= j < best_idx(s) ==> type_priority((#[trigger] s[j]).header.message_type)
                < type_priority(s[best_idx(s)].header.message_type),
    decreases s.len(),
{
    if s.len() > 1 {
        lemma_best_idx(s.drop_first());
        assert forall|j: int|
            0 <= j < s.len() implies type_priority((#[trigger] s[j]).header.message_type)
            <= type_priority(s[best_idx(s)].header.message_type) by {
            if j > 0 {
                assert(s[j] == s.drop_first()[j - 1]);
            }
        }
        assert forall|j: int|
            0 <= j < best_idx(s) implies type_priority((#[trigger] s[j]).header.message_type)
            < type_priority(s[best_idx(s)].header.message_type) by {
            if j > 0 {
                assert(s[j] == s.drop_first()[j - 1]);
            }
        }
    }
}

/// A message enqueued behind others it outranks is served before them all:
/// when every queued packet has lower priority, the newcomer is next out.
pub proof fn lemma_priority_preempts(s: Seq<RtmpPacket>, p: RtmpPacket)
    requires
        forall|j: int|
            0 <= j < s.len() ==> type_priority((#[trigger] s[j]).header.message_type)
                < type_priority(p.header.message_type),
    ensures
        best_idx(s.push(p)) == s.len(),
        s.push(p)[best_idx(s.push(p))] == p,
    decreases s.len(),
{
    if s.len() == 0 {
        assert(s.push(p).len() == 1);
    } else {
        assert(s.push(p).drop_first() =~= s.drop_first().push(p));
        lemma_priority_preempts(s.drop_first(), p);
        assert(s.push(p)[0] == s[0]);
        assert(s.push(p)[1 + best_idx(s.push(p).drop_first())] == p);
    }
}

/// A bounded priority queue of inbound packets.
pub struct MessageQueue {
    items: Vec<RtmpPacket>,
    max_size: usize,
}

impl MessageQueue {
    /// The queued packets in arrival order.
    pub closed spec fn items_view(self) -> Seq<RtmpPacket> {
        self.items@
    }

    /// The capacity the queue was created with.
    pub closed spec fn capacity(self) -> int {
        self.max_size as int
    }

    /// A fresh queue holding at most max_size packets.
    pub fn new(max_size: usize) -> (r: MessageQueue)
        ensures
            r.items_view() == Seq::<RtmpPacket>::empty(),
            r.capacity() == max_size,
    {
        MessageQueue { items: Vec::new(), max_size }
    }

    /// Enqueue a packet; fails, changing nothing, exactly when the queue
    /// is full.
    pub fn push(&mut self, packet: RtmpPacket) -> (r: Result<(), Error>)
        ensures
            final(self).capacity() == old(self).capacity(),
            r is Ok <==> old(self).items_view().len() < old(self).capacity(),
            r is Ok ==> final(self).items_view() == old(self).items_view().push(packet),
            r is Err ==> final(self).items_view() == old(self).items_view() && r->Err_0
                is Protocol,
    {
        if self.items.len() >= self.max_size {
            return Err(Error::protocol("Message queue full"));
        }
        self.items.push(packet);
        Ok(())
    }

    /// Dequeue the highest-priority packet, the earliest-arrived among
    /// equals; nothing when the queue is empty.
    pub fn pop(&mut self) -> (r: Result<Option<RtmpPacket>, Error>)
        ensures
            final(self).capacity() == old(self).capacity(),
            r is Ok,
            old(self).items_view().len() == 0 ==> r->Ok_0 is None && final(self).items_view()
                == old(self).items_view(),
            old(self).items_view().len() > 0 ==> {
                &&& r->Ok_0 == Some(old(self).items_view()[best_idx(old(self).items_view())])
                &&& final(self).items_view() == old(self).items_view().remove(
                    best_idx(old(self).items_view()),
                )
            },
    {
        if self.items.len() == 0 {
            return Ok(None);
        }
        let idx = self.find_best();
        proof {
            lemma_best_idx(self.items@);
        }
        let packet = self.items.remove(idx);
        Ok(Some(packet))
    }

    /// The index pop serves next.
    fn find_best(&self) -> (r: usize)
        requires
            self.items_view().len() > 0,
        ensures
            r == best_idx(self.items_view()),
    {
        let n = self.items.len();
        let mut best: usize = 0;
        let mut best_pri = priority_of(&self.items[0]);
        let mut i: usize = 1;
        proof {
            lemma_best_prefix(self.items@, 1);
        }
        while i < n
            invariant
                n == self.items@.len(),
                1 <= i <= n,
                best < i,
                best == best_idx(self.items@.take(i as int)),
                best_pri == type_priority(self.items@[best as int].header.message_type),
            decreases n - i,
        {
            let pri = priority_of(&self.items[i]);
            proof {
                lemma_best_step(self.items@, i as int);
            }
            if pri > best_pri {
                best = i;
                best_pri = pri;
            }
            i = i + 1;
        }
        proof {
            assert(self.items@.take(n as int) =~= self.items@);
        }
        best
    }

    /// How many packets are queued.
    pub fn size(&self) -> (r: usize)
        ensures
            r == self.items_view().len(),
    {
        self.items.len()
    }

    /// Whether the queue is empty.
    pub fn is_empty(&self) -> (r: bool)
        ensures
            r <==> self.items_view().len() == 0,
    {
        self.items.len() == 0
    }

    /// Drop everything queued.
    pub fn clear(&mut self)
        ensures
            final(self).items_view() == Seq::<RtmpPacket>::empty(),
            final(self).capacity() == old(self).capacity(),
    {
        self.items.clear();
    }

    /// The priority a packet is served with.
    pub fn get_priority(&self, packet: &RtmpPacket) -> (r: u8)
        ensures
            r == type_priority(packet.header.message_type),
    {
        priority_of(packet)
    }
}

/// The executable priority of a packet.
fn priority_of(packet: &RtmpPacket) -> (r: u8)
    ensures
        r == type_priority(packet.header.message_type),
{
    let t = packet.header.message_type;
    if t == MSG_TYPE_SET_CHUNK_SIZE || t == MSG_TYPE_ABORT || t == MSG_TYPE_ACK || t
        == MSG_TYPE_WINDOW_ACK || t == MSG_TYPE_SET_PEER_BW {
        10
    } else if t == MSG_TYPE_COMMAND_AMF0 || t == MSG_TYPE_COMMAND_AMF3 {
        8
    } else if t == MSG_TYPE_DATA_AMF0 || t == MSG_TYPE_DATA_AMF3 {
        6
    } else if t == MSG_TYPE_AUDIO {
        4
    } else if t == MSG_TYPE_VIDEO {
        2
    } else {
        1
    }
}

/// The best index of a one-element prefix is the head.
proof fn lemma_best_prefix(s: Seq<RtmpPacket>, i: int)
    requires
        i == 1,
        s.len() >= 1,
    ensures
        best_idx(s.take(1)) == 0,
{
}

/// Extending a prefix by one element moves the best index to the new
/// element exactly when it strictly outranks the old best.
#[verifier::rlimit(100)]
#[verifier::spinoff_prover]
proof fn lemma_best_step(s: Seq<RtmpPacket>, i: int)
    requires
        1 <= i < s.len(),
    ensures
        best_idx(s.take(i + 1)) == (if type_priority(s[i].header.message_type) > type_priority(
            s.take(i)[best_idx(s.take(i))].header.message_type,
        ) {
            i
        } else {
            best_idx(s.take(i))
        }),
    decreases i,
{
    let t1 = s.take(i + 1);
    let t0 = s.take(i);
    lemma_best_idx(t0);
    lemma_best_idx(t1);
    if i == 1 {
        assert(t1.drop_first() =~= seq![s[1]]);
        assert(t0 =~= seq![s[0]]);
    } else {
        let u1 = s.drop_first().take(i);
        let u0 = s.drop_first().take(i - 1);
        assert(t1.drop_first() =~= u1);
        assert(t0.drop_first() =~= u0);
        lemma_best_step(s.drop_first(), i - 1);
        lemma_best_idx(u0);
        lemma_best_idx(u1);
        assert(s.drop_first()[i - 1] == s[i]);
        assert(u1[i - 1] == s[i]);
        assert(forall|j: int| 0 <= j < i - 1 ==> u1[j] == #[trigger] u0[j]);
        assert(forall|j: int| 0 <= j < i ==> t1[j] == #[trigger] t0[j]);
        assert(t1[i] == s[i]);
        if type_priority(s.drop_first()[i - 1].header.message_type) > type_priority(
            u0[best_idx(u0)].header.message_type,
        ) {
            assert(best_idx(u1) == i - 1);
        } else {
            assert(best_idx(u1) == best_idx(u0));
            assert(u1[best_idx(u1)] == u0[best_idx(u0)]);
        }
    }
}

} // verus!
