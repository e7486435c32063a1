//! The GOP cache: a bounded list of completed groups of pictures plus the
//! group in progress, each beginning with a keyframe, replayed to late
//! joiners so they can decode at once.

use vstd::prelude::*;
use crate::packet::{RtmpPacket, RtmpHeader, pkts_view, clone_packet};

verus! {

broadcast use vstd::std_specs::vec::axiom_spec_len;

/// The packets of a group list, flattened oldest first.
pub open spec fn gops_flat(s: Seq<Vec<RtmpPacket>>) -> Seq<RtmpPacket>
    decreases s.len(),
{
    if s.len() == 0 {
        Seq::empty()
    } else {
        s[0]@ + gops_flat(s.drop_first())
    }
}

/// The packet count of a group list.
pub open spec fn gops_total(s: Seq<Vec<RtmpPacket>>) -> int
    decreases s.len(),
{
    if s.len() == 0 {
        0
    } else {
        s[0]@.len() + gops_total(s.drop_first())
    }
}

/// The flattened list is as long as the total says.
pub proof fn lemma_gops_flat_len(s: Seq<Vec<RtmpPacket>>)
    ensures
        gops_flat(s).len() == gops_total(s),
    decreases s.len(),
{
    if s.len() > 0 {
        lemma_gops_flat_len(s.drop_first());
    }
}

/// A group list as packet sequences, oldest group first.
pub open spec fn gops_views(s: Seq<Vec<RtmpPacket>>) -> Seq<Seq<RtmpPacket>> {
    s.map_values(|g: Vec<RtmpPacket>| g@)
}

/// What eviction leaves of a completed-group list under a cap that also
/// covers the group in progress: with no room at all nothing stays; under
/// the cap everything stays; else only the newest cap-less-one groups.
pub open spec fn evicted(groups: Seq<Seq<RtmpPacket>>, cap: int) -> Seq<Seq<RtmpPacket>> {
    if cap <= 0 {
        Seq::empty()
    } else if groups.len() < cap {
        groups
    } else {
        groups.skip(groups.len() - (cap - 1))
    }
}

/// A bounded cache of completed GOPs plus the one being built.
pub struct GopCache {
    max_gops: usize,
    current_gop: Vec<RtmpPacket>,
    cached_gops: Vec<Vec<RtmpPacket>>,
    total_packets: usize,
}

impl GopCache {
    /// The completed groups, oldest first.
    pub closed spec fn cached(self) -> Seq<Vec<RtmpPacket>> {
        self.cached_gops@
    }

    /// The group being built; empty until a keyframe arrives.
    pub closed spec fn current(self) -> Seq<RtmpPacket> {
        self.current_gop@
    }

    /// The cap on groups held, the one in progress included.
    pub closed spec fn cap(self) -> int {
        self.max_gops as int
    }

    /// The packet counter matches what is held.
    pub closed spec fn wf(self) -> bool {
        self.total_packets == gops_total(self.cached()) + self.current().len()
    }

    /// A cache holding at most max_gops groups, counting the one in
    /// progress.
    pub fn new(max_gops: usize) -> (r: GopCache)
        ensures
            r.wf(),
            r.cap() == max_gops,
            r.cached() == Seq::<Vec<RtmpPacket>>::empty(),
            r.current() == Seq::<RtmpPacket>::empty(),
    {
        GopCache { max_gops, current_gop: Vec::new(), cached_gops: Vec::new(), total_packets: 0 }
    }

    /// A keyframe closes the group in progress and opens a new group with
    /// the keyframe as its first packet; the completed group is appended
    /// to the cached list, and completed groups beyond what the cap leaves
    /// room for (the group in progress counts) are evicted, oldest first.
    pub fn add_keyframe(&mut self, packet: RtmpPacket)
        requires
            old(self).wf(),
            old(self).current().len() + gops_total(old(self).cached()) < usize::MAX,
        ensures
            final(self).wf(),
            final(self).cap() == old(self).cap(),
            final(self).current().len() == 1,
            final(self).current()[0] == packet,
            old(self).current().len() == 0 ==> final(self).cached() == old(self).cached(),
            old(self).current().len() > 0 ==> gops_views(final(self).cached()) == evicted(
                gops_views(old(self).cached()).push(old(self).current()),
                old(self).cap(),
            ),
            old(self).current().len() > 0 && old(self).cap() > 0 ==> final(self).cached().len()
                <= old(self).cap() - 1,
    {
        if self.current_gop.len() > 0 {
            self.finish_current_gop();
        }
        self.current_gop.push(packet);
        self.total_packets = self.total_packets + 1;
        proof {
            assert(self.current_gop@ =~= seq![packet]);
        }
    }

    /// A non-keyframe joins the group in progress; with no group open (no
    /// keyframe seen yet) it is dropped.
    pub fn add_frame(&mut self, packet: RtmpPacket)
        requires
            old(self).wf(),
            old(self).current().len() + gops_total(old(self).cached()) < usize::MAX,
        ensures
            final(self).wf(),
            final(self).cap() == old(self).cap(),
            final(self).cached() == old(self).cached(),
            old(self).current().len() > 0 ==> final(self).current() == old(self).current().push(
                packet,
            ),
            old(self).current().len() == 0 ==> final(self).current() == old(self).current(),
    {
        proof {
            lemma_gops_flat_len(self.cached_gops@);
        }
        if self.current_gop.len() > 0 {
            self.current_gop.push(packet);
            self.total_packets = self.total_packets + 1;
        }
    }

    /// Close the group in progress and retain it; of the completed groups
    /// only the newest cap-less-one stay, so the cap covers them and the
    /// next group in progress together.
    fn finish_current_gop(&mut self)
        requires
            old(self).wf(),
        ensures
            final(self).wf(),
            final(self).cap() == old(self).cap(),
            final(self).current().len() == 0,
            old(self).current().len() == 0 ==> final(self).cached() == old(self).cached(),
            old(self).current().len() > 0 ==> gops_views(final(self).cached()) == evicted(
                gops_views(old(self).cached()).push(old(self).current()),
                old(self).cap(),
            ),
            old(self).current().len() > 0 && old(self).cap() > 0 ==> final(self).cached().len()
                <= old(self).cap() - 1,
            gops_total(final(self).cached()) + final(self).current().len() <= gops_total(
                old(self).cached(),
            ) + old(self).current().len(),
    {
        if self.current_gop.len() == 0 {
            return ;
        }
        let mut gop: Vec<RtmpPacket> = Vec::new();
        std::mem::swap(&mut gop, &mut self.current_gop);
        let ghost olds = self.cached_gops@;
        self.cached_gops.push(gop);
        let ghost full = self.cached_gops@;
        proof {
            lemma_gops_snoc(olds, gop);
            assert(full.skip(0) =~= full);
        }
        while self.cached_gops.len() > 0 && self.cached_gops.len() >= self.max_gops
            invariant
                self.max_gops == old(self).max_gops,
                self.current_gop@.len() == 0,
                self.total_packets == gops_total(self.cached_gops@),
                gops_total(self.cached_gops@) <= gops_total(old(self).cached()) + old(
                    self,
                ).current().len(),
                self.cached_gops@.len() <= full.len(),
                self.cached_gops@ == full.skip(full.len() - self.cached_gops@.len()),
                full.len() < self.max_gops ==> self.cached_gops@ == full,
                (self.max_gops > 0 && full.len() >= self.max_gops) ==> self.cached_gops@.len()
                    + 1 >= self.max_gops,
            decreases self.cached_gops@.len(),
        {
            let ghost before = self.cached_gops@;
            let removed = self.cached_gops.remove(0);
            proof {
                assert(self.cached_gops@ =~= before.drop_first());
                assert(self.cached_gops@ =~= full.skip(full.len() - self.cached_gops@.len()));
                lemma_gops_flat_len(before);
                lemma_gops_flat_len(self.cached_gops@);
            }
            self.total_packets = self.total_packets - removed.len();
        }
        proof {
            let cap = old(self).cap();
            let fullv = gops_views(olds).push(old(self).current());
            let target = evicted(fullv, cap);
            assert(gops_views(full) =~= fullv);
            assert(fullv.len() == full.len());
            let n = self.cached_gops@.len() as int;
            assert(self.cached_gops@ == full.skip(full.len() - n));
            assert(gops_views(self.cached_gops@) =~= gops_views(full).skip(full.len() - n));
            if cap <= 0 {
                assert(n == 0);
                assert(gops_views(self.cached_gops@) =~= target);
            } else if full.len() < cap {
                assert(self.cached_gops@ == full);
                assert(gops_views(self.cached_gops@) =~= target);
            } else {
                assert(n + 1 >= cap);
                assert(n == 0 || n < cap);
                assert(n == cap - 1);
                assert(gops_views(self.cached_gops@) =~= fullv.skip(fullv.len() - (cap - 1)));
                assert(gops_views(self.cached_gops@) =~= target);
            }
        }
    }

    /// Everything a new subscriber must replay: the completed groups oldest
    /// first, then the group in progress.
    pub fn get_gop(&self) -> (r: Vec<RtmpPacket>)
        requires
            self.wf(),
        ensures
            pkts_view(r@) == pkts_view(gops_flat(self.cached()) + self.current()),
    {
        let mut packets: Vec<RtmpPacket> = Vec::new();
        let n = self.cached_gops.len();
        let mut i: usize = 0;
        proof {
            assert(gops_flat(self.cached_gops@.take(0)) =~= Seq::<RtmpPacket>::empty());
            assert(pkts_view(packets@) =~= pkts_view(gops_flat(self.cached_gops@.take(0))));
        }
        while i < n
            invariant
                n == self.cached_gops@.len(),
                i <= n,
                pkts_view(packets@) == pkts_view(gops_flat(self.cached_gops@.take(i as int))),
            decreases n - i,
        {
            let ghost before = packets@;
            append_packets(&mut packets, &self.cached_gops[i]);
            proof {
                lemma_gops_snoc_take(self.cached_gops@, i as int);
                lemma_pkts_view_concat(
                    gops_flat(self.cached_gops@.take(i as int)),
                    self.cached_gops@[i as int]@,
                );
                lemma_pkts_view_concat(before, self.cached_gops@[i as int]@);
                assert(pkts_view(packets@) =~= pkts_view(gops_flat(self.cached_gops@.take(i + 1))));
            }
            i = i + 1;
        }
        proof {
            assert(self.cached_gops@.take(n as int) =~= self.cached_gops@);
        }
        let ghost before = packets@;
        append_packets(&mut packets, &self.current_gop);
        proof {
            lemma_pkts_view_concat(gops_flat(self.cached_gops@), self.current_gop@);
            lemma_pkts_view_concat(before, self.current_gop@);
            assert(pkts_view(packets@) =~= pkts_view(gops_flat(self.cached()) + self.current()));
        }
        packets
    }


    /// Like add_keyframe, but drops the packet in the (unreachable in
    /// practice) case that the packet counter is saturated.
    pub fn add_keyframe_checked(&mut self, packet: RtmpPacket)
        requires
            old(self).wf(),
        ensures
            final(self).wf(),
            final(self).cap() == old(self).cap(),
            old(self).current().len() + gops_total(old(self).cached()) < usize::MAX ==> {
                &&& final(self).current().len() == 1
                &&& final(self).current()[0] == packet
                &&& (old(self).current().len() == 0 ==> final(self).cached() == old(
                    self,
                ).cached())
                &&& (old(self).current().len() > 0 ==> gops_views(final(self).cached())
                    == evicted(
                    gops_views(old(self).cached()).push(old(self).current()),
                    old(self).cap(),
                ))
            },
    {
        if self.total_packets < usize::MAX {
            proof {
                lemma_gops_flat_len(self.cached_gops@);
            }
            self.add_keyframe(packet);
        }
    }

    /// Like add_frame, but drops the packet in the (unreachable in
    /// practice) case that the packet counter is saturated.
    pub fn add_frame_checked(&mut self, packet: RtmpPacket)
        requires
            old(self).wf(),
        ensures
            final(self).wf(),
            final(self).cap() == old(self).cap(),
            final(self).cached() == old(self).cached(),
            old(self).current().len() + gops_total(old(self).cached()) < usize::MAX ==> {
                &&& (old(self).current().len() > 0 ==> final(self).current() == old(
                    self,
                ).current().push(packet))
                &&& (old(self).current().len() == 0 ==> final(self).current() == old(
                    self,
                ).current())
            },
    {
        if self.total_packets < usize::MAX {
            proof {
                lemma_gops_flat_len(self.cached_gops@);
            }
            self.add_frame(packet);
        }
    }

    /// Drop everything cached.
    pub fn clear(&mut self)
        ensures
            final(self).wf(),
            final(self).cap() == old(self).cap(),
            final(self).cached() == Seq::<Vec<RtmpPacket>>::empty(),
            final(self).current() == Seq::<RtmpPacket>::empty(),
    {
        self.current_gop.clear();
        self.cached_gops.clear();
        self.total_packets = 0;
    }

    /// How many packets are cached in all.
    pub fn size(&self) -> (r: usize)
        requires
            self.wf(),
        ensures
            r == gops_total(self.cached()) + self.current().len(),
    {
        self.total_packets
    }

    /// How many groups are held, the one in progress included.
    pub fn gop_count(&self) -> (r: usize)
        requires
            self.cached().len() + 1 <= usize::MAX,
        ensures
            r == self.cached().len() + (if self.current().len() == 0 {
                0int
            } else {
                1int
            }),
    {
        self.cached_gops.len() + (if self.current_gop.len() == 0 {
            0
        } else {
            1
        })
    }
}

/// Appending a group extends the flattened list and total accordingly.
proof fn lemma_gops_snoc(s: Seq<Vec<RtmpPacket>>, g: Vec<RtmpPacket>)
    ensures
        gops_flat(s.push(g)) == gops_flat(s) + g@,
        gops_total(s.push(g)) == gops_total(s) + g@.len(),
    decreases s.len(),
{
    if s.len() == 0 {
        assert(s.push(g)[0] == g);
        assert(s.push(g).drop_first() =~= Seq::<Vec<RtmpPacket>>::empty());
        assert(gops_flat(Seq::<Vec<RtmpPacket>>::empty()) == Seq::<RtmpPacket>::empty());
        assert(gops_total(Seq::<Vec<RtmpPacket>>::empty()) == 0);
        assert(gops_flat(s.push(g)) =~= gops_flat(s) + g@);
    } else {
        assert(s.push(g).drop_first() =~= s.drop_first().push(g));
        lemma_gops_snoc(s.drop_first(), g);
        assert(s.push(g)[0] == s[0]);
        assert(gops_flat(s.push(g)) =~= gops_flat(s) + g@);
    }
}

/// One more group in a prefix extends its flattened form.
proof fn lemma_gops_snoc_take(s: Seq<Vec<RtmpPacket>>, i: int)
    requires
        0 <= i < s.len(),
    ensures
        gops_flat(s.take(i + 1)) == gops_flat(s.take(i)) + s[i]@,
{
    assert(s.take(i + 1) =~= s.take(i).push(s[i]));
    lemma_gops_snoc(s.take(i), s[i]);
}

/// The views of a concatenation are the concatenated views.
pub proof fn lemma_pkts_view_concat(a: Seq<RtmpPacket>, b: Seq<RtmpPacket>)
    ensures
        pkts_view(a + b) == pkts_view(a) + pkts_view(b),
{
    assert(pkts_view(a + b) =~= pkts_view(a) + pkts_view(b));
}

/// Append a copy of every packet of a group.
fn append_packets(out: &mut Vec<RtmpPacket>, gop: &Vec<RtmpPacket>)
    ensures
        pkts_view(final(out)@) == pkts_view(old(out)@ + gop@),
{
    let n = gop.len();
    let mut i: usize = 0;
    let ghost start = out@;
    proof {
        assert(pkts_view(out@) =~= pkts_view(start + gop@.subrange(0, 0)));
    }
    while i < n
        invariant
            n == gop@.len(),
            i <= n,
            pkts_view(out@) == pkts_view(start + gop@.subrange(0, i as int)),
        decreases n - i,
    {
        let cp = clone_packet(&gop[i]);
        let ghost prev = out@;
        proof {
            assert(cp@ == gop@[i as int]@);
        }
        out.push(cp);
        proof {
            assert(out@ == prev.push(cp));
            assert(pkts_view(prev).len() == prev.len());
            assert(pkts_view(start + gop@.subrange(0, i as int)).len() == start.len() + i);
            assert(prev.len() == start.len() + i);
            assert forall|j: int|
                0 <= j < out@.len() implies pkts_view(out@)[j] == pkts_view(
                start + gop@.subrange(0, i + 1),
            )[j] by {
                if j < prev.len() {
                    assert(pkts_view(prev)[j] == pkts_view(start + gop@.subrange(0, i as int))[j]);
                    assert((start + gop@.subrange(0, i + 1))[j] == (start + gop@.subrange(
                        0,
                        i as int,
                    ))[j]);
                } else {
                    assert(out@[j] == cp);
                    assert((start + gop@.subrange(0, i + 1))[j] == gop@[i as int]);
                }
            }
            assert(pkts_view(out@) =~= pkts_view(start + gop@.subrange(0, i + 1)));
        }
        i = i + 1;
    }
    proof {
        assert(gop@.subrange(0, n as int) =~= gop@);
    }
}

} // verus!
