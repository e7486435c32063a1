//! The publisher's ingest and fan-out state: cached sequence headers and
//! metadata, the GOP cache, and the subscriber list.  Every packet handed
//! to a subscriber is re-headered so its message-stream-id is that
//! subscriber's, with every other header field and the payload unchanged.

use vstd::prelude::*;
use vstd::string::StrSliceExecFns;
use crate::packet::{RtmpPacket, RtmpHeader, pkts_view, clone_packet, make_audio_packet,
    make_video_packet};
use crate::gop_cache::{GopCache, gops_flat, gops_views, gops_total, evicted};
use crate::registry::str_eq;
use crate::command::copy_bytes;

verus! {

broadcast use vstd::std_specs::vec::axiom_spec_len;

/// One subscriber: its id and the message-stream-id its packets carry.
#[derive(Debug)]
pub struct SubscriberHandle {
    pub id: String,
    pub stream_id: u32,
}

/// Each packet view re-headered for a subscriber, in order.
pub open spec fn reheadered_all(s: Seq<(RtmpHeader, Seq<u8>)>, stream_id: u32) -> Seq<
    (RtmpHeader, Seq<u8>),
> {
    s.map_values(|p: (RtmpHeader, Seq<u8>)| reheadered(p, stream_id))
}

/// A packet re-headered for a subscriber: the message-stream-id replaced,
/// everything else identical.
pub open spec fn reheadered(p: (RtmpHeader, Seq<u8>), stream_id: u32) -> (RtmpHeader, Seq<u8>) {
    (
        RtmpHeader {
            timestamp: p.0.timestamp,
            message_length: p.0.message_length,
            message_type: p.0.message_type,
            message_stream_id: stream_id,
            chunk_stream_id: p.0.chunk_stream_id,
        },
        p.1,
    )
}

/// Copy a packet with the subscriber's message-stream-id in its header;
/// every other field and the payload stay byte-identical.
pub fn reheader_packet(packet: &RtmpPacket, stream_id: u32) -> (r: RtmpPacket)
    ensures
        r@ == reheadered(packet@, stream_id),
        r.header.message_stream_id == stream_id,
        r.header.timestamp == packet.header.timestamp,
        r.header.message_length == packet.header.message_length,
        r.header.message_type == packet.header.message_type,
        r.header.chunk_stream_id == packet.header.chunk_stream_id,
        r.payload@ == packet.payload@,
{
    let mut p = clone_packet(packet);
    p.header.message_stream_id = stream_id;
    p
}

/// Whether the first byte marks a keyframe (frame type 1).
pub open spec fn is_keyframe_payload(data: Seq<u8>) -> bool {
    data.len() >= 2 && data[0] / 16 == 1
}

/// Whether the payload is an AAC sequence header: sound format 10, packet
/// type 0.
pub open spec fn is_aac_header_payload(data: Seq<u8>) -> bool {
    data.len() >= 2 && data[0] / 16 == 10 && data[1] == 0
}

/// Whether the payload is an AVC sequence header: codec id 7, packet
/// type 0.
pub open spec fn is_avc_header_payload(data: Seq<u8>) -> bool {
    data.len() >= 2 && data[0] % 16 == 7 && data[1] == 0
}

/// Whether a video payload's first byte marks a keyframe.
fn video_is_keyframe(data: &Vec<u8>) -> (r: bool)
    ensures
        r == is_keyframe_payload(data@),
{
    data.len() >= 2 && data[0] / 16 == 1
}

/// Whether an audio payload is an AAC sequence header.
fn is_aac_sequence_header(data: &Vec<u8>) -> (r: bool)
    ensures
        r == is_aac_header_payload(data@),
{
    data.len() >= 2 && data[0] / 16 == 10 && data[1] == 0
}

/// Whether a video payload is an AVC sequence header.
fn is_avc_sequence_header(data: &Vec<u8>) -> (r: bool)
    ensures
        r == is_avc_header_payload(data@),
{
    data.len() >= 2 && data[0] % 16 == 7 && data[1] == 0
}

/// A publisher's stream state: codec configurations, metadata, the GOP
/// cache, and the subscribers packets fan out to.
pub struct Publisher {
    gop_cache: GopCache,
    subscribers: Vec<SubscriberHandle>,
    audio_codec_config: Option<Vec<u8>>,
    video_codec_config: Option<Vec<u8>>,
    metadata_packet: Option<RtmpPacket>,
}

impl Publisher {
    /// The subscribers, in attachment order.
    pub closed spec fn subs(self) -> Seq<SubscriberHandle> {
        self.subscribers@
    }

    /// The cache invariant carried through every operation.
    pub closed spec fn cache_wf(self) -> bool {
        self.gop_cache.wf()
    }

    /// The cached metadata packet, when one arrived.
    pub closed spec fn metadata_spec(self) -> Option<RtmpPacket> {
        self.metadata_packet
    }

    /// The cached AAC configuration, when one arrived.
    pub closed spec fn audio_config_spec(self) -> Option<Seq<u8>> {
        match self.audio_codec_config {
            Option::Some(c) => Option::Some(c@),
            Option::None => Option::None,
        }
    }

    /// The cached AVC configuration, when one arrived.
    pub closed spec fn video_config_spec(self) -> Option<Seq<u8>> {
        match self.video_codec_config {
            Option::Some(c) => Option::Some(c@),
            Option::None => Option::None,
        }
    }

    /// Every cached GOP packet, oldest first, the group in progress last.
    pub closed spec fn cache_flat(self) -> Seq<RtmpPacket> {
        gops_flat(self.gop_cache.cached()) + self.gop_cache.current()
    }

    /// The completed groups, oldest first, each as its packet list.
    pub closed spec fn cache_groups(self) -> Seq<Seq<RtmpPacket>> {
        gops_views(self.gop_cache.cached())
    }

    /// The group in progress.
    pub closed spec fn cache_open(self) -> Seq<RtmpPacket> {
        self.gop_cache.current()
    }

    /// The cap on groups held, the one in progress included.
    pub closed spec fn cache_cap(self) -> int {
        self.gop_cache.cap()
    }

    /// How many packets the cache holds in all.
    pub closed spec fn cache_count(self) -> int {
        gops_total(self.gop_cache.cached()) + self.gop_cache.current().len()
    }

    /// What a fresh subscriber on the given stream id replays, as packet
    /// views: the metadata, the AAC configuration, the AVC configuration
    /// (each when present and announceable), then the cached GOP packets,
    /// all re-headered to that stream id.
    pub open spec fn replay_views(self, stream_id: u32) -> Seq<(RtmpHeader, Seq<u8>)> {
        (match self.metadata_spec() {
            Option::Some(m) => seq![reheadered(m@, stream_id)],
            Option::None => Seq::empty(),
        }) + (match self.audio_config_spec() {
            Option::Some(c) => if c.len() <= u32::MAX {
                seq![
                    (RtmpHeader {
                        timestamp: 0,
                        message_length: c.len() as u32,
                        message_type: crate::constants::MSG_TYPE_AUDIO,
                        message_stream_id: stream_id,
                        chunk_stream_id: crate::constants::CHUNK_STREAM_AUDIO,
                    }, c),
                ]
            } else {
                Seq::empty()
            },
            Option::None => Seq::empty(),
        }) + (match self.video_config_spec() {
            Option::Some(c) => if c.len() <= u32::MAX {
                seq![
                    (RtmpHeader {
                        timestamp: 0,
                        message_length: c.len() as u32,
                        message_type: crate::constants::MSG_TYPE_VIDEO,
                        message_stream_id: stream_id,
                        chunk_stream_id: crate::constants::CHUNK_STREAM_VIDEO,
                    }, c),
                ]
            } else {
                Seq::empty()
            },
            Option::None => Seq::empty(),
        }) + reheadered_all(pkts_view(self.cache_flat()), stream_id)
    }

    /// A publisher with an empty cache of the given capacity and no
    /// subscribers.
    pub fn new(gop_cache_size: usize) -> (r: Publisher)
        ensures
            r.cache_wf(),
            r.subs().len() == 0,
    {
        Publisher {
            gop_cache: GopCache::new(gop_cache_size),
            subscribers: Vec::new(),
            audio_codec_config: None,
            video_codec_config: None,
            metadata_packet: None,
        }
    }

    /// Ingest an audio packet: an AAC sequence header replaces the cached
    /// configuration, everything else leaves the caches alone; the fan-out
    /// copies come back, one per subscriber, in subscriber order, each
    /// re-headered to that subscriber's stream id.
    pub fn process_audio(&mut self, packet: &RtmpPacket) -> (r: Vec<RtmpPacket>)
        requires
            old(self).cache_wf(),
        ensures
            final(self).cache_wf(),
            final(self).subs() == old(self).subs(),
            is_aac_header_payload(packet.payload@) ==> final(self).audio_config_spec() == Some(
                packet.payload@,
            ),
            !is_aac_header_payload(packet.payload@) ==> final(self).audio_config_spec() == old(
                self,
            ).audio_config_spec(),
            final(self).video_config_spec() == old(self).video_config_spec(),
            final(self).metadata_spec() == old(self).metadata_spec(),
            final(self).cache_groups() == old(self).cache_groups(),
            final(self).cache_open() == old(self).cache_open(),
            final(self).cache_cap() == old(self).cache_cap(),
            r@.len() == old(self).subs().len(),
            forall|i: int|
                0 <= i < r@.len() ==> (#[trigger] r@[i])@ == reheadered(
                    packet@,
                    old(self).subs()[i].stream_id,
                ),
    {
        if is_aac_sequence_header(&packet.payload) {
            self.audio_codec_config = Some(copy_bytes(&packet.payload));
        }
        self.distribute_packet(packet)
    }

    /// Ingest a video packet: an AVC sequence header replaces the cached
    /// configuration and touches no group; a keyframe closes the group in
    /// progress -- appending it to the completed list, the oldest evicted
    /// past the cap -- and opens a new group with the keyframe; any other
    /// frame joins the group in progress; the fan-out copies come back as
    /// for audio.
    pub fn process_video(&mut self, packet: &RtmpPacket) -> (r: Vec<RtmpPacket>)
        requires
            old(self).cache_wf(),
        ensures
            final(self).cache_wf(),
            final(self).subs() == old(self).subs(),
            final(self).audio_config_spec() == old(self).audio_config_spec(),
            final(self).metadata_spec() == old(self).metadata_spec(),
            final(self).cache_cap() == old(self).cache_cap(),
            is_avc_header_payload(packet.payload@) ==> {
                &&& final(self).video_config_spec() == Some(packet.payload@)
                &&& final(self).cache_groups() == old(self).cache_groups()
                &&& final(self).cache_open() == old(self).cache_open()
            },
            !is_avc_header_payload(packet.payload@) ==> final(self).video_config_spec() == old(
                self,
            ).video_config_spec(),
            (!is_avc_header_payload(packet.payload@) && is_keyframe_payload(packet.payload@)
                && old(self).cache_count() < usize::MAX) ==> {
                &&& final(self).cache_open().len() == 1
                &&& final(self).cache_open()[0]@ == packet@
                &&& (old(self).cache_open().len() == 0 ==> final(self).cache_groups() == old(
                    self,
                ).cache_groups())
                &&& (old(self).cache_open().len() > 0 ==> final(self).cache_groups() == evicted(
                    old(self).cache_groups().push(old(self).cache_open()),
                    old(self).cache_cap(),
                ))
            },
            (!is_avc_header_payload(packet.payload@) && !is_keyframe_payload(packet.payload@)
                && old(self).cache_count() < usize::MAX) ==> {
                &&& final(self).cache_groups() == old(self).cache_groups()
                &&& (old(self).cache_open().len() > 0 ==> {
                    &&& final(self).cache_open().len() == old(self).cache_open().len() + 1
                    &&& final(self).cache_open().drop_last() == old(self).cache_open()
                    &&& final(self).cache_open().last()@ == packet@
                })
                &&& (old(self).cache_open().len() == 0 ==> final(self).cache_open() == old(
                    self,
                ).cache_open())
            },
            r@.len() == old(self).subs().len(),
            forall|i: int|
                0 <= i < r@.len() ==> (#[trigger] r@[i])@ == reheadered(
                    packet@,
                    old(self).subs()[i].stream_id,
                ),
    {
        if is_avc_sequence_header(&packet.payload) {
            // The configuration record is replayed separately; it does not
            // open a group of pictures.
            self.video_codec_config = Some(copy_bytes(&packet.payload));
        } else {
            let copy = clone_packet(packet);
            proof {
                crate::gop_cache::lemma_gops_flat_len(self.gop_cache.cached());
            }
            if video_is_keyframe(&packet.payload) {
                self.gop_cache.add_keyframe_checked(copy);
            } else {
                self.gop_cache.add_frame_checked(copy);
            }
        }
        self.distribute_packet(packet)
    }

    /// Ingest a metadata packet: it replaces the cached metadata; the
    /// fan-out copies come back as for audio.
    pub fn process_metadata(&mut self, packet: &RtmpPacket) -> (r: Vec<RtmpPacket>)
        requires
            old(self).cache_wf(),
        ensures
            final(self).cache_wf(),
            final(self).subs() == old(self).subs(),
            final(self).metadata_spec() matches Some(m) && m@ == packet@,
            final(self).audio_config_spec() == old(self).audio_config_spec(),
            final(self).video_config_spec() == old(self).video_config_spec(),
            final(self).cache_groups() == old(self).cache_groups(),
            final(self).cache_open() == old(self).cache_open(),
            r@.len() == old(self).subs().len(),
            forall|i: int|
                0 <= i < r@.len() ==> (#[trigger] r@[i])@ == reheadered(
                    packet@,
                    old(self).subs()[i].stream_id,
                ),
    {
        self.metadata_packet = Some(clone_packet(packet));
        self.distribute_packet(packet)
    }

    /// Attach a subscriber and hand back what it must replay first: the
    /// cached metadata, then the AAC configuration, then the AVC
    /// configuration (each when present), then every cached GOP packet,
    /// all re-headered to the subscriber's stream id.
    pub fn add_subscriber(&mut self, id: String, stream_id: u32) -> (r: Vec<RtmpPacket>)
        requires
            old(self).cache_wf(),
        ensures
            final(self).cache_wf(),
            final(self).subs().len() == old(self).subs().len() + 1,
            final(self).subs().take(old(self).subs().len() as int) == old(self).subs(),
            final(self).subs().last().stream_id == stream_id,
            final(self).subs().last().id@ == id@,
            pkts_view(r@) == old(self).replay_views(stream_id),
            forall|i: int|
                0 <= i < r@.len() ==> (#[trigger] r@[i]).header.message_stream_id == stream_id,
    {
        let initial = self.send_initial_packets(stream_id);
        let ghost olds = self.subscribers@;
        self.subscribers.push(SubscriberHandle { id, stream_id });
        proof {
            assert(self.subscribers@.take(olds.len() as int) =~= olds);
        }
        initial
    }

    /// Detach the subscriber under an id; every other subscriber stays, in
    /// order.
    pub fn remove_subscriber(&mut self, id: &str)
        requires
            old(self).cache_wf(),
        ensures
            final(self).cache_wf(),
            forall|i: int|
                0 <= i < final(self).subs().len() ==> (#[trigger] final(self).subs()[i]).id@
                    != id@,
    {
        let n = self.subscribers.len();
        let mut kept: Vec<SubscriberHandle> = Vec::new();
        let mut i: usize = 0;
        while i < n
            invariant
                n == self.subscribers@.len(),
                i <= n,
                forall|j: int| 0 <= j < kept@.len() ==> (#[trigger] kept@[j]).id@ != id@,
            decreases n - i,
        {
            if !str_eq(self.subscribers[i].id.as_str(), id) {
                let sub = SubscriberHandle {
                    id: self.subscribers[i].id.clone(),
                    stream_id: self.subscribers[i].stream_id,
                };
                proof {
                    assert(sub.id@ == self.subscribers@[i as int].id@);
                }
                kept.push(sub);
            }
            i = i + 1;
        }
        self.subscribers = kept;
    }

    /// What a fresh subscriber replays: metadata, sequence headers, then
    /// the GOP cache, re-headered to its stream id.
    fn send_initial_packets(&self, stream_id: u32) -> (r: Vec<RtmpPacket>)
        requires
            self.cache_wf(),
        ensures
            pkts_view(r@) == self.replay_views(stream_id),
            forall|i: int|
                0 <= i < r@.len() ==> (#[trigger] r@[i]).header.message_stream_id == stream_id,
    {
        let mut out: Vec<RtmpPacket> = Vec::new();
        match &self.metadata_packet {
            Some(metadata) => {
                out.push(reheader_packet(metadata, stream_id));
            },
            None => (),
        }
        match &self.audio_codec_config {
            Some(config) => {
                if config.len() <= u32::MAX as usize {
                    out.push(make_audio_packet(copy_bytes(config), 0, stream_id));
                }
            },
            None => (),
        }
        match &self.video_codec_config {
            Some(config) => {
                if config.len() <= u32::MAX as usize {
                    out.push(make_video_packet(copy_bytes(config), 0, stream_id));
                }
            },
            None => (),
        }
        let ghost head = self.replay_views(stream_id).take(
            self.replay_views(stream_id).len() - pkts_view(self.cache_flat()).len(),
        );
        proof {
            assert(pkts_view(out@) =~~= head);
        }
        let gop = self.gop_cache.get_gop();
        proof {
            crate::packet::lemma_pkts_view_len(gop@);
            crate::packet::lemma_pkts_view_len(self.cache_flat());
        }
        let m = gop.len();
        let mut j: usize = 0;
        while j < m
            invariant
                m == gop@.len(),
                j <= m,
                pkts_view(gop@) == pkts_view(self.cache_flat()),
                pkts_view(gop@).len() == m,
                head == self.replay_views(stream_id).take(
                    self.replay_views(stream_id).len() - m,
                ),
                self.replay_views(stream_id).len() - m >= 0,
                pkts_view(out@) == head + reheadered_all(pkts_view(gop@).take(j as int), stream_id),
                forall|i: int|
                    0 <= i < out@.len() ==> (#[trigger] out@[i]).header.message_stream_id
                        == stream_id,
            decreases m - j,
        {
            let p = reheader_packet(&gop[j], stream_id);
            let ghost prev = out@;
            out.push(p);
            proof {
                let target = head + reheadered_all(pkts_view(gop@).take(j + 1), stream_id);
                assert(out@ == prev.push(p));
                assert(pkts_view(prev).len() == prev.len());
                assert(prev.len() == head.len() + j);
                assert(pkts_view(out@).len() == target.len());
                assert forall|i: int|
                    0 <= i < pkts_view(out@).len() implies pkts_view(out@)[i] == target[i] by {
                    if i < prev.len() {
                        assert(pkts_view(out@)[i] == pkts_view(prev)[i]);
                        assert(pkts_view(prev)[i] == (head + reheadered_all(
                            pkts_view(gop@).take(j as int),
                            stream_id,
                        ))[i]);
                        if i >= head.len() {
                            assert(reheadered_all(pkts_view(gop@).take(j as int), stream_id)[i
                                - head.len()] == reheadered(
                                pkts_view(gop@).take(j as int)[i - head.len()],
                                stream_id,
                            ));
                            assert(reheadered_all(pkts_view(gop@).take(j + 1), stream_id)[i
                                - head.len()] == reheadered(
                                pkts_view(gop@).take(j + 1)[i - head.len()],
                                stream_id,
                            ));
                        }
                    } else {
                        assert(out@[i] == p);
                        assert(p@ == reheadered(gop@[j as int]@, stream_id));
                        assert(reheadered_all(pkts_view(gop@).take(j + 1), stream_id)[j as int]
                            == reheadered(pkts_view(gop@)[j as int], stream_id));
                        assert(pkts_view(gop@)[j as int] == gop@[j as int]@);
                    }
                }
                assert(pkts_view(out@) =~~= target);
            }
            j = j + 1;
        }
        proof {
            assert(pkts_view(gop@).take(m as int) =~= pkts_view(gop@));
            assert(pkts_view(out@) =~~= self.replay_views(stream_id));
        }
        out
    }

    /// One re-headered copy of a packet per subscriber, in subscriber
    /// order.
    fn distribute_packet(&self, packet: &RtmpPacket) -> (r: Vec<RtmpPacket>)
        ensures
            r@.len() == self.subs().len(),
            forall|i: int|
                0 <= i < r@.len() ==> (#[trigger] r@[i])@ == reheadered(
                    packet@,
                    self.subs()[i].stream_id,
                ),
    {
        let n = self.subscribers.len();
        let mut out: Vec<RtmpPacket> = Vec::new();
        let mut i: usize = 0;
        while i < n
            invariant
                n == self.subscribers@.len(),
                i <= n,
                out@.len() == i,
                forall|j: int|
                    0 <= j < i ==> (#[trigger] out@[j])@ == reheadered(
                        packet@,
                        self.subscribers@[j].stream_id,
                    ),
            decreases n - i,
        {
            out.push(reheader_packet(packet, self.subscribers[i].stream_id));
            i = i + 1;
        }
        out
    }

    /// How many subscribers are attached.
    pub fn subscriber_count(&self) -> (r: usize)
        ensures
            r == self.subs().len(),
    {
        self.subscribers.len()
    }
}

} // verus!
