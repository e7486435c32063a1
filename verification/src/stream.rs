//! Stream identity, metadata and statistics.  Numeric metadata values are
//! held as the IEEE-754 bit patterns of the wire numbers.

use vstd::prelude::*;
use vstd::string::{StrSliceExecFns, StringSliceAdditionalSpecFns};
use crate::amf0::{Amf0Value, Amf0Term, props_view, amf_view, prop_lookup, num_prop_of,
    str_prop_of, lemma_props_view_index, lemma_props_view_push};
use crate::data::str_bytes_is;
use crate::time::current_timestamp;

verus! {

broadcast use vstd::std_specs::vec::axiom_spec_len;

/// How a stream is used.
#[derive(Debug, Clone, Copy, PartialEq, Eq, Structural)]
pub enum StreamType {
    Live,
    Record,
    Append,
    PlayOnly,
}

/// A stream's identity.
#[derive(Debug)]
pub struct StreamInfo {
    pub id: u32,
    pub name: String,
    pub stream_type: StreamType,
    pub created_at: u32,
    pub metadata: Option<StreamMetadata>,
}

/// The metadata fields the stack reads, each the bit pattern of the wire
/// number where the wire carries one.
#[derive(Debug)]
pub struct StreamMetadata {
    pub video_codec: Option<Vec<u8>>,
    pub audio_codec: Option<Vec<u8>>,
    pub width: Option<u64>,
    pub height: Option<u64>,
    pub framerate: Option<u64>,
    pub video_bitrate: Option<u64>,
    pub audio_bitrate: Option<u64>,
    pub audio_sample_rate: Option<u64>,
    pub audio_channels: Option<u64>,
    pub duration: Option<u64>,
}

/// The byte view of an optional buffer.
pub open spec fn opt_bytes(o: Option<Vec<u8>>) -> Option<Seq<u8>> {
    match o {
        Option::Some(v) => Option::Some(v@),
        Option::None => Option::None,
    }
}

/// A member list holding one string member, or none.
pub open spec fn str_member(key: Seq<u8>, o: Option<Vec<u8>>) -> Seq<(Seq<u8>, Amf0Term)> {
    match o {
        Option::Some(v) => seq![(key, Amf0Term::String(v@))],
        Option::None => Seq::empty(),
    }
}

/// A member list holding one number member, or none.
pub open spec fn num_member(key: Seq<u8>, o: Option<u64>) -> Seq<(Seq<u8>, Amf0Term)> {
    match o {
        Option::Some(v) => seq![(key, Amf0Term::Number(v))],
        Option::None => Seq::empty(),
    }
}

/// The member list a metadata record rebuilds: the present fields, in the
/// canonical order, absent ones left out.
pub open spec fn meta_members(m: StreamMetadata) -> Seq<(Seq<u8>, Amf0Term)> {
    str_member("videocodecid".spec_bytes(), m.video_codec) + str_member(
        "audiocodecid".spec_bytes(),
        m.audio_codec,
    ) + num_member("width".spec_bytes(), m.width) + num_member("height".spec_bytes(), m.height)
        + num_member("framerate".spec_bytes(), m.framerate) + num_member(
        "videodatarate".spec_bytes(),
        m.video_bitrate,
    ) + num_member("audiodatarate".spec_bytes(), m.audio_bitrate) + num_member(
        "audiosamplerate".spec_bytes(),
        m.audio_sample_rate,
    ) + num_member("audiochannels".spec_bytes(), m.audio_channels) + num_member(
        "duration".spec_bytes(),
        m.duration,
    )
}

/// The number stored under a key of a member list, when one is.
fn number_prop(data: &Vec<(Vec<u8>, Amf0Value)>, key: &str) -> (r: Option<u64>)
    ensures
        r == num_prop_of(props_view(data@), key.spec_bytes()),
{
    proof {
        lemma_props_view_index(data@);
    }
    let ghost pv = props_view(data@);
    let n = data.len();
    let mut i: usize = 0;
    proof {
        assert(pv.skip(0) =~= pv);
    }
    while i < n
        invariant
            n == data@.len(),
            i <= n,
            pv == props_view(data@),
            pv.len() == n,
            forall|j: int| 0 <= j < n ==> #[trigger] pv[j] == (data@[j].0@, amf_view(data@[j].1)),
            prop_lookup(pv.skip(i as int), key.spec_bytes()) == prop_lookup(
                pv,
                key.spec_bytes(),
            ),
        decreases n - i,
    {
        proof {
            assert(pv.skip(i as int)[0] == pv[i as int]);
            assert(pv.skip(i as int).drop_first() =~= pv.skip(i + 1));
        }
        if str_bytes_is(&data[i].0, key) {
            return match &data[i].1 {
                Amf0Value::Number(b) => Some(*b),
                _ => None,
            };
        }
        i = i + 1;
    }
    proof {
        assert(pv.skip(n as int) =~= Seq::<(Seq<u8>, Amf0Term)>::empty());
    }
    None
}

/// The string stored under a key of a member list, when one is.
fn string_prop(data: &Vec<(Vec<u8>, Amf0Value)>, key: &str) -> (r: Option<Vec<u8>>)
    ensures
        opt_bytes(r) == str_prop_of(props_view(data@), key.spec_bytes()),
{
    proof {
        lemma_props_view_index(data@);
    }
    let ghost pv = props_view(data@);
    let n = data.len();
    let mut i: usize = 0;
    proof {
        assert(pv.skip(0) =~= pv);
    }
    while i < n
        invariant
            n == data@.len(),
            i <= n,
            pv == props_view(data@),
            pv.len() == n,
            forall|j: int| 0 <= j < n ==> #[trigger] pv[j] == (data@[j].0@, amf_view(data@[j].1)),
            prop_lookup(pv.skip(i as int), key.spec_bytes()) == prop_lookup(
                pv,
                key.spec_bytes(),
            ),
        decreases n - i,
    {
        proof {
            assert(pv.skip(i as int)[0] == pv[i as int]);
            assert(pv.skip(i as int).drop_first() =~= pv.skip(i + 1));
        }
        if str_bytes_is(&data[i].0, key) {
            return match &data[i].1 {
                Amf0Value::String(b) => Some(crate::command::copy_bytes(b)),
                Amf0Value::LongString(b) => Some(crate::command::copy_bytes(b)),
                _ => None,
            };
        }
        i = i + 1;
    }
    proof {
        assert(pv.skip(n as int) =~= Seq::<(Seq<u8>, Amf0Term)>::empty());
    }
    None
}

impl StreamMetadata {
    /// Pick the recognised fields out of a metadata object, each the first
    /// value under its key, numbers and strings only.
    pub fn from_amf(data: &Vec<(Vec<u8>, Amf0Value)>) -> (r: StreamMetadata)
        ensures
            opt_bytes(r.video_codec) == str_prop_of(props_view(data@), "videocodecid".spec_bytes()),
            opt_bytes(r.audio_codec) == str_prop_of(props_view(data@), "audiocodecid".spec_bytes()),
            r.width == num_prop_of(props_view(data@), "width".spec_bytes()),
            r.height == num_prop_of(props_view(data@), "height".spec_bytes()),
            r.framerate == num_prop_of(props_view(data@), "framerate".spec_bytes()),
            r.video_bitrate == num_prop_of(props_view(data@), "videodatarate".spec_bytes()),
            r.audio_bitrate == num_prop_of(props_view(data@), "audiodatarate".spec_bytes()),
            r.audio_sample_rate == num_prop_of(props_view(data@), "audiosamplerate".spec_bytes()),
            r.audio_channels == num_prop_of(props_view(data@), "audiochannels".spec_bytes()),
            r.duration == num_prop_of(props_view(data@), "duration".spec_bytes()),
    {
        StreamMetadata {
            video_codec: string_prop(data, "videocodecid"),
            audio_codec: string_prop(data, "audiocodecid"),
            width: number_prop(data, "width"),
            height: number_prop(data, "height"),
            framerate: number_prop(data, "framerate"),
            video_bitrate: number_prop(data, "videodatarate"),
            audio_bitrate: number_prop(data, "audiodatarate"),
            audio_sample_rate: number_prop(data, "audiosamplerate"),
            audio_channels: number_prop(data, "audiochannels"),
            duration: number_prop(data, "duration"),
        }
    }

    /// Rebuild a metadata object from the stored fields, in the canonical
    /// order, absent fields left out.
    pub fn to_amf(&self) -> (r: Vec<(Vec<u8>, Amf0Value)>)
        ensures
            props_view(r@) == meta_members(*self),
    {
        let ghost t1 = str_member("videocodecid".spec_bytes(), self.video_codec);
        let ghost t2 = t1 + str_member("audiocodecid".spec_bytes(), self.audio_codec);
        let ghost t3 = t2 + num_member("width".spec_bytes(), self.width);
        let ghost t4 = t3 + num_member("height".spec_bytes(), self.height);
        let ghost t5 = t4 + num_member("framerate".spec_bytes(), self.framerate);
        let ghost t6 = t5 + num_member("videodatarate".spec_bytes(), self.video_bitrate);
        let ghost t7 = t6 + num_member("audiodatarate".spec_bytes(), self.audio_bitrate);
        let ghost t8 = t7 + num_member("audiosamplerate".spec_bytes(), self.audio_sample_rate);
        let ghost t9 = t8 + num_member("audiochannels".spec_bytes(), self.audio_channels);
        let ghost t10 = t9 + num_member("duration".spec_bytes(), self.duration);
        let mut data: Vec<(Vec<u8>, Amf0Value)> = Vec::new();
        push_str_member(&mut data, "videocodecid", &self.video_codec);
        proof {
            assert(props_view(data@) =~= t1);
        }
        push_str_member(&mut data, "audiocodecid", &self.audio_codec);
        proof {
            assert(props_view(data@) == t2);
        }
        push_num_member(&mut data, "width", self.width);
        proof {
            assert(props_view(data@) == t3);
        }
        push_num_member(&mut data, "height", self.height);
        proof {
            assert(props_view(data@) == t4);
        }
        push_num_member(&mut data, "framerate", self.framerate);
        proof {
            assert(props_view(data@) == t5);
        }
        push_num_member(&mut data, "videodatarate", self.video_bitrate);
        proof {
            assert(props_view(data@) == t6);
        }
        push_num_member(&mut data, "audiodatarate", self.audio_bitrate);
        proof {
            assert(props_view(data@) == t7);
        }
        push_num_member(&mut data, "audiosamplerate", self.audio_sample_rate);
        proof {
            assert(props_view(data@) == t8);
        }
        push_num_member(&mut data, "audiochannels", self.audio_channels);
        proof {
            assert(props_view(data@) == t9);
        }
        push_num_member(&mut data, "duration", self.duration);
        proof {
            assert(props_view(data@) == t10);
        }
        data
    }
}

/// Append the member a present number field yields.
pub fn push_num_member(data: &mut Vec<(Vec<u8>, Amf0Value)>, key: &str, o: Option<u64>)
    ensures
        props_view(final(data)@) == props_view(old(data)@) + num_member(key.spec_bytes(), o),
{
    match o {
        Some(v) => {
            let ghost prevd = data@;
            data.push((key.as_bytes_vec(), Amf0Value::Number(v)));
            proof {
                lemma_props_view_push(prevd, data@.last());
                assert(data@ =~= prevd.push(data@.last()));
                assert(props_view(data@) =~= props_view(prevd) + num_member(
                    key.spec_bytes(),
                    o,
                ));
            }
        },
        None => {
            proof {
                assert(props_view(data@) =~= props_view(data@) + num_member(
                    key.spec_bytes(),
                    o,
                ));
            }
        },
    }
}

/// Append the member a present string field yields.
pub fn push_str_member(data: &mut Vec<(Vec<u8>, Amf0Value)>, key: &str, o: &Option<Vec<u8>>)
    ensures
        props_view(final(data)@) == props_view(old(data)@) + str_member(key.spec_bytes(), *o),
{
    match o {
        Some(v) => {
            let ghost prevd = data@;
            data.push((key.as_bytes_vec(), Amf0Value::String(crate::command::copy_bytes(v))));
            proof {
                lemma_props_view_push(prevd, data@.last());
                assert(data@ =~= prevd.push(data@.last()));
                assert(props_view(data@) =~= props_view(prevd) + str_member(
                    key.spec_bytes(),
                    *o,
                ));
            }
        },
        None => {
            proof {
                assert(props_view(data@) =~= props_view(data@) + str_member(
                    key.spec_bytes(),
                    *o,
                ));
            }
        },
    }
}

/// Counters a stream keeps while live.
#[derive(Debug, Clone, Copy, PartialEq, Eq, Structural)]
pub struct StreamStats {
    pub bytes_in: u64,
    pub bytes_out: u64,
    pub audio_packets: u64,
    pub video_packets: u64,
    pub data_packets: u64,
    pub last_audio_timestamp: u32,
    pub last_video_timestamp: u32,
}

impl Default for StreamStats {
    /// All counters at zero.
    fn default() -> (r: StreamStats)
        ensures
            r == (StreamStats {
                bytes_in: 0,
                bytes_out: 0,
                audio_packets: 0,
                video_packets: 0,
                data_packets: 0,
                last_audio_timestamp: 0,
                last_video_timestamp: 0,
            }),
    {
        StreamStats {
            bytes_in: 0,
            bytes_out: 0,
            audio_packets: 0,
            video_packets: 0,
            data_packets: 0,
            last_audio_timestamp: 0,
            last_video_timestamp: 0,
        }
    }
}

/// A live stream: its identity and counters.
pub struct Stream {
    info: StreamInfo,
    stats: StreamStats,
}

impl Stream {
    /// A fresh stream with zeroed counters.
    pub fn new(id: u32, name: String, stream_type: StreamType) -> (r: Stream)
        ensures
            r.info_spec().id == id,
            r.info_spec().name@ == name@,
            r.info_spec().stream_type == stream_type,
            r.stats_spec() == (StreamStats {
                bytes_in: 0,
                bytes_out: 0,
                audio_packets: 0,
                video_packets: 0,
                data_packets: 0,
                last_audio_timestamp: 0,
                last_video_timestamp: 0,
            }),
    {
        Stream {
            info: StreamInfo {
                id,
                name,
                stream_type,
                created_at: current_timestamp(),
                metadata: None,
            },
            stats: StreamStats::default(),
        }
    }

    /// The stream's identity.
    pub closed spec fn info_spec(self) -> StreamInfo {
        self.info
    }

    /// The stream's counters.
    pub closed spec fn stats_spec(self) -> StreamStats {
        self.stats
    }

    /// Borrow the identity.
    pub fn info(&self) -> (r: &StreamInfo)
        ensures
            r == self.info_spec(),
    {
        &self.info
    }

    /// Store metadata on the stream.
    pub fn set_metadata(&mut self, metadata: StreamMetadata)
        ensures
            final(self).info_spec().metadata is Some,
            final(self).stats_spec() == old(self).stats_spec(),
    {
        self.info.metadata = Some(metadata);
    }

    /// Count an ingested audio packet.
    pub fn note_audio(&mut self, payload_len: u64, timestamp: u32)
        ensures
            final(self).stats_spec().audio_packets == (old(self).stats_spec().audio_packets + 1)
                % (u64::MAX as int + 1),
            final(self).stats_spec().last_audio_timestamp == timestamp,
    {
        self.stats.audio_packets = self.stats.audio_packets.wrapping_add(1);
        self.stats.bytes_in = self.stats.bytes_in.wrapping_add(payload_len);
        self.stats.last_audio_timestamp = timestamp;
    }

    /// Count an ingested video packet.
    pub fn note_video(&mut self, payload_len: u64, timestamp: u32)
        ensures
            final(self).stats_spec().video_packets == (old(self).stats_spec().video_packets + 1)
                % (u64::MAX as int + 1),
            final(self).stats_spec().last_video_timestamp == timestamp,
    {
        self.stats.video_packets = self.stats.video_packets.wrapping_add(1);
        self.stats.bytes_in = self.stats.bytes_in.wrapping_add(payload_len);
        self.stats.last_video_timestamp = timestamp;
    }

    /// Count an ingested data packet.
    pub fn note_data(&mut self, payload_len: u64)
        ensures
            final(self).stats_spec().data_packets == (old(self).stats_spec().data_packets + 1) % (
            u64::MAX as int + 1),
    {
        self.stats.data_packets = self.stats.data_packets.wrapping_add(1);
        self.stats.bytes_in = self.stats.bytes_in.wrapping_add(payload_len);
    }

    /// Copy out the counters.
    pub fn stats(&self) -> (r: StreamStats)
        ensures
            r == self.stats_spec(),
    {
        self.stats
    }
}

} // verus!
