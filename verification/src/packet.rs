//! Packets and message headers: the unit the stack routes, caches and fans
//! out.  A packet is immutable once assembled; an accepted packet's payload
//! is exactly message_length bytes long.

use vstd::prelude::*;
use crate::constants::{MSG_TYPE_SET_CHUNK_SIZE, MSG_TYPE_ABORT, MSG_TYPE_ACK, MSG_TYPE_WINDOW_ACK, MSG_TYPE_SET_PEER_BW, MSG_TYPE_AUDIO, MSG_TYPE_VIDEO, MSG_TYPE_DATA_AMF3, MSG_TYPE_COMMAND_AMF3, MSG_TYPE_DATA_AMF0, MSG_TYPE_COMMAND_AMF0, CHUNK_STREAM_COMMAND, CHUNK_STREAM_AUDIO, CHUNK_STREAM_VIDEO, CHUNK_STREAM_DATA};
use crate::buffer::{be24_bytes, le32_bytes};

verus! {

broadcast use vstd::std_specs::vec::axiom_spec_len;

/// The message-layer header of a packet.
#[derive(Debug, Clone, Copy, PartialEq, Eq, Structural)]
pub struct RtmpHeader {
    /// Absolute timestamp in milliseconds.
    pub timestamp: u32,
    /// Payload length in bytes; a 24-bit field on the wire.
    pub message_length: u32,
    /// Message type id.
    pub message_type: u8,
    /// Message stream the packet belongs to; little-endian on the wire.
    pub message_stream_id: u32,
    /// Local routing only; not part of the message-layer encoding.
    pub chunk_stream_id: u32,
}

impl RtmpHeader {
    /// Create a new header.
    pub fn new(
        timestamp: u32,
        message_length: u32,
        message_type: u8,
        message_stream_id: u32,
        chunk_stream_id: u32,
    ) -> (r: RtmpHeader)
        ensures
            r == (RtmpHeader {
                timestamp,
                message_length,
                message_type,
                message_stream_id,
                chunk_stream_id,
            }),
    {
        RtmpHeader { timestamp, message_length, message_type, message_stream_id, chunk_stream_id }
    }

    /// A header for an audio message, on the conventional audio chunk stream.
    pub fn audio(timestamp: u32, length: u32, stream_id: u32) -> (r: RtmpHeader)
        ensures
            r == (RtmpHeader {
                timestamp,
                message_length: length,
                message_type: MSG_TYPE_AUDIO,
                message_stream_id: stream_id,
                chunk_stream_id: CHUNK_STREAM_AUDIO,
            }),
    {
        RtmpHeader::new(timestamp, length, MSG_TYPE_AUDIO, stream_id, CHUNK_STREAM_AUDIO)
    }

    /// A header for a video message, on the conventional video chunk stream.
    pub fn video(timestamp: u32, length: u32, stream_id: u32) -> (r: RtmpHeader)
        ensures
            r == (RtmpHeader {
                timestamp,
                message_length: length,
                message_type: MSG_TYPE_VIDEO,
                message_stream_id: stream_id,
                chunk_stream_id: CHUNK_STREAM_VIDEO,
            }),
    {
        RtmpHeader::new(timestamp, length, MSG_TYPE_VIDEO, stream_id, CHUNK_STREAM_VIDEO)
    }

    /// A header for a command message, on the conventional command chunk
    /// stream.
    pub fn command(timestamp: u32, length: u32, stream_id: u32) -> (r: RtmpHeader)
        ensures
            r == (RtmpHeader {
                timestamp,
                message_length: length,
                message_type: MSG_TYPE_COMMAND_AMF0,
                message_stream_id: stream_id,
                chunk_stream_id: CHUNK_STREAM_COMMAND,
            }),
    {
        RtmpHeader::new(timestamp, length, MSG_TYPE_COMMAND_AMF0, stream_id, CHUNK_STREAM_COMMAND)
    }

    /// A header for a data message, on the conventional data chunk stream.
    pub fn data(timestamp: u32, length: u32, stream_id: u32) -> (r: RtmpHeader)
        ensures
            r == (RtmpHeader {
                timestamp,
                message_length: length,
                message_type: MSG_TYPE_DATA_AMF0,
                message_stream_id: stream_id,
                chunk_stream_id: CHUNK_STREAM_DATA,
            }),
    {
        RtmpHeader::new(timestamp, length, MSG_TYPE_DATA_AMF0, stream_id, CHUNK_STREAM_DATA)
    }

    /// Whether the timestamp needs the four-byte extended field on the wire.
    pub fn has_extended_timestamp(&self) -> (r: bool)
        ensures
            r <==> self.timestamp >= 0xFFFFFF,
    {
        self.timestamp >= 0xFFFFFF
    }

    /// The 24-bit timestamp field as written on the wire: the indicator
    /// value when the timestamp is extended, else the timestamp itself.
    pub fn wire_timestamp(&self) -> (r: u32)
        ensures
            r == (if self.timestamp >= 0xFFFFFF {
                0xFFFFFFu32
            } else {
                self.timestamp
            }),
    {
        if self.timestamp >= 0xFFFFFF {
            0xFFFFFF
        } else {
            self.timestamp
        }
    }
}

/// A protocol message: header plus owned payload.
#[derive(Debug, Clone, PartialEq)]
pub struct RtmpPacket {
    pub header: RtmpHeader,
    pub payload: Vec<u8>,
}

impl RtmpPacket {
    /// An accepted packet's payload is exactly as long as its header says.
    pub open spec fn wf(self) -> bool {
        self.payload@.len() == self.header.message_length
    }

    /// Create a new packet from parts.
    pub fn new(header: RtmpHeader, payload: Vec<u8>) -> (r: RtmpPacket)
        ensures
            r.header == header,
            r.payload@ == payload@,
    {
        RtmpPacket { header, payload }
    }

    /// The message type id.
    pub fn message_type(&self) -> (r: u8)
        ensures
            r == self.header.message_type,
    {
        self.header.message_type
    }

    /// The message stream id.
    pub fn message_stream_id(&self) -> (r: u32)
        ensures
            r == self.header.message_stream_id,
    {
        self.header.message_stream_id
    }

    /// The absolute timestamp.
    pub fn timestamp(&self) -> (r: u32)
        ensures
            r == self.header.timestamp,
    {
        self.header.timestamp
    }

    /// Whether this is an audio packet.
    pub fn is_audio(&self) -> (r: bool)
        ensures
            r <==> self.header.message_type == MSG_TYPE_AUDIO,
    {
        self.header.message_type == MSG_TYPE_AUDIO
    }

    /// Whether this is a video packet.
    pub fn is_video(&self) -> (r: bool)
        ensures
            r <==> self.header.message_type == MSG_TYPE_VIDEO,
    {
        self.header.message_type == MSG_TYPE_VIDEO
    }

    /// Whether this is a command message.
    pub fn is_command(&self) -> (r: bool)
        ensures
            r <==> (self.header.message_type == MSG_TYPE_COMMAND_AMF0
                || self.header.message_type == MSG_TYPE_COMMAND_AMF3),
    {
        self.header.message_type == MSG_TYPE_COMMAND_AMF0 || self.header.message_type
            == MSG_TYPE_COMMAND_AMF3
    }

    /// Whether this is a data message.
    pub fn is_data(&self) -> (r: bool)
        ensures
            r <==> (self.header.message_type == MSG_TYPE_DATA_AMF0 || self.header.message_type
                == MSG_TYPE_DATA_AMF3),
    {
        self.header.message_type == MSG_TYPE_DATA_AMF0 || self.header.message_type
            == MSG_TYPE_DATA_AMF3
    }

    /// Whether this is a protocol-control message.
    pub fn is_control(&self) -> (r: bool)
        ensures
            r <==> (self.header.message_type == MSG_TYPE_SET_CHUNK_SIZE
                || self.header.message_type == MSG_TYPE_ABORT || self.header.message_type
                == MSG_TYPE_ACK || self.header.message_type == MSG_TYPE_WINDOW_ACK
                || self.header.message_type == MSG_TYPE_SET_PEER_BW),
    {
        self.header.message_type == MSG_TYPE_SET_CHUNK_SIZE || self.header.message_type
            == MSG_TYPE_ABORT || self.header.message_type == MSG_TYPE_ACK
            || self.header.message_type == MSG_TYPE_WINDOW_ACK || self.header.message_type
            == MSG_TYPE_SET_PEER_BW
    }

    /// A single Type-0 chunk on chunk-stream-id 3 carrying the whole
    /// payload: the simplest legal framing of a small message.
    pub fn create_chunks(&self, chunk_size: usize) -> (r: Vec<u8>)
        requires
            self.payload@.len() < 0x1000000,
        ensures
            r@ == seq![3u8] + be24_bytes(self.header.timestamp % 0x1000000) + be24_bytes(
                self.payload@.len() as u32,
            ) + seq![self.header.message_type] + le32_bytes(self.header.message_stream_id)
                + self.payload@,
    {
        let mut result: Vec<u8> = Vec::new();
        result.push(0x03);
        let ts = self.header.timestamp % 0x1000000;
        result.push((ts / 0x10000) as u8);
        result.push(((ts / 256) % 256) as u8);
        result.push((ts % 256) as u8);
        let len = self.payload.len();
        result.push(((len / 0x10000) % 256) as u8);
        result.push(((len / 256) % 256) as u8);
        result.push((len % 256) as u8);
        result.push(self.header.message_type);
        let sid = self.header.message_stream_id;
        result.push((sid % 256) as u8);
        result.push(((sid / 256) % 256) as u8);
        result.push(((sid / 0x10000) % 256) as u8);
        result.push((sid / 0x1000000) as u8);
        let mut i: usize = 0;
        let ghost head = result@;
        while i < self.payload.len()
            invariant
                i <= self.payload@.len(),
                result@ == head + self.payload@.subrange(0, i as int),
            decreases self.payload@.len() - i,
        {
            result.push(self.payload[i]);
            i = i + 1;
            proof {
                assert(result@ =~= head + self.payload@.subrange(0, i as int));
            }
        }
        proof {
            assert(self.payload@.subrange(0, self.payload@.len() as int) =~= self.payload@);
            assert(result@ =~= seq![3u8] + be24_bytes(self.header.timestamp % 0x1000000)
                + be24_bytes(self.payload@.len() as u32) + seq![self.header.message_type]
                + le32_bytes(self.header.message_stream_id) + self.payload@);
        }
        result
    }
}

/// Build an audio packet whose header length matches the payload.
pub fn make_audio_packet(data: Vec<u8>, timestamp: u32, stream_id: u32) -> (r: RtmpPacket)
    requires
        data@.len() <= u32::MAX,
    ensures
        r.wf(),
        r.header == (RtmpHeader {
            timestamp,
            message_length: data@.len() as u32,
            message_type: MSG_TYPE_AUDIO,
            message_stream_id: stream_id,
            chunk_stream_id: CHUNK_STREAM_AUDIO,
        }),
        r.payload@ == data@,
{
    let header = RtmpHeader::audio(timestamp, data.len() as u32, stream_id);
    RtmpPacket::new(header, data)
}

/// Build a video packet whose header length matches the payload.
pub fn make_video_packet(data: Vec<u8>, timestamp: u32, stream_id: u32) -> (r: RtmpPacket)
    requires
        data@.len() <= u32::MAX,
    ensures
        r.wf(),
        r.header == (RtmpHeader {
            timestamp,
            message_length: data@.len() as u32,
            message_type: MSG_TYPE_VIDEO,
            message_stream_id: stream_id,
            chunk_stream_id: CHUNK_STREAM_VIDEO,
        }),
        r.payload@ == data@,
{
    let header = RtmpHeader::video(timestamp, data.len() as u32, stream_id);
    RtmpPacket::new(header, data)
}

/// Split the first byte of a basic header into its format and inline
/// chunk-stream-id fields.  The reserved values 0 and 1 stand for the two-
/// and three-byte forms, whose extra bytes the caller reads.
pub fn parse_basic_header(byte: u8) -> (r: (u8, u32))
    ensures
        r.0 == byte / 64,
        r.1 == (byte % 64) as u32,
{
    let fmt = (byte >> 6) & 0x03;
    let cs_id = (byte & 0x3F) as u32;
    proof {
        assert(byte >> 6 == byte / 64 && (byte >> 6) & 0x03 == byte >> 6 && byte & 0x3F == byte
            % 64) by (bit_vector);
    }
    (fmt, cs_id)
}

/// The bytes of a basic header: format in the top two bits, then the
/// chunk-stream-id inline, or in one or two extra bytes.
pub open spec fn basic_header_bytes(fmt: u8, chunk_stream_id: u32) -> Seq<u8>
    recommends
        fmt <= 3,
        chunk_stream_id <= 65599,
{
    if chunk_stream_id <= 63 {
        seq![(fmt * 64 + chunk_stream_id) as u8]
    } else if chunk_stream_id <= 319 {
        seq![(fmt * 64) as u8, (chunk_stream_id - 64) as u8]
    } else {
        seq![
            (fmt * 64 + 1) as u8,
            ((chunk_stream_id - 64) % 256) as u8,
            ((chunk_stream_id - 64) / 256) as u8,
        ]
    }
}

/// Encode a basic header.
pub fn encode_basic_header(fmt: u8, chunk_stream_id: u32) -> (r: Vec<u8>)
    requires
        fmt <= 3,
        chunk_stream_id <= 65599,
    ensures
        r@ == basic_header_bytes(fmt, chunk_stream_id),
{
    let mut result: Vec<u8> = Vec::new();
    if chunk_stream_id <= 63 {
        result.push(fmt * 64 + chunk_stream_id as u8);
    } else if chunk_stream_id <= 319 {
        result.push(fmt * 64);
        result.push((chunk_stream_id - 64) as u8);
    } else {
        result.push(fmt * 64 + 1);
        let id = chunk_stream_id - 64;
        result.push((id % 256) as u8);
        result.push((id / 256) as u8);
    }
    proof {
        assert(result@ =~= basic_header_bytes(fmt, chunk_stream_id));
    }
    result
}

impl View for RtmpPacket {
    type V = (RtmpHeader, Seq<u8>);

    open spec fn view(&self) -> (RtmpHeader, Seq<u8>) {
        (self.header, self.payload@)
    }
}

/// The header-and-payload views of a packet list.
pub open spec fn pkts_view(s: Seq<RtmpPacket>) -> Seq<(RtmpHeader, Seq<u8>)> {
    s.map_values(|p: RtmpPacket| p@)
}

/// A packet list's view is exactly as long.
pub proof fn lemma_pkts_view_len(s: Seq<RtmpPacket>)
    ensures
        pkts_view(s).len() == s.len(),
{
}

/// Copy a packet: same header, same payload bytes.
pub fn clone_packet(p: &RtmpPacket) -> (r: RtmpPacket)
    ensures
        r@ == p@,
        r.header == p.header,
        r.payload@ == p.payload@,
{
    RtmpPacket { header: p.header, payload: p.payload.clone() }
}

} // verus!
