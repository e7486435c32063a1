//! The chunk writer: frames packets into chunks, choosing the tightest
//! legal header format given the delta base for the chunk stream, splitting
//! the payload at the negotiated chunk size, and emitting the four-byte
//! extended-timestamp field whenever the 24-bit field cannot hold the value.

use vstd::prelude::*;
use crate::packet::{RtmpHeader, RtmpPacket, basic_header_bytes, encode_basic_header};
use crate::buffer::{be24_bytes, be32_bytes, le32_bytes};
use crate::error::Error;

verus! {

broadcast use vstd::std_specs::vec::axiom_spec_len;

/// The tightest legal header format against a delta base: Type 3 when every
/// field matches; Type 2 when only the timestamp moved forward; Type 1 when
/// the stream id alone is reused; Type 0 otherwise, or with no base, or when
/// the timestamp moved backwards (a delta cannot be negative).
pub open spec fn tightest_fmt(prev: Option<RtmpHeader>, h: RtmpHeader) -> u8 {
    match prev {
        Option::None => 0u8,
        Option::Some(p) => {
            if p.message_stream_id == h.message_stream_id && p.message_type == h.message_type
                && p.message_length == h.message_length && p.timestamp == h.timestamp {
                3u8
            } else if p.message_stream_id == h.message_stream_id && p.message_type
                == h.message_type && p.message_length == h.message_length && p.timestamp
                <= h.timestamp {
                2u8
            } else if p.message_stream_id == h.message_stream_id && p.timestamp <= h.timestamp {
                1u8
            } else {
                0u8
            }
        },
    }
}

/// The 24-bit wire field for a timestamp or delta: the indicator when the
/// value does not fit.
pub open spec fn wire_ts_field(v: u32) -> Seq<u8> {
    if v >= 0xFFFFFF {
        be24_bytes(0xFFFFFF)
    } else {
        be24_bytes(v)
    }
}

/// The extended-timestamp field: present exactly when the value does not
/// fit 24 bits.
pub open spec fn ext_field(v: u32) -> Seq<u8> {
    if v >= 0xFFFFFF {
        be32_bytes(v)
    } else {
        Seq::empty()
    }
}

/// The message header bytes for a format, a header and its delta base.
pub open spec fn msg_header_bytes(fmt: u8, h: RtmpHeader, prev: Option<RtmpHeader>) -> Seq<u8> {
    if fmt == 0 {
        wire_ts_field(h.timestamp) + be24_bytes(h.message_length % 0x1000000) + seq![
            h.message_type,
        ] + le32_bytes(h.message_stream_id) + ext_field(h.timestamp)
    } else if fmt == 1 {
        let delta = (h.timestamp - prev->0.timestamp) as u32;
        wire_ts_field(delta) + be24_bytes(h.message_length % 0x1000000) + seq![h.message_type]
            + ext_field(delta)
    } else if fmt == 2 {
        let delta = (h.timestamp - prev->0.timestamp) as u32;
        wire_ts_field(delta) + ext_field(delta)
    } else {
        ext_field(h.timestamp)
    }
}

/// The continuation chunks of a payload remainder: each a Type-3 basic
/// header, the extended timestamp when the message uses one, and up to one
/// chunk size of payload.
pub open spec fn cont_chunks(q: Seq<u8>, h: RtmpHeader, chunk_size: int) -> Seq<u8>
    decreases q.len(),
        when chunk_size >= 1
{
    if q.len() == 0 {
        Seq::empty()
    } else {
        let step = if q.len() <= chunk_size {
            q.len() as int
        } else {
            chunk_size
        };
        basic_header_bytes(3, h.chunk_stream_id) + ext_field(h.timestamp) + q.take(step)
            + cont_chunks(q.skip(step), h, chunk_size)
    }
}

/// The whole wire form of one packet against a delta base: the tightest
/// header, the first chunk of payload, then Type-3 continuations.
pub open spec fn packet_chunks(
    h: RtmpHeader,
    payload: Seq<u8>,
    prev: Option<RtmpHeader>,
    chunk_size: int,
) -> Seq<u8> {
    let fmt = tightest_fmt(prev, h);
    let first = if payload.len() <= chunk_size {
        payload.len() as int
    } else {
        chunk_size
    };
    basic_header_bytes(fmt, h.chunk_stream_id) + msg_header_bytes(fmt, h, prev) + payload.take(
        first,
    ) + cont_chunks(payload.skip(first), h, chunk_size)
}

/// The headers last written per chunk stream.
pub open spec fn prev_lookup(s: Seq<(u32, RtmpHeader)>, cs_id: u32) -> Option<RtmpHeader>
    decreases s.len(),
{
    if s.len() == 0 {
        Option::None
    } else if s[0].0 == cs_id {
        Option::Some(s[0].1)
    } else {
        prev_lookup(s.drop_first(), cs_id)
    }
}

/// Frames packets into chunks, keeping the last header written on each
/// chunk stream as the delta base for the next.
pub struct ChunkWriter {
    prev_headers: Vec<(u32, RtmpHeader)>,
    chunk_size_out: usize,
}

impl ChunkWriter {
    /// The delta base for a chunk stream, when one exists.
    pub closed spec fn prev_header_for(self, cs_id: u32) -> Option<RtmpHeader> {
        prev_lookup(self.prev_headers@, cs_id)
    }

    /// The negotiated outgoing chunk size.
    pub closed spec fn chunk_size(self) -> int {
        self.chunk_size_out as int
    }

    /// The writer's chunk size stays within the protocol bounds.
    pub open spec fn wf(self) -> bool {
        128 <= self.chunk_size() <= 65536
    }

    /// A fresh writer with the protocol's default chunk size and no delta
    /// bases.
    pub fn new() -> (r: ChunkWriter)
        ensures
            r.wf(),
            r.chunk_size() == 128,
            forall|cs: u32| r.prev_header_for(cs) is None,
    {
        ChunkWriter { prev_headers: Vec::new(), chunk_size_out: 128 }
    }

    /// Set the outgoing chunk size, within the protocol bounds.
    pub fn set_chunk_size(&mut self, size: usize)
        requires
            128 <= size <= 65536,
        ensures
            final(self).wf(),
            final(self).chunk_size() == size,
            forall|cs: u32| final(self).prev_header_for(cs) == old(self).prev_header_for(cs),
    {
        self.chunk_size_out = size;
    }

    /// Frame one packet.  Succeeds exactly when the packet is consistent
    /// (payload as long as its header says), its length fits the 24-bit
    /// field, and its chunk-stream-id is a real one that the basic header
    /// can carry; the bytes are then exactly the tightest-header framing
    /// against this stream's delta base, which the call advances.
    pub fn create_chunks(&mut self, packet: &RtmpPacket) -> (r: Result<Vec<u8>, Error>)
        requires
            old(self).wf(),
        ensures
            final(self).wf(),
            final(self).chunk_size() == old(self).chunk_size(),
            r is Ok <==> (packet.wf() && packet.payload@.len() < 0x1000000
                && 2 <= packet.header.chunk_stream_id <= 65599),
            r is Ok ==> r->Ok_0@ == packet_chunks(
                packet.header,
                packet.payload@,
                old(self).prev_header_for(packet.header.chunk_stream_id),
                old(self).chunk_size(),
            ),
            r is Ok ==> final(self).prev_header_for(packet.header.chunk_stream_id) == Some(
                packet.header,
            ),
            r is Ok ==> forall|cs: u32|
                cs != packet.header.chunk_stream_id ==> final(self).prev_header_for(cs) == old(
                    self,
                ).prev_header_for(cs),
            r is Err ==> r->Err_0 is Chunk && *final(self) == *old(self),
    {
        let cs_id = packet.header.chunk_stream_id;
        if packet.payload.len() as u64 != packet.header.message_length as u64 {
            return Err(Error::chunk("Payload length does not match the header"));
        }
        if packet.payload.len() >= 0x1000000 {
            return Err(Error::chunk("Message too long for the 24-bit length field"));
        }
        if cs_id < 2 || cs_id > 65599 {
            return Err(Error::chunk("Chunk stream id out of range"));
        }
        let prev = self.find_prev(cs_id);
        let fmt = fmt_for(prev, &packet.header);
        let mut result = encode_basic_header(fmt, cs_id);
        let ghost base = old(self).prev_header_for(cs_id);
        append_msg_header(&mut result, fmt, &packet.header, prev);
        let h = packet.header;
        let total = packet.payload.len();
        let first = if total <= self.chunk_size_out {
            total
        } else {
            self.chunk_size_out
        };
        let ghost target = packet_chunks(h, packet.payload@, base, old(self).chunk_size());
        append_slice_range(&mut result, &packet.payload, 0, first);
        let mut offset: usize = first;
        proof {
            assert(result@ + cont_chunks(packet.payload@.skip(first as int), h, old(
                self,
            ).chunk_size()) =~= target);
        }
        while offset < total
            invariant
                self.wf(),
                128 <= self.chunk_size_out <= 65536,
                total == packet.payload@.len(),
                offset <= total,
                2 <= h.chunk_stream_id <= 65599,
                result@ + cont_chunks(packet.payload@.skip(offset as int), h, self.chunk_size_out as int)
                    == target,
            decreases total - offset,
        {
            let step = if total - offset <= self.chunk_size_out {
                total - offset
            } else {
                self.chunk_size_out
            };
            let bh = encode_basic_header(3, h.chunk_stream_id);
            append_vec(&mut result, &bh);
            if h.timestamp >= 0xFFFFFF {
                push_be32(&mut result, h.timestamp);
            }
            append_slice_range(&mut result, &packet.payload, offset, offset + step);
            proof {
                let q = packet.payload@.skip(offset as int);
                assert(q.take(step as int) =~= packet.payload@.subrange(
                    offset as int,
                    offset + step,
                ));
                assert(q.skip(step as int) =~= packet.payload@.skip(offset + step));
                assert(result@ + cont_chunks(packet.payload@.skip(offset + step), h, self.chunk_size_out as int)
                    =~= target);
            }
            offset = offset + step;
        }
        proof {
            assert(packet.payload@.skip(total as int) =~= Seq::<u8>::empty());
            assert(result@ =~= target);
        }
        self.store_prev(cs_id, packet.header);
        Ok(result)
    }

    /// The delta base held for a chunk stream.
    fn find_prev(&self, cs_id: u32) -> (r: Option<RtmpHeader>)
        ensures
            r == self.prev_header_for(cs_id),
    {
        let n = self.prev_headers.len();
        let mut i: usize = 0;
        proof {
            assert(self.prev_headers@.skip(0) =~= self.prev_headers@);
        }
        while i < n
            invariant
                n == self.prev_headers@.len(),
                i <= n,
                prev_lookup(self.prev_headers@.skip(i as int), cs_id) == prev_lookup(
                    self.prev_headers@,
                    cs_id,
                ),
            decreases n - i,
        {
            if self.prev_headers[i].0 == cs_id {
                proof {
                    assert(self.prev_headers@.skip(i as int)[0] == self.prev_headers@[i as int]);
                }
                return Some(self.prev_headers[i].1);
            }
            proof {
                assert(self.prev_headers@.skip(i as int).drop_first() =~= self.prev_headers@.skip(
                    i + 1,
                ));
                assert(self.prev_headers@.skip(i as int)[0] == self.prev_headers@[i as int]);
            }
            i = i + 1;
        }
        proof {
            assert(self.prev_headers@.skip(n as int) =~= Seq::<(u32, RtmpHeader)>::empty());
        }
        None
    }

    /// Record the header just written as the new delta base for its stream.
    fn store_prev(&mut self, cs_id: u32, header: RtmpHeader)
        requires
            old(self).wf(),
        ensures
            final(self).wf(),
            final(self).chunk_size() == old(self).chunk_size(),
            final(self).prev_header_for(cs_id) == Some(header),
            forall|cs: u32|
                cs != cs_id ==> final(self).prev_header_for(cs) == old(self).prev_header_for(cs),
    {
        let ghost olds = self.prev_headers@;
        self.prev_headers.insert(0, (cs_id, header));
        proof {
            assert(self.prev_headers@[0] == (cs_id, header));
            assert(self.prev_headers@.drop_first() =~= olds);
            assert forall|cs: u32|
                cs != cs_id implies prev_lookup(self.prev_headers@, cs) == prev_lookup(
                olds,
                cs,
            ) by {
                assert(self.prev_headers@[0].0 == cs_id);
            }
        }
    }
}

/// The executable choice of header format, equal to the tightest legal one.
fn fmt_for(prev: Option<RtmpHeader>, h: &RtmpHeader) -> (r: u8)
    ensures
        r == tightest_fmt(prev, *h),
        r <= 3,
{
    match prev {
        Option::None => 0,
        Option::Some(p) => {
            if p.message_stream_id == h.message_stream_id && p.message_type == h.message_type
                && p.message_length == h.message_length && p.timestamp == h.timestamp {
                3
            } else if p.message_stream_id == h.message_stream_id && p.message_type
                == h.message_type && p.message_length == h.message_length && p.timestamp
                <= h.timestamp {
                2
            } else if p.message_stream_id == h.message_stream_id && p.timestamp <= h.timestamp {
                1
            } else {
                0
            }
        },
    }
}

/// Append the message header for the chosen format.
fn append_msg_header(out: &mut Vec<u8>, fmt: u8, h: &RtmpHeader, prev: Option<RtmpHeader>)
    requires
        fmt == tightest_fmt(prev, *h),
    ensures
        final(out)@ == old(out)@ + msg_header_bytes(fmt, *h, prev),
{
    let ghost start = out@;
    if fmt == 0 {
        if h.timestamp >= 0xFFFFFF {
            push_be24(out, 0xFFFFFF);
        } else {
            push_be24(out, h.timestamp);
        }
        push_be24(out, h.message_length % 0x1000000);
        out.push(h.message_type);
        push_le32(out, h.message_stream_id);
        if h.timestamp >= 0xFFFFFF {
            push_be32(out, h.timestamp);
        }
        proof {
            assert(out@ =~= start + msg_header_bytes(fmt, *h, prev));
        }
    } else if fmt == 1 {
        let delta = h.timestamp - prev.unwrap().timestamp;
        if delta >= 0xFFFFFF {
            push_be24(out, 0xFFFFFF);
        } else {
            push_be24(out, delta);
        }
        push_be24(out, h.message_length % 0x1000000);
        out.push(h.message_type);
        if delta >= 0xFFFFFF {
            push_be32(out, delta);
        }
        proof {
            assert(out@ =~= start + msg_header_bytes(fmt, *h, prev));
        }
    } else if fmt == 2 {
        let delta = h.timestamp - prev.unwrap().timestamp;
        if delta >= 0xFFFFFF {
            push_be24(out, 0xFFFFFF);
            push_be32(out, delta);
        } else {
            push_be24(out, delta);
        }
        proof {
            assert(out@ =~= start + msg_header_bytes(fmt, *h, prev));
        }
    } else {
        if h.timestamp >= 0xFFFFFF {
            push_be32(out, h.timestamp);
        }
        proof {
            assert(out@ =~= start + msg_header_bytes(fmt, *h, prev));
        }
    }
}

/// Append three big-endian bytes of a value below 2^24.
fn push_be24(out: &mut Vec<u8>, v: u32)
    requires
        v < 0x1000000,
    ensures
        final(out)@ == old(out)@ + be24_bytes(v),
{
    out.push((v / 0x10000) as u8);
    out.push(((v / 256) % 256) as u8);
    out.push((v % 256) as u8);
    proof {
        assert(out@ =~= old(out)@ + be24_bytes(v));
    }
}

/// Append four big-endian bytes.
fn push_be32(out: &mut Vec<u8>, v: u32)
    ensures
        final(out)@ == old(out)@ + be32_bytes(v),
{
    out.push((v / 0x1000000) as u8);
    out.push(((v / 0x10000) % 256) as u8);
    out.push(((v / 256) % 256) as u8);
    out.push((v % 256) as u8);
    proof {
        assert(out@ =~= old(out)@ + be32_bytes(v));
    }
}

/// Append four little-endian bytes.
fn push_le32(out: &mut Vec<u8>, v: u32)
    ensures
        final(out)@ == old(out)@ + le32_bytes(v),
{
    out.push((v % 256) as u8);
    out.push(((v / 256) % 256) as u8);
    out.push(((v / 0x10000) % 256) as u8);
    out.push((v / 0x1000000) as u8);
    proof {
        assert(out@ =~= old(out)@ + le32_bytes(v));
    }
}

/// Append a range of a slice.
fn append_slice_range(out: &mut Vec<u8>, data: &Vec<u8>, from: usize, to: usize)
    requires
        from <= to <= data@.len(),
    ensures
        final(out)@ == old(out)@ + data@.subrange(from as int, to as int),
{
    let mut i: usize = from;
    let ghost start = out@;
    while i < to
        invariant
            from <= i <= to <= data@.len(),
            out@ == start + data@.subrange(from as int, i as int),
        decreases to - i,
    {
        out.push(data[i]);
        i = i + 1;
        proof {
            assert(out@ =~= start + data@.subrange(from as int, i as int));
        }
    }
    proof {
        assert(out@ =~= start + data@.subrange(from as int, to as int));
    }
}

/// Append a whole vector.
fn append_vec(out: &mut Vec<u8>, data: &Vec<u8>)
    ensures
        final(out)@ == old(out)@ + data@,
{
    append_slice_range(out, data, 0, data.len());
    proof {
        assert(data@.subrange(0, data@.len() as int) =~= data@);
    }
}

/// Frame a packet with a fresh writer at the given chunk size: a Type-0
/// chunk first, then Type-3 continuations.
pub fn split_into_chunks(packet: &RtmpPacket, chunk_size: usize) -> (r: Vec<u8>)
    requires
        128 <= chunk_size <= 65536,
    ensures
        (packet.wf() && packet.payload@.len() < 0x1000000 && 2 <= packet.header.chunk_stream_id
            <= 65599) ==> r@ == packet_chunks(
            packet.header,
            packet.payload@,
            Option::None,
            chunk_size as int,
        ),
        !(packet.wf() && packet.payload@.len() < 0x1000000 && 2 <= packet.header.chunk_stream_id
            <= 65599) ==> r@.len() == 0,
{
    let mut writer = ChunkWriter::new();
    writer.set_chunk_size(chunk_size);
    match writer.create_chunks(packet) {
        Ok(chunks) => chunks,
        Err(_) => Vec::new(),
    }
}

/// The first byte (or bytes) of a chunk: its format and chunk-stream-id.
#[derive(Debug, Clone, Copy, PartialEq, Eq, Structural)]
pub struct ChunkHeader {
    pub fmt: u8,
    pub cs_id: u32,
}

/// Parse a basic header standing at the start of the bytes; returns the
/// header and how many bytes it occupies.
pub fn parse_chunk_header(bytes: &[u8]) -> (r: Result<(ChunkHeader, usize), Error>)
    ensures
        r is Ok <==> (bytes@.len() >= 1 && (bytes@[0] % 64 != 0 || bytes@.len() >= 2) && (
        bytes@[0] % 64 != 1 || bytes@.len() >= 3)),
        r is Ok ==> {
            let b0 = bytes@[0];
            &&& r->Ok_0.0.fmt == b0 / 64
            &&& (b0 % 64 >= 2 ==> r->Ok_0 == ((ChunkHeader { fmt: b0 / 64, cs_id: (b0 % 64) as u32 }),
            1usize))
            &&& (b0 % 64 == 0 ==> r->Ok_0 == ((ChunkHeader {
                fmt: b0 / 64,
                cs_id: (bytes@[1] + 64) as u32,
            }), 2usize))
            &&& (b0 % 64 == 1 ==> r->Ok_0 == ((ChunkHeader {
                fmt: b0 / 64,
                cs_id: (bytes@[1] + bytes@[2] * 256 + 64) as u32,
            }), 3usize))
        },
        r is Err ==> r->Err_0 is Chunk,
{
    if bytes.len() == 0 {
        return Err(Error::chunk("Empty chunk header"));
    }
    let first = bytes[0];
    let fmt = first / 64;
    let cs_part = first % 64;
    if cs_part == 0 {
        if bytes.len() < 2 {
            return Err(Error::chunk("Truncated two-byte chunk header"));
        }
        Ok((ChunkHeader { fmt, cs_id: bytes[1] as u32 + 64 }, 2))
    } else if cs_part == 1 {
        if bytes.len() < 3 {
            return Err(Error::chunk("Truncated three-byte chunk header"));
        }
        let id = bytes[1] as u32 + (bytes[2] as u32) * 256;
        Ok((ChunkHeader { fmt, cs_id: id + 64 }, 3))
    } else {
        Ok((ChunkHeader { fmt, cs_id: cs_part as u32 }, 1))
    }
}

} // verus!
