//! The chunk reader: parses basic and message headers, computes absolute
//! timestamps from deltas, and reassembles messages chunk by chunk, one
//! context per chunk stream.

use vstd::prelude::*;
use crate::packet::{RtmpHeader, RtmpPacket};
use crate::chunk_stream::ChunkStreamContext;
use crate::buffer::{ByteBuffer, be24, be32, le32};
use crate::error::Error;

verus! {

broadcast use vstd::std_specs::vec::axiom_spec_len;

/// The meaning of the bytes at the head of rest as a message header of the
/// given format against a delta base: the header and the bytes consumed.
/// Nothing when the bytes run short, or when a delta format has no base.
pub open spec fn msg_header_dec(
    fmt: u8,
    rest: Seq<u8>,
    prev: Option<RtmpHeader>,
    cs_id: u32,
) -> Option<(RtmpHeader, int)> {
    if fmt == 0 {
        if rest.len() < 11 {
            Option::None
        } else {
            let ts24 = be24(rest, 0);
            let len24 = be24(rest, 3);
            let mtype = rest[6];
            let msid = le32(rest, 7);
            if ts24 == 0xFFFFFF {
                if rest.len() < 15 {
                    Option::None
                } else {
                    Option::Some(
                        (RtmpHeader {
                            timestamp: be32(rest, 11),
                            message_length: len24,
                            message_type: mtype,
                            message_stream_id: msid,
                            chunk_stream_id: cs_id,
                        }, 15int),
                    )
                }
            } else {
                Option::Some(
                    (RtmpHeader {
                        timestamp: ts24,
                        message_length: len24,
                        message_type: mtype,
                        message_stream_id: msid,
                        chunk_stream_id: cs_id,
                    }, 11int),
                )
            }
        }
    } else if fmt == 1 {
        if prev is None || rest.len() < 7 {
            Option::None
        } else {
            let d24 = be24(rest, 0);
            let len24 = be24(rest, 3);
            let mtype = rest[6];
            if d24 == 0xFFFFFF {
                if rest.len() < 11 {
                    Option::None
                } else {
                    Option::Some(
                        (RtmpHeader {
                            timestamp: ((prev->0.timestamp + be32(rest, 7)) % 0x100000000) as u32,
                            message_length: len24,
                            message_type: mtype,
                            message_stream_id: prev->0.message_stream_id,
                            chunk_stream_id: cs_id,
                        }, 11int),
                    )
                }
            } else {
                Option::Some(
                    (RtmpHeader {
                        timestamp: ((prev->0.timestamp + d24) % 0x100000000) as u32,
                        message_length: len24,
                        message_type: mtype,
                        message_stream_id: prev->0.message_stream_id,
                        chunk_stream_id: cs_id,
                    }, 7int),
                )
            }
        }
    } else if fmt == 2 {
        if prev is None || rest.len() < 3 {
            Option::None
        } else {
            let d24 = be24(rest, 0);
            if d24 == 0xFFFFFF {
                if rest.len() < 7 {
                    Option::None
                } else {
                    Option::Some(
                        (RtmpHeader {
                            timestamp: ((prev->0.timestamp + be32(rest, 3)) % 0x100000000) as u32,
                            message_length: prev->0.message_length,
                            message_type: prev->0.message_type,
                            message_stream_id: prev->0.message_stream_id,
                            chunk_stream_id: cs_id,
                        }, 7int),
                    )
                }
            } else {
                Option::Some(
                    (RtmpHeader {
                        timestamp: ((prev->0.timestamp + d24) % 0x100000000) as u32,
                        message_length: prev->0.message_length,
                        message_type: prev->0.message_type,
                        message_stream_id: prev->0.message_stream_id,
                        chunk_stream_id: cs_id,
                    }, 3int),
                )
            }
        }
    } else {
        // Type 3 starting a fresh message: everything is reused; a base
        // whose timestamp needs the extended field carries it again.
        if prev is None {
            Option::None
        } else if prev->0.timestamp >= 0xFFFFFF {
            if rest.len() < 4 {
                Option::None
            } else {
                Option::Some(
                    (RtmpHeader {
                        timestamp: be32(rest, 0),
                        message_length: prev->0.message_length,
                        message_type: prev->0.message_type,
                        message_stream_id: prev->0.message_stream_id,
                        chunk_stream_id: cs_id,
                    }, 4int),
                )
            }
        } else {
            Option::Some(
                (RtmpHeader {
                    timestamp: prev->0.timestamp,
                    message_length: prev->0.message_length,
                    message_type: prev->0.message_type,
                    message_stream_id: prev->0.message_stream_id,
                    chunk_stream_id: cs_id,
                }, 0int),
            )
        }
    }
}

/// The meaning of the bytes at the head of rest as a basic header: the
/// format, the chunk-stream-id, and the bytes consumed.
pub open spec fn basic_dec(rest: Seq<u8>) -> Option<(u8, u32, int)> {
    if rest.len() < 1 {
        Option::None
    } else {
        let fmt = rest[0] / 64;
        let part = rest[0] % 64;
        if part == 0 {
            if rest.len() < 2 {
                Option::None
            } else {
                Option::Some((fmt, (rest[1] + 64) as u32, 2int))
            }
        } else if part == 1 {
            if rest.len() < 3 {
                Option::None
            } else {
                Option::Some((fmt, (64 + rest[1] + rest[2] * 256) as u32, 3int))
            }
        } else {
            Option::Some((fmt, part as u32, 1int))
        }
    }
}

/// The context held for a chunk-stream-id: the first entry carrying it.
pub open spec fn ctx_lookup(s: Seq<(u32, ChunkStreamContext)>, cs: u32) -> Option<
    ChunkStreamContext,
>
    decreases s.len(),
{
    if s.len() == 0 {
        Option::None
    } else if s[0].0 == cs {
        Option::Some(s[0].1)
    } else {
        ctx_lookup(s.drop_first(), cs)
    }
}

/// Whether a chunk of this format continues the message in progress on its
/// chunk stream rather than opening one.
pub open spec fn continues(
    streams: Seq<(u32, ChunkStreamContext)>,
    fmt: u8,
    cs: u32,
) -> bool {
    fmt == 3 && (ctx_lookup(streams, cs) matches Option::Some(c) && c.bytes_remaining > 0)
}

/// Whether a header just read under this format carried the
/// extended-timestamp indicator, so continuation chunks carry the four-byte
/// field too.
pub open spec fn header_used_extended(fmt: u8, h: RtmpHeader, prev: Option<RtmpHeader>) -> bool {
    if fmt == 0 {
        h.timestamp >= 0xFFFFFF
    } else if fmt == 3 {
        prev matches Option::Some(p) && p.timestamp >= 0xFFFFFF
    } else {
        prev matches Option::Some(p) && (h.timestamp - p.timestamp) % 0x100000000 >= 0xFFFFFF
    }
}

/// What one chunk at the head of rest does to a reader whose per-stream
/// contexts and incoming chunk size are given: nothing when the bytes run
/// short or a delta header has no base; else how many bytes the chunk
/// occupies, and the reassembled packet when it completes a message.  A
/// continuation chunk appends up to one chunk size of the bytes still
/// owed; any other chunk opens a message under its decoded header.
pub open spec fn chunk_step(
    streams: Seq<(u32, ChunkStreamContext)>,
    chunk_size: int,
    rest: Seq<u8>,
) -> Option<(int, Option<(RtmpHeader, Seq<u8>)>)> {
    match basic_dec(rest) {
        Option::None => Option::None,
        Option::Some((fmt, cs, bn)) => {
            let tail = rest.skip(bn);
            if continues(streams, fmt, cs) {
                let c = ctx_lookup(streams, cs)->0;
                let skip_ext: int = if c.current_extended {
                    4int
                } else {
                    0int
                };
                if tail.len() < skip_ext {
                    Option::None
                } else {
                    let body = tail.skip(skip_ext);
                    let to_read = if c.bytes_remaining <= chunk_size {
                        c.bytes_remaining as int
                    } else {
                        chunk_size
                    };
                    if body.len() < to_read {
                        Option::None
                    } else if to_read == c.bytes_remaining {
                        Option::Some(
                            (
                                bn + skip_ext + to_read,
                                Option::Some(
                                    (c.current_header->0, c.message_buffer@ + body.take(to_read)),
                                ),
                            ),
                        )
                    } else {
                        Option::Some((bn + skip_ext + to_read, Option::None))
                    }
                }
            } else {
                let prev = match ctx_lookup(streams, cs) {
                    Option::Some(c) => c.prev_header,
                    Option::None => Option::None,
                };
                match msg_header_dec(fmt, tail, prev, cs) {
                    Option::None => Option::None,
                    Option::Some((h, m)) => {
                        let body = tail.skip(m);
                        let to_read = if h.message_length <= chunk_size {
                            h.message_length as int
                        } else {
                            chunk_size
                        };
                        if body.len() < to_read {
                            Option::None
                        } else if to_read == h.message_length {
                            Option::Some((bn + m + to_read, Option::Some((h, body.take(to_read)))))
                        } else {
                            Option::Some((bn + m + to_read, Option::None))
                        }
                    },
                }
            }
        },
    }
}

/// Segments and reassembles messages across multiplexed chunk streams.
pub struct ChunkReader {
    chunk_streams: Vec<(u32, ChunkStreamContext)>,
    chunk_size_in: usize,
}

/// How one accepted chunk leaves the reader's contexts: every other chunk
/// stream keeps its context; the chunk's own stream holds the completed
/// message's header as its delta base, or the grown partial message, or
/// the freshly opened one.
pub open spec fn reader_step_post(
    old_s: Seq<(u32, ChunkStreamContext)>,
    chunk_size: int,
    rest: Seq<u8>,
    new_s: Seq<(u32, ChunkStreamContext)>,
) -> bool {
    chunk_step(old_s, chunk_size, rest) matches Option::Some(step) ==> {
        let (fmt, cs, bn) = basic_dec(rest)->0;
        let tail = rest.skip(bn);
        &&& (forall|c2: u32| c2 != cs ==> ctx_lookup(new_s, c2) == ctx_lookup(old_s, c2))
        &&& ctx_lookup(new_s, cs) is Some
        &&& ({
            let nc = ctx_lookup(new_s, cs)->0;
            match step.1 {
                Option::Some(p) => {
                    &&& nc.prev_header == Option::Some(p.0)
                    &&& nc.bytes_remaining == 0
                    &&& nc.message_buffer@.len() == 0
                    &&& nc.current_header is None
                },
                Option::None => {
                    if continues(old_s, fmt, cs) {
                        let c = ctx_lookup(old_s, cs)->0;
                        let skip_ext: int = if c.current_extended {
                            4int
                        } else {
                            0int
                        };
                        let body = tail.skip(skip_ext);
                        &&& nc.current_header == c.current_header
                        &&& nc.prev_header == c.prev_header
                        &&& nc.current_extended == c.current_extended
                        &&& nc.bytes_remaining == c.bytes_remaining - chunk_size
                        &&& nc.message_buffer@ == c.message_buffer@ + body.take(chunk_size)
                    } else {
                        let prev = match ctx_lookup(old_s, cs) {
                            Option::Some(c) => c.prev_header,
                            Option::None => Option::None,
                        };
                        let (h, m) = msg_header_dec(fmt, tail, prev, cs)->0;
                        let body = tail.skip(m);
                        &&& nc.current_header == Option::Some(h)
                        &&& nc.prev_header == Option::Some(h)
                        &&& nc.current_extended == header_used_extended(fmt, h, prev)
                        &&& nc.bytes_remaining == h.message_length - chunk_size
                        &&& nc.message_buffer@ == body.take(chunk_size)
                    }
                },
            }
        })
    }
}

impl ChunkReader {
    /// Every per-stream context is consistent and the chunk size is within
    /// the protocol bounds.
    pub closed spec fn wf(self) -> bool {
        &&& 128 <= self.chunk_size_in <= 65536
        &&& forall|i: int|
            0 <= i < self.chunk_streams@.len() ==> (#[trigger] self.chunk_streams@[i]).1.wf()
    }

    /// A fresh reader with the protocol's default chunk size.
    pub fn new() -> (r: ChunkReader)
        ensures
            r.wf(),
    {
        ChunkReader { chunk_streams: Vec::new(), chunk_size_in: 128 }
    }

    /// Set the incoming chunk size, within the protocol bounds.
    pub fn set_chunk_size(&mut self, size: usize)
        requires
            old(self).wf(),
            128 <= size <= 65536,
        ensures
            final(self).wf(),
    {
        self.chunk_size_in = size;
    }

    /// Read one chunk at the buffer's cursor.  Returns the completed packet
    /// when this chunk finishes a message — its payload then exactly as
    /// long as its header announced — or nothing when more chunks are owed.
    /// On an error the buffer's bytes and every context are left as they
    /// were, so the caller can supply more bytes and try again.
    pub fn read_chunk(&mut self, buf: &mut ByteBuffer) -> (r: Result<
        Option<RtmpPacket>,
        Error,
    >)
        requires
            old(self).wf(),
            old(buf).wf(),
        ensures
            final(self).wf(),
            final(buf).wf(),
            final(buf).bytes() == old(buf).bytes(),
            r is Ok ==> final(buf).pos() > old(buf).pos(),
            r is Err ==> *final(self) == *old(self),
            r matches Ok(Some(p)) ==> p.wf(),
    {
        // Basic header: format and chunk-stream-id.
        let first = match buf.read_u8() {
            Ok(b) => b,
            Err(_) => {
                return Err(Error::chunk("Failed to read basic header"));
            },
        };
        let fmt = first / 64;
        let cs_part = first % 64;
        let cs_id: u32 = if cs_part == 0 {
            match buf.read_u8() {
                Ok(b) => b as u32 + 64,
                Err(_) => {
                    return Err(Error::chunk("Failed to read chunk stream id"));
                },
            }
        } else if cs_part == 1 {
            let b1 = match buf.read_u8() {
                Ok(b) => b,
                Err(_) => {
                    return Err(Error::chunk("Failed to read chunk stream id"));
                },
            };
            let b2 = match buf.read_u8() {
                Ok(b) => b,
                Err(_) => {
                    return Err(Error::chunk("Failed to read chunk stream id"));
                },
            };
            b1 as u32 + (b2 as u32) * 256 + 64
        } else {
            cs_part as u32
        };
        // The context for this chunk stream, if one exists yet.
        let idx = self.find_context(cs_id);
        let assembling = match idx {
            Some(i) => self.context_at(i).is_assembling(),
            None => false,
        };
        if fmt == 3 && assembling {
            // A continuation chunk: no message header; the extended
            // timestamp reappears when the first chunk carried it.
            let i = idx.unwrap();
            if self.context_at(i).current_extended {
                match buf.read_u32_be() {
                    Ok(_) => (),
                    Err(_) => {
                        return Err(Error::chunk("Failed to read extended timestamp"));
                    },
                };
            }
            let remaining = self.context_at(i).bytes_remaining;
            let to_read = if remaining <= self.chunk_size_in {
                remaining
            } else {
                self.chunk_size_in
            };
            let data = match buf.read_bytes(to_read) {
                Ok(d) => d,
                Err(_) => {
                    return Err(Error::chunk("Failed to read chunk data"));
                },
            };
            self.add_data_at(i, data)
        } else {
            // A chunk that opens a message: read the header for its format.
            let prev = match idx {
                Some(i) => self.context_at(i).prev_header,
                None => None,
            };
            let header = match read_message_header(buf, fmt, cs_id, prev) {
                Ok(h) => h,
                Err(e) => {
                    return Err(e);
                },
            };
            let extended = used_extended(fmt, &header, prev);
            let mlen = header.message_length as usize;
            let to_read = if mlen <= self.chunk_size_in {
                mlen
            } else {
                self.chunk_size_in
            };
            let data = match buf.read_bytes(to_read) {
                Ok(d) => d,
                Err(_) => {
                    return Err(Error::chunk("Failed to read chunk data"));
                },
            };
            let i = match idx {
                Some(i) => i,
                None => self.push_context(cs_id),
            };
            self.start_at(i, header, extended);
            self.add_data_at(i, data)
        }
    }

    /// The index of the context for a chunk stream id, if one exists.
    fn find_context(&self, cs_id: u32) -> (r: Option<usize>)
        ensures
            r matches Some(i) ==> i < self.chunk_streams@.len()
                && self.chunk_streams@[i as int].0 == cs_id,
    {
        let n = self.chunk_streams.len();
        let mut i: usize = 0;
        while i < n
            invariant
                n == self.chunk_streams@.len(),
                i <= n,
            decreases n - i,
        {
            if self.chunk_streams[i].0 == cs_id {
                return Some(i);
            }
            i = i + 1;
        }
        None
    }

    /// Borrow the context at an index.
    fn context_at(&self, i: usize) -> (r: &ChunkStreamContext)
        requires
            i < self.chunk_streams@.len(),
        ensures
            r == self.chunk_streams@[i as int].1,
    {
        &self.chunk_streams[i].1
    }

    /// Append a fresh context for a chunk stream id; returns its index.
    fn push_context(&mut self, cs_id: u32) -> (r: usize)
        requires
            old(self).wf(),
        ensures
            final(self).wf(),
            r < final(self).chunk_streams@.len(),
            final(self).chunk_streams@[r as int].0 == cs_id,
            final(self).chunk_streams@[r as int].1.prev_header is None,
            final(self).chunk_streams@[r as int].1.bytes_remaining == 0,
    {
        let r = self.chunk_streams.len();
        self.chunk_streams.push((cs_id, ChunkStreamContext::new()));
        r
    }

    /// Start a message on the context at an index.
    fn start_at(&mut self, i: usize, header: RtmpHeader, extended: bool)
        requires
            old(self).wf(),
            i < old(self).chunk_streams@.len(),
        ensures
            final(self).wf(),
            final(self).chunk_streams@.len() == old(self).chunk_streams@.len(),
            final(self).chunk_streams@[i as int].0 == old(self).chunk_streams@[i as int].0,
            final(self).chunk_streams@[i as int].1.current_header == Some(header),
            final(self).chunk_streams@[i as int].1.bytes_remaining == header.message_length,
            final(self).chunk_streams@[i as int].1.message_buffer@.len() == 0,
            final(self).chunk_streams@[i as int].1.current_extended == extended,
    {
        let cs_id = self.chunk_streams[i].0;
        let mut pair = self.chunk_streams.remove(i);
        pair.1.start_message(header);
        pair.1.current_extended = extended;
        self.chunk_streams.insert(i, pair);
        proof {
            assert(self.chunk_streams@ =~= old(self).chunk_streams@.update(
                i as int,
                self.chunk_streams@[i as int],
            ));
        }
    }

    /// Append chunk data to the context at an index, emitting the packet
    /// when it completes.
    fn add_data_at(&mut self, i: usize, data: Vec<u8>) -> (r: Result<Option<RtmpPacket>, Error>)
        requires
            old(self).wf(),
            i < old(self).chunk_streams@.len(),
            data@.len() <= old(self).chunk_streams@[i as int].1.bytes_remaining,
        ensures
            final(self).wf(),
            r is Ok,
            r matches Ok(Some(p)) ==> p.wf(),
    {
        let mut pair = self.chunk_streams.remove(i);
        let out = pair.1.add_chunk_data(data);
        self.chunk_streams.insert(i, pair);
        proof {
            assert(self.chunk_streams@ =~= old(self).chunk_streams@.update(
                i as int,
                self.chunk_streams@[i as int],
            ));
        }
        out
    }
}

/// Whether a header of this format, as just read, carried the extended
/// timestamp indicator (so continuation chunks carry the field too).
fn used_extended(fmt: u8, header: &RtmpHeader, prev: Option<RtmpHeader>) -> (r: bool)
{
    if fmt == 0 {
        header.timestamp >= 0xFFFFFF
    } else if fmt == 3 {
        match prev {
            Some(p) => p.timestamp >= 0xFFFFFF,
            None => false,
        }
    } else {
        // For delta formats the indicator stood in the delta field.
        match prev {
            Some(p) => header.timestamp.wrapping_sub(p.timestamp) >= 0xFFFFFF,
            None => false,
        }
    }
}

/// Read a message header of the given format at the buffer's cursor,
/// exactly as the wire defines it.
#[verifier::rlimit(100)]
pub fn read_message_header(
    buf: &mut ByteBuffer,
    fmt: u8,
    cs_id: u32,
    prev: Option<RtmpHeader>,
) -> (r: Result<RtmpHeader, Error>)
    requires
        old(buf).wf(),
        fmt <= 3,
    ensures
        final(buf).wf(),
        final(buf).bytes() == old(buf).bytes(),
        r is Ok <==> msg_header_dec(fmt, old(buf).bytes().skip(old(buf).pos()), prev, cs_id)
            is Some,
        r is Ok ==> msg_header_dec(fmt, old(buf).bytes().skip(old(buf).pos()), prev, cs_id)
            == Some((r->Ok_0, final(buf).pos() - old(buf).pos())),
        r is Err ==> r->Err_0 is Chunk,
{
    let ghost rest = old(buf).bytes().skip(old(buf).pos());
    proof {
        assert(forall|i: int| 0 <= i < rest.len() ==> rest[i] == old(buf).bytes()[old(buf).pos()
            + i]);
    }
    if fmt == 0 {
        if !buf.has_remaining(11) {
            return Err(Error::chunk("Failed to read type 0 header"));
        }
        let ts24 = read_u24(buf);
        let len24 = read_u24(buf);
        let mtype = match buf.read_u8() {
            Ok(b) => b,
            Err(_) => {
                return Err(Error::chunk("Failed to read type 0 header"));
            },
        };
        let msid = read_le32(buf);
        if ts24 == 0xFFFFFF {
            match buf.read_u32_be() {
                Ok(ts) => Ok(RtmpHeader::new(ts, len24, mtype, msid, cs_id)),
                Err(_) => Err(Error::chunk("Failed to read extended timestamp")),
            }
        } else {
            Ok(RtmpHeader::new(ts24, len24, mtype, msid, cs_id))
        }
    } else if fmt == 1 {
        let p = match prev {
            Some(p) => p,
            None => {
                return Err(Error::chunk("Type 1 header requires previous header"));
            },
        };
        if !buf.has_remaining(7) {
            return Err(Error::chunk("Failed to read type 1 header"));
        }
        let d24 = read_u24(buf);
        let len24 = read_u24(buf);
        let mtype = match buf.read_u8() {
            Ok(b) => b,
            Err(_) => {
                return Err(Error::chunk("Failed to read type 1 header"));
            },
        };
        let delta = if d24 == 0xFFFFFF {
            match buf.read_u32_be() {
                Ok(d) => d,
                Err(_) => {
                    return Err(Error::chunk("Failed to read extended timestamp"));
                },
            }
        } else {
            d24
        };
        let ts = p.timestamp.wrapping_add(delta);
        Ok(RtmpHeader::new(ts, len24, mtype, p.message_stream_id, cs_id))
    } else if fmt == 2 {
        let p = match prev {
            Some(p) => p,
            None => {
                return Err(Error::chunk("Type 2 header requires previous header"));
            },
        };
        if !buf.has_remaining(3) {
            return Err(Error::chunk("Failed to read type 2 header"));
        }
        let d24 = read_u24(buf);
        let delta = if d24 == 0xFFFFFF {
            match buf.read_u32_be() {
                Ok(d) => d,
                Err(_) => {
                    return Err(Error::chunk("Failed to read extended timestamp"));
                },
            }
        } else {
            d24
        };
        let ts = p.timestamp.wrapping_add(delta);
        Ok(RtmpHeader::new(ts, p.message_length, p.message_type, p.message_stream_id, cs_id))
    } else {
        let p = match prev {
            Some(p) => p,
            None => {
                return Err(Error::chunk("Type 3 header requires previous header"));
            },
        };
        if p.timestamp >= 0xFFFFFF {
            match buf.read_u32_be() {
                Ok(ts) => Ok(
                    RtmpHeader::new(
                        ts,
                        p.message_length,
                        p.message_type,
                        p.message_stream_id,
                        cs_id,
                    ),
                ),
                Err(_) => Err(Error::chunk("Failed to read extended timestamp")),
            }
        } else {
            Ok(RtmpHeader::new(p.timestamp, p.message_length, p.message_type, p.message_stream_id, cs_id))
        }
    }
}

/// Read three big-endian bytes, widened to u32; the caller has checked that
/// they are there.
fn read_u24(buf: &mut ByteBuffer) -> (r: u32)
    requires
        old(buf).wf(),
        old(buf).pos() + 3 <= old(buf).bytes().len(),
    ensures
        final(buf).wf(),
        final(buf).bytes() == old(buf).bytes(),
        final(buf).pos() == old(buf).pos() + 3,
        r == be24(old(buf).bytes(), old(buf).pos()),
{
    let b0 = match buf.read_u8() {
        Ok(b) => b,
        Err(_) => 0,
    };
    let b1 = match buf.read_u8() {
        Ok(b) => b,
        Err(_) => 0,
    };
    let b2 = match buf.read_u8() {
        Ok(b) => b,
        Err(_) => 0,
    };
    (b0 as u32) * 0x10000 + (b1 as u32) * 0x100 + (b2 as u32)
}

/// Read four little-endian bytes; the caller has checked that they are
/// there.
fn read_le32(buf: &mut ByteBuffer) -> (r: u32)
    requires
        old(buf).wf(),
        old(buf).pos() + 4 <= old(buf).bytes().len(),
    ensures
        final(buf).wf(),
        final(buf).bytes() == old(buf).bytes(),
        final(buf).pos() == old(buf).pos() + 4,
        r == le32(old(buf).bytes(), old(buf).pos()),
{
    let b0 = match buf.read_u8() {
        Ok(b) => b,
        Err(_) => 0,
    };
    let b1 = match buf.read_u8() {
        Ok(b) => b,
        Err(_) => 0,
    };
    let b2 = match buf.read_u8() {
        Ok(b) => b,
        Err(_) => 0,
    };
    let b3 = match buf.read_u8() {
        Ok(b) => b,
        Err(_) => 0,
    };
    (b3 as u32) * 0x1000000 + (b2 as u32) * 0x10000 + (b1 as u32) * 0x100 + (b0 as u32)
}

} // verus!
