//! Per-chunk-stream assembly state: the delta base for compressed headers
//! and the partially assembled message.

use vstd::prelude::*;
use crate::packet::{RtmpHeader, RtmpPacket};
use crate::error::Error;

verus! {

broadcast use vstd::std_specs::vec::axiom_spec_len;

/// State kept for one chunk-stream-id within a connection.
#[derive(Debug, Clone)]
pub struct ChunkStreamContext {
    /// The most recent complete header on this chunk stream: the delta base
    /// for Type-1/2/3 headers.
    pub prev_header: Option<RtmpHeader>,
    /// The partially assembled message.
    pub message_buffer: Vec<u8>,
    /// Bytes still owed to the current message; zero when none is in
    /// progress.
    pub bytes_remaining: usize,
    /// The header of the message being assembled.
    pub current_header: Option<RtmpHeader>,
    /// Whether the first chunk of the current message carried the
    /// extended-timestamp indicator, so continuation chunks carry the
    /// four-byte field too.
    pub current_extended: bool,
}

impl ChunkStreamContext {
    /// No message is in progress exactly when no bytes are owed; while one
    /// is, the assembled part plus what is owed is the announced length.
    pub open spec fn wf(self) -> bool {
        &&& (self.bytes_remaining == 0 ==> self.message_buffer@.len() == 0)
        &&& (self.bytes_remaining > 0 ==> self.current_header is Some)
        &&& (self.current_header is Some ==> self.message_buffer@.len() + self.bytes_remaining
            == self.current_header->0.message_length)
    }

    /// A fresh context: created lazily on first sighting of a
    /// chunk-stream-id.
    pub fn new() -> (r: ChunkStreamContext)
        ensures
            r.wf(),
            r.prev_header is None,
            r.current_header is None,
            r.bytes_remaining == 0,
            r.message_buffer@.len() == 0,
            !r.current_extended,
    {
        ChunkStreamContext {
            prev_header: None,
            message_buffer: Vec::new(),
            bytes_remaining: 0,
            current_header: None,
            current_extended: false,
        }
    }

    /// Whether a message is currently being assembled.
    pub fn is_assembling(&self) -> (r: bool)
        ensures
            r <==> self.bytes_remaining > 0,
    {
        self.bytes_remaining > 0
    }

    /// Begin assembling a message under the given header; the header also
    /// becomes the delta base for the chunks that follow.
    pub fn start_message(&mut self, header: RtmpHeader)
        ensures
            final(self).wf(),
            final(self).current_header == Some(header),
            final(self).prev_header == Some(header),
            final(self).bytes_remaining == header.message_length,
            final(self).message_buffer@.len() == 0,
            final(self).current_extended == old(self).current_extended,
    {
        self.current_header = Some(header);
        self.prev_header = Some(header);
        self.bytes_remaining = header.message_length as usize;
        self.message_buffer.clear();
    }

    /// Append one chunk's payload.  When it completes the message, the
    /// packet comes out, its payload exactly as long as its header
    /// announced, and the context is clear for the next message.
    pub fn add_chunk_data(&mut self, data: Vec<u8>) -> (r: Result<Option<RtmpPacket>, Error>)
        requires
            old(self).wf(),
            data@.len() <= old(self).bytes_remaining,
        ensures
            final(self).wf(),
            r is Ok,
            final(self).current_extended == old(self).current_extended,
            final(self).prev_header == (if data@.len() >= old(self).bytes_remaining && old(
                self,
            ).current_header is Some {
                old(self).current_header
            } else {
                old(self).prev_header
            }),
            (data@.len() >= old(self).bytes_remaining && old(self).current_header is Some) ==> {
                &&& r->Ok_0 is Some
                &&& r->Ok_0->0.header == old(self).current_header->0
                &&& r->Ok_0->0.payload@ == old(self).message_buffer@ + data@
                &&& r->Ok_0->0.wf()
                &&& final(self).bytes_remaining == 0
                &&& final(self).message_buffer@.len() == 0
                &&& final(self).current_header is None
            },
            !(data@.len() >= old(self).bytes_remaining && old(self).current_header is Some) ==> {
                &&& r->Ok_0 is None
                &&& final(self).message_buffer@ == old(self).message_buffer@ + data@
                &&& final(self).bytes_remaining == old(self).bytes_remaining - data@.len()
                &&& final(self).current_header == old(self).current_header
            },
    {
        let data_len = data.len();
        let mut appended = self.message_buffer.clone();
        let mut i: usize = 0;
        while i < data.len()
            invariant
                i <= data@.len(),
                appended@ == old(self).message_buffer@ + data@.subrange(0, i as int),
            decreases data@.len() - i,
        {
            appended.push(data[i]);
            i = i + 1;
            proof {
                assert(appended@ =~= old(self).message_buffer@ + data@.subrange(0, i as int));
            }
        }
        proof {
            assert(data@.subrange(0, data@.len() as int) =~= data@);
        }
        if data_len >= self.bytes_remaining {
            self.bytes_remaining = 0;
            let header = self.current_header;
            self.current_header = None;
            match header {
                Some(header) => {
                    self.message_buffer = Vec::new();
                    let packet = RtmpPacket::new(header, appended);
                    self.prev_header = Some(header);
                    Ok(Some(packet))
                },
                None => {
                    self.message_buffer = appended;
                    Ok(None)
                },
            }
        } else {
            self.message_buffer = appended;
            self.bytes_remaining = self.bytes_remaining - data_len;
            Ok(None)
        }
    }
}

/// A chunk stream: its id and its assembly state.
#[derive(Debug, Clone)]
pub struct ChunkStream {
    /// Chunk stream id.
    pub id: u32,
    /// Assembly state.
    pub context: ChunkStreamContext,
}

impl ChunkStream {
    /// A fresh chunk stream with the given id.
    pub fn new(id: u32) -> (r: ChunkStream)
        ensures
            r.id == id,
            r.context.wf(),
            r.context.prev_header is None,
            r.context.bytes_remaining == 0,
    {
        ChunkStream { id, context: ChunkStreamContext::new() }
    }
}

} // verus!
