//! Connection state, the per-connection property store, per-connection
//! stream bookkeeping, and protocol-control message validation.

use vstd::prelude::*;
use vstd::string::StrSliceExecFns;
use crate::packet::RtmpPacket;
use crate::constants::{MSG_TYPE_SET_CHUNK_SIZE, MSG_TYPE_ABORT, MSG_TYPE_ACK, MSG_TYPE_WINDOW_ACK,
    MSG_TYPE_SET_PEER_BW};
use crate::buffer::be32;
use crate::registry::str_eq;
use crate::time::current_timestamp;
use crate::error::Error;

verus! {

broadcast use vstd::std_specs::vec::axiom_spec_len;

/// A connection's lifecycle state.
#[derive(Debug, Clone, Copy, PartialEq, Eq, Structural)]
pub enum ConnectionState {
    Uninitialized,
    Handshaking,
    Connected,
    Publishing,
    Playing,
    Closing,
    Closed,
}

/// The transitions the lifecycle allows: forward through the handshake,
/// into and out of publishing or playing, and into closing from anywhere.
pub open spec fn can_transition(from: ConnectionState, to: ConnectionState) -> bool {
    ||| (from == ConnectionState::Uninitialized && to == ConnectionState::Handshaking)
    ||| (from == ConnectionState::Handshaking && to == ConnectionState::Connected)
    ||| (from == ConnectionState::Connected && to == ConnectionState::Publishing)
    ||| (from == ConnectionState::Connected && to == ConnectionState::Playing)
    ||| (from == ConnectionState::Publishing && to == ConnectionState::Connected)
    ||| (from == ConnectionState::Playing && to == ConnectionState::Connected)
    ||| to == ConnectionState::Closing
    ||| (from == ConnectionState::Closing && to == ConnectionState::Closed)
}

impl ConnectionState {
    /// Whether the connection is past the handshake and not closing.
    pub fn is_connected(&self) -> (r: bool)
        ensures
            r <==> (*self == ConnectionState::Connected || *self == ConnectionState::Publishing
                || *self == ConnectionState::Playing),
    {
        match self {
            ConnectionState::Connected => true,
            ConnectionState::Publishing => true,
            ConnectionState::Playing => true,
            _ => false,
        }
    }

    /// Whether a publish may start from here.
    pub fn can_publish(&self) -> (r: bool)
        ensures
            r <==> *self == ConnectionState::Connected,
    {
        *self == ConnectionState::Connected
    }

    /// Whether a play may start from here.
    pub fn can_play(&self) -> (r: bool)
        ensures
            r <==> (*self == ConnectionState::Connected || *self == ConnectionState::Playing),
    {
        match self {
            ConnectionState::Connected => true,
            ConnectionState::Playing => true,
            _ => false,
        }
    }

    /// Whether the lifecycle allows moving to the next state.
    pub fn can_transition_to(&self, next: ConnectionState) -> (r: bool)
        ensures
            r == can_transition(*self, next),
    {
        match (*self, next) {
            (ConnectionState::Uninitialized, ConnectionState::Handshaking) => true,
            (ConnectionState::Handshaking, ConnectionState::Connected) => true,
            (ConnectionState::Connected, ConnectionState::Publishing) => true,
            (ConnectionState::Connected, ConnectionState::Playing) => true,
            (ConnectionState::Publishing, ConnectionState::Connected) => true,
            (ConnectionState::Playing, ConnectionState::Connected) => true,
            (_, ConnectionState::Closing) => true,
            (ConnectionState::Closing, ConnectionState::Closed) => true,
            _ => false,
        }
    }
}

/// Validate a protocol-control message: the right payload size, and for
/// SetChunkSize a size within the protocol bounds [128, 65536].
pub fn process_control_message(msg: &RtmpPacket) -> (r: Result<(), Error>)
    ensures
        msg.header.message_type == MSG_TYPE_SET_CHUNK_SIZE ==> (r is Ok <==> (msg.payload@.len()
            >= 4 && 128 <= be32(msg.payload@, 0) <= 65536)),
        msg.header.message_type == MSG_TYPE_ABORT ==> (r is Ok <==> msg.payload@.len() >= 4),
        (msg.header.message_type == MSG_TYPE_ACK || msg.header.message_type == MSG_TYPE_WINDOW_ACK
            || msg.header.message_type == MSG_TYPE_SET_PEER_BW) ==> r is Ok,
        !(msg.header.message_type == MSG_TYPE_SET_CHUNK_SIZE || msg.header.message_type
            == MSG_TYPE_ABORT || msg.header.message_type == MSG_TYPE_ACK
            || msg.header.message_type == MSG_TYPE_WINDOW_ACK || msg.header.message_type
            == MSG_TYPE_SET_PEER_BW) ==> r is Err,
        r is Err ==> r->Err_0 is Protocol,
{
    let t = msg.header.message_type;
    if t == MSG_TYPE_SET_CHUNK_SIZE {
        if msg.payload.len() < 4 {
            return Err(Error::protocol("Invalid chunk size message"));
        }
        let size = read_be32_front(&msg.payload);
        if size < 128 || size > 65536 {
            return Err(Error::protocol("Invalid chunk size"));
        }
        Ok(())
    } else if t == MSG_TYPE_ABORT {
        if msg.payload.len() < 4 {
            return Err(Error::protocol("Invalid abort message"));
        }
        Ok(())
    } else if t == MSG_TYPE_ACK || t == MSG_TYPE_WINDOW_ACK || t == MSG_TYPE_SET_PEER_BW {
        Ok(())
    } else {
        Err(Error::protocol("Unknown control message type"))
    }
}

/// Read the big-endian u32 at the head of a payload.
fn read_be32_front(data: &Vec<u8>) -> (r: u32)
    requires
        data@.len() >= 4,
    ensures
        r == be32(data@, 0),
{
    (data[0] as u32) * 0x1000000 + (data[1] as u32) * 0x10000 + (data[2] as u32) * 0x100 + (
    data[3] as u32)
}

/// What a per-connection stream is for.
#[derive(Debug, Clone, Copy, PartialEq, Eq, Structural)]
pub enum StreamKind {
    /// The command stream, id 0.
    Command,
    /// A created stream not yet bound.
    Network,
    /// Bound to a publish.
    Publishing,
    /// Bound to a play.
    Playing,
}

/// One stream a connection has created.
#[derive(Debug)]
pub struct ManagedStream {
    pub id: u32,
    pub name: Option<String>,
    pub kind: StreamKind,
    pub created_at: u32,
}

/// Per-connection stream bookkeeping: id 0 is the command stream; created
/// streams get fresh, monotonically increasing ids from 1.
pub struct StreamManager {
    next_stream_id: u32,
    streams: Vec<ManagedStream>,
}

/// Whether a stream with the id stands in the list.
pub open spec fn has_stream(s: Seq<ManagedStream>, id: u32) -> bool {
    exists|i: int| 0 <= i < s.len() && (#[trigger] s[i]).id == id
}

impl StreamManager {
    /// The streams, in creation order.
    pub closed spec fn streams_view(self) -> Seq<ManagedStream> {
        self.streams@
    }

    /// The id the next created stream receives.
    pub closed spec fn next_id(self) -> int {
        self.next_stream_id as int
    }

    /// A fresh manager holding only the command stream.
    pub fn new() -> (r: StreamManager)
        ensures
            r.next_id() == 1,
            r.streams_view().len() == 1,
            r.streams_view()[0].id == 0,
            r.streams_view()[0].kind == StreamKind::Command,
    {
        let mut streams: Vec<ManagedStream> = Vec::new();
        streams.push(
            ManagedStream { id: 0, name: None, kind: StreamKind::Command, created_at: 0 },
        );
        StreamManager { next_stream_id: 1, streams }
    }

    /// Create a stream under the next id.
    pub fn create_stream(&mut self) -> (r: u32)
        requires
            old(self).next_id() < u32::MAX,
        ensures
            r == old(self).next_id(),
            final(self).next_id() == old(self).next_id() + 1,
            final(self).streams_view().len() == old(self).streams_view().len() + 1,
            final(self).streams_view().last().id == r,
            final(self).streams_view().last().kind == StreamKind::Network,
            final(self).streams_view().take(old(self).streams_view().len() as int) == old(
                self,
            ).streams_view(),
    {
        let id = self.next_stream_id;
        self.next_stream_id = self.next_stream_id + 1;
        let ghost olds = self.streams@;
        self.streams.push(
            ManagedStream {
                id,
                name: None,
                kind: StreamKind::Network,
                created_at: current_timestamp(),
            },
        );
        proof {
            assert(self.streams@.take(olds.len() as int) =~= olds);
        }
        id
    }

    /// Delete a stream.  The command stream cannot be deleted; a missing
    /// id is an error.
    pub fn delete_stream(&mut self, id: u32) -> (r: Result<(), Error>)
        ensures
            r is Ok <==> (id != 0 && has_stream(old(self).streams_view(), id)),
            r is Err ==> final(self).streams_view() == old(self).streams_view() && r->Err_0
                is Stream,
    {
        if id == 0 {
            return Err(Error::stream("Cannot delete command stream"));
        }
        let idx = match self.find_stream(id) {
            Some(i) => i,
            None => {
                return Err(Error::stream("Stream not found"));
            },
        };
        let _ = self.streams.remove(idx);
        Ok(())
    }

    /// Bind a stream to a publish under a name.
    pub fn set_publishing(&mut self, id: u32, name: String) -> (r: Result<(), Error>)
        ensures
            r is Ok <==> has_stream(old(self).streams_view(), id),
            r is Err ==> final(self).streams_view() == old(self).streams_view() && r->Err_0
                is Stream,
    {
        let idx = match self.find_stream(id) {
            Some(i) => i,
            None => {
                return Err(Error::stream("Stream not found"));
            },
        };
        let mut entry = self.streams.remove(idx);
        entry.name = Some(name);
        entry.kind = StreamKind::Publishing;
        self.streams.insert(idx, entry);
        Ok(())
    }

    /// Bind a stream to a play under a name.
    pub fn set_playing(&mut self, id: u32, name: String) -> (r: Result<(), Error>)
        ensures
            r is Ok <==> has_stream(old(self).streams_view(), id),
            r is Err ==> final(self).streams_view() == old(self).streams_view() && r->Err_0
                is Stream,
    {
        let idx = match self.find_stream(id) {
            Some(i) => i,
            None => {
                return Err(Error::stream("Stream not found"));
            },
        };
        let mut entry = self.streams.remove(idx);
        entry.name = Some(name);
        entry.kind = StreamKind::Playing;
        self.streams.insert(idx, entry);
        Ok(())
    }

    /// The stream under an id, when one exists.
    pub fn get_stream(&self, id: u32) -> (r: Option<&ManagedStream>)
        ensures
            r is Some <==> has_stream(self.streams_view(), id),
            r matches Some(s) ==> s.id == id,
    {
        match self.find_stream(id) {
            Some(i) => Some(&self.streams[i]),
            None => None,
        }
    }

    /// Every stream, in creation order.
    pub fn get_streams(&self) -> (r: &Vec<ManagedStream>)
        ensures
            r@ == self.streams_view(),
    {
        &self.streams
    }

    /// The index of a stream id.
    fn find_stream(&self, id: u32) -> (r: Option<usize>)
        ensures
            r is Some <==> has_stream(self.streams_view(), id),
            r matches Some(i) ==> i < self.streams_view().len() && self.streams_view()[
                i as int
            ].id == id,
    {
        let n = self.streams.len();
        let mut i: usize = 0;
        while i < n
            invariant
                n == self.streams@.len(),
                i <= n,
                forall|j: int| 0 <= j < i ==> (#[trigger] self.streams@[j]).id != id,
            decreases n - i,
        {
            if self.streams[i].id == id {
                return Some(i);
            }
            i = i + 1;
        }
        None
    }
}

/// The per-connection key-value properties handlers read and write, with
/// the negotiated chunk sizes.
pub struct ConnectionContext {
    connection_id: String,
    properties: Vec<(String, String)>,
    chunk_size_in: usize,
    chunk_size_out: usize,
}

/// Whether a key stands in the property list.
pub open spec fn has_key(s: Seq<(String, String)>, key: Seq<char>) -> bool {
    exists|i: int| 0 <= i < s.len() && (#[trigger] s[i]).0@ == key
}

impl ConnectionContext {
    /// The property list, each key at most once.
    pub closed spec fn props(self) -> Seq<(String, String)> {
        self.properties@
    }

    /// Each key stands at most once.
    pub open spec fn wf(self) -> bool {
        forall|i: int, j: int|
            0 <= i < j < self.props().len() ==> (#[trigger] self.props()[i]).0@ != (
            #[trigger] self.props()[j]).0@
    }

    /// The connection's id.
    pub closed spec fn id_view(self) -> Seq<char> {
        self.connection_id@
    }

    /// A fresh context with no properties and the default chunk sizes.
    pub fn new(connection_id: String) -> (r: ConnectionContext)
        ensures
            r.wf(),
            r.props().len() == 0,
            r.id_view() == connection_id@,
    {
        ConnectionContext {
            connection_id,
            properties: Vec::new(),
            chunk_size_in: 128,
            chunk_size_out: 128,
        }
    }

    /// The connection's id.
    pub fn connection_id(&self) -> (r: &str)
        ensures
            r@ == self.id_view(),
    {
        self.connection_id.as_str()
    }

    /// The value stored under a key, when one is.
    pub fn get_property(&self, key: &str) -> (r: Option<&String>)
        requires
            self.wf(),
        ensures
            r is Some <==> has_key(self.props(), key@),
    {
        let n = self.properties.len();
        let mut i: usize = 0;
        while i < n
            invariant
                n == self.properties@.len(),
                i <= n,
                forall|j: int| 0 <= j < i ==> (#[trigger] self.properties@[j]).0@ != key@,
            decreases n - i,
        {
            if str_eq(self.properties[i].0.as_str(), key) {
                return Some(&self.properties[i].1);
            }
            i = i + 1;
        }
        None
    }

    /// Store a value under a key, replacing what stood there.
    pub fn set_property(&mut self, key: String, value: String)
        requires
            old(self).wf(),
        ensures
            final(self).wf(),
            has_key(final(self).props(), key@),
            final(self).id_view() == old(self).id_view(),
    {
        let _ = self.remove_property_str(key.as_str());
        let ghost olds = self.properties@;
        self.properties.push((key, value));
        proof {
            assert(self.properties@.drop_last() =~= olds);
            assert(self.properties@.last().0@ == key@);
            assert forall|i: int, j: int|
                0 <= i < j < self.properties@.len() implies (
            #[trigger] self.properties@[i]).0@ != (#[trigger] self.properties@[j]).0@ by {
                if j < olds.len() {
                    assert(self.properties@[i] == olds[i] && self.properties@[j] == olds[j]);
                } else {
                    assert(self.properties@[i] == olds[i]);
                }
            }
        }
    }

    /// Drop the value under a key, if one stood there.
    pub fn remove_property(&mut self, key: &str)
        requires
            old(self).wf(),
        ensures
            final(self).wf(),
            !has_key(final(self).props(), key@),
            final(self).id_view() == old(self).id_view(),
    {
        let _ = self.remove_property_str(key);
    }

    /// Remove a key; true when it was present.
    fn remove_property_str(&mut self, key: &str) -> (r: bool)
        requires
            old(self).wf(),
        ensures
            final(self).wf(),
            !has_key(final(self).props(), key@),
            final(self).id_view() == old(self).id_view(),
            final(self).chunk_size_in == old(self).chunk_size_in,
            final(self).chunk_size_out == old(self).chunk_size_out,
    {
        let idx = match self.find_key(key) {
            Some(i) => i,
            None => {
                return false;
            },
        };
        let ghost olds = self.properties@;
        let ghost k = idx as int;
        let _ = self.properties.remove(idx);
        proof {
            assert forall|a: int, b: int|
                0 <= a < b < self.properties@.len() implies (
            #[trigger] self.properties@[a]).0@ != (#[trigger] self.properties@[b]).0@ by {
                let a0 = if a < k {
                    a
                } else {
                    a + 1
                };
                let b0 = if b < k {
                    b
                } else {
                    b + 1
                };
                assert(self.properties@[a] == olds[a0]);
                assert(self.properties@[b] == olds[b0]);
                assert(olds[a0].0@ != olds[b0].0@);
            }
            assert forall|j: int|
                0 <= j < self.properties@.len() implies (
            #[trigger] self.properties@[j]).0@ != key@ by {
                let j0 = if j < k {
                    j
                } else {
                    j + 1
                };
                assert(self.properties@[j] == olds[j0]);
                if j0 != k {
                    assert(olds[j0].0@ != olds[k].0@);
                }
            }
        }
        true
    }

    /// The index of a key, when one stands.
    fn find_key(&self, key: &str) -> (r: Option<usize>)
        requires
            self.wf(),
        ensures
            r is Some <==> has_key(self.props(), key@),
            r matches Some(i) ==> i < self.props().len() && self.props()[i as int].0@ == key@,
    {
        let n = self.properties.len();
        let mut i: usize = 0;
        while i < n
            invariant
                n == self.properties@.len(),
                i <= n,
                forall|j: int| 0 <= j < i ==> (#[trigger] self.properties@[j]).0@ != key@,
            decreases n - i,
        {
            if str_eq(self.properties[i].0.as_str(), key) {
                return Some(i);
            }
            i = i + 1;
        }
        None
    }

    /// Set the incoming chunk size.
    pub fn set_chunk_size_in(&mut self, size: usize)
        requires
            old(self).wf(),
            128 <= size <= 65536,
        ensures
            final(self).wf(),
            final(self).props() == old(self).props(),
            final(self).id_view() == old(self).id_view(),
    {
        self.chunk_size_in = size;
        proof {
            assert(self.props() == old(self).props());
        }
    }

    /// Set the outgoing chunk size.
    pub fn set_chunk_size_out(&mut self, size: usize)
        requires
            old(self).wf(),
            128 <= size <= 65536,
        ensures
            final(self).wf(),
            final(self).props() == old(self).props(),
            final(self).id_view() == old(self).id_view(),
    {
        self.chunk_size_out = size;
        proof {
            assert(self.props() == old(self).props());
        }
    }
}

} // verus!
