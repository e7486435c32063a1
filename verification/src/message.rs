//! Message classification and command responses.

use vstd::prelude::*;
use crate::constants::{MSG_TYPE_SET_CHUNK_SIZE, MSG_TYPE_ABORT, MSG_TYPE_ACK, MSG_TYPE_WINDOW_ACK,
    MSG_TYPE_SET_PEER_BW, MSG_TYPE_AUDIO, MSG_TYPE_VIDEO, MSG_TYPE_COMMAND_AMF0,
    MSG_TYPE_COMMAND_AMF3, MSG_TYPE_DATA_AMF0, MSG_TYPE_DATA_AMF3, MSG_TYPE_AGGREGATE,
    MSG_TYPE_SHARED_OBJECT_AMF0, MSG_TYPE_SHARED_OBJECT_AMF3};
use crate::packet::{RtmpPacket, RtmpHeader};
use crate::amf0::{Amf0Value, amf_wf, amf_view, Amf0Term, amf_enc, vals_enc};
use crate::command::{RtmpCommand, cmd_dec};
use crate::queue::type_priority;
use vstd::string::StringSliceAdditionalSpecFns;

verus! {

/// The five protocol-control message kinds.
#[derive(Debug, Clone, Copy, PartialEq, Eq, Structural)]
pub enum ControlType {
    SetChunkSize,
    Abort,
    Acknowledgement,
    WindowAcknowledgement,
    SetPeerBandwidth,
}

/// A message's kind, by its type id.
#[derive(Debug, Clone, Copy, PartialEq, Eq, Structural)]
pub enum MessageType {
    Control(ControlType),
    Audio,
    Video,
    Command,
    Data,
    Aggregate,
    SharedObject,
    Unknown(u8),
}

/// The kind a type id classifies as.
pub open spec fn type_of_id(id: u8) -> MessageType {
    if id == MSG_TYPE_SET_CHUNK_SIZE {
        MessageType::Control(ControlType::SetChunkSize)
    } else if id == MSG_TYPE_ABORT {
        MessageType::Control(ControlType::Abort)
    } else if id == MSG_TYPE_ACK {
        MessageType::Control(ControlType::Acknowledgement)
    } else if id == MSG_TYPE_WINDOW_ACK {
        MessageType::Control(ControlType::WindowAcknowledgement)
    } else if id == MSG_TYPE_SET_PEER_BW {
        MessageType::Control(ControlType::SetPeerBandwidth)
    } else if id == MSG_TYPE_AUDIO {
        MessageType::Audio
    } else if id == MSG_TYPE_VIDEO {
        MessageType::Video
    } else if id == MSG_TYPE_COMMAND_AMF0 || id == MSG_TYPE_COMMAND_AMF3 {
        MessageType::Command
    } else if id == MSG_TYPE_DATA_AMF0 || id == MSG_TYPE_DATA_AMF3 {
        MessageType::Data
    } else if id == MSG_TYPE_AGGREGATE {
        MessageType::Aggregate
    } else if id == MSG_TYPE_SHARED_OBJECT_AMF0 || id == MSG_TYPE_SHARED_OBJECT_AMF3 {
        MessageType::SharedObject
    } else {
        MessageType::Unknown(id)
    }
}

/// The processing priority of a kind.
pub open spec fn kind_priority(t: MessageType) -> u8 {
    match t {
        MessageType::Control(_) => 10u8,
        MessageType::Command => 8u8,
        MessageType::Data => 6u8,
        MessageType::Audio => 4u8,
        MessageType::Video => 2u8,
        _ => 1u8,
    }
}

impl MessageType {
    /// Classify a message type id.
    pub fn from_id(id: u8) -> (r: MessageType)
        ensures
            r == type_of_id(id),
    {
        if id == MSG_TYPE_SET_CHUNK_SIZE {
            MessageType::Control(ControlType::SetChunkSize)
        } else if id == MSG_TYPE_ABORT {
            MessageType::Control(ControlType::Abort)
        } else if id == MSG_TYPE_ACK {
            MessageType::Control(ControlType::Acknowledgement)
        } else if id == MSG_TYPE_WINDOW_ACK {
            MessageType::Control(ControlType::WindowAcknowledgement)
        } else if id == MSG_TYPE_SET_PEER_BW {
            MessageType::Control(ControlType::SetPeerBandwidth)
        } else if id == MSG_TYPE_AUDIO {
            MessageType::Audio
        } else if id == MSG_TYPE_VIDEO {
            MessageType::Video
        } else if id == MSG_TYPE_COMMAND_AMF0 || id == MSG_TYPE_COMMAND_AMF3 {
            MessageType::Command
        } else if id == MSG_TYPE_DATA_AMF0 || id == MSG_TYPE_DATA_AMF3 {
            MessageType::Data
        } else if id == MSG_TYPE_AGGREGATE {
            MessageType::Aggregate
        } else if id == MSG_TYPE_SHARED_OBJECT_AMF0 || id == MSG_TYPE_SHARED_OBJECT_AMF3 {
            MessageType::SharedObject
        } else {
            MessageType::Unknown(id)
        }
    }

    /// Whether this is a protocol-control kind.
    pub fn is_control(&self) -> (r: bool)
        ensures
            r <==> *self matches MessageType::Control(_),
    {
        match self {
            MessageType::Control(_) => true,
            _ => false,
        }
    }

    /// Whether this is a media kind.
    pub fn is_media(&self) -> (r: bool)
        ensures
            r <==> (*self == MessageType::Audio || *self == MessageType::Video),
    {
        match self {
            MessageType::Audio => true,
            MessageType::Video => true,
            _ => false,
        }
    }

    /// Whether this is the command kind.
    pub fn is_command(&self) -> (r: bool)
        ensures
            r <==> *self == MessageType::Command,
    {
        match self {
            MessageType::Command => true,
            _ => false,
        }
    }

    /// The processing priority of this kind.
    pub fn priority(&self) -> (r: u8)
        ensures
            r == kind_priority(*self),
    {
        match self {
            MessageType::Control(_) => 10,
            MessageType::Command => 8,
            MessageType::Data => 6,
            MessageType::Audio => 4,
            MessageType::Video => 2,
            _ => 1,
        }
    }
}

/// The kind-level priority agrees with the queue's id-level priority.
pub proof fn lemma_priority_agrees(id: u8)
    ensures
        kind_priority(type_of_id(id)) == type_priority(id),
{
}

/// Classify a packet by its message type id.
pub fn classify_message(packet: &RtmpPacket) -> (r: MessageType)
    ensures
        r == type_of_id(packet.header.message_type),
{
    MessageType::from_id(packet.header.message_type)
}

/// Answer a request packet with a _result carrying the given value; a
/// request whose payload does not parse as a command is answered with an
/// _error under transaction id 0.
pub fn create_response(request: &RtmpPacket, result: Amf0Value) -> (r: RtmpPacket)
    requires
        amf_wf(amf_view(result)),
    ensures
        r.header.message_type == MSG_TYPE_COMMAND_AMF0,
        r.payload@.len() <= u32::MAX ==> r.wf(),
        cmd_dec(request.payload@) is Some ==> r.header.message_stream_id
            == request.header.message_stream_id && r.header.timestamp == request.header.timestamp,
        cmd_dec(request.payload@) matches Some(c) ==> r.payload@ == amf_enc(
            Amf0Term::String("_result".spec_bytes()),
        ) + amf_enc(Amf0Term::Number(c.1)) + amf_enc(Amf0Term::Null) + vals_enc(
            seq![amf_view(result)],
        ),
        cmd_dec(request.payload@) is None ==> {
            &&& r.header.message_stream_id == 0
            &&& r.header.timestamp == 0
            &&& r.payload@ == amf_enc(Amf0Term::String("_error".spec_bytes())) + amf_enc(
                Amf0Term::Number(0),
            ) + amf_enc(Amf0Term::Null) + vals_enc(seq![Amf0Term::Null])
        },
{
    let ghost resv = amf_view(result);
    match RtmpCommand::decode(self_payload(request)) {
        Ok(command) => {
            let response_cmd = RtmpCommand::result(command.transaction_id, result);
            let bytes = match response_cmd.encode() {
                Ok(b) => b,
                Err(_) => Vec::new(),
            };
            proof {
                crate::amf0::lemma_vals_wf_singleton(resv);
                reveal_strlit("_result");
                assert("_result"@.len() == 7);
                assert(vstd::utf8::is_ascii_chars("_result"@));
                vstd::utf8::is_ascii_chars_encode_utf8("_result"@);
                assert("_result".spec_bytes().len() == 7);
            }
            let header = RtmpHeader::command(
                request.header.timestamp,
                #[verifier::truncate] (bytes.len() as u32),
                request.header.message_stream_id,
            );
            RtmpPacket::new(header, bytes)
        },
        Err(_) => {
            let error_cmd = RtmpCommand::error(0, Amf0Value::Null);
            proof {
                crate::amf0::lemma_vals_wf_singleton(Amf0Term::Null);
                reveal_strlit("_error");
                assert("_error"@.len() == 6);
                assert(vstd::utf8::is_ascii_chars("_error"@));
                vstd::utf8::is_ascii_chars_encode_utf8("_error"@);
                assert("_error".spec_bytes().len() == 6);
            }
            let bytes = match error_cmd.encode() {
                Ok(b) => b,
                Err(_) => Vec::new(),
            };
            let header = RtmpHeader::command(0, #[verifier::truncate] (bytes.len() as u32), 0);
            RtmpPacket::new(header, bytes)
        },
    }
}

/// Borrow a packet's payload as a slice.
fn self_payload(p: &RtmpPacket) -> (r: &[u8])
    ensures
        r@ == p.payload@,
{
    p.payload.as_slice()
}

} // verus!
