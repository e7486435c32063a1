//! The command handlers: connect, createStream, publish, play and
//! deleteStream, as pure decisions from the command, the connection's
//! properties and the publisher registry to response packets and state
//! changes.

use vstd::prelude::*;
use vstd::string::{StrSliceExecFns, StringSliceAdditionalSpecFns, StringExecFns};
use crate::amf0::{Amf0Value, Amf0Term, props_view, amf_view, amf_wf, amf_enc};
use crate::command::RtmpCommand;
use crate::packet::{RtmpPacket, RtmpHeader};
use crate::constants::{MSG_TYPE_WINDOW_ACK, MSG_TYPE_SET_PEER_BW, MSG_TYPE_SET_CHUNK_SIZE,
    MSG_TYPE_USER_CONTROL, MSG_TYPE_COMMAND_AMF0, MSG_TYPE_DATA_AMF0, CHUNK_STREAM_PROTOCOL};
use crate::buffer::be32_bytes;
use crate::connection::ConnectionContext;
use crate::registry::{PublisherRegistry, has_name, name_idx};
use vstd::arithmetic::power2::pow2;
use crate::data::{RtmpData, str_bytes_is};
use crate::error::Error;

verus! {

broadcast use vstd::std_specs::vec::axiom_spec_len;

/// What handling a command decides: packets to send before the response,
/// the response itself when one is owed, and whether the connection is now
/// publishing or playing.
pub struct HandlerOutcome {
    /// Sent in order, before the response.
    pub packets: Vec<RtmpPacket>,
    /// The command response, when the command calls for one.
    pub response: Option<RtmpPacket>,
}

/// A control packet: the given type on the protocol chunk stream,
/// message stream 0, timestamp 0.
pub open spec fn control_packet(msg_type: u8, payload: Seq<u8>) -> (RtmpHeader, Seq<u8>) {
    (
        RtmpHeader {
            timestamp: 0,
            message_length: payload.len() as u32,
            message_type: msg_type,
            message_stream_id: 0,
            chunk_stream_id: CHUNK_STREAM_PROTOCOL,
        },
        payload,
    )
}

/// The WindowAcknowledgementSize packet: four big-endian bytes of the
/// window size.
pub fn create_window_ack_packet(size: u32) -> (r: RtmpPacket)
    ensures
        r@ == control_packet(MSG_TYPE_WINDOW_ACK, be32_bytes(size)),
        r.wf(),
{
    let mut payload: Vec<u8> = Vec::new();
    push_be32h(&mut payload, size);
    let header = RtmpHeader::new(
        0,
        payload.len() as u32,
        MSG_TYPE_WINDOW_ACK,
        0,
        CHUNK_STREAM_PROTOCOL,
    );
    RtmpPacket::new(header, payload)
}

/// The SetPeerBandwidth packet: the window size then the limit type.
pub fn create_peer_bandwidth_packet(size: u32, limit_type: u8) -> (r: RtmpPacket)
    ensures
        r@ == control_packet(MSG_TYPE_SET_PEER_BW, be32_bytes(size).push(limit_type)),
        r.wf(),
{
    let mut payload: Vec<u8> = Vec::new();
    push_be32h(&mut payload, size);
    payload.push(limit_type);
    let header = RtmpHeader::new(
        0,
        payload.len() as u32,
        MSG_TYPE_SET_PEER_BW,
        0,
        CHUNK_STREAM_PROTOCOL,
    );
    RtmpPacket::new(header, payload)
}

/// The SetChunkSize packet: four big-endian bytes of the chunk size.
pub fn create_chunk_size_packet(size: u32) -> (r: RtmpPacket)
    ensures
        r@ == control_packet(MSG_TYPE_SET_CHUNK_SIZE, be32_bytes(size)),
        r.wf(),
{
    let mut payload: Vec<u8> = Vec::new();
    push_be32h(&mut payload, size);
    let header = RtmpHeader::new(
        0,
        payload.len() as u32,
        MSG_TYPE_SET_CHUNK_SIZE,
        0,
        CHUNK_STREAM_PROTOCOL,
    );
    RtmpPacket::new(header, payload)
}

/// The StreamBegin user-control packet: event type 0, then the stream id.
pub fn create_stream_begin_packet(stream_id: u32) -> (r: RtmpPacket)
    ensures
        r@ == control_packet(MSG_TYPE_USER_CONTROL, seq![0u8, 0u8] + be32_bytes(stream_id)),
        r.wf(),
{
    let mut payload: Vec<u8> = Vec::new();
    payload.push(0);
    payload.push(0);
    push_be32h(&mut payload, stream_id);
    proof {
        assert(payload@ =~= seq![0u8, 0u8] + be32_bytes(stream_id));
    }
    let header = RtmpHeader::new(
        0,
        payload.len() as u32,
        MSG_TYPE_USER_CONTROL,
        0,
        CHUNK_STREAM_PROTOCOL,
    );
    RtmpPacket::new(header, payload)
}

/// Append four big-endian bytes.
fn push_be32h(out: &mut Vec<u8>, v: u32)
    ensures
        final(out)@ == old(out)@ + be32_bytes(v),
{
    out.push((v / 0x1000000) as u8);
    out.push(((v / 0x10000) % 256) as u8);
    out.push(((v / 256) % 256) as u8);
    out.push((v % 256) as u8);
    proof {
        assert(out@ =~= old(out)@ + be32_bytes(v));
    }
}

/// Whether a member list holds a key.
pub open spec fn obj_has_key(ps: Seq<(Seq<u8>, Amf0Term)>, key: Seq<u8>) -> bool {
    exists|i: int| 0 <= i < ps.len() && (#[trigger] ps[i]).0 == key
}

/// Find a key in a member list.
fn find_prop<'a>(ps: &'a Vec<(Vec<u8>, Amf0Value)>, key: &str) -> (r: Option<&'a Amf0Value>)
    ensures
        r is Some <==> obj_has_key(props_view(ps@), key.spec_bytes()),
{
    proof {
        crate::amf0::lemma_props_view_index(ps@);
    }
    let n = ps.len();
    let mut i: usize = 0;
    while i < n
        invariant
            n == ps@.len(),
            i <= n,
            props_view(ps@).len() == ps@.len(),
            forall|j: int|
                0 <= j < ps@.len() ==> #[trigger] props_view(ps@)[j] == (
                    ps@[j].0@,
                    amf_view(ps@[j].1),
                ),
            forall|j: int| 0 <= j < i ==> (#[trigger] props_view(ps@)[j]).0 != key.spec_bytes(),
        decreases n - i,
    {
        if str_bytes_is(&ps[i].0, key) {
            proof {
                assert(props_view(ps@)[i as int].0 == key.spec_bytes());
            }
            return Some(&ps[i].1);
        }
        i = i + 1;
    }
    None
}

/// Whether a connect command object qualifies: an object holding the app
/// and tcUrl members.
pub open spec fn connect_params_ok(params: Amf0Term) -> bool {
    params matches Amf0Term::Object(ps) && obj_has_key(ps, "app".spec_bytes()) && obj_has_key(
        ps,
        "tcUrl".spec_bytes(),
    )
}

/// Check a connect command object: it must be an object holding the app
/// and tcUrl members.
pub fn validate_connect_params(params: &Amf0Value) -> (r: Result<(), Error>)
    ensures
        r is Err ==> r->Err_0 is Protocol,
        r is Ok <==> connect_params_ok(params@),
{
    let obj = match params {
        Amf0Value::Object(ps) => ps,
        _ => {
            return Err(Error::protocol("Connect params must be object"));
        },
    };
    match find_prop(obj, "app") {
        Some(_) => (),
        None => {
            return Err(Error::protocol("Missing 'app' parameter"));
        },
    }
    match find_prop(obj, "tcUrl") {
        Some(_) => (),
        None => {
            return Err(Error::protocol("Missing 'tcUrl' parameter"));
        },
    }
    Ok(())
}

/// The bit pattern of the wire number 31.0, the advertised capabilities.
pub const CAPABILITIES_BITS: u64 = 0x403F000000000000;

/// The bit pattern of the wire number 1.0, the advertised mode.
pub const MODE_ONE_BITS: u64 = 0x3FF0000000000000;

/// The _result command object of a successful connect: the server
/// version, capabilities 31 and mode 1.
pub open spec fn connect_success_props() -> Seq<(Seq<u8>, Amf0Term)> {
    seq![
        ("fmsVer".spec_bytes(), Amf0Term::String("FMS/3,5,5,2004".spec_bytes())),
        ("capabilities".spec_bytes(), Amf0Term::Number(CAPABILITIES_BITS)),
        ("mode".spec_bytes(), Amf0Term::Number(MODE_ONE_BITS)),
    ]
}

/// The info object of a successful connect: level status, code
/// NetConnection.Connect.Success, a description, and object encoding 0.
pub open spec fn connect_success_info() -> Seq<(Seq<u8>, Amf0Term)> {
    seq![
        ("level".spec_bytes(), Amf0Term::String("status".spec_bytes())),
        ("code".spec_bytes(), Amf0Term::String("NetConnection.Connect.Success".spec_bytes())),
        ("description".spec_bytes(), Amf0Term::String("Connection succeeded".spec_bytes())),
        ("objectEncoding".spec_bytes(), Amf0Term::Number(0)),
    ]
}

/// The info object of a rejected connect.
pub open spec fn connect_rejected_info() -> Seq<(Seq<u8>, Amf0Term)> {
    seq![
        ("level".spec_bytes(), Amf0Term::String("error".spec_bytes())),
        ("code".spec_bytes(), Amf0Term::String("NetConnection.Connect.Rejected".spec_bytes())),
        ("description".spec_bytes(), Amf0Term::String("Connection rejected".spec_bytes())),
    ]
}

/// The connect response: on success a _result whose command object carries
/// the server version, capabilities 31 and mode 1, and whose info argument
/// says NetConnection.Connect.Success with object encoding 0; on failure
/// an _error saying NetConnection.Connect.Rejected.
pub fn generate_connect_response(success: bool, transaction_id: u64) -> (r: RtmpCommand)
    ensures
        r.transaction_id == transaction_id,
        success ==> {
            &&& r.name@ == "_result".spec_bytes()
            &&& crate::command::opt_view(r.command_object) == Some(
                Amf0Term::Object(connect_success_props()),
            )
            &&& crate::amf0::vals_view(r.arguments@) == seq![
                Amf0Term::Object(connect_success_info()),
            ]
        },
        !success ==> {
            &&& r.name@ == "_error".spec_bytes()
            &&& crate::command::opt_view(r.command_object) == Some(Amf0Term::Null)
            &&& crate::amf0::vals_view(r.arguments@) == seq![
                Amf0Term::Object(connect_rejected_info()),
            ]
        },
{
    if success {
        let mut props: Vec<(Vec<u8>, Amf0Value)> = Vec::new();
        props.push(
            ("fmsVer".as_bytes_vec(), Amf0Value::String("FMS/3,5,5,2004".as_bytes_vec())),
        );
        props.push(("capabilities".as_bytes_vec(), Amf0Value::Number(CAPABILITIES_BITS)));
        props.push(("mode".as_bytes_vec(), Amf0Value::Number(MODE_ONE_BITS)));
        let mut info: Vec<(Vec<u8>, Amf0Value)> = Vec::new();
        info.push(("level".as_bytes_vec(), Amf0Value::String("status".as_bytes_vec())));
        info.push(
            (
                "code".as_bytes_vec(),
                Amf0Value::String("NetConnection.Connect.Success".as_bytes_vec()),
            ),
        );
        info.push(
            (
                "description".as_bytes_vec(),
                Amf0Value::String("Connection succeeded".as_bytes_vec()),
            ),
        );
        info.push(("objectEncoding".as_bytes_vec(), Amf0Value::Number(0)));
        proof {
            crate::amf0::lemma_props_view_index(props@);
            assert(props_view(props@) =~= connect_success_props());
            crate::amf0::lemma_props_view_index(info@);
            assert(props_view(info@) =~= connect_success_info());
        }
        let mut cmd = RtmpCommand::new("_result", transaction_id);
        cmd.command_object = Some(Amf0Value::Object(props));
        cmd.arguments.push(Amf0Value::Object(info));
        proof {
            crate::amf0::lemma_vals_view_index(cmd.arguments@);
            assert(crate::amf0::vals_view(cmd.arguments@) =~= seq![
                Amf0Term::Object(connect_success_info()),
            ]);
        }
        cmd
    } else {
        let mut error: Vec<(Vec<u8>, Amf0Value)> = Vec::new();
        error.push(("level".as_bytes_vec(), Amf0Value::String("error".as_bytes_vec())));
        error.push(
            (
                "code".as_bytes_vec(),
                Amf0Value::String("NetConnection.Connect.Rejected".as_bytes_vec()),
            ),
        );
        error.push(
            (
                "description".as_bytes_vec(),
                Amf0Value::String("Connection rejected".as_bytes_vec()),
            ),
        );
        proof {
            crate::amf0::lemma_props_view_index(error@);
            assert(props_view(error@) =~= connect_rejected_info());
        }
        RtmpCommand::error(transaction_id, Amf0Value::Object(error))
    }
}

/// The info object of an onStatus notification: level, code, description.
pub open spec fn status_info_of(level: Seq<u8>, code: Seq<u8>, description: Seq<u8>) -> Seq<
    (Seq<u8>, Amf0Term),
> {
    seq![
        ("level".spec_bytes(), Amf0Term::String(level)),
        ("code".spec_bytes(), Amf0Term::String(code)),
        ("description".spec_bytes(), Amf0Term::String(description)),
    ]
}

/// The encoded payload of an onStatus notification carrying one info
/// object with the level, code and description.
pub open spec fn on_status_payload(level: Seq<u8>, code: Seq<u8>, description: Seq<u8>) -> Seq<
    u8,
> {
    amf_enc(Amf0Term::String("onStatus".spec_bytes())) + amf_enc(Amf0Term::Number(0)) + amf_enc(
        Amf0Term::Null,
    ) + crate::amf0::vals_enc(seq![Amf0Term::Object(status_info_of(level, code, description))])
}

/// The encoded payload of a command: the name, the transaction id, the
/// command object (Null when absent), then the arguments.
pub open spec fn cmd_payload(cmd: RtmpCommand) -> Seq<u8> {
    amf_enc(Amf0Term::String(cmd.name@)) + amf_enc(Amf0Term::Number(cmd.transaction_id)) + amf_enc(
        match crate::command::opt_view(cmd.command_object) {
            Option::Some(o) => o,
            Option::None => Amf0Term::Null,
        },
    ) + crate::amf0::vals_enc(crate::amf0::vals_view(cmd.arguments@))
}

/// Whether a command fits the wire format and the 24-bit length field.
pub open spec fn cmd_fits(cmd: RtmpCommand) -> bool {
    &&& cmd.name@.len() <= 0xFFFF
    &&& (cmd.command_object matches Some(o) ==> amf_wf(amf_view(o)))
    &&& crate::amf0::vals_wf(crate::amf0::vals_view(cmd.arguments@))
    &&& cmd_payload(cmd).len() <= 0xFFFFFF
}

/// A status command's info object is well formed and its payload stays
/// far below the 24-bit length bound.
pub proof fn lemma_status_fits(level: Seq<u8>, code: Seq<u8>, description: Seq<u8>)
    requires
        level.len() <= 0xFFFF,
        code.len() <= 0xFFFF,
        description.len() <= 0xFFFF,
    ensures
        crate::amf0::vals_wf(seq![Amf0Term::Object(status_info_of(level, code, description))]),
        on_status_payload(level, code, description).len() <= 200 + level.len() + code.len()
            + description.len(),
        "onStatus".spec_bytes().len() == 8,
{
    reveal_strlit("level");
    reveal_strlit("code");
    reveal_strlit("description");
    reveal_strlit("onStatus");
    assert(vstd::utf8::is_ascii_chars("level"@));
    vstd::utf8::is_ascii_chars_encode_utf8("level"@);
    assert(vstd::utf8::is_ascii_chars("code"@));
    vstd::utf8::is_ascii_chars_encode_utf8("code"@);
    assert(vstd::utf8::is_ascii_chars("description"@));
    vstd::utf8::is_ascii_chars_encode_utf8("description"@);
    assert(vstd::utf8::is_ascii_chars("onStatus"@));
    vstd::utf8::is_ascii_chars_encode_utf8("onStatus"@);
    let info = status_info_of(level, code, description);
    let i1 = info.drop_first();
    let i2 = i1.drop_first();
    let i3 = i2.drop_first();
    assert(i1 =~= seq![
        ("code".spec_bytes(), Amf0Term::String(code)),
        ("description".spec_bytes(), Amf0Term::String(description)),
    ]);
    assert(i2 =~= seq![("description".spec_bytes(), Amf0Term::String(description))]);
    assert(i3 =~= Seq::<(Seq<u8>, Amf0Term)>::empty());
    assert(amf_wf(Amf0Term::String(level)));
    assert(amf_wf(Amf0Term::String(code)));
    assert(amf_wf(Amf0Term::String(description)));
    assert(crate::amf0::props_wf(i3));
    assert(crate::amf0::props_wf(i2));
    assert(crate::amf0::props_wf(i1));
    assert(crate::amf0::props_wf(info));
    crate::amf0::lemma_vals_wf_singleton(Amf0Term::Object(info));
    crate::amf0::lemma_vals_enc_singleton(Amf0Term::Object(info));
    assert(amf_enc(Amf0Term::String(level)).len() == 3 + level.len());
    assert(amf_enc(Amf0Term::String(code)).len() == 3 + code.len());
    assert(amf_enc(Amf0Term::String(description)).len() == 3 + description.len());
    assert(crate::amf0::props_enc(i3).len() == 0);
    assert(crate::amf0::props_enc(i2).len() <= 20 + description.len());
    assert(crate::amf0::props_enc(i1).len() <= 40 + code.len() + description.len());
    assert(crate::amf0::props_enc(info).len() <= 60 + level.len() + code.len()
        + description.len());
    assert(amf_enc(Amf0Term::Object(info)).len() == 4 + crate::amf0::props_enc(info).len());
    assert(amf_enc(Amf0Term::String("onStatus".spec_bytes())).len() == 11);
    assert(amf_enc(Amf0Term::Number(0)).len() == 9);
    assert(amf_enc(Amf0Term::Null).len() == 1);
    assert(on_status_payload(level, code, description).len() <= 200 + level.len() + code.len()
        + description.len());
}

/// Every level, code and description the handlers write fits a 16-bit
/// string length.
pub proof fn lemma_status_literals()
    ensures
        "status".spec_bytes().len() <= 0xFFFF,
        "error".spec_bytes().len() <= 0xFFFF,
        "NetStream.Publish.Start".spec_bytes().len() <= 0xFFFF,
        "Stream is now published".spec_bytes().len() <= 0xFFFF,
        "NetStream.Publish.BadName".spec_bytes().len() <= 0xFFFF,
        "Stream is already being published".spec_bytes().len() <= 0xFFFF,
        "NetStream.Play.Reset".spec_bytes().len() <= 0xFFFF,
        "Playing and resetting stream".spec_bytes().len() <= 0xFFFF,
        "NetStream.Play.Start".spec_bytes().len() <= 0xFFFF,
        "Started playing".spec_bytes().len() <= 0xFFFF,
        "NetStream.Data.Start".spec_bytes().len() <= 0xFFFF,
        "Data start".spec_bytes().len() <= 0xFFFF,
        "NetStream.Play.StreamNotFound".spec_bytes().len() <= 0xFFFF,
        "Stream not found".spec_bytes().len() <= 0xFFFF,
{
    reveal_strlit("status");
    assert(vstd::utf8::is_ascii_chars("status"@));
    vstd::utf8::is_ascii_chars_encode_utf8("status"@);
    reveal_strlit("error");
    assert(vstd::utf8::is_ascii_chars("error"@));
    vstd::utf8::is_ascii_chars_encode_utf8("error"@);
    reveal_strlit("NetStream.Publish.Start");
    assert(vstd::utf8::is_ascii_chars("NetStream.Publish.Start"@));
    vstd::utf8::is_ascii_chars_encode_utf8("NetStream.Publish.Start"@);
    reveal_strlit("Stream is now published");
    assert(vstd::utf8::is_ascii_chars("Stream is now published"@));
    vstd::utf8::is_ascii_chars_encode_utf8("Stream is now published"@);
    reveal_strlit("NetStream.Publish.BadName");
    assert(vstd::utf8::is_ascii_chars("NetStream.Publish.BadName"@));
    vstd::utf8::is_ascii_chars_encode_utf8("NetStream.Publish.BadName"@);
    reveal_strlit("Stream is already being published");
    assert(vstd::utf8::is_ascii_chars("Stream is already being published"@));
    vstd::utf8::is_ascii_chars_encode_utf8("Stream is already being published"@);
    reveal_strlit("NetStream.Play.Reset");
    assert(vstd::utf8::is_ascii_chars("NetStream.Play.Reset"@));
    vstd::utf8::is_ascii_chars_encode_utf8("NetStream.Play.Reset"@);
    reveal_strlit("Playing and resetting stream");
    assert(vstd::utf8::is_ascii_chars("Playing and resetting stream"@));
    vstd::utf8::is_ascii_chars_encode_utf8("Playing and resetting stream"@);
    reveal_strlit("NetStream.Play.Start");
    assert(vstd::utf8::is_ascii_chars("NetStream.Play.Start"@));
    vstd::utf8::is_ascii_chars_encode_utf8("NetStream.Play.Start"@);
    reveal_strlit("Started playing");
    assert(vstd::utf8::is_ascii_chars("Started playing"@));
    vstd::utf8::is_ascii_chars_encode_utf8("Started playing"@);
    reveal_strlit("NetStream.Data.Start");
    assert(vstd::utf8::is_ascii_chars("NetStream.Data.Start"@));
    vstd::utf8::is_ascii_chars_encode_utf8("NetStream.Data.Start"@);
    reveal_strlit("Data start");
    assert(vstd::utf8::is_ascii_chars("Data start"@));
    vstd::utf8::is_ascii_chars_encode_utf8("Data start"@);
    reveal_strlit("NetStream.Play.StreamNotFound");
    assert(vstd::utf8::is_ascii_chars("NetStream.Play.StreamNotFound"@));
    vstd::utf8::is_ascii_chars_encode_utf8("NetStream.Play.StreamNotFound"@);
    reveal_strlit("Stream not found");
    assert(vstd::utf8::is_ascii_chars("Stream not found"@));
    vstd::utf8::is_ascii_chars_encode_utf8("Stream not found"@);
}

/// Build a command packet on a stream from a command; the payload is
/// exactly the command's encoding.  Succeeds exactly when the command
/// fits the wire format and the 24-bit length field.
fn command_packet(cmd: &RtmpCommand, stream_id: u32) -> (r: Result<RtmpPacket, Error>)
    ensures
        r is Ok <==> cmd_fits(*cmd),
        r is Ok ==> r->Ok_0.header.message_type == MSG_TYPE_COMMAND_AMF0
            && r->Ok_0.header.message_stream_id == stream_id && r->Ok_0.header.timestamp == 0,
        r is Ok ==> r->Ok_0.wf() && r->Ok_0.payload@ == cmd_payload(*cmd),
        r is Err ==> r->Err_0 is AmfEncode,
{
    let bytes = match cmd.encode() {
        Ok(b) => b,
        Err(e) => {
            return Err(e);
        },
    };
    if bytes.len() > 0xFFFFFF {
        return Err(Error::amf_encode("Encoded command too long"));
    }
    let header = RtmpHeader::command(0, bytes.len() as u32, stream_id);
    Ok(RtmpPacket::new(header, bytes))
}

/// Handles connect: stores the peer's parameters, sends the bandwidth
/// settings and answers with the success result.
pub struct ConnectHandler {
    /// The object encoding the handler advertises: 0 for AMF0.
    pub object_encoding: u64,
}

impl ConnectHandler {
    /// A handler answering with AMF0 (object encoding 0).
    pub fn new() -> (r: ConnectHandler)
        ensures
            r.object_encoding == 0,
    {
        ConnectHandler { object_encoding: 0u64 }
    }

    /// Handle a connect command: reject one without an object carrying app
    /// and tcUrl; otherwise emit WindowAcknowledgementSize 2500000,
    /// SetPeerBandwidth (2500000, dynamic) and SetChunkSize 4096, then the
    /// success response, and record the new outgoing chunk size in the
    /// context.
    pub fn handle(&self, command: &RtmpCommand, context: &mut ConnectionContext) -> (r: Result<
        HandlerOutcome,
        Error,
    >)
        requires
            old(context).wf(),
        ensures
            final(context).wf(),
            final(context).props() == old(context).props(),
            final(context).id_view() == old(context).id_view(),
            r is Ok <==> (command.command_object matches Some(p) && connect_params_ok(
                amf_view(p),
            )),
            r is Ok ==> r->Ok_0.packets@.len() == 3,
            r is Ok ==> r->Ok_0.packets@[0]@ == control_packet(
                MSG_TYPE_WINDOW_ACK,
                be32_bytes(2500000),
            ),
            r is Ok ==> r->Ok_0.packets@[1]@ == control_packet(
                MSG_TYPE_SET_PEER_BW,
                be32_bytes(2500000).push(2),
            ),
            r is Ok ==> r->Ok_0.packets@[2]@ == control_packet(
                MSG_TYPE_SET_CHUNK_SIZE,
                be32_bytes(4096),
            ),
            r is Ok ==> (r->Ok_0.response matches Some(p) && p.wf() && p.header.message_type
                == MSG_TYPE_COMMAND_AMF0 && p.header.message_stream_id == 0 && p.payload@
                == connect_response_payload(command.transaction_id)),
            r is Err ==> (r->Err_0 is Protocol && *final(context) == *old(context)),
    {
        let params = match &command.command_object {
            Some(p) => p,
            None => {
                return Err(Error::protocol("Missing connect parameters"));
            },
        };
        match validate_connect_params(params) {
            Ok(()) => (),
            Err(e) => {
                return Err(e);
            },
        }
        let mut packets: Vec<RtmpPacket> = Vec::new();
        let p0 = create_window_ack_packet(2500000);
        let p1 = create_peer_bandwidth_packet(2500000, 2);
        let p2 = create_chunk_size_packet(4096);
        packets.push(p0);
        packets.push(p1);
        packets.push(p2);
        context.set_chunk_size_out(4096);
        let response_cmd = generate_connect_response(true, command.transaction_id);
        proof {
            lemma_connect_response_fits();
            assert(cmd_payload(response_cmd).len() <= 0xFFFFFF);
            assert(cmd_fits(response_cmd));
        }
        let response = match command_packet(&response_cmd, 0) {
            Ok(p) => p,
            Err(e) => {
                return Err(e);
            },
        };
        Ok(HandlerOutcome { packets, response: Some(response) })
    }
}

/// The encoded payload of the successful connect response: a _result under
/// the peer's transaction id carrying the server properties and the
/// Connect.Success info object.
pub open spec fn connect_response_payload(tid: u64) -> Seq<u8> {
    amf_enc(Amf0Term::String("_result".spec_bytes())) + amf_enc(Amf0Term::Number(tid)) + amf_enc(
        Amf0Term::Object(connect_success_props()),
    ) + crate::amf0::vals_enc(seq![Amf0Term::Object(connect_success_info())])
}

/// The connect response fits the wire format and stays far below the
/// 24-bit length bound.
pub proof fn lemma_connect_response_fits()
    ensures
        amf_wf(Amf0Term::Object(connect_success_props())),
        crate::amf0::vals_wf(seq![Amf0Term::Object(connect_success_info())]),
        amf_enc(Amf0Term::Object(connect_success_props())).len() <= 200,
        crate::amf0::vals_enc(seq![Amf0Term::Object(connect_success_info())]).len() <= 200,
        "_result".spec_bytes().len() == 7,
{
    reveal_strlit("fmsVer");
    assert(vstd::utf8::is_ascii_chars("fmsVer"@));
    vstd::utf8::is_ascii_chars_encode_utf8("fmsVer"@);
    reveal_strlit("FMS/3,5,5,2004");
    assert(vstd::utf8::is_ascii_chars("FMS/3,5,5,2004"@));
    vstd::utf8::is_ascii_chars_encode_utf8("FMS/3,5,5,2004"@);
    reveal_strlit("capabilities");
    assert(vstd::utf8::is_ascii_chars("capabilities"@));
    vstd::utf8::is_ascii_chars_encode_utf8("capabilities"@);
    reveal_strlit("mode");
    assert(vstd::utf8::is_ascii_chars("mode"@));
    vstd::utf8::is_ascii_chars_encode_utf8("mode"@);
    reveal_strlit("level");
    assert(vstd::utf8::is_ascii_chars("level"@));
    vstd::utf8::is_ascii_chars_encode_utf8("level"@);
    reveal_strlit("status");
    assert(vstd::utf8::is_ascii_chars("status"@));
    vstd::utf8::is_ascii_chars_encode_utf8("status"@);
    reveal_strlit("code");
    assert(vstd::utf8::is_ascii_chars("code"@));
    vstd::utf8::is_ascii_chars_encode_utf8("code"@);
    reveal_strlit("NetConnection.Connect.Success");
    assert(vstd::utf8::is_ascii_chars("NetConnection.Connect.Success"@));
    vstd::utf8::is_ascii_chars_encode_utf8("NetConnection.Connect.Success"@);
    reveal_strlit("description");
    assert(vstd::utf8::is_ascii_chars("description"@));
    vstd::utf8::is_ascii_chars_encode_utf8("description"@);
    reveal_strlit("Connection succeeded");
    assert(vstd::utf8::is_ascii_chars("Connection succeeded"@));
    vstd::utf8::is_ascii_chars_encode_utf8("Connection succeeded"@);
    reveal_strlit("objectEncoding");
    assert(vstd::utf8::is_ascii_chars("objectEncoding"@));
    vstd::utf8::is_ascii_chars_encode_utf8("objectEncoding"@);
    reveal_strlit("_result");
    assert("_result"@.len() == 7);
    assert(vstd::utf8::is_ascii_chars("_result"@));
    vstd::utf8::is_ascii_chars_encode_utf8("_result"@);
    let props = connect_success_props();
    let p1 = props.drop_first();
    let p2 = p1.drop_first();
    let p3 = p2.drop_first();
    assert(p1 =~= seq![
        ("capabilities".spec_bytes(), Amf0Term::Number(CAPABILITIES_BITS)),
        ("mode".spec_bytes(), Amf0Term::Number(MODE_ONE_BITS)),
    ]);
    assert(p2 =~= seq![("mode".spec_bytes(), Amf0Term::Number(MODE_ONE_BITS))]);
    assert(p3 =~= Seq::<(Seq<u8>, Amf0Term)>::empty());
    assert(amf_wf(Amf0Term::String("FMS/3,5,5,2004".spec_bytes())));
    assert(amf_wf(Amf0Term::Number(CAPABILITIES_BITS)));
    assert(amf_wf(Amf0Term::Number(MODE_ONE_BITS)));
    assert(crate::amf0::props_wf(p3));
    assert(crate::amf0::props_wf(p2));
    assert(crate::amf0::props_wf(p1));
    assert(crate::amf0::props_wf(props));
    assert(amf_enc(Amf0Term::String("FMS/3,5,5,2004".spec_bytes())).len() == 17);
    assert(amf_enc(Amf0Term::Number(CAPABILITIES_BITS)).len() == 9);
    assert(amf_enc(Amf0Term::Number(MODE_ONE_BITS)).len() == 9);
    assert(crate::amf0::props_enc(p3).len() == 0);
    assert(crate::amf0::props_enc(p2).len() <= 30);
    assert(crate::amf0::props_enc(p1).len() <= 60);
    assert(crate::amf0::props_enc(props).len() <= 90);
    assert(amf_enc(Amf0Term::Object(props)).len() == 4 + crate::amf0::props_enc(props).len());
    let info = connect_success_info();
    let q1 = info.drop_first();
    let q2 = q1.drop_first();
    let q3 = q2.drop_first();
    let q4 = q3.drop_first();
    assert(q1 =~= seq![
        ("code".spec_bytes(), Amf0Term::String("NetConnection.Connect.Success".spec_bytes())),
        ("description".spec_bytes(), Amf0Term::String("Connection succeeded".spec_bytes())),
        ("objectEncoding".spec_bytes(), Amf0Term::Number(0)),
    ]);
    assert(q2 =~= seq![
        ("description".spec_bytes(), Amf0Term::String("Connection succeeded".spec_bytes())),
        ("objectEncoding".spec_bytes(), Amf0Term::Number(0)),
    ]);
    assert(q3 =~= seq![("objectEncoding".spec_bytes(), Amf0Term::Number(0))]);
    assert(q4 =~= Seq::<(Seq<u8>, Amf0Term)>::empty());
    assert(amf_wf(Amf0Term::String("status".spec_bytes())));
    assert(amf_wf(Amf0Term::String("NetConnection.Connect.Success".spec_bytes())));
    assert(amf_wf(Amf0Term::String("Connection succeeded".spec_bytes())));
    assert(amf_wf(Amf0Term::Number(0)));
    assert(crate::amf0::props_wf(q4));
    assert(crate::amf0::props_wf(q3));
    assert(crate::amf0::props_wf(q2));
    assert(crate::amf0::props_wf(q1));
    assert(crate::amf0::props_wf(info));
    crate::amf0::lemma_vals_wf_singleton(Amf0Term::Object(info));
    crate::amf0::lemma_vals_enc_singleton(Amf0Term::Object(info));
    assert(amf_enc(Amf0Term::String("status".spec_bytes())).len() == 9);
    assert(amf_enc(Amf0Term::String("NetConnection.Connect.Success".spec_bytes())).len() == 32);
    assert(amf_enc(Amf0Term::String("Connection succeeded".spec_bytes())).len() == 23);
    assert(amf_enc(Amf0Term::Number(0)).len() == 9);
    assert(crate::amf0::props_enc(q4).len() == 0);
    assert(q3[0].0 == "objectEncoding".spec_bytes());
    assert(q3[0].0.len() <= 20);
    assert(q3[0].1 == Amf0Term::Number(0));
    assert(amf_enc(q3[0].1).len() == 9);
    assert(crate::amf0::props_enc(q3) == crate::buffer::be16_bytes(q3[0].0.len() as u16) + q3[0].0
        + amf_enc(q3[0].1) + crate::amf0::props_enc(q4));
    assert(crate::amf0::props_enc(q3).len() <= 31);
    assert(crate::amf0::props_enc(q2).len() <= 70);
    assert(crate::amf0::props_enc(q1).len() <= 110);
    assert(crate::amf0::props_enc(info).len() <= 130);
    assert(amf_enc(Amf0Term::Object(info)).len() == 4 + crate::amf0::props_enc(info).len());
    assert(crate::amf0::vals_enc(seq![Amf0Term::Object(connect_success_info())]).len() <= 200);
}

/// Handles createStream: allocates fresh, monotonically increasing stream
/// ids, starting at 1.
pub struct CreateStreamHandler {
    next_stream_id: u32,
}

impl CreateStreamHandler {
    /// Ids start at 1; 0 is the command stream.
    pub fn new() -> (r: CreateStreamHandler)
        ensures
            r.next_id() == 1,
    {
        CreateStreamHandler { next_stream_id: 1 }
    }

    /// The id the next createStream receives.
    pub closed spec fn next_id(self) -> int {
        self.next_stream_id as int
    }

    /// The id the next createStream receives, so a caller can test that
    /// the counter has room.
    pub fn next_id_value(&self) -> (r: u32)
        ensures
            r == self.next_id(),
    {
        self.next_stream_id
    }

    /// Handle a createStream command: allocate the next id and answer with
    /// a _result echoing the transaction id and carrying the id as a
    /// number.
    pub fn handle(&mut self, command: &RtmpCommand) -> (r: Result<(u32, RtmpPacket), Error>)
        requires
            old(self).next_id() < u32::MAX,
        ensures
            r is Ok,
            final(self).next_id() == old(self).next_id() + 1,
            r is Ok ==> {
                &&& r->Ok_0.0 == old(self).next_id()
                &&& r->Ok_0.1.wf()
                &&& r->Ok_0.1.header.message_type == MSG_TYPE_COMMAND_AMF0
                &&& r->Ok_0.1.header.message_stream_id == 0
                &&& r->Ok_0.1.payload@ == amf_enc(Amf0Term::String("_result".spec_bytes()))
                    + amf_enc(Amf0Term::Number(command.transaction_id)) + amf_enc(Amf0Term::Null)
                    + crate::amf0::vals_enc(
                    seq![Amf0Term::Number(number_bits_spec(r->Ok_0.0 as u32))],
                )
            },
    {
        let stream_id = self.next_stream_id;
        self.next_stream_id = self.next_stream_id + 1;
        let response_cmd = RtmpCommand::result(
            command.transaction_id,
            Amf0Value::Number(number_bits_of_u32(stream_id)),
        );
        proof {
            lemma_connect_response_fits();
            crate::amf0::lemma_vals_wf_singleton(Amf0Term::Number(number_bits_spec(stream_id)));
            crate::amf0::lemma_vals_enc_singleton(Amf0Term::Number(number_bits_spec(stream_id)));
            assert(cmd_fits(response_cmd));
        }
        let response = match command_packet(&response_cmd, 0) {
            Ok(p) => p,
            Err(e) => {
                return Err(e);
            },
        };
        Ok((stream_id, response))
    }
}

/// The position of the highest set bit of a positive number.
pub open spec fn msb_of(v: int) -> nat
    decreases v,
{
    if v < 2 {
        0
    } else {
        1 + msb_of(v / 2)
    }
}

/// Only the highest set bit's power of two brackets a number this way.
proof fn lemma_msb_unique(v: int, e: nat)
    requires
        v >= 1,
        pow2(e) <= v < 2 * pow2(e),
    ensures
        msb_of(v) == e,
    decreases e,
{
    vstd::arithmetic::power2::lemma2_to64();
    vstd::arithmetic::power2::lemma_pow2_pos(e);
    if e == 0 {
        assert(pow2(0) == 1);
        assert(v == 1);
    } else {
        vstd::arithmetic::power2::lemma_pow2_unfold(e);
        assert(pow2((e - 1) as nat) <= v / 2 < 2 * pow2((e - 1) as nat)) by {
            assert(v == 2 * (v / 2) + v % 2);
        }
        lemma_msb_unique(v / 2, (e - 1) as nat);
        assert(msb_of(v) == 1 + msb_of(v / 2));
    }
}

/// The IEEE-754 double bit pattern of a small non-negative integer: zero
/// encodes as zero; a positive id with highest set bit e carries the
/// biased exponent 1023 + e and the remaining bits left-aligned in the
/// 52-bit mantissa.
pub open spec fn number_bits_spec(id: u32) -> u64 {
    if id == 0 {
        0u64
    } else {
        let e = msb_of(id as int);
        ((1023 + e) * 0x10000000000000 + (id - pow2(e)) * pow2((52 - e) as nat)) as u64
    }
}

/// The bit pattern of a stream id as a wire number; built from the double
/// format directly, with no float arithmetic.
fn number_bits_of_u32(id: u32) -> (r: u64)
    ensures
        r == number_bits_spec(id),
{
    if id == 0 {
        return 0;
    }
    let ghost ghost_id = id as int;
    let mut e: u32 = 0;
    let mut p: u64 = 1;
    proof {
        assert(pow2(0) == 1) by {
            vstd::arithmetic::power2::lemma2_to64();
        }
    }
    while (id as u64) >= p * 2
        invariant
            1 <= id,
            1 <= p <= id,
            p == pow2(e as nat),
            e <= 31,
        decreases id - p,
    {
        proof {
            vstd::arithmetic::power2::lemma2_to64();
            vstd::arithmetic::power2::lemma_pow2_unfold((e + 1) as nat);
            if e + 1 >= 32 {
                assert(pow2((e + 1) as nat) >= 0x100000000);
                assert(false);
            }
        }
        p = p * 2;
        e = e + 1;
    }
    proof {
        lemma_msb_unique(id as int, e as nat);
        vstd::arithmetic::power2::lemma2_to64();
        assert(pow2(0) == 1);
    }
    // The mantissa: the bits below the leading one, left-aligned to 52.
    let mut frac: u64 = id as u64 - p;
    let mut k: u32 = e;
    proof {
        assert(frac == id - pow2(e as nat));
        assert(pow2(((k - e) as nat)) == 1);
        assert(frac == (id - pow2(e as nat)) * pow2(((k - e) as nat)));
    }
    while k < 52
        invariant
            e <= k <= 52,
            e <= 31,
            frac == (id - pow2(e as nat)) * pow2((k - e) as nat),
            frac < pow2(k as nat),
        decreases 52 - k,
    {
        proof {
            vstd::arithmetic::power2::lemma_pow2_unfold((k + 1) as nat);
            vstd::arithmetic::power2::lemma_pow2_unfold(((k + 1) - e) as nat);
            vstd::arithmetic::power2::lemma2_to64_rest();
            vstd::arithmetic::power2::lemma_pow2_strictly_increases(k as nat, 52);
            assert(pow2(52) == 0x10000000000000);
            assert(frac * 2 == (id - pow2(e as nat)) * (2 * pow2((k - e) as nat)))
                by (nonlinear_arith)
                requires
                    frac == (id - pow2(e as nat)) * pow2((k - e) as nat),
            ;
        }
        frac = frac * 2;
        k = k + 1;
    }
    proof {
        vstd::arithmetic::power2::lemma2_to64_rest();
        assert(pow2(52) == 0x10000000000000);
        assert(frac < 0x10000000000000);
        assert(frac == (id - pow2(e as nat)) * pow2((52 - e) as nat));
    }
    (1023 + e as u64) * 0x10000000000000 + frac
}

/// Handles publish: enforces the exactly-one-publisher rule through the
/// registry.
pub struct PublishHandler;

impl PublishHandler {
    /// A stateless handler.
    pub fn new() -> (r: PublishHandler) {
        PublishHandler
    }

    /// Handle a publish command for a stream name on a stream id.  A free
    /// name is registered to this connection and stream and answered with
    /// StreamBegin and onStatus NetStream.Publish.Start; a name already
    /// owned is left alone and answered with onStatus
    /// NetStream.Publish.BadName alone, with no StreamBegin.
    pub fn handle(
        &self,
        stream_name: &str,
        stream_id: u32,
        connection_id: &str,
        registry: &mut PublisherRegistry,
    ) -> (r: Result<(bool, HandlerOutcome), Error>)
        requires
            old(registry).wf(),
        ensures
            final(registry).wf(),
            r is Ok,
            r is Ok ==> (r->Ok_0.0 <==> !has_name(old(registry).view_seq(), stream_name@)),
            r is Ok && r->Ok_0.0 ==> {
                &&& final(registry).view_seq().len() == old(registry).view_seq().len() + 1
                &&& final(registry).view_seq().take(old(registry).view_seq().len() as int)
                    == old(registry).view_seq()
                &&& final(registry).view_seq().last().stream_name@ == stream_name@
                &&& final(registry).view_seq().last().connection_id@ == connection_id@
                &&& final(registry).view_seq().last().stream_id == stream_id
                &&& final(registry).view_seq().last().subscriber_count == 0
                &&& has_name(final(registry).view_seq(), stream_name@)
                &&& r->Ok_0.1.packets@.len() == 1
                &&& r->Ok_0.1.packets@[0]@ == control_packet(
                    MSG_TYPE_USER_CONTROL,
                    seq![0u8, 0u8] + be32_bytes(stream_id),
                )
            },
            r is Ok && !r->Ok_0.0 ==> final(registry).view_seq() == old(registry).view_seq()
                && r->Ok_0.1.packets@.len() == 0,
            r is Ok && r->Ok_0.0 ==> (r->Ok_0.1.response matches Some(p) && p.wf()
                && p.header.message_type == MSG_TYPE_COMMAND_AMF0 && p.header.message_stream_id
                == stream_id && p.payload@ == on_status_payload(
                "status".spec_bytes(),
                "NetStream.Publish.Start".spec_bytes(),
                "Stream is now published".spec_bytes(),
            )),
            r is Ok && !r->Ok_0.0 ==> (r->Ok_0.1.response matches Some(p) && p.wf()
                && p.header.message_type == MSG_TYPE_COMMAND_AMF0 && p.header.message_stream_id
                == stream_id && p.payload@ == on_status_payload(
                "status".spec_bytes(),
                "NetStream.Publish.BadName".spec_bytes(),
                "Stream is already being published".spec_bytes(),
            )),
    {
        if registry.is_publishing(stream_name) {
            let status = RtmpCommand::on_status(
                "status",
                "NetStream.Publish.BadName",
                "Stream is already being published",
            );
            proof {
                lemma_status_literals();
                lemma_status_fits(
                    "status".spec_bytes(),
                    "NetStream.Publish.BadName".spec_bytes(),
                    "Stream is already being published".spec_bytes(),
                );
                assert(cmd_payload(status) == on_status_payload(
                    "status".spec_bytes(),
                    "NetStream.Publish.BadName".spec_bytes(),
                    "Stream is already being published".spec_bytes(),
                ));
                assert(cmd_fits(status));
            }
            let response = match command_packet(&status, stream_id) {
                Ok(p) => p,
                Err(e) => {
                    return Err(e);
                },
            };
            return Ok(
                (false, HandlerOutcome { packets: Vec::new(), response: Some(response) }),
            );
        }
        match registry.register(stream_name.to_owned(), connection_id.to_owned(), stream_id) {
            Ok(()) => (),
            Err(_) => {
                return Err(Error::amf_encode("Registry refused a free name"));
            },
        }
        let mut packets: Vec<RtmpPacket> = Vec::new();
        packets.push(create_stream_begin_packet(stream_id));
        let status = RtmpCommand::on_status(
            "status",
            "NetStream.Publish.Start",
            "Stream is now published",
        );
        proof {
            lemma_status_literals();
            lemma_status_fits(
                "status".spec_bytes(),
                "NetStream.Publish.Start".spec_bytes(),
                "Stream is now published".spec_bytes(),
            );
            assert(cmd_payload(status) == on_status_payload(
                "status".spec_bytes(),
                "NetStream.Publish.Start".spec_bytes(),
                "Stream is now published".spec_bytes(),
            ));
            assert(cmd_fits(status));
        }
        let response = match command_packet(&status, stream_id) {
            Ok(p) => p,
            Err(e) => {
                return Err(e);
            },
        };
        Ok((true, HandlerOutcome { packets, response: Some(response) }))
    }
}

/// The encoded payload of the |RtmpSampleAccess data message granting
/// audio and video access.
pub open spec fn sample_access_payload() -> Seq<u8> {
    amf_enc(Amf0Term::String("|RtmpSampleAccess".spec_bytes())) + crate::amf0::vals_enc(
        seq![Amf0Term::Boolean(true), Amf0Term::Boolean(true)],
    )
}

/// The playback start sequence on a stream: StreamBegin, onStatus
/// Play.Reset, onStatus Play.Start, the |RtmpSampleAccess data message,
/// then onStatus Data.Start as a data message, in that order.
pub open spec fn play_start_sequence_ok(ps: Seq<RtmpPacket>, stream_id: u32) -> bool {
    &&& ps.len() == 5
    &&& ps[0]@ == control_packet(MSG_TYPE_USER_CONTROL, seq![0u8, 0u8] + be32_bytes(stream_id))
    &&& ps[1].wf()
    &&& ps[1].header.message_type == MSG_TYPE_COMMAND_AMF0
    &&& ps[1].header.message_stream_id == stream_id
    &&& ps[1].payload@ == on_status_payload(
        "status".spec_bytes(),
        "NetStream.Play.Reset".spec_bytes(),
        "Playing and resetting stream".spec_bytes(),
    )
    &&& ps[2].wf()
    &&& ps[2].header.message_type == MSG_TYPE_COMMAND_AMF0
    &&& ps[2].header.message_stream_id == stream_id
    &&& ps[2].payload@ == on_status_payload(
        "status".spec_bytes(),
        "NetStream.Play.Start".spec_bytes(),
        "Started playing".spec_bytes(),
    )
    &&& ps[3].wf()
    &&& ps[3].header.message_type == MSG_TYPE_DATA_AMF0
    &&& ps[3].header.message_stream_id == stream_id
    &&& ps[3].payload@ == sample_access_payload()
    &&& ps[4].wf()
    &&& ps[4].header.message_type == MSG_TYPE_DATA_AMF0
    &&& ps[4].header.message_stream_id == stream_id
    &&& ps[4].payload@ == on_status_payload(
        "status".spec_bytes(),
        "NetStream.Data.Start".spec_bytes(),
        "Data start".spec_bytes(),
    )
}

/// Handles play: looks the publisher up and emits the start sequence.
pub struct PlayHandler;

impl PlayHandler {
    /// A stateless handler.
    pub fn new() -> (r: PlayHandler) {
        PlayHandler
    }

    /// The packets that start a playback session: StreamBegin, onStatus
    /// Play.Reset, onStatus Play.Start, the |RtmpSampleAccess data
    /// message, and onStatus Data.Start, in that order.
    pub fn create_play_status_messages(&self, stream_id: u32) -> (r: Result<
        Vec<RtmpPacket>,
        Error,
    >)
        ensures
            r is Ok,
            r is Ok ==> play_start_sequence_ok(r->Ok_0@, stream_id),
    {
        let mut packets: Vec<RtmpPacket> = Vec::new();
        packets.push(create_stream_begin_packet(stream_id));
        let reset = RtmpCommand::on_status(
            "status",
            "NetStream.Play.Reset",
            "Playing and resetting stream",
        );
        proof {
            lemma_status_literals();
            lemma_status_fits(
                "status".spec_bytes(),
                "NetStream.Play.Reset".spec_bytes(),
                "Playing and resetting stream".spec_bytes(),
            );
            assert(cmd_fits(reset));
        }
        match command_packet(&reset, stream_id) {
            Ok(p) => packets.push(p),
            Err(e) => {
                return Err(e);
            },
        }
        let start = RtmpCommand::on_status("status", "NetStream.Play.Start", "Started playing");
        proof {
            lemma_status_literals();
            lemma_status_fits(
                "status".spec_bytes(),
                "NetStream.Play.Start".spec_bytes(),
                "Started playing".spec_bytes(),
            );
            assert(cmd_fits(start));
        }
        match command_packet(&start, stream_id) {
            Ok(p) => packets.push(p),
            Err(e) => {
                return Err(e);
            },
        }
        match sample_access_packet(stream_id) {
            Ok(p) => packets.push(p),
            Err(e) => {
                return Err(e);
            },
        }
        let data_start = RtmpCommand::on_status("status", "NetStream.Data.Start", "Data start");
        proof {
            lemma_status_literals();
            lemma_status_fits(
                "status".spec_bytes(),
                "NetStream.Data.Start".spec_bytes(),
                "Data start".spec_bytes(),
            );
            assert(cmd_fits(data_start));
        }
        match data_packet_of_command(&data_start, stream_id) {
            Ok(p) => packets.push(p),
            Err(e) => {
                return Err(e);
            },
        }
        Ok(packets)
    }

    /// Handle a play command for a stream name on a stream id.  A missing
    /// publisher is answered with onStatus NetStream.Play.StreamNotFound
    /// and nothing changes; a present one gains a subscriber and the start
    /// sequence comes back with no command response.
    pub fn handle(
        &self,
        stream_name: &str,
        stream_id: u32,
        registry: &mut PublisherRegistry,
    ) -> (r: Result<(bool, HandlerOutcome), Error>)
        requires
            old(registry).wf(),
        ensures
            final(registry).wf(),
            r is Ok,
            r is Ok ==> (r->Ok_0.0 <==> has_name(old(registry).view_seq(), stream_name@)),
            r is Ok && r->Ok_0.0 ==> {
                &&& final(registry).view_seq().len() == old(registry).view_seq().len()
                &&& final(registry).view_seq()[name_idx(old(registry).view_seq(), stream_name@)]
                    .subscriber_count == (old(registry).view_seq()[name_idx(
                    old(registry).view_seq(),
                    stream_name@,
                )].subscriber_count + 1) % (usize::MAX as int + 1)
                &&& forall|i: int|
                    0 <= i < old(registry).view_seq().len() && i != name_idx(
                        old(registry).view_seq(),
                        stream_name@,
                    ) ==> final(registry).view_seq()[i] == old(registry).view_seq()[i]
                &&& play_start_sequence_ok(r->Ok_0.1.packets@, stream_id)
                &&& r->Ok_0.1.response is None
            },
            r is Ok && !r->Ok_0.0 ==> {
                &&& final(registry).view_seq() == old(registry).view_seq()
                &&& r->Ok_0.1.packets@.len() == 0
                &&& (r->Ok_0.1.response matches Some(p) && p.wf() && p.header.message_type
                    == MSG_TYPE_COMMAND_AMF0 && p.header.message_stream_id == stream_id
                    && p.payload@ == on_status_payload(
                    "error".spec_bytes(),
                    "NetStream.Play.StreamNotFound".spec_bytes(),
                    "Stream not found".spec_bytes(),
                ))
            },
    {
        if !registry.is_publishing(stream_name) {
            let status = RtmpCommand::on_status(
                "error",
                "NetStream.Play.StreamNotFound",
                "Stream not found",
            );
            proof {
                lemma_status_literals();
                lemma_status_fits(
                    "error".spec_bytes(),
                    "NetStream.Play.StreamNotFound".spec_bytes(),
                    "Stream not found".spec_bytes(),
                );
                assert(cmd_fits(status));
            }
            let response = match command_packet(&status, stream_id) {
                Ok(p) => p,
                Err(e) => {
                    return Err(e);
                },
            };
            return Ok(
                (false, HandlerOutcome { packets: Vec::new(), response: Some(response) }),
            );
        }
        match registry.increment_subscribers(stream_name) {
            Ok(()) => (),
            Err(_) => {
                return Err(Error::amf_encode("Registry lost a present name"));
            },
        }
        let packets = match self.create_play_status_messages(stream_id) {
            Ok(ps) => ps,
            Err(e) => {
                return Err(e);
            },
        };
        Ok((true, HandlerOutcome { packets, response: None }))
    }
}

/// The |RtmpSampleAccess data message granting audio and video access.
fn sample_access_packet(stream_id: u32) -> (r: Result<RtmpPacket, Error>)
    ensures
        r is Ok,
        r is Ok ==> r->Ok_0.wf() && r->Ok_0.header.message_type == MSG_TYPE_DATA_AMF0
            && r->Ok_0.header.message_stream_id == stream_id && r->Ok_0.payload@
            == sample_access_payload(),
{
    let mut data = RtmpData::new("|RtmpSampleAccess");
    data.values.push(Amf0Value::Boolean(true));
    data.values.push(Amf0Value::Boolean(true));
    proof {
        reveal_strlit("|RtmpSampleAccess");
        assert(vstd::utf8::is_ascii_chars("|RtmpSampleAccess"@));
        vstd::utf8::is_ascii_chars_encode_utf8("|RtmpSampleAccess"@);
        crate::amf0::lemma_vals_view_index(data.values@);
        assert(crate::amf0::vals_view(data.values@) =~= seq![
            Amf0Term::Boolean(true),
            Amf0Term::Boolean(true),
        ]);
        let vs = seq![Amf0Term::Boolean(true), Amf0Term::Boolean(true)];
        let v1 = vs.drop_first();
        let v2 = v1.drop_first();
        assert(v1 =~= seq![Amf0Term::Boolean(true)]);
        assert(v2 =~= Seq::<Amf0Term>::empty());
        assert(crate::amf0::vals_wf(v2));
        assert(amf_wf(Amf0Term::Boolean(true)));
        assert(crate::amf0::vals_wf(v1));
        assert(crate::amf0::vals_wf(vs));
        assert(amf_enc(Amf0Term::Boolean(true)).len() == 2);
        assert(crate::amf0::vals_enc(v2).len() == 0);
        assert(crate::amf0::vals_enc(v1).len() == 2);
        assert(crate::amf0::vals_enc(vs).len() == 4);
    }
    let bytes = match data.encode() {
        Ok(b) => b,
        Err(e) => {
            return Err(e);
        },
    };
    if bytes.len() > 0xFFFFFF {
        return Err(Error::amf_encode("Encoded data message too long"));
    }
    let header = RtmpHeader::data(0, bytes.len() as u32, stream_id);
    Ok(RtmpPacket::new(header, bytes))
}

/// An onStatus carried as a data message, as the playback start sequence
/// ends with.  Succeeds exactly when the command fits the wire format and
/// the 24-bit length field.
fn data_packet_of_command(cmd: &RtmpCommand, stream_id: u32) -> (r: Result<RtmpPacket, Error>)
    ensures
        r is Ok <==> cmd_fits(*cmd),
        r is Ok ==> r->Ok_0.wf() && r->Ok_0.header.message_type == MSG_TYPE_DATA_AMF0
            && r->Ok_0.header.message_stream_id == stream_id && r->Ok_0.payload@ == cmd_payload(
            *cmd,
        ),
        r is Err ==> r->Err_0 is AmfEncode,
{
    let bytes = match cmd.encode() {
        Ok(b) => b,
        Err(e) => {
            return Err(e);
        },
    };
    if bytes.len() > 0xFFFFFF {
        return Err(Error::amf_encode("Encoded data message too long"));
    }
    let header = RtmpHeader::data(0, bytes.len() as u32, stream_id);
    Ok(RtmpPacket::new(header, bytes))
}

/// Handles deleteStream: unwinds whatever the connection was doing.
pub struct DeleteStreamHandler;

impl DeleteStreamHandler {
    /// A stateless handler.
    pub fn new() -> (r: DeleteStreamHandler) {
        DeleteStreamHandler
    }

    /// Handle a deleteStream for a stream name: a publishing connection
    /// gives the name up; a playing one drops its subscription, its
    /// publisher's subscriber count falling by one.  No response is owed.
    pub fn handle(
        &self,
        stream_name: &str,
        is_publishing: bool,
        is_playing: bool,
        registry: &mut PublisherRegistry,
    ) -> (r: Result<(), Error>)
        requires
            old(registry).wf(),
        ensures
            final(registry).wf(),
            is_publishing && has_name(old(registry).view_seq(), stream_name@) ==> !has_name(
                final(registry).view_seq(),
                stream_name@,
            ),
            is_publishing && has_name(old(registry).view_seq(), stream_name@) ==> final(registry).view_seq() == old(registry).view_seq().remove(
                name_idx(old(registry).view_seq(), stream_name@),
            ),
            (!is_publishing && is_playing && has_name(old(registry).view_seq(), stream_name@))
                ==> {
                &&& final(registry).view_seq().len() == old(registry).view_seq().len()
                &&& final(registry).view_seq()[name_idx(old(registry).view_seq(), stream_name@)]
                    .subscriber_count == (if old(registry).view_seq()[name_idx(
                    old(registry).view_seq(),
                    stream_name@,
                )].subscriber_count > 0 {
                    old(registry).view_seq()[name_idx(old(registry).view_seq(), stream_name@)]
                        .subscriber_count - 1
                } else {
                    0int
                })
                &&& forall|i: int|
                    0 <= i < old(registry).view_seq().len() && i != name_idx(
                        old(registry).view_seq(),
                        stream_name@,
                    ) ==> final(registry).view_seq()[i] == old(registry).view_seq()[i]
            },
            !has_name(old(registry).view_seq(), stream_name@) ==> final(registry).view_seq()
                == old(registry).view_seq(),
            !is_publishing && !is_playing ==> final(registry).view_seq() == old(
                registry,
            ).view_seq(),
            r is Ok,
    {
        if is_publishing {
            let _ = registry.unregister(stream_name);
        }
        if is_playing {
            let _ = registry.decrement_subscribers(stream_name);
        }
        Ok(())
    }
}

} // verus!
