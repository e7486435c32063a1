//! The client side: the rtmp URL's parts, and the session that orders
//! connect, createStream, publish and play and numbers their transactions.

use vstd::prelude::*;
use vstd::string::{StrSliceExecFns, StringExecFns, StringSliceAdditionalSpecFns};
use crate::client_config::{ClientConfig, ClientState};
use crate::packet::{RtmpPacket, make_audio_packet, make_video_packet};
use crate::error::Error;

verus! {

broadcast use vstd::std_specs::vec::axiom_spec_len;

/// The parts of an rtmp URL the client needs.
#[derive(Debug)]
pub struct UrlParts {
    /// The host to dial.
    pub host: String,
    /// The port; 1935 when the URL named none.
    pub port: u16,
    /// The application name: the first path segment, "live" when absent.
    pub app: String,
    /// The stream name: the second path segment, when one is given.
    pub stream: Option<String>,
}

/// What the URL grammar makes of a text: the scheme and host characters,
/// the port (0 when the URL names none), and the path's bytes; nothing
/// when the text is no URL.  The parse depends on the text alone.
pub uninterp spec fn url_parts_of(s: Seq<char>) -> Option<(Seq<char>, Seq<char>, u16, Seq<u8>)>;

/// Relies on url::Url::parse for the grammar: the scheme, host, port and
/// path of the parsed URL, or nothing when the text is no URL.  The parse
/// depends on the text alone, so its outcome carries the name
/// url_parts_of.
#[verifier::external_body]
fn parse_url_raw(url: &str) -> (r: Option<(String, String, u16, String)>)
    ensures
        r is Some <==> url_parts_of(url@) is Some,
        r matches Some(p) ==> url_parts_of(url@) == Some(
            (p.0@, p.1@, p.2, vstd::utf8::encode_utf8(p.3@)),
        ),
{
    match url::Url::parse(url) {
        Ok(u) => {
            let scheme = u.scheme().to_owned();
            let host = match u.host_str() {
                Some(h) => h.to_owned(),
                None => {
                    return None;
                },
            };
            let port = u.port().unwrap_or(0);
            let path = u.path().to_owned();
            Some((scheme, host, port, path))
        },
        Err(_) => None,
    }
}

/// The segments of a path: runs of ASCII bytes between slashes, empties
/// dropped and non-ASCII bytes skipped, the run in hand carried along.
pub open spec fn split_segs(s: Seq<u8>, cur: Seq<u8>) -> Seq<Seq<u8>>
    decreases s.len(),
{
    if s.len() == 0 {
        if cur.len() > 0 {
            seq![cur]
        } else {
            Seq::empty()
        }
    } else if s[0] == 47 {
        if cur.len() > 0 {
            seq![cur] + split_segs(s.drop_first(), Seq::empty())
        } else {
            split_segs(s.drop_first(), Seq::empty())
        }
    } else if s[0] < 128 {
        split_segs(s.drop_first(), cur.push(s[0]))
    } else {
        split_segs(s.drop_first(), cur)
    }
}

/// The non-empty ASCII segments of a path, in order.
pub open spec fn path_segments(s: Seq<u8>) -> Seq<Seq<u8>> {
    split_segs(s, Seq::empty())
}

/// Whether a character sequence spells exactly these ASCII bytes.
pub open spec fn ascii_chars_of(sc: Seq<char>, sb: Seq<u8>) -> bool {
    sc.len() == sb.len() && (forall|i: int| 0 <= i < sb.len() ==> (#[trigger] sc[i]) as u8
        == sb[i])
}

/// Split an rtmp or rtmps URL into the parts the client dials and names:
/// the host and port (1935 when the URL names none), the first path
/// segment as the application ("live" when the path has none), and the
/// second as the stream name when one is given.  Any other scheme, or
/// unparseable text, is a configuration error.
pub fn parse_rtmp_url(url: &str) -> (r: Result<UrlParts, Error>)
    ensures
        r is Ok <==> (url_parts_of(url@) matches Some(p) && (p.0 == "rtmp"@ || p.0
            == "rtmps"@)),
        r matches Ok(u) ==> (url_parts_of(url@) matches Some(p) ==> {
            let segs = path_segments(p.3);
            &&& u.host@ == p.1
            &&& u.port == (if p.2 == 0 {
                1935u16
            } else {
                p.2
            })
            &&& (segs.len() >= 1 ==> ascii_chars_of(u.app@, segs[0]))
            &&& (segs.len() == 0 ==> u.app@ == "live"@)
            &&& (segs.len() >= 2 ==> (u.stream matches Some(st) && ascii_chars_of(st@, segs[1])))
            &&& (segs.len() < 2 ==> u.stream is None)
        }),
        r is Err ==> r->Err_0 is Configuration,
{
    let (scheme, host, port, path) = match parse_url_raw(url) {
        Some(parts) => parts,
        None => {
            return Err(Error::config("Invalid URL"));
        },
    };
    let is_rtmp = crate::registry::str_eq(scheme.as_str(), "rtmp");
    let is_rtmps = crate::registry::str_eq(scheme.as_str(), "rtmps");
    if !is_rtmp && !is_rtmps {
        return Err(Error::config("Unsupported scheme"));
    }
    let port = if port == 0 {
        1935
    } else {
        port
    };
    let segments = split_path(path.as_str());
    let app = if segments.len() >= 1 {
        copy_string(&segments[0])
    } else {
        "live".to_owned()
    };
    let stream = if segments.len() >= 2 {
        Some(copy_string(&segments[1]))
    } else {
        None
    };
    Ok(UrlParts { host, port, app, stream })
}

/// The non-empty ASCII segments of a path, in order, as strings of
/// exactly those bytes.
fn split_path(path: &str) -> (r: Vec<String>)
    ensures
        r@.len() == path_segments(path.spec_bytes()).len(),
        forall|j: int|
            0 <= j < r@.len() ==> ascii_chars_of(
                (#[trigger] r@[j])@,
                path_segments(path.spec_bytes())[j],
            ),
{
    let bytes = path.as_bytes_vec();
    let ghost b = bytes@;
    let mut segments: Vec<String> = Vec::new();
    let ghost done: Seq<Seq<u8>> = Seq::empty();
    let mut current: Vec<u8> = Vec::new();
    let n = bytes.len();
    let mut i: usize = 0;
    proof {
        assert(b.skip(0) =~= b);
        assert(done + split_segs(b.skip(0), current@) =~= path_segments(b));
    }
    let ghost mut done = done;
    while i < n
        invariant
            n == b.len(),
            b == bytes@,
            i <= n,
            ascii_only(current@),
            segments@.len() == done.len(),
            forall|j: int|
                0 <= j < done.len() ==> ascii_chars_of((#[trigger] segments@[j])@, done[j]),
            done + split_segs(b.skip(i as int), current@) == path_segments(b),
        decreases n - i,
    {
        let byte = bytes[i];
        proof {
            assert(b.skip(i as int)[0] == b[i as int]);
            assert(b.skip(i as int).drop_first() =~= b.skip(i + 1));
        }
        if byte == 47 {
            if current.len() > 0 {
                let ghost cur = current@;
                segments.push(ascii_string(&current));
                current = Vec::new();
                proof {
                    done = done.push(cur);
                    assert(done + split_segs(b.skip(i + 1), current@) =~= path_segments(b));
                }
            } else {
                proof {
                    assert(current@ =~= Seq::<u8>::empty());
                }
            }
        } else if byte < 128 {
            current.push(byte);
        } else {
            proof {
                assert(split_segs(b.skip(i + 1), current@) == split_segs(
                    b.skip(i as int),
                    current@,
                ));
            }
        }
        i = i + 1;
    }
    proof {
        assert(b.skip(n as int) =~= Seq::<u8>::empty());
    }
    if current.len() > 0 {
        let ghost cur = current@;
        segments.push(ascii_string(&current));
        proof {
            done = done.push(cur);
            assert(done =~= path_segments(b));
        }
    } else {
        proof {
            assert(done =~= path_segments(b));
        }
    }
    segments
}

/// Whether every byte is ASCII.
pub open spec fn ascii_only(s: Seq<u8>) -> bool {
    forall|i: int| 0 <= i < s.len() ==> s[i] < 128
}

/// Relies on String::from_utf8: ASCII bytes are valid UTF-8 and come back
/// as the string whose characters are exactly those bytes.
#[verifier::external_body]
fn ascii_string(bytes: &Vec<u8>) -> (r: String)
    requires
        ascii_only(bytes@),
    ensures
        r@.len() == bytes@.len(),
        forall|i: int| 0 <= i < bytes@.len() ==> (#[trigger] r@[i]) as u8 == bytes@[i],
{
    String::from_utf8(bytes.clone()).unwrap_or_default()
}

/// A client session: the state machine that orders the command dialogue
/// and numbers transactions.
pub struct ClientSession {
    /// The configuration the session runs with.
    pub config: ClientConfig,
    state: ClientState,
    next_transaction: u64,
    stream_id: Option<u32>,
}

impl ClientSession {
    /// The session's state.
    pub closed spec fn state_spec(self) -> ClientState {
        self.state
    }

    /// The transaction counter.
    pub closed spec fn next_tid(self) -> int {
        self.next_transaction as int
    }

    /// The stream id granted by createStream, once one was.
    pub closed spec fn stream_id_spec(self) -> Option<u32> {
        self.stream_id
    }

    /// A fresh, disconnected session.
    pub fn with_config(config: ClientConfig) -> (r: ClientSession)
        ensures
            r.state_spec() == ClientState::Disconnected,
            r.next_tid() == 1,
            r.stream_id_spec() is None,
    {
        ClientSession { config, state: ClientState::Disconnected, next_transaction: 1, stream_id: None }
    }

    /// The session's state.
    pub fn state(&self) -> (r: ClientState)
        ensures
            r == self.state_spec(),
    {
        self.state
    }

    /// The transaction counter's next value.
    pub fn transaction_count(&self) -> (r: u64)
        ensures
            r == self.next_tid(),
    {
        self.next_transaction
    }

    /// The stream id granted by createStream, once one was.
    pub fn stream_id(&self) -> (r: Option<u32>)
        ensures
            r == self.stream_id_spec(),
    {
        self.stream_id
    }

    /// Mark the transport connected and handshaken.
    pub fn note_connected(&mut self)
        ensures
            final(self).state_spec() == ClientState::Connected,
    {
        self.state = ClientState::Connected;
    }

    /// Record the stream id a createStream response granted.
    pub fn note_stream_created(&mut self, stream_id: u32)
        ensures
            final(self).stream_id_spec() == Some(stream_id),
            final(self).state_spec() == old(self).state_spec(),
    {
        self.stream_id = Some(stream_id);
    }

    /// Take the next transaction id; the caller renders it as a wire
    /// number when building the command.
    pub fn take_transaction(&mut self) -> (r: u64)
        requires
            old(self).next_tid() < u64::MAX,
        ensures
            r == old(self).next_tid(),
            final(self).next_tid() == old(self).next_tid() + 1,
            final(self).state_spec() == old(self).state_spec(),
            final(self).stream_id_spec() == old(self).stream_id_spec(),
    {
        let t = self.next_transaction;
        self.next_transaction = self.next_transaction + 1;
        t
    }

    /// Move to publishing.  Only a connected session may.
    pub fn start_publish(&mut self) -> (r: Result<(), Error>)
        ensures
            r is Ok <==> old(self).state_spec() == ClientState::Connected,
            r is Ok ==> final(self).state_spec() == ClientState::Publishing,
            r is Err ==> *final(self) == *old(self) && r->Err_0 is InvalidState,
    {
        if !(self.state == ClientState::Connected) {
            return Err(Error::invalid_state("Must be connected to publish"));
        }
        self.state = ClientState::Publishing;
        Ok(())
    }

    /// Move to playing.  Only a connected session may.
    pub fn start_play(&mut self) -> (r: Result<(), Error>)
        ensures
            r is Ok <==> old(self).state_spec() == ClientState::Connected,
            r is Ok ==> final(self).state_spec() == ClientState::Playing,
            r is Err ==> *final(self) == *old(self) && r->Err_0 is InvalidState,
    {
        if !(self.state == ClientState::Connected) {
            return Err(Error::invalid_state("Must be connected to play"));
        }
        self.state = ClientState::Playing;
        Ok(())
    }

    /// Build an audio packet on the granted stream.  Only a publishing
    /// session with a stream may.
    pub fn send_audio(&self, data: Vec<u8>, timestamp: u32) -> (r: Result<RtmpPacket, Error>)
        requires
            data@.len() <= u32::MAX,
        ensures
            r is Ok <==> (self.state_spec() == ClientState::Publishing && self.stream_id_spec()
                is Some),
            r is Ok ==> r->Ok_0.wf() && r->Ok_0.header.message_type == 8,
            r is Err ==> r->Err_0 is InvalidState,
    {
        if !(self.state == ClientState::Publishing) {
            return Err(Error::invalid_state("Not publishing"));
        }
        let stream_id = match self.stream_id {
            Some(id) => id,
            None => {
                return Err(Error::invalid_state("No stream ID"));
            },
        };
        Ok(make_audio_packet(data, timestamp, stream_id))
    }

    /// Build a video packet on the granted stream.  Only a publishing
    /// session with a stream may.
    pub fn send_video(&self, data: Vec<u8>, timestamp: u32) -> (r: Result<RtmpPacket, Error>)
        requires
            data@.len() <= u32::MAX,
        ensures
            r is Ok <==> (self.state_spec() == ClientState::Publishing && self.stream_id_spec()
                is Some),
            r is Ok ==> r->Ok_0.wf() && r->Ok_0.header.message_type == 9,
            r is Err ==> r->Err_0 is InvalidState,
    {
        if !(self.state == ClientState::Publishing) {
            return Err(Error::invalid_state("Not publishing"));
        }
        let stream_id = match self.stream_id {
            Some(id) => id,
            None => {
                return Err(Error::invalid_state("No stream ID"));
            },
        };
        Ok(make_video_packet(data, timestamp, stream_id))
    }

    /// Mark the session disconnected and forget the stream.
    pub fn disconnect(&mut self)
        ensures
            final(self).state_spec() == ClientState::Disconnected,
            final(self).stream_id_spec() is None,
    {
        self.state = ClientState::Disconnected;
        self.stream_id = None;
    }
}

/// Copy a string.
fn copy_string(s: &String) -> (r: String)
    ensures
        r@ == s@,
{
    s.clone()
}

} // verus!
