//! The handshake: three fixed-size blobs exchanged after a one-byte version
//! marker, with the simple and digest-carrying variants, and the state
//! machine that orders them.

use vstd::prelude::*;
use crate::buffer::{be32, be32_bytes};
use crate::crypto::{generate_random_bytes, calculate_hmac_sha256, hmac_sha256_of};
use crate::time::current_timestamp;
use crate::error::Error;

verus! {

broadcast use vstd::std_specs::vec::axiom_spec_len;

/// The protocol version carried in C0 and S0.
pub const RTMP_VERSION: u8 = 3;

/// The size of each of C1, S1, C2 and S2.
pub const HANDSHAKE_SIZE: usize = 1536;

/// The four-byte signature announcing the digest handshake.
pub open spec fn fms_signature() -> Seq<u8> {
    seq![0x05u8, 0x00u8, 0x01u8, 0x01u8]
}

/// The well-known key under which the S1 digest is computed.
pub open spec fn fms_key() -> Seq<u8> {
    seq![
        71u8, 101u8, 110u8, 117u8, 105u8, 110u8, 101u8, 32u8, 65u8, 100u8, 111u8, 98u8, 101u8,
        32u8, 70u8, 108u8, 97u8, 115u8, 104u8, 32u8, 77u8, 101u8, 100u8, 105u8, 97u8, 32u8, 83u8,
        101u8, 114u8, 118u8, 101u8, 114u8, 32u8, 48u8, 48u8, 49u8,
    ]
}

/// Build the digest key as an owned buffer.
fn fms_key_bytes() -> (r: Vec<u8>)
    ensures
        r@ == fms_key(),
{
    let mut k: Vec<u8> = Vec::new();
    k.push(71);
    k.push(101);
    k.push(110);
    k.push(117);
    k.push(105);
    k.push(110);
    k.push(101);
    k.push(32);
    k.push(65);
    k.push(100);
    k.push(111);
    k.push(98);
    k.push(101);
    k.push(32);
    k.push(70);
    k.push(108);
    k.push(97);
    k.push(115);
    k.push(104);
    k.push(32);
    k.push(77);
    k.push(101);
    k.push(100);
    k.push(105);
    k.push(97);
    k.push(32);
    k.push(83);
    k.push(101);
    k.push(114);
    k.push(118);
    k.push(101);
    k.push(114);
    k.push(32);
    k.push(48);
    k.push(48);
    k.push(49);
    proof {
        assert(k@ =~= fms_key());
    }
    k
}

/// Handshake format: simple, or a digest variant by signature position.
#[derive(Debug, Clone, Copy, PartialEq, Eq, Structural)]
pub enum HandshakeFormat {
    /// Plain random data.
    Simple,
    /// Digest variant with the signature in C1 body bytes 4..8.
    Format1,
    /// Digest variant with the signature at C1 body offset 764.
    Format2,
}

/// The zero field holding the signature bytes as a big-endian word:
/// 05 00 01 01.
pub const FMS_SIGNATURE_WORD: u32 = 0x05000101;

/// Which format a C1 announces: the signature in body bytes 4..8 (the zero
/// field) names the first digest variant; at body offset 764 (offset 756
/// of the random field) the second; anywhere else the handshake is simple.
pub open spec fn detect_format_spec(zero: u32, random_data: Seq<u8>) -> HandshakeFormat {
    if zero == FMS_SIGNATURE_WORD {
        HandshakeFormat::Format1
    } else if random_data.len() >= 760 && random_data.subrange(756, 760) == fms_signature() {
        HandshakeFormat::Format2
    } else {
        HandshakeFormat::Simple
    }
}

/// The client's opening: the version byte C0 and the 1536-byte C1.
#[derive(Debug, Clone, PartialEq)]
pub struct C0C1 {
    /// RTMP version from C0.
    pub version: u8,
    /// C1 timestamp.
    pub timestamp: u32,
    /// C1 zero field.
    pub zero: u32,
    /// C1 random field: 1528 bytes.
    pub random_data: Vec<u8>,
}

impl C0C1 {
    /// The random field is exactly 1528 bytes.
    pub open spec fn wf(self) -> bool {
        self.random_data@.len() == 1528
    }

    /// Parse C0 and C1 from at least 1537 bytes.  Fails exactly when the
    /// bytes run short or the version is not 3.
    pub fn parse(data: &[u8]) -> (r: Result<C0C1, Error>)
        ensures
            r is Ok <==> (data@.len() >= 1537 && data@[0] == RTMP_VERSION),
            r is Ok ==> {
                &&& r->Ok_0.wf()
                &&& r->Ok_0.version == RTMP_VERSION
                &&& r->Ok_0.timestamp == be32(data@, 1)
                &&& r->Ok_0.zero == be32(data@, 5)
                &&& r->Ok_0.random_data@ == data@.subrange(9, 1537)
            },
            r is Err ==> r->Err_0 is Handshake,
    {
        if data.len() < 1537 {
            return Err(Error::handshake("C0+C1 too short"));
        }
        let version = data[0];
        if version != RTMP_VERSION {
            return Err(Error::handshake("Unsupported RTMP version"));
        }
        let timestamp = read_be32_at(data, 1);
        let zero = read_be32_at(data, 5);
        let random_data = copy_range(data, 9, 1537);
        Ok(C0C1 { version, timestamp, zero, random_data })
    }

    /// A fresh client C0+C1: version 3, the clock, a zero field and 1528
    /// random bytes.
    pub fn create_client() -> (r: C0C1)
        ensures
            r.wf(),
            r.version == RTMP_VERSION,
            r.zero == 0,
    {
        C0C1 {
            version: RTMP_VERSION,
            timestamp: current_timestamp(),
            zero: 0,
            random_data: generate_random_bytes(1528),
        }
    }

    /// The 1537 bytes of C0 followed by C1.
    pub fn encode(&self) -> (r: Vec<u8>)
        ensures
            r@ == seq![self.version] + be32_bytes(self.timestamp) + be32_bytes(self.zero)
                + self.random_data@,
            self.wf() ==> r@.len() == 1537,
    {
        let mut out: Vec<u8> = Vec::new();
        out.push(self.version);
        push_be32v(&mut out, self.timestamp);
        push_be32v(&mut out, self.zero);
        append_all(&mut out, &self.random_data);
        proof {
            assert(out@ =~= seq![self.version] + be32_bytes(self.timestamp) + be32_bytes(self.zero)
                + self.random_data@);
        }
        out
    }

    /// Which handshake format the peer is using, by where the signature
    /// stands in the C1 body.
    pub fn detect_format(&self) -> (r: HandshakeFormat)
        ensures
            r == detect_format_spec(self.zero, self.random_data@),
    {
        if self.zero == FMS_SIGNATURE_WORD {
            return HandshakeFormat::Format1;
        }
        if self.random_data.len() >= 760 && self.random_data[756] == 0x05 && self.random_data[757]
            == 0x00 && self.random_data[758] == 0x01 && self.random_data[759] == 0x01 {
            proof {
                assert(self.random_data@.subrange(756, 760) =~= fms_signature());
            }
            return HandshakeFormat::Format2;
        }
        proof {
            if self.random_data@.len() >= 760 && self.random_data@.subrange(756, 760)
                == fms_signature() {
                assert(self.random_data@[756] == 0x05 && self.random_data@[757] == 0x00
                    && self.random_data@[758] == 0x01 && self.random_data@[759] == 0x01);
            }
        }
        HandshakeFormat::Simple
    }

    /// The inbound-digest policy: any well-formed C1 is accepted, whatever
    /// its format.
    pub fn validate_digest(&self, format: HandshakeFormat) -> (r: Result<(), Error>)
        ensures
            r is Ok,
    {
        match format {
            HandshakeFormat::Simple => Ok(()),
            HandshakeFormat::Format1 => Ok(()),
            HandshakeFormat::Format2 => Ok(()),
        }
    }
}

/// The server's reply: version byte S0, fresh S1, and S2 echoing C1.
#[derive(Debug, Clone, PartialEq)]
pub struct S0S1S2 {
    /// RTMP version from S0.
    pub version: u8,
    /// S1 timestamp.
    pub s1_timestamp: u32,
    /// S1 zero field.
    pub s1_zero: u32,
    /// S1 random field: 1528 bytes.
    pub s1_random: Vec<u8>,
    /// S2 timestamp: the peer's C1 timestamp echoed.
    pub s2_timestamp: u32,
    /// S2 second timestamp: the local clock.
    pub s2_timestamp2: u32,
    /// S2 random echo: the peer's C1 random field echoed.
    pub s2_random_echo: Vec<u8>,
}

impl S0S1S2 {
    /// Both random fields are exactly 1528 bytes.
    pub open spec fn wf(self) -> bool {
        self.s1_random@.len() == 1528 && self.s2_random_echo@.len() == 1528
    }

    /// The simple reply to a C0+C1: S2 echoes the peer's timestamp and
    /// random field.  Fails exactly when the client version is not 3.
    pub fn generate(c0c1: &C0C1) -> (r: Result<S0S1S2, Error>)
        requires
            c0c1.wf(),
        ensures
            r is Ok <==> c0c1.version == RTMP_VERSION,
            r is Ok ==> {
                &&& r->Ok_0.wf()
                &&& r->Ok_0.version == RTMP_VERSION
                &&& r->Ok_0.s1_zero == 0
                &&& r->Ok_0.s2_timestamp == c0c1.timestamp
                &&& r->Ok_0.s2_random_echo@ == c0c1.random_data@
            },
            r is Err ==> r->Err_0 is Handshake,
    {
        if c0c1.version != RTMP_VERSION {
            return Err(Error::handshake("Unsupported client version"));
        }
        let s1_random = generate_random_bytes(1528);
        Ok(
            S0S1S2 {
                version: RTMP_VERSION,
                s1_timestamp: current_timestamp(),
                s1_zero: 0,
                s1_random,
                s2_timestamp: c0c1.timestamp,
                s2_timestamp2: current_timestamp(),
                s2_random_echo: copy_range(c0c1.random_data.as_slice(), 0, c0c1.random_data.len()),
            },
        )
    }

    /// The reply for the announced format: the digest variants carry an
    /// HMAC-SHA256 digest in the S1 random field.
    pub fn generate_complex(c0c1: &C0C1, format: HandshakeFormat) -> (r: Result<S0S1S2, Error>)
        requires
            c0c1.wf(),
        ensures
            r is Ok <==> c0c1.version == RTMP_VERSION,
            r is Ok ==> {
                &&& r->Ok_0.wf()
                &&& r->Ok_0.version == RTMP_VERSION
                &&& r->Ok_0.s2_timestamp == c0c1.timestamp
                &&& r->Ok_0.s2_random_echo@ == c0c1.random_data@
            },
            r is Err ==> r->Err_0 is Handshake,
    {
        let mut response = match S0S1S2::generate(c0c1) {
            Ok(x) => x,
            Err(e) => {
                return Err(e);
            },
        };
        match format {
            HandshakeFormat::Simple => {},
            HandshakeFormat::Format1 => {
                let _ = response.add_digest(format);
            },
            HandshakeFormat::Format2 => {
                let _ = response.add_digest(format);
            },
        }
        Ok(response)
    }

    /// Compute the digest over the head of the S1 random field under the
    /// well-known key and write it at the position the format dictates.
    fn add_digest(&mut self, format: HandshakeFormat) -> (r: Result<(), Error>)
        requires
            old(self).wf(),
        ensures
            final(self).wf(),
            r is Ok,
            final(self).version == old(self).version,
            final(self).s1_timestamp == old(self).s1_timestamp,
            final(self).s2_timestamp == old(self).s2_timestamp,
            final(self).s2_random_echo == old(self).s2_random_echo,
            format is Format1 ==> final(self).s1_random@ == hmac_sha256_of(
                fms_key(),
                old(self).s1_random@.subrange(0, 32),
            ) + old(self).s1_random@.subrange(32, 1528),
            format is Format2 ==> final(self).s1_random@ == old(self).s1_random@.subrange(0, 772)
                + hmac_sha256_of(fms_key(), old(self).s1_random@.subrange(0, 32)) + old(
                self,
            ).s1_random@.subrange(804, 1528),
            format is Simple ==> final(self).s1_random@ == old(self).s1_random@,
    {
        let key = fms_key_bytes();
        let head = copy_range(self.s1_random.as_slice(), 0, 32);
        let digest = calculate_hmac_sha256(key.as_slice(), head.as_slice());
        match format {
            HandshakeFormat::Format1 => {
                self.s1_random = splice(&self.s1_random, 0, &digest);
                proof {
                    assert(self.s1_random@ =~= hmac_sha256_of(
                        fms_key(),
                        old(self).s1_random@.subrange(0, 32),
                    ) + old(self).s1_random@.subrange(32, 1528));
                }
            },
            HandshakeFormat::Format2 => {
                self.s1_random = splice(&self.s1_random, 772, &digest);
                proof {
                    assert(self.s1_random@ =~= old(self).s1_random@.subrange(0, 772)
                        + hmac_sha256_of(fms_key(), old(self).s1_random@.subrange(0, 32)) + old(
                        self,
                    ).s1_random@.subrange(804, 1528));
                }
            },
            HandshakeFormat::Simple => {},
        }
        Ok(())
    }

    /// The 3073 bytes of S0, S1 and S2.
    pub fn encode(&self) -> (r: Vec<u8>)
        ensures
            r@ == seq![self.version] + be32_bytes(self.s1_timestamp) + be32_bytes(self.s1_zero)
                + self.s1_random@ + be32_bytes(self.s2_timestamp) + be32_bytes(self.s2_timestamp2)
                + self.s2_random_echo@,
            self.wf() ==> r@.len() == 3073,
    {
        let mut out: Vec<u8> = Vec::new();
        out.push(self.version);
        push_be32v(&mut out, self.s1_timestamp);
        push_be32v(&mut out, self.s1_zero);
        append_all(&mut out, &self.s1_random);
        push_be32v(&mut out, self.s2_timestamp);
        push_be32v(&mut out, self.s2_timestamp2);
        append_all(&mut out, &self.s2_random_echo);
        proof {
            assert(out@ =~= seq![self.version] + be32_bytes(self.s1_timestamp) + be32_bytes(
                self.s1_zero,
            ) + self.s1_random@ + be32_bytes(self.s2_timestamp) + be32_bytes(self.s2_timestamp2)
                + self.s2_random_echo@);
        }
        out
    }

    /// Parse S0, S1 and S2 from at least 3073 bytes (the client side).
    pub fn parse(data: &[u8]) -> (r: Result<S0S1S2, Error>)
        ensures
            r is Ok <==> data@.len() >= 3073,
            r is Ok ==> {
                &&& r->Ok_0.wf()
                &&& r->Ok_0.version == data@[0]
                &&& r->Ok_0.s1_timestamp == be32(data@, 1)
                &&& r->Ok_0.s1_zero == be32(data@, 5)
                &&& r->Ok_0.s1_random@ == data@.subrange(9, 1537)
                &&& r->Ok_0.s2_timestamp == be32(data@, 1537)
                &&& r->Ok_0.s2_timestamp2 == be32(data@, 1541)
                &&& r->Ok_0.s2_random_echo@ == data@.subrange(1545, 3073)
            },
            r is Err ==> r->Err_0 is Handshake,
    {
        if data.len() < 3073 {
            return Err(Error::handshake("S0+S1+S2 too short"));
        }
        Ok(
            S0S1S2 {
                version: data[0],
                s1_timestamp: read_be32_at(data, 1),
                s1_zero: read_be32_at(data, 5),
                s1_random: copy_range(data, 9, 1537),
                s2_timestamp: read_be32_at(data, 1537),
                s2_timestamp2: read_be32_at(data, 1541),
                s2_random_echo: copy_range(data, 1545, 3073),
            },
        )
    }
}

/// The client's closing echo of S1.
#[derive(Debug, Clone, PartialEq)]
pub struct C2 {
    /// Echo of the S1 timestamp.
    pub timestamp: u32,
    /// The client's clock.
    pub timestamp2: u32,
    /// Echo of the S1 random field: 1528 bytes.
    pub random_echo: Vec<u8>,
}

impl C2 {
    /// The random echo is exactly 1528 bytes.
    pub open spec fn wf(self) -> bool {
        self.random_echo@.len() == 1528
    }

    /// Build the C2 that answers an S1.
    pub fn create_from_s1(s0s1s2: &S0S1S2) -> (r: C2)
        ensures
            r.timestamp == s0s1s2.s1_timestamp,
            r.random_echo@ == s0s1s2.s1_random@,
    {
        C2 {
            timestamp: s0s1s2.s1_timestamp,
            timestamp2: current_timestamp(),
            random_echo: copy_range(s0s1s2.s1_random.as_slice(), 0, s0s1s2.s1_random.len()),
        }
    }

    /// Parse C2 from at least 1536 bytes.
    pub fn parse(data: &[u8]) -> (r: Result<C2, Error>)
        ensures
            r is Ok <==> data@.len() >= 1536,
            r is Ok ==> {
                &&& r->Ok_0.wf()
                &&& r->Ok_0.timestamp == be32(data@, 0)
                &&& r->Ok_0.timestamp2 == be32(data@, 4)
                &&& r->Ok_0.random_echo@ == data@.subrange(8, 1536)
            },
            r is Err ==> r->Err_0 is Handshake,
    {
        if data.len() < 1536 {
            return Err(Error::handshake("C2 too short"));
        }
        Ok(
            C2 {
                timestamp: read_be32_at(data, 0),
                timestamp2: read_be32_at(data, 4),
                random_echo: copy_range(data, 8, 1536),
            },
        )
    }

    /// Check the echo: C2 must return S1's timestamp and random field.
    pub fn validate(&self, s0s1s2: &S0S1S2) -> (r: Result<(), Error>)
        ensures
            r is Ok <==> (self.timestamp == s0s1s2.s1_timestamp && self.random_echo@
                == s0s1s2.s1_random@),
            r is Err ==> r->Err_0 is Handshake,
    {
        if self.timestamp != s0s1s2.s1_timestamp {
            return Err(Error::handshake("C2 timestamp mismatch"));
        }
        if !bytes_equal(&self.random_echo, &s0s1s2.s1_random) {
            return Err(Error::handshake("C2 random echo mismatch"));
        }
        Ok(())
    }

    /// The 1536 bytes of C2.
    pub fn encode(&self) -> (r: Vec<u8>)
        ensures
            r@ == be32_bytes(self.timestamp) + be32_bytes(self.timestamp2) + self.random_echo@,
            self.wf() ==> r@.len() == 1536,
    {
        let mut out: Vec<u8> = Vec::new();
        push_be32v(&mut out, self.timestamp);
        push_be32v(&mut out, self.timestamp2);
        append_all(&mut out, &self.random_echo);
        proof {
            assert(out@ =~= be32_bytes(self.timestamp) + be32_bytes(self.timestamp2)
                + self.random_echo@);
        }
        out
    }
}

/// The handshake state machine.
#[derive(Debug, Clone, Copy, PartialEq, Eq, Structural)]
pub enum HandshakeState {
    /// Waiting for C0+C1.
    Uninitialized,
    /// Sent S0+S1+S2; waiting for C2.
    SentS0S1S2,
    /// Received C2; complete.
    Done,
    /// An error occurred.
    Failed,
}

/// Events the handshake state machine reacts to.
#[derive(Debug, Clone, Copy, PartialEq, Eq, Structural)]
pub enum HandshakeEvent {
    ReceivedC0C1,
    ReceivedC2,
    Error,
}

impl HandshakeState {
    /// The initial state.
    pub fn new() -> (r: HandshakeState)
        ensures
            r == HandshakeState::Uninitialized,
    {
        HandshakeState::Uninitialized
    }

    /// Whether the handshake is complete.
    pub fn is_done(&self) -> (r: bool)
        ensures
            r <==> *self == HandshakeState::Done,
    {
        *self == HandshakeState::Done
    }

    /// Whether the handshake failed.
    pub fn is_failed(&self) -> (r: bool)
        ensures
            r <==> *self == HandshakeState::Failed,
    {
        *self == HandshakeState::Failed
    }

    /// Advance on an event.  Only Uninitialized--RxC0C1-->SentS0S1S2 and
    /// SentS0S1S2--RxC2-->Done succeed; an error event fails from any
    /// state, and any other pairing is rejected without moving.
    pub fn transition(&mut self, event: HandshakeEvent) -> (r: Result<(), Error>)
        ensures
            r is Ok <==> ((*old(self) == HandshakeState::Uninitialized && event
                == HandshakeEvent::ReceivedC0C1) || (*old(self) == HandshakeState::SentS0S1S2
                && event == HandshakeEvent::ReceivedC2)),
            (*old(self) == HandshakeState::Uninitialized && event == HandshakeEvent::ReceivedC0C1)
                ==> *final(self) == HandshakeState::SentS0S1S2,
            (*old(self) == HandshakeState::SentS0S1S2 && event == HandshakeEvent::ReceivedC2)
                ==> *final(self) == HandshakeState::Done,
            event == HandshakeEvent::Error ==> *final(self) == HandshakeState::Failed,
            (r is Err && event != HandshakeEvent::Error) ==> *final(self) == *old(self),
            r is Err ==> r->Err_0 is Handshake,
    {
        match (*self, event) {
            (HandshakeState::Uninitialized, HandshakeEvent::ReceivedC0C1) => {
                *self = HandshakeState::SentS0S1S2;
                Ok(())
            },
            (HandshakeState::SentS0S1S2, HandshakeEvent::ReceivedC2) => {
                *self = HandshakeState::Done;
                Ok(())
            },
            (_, HandshakeEvent::Error) => {
                *self = HandshakeState::Failed;
                Err(Error::handshake("Handshake failed"))
            },
            _ => Err(Error::handshake("Invalid handshake transition")),
        }
    }
}

/// Parse and accept a C0+C1, whatever digest format it announces.
pub fn validate_c0c1(data: &[u8]) -> (r: Result<C0C1, Error>)
    ensures
        r is Ok <==> (data@.len() >= 1537 && data@[0] == RTMP_VERSION),
        r is Ok ==> {
            &&& r->Ok_0.wf()
            &&& r->Ok_0.version == RTMP_VERSION
            &&& r->Ok_0.timestamp == be32(data@, 1)
            &&& r->Ok_0.random_data@ == data@.subrange(9, 1537)
        },
        r is Err ==> r->Err_0 is Handshake,
{
    let c0c1 = match C0C1::parse(data) {
        Ok(x) => x,
        Err(e) => {
            return Err(e);
        },
    };
    let format = c0c1.detect_format();
    match c0c1.validate_digest(format) {
        Ok(()) => Ok(c0c1),
        Err(e) => Err(e),
    }
}

/// The whole S0+S1+S2 reply to a C0+C1: 3073 bytes whose S2 half echoes the
/// peer's timestamp and random field.
pub fn generate_s0s1s2(c0c1: &C0C1) -> (r: Result<Vec<u8>, Error>)
    requires
        c0c1.wf(),
    ensures
        r is Ok <==> c0c1.version == RTMP_VERSION,
        r is Ok ==> {
            &&& r->Ok_0@.len() == 3073
            &&& r->Ok_0@[0] == RTMP_VERSION
            &&& be32(r->Ok_0@, 1537) == c0c1.timestamp
            &&& r->Ok_0@.subrange(1545, 3073) == c0c1.random_data@
        },
        r is Err ==> r->Err_0 is Handshake,
{
    let format = c0c1.detect_format();
    let s0s1s2 = match S0S1S2::generate_complex(c0c1, format) {
        Ok(x) => x,
        Err(e) => {
            return Err(e);
        },
    };
    let out = s0s1s2.encode();
    proof {
        assert(be32(out@, 1537) == s0s1s2.s2_timestamp) by {
            assert(out@.subrange(1537, 1541) =~= be32_bytes(s0s1s2.s2_timestamp));
            crate::buffer::lemma_be32_bytes_at(out@, 1537, s0s1s2.s2_timestamp);
        }
        assert(out@.subrange(1545, 3073) =~= c0c1.random_data@);
    }
    Ok(out)
}

/// Parse a C2 and hold it against the S1 that was sent.
pub fn validate_c2(c2_data: &[u8], s0s1s2: &S0S1S2) -> (r: Result<(), Error>)
    ensures
        r is Ok <==> (c2_data@.len() >= 1536 && be32(c2_data@, 0) == s0s1s2.s1_timestamp
            && c2_data@.subrange(8, 1536) == s0s1s2.s1_random@),
        r is Err ==> r->Err_0 is Handshake,
{
    let c2 = match C2::parse(c2_data) {
        Ok(x) => x,
        Err(e) => {
            return Err(e);
        },
    };
    c2.validate(s0s1s2)
}

/// Read a big-endian u32 standing at offset i of a slice.
fn read_be32_at(data: &[u8], i: usize) -> (r: u32)
    requires
        i + 4 <= data@.len(),
    ensures
        r == be32(data@, i as int),
{
    let b0 = data[i];
    let b1 = data[i + 1];
    let b2 = data[i + 2];
    let b3 = data[i + 3];
    (b0 as u32) * 0x1000000 + (b1 as u32) * 0x10000 + (b2 as u32) * 0x100 + (b3 as u32)
}

/// Copy a range of a slice into an owned buffer.
fn copy_range(data: &[u8], from: usize, to: usize) -> (r: Vec<u8>)
    requires
        from <= to <= data@.len(),
    ensures
        r@ == data@.subrange(from as int, to as int),
{
    let mut out: Vec<u8> = Vec::new();
    let mut i: usize = from;
    proof {
        assert(out@ =~= data@.subrange(from as int, from as int));
    }
    while i < to
        invariant
            from <= i <= to <= data@.len(),
            out@ == data@.subrange(from as int, i as int),
        decreases to - i,
    {
        out.push(data[i]);
        i = i + 1;
        proof {
            assert(out@ =~= data@.subrange(from as int, i as int));
        }
    }
    out
}

/// Whether two byte vectors hold the same bytes.
fn bytes_equal(a: &Vec<u8>, b: &Vec<u8>) -> (r: bool)
    ensures
        r <==> a@ == b@,
{
    if a.len() != b.len() {
        return false;
    }
    let n = a.len();
    let mut i: usize = 0;
    while i < n
        invariant
            n == a@.len() == b@.len(),
            i <= n,
            forall|j: int| 0 <= j < i ==> a@[j] == b@[j],
        decreases n - i,
    {
        if a[i] != b[i] {
            return false;
        }
        i = i + 1;
    }
    proof {
        assert(a@ =~= b@);
    }
    true
}

/// Overwrite 32 bytes of a buffer at an offset with a digest.
fn splice(data: &Vec<u8>, at: usize, digest: &[u8; 32]) -> (r: Vec<u8>)
    requires
        at + 32 <= data@.len(),
        data@.len() <= usize::MAX,
    ensures
        r@ == data@.subrange(0, at as int) + digest@ + data@.subrange(
            at + 32,
            data@.len() as int,
        ),
{
    let mut out = copy_range(data.as_slice(), 0, at);
    let mut i: usize = 0;
    proof {
        assert(out@ =~= data@.subrange(0, at as int) + digest@.subrange(0, 0));
    }
    while i < 32
        invariant
            i <= 32,
            at + 32 <= data@.len(),
            out@ == data@.subrange(0, at as int) + digest@.subrange(0, i as int),
        decreases 32 - i,
    {
        out.push(digest[i]);
        i = i + 1;
        proof {
            assert(out@ =~= data@.subrange(0, at as int) + digest@.subrange(0, i as int));
        }
    }
    proof {
        assert(digest@.subrange(0, 32) =~= digest@);
    }
    let mut j: usize = at + 32;
    let n = data.len();
    proof {
        assert(out@ =~= data@.subrange(0, at as int) + digest@ + data@.subrange(
            at + 32,
            at + 32,
        ));
    }
    while j < n
        invariant
            at + 32 <= j <= n,
            n == data@.len(),
            out@ == data@.subrange(0, at as int) + digest@ + data@.subrange(at + 32, j as int),
        decreases n - j,
    {
        out.push(data[j]);
        j = j + 1;
        proof {
            assert(out@ =~= data@.subrange(0, at as int) + digest@ + data@.subrange(
                at + 32,
                j as int,
            ));
        }
    }
    out
}

/// Append four big-endian bytes.
fn push_be32v(out: &mut Vec<u8>, v: u32)
    ensures
        final(out)@ == old(out)@ + be32_bytes(v),
{
    out.push((v / 0x1000000) as u8);
    out.push(((v / 0x10000) % 256) as u8);
    out.push(((v / 256) % 256) as u8);
    out.push((v % 256) as u8);
    proof {
        assert(out@ =~= old(out)@ + be32_bytes(v));
    }
}

/// Append a whole vector.
fn append_all(out: &mut Vec<u8>, data: &Vec<u8>)
    ensures
        final(out)@ == old(out)@ + data@,
{
    let n = data.len();
    let mut i: usize = 0;
    let ghost start = out@;
    proof {
        assert(out@ =~= start + data@.subrange(0, 0));
    }
    while i < n
        invariant
            n == data@.len(),
            i <= n,
            out@ == start + data@.subrange(0, i as int),
        decreases n - i,
    {
        out.push(data[i]);
        i = i + 1;
        proof {
            assert(out@ =~= start + data@.subrange(0, i as int));
        }
    }
    proof {
        assert(data@.subrange(0, n as int) =~= data@);
    }
}

} // verus!
