//! Command and data messages: AMF0 value sequences with a name at the
//! head, as used by the command-and-control dialogue.

use vstd::prelude::*;
use vstd::string::{StrSliceExecFns, StringSliceAdditionalSpecFns};
use crate::amf0::{Amf0Value, Amf0Term, Amf0Encoder, amf_dec, amf_enc, amf_wf, vals_enc,
    vals_view, vals_wf, props_view, amf_view, lemma_amf_dec_len, lemma_vals_view_index};
use crate::buffer::ByteBuffer;
use crate::error::Error;

verus! {

broadcast use vstd::std_specs::vec::axiom_spec_len;

/// The string payload of a value used as a name, when it is one.
pub open spec fn name_bytes(m: Amf0Term) -> Option<Seq<u8>> {
    match m {
        Amf0Term::String(b) => Option::Some(b),
        Amf0Term::LongString(b) => Option::Some(b),
        _ => Option::None,
    }
}

/// The meaning of bytes as a whole run of AMF0 values, ending exactly at
/// the end of input.
pub open spec fn values_dec(s: Seq<u8>) -> Option<Seq<Amf0Term>>
    decreases s.len(),
{
    if s.len() == 0 {
        Option::Some(Seq::empty())
    } else {
        match amf_dec(s) {
            Option::Some((v, n)) => {
                if 1 <= n <= s.len() {
                    match values_dec(s.skip(n)) {
                        Option::Some(vs) => Option::Some(seq![v] + vs),
                        Option::None => Option::None,
                    }
                } else {
                    Option::None
                }
            },
            Option::None => Option::None,
        }
    }
}

/// Read every remaining value.
pub fn decode_values(buf: &mut ByteBuffer) -> (r: Result<Vec<Amf0Value>, Error>)
    requires
        old(buf).wf(),
        old(buf).pos() <= old(buf).bytes().len(),
    ensures
        final(buf).wf(),
        final(buf).bytes() == old(buf).bytes(),
        r is Ok <==> values_dec(old(buf).bytes().skip(old(buf).pos())) is Some,
        r is Ok ==> values_dec(old(buf).bytes().skip(old(buf).pos())) == Some(
            vals_view(r->Ok_0@),
        ),
        r is Err ==> r->Err_0 is AmfDecode,
    decreases old(buf).bytes().len() - old(buf).pos(),
{
    let ghost rest = old(buf).bytes().skip(old(buf).pos());
    if !buf.has_remaining(1) {
        let r: Vec<Amf0Value> = Vec::new();
        proof {
            assert(vals_view(r@) =~= Seq::<Amf0Term>::empty());
        }
        return Ok(r);
    }
    let value = match crate::amf0::decode_value(buf) {
        Ok(v) => v,
        Err(e) => {
            return Err(e);
        },
    };
    let ghost n = buf.pos() - old(buf).pos();
    proof {
        lemma_amf_dec_len(rest);
        assert(old(buf).bytes().skip(old(buf).pos()).skip(n) =~= old(buf).bytes().skip(
            old(buf).pos() + n,
        ));
    }
    let mut tail = match decode_values(buf) {
        Ok(vs) => vs,
        Err(e) => {
            return Err(e);
        },
    };
    let ghost tailv = tail@;
    tail.insert(0, value);
    proof {
        assert(tail@[0] == value);
        assert(tail@.drop_first() =~= tailv);
        assert(vals_view(tail@) == seq![amf_view(tail@[0])] + vals_view(tail@.drop_first()));
        assert(vals_view(tail@) == seq![value@] + vals_view(tailv));
    }
    Ok(tail)
}

/// The meaning of bytes as one command: a name, a transaction id, an
/// optional command object, and the remaining arguments.
pub open spec fn cmd_dec(s: Seq<u8>) -> Option<(Seq<u8>, u64, Option<Amf0Term>, Seq<Amf0Term>)> {
    match amf_dec(s) {
        Option::Some((nv, n1)) => {
            if !(1 <= n1 <= s.len()) {
                Option::None
            } else {
                match name_bytes(nv) {
                    Option::Some(name) => {
                        match amf_dec(s.skip(n1)) {
                            Option::Some((tv, n2)) => {
                                if !(1 <= n2 <= s.len() - n1) {
                                    Option::None
                                } else {
                                    match tv {
                                        Amf0Term::Number(b) => {
                                            let rest2 = s.skip(n1 + n2);
                                            if rest2.len() == 0 {
                                                Option::Some(
                                                    (name, b, Option::None, Seq::empty()),
                                                )
                                            } else {
                                                match amf_dec(rest2) {
                                                    Option::Some((ov, n3)) => {
                                                        if !(1 <= n3 <= rest2.len()) {
                                                            Option::None
                                                        } else {
                                                            match values_dec(rest2.skip(n3)) {
                                                                Option::Some(args) => Option::Some(
                                                                    (
                                                                        name,
                                                                        b,
                                                                        Option::Some(ov),
                                                                        args,
                                                                    ),
                                                                ),
                                                                Option::None => Option::None,
                                                            }
                                                        }
                                                    },
                                                    Option::None => Option::None,
                                                }
                                            }
                                        },
                                        _ => Option::None,
                                    }
                                }
                            },
                            Option::None => Option::None,
                        }
                    },
                    Option::None => Option::None,
                }
            }
        },
        Option::None => Option::None,
    }
}

/// A command message: name, transaction id (as the IEEE-754 bit pattern of
/// the wire number), optional command object, arguments.
#[derive(Debug, PartialEq)]
pub struct RtmpCommand {
    /// The command name's UTF-8 bytes.
    pub name: Vec<u8>,
    /// The transaction id's bit pattern; responses echo it.
    pub transaction_id: u64,
    /// The command object, when one is carried.
    pub command_object: Option<Amf0Value>,
    /// The remaining arguments, in order.
    pub arguments: Vec<Amf0Value>,
}

/// The view of an optional value.
pub open spec fn opt_view(o: Option<Amf0Value>) -> Option<Amf0Term> {
    match o {
        Option::Some(v) => Option::Some(amf_view(v)),
        Option::None => Option::None,
    }
}

impl RtmpCommand {
    /// A bare command with no object and no arguments.
    pub fn new(name: &str, transaction_id: u64) -> (r: RtmpCommand)
        ensures
            r.name@ == name.spec_bytes(),
            r.transaction_id == transaction_id,
            r.command_object is None,
            r.arguments@.len() == 0,
    {
        RtmpCommand {
            name: name.as_bytes_vec(),
            transaction_id: transaction_id,
            command_object: None,
            arguments: Vec::new(),
        }
    }

    /// Encode the command: the name, the transaction id, the command object
    /// (Null when absent), then the arguments.  Fails, with nothing
    /// decided, exactly when a part does not fit the wire format.
    pub fn encode(&self) -> (r: Result<Vec<u8>, Error>)
        ensures
            r is Ok <==> (self.name@.len() <= 0xFFFF && (self.command_object matches Some(o)
                ==> amf_wf(o@)) && vals_wf(vals_view(self.arguments@))),
            r is Ok ==> r->Ok_0@ == amf_enc(Amf0Term::String(self.name@)) + amf_enc(
                Amf0Term::Number(self.transaction_id),
            ) + amf_enc(
                match opt_view(self.command_object) {
                    Option::Some(o) => o,
                    Option::None => Amf0Term::Null,
                },
            ) + vals_enc(vals_view(self.arguments@)),
            r is Err ==> r->Err_0 is AmfEncode,
    {
        if self.name.len() > 0xFFFF {
            return Err(Error::amf_encode("Command name too long"));
        }
        match &self.command_object {
            Some(obj) => {
                if !crate::amf0::check_wf(obj) {
                    return Err(Error::amf_encode("Command object does not fit the wire format"));
                }
            },
            None => (),
        }
        if !crate::amf0::check_vals_wf(&self.arguments) {
            return Err(Error::amf_encode("Command argument does not fit the wire format"));
        }
        let mut encoder = Amf0Encoder::new();
        let name_value = Amf0Value::String(copy_bytes(&self.name));
        match encoder.encode(&name_value) {
            Ok(()) => (),
            Err(e) => {
                return Err(e);
            },
        }
        let tid_value = Amf0Value::Number(self.transaction_id);
        match encoder.encode(&tid_value) {
            Ok(()) => (),
            Err(e) => {
                return Err(e);
            },
        }
        match &self.command_object {
            Some(obj) => {
                match encoder.encode(obj) {
                    Ok(()) => (),
                    Err(e) => {
                        return Err(e);
                    },
                }
            },
            None => {
                match encoder.encode(&Amf0Value::Null) {
                    Ok(()) => (),
                    Err(e) => {
                        return Err(e);
                    },
                }
            },
        }
        let n = self.arguments.len();
        let mut i: usize = 0;
        let ghost head = encoder.bytes();
        proof {
            lemma_vals_view_index(self.arguments@);
            assert(vals_view(self.arguments@.take(0)) =~= Seq::<Amf0Term>::empty());
            assert(head + vals_enc(vals_view(self.arguments@.take(0))) =~= head);
            crate::amf0::lemma_vals_wf_index(vals_view(self.arguments@));
        }
        while i < n
            invariant
                n == self.arguments@.len(),
                i <= n,
                vals_wf(vals_view(self.arguments@)),
                encoder.wf(),
                encoder.bytes() == head + vals_enc(vals_view(self.arguments@.take(i as int))),
                vals_view(self.arguments@).len() == self.arguments@.len(),
                forall|j: int|
                    0 <= j < self.arguments@.len() ==> #[trigger] vals_view(self.arguments@)[j]
                        == amf_view(self.arguments@[j]),
            decreases n - i,
        {
            proof {
                crate::amf0::lemma_vals_wf_index(vals_view(self.arguments@));
            }
            match encoder.encode(&self.arguments[i]) {
                Ok(()) => (),
                Err(e) => {
                    proof {
                        assert(vals_view(self.arguments@)[i as int] == amf_view(
                            self.arguments@[i as int],
                        ));
                        assert(amf_wf(amf_view(self.arguments@[i as int])));
                    }
                    return Err(e);
                },
            }
            proof {
                let elem = amf_view(self.arguments@[i as int]);
                crate::amf0::lemma_vals_view_index(self.arguments@.take(i as int));
                crate::amf0::lemma_vals_view_index(self.arguments@.take(i + 1));
                assert(vals_view(self.arguments@.take(i + 1)) =~= vals_view(
                    self.arguments@.take(i as int),
                ) + seq![elem]);
                crate::amf0::lemma_vals_enc_concat(
                    vals_view(self.arguments@.take(i as int)),
                    seq![elem],
                );
                crate::amf0::lemma_vals_enc_singleton(elem);
                assert(encoder.bytes() =~= head + vals_enc(
                    vals_view(self.arguments@.take(i + 1)),
                ));
            }
            i = i + 1;
        }
        proof {
            assert(self.arguments@.take(n as int) =~= self.arguments@);
        }
        Ok(encoder.get_bytes())
    }

    /// Decode a command from bytes: a string name, a numeric transaction
    /// id, then the optional object and the arguments, to the end of the
    /// input.
    #[verifier::rlimit(100)]
    pub fn decode(data: &[u8]) -> (r: Result<RtmpCommand, Error>)
        ensures
            r is Ok <==> cmd_dec(data@) is Some,
            r is Ok ==> (cmd_dec(data@) matches Some(c) ==> r->Ok_0.name@ == c.0
                && r->Ok_0.transaction_id == c.1 && opt_view(r->Ok_0.command_object) == c.2
                && vals_view(r->Ok_0.arguments@) == c.3),
            r is Err ==> r->Err_0 is AmfDecode,
    {
        let mut buf = ByteBuffer::new(vstd::slice::slice_to_vec(data));
        proof {
            assert(buf.bytes().skip(0) =~= data@);
        }
        let name_val = match crate::amf0::decode_value(&mut buf) {
            Ok(v) => v,
            Err(e) => {
                return Err(e);
            },
        };
        let name = match name_val {
            Amf0Value::String(b) => b,
            Amf0Value::LongString(b) => b,
            _ => {
                return Err(Error::amf_decode("Command name must be string"));
            },
        };
        let ghost n1 = buf.pos();
        proof {
            assert(data@.skip(0).skip(n1) =~= data@.skip(n1));
            lemma_amf_dec_len(data@);
        }
        let tid_val = match crate::amf0::decode_value(&mut buf) {
            Ok(v) => v,
            Err(e) => {
                return Err(e);
            },
        };
        let transaction_id = match tid_val {
            Amf0Value::Number(b) => b,
            _ => {
                return Err(Error::amf_decode("Transaction ID must be number"));
            },
        };
        let ghost n2 = buf.pos() - n1;
        proof {
            assert(data@.skip(n1).skip(n2) =~= data@.skip(n1 + n2));
            lemma_amf_dec_len(data@.skip(n1));
        }
        if !buf.has_remaining(1) {
            let r = RtmpCommand {
                name,
                transaction_id,
                command_object: None,
                arguments: Vec::new(),
            };
            proof {
                assert(vals_view(r.arguments@) =~= Seq::<Amf0Term>::empty());
            }
            return Ok(r);
        }
        let command_object = match crate::amf0::decode_value(&mut buf) {
            Ok(v) => v,
            Err(e) => {
                return Err(e);
            },
        };
        let ghost n3 = buf.pos() - n1 - n2;
        proof {
            lemma_amf_dec_len(data@.skip(n1 + n2));
            assert(data@.skip(n1 + n2).skip(n3) =~= data@.skip(n1 + n2 + n3));
        }
        let arguments = match decode_values(&mut buf) {
            Ok(vs) => vs,
            Err(e) => {
                return Err(e);
            },
        };
        Ok(RtmpCommand { name, transaction_id, command_object: Some(command_object), arguments })
    }
}

/// Copy a byte vector.
pub fn copy_bytes(data: &Vec<u8>) -> (r: Vec<u8>)
    ensures
        r@ == data@,
{
    let mut out: Vec<u8> = Vec::new();
    let n = data.len();
    let mut i: usize = 0;
    while i < n
        invariant
            n == data@.len(),
            i <= n,
            out@ == data@.subrange(0, i as int),
        decreases n - i,
    {
        out.push(data[i]);
        i = i + 1;
        proof {
            assert(out@ =~= data@.subrange(0, i as int));
        }
    }
    proof {
        assert(data@.subrange(0, n as int) =~= data@);
    }
    out
}

/// The bit pattern of the wire number 1.0, the connect transaction id.
pub const TID_ONE_BITS: u64 = 0x3FF0000000000000;

impl RtmpCommand {
    /// The connect command: the app, connection type, flash version and
    /// tcUrl in its command object, transaction id 1.
    pub fn connect(app: &str, tc_url: &str) -> (r: RtmpCommand)
        ensures
            r.name@ == "connect".spec_bytes(),
            r.transaction_id == TID_ONE_BITS,
            opt_view(r.command_object) == Some(
                Amf0Term::Object(
                    seq![
                        ("app".spec_bytes(), Amf0Term::String(app.spec_bytes())),
                        ("type".spec_bytes(), Amf0Term::String("nonprivate".spec_bytes())),
                        ("flashVer".spec_bytes(), Amf0Term::String("FMLE/3.0".spec_bytes())),
                        ("tcUrl".spec_bytes(), Amf0Term::String(tc_url.spec_bytes())),
                    ],
                ),
            ),
            r.arguments@.len() == 0,
    {
        let mut cmd = RtmpCommand::new("connect", TID_ONE_BITS);
        let mut obj: Vec<(Vec<u8>, Amf0Value)> = Vec::new();
        obj.push(("app".as_bytes_vec(), Amf0Value::String(app.as_bytes_vec())));
        obj.push(("type".as_bytes_vec(), Amf0Value::String("nonprivate".as_bytes_vec())));
        obj.push(("flashVer".as_bytes_vec(), Amf0Value::String("FMLE/3.0".as_bytes_vec())));
        obj.push(("tcUrl".as_bytes_vec(), Amf0Value::String(tc_url.as_bytes_vec())));
        proof {
            crate::amf0::lemma_props_view_index(obj@);
            assert(props_view(obj@) =~= seq![
                ("app".spec_bytes(), Amf0Term::String(app.spec_bytes())),
                ("type".spec_bytes(), Amf0Term::String("nonprivate".spec_bytes())),
                ("flashVer".spec_bytes(), Amf0Term::String("FMLE/3.0".spec_bytes())),
                ("tcUrl".spec_bytes(), Amf0Term::String(tc_url.spec_bytes())),
            ]);
        }
        cmd.command_object = Some(Amf0Value::Object(obj));
        cmd
    }

    /// The createStream command: a Null command object.
    pub fn create_stream(transaction_id: u64) -> (r: RtmpCommand)
        ensures
            r.name@ == "createStream".spec_bytes(),
            r.transaction_id == transaction_id,
            opt_view(r.command_object) == Some(Amf0Term::Null),
            r.arguments@.len() == 0,
    {
        let mut cmd = RtmpCommand::new("createStream", transaction_id);
        cmd.command_object = Some(Amf0Value::Null);
        cmd
    }

    /// The publish command: the stream name and publish type as arguments,
    /// transaction id 0.
    pub fn publish(stream_name: &str, publish_type: &str) -> (r: RtmpCommand)
        ensures
            r.name@ == "publish".spec_bytes(),
            r.transaction_id == 0,
            opt_view(r.command_object) == Some(Amf0Term::Null),
            vals_view(r.arguments@) == seq![
                Amf0Term::String(stream_name.spec_bytes()),
                Amf0Term::String(publish_type.spec_bytes()),
            ],
    {
        let mut cmd = RtmpCommand::new("publish", 0);
        cmd.command_object = Some(Amf0Value::Null);
        cmd.arguments.push(Amf0Value::String(stream_name.as_bytes_vec()));
        cmd.arguments.push(Amf0Value::String(publish_type.as_bytes_vec()));
        proof {
            lemma_vals_view_index(cmd.arguments@);
            assert(vals_view(cmd.arguments@) =~= seq![
                Amf0Term::String(stream_name.spec_bytes()),
                Amf0Term::String(publish_type.spec_bytes()),
            ]);
        }
        cmd
    }

    /// The play command: the stream name, start, duration and reset flag as
    /// arguments, transaction id 0.  Start and duration carry the bit
    /// patterns of the wire numbers.
    pub fn play(stream_name: &str, start: u64, duration: u64, reset: bool) -> (r: RtmpCommand)
        ensures
            r.name@ == "play".spec_bytes(),
            r.transaction_id == 0,
            opt_view(r.command_object) == Some(Amf0Term::Null),
            vals_view(r.arguments@) == seq![
                Amf0Term::String(stream_name.spec_bytes()),
                Amf0Term::Number(start),
                Amf0Term::Number(duration),
                Amf0Term::Boolean(reset),
            ],
    {
        let mut cmd = RtmpCommand::new("play", 0);
        cmd.command_object = Some(Amf0Value::Null);
        cmd.arguments.push(Amf0Value::String(stream_name.as_bytes_vec()));
        cmd.arguments.push(Amf0Value::Number(start));
        cmd.arguments.push(Amf0Value::Number(duration));
        cmd.arguments.push(Amf0Value::Boolean(reset));
        proof {
            lemma_vals_view_index(cmd.arguments@);
            assert(vals_view(cmd.arguments@) =~= seq![
                Amf0Term::String(stream_name.spec_bytes()),
                Amf0Term::Number(start),
                Amf0Term::Number(duration),
                Amf0Term::Boolean(reset),
            ]);
        }
        cmd
    }

    /// A _result response carrying one value, under the transaction id it
    /// answers.
    pub fn result(transaction_id: u64, result: Amf0Value) -> (r: RtmpCommand)
        ensures
            r.name@ == "_result".spec_bytes(),
            r.transaction_id == transaction_id,
            opt_view(r.command_object) == Some(Amf0Term::Null),
            vals_view(r.arguments@) == seq![amf_view(result)],
    {
        let mut cmd = RtmpCommand::new("_result", transaction_id);
        cmd.command_object = Some(Amf0Value::Null);
        let ghost rv = amf_view(result);
        cmd.arguments.push(result);
        proof {
            lemma_vals_view_index(cmd.arguments@);
            assert(vals_view(cmd.arguments@) =~= seq![rv]);
        }
        cmd
    }

    /// An _error response carrying one value, under the transaction id it
    /// answers.
    pub fn error(transaction_id: u64, error_obj: Amf0Value) -> (r: RtmpCommand)
        ensures
            r.name@ == "_error".spec_bytes(),
            r.transaction_id == transaction_id,
            opt_view(r.command_object) == Some(Amf0Term::Null),
            vals_view(r.arguments@) == seq![amf_view(error_obj)],
    {
        let mut cmd = RtmpCommand::new("_error", transaction_id);
        cmd.command_object = Some(Amf0Value::Null);
        let ghost rv = amf_view(error_obj);
        cmd.arguments.push(error_obj);
        proof {
            lemma_vals_view_index(cmd.arguments@);
            assert(vals_view(cmd.arguments@) =~= seq![rv]);
        }
        cmd
    }

    /// An onStatus notification: an info object with the level, code and
    /// description, transaction id 0.
    pub fn on_status(level: &str, code: &str, description: &str) -> (r: RtmpCommand)
        ensures
            r.name@ == "onStatus".spec_bytes(),
            r.transaction_id == 0,
            opt_view(r.command_object) == Some(Amf0Term::Null),
            vals_view(r.arguments@) == seq![
                Amf0Term::Object(
                    seq![
                        ("level".spec_bytes(), Amf0Term::String(level.spec_bytes())),
                        ("code".spec_bytes(), Amf0Term::String(code.spec_bytes())),
                        (
                            "description".spec_bytes(),
                            Amf0Term::String(description.spec_bytes()),
                        ),
                    ],
                ),
            ],
    {
        let mut cmd = RtmpCommand::new("onStatus", 0);
        cmd.command_object = Some(Amf0Value::Null);
        let mut info: Vec<(Vec<u8>, Amf0Value)> = Vec::new();
        info.push(("level".as_bytes_vec(), Amf0Value::String(level.as_bytes_vec())));
        info.push(("code".as_bytes_vec(), Amf0Value::String(code.as_bytes_vec())));
        info.push(("description".as_bytes_vec(), Amf0Value::String(description.as_bytes_vec())));
        proof {
            crate::amf0::lemma_props_view_index(info@);
            assert(props_view(info@) =~= seq![
                ("level".spec_bytes(), Amf0Term::String(level.spec_bytes())),
                ("code".spec_bytes(), Amf0Term::String(code.spec_bytes())),
                ("description".spec_bytes(), Amf0Term::String(description.spec_bytes())),
            ]);
        }
        cmd.arguments.push(Amf0Value::Object(info));
        proof {
            lemma_vals_view_index(cmd.arguments@);
            assert(vals_view(cmd.arguments@) =~= seq![
                Amf0Term::Object(
                    seq![
                        ("level".spec_bytes(), Amf0Term::String(level.spec_bytes())),
                        ("code".spec_bytes(), Amf0Term::String(code.spec_bytes())),
                        (
                            "description".spec_bytes(),
                            Amf0Term::String(description.spec_bytes()),
                        ),
                    ],
                ),
            ]);
        }
        cmd
    }
}

} // verus!
