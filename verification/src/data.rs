//! Data messages: a type name followed by AMF0 values, as used for
//! onMetaData and @setDataFrame.

use vstd::prelude::*;
use vstd::string::{StrSliceExecFns, StringSliceAdditionalSpecFns};
use crate::amf0::{Amf0Value, Amf0Term, Amf0Encoder, amf_dec, amf_enc, amf_wf, vals_enc, vals_view,
    vals_wf, props_view, amf_view, lemma_amf_dec_len, lemma_vals_view_index, check_vals_wf};
use crate::buffer::ByteBuffer;
use crate::command::{values_dec, name_bytes, copy_bytes};
use crate::error::Error;

verus! {

broadcast use vstd::std_specs::vec::axiom_spec_len;

/// The meaning of bytes as one data message: a type name then values to
/// the end of the input.
pub open spec fn data_dec(s: Seq<u8>) -> Option<(Seq<u8>, Seq<Amf0Term>)> {
    match amf_dec(s) {
        Option::Some((nv, n1)) => {
            if !(1 <= n1 <= s.len()) {
                Option::None
            } else {
                match name_bytes(nv) {
                    Option::Some(name) => {
                        match values_dec(s.skip(n1)) {
                            Option::Some(vs) => Option::Some((name, vs)),
                            Option::None => Option::None,
                        }
                    },
                    Option::None => Option::None,
                }
            }
        },
        Option::None => Option::None,
    }
}

/// A data message: its type name's UTF-8 bytes and its values.
#[derive(Debug, PartialEq)]
pub struct RtmpData {
    pub data_type: Vec<u8>,
    pub values: Vec<Amf0Value>,
}

impl RtmpData {
    /// A data message with no values yet.
    pub fn new(data_type: &str) -> (r: RtmpData)
        ensures
            r.data_type@ == data_type.spec_bytes(),
            r.values@.len() == 0,
    {
        RtmpData { data_type: data_type.as_bytes_vec(), values: Vec::new() }
    }

    /// An onMetaData message carrying one metadata object.
    pub fn on_metadata(metadata: Vec<(Vec<u8>, Amf0Value)>) -> (r: RtmpData)
        ensures
            r.data_type@ == "onMetaData".spec_bytes(),
            vals_view(r.values@) == seq![Amf0Term::Object(props_view(metadata@))],
    {
        let mut data = RtmpData::new("onMetaData");
        let ghost mv = props_view(metadata@);
        data.values.push(Amf0Value::Object(metadata));
        proof {
            lemma_vals_view_index(data.values@);
            assert(vals_view(data.values@) =~= seq![Amf0Term::Object(mv)]);
        }
        data
    }

    /// A @setDataFrame message: the inner event key and its value.
    pub fn set_data_frame(key: &str, value: Amf0Value) -> (r: RtmpData)
        ensures
            r.data_type@ == "@setDataFrame".spec_bytes(),
            vals_view(r.values@) == seq![
                Amf0Term::String(key.spec_bytes()),
                amf_view(value),
            ],
    {
        let mut data = RtmpData::new("@setDataFrame");
        let ghost vv = amf_view(value);
        data.values.push(Amf0Value::String(key.as_bytes_vec()));
        data.values.push(value);
        proof {
            lemma_vals_view_index(data.values@);
            assert(vals_view(data.values@) =~= seq![Amf0Term::String(key.spec_bytes()), vv]);
        }
        data
    }

    /// Encode the data message: the type name, then each value.  Fails,
    /// with nothing decided, exactly when a part does not fit the wire
    /// format.
    pub fn encode(&self) -> (r: Result<Vec<u8>, Error>)
        ensures
            r is Ok <==> (self.data_type@.len() <= 0xFFFF && vals_wf(vals_view(self.values@))),
            r is Ok ==> r->Ok_0@ == amf_enc(Amf0Term::String(self.data_type@)) + vals_enc(
                vals_view(self.values@),
            ),
            r is Err ==> r->Err_0 is AmfEncode,
    {
        if self.data_type.len() > 0xFFFF {
            return Err(Error::amf_encode("Data type name too long"));
        }
        if !check_vals_wf(&self.values) {
            return Err(Error::amf_encode("Data value does not fit the wire format"));
        }
        let mut encoder = Amf0Encoder::new();
        let name_value = Amf0Value::String(copy_bytes(&self.data_type));
        match encoder.encode(&name_value) {
            Ok(()) => (),
            Err(e) => {
                return Err(e);
            },
        }
        let n = self.values.len();
        let mut i: usize = 0;
        let ghost head = encoder.bytes();
        proof {
            lemma_vals_view_index(self.values@);
            assert(vals_view(self.values@.take(0)) =~= Seq::<Amf0Term>::empty());
            assert(head + vals_enc(vals_view(self.values@.take(0))) =~= head);
            crate::amf0::lemma_vals_wf_index(vals_view(self.values@));
        }
        while i < n
            invariant
                n == self.values@.len(),
                i <= n,
                vals_wf(vals_view(self.values@)),
                encoder.wf(),
                encoder.bytes() == head + vals_enc(vals_view(self.values@.take(i as int))),
                vals_view(self.values@).len() == self.values@.len(),
                forall|j: int|
                    0 <= j < self.values@.len() ==> #[trigger] vals_view(self.values@)[j]
                        == amf_view(self.values@[j]),
            decreases n - i,
        {
            proof {
                crate::amf0::lemma_vals_wf_index(vals_view(self.values@));
            }
            match encoder.encode(&self.values[i]) {
                Ok(()) => (),
                Err(e) => {
                    proof {
                        assert(vals_view(self.values@)[i as int] == amf_view(
                            self.values@[i as int],
                        ));
                        assert(amf_wf(amf_view(self.values@[i as int])));
                    }
                    return Err(e);
                },
            }
            proof {
                let elem = amf_view(self.values@[i as int]);
                lemma_vals_view_index(self.values@.take(i as int));
                lemma_vals_view_index(self.values@.take(i + 1));
                assert(vals_view(self.values@.take(i + 1)) =~= vals_view(
                    self.values@.take(i as int),
                ) + seq![elem]);
                crate::amf0::lemma_vals_enc_concat(
                    vals_view(self.values@.take(i as int)),
                    seq![elem],
                );
                crate::amf0::lemma_vals_enc_singleton(elem);
                assert(encoder.bytes() =~= head + vals_enc(vals_view(self.values@.take(i + 1))));
            }
            i = i + 1;
        }
        proof {
            assert(self.values@.take(n as int) =~= self.values@);
        }
        Ok(encoder.get_bytes())
    }

    /// Decode a data message from bytes: a string type name, then values
    /// to the end of the input.
    pub fn decode(data: &[u8]) -> (r: Result<RtmpData, Error>)
        ensures
            r is Ok <==> data_dec(data@) is Some,
            r is Ok ==> (data_dec(data@) matches Some(d) ==> r->Ok_0.data_type@ == d.0
                && vals_view(r->Ok_0.values@) == d.1),
            r is Err ==> r->Err_0 is AmfDecode,
    {
        let mut buf = ByteBuffer::new(vstd::slice::slice_to_vec(data));
        proof {
            assert(buf.bytes().skip(0) =~= data@);
        }
        let name_val = match crate::amf0::decode_value(&mut buf) {
            Ok(v) => v,
            Err(e) => {
                return Err(e);
            },
        };
        let data_type = match name_val {
            Amf0Value::String(b) => b,
            Amf0Value::LongString(b) => b,
            _ => {
                return Err(Error::amf_decode("Data type must be string"));
            },
        };
        let ghost n1 = buf.pos();
        proof {
            lemma_amf_dec_len(data@);
            assert(data@.skip(0).skip(n1) =~= data@.skip(n1));
        }
        let values = match crate::command::decode_values(&mut buf) {
            Ok(vs) => vs,
            Err(e) => {
                return Err(e);
            },
        };
        Ok(RtmpData { data_type, values })
    }

    /// The metadata object, when this is an onMetaData message whose first
    /// value is an object.
    pub fn get_metadata(&self) -> (r: Option<&Vec<(Vec<u8>, Amf0Value)>>)
        ensures
            r is Some ==> self.data_type@ == "onMetaData".spec_bytes() && self.values@.len() > 0,
    {
        if !str_bytes_is(&self.data_type, "onMetaData") {
            return None;
        }
        if self.values.len() == 0 {
            return None;
        }
        self.values[0].as_object()
    }
}

/// Whether the bytes spell the given ASCII name.
pub fn str_bytes_is(bytes: &Vec<u8>, name: &str) -> (r: bool)
    ensures
        r <==> bytes@ == name.spec_bytes(),
{
    let nv = name.as_bytes_vec();
    if bytes.len() != nv.len() {
        return false;
    }
    let n = bytes.len();
    let mut i: usize = 0;
    while i < n
        invariant
            n == bytes@.len() == nv@.len(),
            i <= n,
            nv@ == name.spec_bytes(),
            forall|j: int| 0 <= j < i ==> bytes@[j] == nv@[j],
        decreases n - i,
    {
        if bytes[i] != nv[i] {
            return false;
        }
        i = i + 1;
    }
    proof {
        assert(bytes@ =~= nv@);
    }
    true
}

} // verus!
