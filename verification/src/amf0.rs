//! AMF0 values: a closed tagged union, its wire encoding, and the exact
//! byte-level meaning of both.
//!
//! A Number or a Date timestamp is held as the 64-bit IEEE-754 bit pattern
//! that stands on the wire (big-endian); string payloads are held as their
//! UTF-8 bytes.  Object members are held in insertion order.

use vstd::prelude::*;
use crate::buffer::{ByteBuffer, be16, be32, be64, be16_bytes, be32_bytes, be64_bytes};
use crate::error::Error;
use vstd::string::StringSliceAdditionalSpecFns;
use crate::markers;

verus! {

broadcast use vstd::std_specs::vec::axiom_spec_len;

/// An AMF0 value as held in memory.
#[derive(Debug, PartialEq)]
pub enum Amf0Value {
    /// 0x00: the IEEE-754 bit pattern of the number.
    Number(u64),
    /// 0x01
    Boolean(bool),
    /// 0x02: UTF-8 bytes, at most 65535 of them.
    String(Vec<u8>),
    /// 0x03: members in insertion order.
    Object(Vec<(Vec<u8>, Amf0Value)>),
    /// 0x05
    Null,
    /// 0x06
    Undefined,
    /// 0x08: members in insertion order; the wire count prefix is advisory.
    EcmaArray(Vec<(Vec<u8>, Amf0Value)>),
    /// 0x0A: strict array.
    Array(Vec<Amf0Value>),
    /// 0x0B: IEEE-754 bit pattern of the millisecond timestamp, and a
    /// time-zone offset.
    Date(u64, i16),
    /// 0x0C: UTF-8 bytes with a u32 length prefix.
    LongString(Vec<u8>),
    /// 0x0D
    Unsupported,
    /// 0x0F
    XmlDocument(Vec<u8>),
    /// 0x10: class name and members.
    TypedObject(Vec<u8>, Vec<(Vec<u8>, Amf0Value)>),
}

/// The mathematical shape of an AMF0 value, over sequences.
pub enum Amf0Term {
    Number(u64),
    Boolean(bool),
    String(Seq<u8>),
    Object(Seq<(Seq<u8>, Amf0Term)>),
    Null,
    Undefined,
    EcmaArray(Seq<(Seq<u8>, Amf0Term)>),
    Array(Seq<Amf0Term>),
    Date(u64, i16),
    LongString(Seq<u8>),
    Unsupported,
    XmlDocument(Seq<u8>),
    TypedObject(Seq<u8>, Seq<(Seq<u8>, Amf0Term)>),
}

/// The shape of an in-memory value.
pub open spec fn amf_view(v: Amf0Value) -> Amf0Term
    decreases v, 0int,
{
    match v {
        Amf0Value::Number(b) => Amf0Term::Number(b),
        Amf0Value::Boolean(b) => Amf0Term::Boolean(b),
        Amf0Value::String(s) => Amf0Term::String(s@),
        Amf0Value::Object(ps) => Amf0Term::Object(props_view(ps@)),
        Amf0Value::Null => Amf0Term::Null,
        Amf0Value::Undefined => Amf0Term::Undefined,
        Amf0Value::EcmaArray(ps) => Amf0Term::EcmaArray(props_view(ps@)),
        Amf0Value::Array(vs) => Amf0Term::Array(vals_view(vs@)),
        Amf0Value::Date(b, tz) => Amf0Term::Date(b, tz),
        Amf0Value::LongString(s) => Amf0Term::LongString(s@),
        Amf0Value::Unsupported => Amf0Term::Unsupported,
        Amf0Value::XmlDocument(s) => Amf0Term::XmlDocument(s@),
        Amf0Value::TypedObject(n, ps) => Amf0Term::TypedObject(n@, props_view(ps@)),
    }
}

/// The shapes of a member list.
pub open spec fn props_view(s: Seq<(Vec<u8>, Amf0Value)>) -> Seq<(Seq<u8>, Amf0Term)>
    decreases s, 1int,
{
    if s.len() == 0 {
        Seq::empty()
    } else {
        seq![(s[0].0@, amf_view(s[0].1))] + props_view(s.drop_first())
    }
}

/// The shapes of an array element list.
pub open spec fn vals_view(s: Seq<Amf0Value>) -> Seq<Amf0Term>
    decreases s, 1int,
{
    if s.len() == 0 {
        Seq::empty()
    } else {
        seq![amf_view(s[0])] + vals_view(s.drop_first())
    }
}

impl View for Amf0Value {
    type V = Amf0Term;

    open spec fn view(&self) -> Amf0Term {
        amf_view(*self)
    }
}

/// Whether a value fits the wire format: string payloads within their length
/// prefixes, member keys non-empty (an empty key is the terminator).
pub open spec fn amf_wf(m: Amf0Term) -> bool
    decreases m, 0int,
{
    match m {
        Amf0Term::Number(_) => true,
        Amf0Term::Boolean(_) => true,
        Amf0Term::String(s) => s.len() <= 0xFFFF,
        Amf0Term::Object(ps) => props_wf(ps),
        Amf0Term::Null => true,
        Amf0Term::Undefined => true,
        Amf0Term::EcmaArray(ps) => ps.len() <= 0xFFFFFFFF && props_wf(ps),
        Amf0Term::Array(vs) => vs.len() <= 0xFFFFFFFF && vals_wf(vs),
        Amf0Term::Date(_, _) => true,
        Amf0Term::LongString(s) => s.len() <= 0xFFFFFFFF,
        Amf0Term::Unsupported => true,
        Amf0Term::XmlDocument(s) => s.len() <= 0xFFFFFFFF,
        Amf0Term::TypedObject(n, ps) => n.len() <= 0xFFFF && props_wf(ps),
    }
}

/// Well-formedness of a member list.
pub open spec fn props_wf(ps: Seq<(Seq<u8>, Amf0Term)>) -> bool
    decreases ps, 1int,
{
    if ps.len() == 0 {
        true
    } else {
        &&& 1 <= ps[0].0.len() <= 0xFFFF
        &&& amf_wf(ps[0].1)
        &&& props_wf(ps.drop_first())
    }
}

/// Well-formedness of an array element list.
pub open spec fn vals_wf(vs: Seq<Amf0Term>) -> bool
    decreases vs, 1int,
{
    if vs.len() == 0 {
        true
    } else {
        &&& amf_wf(vs[0])
        &&& vals_wf(vs.drop_first())
    }
}

/// The three-byte terminator of Object and EcmaArray member lists.
pub open spec fn obj_end() -> Seq<u8> {
    seq![0u8, 0u8, markers::OBJECT_END]
}

/// The wire encoding of a value.
pub open spec fn amf_enc(m: Amf0Term) -> Seq<u8>
    decreases m, 0int,
{
    match m {
        Amf0Term::Number(b) => seq![markers::NUMBER] + be64_bytes(b),
        Amf0Term::Boolean(b) => seq![markers::BOOLEAN, (if b { 1u8 } else { 0u8 })],
        Amf0Term::String(s) => seq![markers::STRING] + be16_bytes(s.len() as u16) + s,
        Amf0Term::Object(ps) => seq![markers::OBJECT] + props_enc(ps) + obj_end(),
        Amf0Term::Null => seq![markers::NULL],
        Amf0Term::Undefined => seq![markers::UNDEFINED],
        Amf0Term::EcmaArray(ps) => seq![markers::ECMA_ARRAY] + be32_bytes(ps.len() as u32)
            + props_enc(ps) + obj_end(),
        Amf0Term::Array(vs) => seq![markers::STRICT_ARRAY] + be32_bytes(vs.len() as u32)
            + vals_enc(vs),
        Amf0Term::Date(b, tz) => seq![markers::DATE] + be64_bytes(b) + be16_bytes(tz as u16),
        Amf0Term::LongString(s) => seq![markers::LONG_STRING] + be32_bytes(s.len() as u32) + s,
        Amf0Term::Unsupported => seq![markers::UNSUPPORTED],
        Amf0Term::XmlDocument(s) => seq![markers::XML_DOCUMENT] + be32_bytes(s.len() as u32) + s,
        Amf0Term::TypedObject(n, ps) => seq![markers::TYPED_OBJECT] + be16_bytes(n.len() as u16)
            + n + props_enc(ps) + obj_end(),
    }
}

/// The wire encoding of a member list, without the terminator.
pub open spec fn props_enc(ps: Seq<(Seq<u8>, Amf0Term)>) -> Seq<u8>
    decreases ps, 1int,
{
    if ps.len() == 0 {
        Seq::empty()
    } else {
        be16_bytes(ps[0].0.len() as u16) + ps[0].0 + amf_enc(ps[0].1) + props_enc(
            ps.drop_first(),
        )
    }
}

/// The wire encoding of an array element list.
pub open spec fn vals_enc(vs: Seq<Amf0Term>) -> Seq<u8>
    decreases vs, 1int,
{
    if vs.len() == 0 {
        Seq::empty()
    } else {
        amf_enc(vs[0]) + vals_enc(vs.drop_first())
    }
}

/// The shape list of a member list has the same length, member by member.
pub proof fn lemma_props_view_index(s: Seq<(Vec<u8>, Amf0Value)>)
    ensures
        props_view(s).len() == s.len(),
        forall|i: int|
            0 <= i < s.len() ==> #[trigger] props_view(s)[i] == (s[i].0@, amf_view(s[i].1)),
    decreases s.len(),
{
    if s.len() > 0 {
        lemma_props_view_index(s.drop_first());
    }
}

/// The shape list of an element list has the same length, element by element.
pub proof fn lemma_vals_view_index(s: Seq<Amf0Value>)
    ensures
        vals_view(s).len() == s.len(),
        forall|i: int| 0 <= i < s.len() ==> #[trigger] vals_view(s)[i] == amf_view(s[i]),
    decreases s.len(),
{
    if s.len() > 0 {
        lemma_vals_view_index(s.drop_first());
    }
}

/// Member-list well-formedness splits over concatenation.
pub proof fn lemma_props_wf_concat(a: Seq<(Seq<u8>, Amf0Term)>, b: Seq<(Seq<u8>, Amf0Term)>)
    ensures
        props_wf(a + b) <==> props_wf(a) && props_wf(b),
    decreases a.len(),
{
    if a.len() == 0 {
        assert(a + b =~= b);
    } else {
        assert((a + b).drop_first() =~= a.drop_first() + b);
        lemma_props_wf_concat(a.drop_first(), b);
    }
}

/// Element-list well-formedness splits over concatenation.
pub proof fn lemma_vals_wf_concat(a: Seq<Amf0Term>, b: Seq<Amf0Term>)
    ensures
        vals_wf(a + b) <==> vals_wf(a) && vals_wf(b),
    decreases a.len(),
{
    if a.len() == 0 {
        assert(a + b =~= b);
    } else {
        assert((a + b).drop_first() =~= a.drop_first() + b);
        lemma_vals_wf_concat(a.drop_first(), b);
    }
}

/// Member-list encoding distributes over concatenation.
pub proof fn lemma_props_enc_concat(a: Seq<(Seq<u8>, Amf0Term)>, b: Seq<(Seq<u8>, Amf0Term)>)
    ensures
        props_enc(a + b) == props_enc(a) + props_enc(b),
    decreases a.len(),
{
    if a.len() == 0 {
        assert(a + b =~= b);
        assert(props_enc(a) + props_enc(b) =~= props_enc(b));
    } else {
        assert((a + b).drop_first() =~= a.drop_first() + b);
        lemma_props_enc_concat(a.drop_first(), b);
        assert((a + b)[0] == a[0]);
        assert(props_enc(a + b) =~= props_enc(a) + props_enc(b));
    }
}

/// Element-list encoding distributes over concatenation.
pub proof fn lemma_vals_enc_concat(a: Seq<Amf0Term>, b: Seq<Amf0Term>)
    ensures
        vals_enc(a + b) == vals_enc(a) + vals_enc(b),
    decreases a.len(),
{
    if a.len() == 0 {
        assert(a + b =~= b);
        assert(vals_enc(a) + vals_enc(b) =~= vals_enc(b));
    } else {
        assert((a + b).drop_first() =~= a.drop_first() + b);
        lemma_vals_enc_concat(a.drop_first(), b);
        assert((a + b)[0] == a[0]);
        assert(vals_enc(a + b) =~= vals_enc(a) + vals_enc(b));
    }
}


/// The value stored under the first occurrence of a key in a member list.
pub open spec fn prop_lookup(ps: Seq<(Seq<u8>, Amf0Term)>, key: Seq<u8>) -> Option<Amf0Term>
    decreases ps.len(),
{
    if ps.len() == 0 {
        Option::None
    } else if ps[0].0 == key {
        Option::Some(ps[0].1)
    } else {
        prop_lookup(ps.drop_first(), key)
    }
}

/// The number under a key, when its first occurrence holds one.
pub open spec fn num_prop_of(ps: Seq<(Seq<u8>, Amf0Term)>, key: Seq<u8>) -> Option<u64> {
    match prop_lookup(ps, key) {
        Option::Some(Amf0Term::Number(b)) => Option::Some(b),
        _ => Option::None,
    }
}

/// The string bytes under a key, when its first occurrence holds a string.
pub open spec fn str_prop_of(ps: Seq<(Seq<u8>, Amf0Term)>, key: Seq<u8>) -> Option<Seq<u8>> {
    match prop_lookup(ps, key) {
        Option::Some(Amf0Term::String(s)) => Option::Some(s),
        Option::Some(Amf0Term::LongString(s)) => Option::Some(s),
        _ => Option::None,
    }
}

/// The boolean under a key, when its first occurrence holds one.
pub open spec fn bool_prop_of(ps: Seq<(Seq<u8>, Amf0Term)>, key: Seq<u8>) -> Option<bool> {
    match prop_lookup(ps, key) {
        Option::Some(Amf0Term::Boolean(b)) => Option::Some(b),
        _ => Option::None,
    }
}

/// The view of a member list grown by one member.
pub proof fn lemma_props_view_push(s: Seq<(Vec<u8>, Amf0Value)>, p: (Vec<u8>, Amf0Value))
    ensures
        props_view(s.push(p)) == props_view(s) + seq![(p.0@, amf_view(p.1))],
    decreases s.len(),
{
    if s.len() == 0 {
        assert(s.push(p)[0] == p);
        assert(s.push(p).drop_first() =~= Seq::<(Vec<u8>, Amf0Value)>::empty());
        assert(props_view(s.push(p).drop_first()) =~= Seq::<(Seq<u8>, Amf0Term)>::empty());
        assert(props_view(s) =~= Seq::<(Seq<u8>, Amf0Term)>::empty());
        assert(props_view(s.push(p)) =~= props_view(s) + seq![(p.0@, amf_view(p.1))]);
    } else {
        assert(s.push(p)[0] == s[0]);
        assert(s.push(p).drop_first() =~= s.drop_first().push(p));
        lemma_props_view_push(s.drop_first(), p);
        assert(props_view(s.push(p).drop_first()) == props_view(s.drop_first()) + seq![
            (p.0@, amf_view(p.1)),
        ]);
        assert(props_view(s.push(p)) =~= props_view(s) + seq![(p.0@, amf_view(p.1))]);
    }
}

/// Well-formedness of a one-member list.
pub proof fn lemma_props_wf_singleton(p: (Seq<u8>, Amf0Term))
    ensures
        props_wf(seq![p]) == (1 <= p.0.len() <= 0xFFFF && amf_wf(p.1)),
{
    assert(seq![p].drop_first() =~= Seq::<(Seq<u8>, Amf0Term)>::empty());
    assert(props_wf(Seq::<(Seq<u8>, Amf0Term)>::empty()));
    assert(seq![p][0] == p);
}

/// Well-formedness of a one-element list.
pub proof fn lemma_vals_wf_singleton(m: Amf0Term)
    ensures
        vals_wf(seq![m]) == amf_wf(m),
{
    assert(seq![m].drop_first() =~= Seq::<Amf0Term>::empty());
    assert(vals_wf(Seq::<Amf0Term>::empty()));
    assert(seq![m][0] == m);
}

/// The encoding of a one-member list.
pub proof fn lemma_props_enc_singleton(p: (Seq<u8>, Amf0Term))
    ensures
        props_enc(seq![p]) == be16_bytes(p.0.len() as u16) + p.0 + amf_enc(p.1),
{
    assert(seq![p].drop_first() =~= Seq::<(Seq<u8>, Amf0Term)>::empty());
    assert(props_enc(Seq::<(Seq<u8>, Amf0Term)>::empty()) =~= Seq::<u8>::empty());
    assert(seq![p][0] == p);
    assert(props_enc(seq![p]) =~= be16_bytes(p.0.len() as u16) + p.0 + amf_enc(p.1));
}

/// The encoding of a one-element list.
pub proof fn lemma_vals_enc_singleton(m: Amf0Term)
    ensures
        vals_enc(seq![m]) == amf_enc(m),
{
    assert(seq![m].drop_first() =~= Seq::<Amf0Term>::empty());
    assert(vals_enc(Seq::<Amf0Term>::empty()) =~= Seq::<u8>::empty());
    assert(seq![m][0] == m);
    assert(vals_enc(seq![m]) =~= amf_enc(m));
}

/// Whether a value fits the wire format.
pub fn check_wf(v: &Amf0Value) -> (b: bool)
    ensures
        b == amf_wf(v@),
    decreases *v, 0int,
{
    match v {
        Amf0Value::Number(_) => true,
        Amf0Value::Boolean(_) => true,
        Amf0Value::String(s) => s.len() <= 0xFFFF,
        Amf0Value::Object(ps) => check_props_wf(ps),
        Amf0Value::Null => true,
        Amf0Value::Undefined => true,
        Amf0Value::EcmaArray(ps) => {
            proof {
                lemma_props_view_index(ps@);
            }
            ps.len() <= 0xFFFFFFFF && check_props_wf(ps)
        },
        Amf0Value::Array(vs) => {
            proof {
                lemma_vals_view_index(vs@);
            }
            vs.len() <= 0xFFFFFFFF && check_vals_wf(vs)
        },
        Amf0Value::Date(_, _) => true,
        Amf0Value::LongString(s) => s.len() <= 0xFFFFFFFF,
        Amf0Value::Unsupported => true,
        Amf0Value::XmlDocument(s) => s.len() <= 0xFFFFFFFF,
        Amf0Value::TypedObject(n, ps) => n.len() <= 0xFFFF && check_props_wf(ps),
    }
}

/// Whether every member of a list fits the wire format.
pub fn check_props_wf(ps: &Vec<(Vec<u8>, Amf0Value)>) -> (b: bool)
    ensures
        b == props_wf(props_view(ps@)),
    decreases ps@, 1int,
{
    let n = ps.len();
    let mut i: usize = 0;
    let mut ok = true;
    proof {
        lemma_props_view_index(ps@);
        assert(props_view(ps@.take(0)) =~= Seq::<(Seq<u8>, Amf0Term)>::empty());
    }
    while i < n
        invariant
            n == ps@.len(),
            i <= n,
            ok == props_wf(props_view(ps@.take(i as int))),
            props_view(ps@).len() == ps@.len(),
            forall|j: int|
                0 <= j < ps@.len() ==> #[trigger] props_view(ps@)[j] == (
                    ps@[j].0@,
                    amf_view(ps@[j].1),
                ),
        decreases n - i,
    {
        let key_ok = 1 <= ps[i].0.len() && ps[i].0.len() <= 0xFFFF;
        let val_ok = check_wf(&ps[i].1);
        proof {
            lemma_props_view_index(ps@.take(i as int));
            lemma_props_view_index(ps@.take(i + 1));
            assert(props_view(ps@.take(i + 1)) =~= props_view(ps@.take(i as int)) + seq![
                (ps@[i as int].0@, amf_view(ps@[i as int].1)),
            ]);
            lemma_props_wf_concat(
                props_view(ps@.take(i as int)),
                seq![(ps@[i as int].0@, amf_view(ps@[i as int].1))],
            );
        }
        ok = ok && key_ok && val_ok;
        proof {
            let pv = props_view(ps@.take(i as int));
            let pair = (ps@[i as int].0@, amf_view(ps@[i as int].1));
            lemma_props_wf_singleton(pair);
            assert(key_ok == (1 <= pair.0.len() <= 0xFFFF));
            assert(val_ok == amf_wf(pair.1));
            assert(props_wf(props_view(ps@.take(i + 1))) == (props_wf(pv) && props_wf(seq![pair])));
        }
        i = i + 1;
    }
    proof {
        assert(ps@.take(n as int) =~= ps@);
    }
    ok
}

/// Whether every element of an array fits the wire format.
pub fn check_vals_wf(vs: &Vec<Amf0Value>) -> (b: bool)
    ensures
        b == vals_wf(vals_view(vs@)),
    decreases vs@, 1int,
{
    let n = vs.len();
    let mut i: usize = 0;
    let mut ok = true;
    proof {
        lemma_vals_view_index(vs@);
        assert(vals_view(vs@.take(0)) =~= Seq::<Amf0Term>::empty());
    }
    while i < n
        invariant
            n == vs@.len(),
            i <= n,
            ok == vals_wf(vals_view(vs@.take(i as int))),
            vals_view(vs@).len() == vs@.len(),
            forall|j: int| 0 <= j < vs@.len() ==> #[trigger] vals_view(vs@)[j] == amf_view(vs@[j]),
        decreases n - i,
    {
        let val_ok = check_wf(&vs[i]);
        proof {
            lemma_vals_view_index(vs@.take(i as int));
            lemma_vals_view_index(vs@.take(i + 1));
            assert(vals_view(vs@.take(i + 1)) =~= vals_view(vs@.take(i as int)) + seq![
                amf_view(vs@[i as int]),
            ]);
            lemma_vals_wf_concat(vals_view(vs@.take(i as int)), seq![amf_view(vs@[i as int])]);
        }
        ok = ok && val_ok;
        proof {
            let vv = vals_view(vs@.take(i as int));
            let elem = amf_view(vs@[i as int]);
            lemma_vals_wf_singleton(elem);
            assert(val_ok == amf_wf(elem));
            assert(vals_wf(vals_view(vs@.take(i + 1))) == (vals_wf(vv) && vals_wf(seq![elem])));
        }
        i = i + 1;
    }
    proof {
        assert(vs@.take(n as int) =~= vs@);
    }
    ok
}

impl Amf0Value {
    /// Extract the bit pattern of a Number.
    pub fn as_number(&self) -> (r: Option<u64>)
        ensures
            r is Some <==> self@ is Number,
            r is Some ==> self@ == Amf0Term::Number(r->0),
    {
        match self {
            Amf0Value::Number(n) => Some(*n),
            _ => None,
        }
    }

    /// Extract the byte payload of a String or LongString.
    pub fn as_string(&self) -> (r: Option<&Vec<u8>>)
        ensures
            r is Some <==> (self@ is String || self@ is LongString),
            self@ is String ==> r is Some && self@->String_0 == r->0@,
            self@ is LongString ==> r is Some && self@->LongString_0 == r->0@,
    {
        match self {
            Amf0Value::String(s) => Some(s),
            Amf0Value::LongString(s) => Some(s),
            _ => None,
        }
    }

    /// Extract a Boolean.
    pub fn as_boolean(&self) -> (r: Option<bool>)
        ensures
            r is Some <==> self@ is Boolean,
            r is Some ==> self@ == Amf0Term::Boolean(r->0),
    {
        match self {
            Amf0Value::Boolean(b) => Some(*b),
            _ => None,
        }
    }

    /// Extract the member list of an Object, EcmaArray or TypedObject.
    pub fn as_object(&self) -> (r: Option<&Vec<(Vec<u8>, Amf0Value)>>)
        ensures
            r is Some <==> (self@ is Object || self@ is EcmaArray || self@ is TypedObject),
            self@ is Object ==> r is Some && self@->Object_0 == props_view(r->0@),
            self@ is EcmaArray ==> r is Some && self@->EcmaArray_0 == props_view(r->0@),
            self@ is TypedObject ==> r is Some && self@->TypedObject_1 == props_view(r->0@),
    {
        match self {
            Amf0Value::Object(ps) => Some(ps),
            Amf0Value::EcmaArray(ps) => Some(ps),
            Amf0Value::TypedObject(_, ps) => Some(ps),
            _ => None,
        }
    }

    /// Extract the element list of a strict array.
    pub fn as_array(&self) -> (r: Option<&Vec<Amf0Value>>)
        ensures
            r is Some <==> self@ is Array,
            self@ is Array ==> r is Some && self@->Array_0 == vals_view(r->0@),
    {
        match self {
            Amf0Value::Array(vs) => Some(vs),
            _ => None,
        }
    }

    /// Whether the value is Null or Undefined.
    pub fn is_null(&self) -> (r: bool)
        ensures
            r <==> (self@ is Null || self@ is Undefined),
    {
        match self {
            Amf0Value::Null => true,
            Amf0Value::Undefined => true,
            _ => false,
        }
    }
}

/// Every member of a well-formed list is itself well-formed, with a key
/// within bounds.
pub proof fn lemma_props_wf_index(ps: Seq<(Seq<u8>, Amf0Term)>)
    requires
        props_wf(ps),
    ensures
        forall|i: int|
            0 <= i < ps.len() ==> 1 <= (#[trigger] ps[i]).0.len() <= 0xFFFF && amf_wf(ps[i].1),
    decreases ps.len(),
{
    if ps.len() > 0 {
        lemma_props_wf_index(ps.drop_first());
        assert forall|i: int|
            0 <= i < ps.len() implies 1 <= (#[trigger] ps[i]).0.len() <= 0xFFFF && amf_wf(
            ps[i].1,
        ) by {
            if i > 0 {
                assert(ps[i] == ps.drop_first()[i - 1]);
            }
        }
    }
}

/// Every element of a well-formed list is itself well-formed.
pub proof fn lemma_vals_wf_index(vs: Seq<Amf0Term>)
    requires
        vals_wf(vs),
    ensures
        forall|i: int| 0 <= i < vs.len() ==> amf_wf(#[trigger] vs[i]),
    decreases vs.len(),
{
    if vs.len() > 0 {
        lemma_vals_wf_index(vs.drop_first());
        assert forall|i: int| 0 <= i < vs.len() implies amf_wf(#[trigger] vs[i]) by {
            if i > 0 {
                assert(vs[i] == vs.drop_first()[i - 1]);
            }
        }
    }
}

/// Append the wire encoding of a value to the buffer.
#[verifier::rlimit(50)]
pub fn encode_value(buf: &mut ByteBuffer, v: &Amf0Value)
    requires
        old(buf).wf(),
        amf_wf(v@),
    ensures
        final(buf).wf(),
        final(buf).bytes() == old(buf).bytes() + amf_enc(v@),
        final(buf).pos() == old(buf).pos(),
    decreases *v, 0int,
{
    match v {
        Amf0Value::Number(b) => {
            let _ = buf.write_u8(markers::NUMBER);
            let _ = buf.write_u64_be(*b);
            proof {
                assert(buf.bytes() =~= old(buf).bytes() + amf_enc(v@));
            }
        },
        Amf0Value::Boolean(b) => {
            let _ = buf.write_u8(markers::BOOLEAN);
            let _ = buf.write_u8(if *b { 1 } else { 0 });
            proof {
                assert(buf.bytes() =~= old(buf).bytes() + amf_enc(v@));
            }
        },
        Amf0Value::String(s) => {
            let _ = buf.write_u8(markers::STRING);
            let _ = buf.write_u16_be(s.len() as u16);
            let _ = buf.write_bytes(s.as_slice());
            proof {
                assert(buf.bytes() =~= old(buf).bytes() + amf_enc(v@));
            }
        },
        Amf0Value::Object(ps) => {
            let _ = buf.write_u8(markers::OBJECT);
            encode_props(buf, ps);
            let _ = buf.write_u8(0);
            let _ = buf.write_u8(0);
            let _ = buf.write_u8(markers::OBJECT_END);
            proof {
                assert(buf.bytes() =~= old(buf).bytes() + amf_enc(v@));
            }
        },
        Amf0Value::Null => {
            let _ = buf.write_u8(markers::NULL);
            proof {
                assert(buf.bytes() =~= old(buf).bytes() + amf_enc(v@));
            }
        },
        Amf0Value::Undefined => {
            let _ = buf.write_u8(markers::UNDEFINED);
            proof {
                assert(buf.bytes() =~= old(buf).bytes() + amf_enc(v@));
            }
        },
        Amf0Value::EcmaArray(ps) => {
            proof {
                lemma_props_view_index(ps@);
            }
            let _ = buf.write_u8(markers::ECMA_ARRAY);
            let _ = buf.write_u32_be(ps.len() as u32);
            encode_props(buf, ps);
            let _ = buf.write_u8(0);
            let _ = buf.write_u8(0);
            let _ = buf.write_u8(markers::OBJECT_END);
            proof {
                assert(buf.bytes() =~= old(buf).bytes() + amf_enc(v@));
            }
        },
        Amf0Value::Array(vs) => {
            proof {
                lemma_vals_view_index(vs@);
            }
            let _ = buf.write_u8(markers::STRICT_ARRAY);
            let _ = buf.write_u32_be(vs.len() as u32);
            encode_vals(buf, vs);
            proof {
                assert(buf.bytes() =~= old(buf).bytes() + amf_enc(v@));
            }
        },
        Amf0Value::Date(b, tz) => {
            let _ = buf.write_u8(markers::DATE);
            let _ = buf.write_u64_be(*b);
            let _ = buf.write_i16_be(*tz);
            proof {
                assert(buf.bytes() =~= old(buf).bytes() + amf_enc(v@));
            }
        },
        Amf0Value::LongString(s) => {
            let _ = buf.write_u8(markers::LONG_STRING);
            let _ = buf.write_u32_be(s.len() as u32);
            let _ = buf.write_bytes(s.as_slice());
            proof {
                assert(buf.bytes() =~= old(buf).bytes() + amf_enc(v@));
            }
        },
        Amf0Value::Unsupported => {
            let _ = buf.write_u8(markers::UNSUPPORTED);
            proof {
                assert(buf.bytes() =~= old(buf).bytes() + amf_enc(v@));
            }
        },
        Amf0Value::XmlDocument(s) => {
            let _ = buf.write_u8(markers::XML_DOCUMENT);
            let _ = buf.write_u32_be(s.len() as u32);
            let _ = buf.write_bytes(s.as_slice());
            proof {
                assert(buf.bytes() =~= old(buf).bytes() + amf_enc(v@));
            }
        },
        Amf0Value::TypedObject(n, ps) => {
            let _ = buf.write_u8(markers::TYPED_OBJECT);
            let _ = buf.write_u16_be(n.len() as u16);
            let _ = buf.write_bytes(n.as_slice());
            encode_props(buf, ps);
            let _ = buf.write_u8(0);
            let _ = buf.write_u8(0);
            let _ = buf.write_u8(markers::OBJECT_END);
            proof {
                assert(buf.bytes() =~= old(buf).bytes() + amf_enc(v@));
            }
        },
    }
}

/// Append the wire encoding of a member list, without the terminator.
fn encode_props(buf: &mut ByteBuffer, ps: &Vec<(Vec<u8>, Amf0Value)>)
    requires
        old(buf).wf(),
        props_wf(props_view(ps@)),
    ensures
        final(buf).wf(),
        final(buf).bytes() == old(buf).bytes() + props_enc(props_view(ps@)),
        final(buf).pos() == old(buf).pos(),
    decreases ps@, 1int,
{
    let n = ps.len();
    let mut i: usize = 0;
    proof {
        lemma_props_view_index(ps@);
        assert(props_view(ps@.take(0)) =~= Seq::<(Seq<u8>, Amf0Term)>::empty());
        assert(old(buf).bytes() + props_enc(props_view(ps@.take(0))) =~= old(buf).bytes());
    }
    while i < n
        invariant
            old(buf).wf(),
            buf.wf(),
            n == ps@.len(),
            i <= n,
            buf.pos() == old(buf).pos(),
            buf.bytes() == old(buf).bytes() + props_enc(props_view(ps@.take(i as int))),
            props_wf(props_view(ps@)),
            props_view(ps@).len() == ps@.len(),
            forall|j: int|
                0 <= j < ps@.len() ==> #[trigger] props_view(ps@)[j] == (
                    ps@[j].0@,
                    amf_view(ps@[j].1),
                ),
        decreases n - i,
    {
        proof {
            lemma_props_wf_index(props_view(ps@));
            assert(props_view(ps@)[i as int] == (ps@[i as int].0@, amf_view(ps@[i as int].1)));
        }
        let _ = buf.write_u16_be(ps[i].0.len() as u16);
        let _ = buf.write_bytes(ps[i].0.as_slice());
        encode_value(buf, &ps[i].1);
        proof {
            let pair = (ps@[i as int].0@, amf_view(ps@[i as int].1));
            lemma_props_view_index(ps@.take(i as int));
            lemma_props_view_index(ps@.take(i + 1));
            assert(props_view(ps@.take(i + 1)) =~= props_view(ps@.take(i as int)) + seq![pair]);
            lemma_props_enc_concat(props_view(ps@.take(i as int)), seq![pair]);
            lemma_props_enc_singleton(pair);
            assert(buf.bytes() =~= old(buf).bytes() + props_enc(props_view(ps@.take(i + 1))));
        }
        i = i + 1;
    }
    proof {
        assert(ps@.take(n as int) =~= ps@);
    }
}

/// Append the wire encoding of an array element list.
fn encode_vals(buf: &mut ByteBuffer, vs: &Vec<Amf0Value>)
    requires
        old(buf).wf(),
        vals_wf(vals_view(vs@)),
    ensures
        final(buf).wf(),
        final(buf).bytes() == old(buf).bytes() + vals_enc(vals_view(vs@)),
        final(buf).pos() == old(buf).pos(),
    decreases vs@, 1int,
{
    let n = vs.len();
    let mut i: usize = 0;
    proof {
        lemma_vals_view_index(vs@);
        assert(vals_view(vs@.take(0)) =~= Seq::<Amf0Term>::empty());
        assert(old(buf).bytes() + vals_enc(vals_view(vs@.take(0))) =~= old(buf).bytes());
    }
    while i < n
        invariant
            old(buf).wf(),
            buf.wf(),
            n == vs@.len(),
            i <= n,
            buf.pos() == old(buf).pos(),
            buf.bytes() == old(buf).bytes() + vals_enc(vals_view(vs@.take(i as int))),
            vals_wf(vals_view(vs@)),
            vals_view(vs@).len() == vs@.len(),
            forall|j: int| 0 <= j < vs@.len() ==> #[trigger] vals_view(vs@)[j] == amf_view(vs@[j]),
        decreases n - i,
    {
        proof {
            lemma_vals_wf_index(vals_view(vs@));
            assert(vals_view(vs@)[i as int] == amf_view(vs@[i as int]));
        }
        encode_value(buf, &vs[i]);
        proof {
            let elem = amf_view(vs@[i as int]);
            lemma_vals_view_index(vs@.take(i as int));
            lemma_vals_view_index(vs@.take(i + 1));
            assert(vals_view(vs@.take(i + 1)) =~= vals_view(vs@.take(i as int)) + seq![elem]);
            lemma_vals_enc_concat(vals_view(vs@.take(i as int)), seq![elem]);
            lemma_vals_enc_singleton(elem);
            assert(buf.bytes() =~= old(buf).bytes() + vals_enc(vals_view(vs@.take(i + 1))));
        }
        i = i + 1;
    }
    proof {
        assert(vs@.take(n as int) =~= vs@);
    }
}

/// Serialises AMF0 values into an owned byte buffer.
pub struct Amf0Encoder {
    buffer: ByteBuffer,
}

impl Amf0Encoder {
    /// The bytes written so far.
    pub closed spec fn bytes(self) -> Seq<u8> {
        self.buffer.bytes()
    }

    /// The encoder's cursor stays within its buffer.
    pub closed spec fn wf(self) -> bool {
        self.buffer.wf()
    }

    /// A fresh, empty encoder.
    pub fn new() -> (r: Amf0Encoder)
        ensures
            r.wf(),
            r.bytes() == Seq::<u8>::empty(),
    {
        Amf0Encoder { buffer: ByteBuffer::with_capacity(1024) }
    }

    /// Append the encoding of one value.  Fails, writing nothing, exactly
    /// when the value does not fit the wire format.
    pub fn encode(&mut self, value: &Amf0Value) -> (r: Result<(), Error>)
        requires
            old(self).wf(),
        ensures
            final(self).wf(),
            r is Ok <==> amf_wf(value@),
            r is Ok ==> final(self).bytes() == old(self).bytes() + amf_enc(value@),
            r is Err ==> final(self).bytes() == old(self).bytes() && r->Err_0 is AmfEncode,
    {
        if !check_wf(value) {
            return Err(Error::amf_encode("Value does not fit the AMF0 wire format"));
        }
        encode_value(&mut self.buffer, value);
        Ok(())
    }

    /// Copy out everything written so far.
    pub fn get_bytes(&self) -> (r: Vec<u8>)
        ensures
            r@ == self.bytes(),
    {
        self.buffer.to_vec()
    }
}

/// Encode a string value: the String marker, a two-byte length, the bytes.
pub fn encode_amf0_string(value: &str) -> (r: Vec<u8>)
    requires
        value.spec_bytes().len() <= 0xFFFF,
    ensures
        r@ == amf_enc(Amf0Term::String(value.spec_bytes())),
{
    let bytes = value.as_bytes();
    let mut buf = ByteBuffer::with_capacity(3 + bytes.len());
    let _ = buf.write_u8(markers::STRING);
    let _ = buf.write_u16_be(bytes.len() as u16);
    let _ = buf.write_bytes(bytes);
    proof {
        assert(buf.bytes() =~= amf_enc(Amf0Term::String(value.spec_bytes())));
    }
    buf.to_vec()
}

/// Read the eight-byte big-endian bit pattern of a number standing at the
/// start of the slice; returns it with the count of bytes consumed.
pub fn decode_amf0_number(bytes: &[u8]) -> (r: Result<(u64, usize), Error>)
    ensures
        r is Ok <==> bytes@.len() >= 8,
        r is Ok ==> r->Ok_0 == (crate::buffer::be64(bytes@, 0), 8usize),
        r is Err ==> r->Err_0 is AmfDecode,
{
    if bytes.len() < 8 {
        return Err(Error::amf_decode("Not enough bytes for number"));
    }
    let mut buf = ByteBuffer::new(vstd::slice::slice_to_vec(bytes));
    let v = match buf.read_u64_be() {
        Ok(v) => v,
        Err(_) => {
            return Err(Error::amf_decode("Not enough bytes for number"));
        },
    };
    Ok((v, 8))
}

/// Decode a length-prefixed short string: a two-byte length, then the bytes.
pub open spec fn str16_dec(s: Seq<u8>) -> Option<(Seq<u8>, int)> {
    if s.len() >= 2 && 2 + be16(s, 0) <= s.len() {
        Some((s.subrange(2, 2 + be16(s, 0)), 2 + be16(s, 0) as int))
    } else {
        None
    }
}

/// Decode a length-prefixed long string: a four-byte length, then the bytes.
pub open spec fn str32_dec(s: Seq<u8>) -> Option<(Seq<u8>, int)> {
    if s.len() >= 4 && 4 + be32(s, 0) <= s.len() {
        Some((s.subrange(4, 4 + be32(s, 0)), 4 + be32(s, 0) as int))
    } else {
        None
    }
}

/// The meaning of the bytes at the head of s as one AMF0 value: the decoded
/// shape and the count of bytes it occupies, or nothing when no value
/// stands there.
pub open spec fn amf_dec(s: Seq<u8>) -> Option<(Amf0Term, int)>
    decreases s.len(), 0int, 0int,
{
    if s.len() < 1 {
        None
    } else {
        let m = s[0];
        if m == markers::NUMBER {
            if s.len() >= 9 {
                Some((Amf0Term::Number(be64(s, 1)), 9int))
            } else {
                None
            }
        } else if m == markers::BOOLEAN {
            if s.len() >= 2 {
                Some((Amf0Term::Boolean(s[1] != 0), 2int))
            } else {
                None
            }
        } else if m == markers::STRING {
            match str16_dec(s.skip(1)) {
                Some((b, n)) => Some((Amf0Term::String(b), 1 + n)),
                None => None,
            }
        } else if m == markers::OBJECT {
            match props_dec(s.skip(1)) {
                Some((ps, n)) => Some((Amf0Term::Object(ps), 1 + n)),
                None => None,
            }
        } else if m == markers::NULL {
            Some((Amf0Term::Null, 1int))
        } else if m == markers::UNDEFINED {
            Some((Amf0Term::Undefined, 1int))
        } else if m == markers::ECMA_ARRAY {
            if s.len() >= 5 {
                match props_dec(s.skip(5)) {
                    Some((ps, n)) => Some((Amf0Term::EcmaArray(ps), 5 + n)),
                    None => None,
                }
            } else {
                None
            }
        } else if m == markers::STRICT_ARRAY {
            if s.len() >= 5 {
                match vals_dec(s.skip(5), be32(s, 1) as int) {
                    Some((vs, n)) => Some((Amf0Term::Array(vs), 5 + n)),
                    None => None,
                }
            } else {
                None
            }
        } else if m == markers::DATE {
            if s.len() >= 11 {
                Some((Amf0Term::Date(be64(s, 1), be16(s, 9) as i16), 11int))
            } else {
                None
            }
        } else if m == markers::LONG_STRING {
            match str32_dec(s.skip(1)) {
                Some((b, n)) => Some((Amf0Term::LongString(b), 1 + n)),
                None => None,
            }
        } else if m == markers::UNSUPPORTED {
            Some((Amf0Term::Unsupported, 1int))
        } else if m == markers::XML_DOCUMENT {
            match str32_dec(s.skip(1)) {
                Some((b, n)) => Some((Amf0Term::XmlDocument(b), 1 + n)),
                None => None,
            }
        } else if m == markers::TYPED_OBJECT {
            match str16_dec(s.skip(1)) {
                Some((name, n1)) => match props_dec(s.skip(1 + n1)) {
                    Some((ps, n2)) => Some((Amf0Term::TypedObject(name, ps), 1 + n1 + n2)),
                    None => None,
                },
                None => None,
            }
        } else {
            None
        }
    }
}

/// The meaning of the bytes at the head of s as a member list: members up
/// to and including the terminator, and the count of bytes they occupy.
pub open spec fn props_dec(s: Seq<u8>) -> Option<(Seq<(Seq<u8>, Amf0Term)>, int)>
    decreases s.len(), 1int, 0int,
{
    if s.len() < 2 {
        None
    } else {
        let klen = be16(s, 0) as int;
        if klen == 0 {
            if s.len() >= 3 {
                Some((Seq::empty(), 3int))
            } else {
                None
            }
        } else if 2 + klen <= s.len() {
            match amf_dec(s.skip(2 + klen)) {
                Some((v, n)) => {
                    if 1 <= n && 2 + klen + n <= s.len() {
                        match props_dec(s.skip(2 + klen + n)) {
                            Some((ps, n2)) => Some(
                                (seq![(s.subrange(2, 2 + klen), v)] + ps, 2 + klen + n + n2),
                            ),
                            None => None,
                        }
                    } else {
                        None
                    }
                },
                None => None,
            }
        } else {
            None
        }
    }
}

/// The meaning of the bytes at the head of s as count array elements.
pub open spec fn vals_dec(s: Seq<u8>, count: int) -> Option<(Seq<Amf0Term>, int)>
    decreases s.len(), 1int, count,
{
    if count <= 0 {
        Some((Seq::empty(), 0int))
    } else {
        match amf_dec(s) {
            Some((v, n)) => {
                if 1 <= n <= s.len() {
                    match vals_dec(s.skip(n), count - 1) {
                        Some((vs, n2)) => Some((seq![v] + vs, n + n2)),
                        None => None,
                    }
                } else {
                    None
                }
            },
            None => None,
        }
    }
}

/// A decoded value occupies at least one byte and no more than the input.
pub proof fn lemma_amf_dec_len(s: Seq<u8>)
    ensures
        amf_dec(s) matches Some((m, n)) ==> 1 <= n <= s.len(),
    decreases s.len(), 0int, 0int,
{
    if s.len() >= 1 {
        let m = s[0];
        if m == markers::STRING || m == markers::LONG_STRING || m == markers::XML_DOCUMENT {
        } else if m == markers::OBJECT {
            lemma_props_dec_len(s.skip(1));
        } else if m == markers::ECMA_ARRAY {
            if s.len() >= 5 {
                lemma_props_dec_len(s.skip(5));
            }
        } else if m == markers::STRICT_ARRAY {
            if s.len() >= 5 {
                lemma_vals_dec_len(s.skip(5), be32(s, 1) as int);
            }
        } else if m == markers::TYPED_OBJECT {
            match str16_dec(s.skip(1)) {
                Some((name, n1)) => {
                    lemma_props_dec_len(s.skip(1 + n1));
                },
                None => {},
            }
        }
    }
}

/// A decoded member list occupies at least three bytes (the terminator) and
/// no more than the input.
pub proof fn lemma_props_dec_len(s: Seq<u8>)
    ensures
        props_dec(s) matches Some((ps, n)) ==> 3 <= n <= s.len(),
    decreases s.len(), 1int, 0int,
{
    if s.len() >= 2 {
        let klen = be16(s, 0) as int;
        if klen != 0 && 2 + klen <= s.len() {
            lemma_amf_dec_len(s.skip(2 + klen));
            match amf_dec(s.skip(2 + klen)) {
                Some((v, n)) => {
                    if 1 <= n && 2 + klen + n <= s.len() {
                        lemma_props_dec_len(s.skip(2 + klen + n));
                    }
                },
                None => {},
            }
        }
    }
}

/// A decoded element list occupies no more than the input.
pub proof fn lemma_vals_dec_len(s: Seq<u8>, count: int)
    ensures
        vals_dec(s, count) matches Some((vs, n)) ==> 0 <= n <= s.len(),
    decreases s.len(), 1int, count,
{
    if count > 0 {
        lemma_amf_dec_len(s);
        match amf_dec(s) {
            Some((v, n)) => {
                if 1 <= n <= s.len() {
                    lemma_vals_dec_len(s.skip(n), count - 1);
                }
            },
            None => {},
        }
    }
}

/// Read one AMF0 value at the cursor; on success the cursor stands just
/// past its encoding, whose meaning the result is.
pub fn decode_value(buf: &mut ByteBuffer) -> (r: Result<Amf0Value, Error>)
    requires
        old(buf).wf(),
    ensures
        final(buf).wf(),
        final(buf).bytes() == old(buf).bytes(),
        r is Ok <==> amf_dec(old(buf).bytes().skip(old(buf).pos())) is Some,
        r is Ok ==> amf_dec(old(buf).bytes().skip(old(buf).pos())) == Some(
            (r->Ok_0@, final(buf).pos() - old(buf).pos()),
        ),
        r is Err ==> r->Err_0 is AmfDecode,
    decreases old(buf).bytes().len() - old(buf).pos(), 0int, 0int,
{
    let ghost rest = old(buf).bytes().skip(old(buf).pos());
    let marker = match buf.read_u8() {
        Ok(m) => m,
        Err(_) => {
            return Err(Error::amf_decode("Empty input"));
        },
    };
    proof {
        assert(marker == rest[0]);
    }
    if marker == markers::NUMBER {
        match buf.read_u64_be() {
            Ok(v) => {
                proof {
                    assert(v == be64(rest, 1)) by {
                        assert(forall|i: int| 0 <= i < rest.len() ==> rest[i] == old(
                            buf,
                        ).bytes()[old(buf).pos() + i]);
                    }
                }
                Ok(Amf0Value::Number(v))
            },
            Err(_) => Err(Error::amf_decode("Not enough bytes for number")),
        }
    } else if marker == markers::BOOLEAN {
        match buf.read_u8() {
            Ok(b) => {
                proof {
                    assert(b == rest[1]);
                }
                Ok(Amf0Value::Boolean(b != 0))
            },
            Err(_) => Err(Error::amf_decode("Not enough bytes for boolean")),
        }
    } else if marker == markers::STRING {
        match decode_str16(buf) {
            Ok(b) => {
                proof {
                    lemma_skip_skip(old(buf).bytes(), old(buf).pos(), 1);
                }
                Ok(Amf0Value::String(b))
            },
            Err(e) => {
                proof {
                    lemma_skip_skip(old(buf).bytes(), old(buf).pos(), 1);
                }
                Err(e)
            },
        }
    } else if marker == markers::OBJECT {
        match decode_props(buf) {
            Ok(ps) => {
                proof {
                    lemma_skip_skip(old(buf).bytes(), old(buf).pos(), 1);
                }
                Ok(Amf0Value::Object(ps))
            },
            Err(e) => {
                proof {
                    lemma_skip_skip(old(buf).bytes(), old(buf).pos(), 1);
                }
                Err(e)
            },
        }
    } else if marker == markers::NULL {
        Ok(Amf0Value::Null)
    } else if marker == markers::UNDEFINED {
        Ok(Amf0Value::Undefined)
    } else if marker == markers::ECMA_ARRAY {
        match buf.read_u32_be() {
            Ok(_count) => {
                match decode_props(buf) {
                    Ok(ps) => {
                        proof {
                            lemma_skip_skip(old(buf).bytes(), old(buf).pos(), 5);
                        }
                        Ok(Amf0Value::EcmaArray(ps))
                    },
                    Err(e) => {
                        proof {
                            lemma_skip_skip(old(buf).bytes(), old(buf).pos(), 5);
                        }
                        Err(e)
                    },
                }
            },
            Err(_) => Err(Error::amf_decode("Not enough bytes for array count")),
        }
    } else if marker == markers::STRICT_ARRAY {
        match buf.read_u32_be() {
            Ok(count) => {
                proof {
                    assert(count == be32(rest, 1)) by {
                        assert(forall|i: int| 0 <= i < rest.len() ==> rest[i] == old(
                            buf,
                        ).bytes()[old(buf).pos() + i]);
                    }
                }
                match decode_vals(buf, count) {
                    Ok(vs) => {
                        proof {
                            lemma_skip_skip(old(buf).bytes(), old(buf).pos(), 5);
                        }
                        Ok(Amf0Value::Array(vs))
                    },
                    Err(e) => {
                        proof {
                            lemma_skip_skip(old(buf).bytes(), old(buf).pos(), 5);
                        }
                        Err(e)
                    },
                }
            },
            Err(_) => Err(Error::amf_decode("Not enough bytes for array count")),
        }
    } else if marker == markers::DATE {
        match buf.read_u64_be() {
            Ok(ts) => {
                match buf.read_i16_be() {
                    Ok(tz) => {
                        proof {
                            assert(ts == be64(rest, 1) && tz == be16(rest, 9) as i16) by {
                                assert(forall|i: int| 0 <= i < rest.len() ==> rest[i] == old(
                                    buf,
                                ).bytes()[old(buf).pos() + i]);
                            }
                        }
                        Ok(Amf0Value::Date(ts, tz))
                    },
                    Err(_) => Err(Error::amf_decode("Not enough bytes for date")),
                }
            },
            Err(_) => Err(Error::amf_decode("Not enough bytes for date")),
        }
    } else if marker == markers::LONG_STRING {
        match decode_str32(buf) {
            Ok(b) => {
                proof {
                    lemma_skip_skip(old(buf).bytes(), old(buf).pos(), 1);
                }
                Ok(Amf0Value::LongString(b))
            },
            Err(e) => {
                proof {
                    lemma_skip_skip(old(buf).bytes(), old(buf).pos(), 1);
                }
                Err(e)
            },
        }
    } else if marker == markers::UNSUPPORTED {
        Ok(Amf0Value::Unsupported)
    } else if marker == markers::XML_DOCUMENT {
        match decode_str32(buf) {
            Ok(b) => {
                proof {
                    lemma_skip_skip(old(buf).bytes(), old(buf).pos(), 1);
                }
                Ok(Amf0Value::XmlDocument(b))
            },
            Err(e) => {
                proof {
                    lemma_skip_skip(old(buf).bytes(), old(buf).pos(), 1);
                }
                Err(e)
            },
        }
    } else if marker == markers::TYPED_OBJECT {
        let name = match decode_str16(buf) {
            Ok(n) => n,
            Err(e) => {
                proof {
                    lemma_skip_skip(old(buf).bytes(), old(buf).pos(), 1);
                }
                return Err(e);
            },
        };
        proof {
            lemma_skip_skip(old(buf).bytes(), old(buf).pos(), 1);
        }
        match decode_props(buf) {
            Ok(ps) => {
                proof {
                    let n1 = str16_dec(rest.skip(1))->Some_0.1;
                    lemma_skip_skip(old(buf).bytes(), old(buf).pos(), 1 + n1);
                }
                Ok(Amf0Value::TypedObject(name, ps))
            },
            Err(e) => {
                proof {
                    let n1 = str16_dec(rest.skip(1))->Some_0.1;
                    lemma_skip_skip(old(buf).bytes(), old(buf).pos(), 1 + n1);
                }
                Err(e)
            },
        }
    } else {
        Err(Error::amf_decode("Unknown AMF0 marker"))
    }
}

/// Skipping twice from the same sequence lands where one longer skip does.
proof fn lemma_skip_skip(b: Seq<u8>, p: int, k: int)
    requires
        0 <= p,
        0 <= k,
        p + k <= b.len(),
    ensures
        b.skip(p).skip(k) =~= b.skip(p + k),
{
}

/// Read a two-byte length and that many bytes at the cursor.
fn decode_str16(buf: &mut ByteBuffer) -> (r: Result<Vec<u8>, Error>)
    requires
        old(buf).wf(),
    ensures
        final(buf).wf(),
        final(buf).bytes() == old(buf).bytes(),
        r is Ok <==> str16_dec(old(buf).bytes().skip(old(buf).pos())) is Some,
        r is Ok ==> str16_dec(old(buf).bytes().skip(old(buf).pos())) == Some(
            (r->Ok_0@, final(buf).pos() - old(buf).pos()),
        ),
        r is Err ==> r->Err_0 is AmfDecode && final(buf).pos() >= old(buf).pos(),
{
    let ghost rest = old(buf).bytes().skip(old(buf).pos());
    let len = match buf.read_u16_be() {
        Ok(l) => l,
        Err(_) => {
            return Err(Error::amf_decode("Not enough bytes for string length"));
        },
    };
    proof {
        assert(len == be16(rest, 0)) by {
            assert(forall|i: int| 0 <= i < rest.len() ==> rest[i] == old(buf).bytes()[old(
                buf,
            ).pos() + i]);
        }
    }
    match buf.read_bytes(len as usize) {
        Ok(bytes) => {
            proof {
                assert(bytes@ =~= rest.subrange(2, 2 + be16(rest, 0)));
            }
            Ok(bytes)
        },
        Err(_) => Err(Error::amf_decode("Not enough bytes for string")),
    }
}

/// Read a four-byte length and that many bytes at the cursor.
fn decode_str32(buf: &mut ByteBuffer) -> (r: Result<Vec<u8>, Error>)
    requires
        old(buf).wf(),
    ensures
        final(buf).wf(),
        final(buf).bytes() == old(buf).bytes(),
        r is Ok <==> str32_dec(old(buf).bytes().skip(old(buf).pos())) is Some,
        r is Ok ==> str32_dec(old(buf).bytes().skip(old(buf).pos())) == Some(
            (r->Ok_0@, final(buf).pos() - old(buf).pos()),
        ),
        r is Err ==> r->Err_0 is AmfDecode && final(buf).pos() >= old(buf).pos(),
{
    let ghost rest = old(buf).bytes().skip(old(buf).pos());
    let len = match buf.read_u32_be() {
        Ok(l) => l,
        Err(_) => {
            return Err(Error::amf_decode("Not enough bytes for string length"));
        },
    };
    proof {
        assert(len == be32(rest, 0)) by {
            assert(forall|i: int| 0 <= i < rest.len() ==> rest[i] == old(buf).bytes()[old(
                buf,
            ).pos() + i]);
        }
    }
    if len > 0x7FFFFFFF {
        // A length this large can never fit the remaining buffer on a
        // 32-bit machine; reject it before converting.
        if (len as usize) > buf.remaining() {
            return Err(Error::amf_decode("Not enough bytes for string"));
        }
    }
    match buf.read_bytes(len as usize) {
        Ok(bytes) => {
            proof {
                assert(bytes@ =~= rest.subrange(4, 4 + be32(rest, 0)));
            }
            Ok(bytes)
        },
        Err(_) => Err(Error::amf_decode("Not enough bytes for string")),
    }
}

/// Read a member list at the cursor, terminator included.
fn decode_props(buf: &mut ByteBuffer) -> (r: Result<Vec<(Vec<u8>, Amf0Value)>, Error>)
    requires
        old(buf).wf(),
    ensures
        final(buf).wf(),
        final(buf).bytes() == old(buf).bytes(),
        r is Ok <==> props_dec(old(buf).bytes().skip(old(buf).pos())) is Some,
        r is Ok ==> props_dec(old(buf).bytes().skip(old(buf).pos())) == Some(
            (props_view(r->Ok_0@), final(buf).pos() - old(buf).pos()),
        ),
        r is Err ==> r->Err_0 is AmfDecode,
    decreases old(buf).bytes().len() - old(buf).pos(), 1int, 0int,
{
    let ghost rest = old(buf).bytes().skip(old(buf).pos());
    let klen = match buf.read_u16_be() {
        Ok(l) => l,
        Err(_) => {
            return Err(Error::amf_decode("Not enough bytes for member key length"));
        },
    };
    proof {
        assert(klen == be16(rest, 0)) by {
            assert(forall|i: int| 0 <= i < rest.len() ==> rest[i] == old(buf).bytes()[old(
                buf,
            ).pos() + i]);
        }
    }
    if klen == 0 {
        match buf.read_u8() {
            Ok(_end) => {
                let r: Vec<(Vec<u8>, Amf0Value)> = Vec::new();
                proof {
                    assert(props_view(r@) =~= Seq::<(Seq<u8>, Amf0Term)>::empty());
                }
                Ok(r)
            },
            Err(_) => Err(Error::amf_decode("Missing object end marker")),
        }
    } else {
        let key = match buf.read_bytes(klen as usize) {
            Ok(k) => k,
            Err(_) => {
                return Err(Error::amf_decode("Not enough bytes for member key"));
            },
        };
        proof {
            assert(key@ =~= rest.subrange(2, 2 + klen as int));
        }
        let ghost mid1 = buf.pos();
        proof {
            lemma_skip_skip(old(buf).bytes(), old(buf).pos(), 2 + klen as int);
        }
        let value = match decode_value(buf) {
            Ok(v) => v,
            Err(e) => {
                return Err(e);
            },
        };
        let ghost n = buf.pos() - mid1;
        proof {
            lemma_amf_dec_len(old(buf).bytes().skip(mid1));
            lemma_skip_skip(old(buf).bytes(), old(buf).pos(), 2 + klen as int + n);
        }
        let mut tail = match decode_props(buf) {
            Ok(ps) => ps,
            Err(e) => {
                return Err(e);
            },
        };
        let ghost tailv = tail@;
        tail.insert(0, (key, value));
        proof {
            assert(tail@[0] == (key, value));
            assert(tail@.drop_first() =~= tailv);
            assert(props_view(tail@) == seq![(tail@[0].0@, amf_view(tail@[0].1))] + props_view(
                tail@.drop_first(),
            ));
            assert(props_view(tail@) == seq![(key@, value@)] + props_view(tailv));
        }
        Ok(tail)
    }
}

/// Read count array elements at the cursor.
fn decode_vals(buf: &mut ByteBuffer, count: u32) -> (r: Result<Vec<Amf0Value>, Error>)
    requires
        old(buf).wf(),
    ensures
        final(buf).wf(),
        final(buf).bytes() == old(buf).bytes(),
        r is Ok <==> vals_dec(old(buf).bytes().skip(old(buf).pos()), count as int) is Some,
        r is Ok ==> vals_dec(old(buf).bytes().skip(old(buf).pos()), count as int) == Some(
            (vals_view(r->Ok_0@), final(buf).pos() - old(buf).pos()),
        ),
        r is Err ==> r->Err_0 is AmfDecode,
    decreases old(buf).bytes().len() - old(buf).pos(), 1int, count as int,
{
    let ghost rest = old(buf).bytes().skip(old(buf).pos());
    if count == 0 {
        let r: Vec<Amf0Value> = Vec::new();
        proof {
            assert(vals_view(r@) =~= Seq::<Amf0Term>::empty());
        }
        return Ok(r);
    }
    let value = match decode_value(buf) {
        Ok(v) => v,
        Err(e) => {
            return Err(e);
        },
    };
    let ghost n = buf.pos() - old(buf).pos();
    proof {
        lemma_amf_dec_len(rest);
        lemma_skip_skip(old(buf).bytes(), old(buf).pos(), n);
    }
    let mut tail = match decode_vals(buf, count - 1) {
        Ok(vs) => vs,
        Err(e) => {
            return Err(e);
        },
    };
    let ghost tailv = tail@;
    tail.insert(0, value);
    proof {
        assert(tail@[0] == value);
        assert(tail@.drop_first() =~= tailv);
        assert(vals_view(tail@) == seq![amf_view(tail@[0])] + vals_view(tail@.drop_first()));
        assert(vals_view(tail@) == seq![value@] + vals_view(tailv));
    }
    Ok(tail)
}

/// Reads successive AMF0 values from an owned buffer.
pub struct Amf0Decoder {
    buffer: ByteBuffer,
}

impl Amf0Decoder {
    /// The bytes being decoded.
    pub closed spec fn bytes(self) -> Seq<u8> {
        self.buffer.bytes()
    }

    /// The cursor position.
    pub closed spec fn pos(self) -> int {
        self.buffer.pos()
    }

    /// The cursor stays within the buffer.
    pub open spec fn wf(self) -> bool {
        0 <= self.pos() <= self.bytes().len()
    }

    /// A decoder over the given buffer, starting at its cursor.
    pub fn new(buffer: ByteBuffer) -> (r: Amf0Decoder)
        requires
            buffer.wf(),
        ensures
            r.wf(),
            r.bytes() == buffer.bytes(),
            r.pos() == buffer.pos(),
    {
        Amf0Decoder { buffer }
    }

    /// Whether any bytes remain to decode.
    pub fn has_remaining(&self) -> (r: bool)
        requires
            self.wf(),
        ensures
            r <==> self.pos() < self.bytes().len(),
    {
        self.buffer.remaining() > 0
    }

    /// Read the next value.
    pub fn decode(&mut self) -> (r: Result<Amf0Value, Error>)
        requires
            old(self).wf(),
        ensures
            final(self).wf(),
            final(self).bytes() == old(self).bytes(),
            r is Ok <==> amf_dec(old(self).bytes().skip(old(self).pos())) is Some,
            r is Ok ==> amf_dec(old(self).bytes().skip(old(self).pos())) == Some(
                (r->Ok_0@, final(self).pos() - old(self).pos()),
            ),
            r is Err ==> r->Err_0 is AmfDecode,
    {
        decode_value(&mut self.buffer)
    }
}

/// Two big-endian bytes read back as the value they were written from.
proof fn lemma_be16_at(s: Seq<u8>, i: int, v: u16)
    requires
        0 <= i,
        i + 2 <= s.len(),
        s.subrange(i, i + 2) =~= be16_bytes(v),
    ensures
        be16(s, i) == v,
{
    assert(s[i] == be16_bytes(v)[0]);
    assert(s[i + 1] == be16_bytes(v)[1]);
}

/// Four big-endian bytes read back as the value they were written from.
proof fn lemma_be32_at(s: Seq<u8>, i: int, v: u32)
    requires
        0 <= i,
        i + 4 <= s.len(),
        s.subrange(i, i + 4) =~= be32_bytes(v),
    ensures
        be32(s, i) == v,
{
    assert(s[i] == be32_bytes(v)[0]);
    assert(s[i + 1] == be32_bytes(v)[1]);
    assert(s[i + 2] == be32_bytes(v)[2]);
    assert(s[i + 3] == be32_bytes(v)[3]);
}

/// Eight big-endian bytes read back as the value they were written from.
proof fn lemma_be64_at(s: Seq<u8>, i: int, v: u64)
    requires
        0 <= i,
        i + 8 <= s.len(),
        s.subrange(i, i + 8) =~= be64_bytes(v),
    ensures
        be64(s, i) == v,
{
    let hi = (v / 0x100000000) as u32;
    let lo = (v % 0x100000000) as u32;
    assert(be32_bytes(hi).len() == 4 && be32_bytes(lo).len() == 4);
    assert(be64_bytes(v).len() == 8);
    assert(forall|j: int| 0 <= j < 8 ==> s[i + j] == #[trigger] be64_bytes(v)[j]);
    assert(forall|j: int| 4 <= j < 8 ==> #[trigger] be64_bytes(v)[j] == be32_bytes(lo)[j - 4]);
    assert(s.subrange(i, i + 4) =~= be32_bytes(hi));
    assert forall|j: int| 0 <= j < 4 implies s.subrange(i + 4, i + 8)[j] == be32_bytes(lo)[j] by {
        assert(s[i + 4 + j] == be64_bytes(v)[4 + j]);
        assert(be64_bytes(v)[4 + j] == be32_bytes(lo)[j]);
    }
    assert(s.subrange(i + 4, i + 8) =~= be32_bytes(lo));
    lemma_be32_at(s, i, hi);
    lemma_be32_at(s, i + 4, lo);
}

/// Every encoding starts with its marker byte.
proof fn lemma_amf_enc_head(m: Amf0Term)
    ensures
        amf_enc(m).len() >= 1,
        amf_enc(m)[0] == amf_marker(m),
{
    match m {
        Amf0Term::Number(_) => {},
        Amf0Term::Boolean(_) => {},
        Amf0Term::String(_) => {},
        Amf0Term::Object(_) => {},
        Amf0Term::Null => {},
        Amf0Term::Undefined => {},
        Amf0Term::EcmaArray(_) => {},
        Amf0Term::Array(_) => {},
        Amf0Term::Date(_, _) => {},
        Amf0Term::LongString(_) => {},
        Amf0Term::Unsupported => {},
        Amf0Term::XmlDocument(_) => {},
        Amf0Term::TypedObject(_, _) => {},
    }
}

/// The marker byte a value is encoded under.
pub open spec fn amf_marker(m: Amf0Term) -> u8 {
    match m {
        Amf0Term::Number(_) => markers::NUMBER,
        Amf0Term::Boolean(_) => markers::BOOLEAN,
        Amf0Term::String(_) => markers::STRING,
        Amf0Term::Object(_) => markers::OBJECT,
        Amf0Term::Null => markers::NULL,
        Amf0Term::Undefined => markers::UNDEFINED,
        Amf0Term::EcmaArray(_) => markers::ECMA_ARRAY,
        Amf0Term::Array(_) => markers::STRICT_ARRAY,
        Amf0Term::Date(_, _) => markers::DATE,
        Amf0Term::LongString(_) => markers::LONG_STRING,
        Amf0Term::Unsupported => markers::UNSUPPORTED,
        Amf0Term::XmlDocument(_) => markers::XML_DOCUMENT,
        Amf0Term::TypedObject(_, _) => markers::TYPED_OBJECT,
    }
}

/// Decoding the encoding of a well-formed value, whatever follows it, yields
/// the value back and consumes exactly its encoding.
#[verifier::rlimit(100)]
pub proof fn lemma_amf_dec_enc(m: Amf0Term, rest: Seq<u8>)
    requires
        amf_wf(m),
    ensures
        amf_dec(amf_enc(m) + rest) == Some((m, amf_enc(m).len() as int)),
    decreases m, 2int,
{
    let s = amf_enc(m) + rest;
    lemma_amf_enc_head(m);
    assert(s[0] == amf_marker(m));
    match m {
        Amf0Term::Number(b) => {
            assert(s.subrange(1, 9) =~= be64_bytes(b));
            lemma_be64_at(s, 1, b);
        },
        Amf0Term::Boolean(b) => {
            assert(s[1] == (if b { 1u8 } else { 0u8 }));
        },
        Amf0Term::String(b) => {
            lemma_dec_enc_string(m, b, rest);
        },
        Amf0Term::Object(ps) => {
            lemma_dec_enc_object(m, ps, rest);
        },
        Amf0Term::Null => {},
        Amf0Term::Undefined => {},
        Amf0Term::EcmaArray(ps) => {
            lemma_dec_enc_ecma(m, ps, rest);
        },
        Amf0Term::Array(vs) => {
            lemma_dec_enc_array(m, vs, rest);
        },
        Amf0Term::Date(b, tz) => {
            assert(s.subrange(1, 9) =~= be64_bytes(b));
            lemma_be64_at(s, 1, b);
            assert(s.subrange(9, 11) =~= be16_bytes(tz as u16));
            lemma_be16_at(s, 9, tz as u16);
            assert(((tz as u16) as i16) == tz) by (bit_vector);
        },
        Amf0Term::LongString(b) => {
            lemma_dec_enc_long(m, b, rest);
        },
        Amf0Term::Unsupported => {},
        Amf0Term::XmlDocument(b) => {
            lemma_dec_enc_long(m, b, rest);
        },
        Amf0Term::TypedObject(n, ps) => {
            lemma_dec_enc_typed(m, n, ps, rest);
        },
    }
}

/// Inversion for the short-string case.
proof fn lemma_dec_enc_string(m: Amf0Term, b: Seq<u8>, rest: Seq<u8>)
    requires
        amf_wf(m),
        m == Amf0Term::String(b),
    ensures
        amf_dec(amf_enc(m) + rest) == Some((m, amf_enc(m).len() as int)),
    decreases m, 1int,
{
    let s = amf_enc(m) + rest;
    lemma_amf_enc_head(m);
    let t = s.skip(1);
    assert(t =~= be16_bytes(b.len() as u16) + b + rest);
    assert(t.subrange(0, 2) =~= be16_bytes(b.len() as u16));
    lemma_be16_at(t, 0, b.len() as u16);
    assert(t.subrange(2, 2 + b.len() as int) =~= b);
}

/// Inversion for the long-string and XML cases, whose payload layout agrees.
proof fn lemma_dec_enc_long(m: Amf0Term, b: Seq<u8>, rest: Seq<u8>)
    requires
        amf_wf(m),
        m == Amf0Term::LongString(b) || m == Amf0Term::XmlDocument(b),
    ensures
        amf_dec(amf_enc(m) + rest) == Some((m, amf_enc(m).len() as int)),
    decreases m, 1int,
{
    let s = amf_enc(m) + rest;
    lemma_amf_enc_head(m);
    let t = s.skip(1);
    assert(t =~= be32_bytes(b.len() as u32) + b + rest);
    assert(t.subrange(0, 4) =~= be32_bytes(b.len() as u32));
    lemma_be32_at(t, 0, b.len() as u32);
    assert(t.subrange(4, 4 + b.len() as int) =~= b);
}

/// Inversion for the object case.
proof fn lemma_dec_enc_object(m: Amf0Term, ps: Seq<(Seq<u8>, Amf0Term)>, rest: Seq<u8>)
    requires
        amf_wf(m),
        m == Amf0Term::Object(ps),
    ensures
        amf_dec(amf_enc(m) + rest) == Some((m, amf_enc(m).len() as int)),
    decreases m, 1int,
{
    let s = amf_enc(m) + rest;
    lemma_amf_enc_head(m);
    assert(s.skip(1) =~= props_enc(ps) + obj_end() + rest);
    lemma_props_dec_enc(ps, rest);
}

/// Inversion for the ECMA-array case.
proof fn lemma_dec_enc_ecma(m: Amf0Term, ps: Seq<(Seq<u8>, Amf0Term)>, rest: Seq<u8>)
    requires
        amf_wf(m),
        m == Amf0Term::EcmaArray(ps),
    ensures
        amf_dec(amf_enc(m) + rest) == Some((m, amf_enc(m).len() as int)),
    decreases m, 1int,
{
    let s = amf_enc(m) + rest;
    lemma_amf_enc_head(m);
    assert(s.subrange(1, 5) =~= be32_bytes(ps.len() as u32));
    lemma_be32_at(s, 1, ps.len() as u32);
    assert(s.skip(5) =~= props_enc(ps) + obj_end() + rest);
    lemma_props_dec_enc(ps, rest);
}

/// Inversion for the strict-array case.
proof fn lemma_dec_enc_array(m: Amf0Term, vs: Seq<Amf0Term>, rest: Seq<u8>)
    requires
        amf_wf(m),
        m == Amf0Term::Array(vs),
    ensures
        amf_dec(amf_enc(m) + rest) == Some((m, amf_enc(m).len() as int)),
    decreases m, 1int,
{
    let s = amf_enc(m) + rest;
    lemma_amf_enc_head(m);
    assert(s.subrange(1, 5) =~= be32_bytes(vs.len() as u32));
    lemma_be32_at(s, 1, vs.len() as u32);
    assert(s.skip(5) =~= vals_enc(vs) + rest);
    lemma_vals_dec_enc(vs, rest);
    assert(be32(s, 1) as int == vs.len() as int);
}

/// Inversion for the typed-object case.
proof fn lemma_dec_enc_typed(m: Amf0Term, n: Seq<u8>, ps: Seq<(Seq<u8>, Amf0Term)>, rest: Seq<u8>)
    requires
        amf_wf(m),
        m == Amf0Term::TypedObject(n, ps),
    ensures
        amf_dec(amf_enc(m) + rest) == Some((m, amf_enc(m).len() as int)),
    decreases m, 1int,
{
    let s = amf_enc(m) + rest;
    lemma_amf_enc_head(m);
    let t = s.skip(1);
    assert(t =~= be16_bytes(n.len() as u16) + n + props_enc(ps) + obj_end() + rest);
    assert(t.subrange(0, 2) =~= be16_bytes(n.len() as u16));
    lemma_be16_at(t, 0, n.len() as u16);
    assert(t.subrange(2, 2 + n.len() as int) =~= n);
    let n1 = 2 + n.len() as int;
    assert(s.skip(1 + n1) =~= props_enc(ps) + obj_end() + rest);
    lemma_props_dec_enc(ps, rest);
    assert(str16_dec(t) == Some((n, n1)));
}

/// Decoding the encoding of a well-formed member list followed by the
/// terminator yields the list back.
#[verifier::rlimit(100)]
pub proof fn lemma_props_dec_enc(ps: Seq<(Seq<u8>, Amf0Term)>, rest: Seq<u8>)
    requires
        props_wf(ps),
    ensures
        props_dec(props_enc(ps) + obj_end() + rest) == Some(
            (ps, props_enc(ps).len() as int + 3),
        ),
    decreases ps, 1int,
{
    let s = props_enc(ps) + obj_end() + rest;
    if ps.len() == 0 {
        assert(s =~= obj_end() + rest);
        assert(s.subrange(0, 2) =~= be16_bytes(0));
        lemma_be16_at(s, 0, 0);
        assert(props_dec(s) == Some((Seq::<(Seq<u8>, Amf0Term)>::empty(), 3int)));
        assert(ps =~= Seq::<(Seq<u8>, Amf0Term)>::empty());
    } else {
        lemma_props_dec_enc_cons(ps, rest);
    }
}

/// Inversion for a non-empty member list.
#[verifier::rlimit(100)]
proof fn lemma_props_dec_enc_cons(ps: Seq<(Seq<u8>, Amf0Term)>, rest: Seq<u8>)
    requires
        props_wf(ps),
        ps.len() > 0,
    ensures
        props_dec(props_enc(ps) + obj_end() + rest) == Some(
            (ps, props_enc(ps).len() as int + 3),
        ),
    decreases ps, 0int,
{
    let s = props_enc(ps) + obj_end() + rest;
    {
        let key = ps[0].0;
        let v = ps[0].1;
        let klen = key.len() as int;
        let tail = ps.drop_first();
        assert(props_enc(ps) == be16_bytes(key.len() as u16) + key + amf_enc(v) + props_enc(tail));
        assert(s.subrange(0, 2) =~= be16_bytes(key.len() as u16));
        lemma_be16_at(s, 0, key.len() as u16);
        assert(be16(s, 0) as int == klen);
        assert(s.subrange(2, 2 + klen) =~= key);
        lemma_amf_enc_head(v);
        let n = amf_enc(v).len() as int;
        assert(s.skip(2 + klen) =~= amf_enc(v) + (props_enc(tail) + obj_end() + rest));
        lemma_amf_dec_enc(v, props_enc(tail) + obj_end() + rest);
        assert(amf_dec(s.skip(2 + klen)) == Some((v, n)));
        assert(s.skip(2 + klen + n) =~= props_enc(tail) + obj_end() + rest);
        lemma_props_dec_enc(tail, rest);
        assert(props_dec(s.skip(2 + klen + n)) == Some((tail, props_enc(tail).len() as int + 3)));
        assert(seq![(s.subrange(2, 2 + klen), v)] + tail =~= ps);
    }
}

/// Decoding the encoding of a well-formed element list yields the list back.
pub proof fn lemma_vals_dec_enc(vs: Seq<Amf0Term>, rest: Seq<u8>)
    requires
        vals_wf(vs),
    ensures
        vals_dec(vals_enc(vs) + rest, vs.len() as int) == Some(
            (vs, vals_enc(vs).len() as int),
        ),
    decreases vs, 0int,
{
    let s = vals_enc(vs) + rest;
    if vs.len() == 0 {
        assert(vs =~= Seq::<Amf0Term>::empty());
    } else {
        let v = vs[0];
        let tail = vs.drop_first();
        assert(vals_enc(vs) == amf_enc(v) + vals_enc(tail));
        lemma_amf_enc_head(v);
        let n = amf_enc(v).len() as int;
        assert(s =~= amf_enc(v) + (vals_enc(tail) + rest));
        lemma_amf_dec_enc(v, vals_enc(tail) + rest);
        assert(amf_dec(s) == Some((v, n)));
        assert(s.skip(n) =~= vals_enc(tail) + rest);
        lemma_vals_dec_enc(tail, rest);
        assert(seq![v] + tail =~= vs);
    }
}

/// Round trip: decoding the encoding of any well-formed value yields the
/// value itself, consuming the whole encoding.
pub proof fn lemma_amf_round_trip(m: Amf0Term)
    requires
        amf_wf(m),
    ensures
        amf_dec(amf_enc(m)) == Some((m, amf_enc(m).len() as int)),
{
    lemma_amf_dec_enc(m, Seq::empty());
    assert(amf_enc(m) + Seq::<u8>::empty() =~= amf_enc(m));
}

} // verus!
