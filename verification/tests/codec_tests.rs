// The byte buffer, the AMF0 codec and its round trips, and command and
// data messages.

use rtmp::{ByteBuffer, Amf0Value, RtmpCommand, RtmpData};
use rtmp::amf0::{Amf0Encoder, Amf0Decoder, encode_amf0_string, decode_amf0_number};

#[test]
fn test_read_write_u8() {
    let mut buffer = ByteBuffer::with_capacity(10);
    buffer.write_u8(0x42).unwrap();
    buffer.write_u8(0x84).unwrap();

    buffer.set_position(0).unwrap();
    assert_eq!(buffer.read_u8().unwrap(), 0x42);
    assert_eq!(buffer.read_u8().unwrap(), 0x84);
}

#[test]
fn test_read_write_u16() {
    let mut buffer = ByteBuffer::with_capacity(10);
    buffer.write_u16_be(0x1234).unwrap();

    buffer.set_position(0).unwrap();
    assert_eq!(buffer.read_u16_be().unwrap(), 0x1234);
}

#[test]
fn test_remaining_bytes() {
    let data = vec![1, 2, 3, 4, 5];
    let mut buffer = ByteBuffer::new(data);

    assert_eq!(buffer.remaining(), 5);
    buffer.read_u8().unwrap();
    assert_eq!(buffer.remaining(), 4);
}

#[test]
fn test_boundary_checks() {
    let data = vec![1, 2];
    let mut buffer = ByteBuffer::new(data);

    // Should succeed
    assert!(buffer.read_u16_be().is_ok());

    // Should fail - not enough bytes
    assert!(buffer.read_u32_be().is_err());
}

#[test]
fn test_buffer_wide_reads() {
    let mut buffer = ByteBuffer::with_capacity(16);
    buffer.write_u32_be(0xDEADBEEF).unwrap();
    buffer.write_u64_be(0x0102030405060708).unwrap();
    buffer.write_i16_be(-2).unwrap();
    buffer.set_position(0).unwrap();
    assert_eq!(buffer.read_u32_be().unwrap(), 0xDEADBEEF);
    assert_eq!(buffer.read_u64_be().unwrap(), 0x0102030405060708);
    assert_eq!(buffer.read_i16_be().unwrap(), -2);
}

fn round_trip(v: Amf0Value) -> Amf0Value {
    let mut encoder = Amf0Encoder::new();
    encoder.encode(&v).unwrap();
    let bytes = encoder.get_bytes();
    let mut decoder = Amf0Decoder::new(ByteBuffer::new(bytes));
    let back = decoder.decode().unwrap();
    assert!(!decoder.has_remaining());
    back
}

#[test]
fn test_amf0_round_trip_scalars() {
    let n = Amf0Value::Number((3.25f64).to_bits());
    assert_eq!(round_trip(n), Amf0Value::Number((3.25f64).to_bits()));

    assert_eq!(round_trip(Amf0Value::Boolean(true)), Amf0Value::Boolean(true));
    assert_eq!(round_trip(Amf0Value::Boolean(false)), Amf0Value::Boolean(false));
    assert_eq!(round_trip(Amf0Value::Null), Amf0Value::Null);
    assert_eq!(round_trip(Amf0Value::Undefined), Amf0Value::Undefined);

    let s = Amf0Value::String(b"hello".to_vec());
    assert_eq!(round_trip(s), Amf0Value::String(b"hello".to_vec()));

    let l = Amf0Value::LongString(vec![7u8; 70000]);
    assert_eq!(round_trip(l), Amf0Value::LongString(vec![7u8; 70000]));

    let d = Amf0Value::Date((1234567890.0f64).to_bits(), -300);
    assert_eq!(round_trip(d), Amf0Value::Date((1234567890.0f64).to_bits(), -300));
}

#[test]
fn test_amf0_round_trip_structured() {
    let obj = Amf0Value::Object(vec![
        (b"app".to_vec(), Amf0Value::String(b"live".to_vec())),
        (b"count".to_vec(), Amf0Value::Number((2.0f64).to_bits())),
        (b"inner".to_vec(), Amf0Value::Object(vec![
            (b"flag".to_vec(), Amf0Value::Boolean(true)),
        ])),
    ]);
    assert_eq!(round_trip(clone_amf(&obj)), obj);

    let ecma = Amf0Value::EcmaArray(vec![
        (b"width".to_vec(), Amf0Value::Number((640.0f64).to_bits())),
        (b"height".to_vec(), Amf0Value::Number((480.0f64).to_bits())),
    ]);
    assert_eq!(round_trip(clone_amf(&ecma)), ecma);

    let arr = Amf0Value::Array(vec![
        Amf0Value::Number((1.0f64).to_bits()),
        Amf0Value::String(b"two".to_vec()),
        Amf0Value::Null,
    ]);
    assert_eq!(round_trip(clone_amf(&arr)), arr);
}

// A structural copy for comparing round trips; the library type does not
// expose a clone of its own.
fn clone_amf(v: &Amf0Value) -> Amf0Value {
    {
        match v {
            Amf0Value::Number(b) => Amf0Value::Number(*b),
            Amf0Value::Boolean(b) => Amf0Value::Boolean(*b),
            Amf0Value::String(s) => Amf0Value::String(s.clone()),
            Amf0Value::Object(ps) => Amf0Value::Object(
                ps.iter().map(|(k, v)| (k.clone(), clone_amf(v))).collect(),
            ),
            Amf0Value::Null => Amf0Value::Null,
            Amf0Value::Undefined => Amf0Value::Undefined,
            Amf0Value::EcmaArray(ps) => Amf0Value::EcmaArray(
                ps.iter().map(|(k, v)| (k.clone(), clone_amf(v))).collect(),
            ),
            Amf0Value::Array(vs) => Amf0Value::Array(
                vs.iter().map(clone_amf).collect(),
            ),
            Amf0Value::Date(b, tz) => Amf0Value::Date(*b, *tz),
            Amf0Value::LongString(s) => Amf0Value::LongString(s.clone()),
            Amf0Value::Unsupported => Amf0Value::Unsupported,
            Amf0Value::XmlDocument(s) => Amf0Value::XmlDocument(s.clone()),
            Amf0Value::TypedObject(n, ps) => Amf0Value::TypedObject(
                n.clone(),
                ps.iter().map(|(k, v)| (k.clone(), clone_amf(v))).collect(),
            ),
        }
    }
}

#[test]
fn test_amf0_unknown_marker_rejected() {
    // 0x04 (MovieClip) is not decodable.
    let mut decoder = Amf0Decoder::new(ByteBuffer::new(vec![0x04, 0x00]));
    assert!(matches!(decoder.decode(), Err(rtmp::Error::AmfDecode(_))));
}

#[test]
fn test_amf0_number_wire_bytes() {
    // 1.0 encodes as the marker then 3F F0 00 00 00 00 00 00.
    let mut encoder = Amf0Encoder::new();
    encoder.encode(&Amf0Value::Number((1.0f64).to_bits())).unwrap();
    assert_eq!(
        encoder.get_bytes(),
        vec![0x00, 0x3F, 0xF0, 0x00, 0x00, 0x00, 0x00, 0x00, 0x00]
    );
}

#[test]
fn test_encode_amf0_string_bytes() {
    let bytes = encode_amf0_string("hi");
    assert_eq!(bytes, vec![0x02, 0x00, 0x02, b'h', b'i']);
}

#[test]
fn test_decode_amf0_number_reads_eight_bytes() {
    let bytes = (2.5f64).to_bits().to_be_bytes();
    let (v, n) = decode_amf0_number(&bytes).unwrap();
    assert_eq!(v, (2.5f64).to_bits());
    assert_eq!(n, 8);
    assert!(decode_amf0_number(&bytes[..7]).is_err());
}

#[test]
fn test_connect_command() {
    let cmd = RtmpCommand::connect("live", "rtmp://localhost/live");
    assert_eq!(cmd.name, b"connect".to_vec());
    assert_eq!(cmd.transaction_id, (1.0f64).to_bits());

    let obj = cmd.command_object.unwrap();
    let app = match &obj {
        Amf0Value::Object(props) => props
            .iter()
            .find(|(k, _)| k.as_slice() == b"app")
            .map(|(_, v)| v),
        _ => None,
    };
    assert!(matches!(app, Some(Amf0Value::String(s)) if s.as_slice() == b"live"));
}

#[test]
fn test_command_round_trip() {
    let original = RtmpCommand::create_stream((2.0f64).to_bits());
    let bytes = original.encode().unwrap();
    let decoded = RtmpCommand::decode(&bytes).unwrap();

    assert_eq!(original.name, decoded.name);
    assert_eq!(original.transaction_id, decoded.transaction_id);
}

#[test]
fn test_data_message_round_trip() {
    let data = RtmpData::set_data_frame(
        "onMetaData",
        Amf0Value::Object(vec![(b"width".to_vec(), Amf0Value::Number((640.0f64).to_bits()))]),
    );
    let bytes = data.encode().unwrap();
    let back = RtmpData::decode(&bytes).unwrap();
    assert_eq!(back.data_type, b"@setDataFrame".to_vec());
    assert_eq!(back.values.len(), 2);
    assert_eq!(back.values[0], Amf0Value::String(b"onMetaData".to_vec()));
}

#[test]
fn test_command_name_must_be_string() {
    // A number where the command name belongs does not decode.
    let mut encoder = Amf0Encoder::new();
    encoder.encode(&Amf0Value::Number((5.0f64).to_bits())).unwrap();
    encoder.encode(&Amf0Value::Number((1.0f64).to_bits())).unwrap();
    let r = RtmpCommand::decode(&encoder.get_bytes());
    assert!(matches!(r, Err(rtmp::Error::AmfDecode(_))));
}

#[test]
fn test_oversized_string_refused_by_encoder() {
    let mut encoder = Amf0Encoder::new();
    let v = Amf0Value::String(vec![b'x'; 70000]);
    assert!(matches!(encoder.encode(&v), Err(rtmp::Error::AmfEncode(_))));
    // Nothing was written.
    assert_eq!(encoder.get_bytes().len(), 0);
}
