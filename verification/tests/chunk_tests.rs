// Chunk framing: writer output byte for byte, extended timestamps, delta
// headers, and the writer-to-reader round trip.

use rtmp::{ChunkReader, ChunkWriter, ByteBuffer, RtmpHeader, RtmpPacket, parse_chunk_header,
    split_into_chunks};

fn packet(
    timestamp: u32,
    message_type: u8,
    message_stream_id: u32,
    chunk_stream_id: u32,
    payload: Vec<u8>,
) -> RtmpPacket {
    let header = RtmpHeader::new(
        timestamp,
        payload.len() as u32,
        message_type,
        message_stream_id,
        chunk_stream_id,
    );
    RtmpPacket::new(header, payload)
}

#[test]
fn test_chunked_publish_exact_bytes() {
    // A 5000-byte video packet at chunk size 4096, cs-id 6, stream-id 1,
    // timestamp 1000, type 9: a Type-0 chunk then a Type-3 continuation.
    let payload: Vec<u8> = (0..5000u32).map(|i| (i % 251) as u8).collect();
    let p = packet(1000, 9, 1, 6, payload.clone());
    let mut writer = ChunkWriter::new();
    writer.set_chunk_size(4096);
    let chunks = writer.create_chunks(&p).unwrap();

    assert_eq!(chunks[0], 0x06);
    assert_eq!(
        &chunks[1..12],
        &[0x00, 0x03, 0xE8, 0x00, 0x13, 0x88, 0x09, 0x01, 0x00, 0x00, 0x00]
    );
    assert_eq!(&chunks[12..12 + 4096], &payload[..4096]);
    assert_eq!(chunks[12 + 4096], 0xC6);
    assert_eq!(&chunks[12 + 4096 + 1..], &payload[4096..]);
    assert_eq!(chunks.len(), 12 + 4096 + 1 + 904);
}

#[test]
fn test_extended_timestamp_write_and_read() {
    // Timestamp 0x01000000 does not fit 24 bits: the field carries the
    // indicator and the extended field carries the value.
    let p = packet(0x0100_0000, 9, 1, 6, vec![0xAB; 10]);
    let mut writer = ChunkWriter::new();
    writer.set_chunk_size(4096);
    let chunks = writer.create_chunks(&p).unwrap();

    assert_eq!(chunks[0], 0x06);
    assert_eq!(&chunks[1..4], &[0xFF, 0xFF, 0xFF]);
    // length 10, type 9, stream id 1 little-endian, then the extended field.
    assert_eq!(&chunks[4..12], &[0x00, 0x00, 0x0A, 0x09, 0x01, 0x00, 0x00, 0x00]);
    assert_eq!(&chunks[12..16], &[0x01, 0x00, 0x00, 0x00]);

    let mut reader = ChunkReader::new();
    reader.set_chunk_size(4096);
    let mut buf = ByteBuffer::new(chunks);
    let out = reader.read_chunk(&mut buf).unwrap().unwrap();
    assert_eq!(out.header.timestamp, 0x0100_0000);
    assert_eq!(out.payload, vec![0xAB; 10]);
}

fn round_trip_once(chunk_size: usize, len: usize) {
    let payload: Vec<u8> = (0..len as u64).map(|i| (i % 249) as u8).collect();
    let p = packet(1000, 9, 1, 6, payload);
    let mut writer = ChunkWriter::new();
    writer.set_chunk_size(chunk_size);
    let chunks = writer.create_chunks(&p).unwrap();

    let mut reader = ChunkReader::new();
    reader.set_chunk_size(chunk_size);
    let mut buf = ByteBuffer::new(chunks);
    let mut out = None;
    while out.is_none() {
        out = reader.read_chunk(&mut buf).unwrap();
    }
    let out = out.unwrap();
    assert_eq!(out.header.timestamp, p.header.timestamp);
    assert_eq!(out.header.message_length, p.header.message_length);
    assert_eq!(out.header.message_type, p.header.message_type);
    assert_eq!(out.header.message_stream_id, p.header.message_stream_id);
    assert_eq!(out.payload, p.payload);
    assert_eq!(buf.remaining(), 0);
}

#[test]
fn test_round_trip_small_chunk_size() {
    for len in [1usize, 127, 128, 129, 256] {
        round_trip_once(128, len);
    }
}

#[test]
fn test_round_trip_default_chunk_size() {
    for len in [1usize, 4095, 4096, 4097, 8192] {
        round_trip_once(4096, len);
    }
}

#[test]
fn test_round_trip_large_chunk_size() {
    for len in [1usize, 65535, 65536, 65537, 131072] {
        round_trip_once(65536, len);
    }
}

#[test]
fn test_round_trip_length_field_boundary() {
    // The largest lengths the 24-bit field can carry.
    round_trip_once(65536, 0xFF_FFFE);
    round_trip_once(65536, 0xFF_FFFF);
}

#[test]
fn test_payload_beyond_length_field_refused() {
    // 0x1000000 bytes cannot be announced in a 24-bit length field; the
    // writer refuses rather than truncating.
    let payload = vec![0u8; 0x100_0000];
    let p = packet(1000, 9, 1, 6, payload);
    let mut writer = ChunkWriter::new();
    writer.set_chunk_size(65536);
    assert!(matches!(writer.create_chunks(&p), Err(rtmp::Error::Chunk(_))));
}

#[test]
fn test_delta_headers_tighten() {
    // A second packet on the same stream with everything equal but a later
    // timestamp goes out as Type 2; an identical one as Type 3.
    let mut writer = ChunkWriter::new();
    writer.set_chunk_size(4096);
    let p1 = packet(1000, 9, 1, 6, vec![1, 2, 3]);
    let c1 = writer.create_chunks(&p1).unwrap();
    assert_eq!(c1[0] >> 6, 0);

    let p2 = packet(1040, 9, 1, 6, vec![4, 5, 6]);
    let c2 = writer.create_chunks(&p2).unwrap();
    assert_eq!(c2[0] >> 6, 2);
    // The three delta bytes carry 40.
    assert_eq!(&c2[1..4], &[0x00, 0x00, 0x28]);

    let p3 = packet(1040, 9, 1, 6, vec![7, 8, 9]);
    let c3 = writer.create_chunks(&p3).unwrap();
    assert_eq!(c3[0] >> 6, 3);

    let p4 = packet(1080, 9, 1, 6, vec![1; 5]);
    let c4 = writer.create_chunks(&p4).unwrap();
    assert_eq!(c4[0] >> 6, 1);

    // A reader following along reassembles all four.
    let mut reader = ChunkReader::new();
    reader.set_chunk_size(4096);
    let mut all = Vec::new();
    all.extend_from_slice(&c1);
    all.extend_from_slice(&c2);
    all.extend_from_slice(&c3);
    all.extend_from_slice(&c4);
    let mut buf = ByteBuffer::new(all);
    let o1 = reader.read_chunk(&mut buf).unwrap().unwrap();
    let o2 = reader.read_chunk(&mut buf).unwrap().unwrap();
    let o3 = reader.read_chunk(&mut buf).unwrap().unwrap();
    let o4 = reader.read_chunk(&mut buf).unwrap().unwrap();
    assert_eq!(o1.header.timestamp, 1000);
    assert_eq!(o2.header.timestamp, 1040);
    assert_eq!(o3.header.timestamp, 1040);
    assert_eq!(o4.header.timestamp, 1080);
    assert_eq!(o4.header.message_length, 5);
    assert_eq!(o2.payload, vec![4, 5, 6]);
}

#[test]
fn test_parse_chunk_header_forms() {
    let (h, n) = parse_chunk_header(&[0xC6]).unwrap();
    assert_eq!((h.fmt, h.cs_id, n), (3, 6, 1));

    let (h, n) = parse_chunk_header(&[0x00, 0x10]).unwrap();
    assert_eq!((h.fmt, h.cs_id, n), (0, 16 + 64, 2));

    let (h, n) = parse_chunk_header(&[0x41, 0x02, 0x01]).unwrap();
    assert_eq!((h.fmt, h.cs_id, n), (1, 2 + 256 + 64, 3));

    assert!(parse_chunk_header(&[]).is_err());
    assert!(parse_chunk_header(&[0x00]).is_err());
}

#[test]
fn test_split_into_chunks_fresh_writer() {
    let p = packet(0, 8, 1, 4, vec![9u8; 300]);
    let bytes = split_into_chunks(&p, 128);
    // Type-0 basic header for cs-id 4, 11 header bytes, 128 + 1 + 128 + 1 + 44 payload framing.
    assert_eq!(bytes[0], 0x04);
    assert_eq!(bytes.len(), 1 + 11 + 128 + 1 + 128 + 1 + 44);
}
