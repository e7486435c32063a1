// The message queue, the publisher registry, the GOP cache, fan-out,
// handlers, packets, configurations, errors, time and the digest.

use rtmp::{MessageQueue, PublisherRegistry, GopCache, Publisher, RtmpHeader, RtmpPacket,
    make_audio_packet, make_video_packet, ServerConfig, ClientConfig, Error, time_delta_ms,
    calculate_hmac_sha256, generate_random_bytes, PublishHandler, RtmpCommand, Amf0Value,
    MessageType, ControlType, process_control_message, ConnectionState, parse_rtmp_url};

#[test]
fn test_packet_creation() {
    let header = RtmpHeader {
        timestamp: 1000,
        message_length: 100,
        message_type: 8,
        message_stream_id: 1,
        chunk_stream_id: 4,
    };

    let payload = vec![0x01, 0x02, 0x03];
    let packet = RtmpPacket::new(header, payload);

    assert!(packet.is_audio());
    assert!(!packet.is_video());
    assert_eq!(packet.timestamp(), 1000);
    assert_eq!(packet.message_stream_id(), 1);
}

#[test]
fn test_error_creation() {
    let err = Error::protocol("Invalid message type");
    assert_eq!(err.message(), "Protocol error: Invalid message type");

    let err = Error::handshake("Version mismatch");
    assert_eq!(err.message(), "Handshake error: Version mismatch");
}

#[test]
fn test_error_conversion() {
    let io_err = std::io::Error::new(std::io::ErrorKind::UnexpectedEof, "EOF");
    let err = rtmp::error::from_io(io_err);

    match err {
        Error::Io(_) => assert!(true),
        _ => assert!(false, "Expected IO error variant"),
    }
}

#[test]
fn test_time_delta() {
    let start = 1000u32;
    let end = 1500u32;
    assert_eq!(time_delta_ms(start, end), 500);

    // Test negative delta
    assert_eq!(time_delta_ms(end, start), -500);
}

#[test]
fn test_random_bytes_length() {
    let bytes = generate_random_bytes(32);
    assert_eq!(bytes.len(), 32);
}

#[test]
fn test_random_bytes_uniqueness() {
    let bytes1 = generate_random_bytes(32);
    let bytes2 = generate_random_bytes(32);
    // Very unlikely to be equal
    assert_ne!(bytes1, bytes2);
}

#[test]
fn test_hmac_sha256() {
    let key = b"key";
    let data = b"The quick brown fox jumps over the lazy dog";
    let hmac = calculate_hmac_sha256(key, data);

    // Known test vector
    let expected = [
        0xf7, 0xbc, 0x83, 0xf4, 0x30, 0x53, 0x84, 0x24, 0xb1, 0x32, 0x98, 0xe6, 0xaa, 0x6f, 0xb1,
        0x43, 0xef, 0x4d, 0x59, 0xa1, 0x49, 0x46, 0x17, 0x59, 0x97, 0x47, 0x9d, 0xbc, 0x2d, 0x1a,
        0x3c, 0xd8,
    ];

    assert_eq!(hmac, expected);
}

#[test]
fn test_queue_priority() {
    let mut queue = MessageQueue::new(10);

    // Add packets with different priorities
    let video = make_video_packet(vec![1, 2, 3], 1000, 1);
    let audio = make_audio_packet(vec![4, 5, 6], 2000, 1);

    queue.push(video).unwrap();
    queue.push(audio).unwrap();

    // Audio should come out first (higher priority)
    let first = queue.pop().unwrap().unwrap();
    assert_eq!(first.message_type(), 8);
}

#[test]
fn test_queue_size_limit() {
    let mut queue = MessageQueue::new(2);

    let packet1 = make_audio_packet(vec![1], 1000, 1);
    let packet2 = make_audio_packet(vec![2], 2000, 1);
    let packet3 = make_audio_packet(vec![3], 3000, 1);

    assert!(queue.push(packet1).is_ok());
    assert!(queue.push(packet2).is_ok());
    assert!(queue.push(packet3).is_err()); // Should fail - queue full
}

#[test]
fn test_queue_control_preempts_video() {
    // A control message enqueued behind a thousand video packets is the
    // next one out.
    let mut queue = MessageQueue::new(1001);
    for i in 0..1000u32 {
        queue.push(make_video_packet(vec![0], i, 1)).unwrap();
    }
    let control = RtmpPacket::new(
        RtmpHeader::new(0, 4, 1, 0, 2),
        vec![0x00, 0x00, 0x10, 0x00],
    );
    queue.push(control).unwrap();
    let first = queue.pop().unwrap().unwrap();
    assert_eq!(first.message_type(), 1);
    // Within one priority, arrival order is kept.
    let second = queue.pop().unwrap().unwrap();
    assert_eq!(second.timestamp(), 0);
}

#[test]
fn test_registry_exactly_one_publisher() {
    let mut registry = PublisherRegistry::new();
    registry
        .register("cam1".to_string(), "conn-0".to_string(), 1)
        .unwrap();
    // The same name cannot be taken again.
    let second = registry.register("cam1".to_string(), "conn-1".to_string(), 2);
    assert!(matches!(second, Err(Error::Stream(_))));
    // Another name can.
    registry
        .register("cam2".to_string(), "conn-1".to_string(), 2)
        .unwrap();
    assert!(registry.is_publishing("cam1"));
    assert_eq!(registry.get("cam1").unwrap().connection_id, "conn-0");
    // After unregistering, the name is free again.
    registry.unregister("cam1").unwrap();
    assert!(!registry.is_publishing("cam1"));
    registry
        .register("cam1".to_string(), "conn-9".to_string(), 7)
        .unwrap();
    assert_eq!(registry.get("cam1").unwrap().stream_id, 7);
}

#[test]
fn test_registry_subscriber_counters() {
    let mut registry = PublisherRegistry::new();
    registry
        .register("cam1".to_string(), "conn-0".to_string(), 1)
        .unwrap();
    registry.increment_subscribers("cam1").unwrap();
    registry.increment_subscribers("cam1").unwrap();
    assert_eq!(registry.get("cam1").unwrap().subscriber_count, 2);
    registry.decrement_subscribers("cam1").unwrap();
    assert_eq!(registry.get("cam1").unwrap().subscriber_count, 1);
    assert!(registry.increment_subscribers("missing").is_err());
}

fn keyframe(timestamp: u32) -> RtmpPacket {
    make_video_packet(vec![0x17, 0x01], timestamp, 1)
}

fn interframe(timestamp: u32) -> RtmpPacket {
    make_video_packet(vec![0x27, 0x01], timestamp, 1)
}

#[test]
fn test_gop_cache() {
    let mut cache = GopCache::new(2);

    // Create test packets
    let keyframe1 = make_video_packet(vec![0x17, 0x00], 1000, 1);
    let frame1 = make_video_packet(vec![0x27, 0x01], 1033, 1);
    let frame2 = make_video_packet(vec![0x27, 0x01], 1066, 1);
    let keyframe2 = make_video_packet(vec![0x17, 0x00], 2000, 1);

    // Add first GOP
    cache.add_keyframe(keyframe1);
    cache.add_frame(frame1);
    cache.add_frame(frame2);

    // Add second GOP
    cache.add_keyframe(keyframe2);

    // Check cache
    assert_eq!(cache.gop_count(), 2);
    assert_eq!(cache.size(), 4);

    // Get cached packets
    let packets = cache.get_gop();
    assert_eq!(packets.len(), 4);
}

#[test]
fn test_gop_cache_evicts_oldest() {
    let mut cache = GopCache::new(1);
    cache.add_keyframe(keyframe(0));
    cache.add_frame(interframe(33));
    cache.add_keyframe(keyframe(1000));
    cache.add_frame(interframe(1033));
    cache.add_keyframe(keyframe(2000));
    // With room for a single group, only the one in progress remains.
    let packets = cache.get_gop();
    assert_eq!(packets[0].timestamp(), 2000);
    assert_eq!(packets.len(), 1);
}

#[test]
fn test_fan_out_reheaders_for_subscriber() {
    // The publisher owns stream id 1; the subscriber stream id 7.  A
    // packet delivered to the fan-out reappears with message_stream_id 7
    // and everything else byte-identical.
    let mut publisher = Publisher::new(10);
    let _initial = publisher.add_subscriber("player-1".to_string(), 7);
    let p = make_video_packet(vec![0x27, 0x01, 0x02, 0x03], 1234, 1);
    let out = publisher.process_video(&p);
    assert_eq!(out.len(), 1);
    assert_eq!(out[0].header.message_stream_id, 7);
    assert_eq!(out[0].header.timestamp, 1234);
    assert_eq!(out[0].header.message_length, p.header.message_length);
    assert_eq!(out[0].header.message_type, 9);
    assert_eq!(out[0].header.chunk_stream_id, p.header.chunk_stream_id);
    assert_eq!(out[0].payload, p.payload);
}

#[test]
fn test_gop_cache_replay_for_late_subscriber() {
    // Publisher sends the AVC sequence header, then K1 P P K2 P P P; a
    // subscriber joining before the next keyframe replays the sequence
    // header first, then the cached GOPs in order.
    let mut publisher = Publisher::new(10);
    let seq_header = make_video_packet(vec![0x17, 0x00, 0x01, 0x64], 0, 1);
    let _ = publisher.process_video(&seq_header);
    let sent = [
        keyframe(100),
        interframe(133),
        interframe(166),
        keyframe(200),
        interframe(233),
        interframe(266),
        interframe(299),
    ];
    for p in &sent {
        let _ = publisher.process_video(p);
    }
    let replay = publisher.add_subscriber("late".to_string(), 9);
    // The sequence header comes first, re-headered for the subscriber.
    assert_eq!(replay[0].header.message_stream_id, 9);
    assert_eq!(replay[0].payload, seq_header.payload);
    // The cached video packets follow in send order.
    let tail: Vec<u32> = replay[1..].iter().map(|p| p.timestamp()).collect();
    assert_eq!(tail, vec![100, 133, 166, 200, 233, 266, 299]);

    // With a single-GOP cache only the last complete group and the
    // in-progress group survive.
    let mut small = Publisher::new(1);
    let _ = small.process_video(&seq_header);
    for p in &sent {
        let _ = small.process_video(p);
    }
    let replay_small = small.add_subscriber("late2".to_string(), 9);
    let stamps: Vec<u32> = replay_small.iter().map(|p| p.timestamp()).collect();
    assert_eq!(stamps, vec![0, 200, 233, 266, 299]);
}

#[test]
fn test_duplicate_publish_bad_name() {
    // Two connections publish the same name: the first gets
    // NetStream.Publish.Start, the second NetStream.Publish.BadName and
    // the registry still names the first.
    let mut registry = PublisherRegistry::new();
    let handler = PublishHandler::new();
    let (ok1, outcome1) = handler
        .handle("cam1", 1, "conn-a", &mut registry)
        .unwrap();
    assert!(ok1);
    let response1 = outcome1.response.unwrap();
    let cmd1 = RtmpCommand::decode(&response1.payload).unwrap();
    assert_eq!(cmd1.name, b"onStatus".to_vec());
    assert!(payload_has_code(&cmd1, b"NetStream.Publish.Start"));

    let (ok2, outcome2) = handler
        .handle("cam1", 1, "conn-b", &mut registry)
        .unwrap();
    assert!(!ok2);
    let response2 = outcome2.response.unwrap();
    let cmd2 = RtmpCommand::decode(&response2.payload).unwrap();
    assert!(payload_has_code(&cmd2, b"NetStream.Publish.BadName"));
    assert_eq!(registry.get("cam1").unwrap().connection_id, "conn-a");
}

fn payload_has_code(cmd: &RtmpCommand, code: &[u8]) -> bool {
    cmd.arguments.iter().any(|arg| match arg {
        Amf0Value::Object(props) => props.iter().any(|(k, v)| {
            k.as_slice() == b"code"
                && matches!(v, Amf0Value::String(s) if s.as_slice() == code)
        }),
        _ => false,
    })
}

#[test]
fn test_server_config_validation() {
    // Reject port 0
    let result = ServerConfig::builder().port(0).build();
    assert!(result.is_err(), "Should reject port 0");

    // Reject chunk size < 128
    let result = ServerConfig::builder().chunk_size(100).build();
    assert!(result.is_err(), "Should reject chunk size < 128");

    // Reject chunk size > 65536
    let result = ServerConfig::builder().chunk_size(100000).build();
    assert!(result.is_err(), "Should reject chunk size > 65536");

    // Accept valid config
    let result = ServerConfig::builder()
        .host("0.0.0.0")
        .port(1935)
        .max_connections(100)
        .chunk_size(4096)
        .build();
    assert!(result.is_ok(), "Should accept valid config");
}

#[test]
fn test_client_config_validation() {
    // Reject chunk size < 128
    let result = ClientConfig::builder().chunk_size(100).build();
    assert!(result.is_err(), "Should reject chunk size < 128");

    // Reject chunk size > 65536
    let result = ClientConfig::builder().chunk_size(100000).build();
    assert!(result.is_err(), "Should reject chunk size > 65536");

    // Accept valid config
    let result = ClientConfig::builder()
        .chunk_size(4096)
        .buffer_time(1000)
        .build();
    assert!(result.is_ok(), "Should accept valid config");
}

#[test]
fn test_message_classification() {
    let audio = make_audio_packet(vec![0xAF, 0x01], 0, 1);
    assert_eq!(rtmp::classify_message(&audio), MessageType::Audio);
    let control = RtmpPacket::new(RtmpHeader::new(0, 4, 1, 0, 2), vec![0, 0, 16, 0]);
    assert_eq!(
        rtmp::classify_message(&control),
        MessageType::Control(ControlType::SetChunkSize)
    );
    assert_eq!(MessageType::Control(ControlType::SetChunkSize).priority(), 10);
    assert_eq!(MessageType::Video.priority(), 2);
}

#[test]
fn test_control_message_validation() {
    // A SetChunkSize of 4096 passes; one of 64 is out of bounds.
    let good = RtmpPacket::new(RtmpHeader::new(0, 4, 1, 0, 2), vec![0, 0, 16, 0]);
    assert!(process_control_message(&good).is_ok());
    let small = RtmpPacket::new(RtmpHeader::new(0, 4, 1, 0, 2), vec![0, 0, 0, 64]);
    assert!(matches!(
        process_control_message(&small),
        Err(Error::Protocol(_))
    ));
    let truncated = RtmpPacket::new(RtmpHeader::new(0, 2, 2, 0, 2), vec![0, 0]);
    assert!(process_control_message(&truncated).is_err());
}

#[test]
fn test_connection_state_transitions() {
    assert!(ConnectionState::Uninitialized.can_transition_to(ConnectionState::Handshaking));
    assert!(ConnectionState::Handshaking.can_transition_to(ConnectionState::Connected));
    assert!(ConnectionState::Connected.can_transition_to(ConnectionState::Publishing));
    assert!(ConnectionState::Publishing.can_transition_to(ConnectionState::Connected));
    assert!(ConnectionState::Playing.can_transition_to(ConnectionState::Closing));
    assert!(ConnectionState::Closing.can_transition_to(ConnectionState::Closed));
    assert!(!ConnectionState::Uninitialized.can_transition_to(ConnectionState::Connected));
    assert!(!ConnectionState::Closed.can_transition_to(ConnectionState::Connected));
    assert!(ConnectionState::Connected.can_publish());
    assert!(!ConnectionState::Publishing.can_publish());
}

#[test]
fn test_parse_rtmp_url_parts() {
    let parts = parse_rtmp_url("rtmp://example.net/live/cam1").unwrap();
    assert_eq!(parts.host, "example.net");
    assert_eq!(parts.port, 1935);
    assert_eq!(parts.app, "live");
    assert_eq!(parts.stream.as_deref(), Some("cam1"));

    let parts = parse_rtmp_url("rtmps://example.net:8443/app").unwrap();
    assert_eq!(parts.port, 8443);
    assert_eq!(parts.app, "app");
    assert!(parts.stream.is_none());

    assert!(parse_rtmp_url("http://example.net/live").is_err());
    assert!(parse_rtmp_url("not a url").is_err());
}

#[test]
fn test_audio_video_tag_parsing() {
    let mut audio = rtmp::AudioProcessor::new();
    let aac = make_audio_packet(vec![0xAF, 0x00, 0x12, 0x10], 0, 1);
    let info = audio.process(&aac).unwrap();
    assert_eq!(info.codec, rtmp::AudioCodec::AAC);
    assert!(info.is_sequence_header);

    let mut video = rtmp::VideoProcessor::new();
    let kf = make_video_packet(vec![0x17, 0x01, 0, 0, 0], 0, 1);
    let vinfo = video.process(&kf).unwrap();
    assert_eq!(vinfo.codec, rtmp::VideoCodec::H264);
    assert!(vinfo.is_keyframe);
    let pf = make_video_packet(vec![0x27, 0x01, 0, 0, 0], 33, 1);
    let vinfo2 = video.process(&pf).unwrap();
    assert!(!vinfo2.is_keyframe);
    assert_eq!(vinfo2.frames_since_keyframe, 1);

    let empty = RtmpPacket::new(RtmpHeader::new(0, 0, 8, 1, 4), vec![]);
    assert!(audio.process(&empty).is_err());
}

#[test]
fn test_h264_generation() {
    let keyframe = generate_h264_keyframe();
    assert_eq!(keyframe[0], 0x17);

    let interframe = generate_h264_interframe();
    assert_eq!(interframe[0], 0x27);
}

#[test]
fn test_aac_generation() {
    let audio = generate_aac_audio();
    assert_eq!(audio[0], 0xAF);
}

fn generate_h264_keyframe() -> Vec<u8> {
    vec![
        0x17, // Frame type (1=keyframe) + codec (7=AVC)
        0x01, // AVC packet type (1=NALU)
        0x00, 0x00, 0x00, // Composition time
        // Simplified NALU data
        0x00, 0x00, 0x00, 0x01, // Start code
        0x67, // SPS NAL unit type
    ]
}

fn generate_h264_interframe() -> Vec<u8> {
    vec![
        0x27, // Frame type (2=inter) + codec (7=AVC)
        0x01, // AVC packet type (1=NALU)
        0x00, 0x00, 0x00, // Composition time
        // Simplified NALU data
        0x00, 0x00, 0x00, 0x01, // Start code
        0x41, // Coded slice NAL unit type
    ]
}

fn generate_aac_audio() -> Vec<u8> {
    vec![
        0xAF, // Sound format (10=AAC) + rate + size + type
        0x01, // AAC packet type (1=raw)
        // AAC data would follow
        0x00, 0x00,
    ]
}

#[test]
fn test_create_video_packet() {
    let packet = create_test_video_packet(1000, true);
    assert_eq!(packet.header.timestamp, 1000);
    assert_eq!(packet.header.message_type, 9);
    assert!(packet.payload.len() > 0);
    assert_eq!(packet.payload[0], 0x17); // Keyframe marker
}

#[test]
fn test_create_audio_packet() {
    let packet = create_test_audio_packet(2000);
    assert_eq!(packet.header.timestamp, 2000);
    assert_eq!(packet.header.message_type, 8);
    assert!(packet.payload.len() > 0);
    assert_eq!(packet.payload[0], 0xAF); // AAC marker
}

#[test]
fn test_packet_equality() {
    let packet1 = create_test_video_packet(1000, true);
    let packet2 = create_test_video_packet(1000, true);
    assert_eq!(packet1.header.timestamp, packet2.header.timestamp);
    assert_eq!(packet1.header.message_type, packet2.header.message_type);
    assert_eq!(
        packet1.header.message_stream_id,
        packet2.header.message_stream_id
    );
    assert_eq!(packet1.payload, packet2.payload);
}

fn create_test_video_packet(timestamp: u32, is_keyframe: bool) -> RtmpPacket {
    let message_type = 9; // Video message type
    let stream_id = 1;
    let chunk_stream_id = 6; // Video chunk stream

    let mut payload = Vec::new();
    if is_keyframe {
        payload.push(0x17);
    } else {
        payload.push(0x27);
    }
    payload.extend_from_slice(&[0x01, 0x00, 0x00, 0x00]);

    let header = RtmpHeader::new(
        timestamp,
        payload.len() as u32,
        message_type,
        stream_id,
        chunk_stream_id,
    );

    RtmpPacket::new(header, payload)
}

fn create_test_audio_packet(timestamp: u32) -> RtmpPacket {
    let message_type = 8; // Audio message type
    let stream_id = 1;
    let chunk_stream_id = 4; // Audio chunk stream

    let mut payload = Vec::new();
    payload.push(0xAF);
    payload.push(0x01);

    let header = RtmpHeader::new(
        timestamp,
        payload.len() as u32,
        message_type,
        stream_id,
        chunk_stream_id,
    );

    RtmpPacket::new(header, payload)
}

#[test]
fn test_control_message_chunk_size_bounds() {
    // 65536 is the largest legal chunk size; 65537 is rejected.
    let max = RtmpPacket::new(RtmpHeader::new(0, 4, 1, 0, 2), vec![0, 1, 0, 0]);
    assert!(process_control_message(&max).is_ok());
    let over = RtmpPacket::new(RtmpHeader::new(0, 4, 1, 0, 2), vec![0, 1, 0, 1]);
    assert!(matches!(
        process_control_message(&over),
        Err(Error::Protocol(_))
    ));
}

#[test]
fn test_time_delta_wraps_around() {
    // A clock that wrapped still gives a small signed delta.
    assert_eq!(time_delta_ms(1000, 0xFFFF_FFFF), -1001);
    assert_eq!(time_delta_ms(0xFFFF_FFFF, 5), 6);
    assert_eq!(time_delta_ms(0, 0x7FFF_FFFF), i32::MAX);
}

#[test]
fn test_create_stream_response_carries_wire_number() {
    // The first allocated id is 1; the _result carries it as the wire
    // number 1.0 under the request's transaction id.
    let mut handler = rtmp::CreateStreamHandler::new();
    let request = RtmpCommand::create_stream(0x4000000000000000);
    let (id, response) = handler.handle(&request).unwrap();
    assert_eq!(id, 1);
    let decoded = RtmpCommand::decode(&response.payload).unwrap();
    assert_eq!(decoded.name, b"_result".to_vec());
    assert_eq!(decoded.transaction_id, 0x4000000000000000);
    assert_eq!(
        decoded.arguments,
        vec![rtmp::Amf0Value::Number(0x3FF0000000000000)]
    );
    // The seventh id, 7, encodes with exponent 1025 and mantissa 0.75.
    let mut handler = rtmp::CreateStreamHandler::new();
    for _ in 0..6 {
        handler.handle(&request).unwrap();
    }
    let (id, response) = handler.handle(&request).unwrap();
    assert_eq!(id, 7);
    let decoded = RtmpCommand::decode(&response.payload).unwrap();
    assert_eq!(
        decoded.arguments,
        vec![rtmp::Amf0Value::Number(7.0_f64.to_bits())]
    );
}

#[test]
fn test_connect_response_carries_mode_and_object_encoding() {
    let response = rtmp::generate_connect_response(true, 0x3FF0000000000000);
    assert_eq!(response.name, b"_result".to_vec());
    match response.command_object.as_ref().unwrap() {
        rtmp::Amf0Value::Object(props) => {
            assert_eq!(props[0].0, b"fmsVer".to_vec());
            assert_eq!(props[1].0, b"capabilities".to_vec());
            assert_eq!(props[1].1, rtmp::Amf0Value::Number(31.0_f64.to_bits()));
            assert_eq!(props[2].0, b"mode".to_vec());
            assert_eq!(props[2].1, rtmp::Amf0Value::Number(1.0_f64.to_bits()));
        }
        other => panic!("command object should be an object, got {:?}", other),
    }
    match &response.arguments[0] {
        rtmp::Amf0Value::Object(info) => {
            assert_eq!(info[0].1, rtmp::Amf0Value::String(b"status".to_vec()));
            assert_eq!(
                info[1].1,
                rtmp::Amf0Value::String(b"NetConnection.Connect.Success".to_vec())
            );
            assert_eq!(info[3].0, b"objectEncoding".to_vec());
            assert_eq!(info[3].1, rtmp::Amf0Value::Number(0));
        }
        other => panic!("info should be an object, got {:?}", other),
    }
    let rejected = rtmp::generate_connect_response(false, 0);
    assert_eq!(rejected.name, b"_error".to_vec());
}

#[test]
fn test_stream_metadata_members_in_canonical_order() {
    let meta = rtmp::StreamMetadata {
        video_codec: Some(b"avc1".to_vec()),
        audio_codec: None,
        width: Some(1280.0_f64.to_bits()),
        height: None,
        framerate: None,
        video_bitrate: None,
        audio_bitrate: None,
        audio_sample_rate: None,
        audio_channels: None,
        duration: Some(0),
    };
    let members = meta.to_amf();
    assert_eq!(members.len(), 3);
    assert_eq!(members[0].0, b"videocodecid".to_vec());
    assert_eq!(members[1].0, b"width".to_vec());
    assert_eq!(members[2].0, b"duration".to_vec());
    let parsed = rtmp::StreamMetadata::from_amf(&members);
    assert_eq!(parsed.video_codec, Some(b"avc1".to_vec()));
    assert_eq!(parsed.width, Some(1280.0_f64.to_bits()));
    assert_eq!(parsed.duration, Some(0));
    assert_eq!(parsed.height, None);
}

#[test]
fn test_metadata_processor_merges_and_overrides() {
    let mut processor = rtmp::MetadataProcessor::new();
    let first = rtmp::RtmpData::on_metadata(vec![
        (b"width".to_vec(), rtmp::Amf0Value::Number(640.0_f64.to_bits())),
        (b"encoder".to_vec(), rtmp::Amf0Value::String(b"one".to_vec())),
    ]);
    let meta = processor.process(&first, 0).unwrap();
    assert_eq!(meta.width, Some(640.0_f64.to_bits()));
    assert_eq!(meta.encoder, Some(b"one".to_vec()));
    // A later message overrides the cached member under its key and
    // leaves the rest.
    let second = rtmp::RtmpData::on_metadata(vec![(
        b"encoder".to_vec(),
        rtmp::Amf0Value::String(b"two".to_vec()),
    )]);
    processor.process(&second, 1).unwrap();
    let cached = processor.get_cached();
    assert_eq!(cached.len(), 2);
    assert_eq!(cached[0].0, b"width".to_vec());
    assert_eq!(cached[1].1, rtmp::Amf0Value::String(b"two".to_vec()));
    // Anything but onMetaData or @setDataFrame is refused.
    let other = rtmp::RtmpData::new("onCuePoint");
    assert!(processor.process(&other, 2).is_err());
}

#[test]
fn test_player_pause_resume_state_machine() {
    let mut player = rtmp::Player::new("cam1".to_string(), 1000);
    assert_eq!(player.state(), rtmp::PlaybackState::Idle);
    assert!(!player.accepts_packets());
    // Pausing does nothing until the session plays.
    player.pause();
    assert_eq!(player.state(), rtmp::PlaybackState::Idle);
    player.start();
    assert_eq!(player.state(), rtmp::PlaybackState::Buffering);
    assert!(player.accepts_packets());
    player.resume();
    assert_eq!(player.state(), rtmp::PlaybackState::Buffering);
    player.stop();
    assert_eq!(player.state(), rtmp::PlaybackState::Stopped);
    assert!(!player.accepts_packets());
}

#[test]
fn test_gop_cache_keeps_two_groups() {
    // K1 P P K2 P P P under a cap of three groups: a late joiner replays
    // both groups, oldest first.
    let mut cache = rtmp::GopCache::new(3);
    cache.add_keyframe(keyframe(0));
    cache.add_frame(interframe(40));
    cache.add_frame(interframe(80));
    cache.add_keyframe(keyframe(120));
    cache.add_frame(interframe(160));
    cache.add_frame(interframe(200));
    cache.add_frame(interframe(240));
    let replay = cache.get_gop();
    let stamps: Vec<u32> = replay.iter().map(|p| p.header.timestamp).collect();
    assert_eq!(stamps, vec![0, 40, 80, 120, 160, 200, 240]);
}
