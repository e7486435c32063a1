//! An RTMP protocol stack: handshake, chunk framing with delta-compressed
//! headers, AMF0 (de)serialization, protocol messages, command handling,
//! a publisher registry, a GOP cache and per-subscriber fan-out.

pub mod error;
pub mod markers;
pub mod amf0;
pub mod buffer;
pub mod constants;
pub mod queue;
pub mod registry;
pub mod gop_cache;
pub mod publisher;
pub mod processing;
pub mod handlers;
pub mod stream;
pub mod player;
pub mod client;
pub mod command;
pub mod data;
pub mod message;
pub mod connection;
pub mod server_config;
pub mod client_config;
pub mod packet;
pub mod chunk_stream;
pub mod chunk_reader;
pub mod chunk_writer;
pub mod time;
pub mod crypto;
pub mod handshake;

pub use error::Error;
pub use amf0::{Amf0Value, Amf0Term};
pub use buffer::ByteBuffer;
pub use constants::{MSG_TYPE_SET_CHUNK_SIZE, MSG_TYPE_ABORT, MSG_TYPE_ACK, MSG_TYPE_USER_CONTROL, MSG_TYPE_WINDOW_ACK, MSG_TYPE_SET_PEER_BW, MSG_TYPE_AUDIO, MSG_TYPE_VIDEO, MSG_TYPE_DATA_AMF3, MSG_TYPE_SHARED_OBJECT_AMF3, MSG_TYPE_COMMAND_AMF3, MSG_TYPE_DATA_AMF0, MSG_TYPE_SHARED_OBJECT_AMF0, MSG_TYPE_COMMAND_AMF0, MSG_TYPE_AGGREGATE, CHUNK_STREAM_PROTOCOL, CHUNK_STREAM_COMMAND, CHUNK_STREAM_AUDIO, CHUNK_STREAM_VIDEO, CHUNK_STREAM_DATA, DEFAULT_CHUNK_SIZE, DEFAULT_WINDOW_SIZE};
pub use chunk_stream::{ChunkStream, ChunkStreamContext};
pub use queue::MessageQueue;
pub use registry::{PublisherRegistry, PublisherInfo};
pub use gop_cache::GopCache;
pub use publisher::{Publisher, SubscriberHandle, reheader_packet};
pub use stream::{Stream, StreamType, StreamInfo, StreamMetadata, StreamStats};
pub use player::{Player, PlaybackState};
pub use client::{ClientSession, UrlParts, parse_rtmp_url};
pub use handlers::{ConnectHandler, CreateStreamHandler, PublishHandler, PlayHandler, DeleteStreamHandler, HandlerOutcome, create_stream_begin_packet, validate_connect_params, generate_connect_response, create_window_ack_packet, create_peer_bandwidth_packet, create_chunk_size_packet};
pub use processing::{MetadataProcessor, Metadata, AudioCodec, SoundRate, SoundSize, SoundType, AudioProcessor, AACAudioConfig, AudioInfo, VideoCodec, FrameType, VideoProcessor, AVCVideoConfig, VideoInfo, detect_audio_codec, detect_video_codec, is_keyframe};
pub use command::{RtmpCommand, copy_bytes};
pub use data::RtmpData;
pub use message::{MessageType, ControlType, classify_message, create_response};
pub use server_config::{ServerConfig, ServerConfigBuilder};
pub use client_config::{ClientConfig, ClientConfigBuilder, ClientState};
pub use connection::{ConnectionState, ConnectionContext, StreamManager, StreamKind, ManagedStream, process_control_message};
pub use chunk_reader::{ChunkReader, read_message_header};
pub use chunk_writer::{ChunkWriter, ChunkHeader, split_into_chunks, parse_chunk_header};
pub use packet::{RtmpHeader, RtmpPacket, make_audio_packet, make_video_packet, parse_basic_header, encode_basic_header};
pub use crypto::{generate_random_bytes, calculate_hmac_sha256};
pub use handshake::{C0C1, S0S1S2, C2, HandshakeState, HandshakeEvent, HandshakeFormat, validate_c0c1, generate_s0s1s2, validate_c2, RTMP_VERSION, HANDSHAKE_SIZE};
pub use time::{current_timestamp, current_timestamp_secs, time_delta_ms};
