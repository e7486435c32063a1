//! Media tag parsing: audio and video tag headers, codec identities, AAC
//! and AVC configuration records, and metadata extraction.

use vstd::prelude::*;
use crate::packet::RtmpPacket;
use crate::amf0::{Amf0Value, Amf0Term, props_view, amf_view, vals_view, prop_lookup,
    num_prop_of, str_prop_of, bool_prop_of, lemma_props_view_index, lemma_props_view_push,
    lemma_vals_view_index};
use crate::stream::{opt_bytes, str_member, num_member, push_str_member, push_num_member};
use crate::data::{RtmpData, str_bytes_is};
use vstd::string::{StrSliceExecFns, StringSliceAdditionalSpecFns};
use crate::error::Error;

verus! {

broadcast use vstd::std_specs::vec::axiom_spec_len;

/// The audio codecs the sound-format field can announce.
#[derive(Debug, Clone, Copy, PartialEq, Eq, Structural)]
pub enum AudioCodec {
    PCM,
    ADPCM,
    MP3,
    PCMLittleEndian,
    Nellymoser16kHz,
    Nellymoser8kHz,
    Nellymoser,
    G711ALaw,
    G711MuLaw,
    Reserved,
    AAC,
    Speex,
    MP38kHz,
    DeviceSpecific,
}

/// The codec a sound-format field value names.
pub open spec fn audio_codec_of(format: u8) -> AudioCodec {
    if format == 0 {
        AudioCodec::PCM
    } else if format == 1 {
        AudioCodec::ADPCM
    } else if format == 2 {
        AudioCodec::MP3
    } else if format == 3 {
        AudioCodec::PCMLittleEndian
    } else if format == 4 {
        AudioCodec::Nellymoser16kHz
    } else if format == 5 {
        AudioCodec::Nellymoser8kHz
    } else if format == 6 {
        AudioCodec::Nellymoser
    } else if format == 7 {
        AudioCodec::G711ALaw
    } else if format == 8 {
        AudioCodec::G711MuLaw
    } else if format == 10 {
        AudioCodec::AAC
    } else if format == 11 {
        AudioCodec::Speex
    } else if format == 14 {
        AudioCodec::MP38kHz
    } else if format == 15 {
        AudioCodec::DeviceSpecific
    } else {
        AudioCodec::Reserved
    }
}

impl AudioCodec {
    /// Identify the codec from the sound-format field.
    pub fn from_sound_format(format: u8) -> (r: AudioCodec)
        ensures
            r == audio_codec_of(format),
    {
        if format == 0 {
            AudioCodec::PCM
        } else if format == 1 {
            AudioCodec::ADPCM
        } else if format == 2 {
            AudioCodec::MP3
        } else if format == 3 {
            AudioCodec::PCMLittleEndian
        } else if format == 4 {
            AudioCodec::Nellymoser16kHz
        } else if format == 5 {
            AudioCodec::Nellymoser8kHz
        } else if format == 6 {
            AudioCodec::Nellymoser
        } else if format == 7 {
            AudioCodec::G711ALaw
        } else if format == 8 {
            AudioCodec::G711MuLaw
        } else if format == 10 {
            AudioCodec::AAC
        } else if format == 11 {
            AudioCodec::Speex
        } else if format == 14 {
            AudioCodec::MP38kHz
        } else if format == 15 {
            AudioCodec::DeviceSpecific
        } else {
            AudioCodec::Reserved
        }
    }

    /// A short display name for the codec.
    pub fn name(&self) -> (r: &str)
        ensures
            *self == AudioCodec::AAC ==> r@ == "AAC"@,
            *self == AudioCodec::MP3 ==> r@ == "MP3"@,
    {
        match self {
            AudioCodec::PCM => "PCM",
            AudioCodec::ADPCM => "ADPCM",
            AudioCodec::MP3 => "MP3",
            AudioCodec::PCMLittleEndian => "PCM-LE",
            AudioCodec::Nellymoser16kHz => "Nellymoser-16kHz",
            AudioCodec::Nellymoser8kHz => "Nellymoser-8kHz",
            AudioCodec::Nellymoser => "Nellymoser",
            AudioCodec::G711ALaw => "G.711-A",
            AudioCodec::G711MuLaw => "G.711-mu",
            AudioCodec::Reserved => "Reserved",
            AudioCodec::AAC => "AAC",
            AudioCodec::Speex => "Speex",
            AudioCodec::MP38kHz => "MP3-8kHz",
            AudioCodec::DeviceSpecific => "Device",
        }
    }
}

/// The sample rates the sound-rate field can announce.
#[derive(Debug, Clone, Copy, PartialEq, Eq, Structural)]
pub enum SoundRate {
    Rate5_5kHz,
    Rate11kHz,
    Rate22kHz,
    Rate44kHz,
}

impl SoundRate {
    /// Identify the rate from the two-bit field.
    pub fn from_bits(bits: u8) -> (r: SoundRate)
        ensures
            bits == 0 ==> r == SoundRate::Rate5_5kHz,
            bits == 1 ==> r == SoundRate::Rate11kHz,
            bits == 2 ==> r == SoundRate::Rate22kHz,
            bits >= 3 ==> r == SoundRate::Rate44kHz,
    {
        if bits == 0 {
            SoundRate::Rate5_5kHz
        } else if bits == 1 {
            SoundRate::Rate11kHz
        } else if bits == 2 {
            SoundRate::Rate22kHz
        } else {
            SoundRate::Rate44kHz
        }
    }

    /// The rate in hertz.
    pub fn as_hz(&self) -> (r: u32)
        ensures
            *self == SoundRate::Rate5_5kHz ==> r == 5500,
            *self == SoundRate::Rate11kHz ==> r == 11000,
            *self == SoundRate::Rate22kHz ==> r == 22000,
            *self == SoundRate::Rate44kHz ==> r == 44000,
    {
        match self {
            SoundRate::Rate5_5kHz => 5500,
            SoundRate::Rate11kHz => 11000,
            SoundRate::Rate22kHz => 22000,
            SoundRate::Rate44kHz => 44000,
        }
    }
}

/// The sample widths the sound-size bit can announce.
#[derive(Debug, Clone, Copy, PartialEq, Eq, Structural)]
pub enum SoundSize {
    Bits8,
    Bits16,
}

/// Mono or stereo.
#[derive(Debug, Clone, Copy, PartialEq, Eq, Structural)]
pub enum SoundType {
    Mono,
    Stereo,
}

/// The AAC AudioSpecificConfig fields the stack reads.
#[derive(Debug, Clone, Copy, PartialEq, Eq, Structural)]
pub struct AACAudioConfig {
    pub object_type: u8,
    pub sampling_index: u8,
    pub channel_config: u8,
}

/// What one audio packet announced.
#[derive(Debug)]
pub struct AudioInfo {
    pub codec: AudioCodec,
    pub sample_rate: SoundRate,
    pub sample_size: SoundSize,
    pub sound_type: SoundType,
    pub is_sequence_header: bool,
}

/// Parses audio tag headers and remembers the latest announcement.
pub struct AudioProcessor {
    codec: Option<AudioCodec>,
    sample_rate: Option<SoundRate>,
    sample_size: Option<SoundSize>,
    sound_type: Option<SoundType>,
    aac_config: Option<AACAudioConfig>,
}

impl AudioProcessor {
    /// A fresh processor that has seen nothing.
    pub fn new() -> (r: AudioProcessor)
        ensures
            r.codec_spec() is None,
    {
        AudioProcessor {
            codec: None,
            sample_rate: None,
            sample_size: None,
            sound_type: None,
            aac_config: None,
        }
    }

    /// The last codec seen.
    pub closed spec fn codec_spec(self) -> Option<AudioCodec> {
        self.codec
    }

    /// Parse one audio packet's tag header.  Fails exactly on an empty
    /// payload; the first byte's fields name the codec, rate, width and
    /// channel count, and an AAC packet whose second byte is zero is the
    /// sequence header.
    pub fn process(&mut self, packet: &RtmpPacket) -> (r: Result<AudioInfo, Error>)
        ensures
            r is Ok <==> packet.payload@.len() >= 1,
            r is Ok ==> {
                let tag = packet.payload@[0];
                &&& r->Ok_0.codec == audio_codec_of((tag / 16) as u8)
                &&& r->Ok_0.is_sequence_header == (r->Ok_0.codec == AudioCodec::AAC
                    && packet.payload@.len() > 1 && packet.payload@[1] == 0)
                &&& final(self).codec_spec() == Some(r->Ok_0.codec)
            },
            r is Err ==> r->Err_0 is Protocol,
    {
        if packet.payload.len() == 0 {
            return Err(Error::protocol("Empty audio packet"));
        }
        let tag_header = packet.payload[0];
        let sound_format = tag_header / 16;
        let sound_rate = (tag_header / 4) % 4;
        let sound_size = (tag_header / 2) % 2;
        let sound_type = tag_header % 2;
        let codec = AudioCodec::from_sound_format(sound_format);
        let rate = SoundRate::from_bits(sound_rate);
        let size = if sound_size == 0 {
            SoundSize::Bits8
        } else {
            SoundSize::Bits16
        };
        let sound = if sound_type == 0 {
            SoundType::Mono
        } else {
            SoundType::Stereo
        };
        self.codec = Some(codec);
        self.sample_rate = Some(rate);
        self.sample_size = Some(size);
        self.sound_type = Some(sound);
        let mut is_sequence_header = false;
        if codec == AudioCodec::AAC && packet.payload.len() > 1 {
            let aac_packet_type = packet.payload[1];
            if aac_packet_type == 0 {
                is_sequence_header = true;
                if packet.payload.len() >= 4 {
                    let _ = self.parse_aac_config(&packet.payload, 2);
                }
            }
        }
        Ok(AudioInfo { codec, sample_rate: rate, sample_size: size, sound_type: sound, is_sequence_header })
    }

    /// Read the AudioSpecificConfig fields standing at the offset.
    fn parse_aac_config(&mut self, data: &Vec<u8>, at: usize) -> (r: Result<(), Error>)
        requires
            at + 2 <= data@.len(),
        ensures
            r is Ok,
            final(self).codec_spec() == old(self).codec_spec(),
    {
        proof {
            assert(vstd::std_specs::vec::spec_vec_len(data) == data@.len());
        }
        let byte1 = data[at];
        let byte2 = data[at + 1];
        let object_type = byte1 / 8;
        let sampling_index = (byte1 % 8) * 2 + byte2 / 128;
        let channel_config = (byte2 / 8) % 16;
        self.aac_config = Some(AACAudioConfig { object_type, sampling_index, channel_config });
        Ok(())
    }

    /// The last codec seen.
    pub fn codec(&self) -> (r: Option<AudioCodec>)
        ensures
            r == self.codec_spec(),
    {
        self.codec
    }

    /// The last sample rate seen, in hertz.
    pub fn sample_rate(&self) -> (r: Option<u32>)
        ensures
            r is Some <==> self.rate_spec() is Some,
    {
        match self.sample_rate {
            Some(rate) => Some(rate.as_hz()),
            None => None,
        }
    }

    /// The last sample rate seen.
    pub closed spec fn rate_spec(self) -> Option<SoundRate> {
        self.sample_rate
    }
}

/// The video codecs the codec-id field can announce.
#[derive(Debug, Clone, Copy, PartialEq, Eq, Structural)]
pub enum VideoCodec {
    H263,
    ScreenVideo,
    VP6,
    VP6Alpha,
    ScreenVideo2,
    H264,
    H265,
    AV1,
    Unknown(u8),
}

/// The codec a codec-id field value names.
pub open spec fn video_codec_of(id: u8) -> VideoCodec {
    if id == 2 {
        VideoCodec::H263
    } else if id == 3 {
        VideoCodec::ScreenVideo
    } else if id == 4 {
        VideoCodec::VP6
    } else if id == 5 {
        VideoCodec::VP6Alpha
    } else if id == 6 {
        VideoCodec::ScreenVideo2
    } else if id == 7 {
        VideoCodec::H264
    } else if id == 12 {
        VideoCodec::H265
    } else if id == 13 {
        VideoCodec::AV1
    } else {
        VideoCodec::Unknown(id)
    }
}

impl VideoCodec {
    /// Identify the codec from the codec-id field.
    pub fn from_codec_id(id: u8) -> (r: VideoCodec)
        ensures
            r == video_codec_of(id),
    {
        if id == 2 {
            VideoCodec::H263
        } else if id == 3 {
            VideoCodec::ScreenVideo
        } else if id == 4 {
            VideoCodec::VP6
        } else if id == 5 {
            VideoCodec::VP6Alpha
        } else if id == 6 {
            VideoCodec::ScreenVideo2
        } else if id == 7 {
            VideoCodec::H264
        } else if id == 12 {
            VideoCodec::H265
        } else if id == 13 {
            VideoCodec::AV1
        } else {
            VideoCodec::Unknown(id)
        }
    }

    /// A short display name for the codec.
    pub fn name(&self) -> (r: &str)
        ensures
            *self == VideoCodec::H264 ==> r@ == "H.264"@,
            *self == VideoCodec::H265 ==> r@ == "H.265"@,
    {
        match self {
            VideoCodec::H263 => "H.263",
            VideoCodec::ScreenVideo => "Screen",
            VideoCodec::VP6 => "VP6",
            VideoCodec::VP6Alpha => "VP6-Alpha",
            VideoCodec::ScreenVideo2 => "Screen-v2",
            VideoCodec::H264 => "H.264",
            VideoCodec::H265 => "H.265",
            VideoCodec::AV1 => "AV1",
            VideoCodec::Unknown(_) => "Unknown",
        }
    }
}

/// The frame kinds the frame-type field can announce.
#[derive(Debug, Clone, Copy, PartialEq, Eq, Structural)]
pub enum FrameType {
    Keyframe,
    InterFrame,
    DisposableInterFrame,
    GeneratedKeyframe,
    VideoInfo,
}

/// The kind a frame-type field value names.
pub open spec fn frame_type_of(bits: u8) -> FrameType {
    if bits == 1 {
        FrameType::Keyframe
    } else if bits == 3 {
        FrameType::DisposableInterFrame
    } else if bits == 4 {
        FrameType::GeneratedKeyframe
    } else if bits == 5 {
        FrameType::VideoInfo
    } else {
        FrameType::InterFrame
    }
}

impl FrameType {
    /// Identify the kind from the four-bit field.
    pub fn from_bits(bits: u8) -> (r: FrameType)
        ensures
            r == frame_type_of(bits),
    {
        if bits == 1 {
            FrameType::Keyframe
        } else if bits == 3 {
            FrameType::DisposableInterFrame
        } else if bits == 4 {
            FrameType::GeneratedKeyframe
        } else if bits == 5 {
            FrameType::VideoInfo
        } else {
            FrameType::InterFrame
        }
    }

    /// Whether a decoder can start at this frame.
    pub fn is_keyframe(&self) -> (r: bool)
        ensures
            r <==> (*self == FrameType::Keyframe || *self == FrameType::GeneratedKeyframe),
    {
        match self {
            FrameType::Keyframe => true,
            FrameType::GeneratedKeyframe => true,
            _ => false,
        }
    }
}

/// The AVC DecoderConfigurationRecord fields the stack reads.
#[derive(Debug)]
pub struct AVCVideoConfig {
    pub version: u8,
    pub profile: u8,
    pub profile_compat: u8,
    pub level: u8,
    pub sps: Vec<Vec<u8>>,
    pub pps: Vec<Vec<u8>>,
}

/// What one video packet announced.
#[derive(Debug)]
pub struct VideoInfo {
    pub codec: VideoCodec,
    pub frame_type: FrameType,
    pub is_sequence_header: bool,
    pub is_keyframe: bool,
    pub frames_since_keyframe: u32,
}

/// Parses video tag headers and tracks the distance from the last
/// keyframe.
pub struct VideoProcessor {
    codec: Option<VideoCodec>,
    last_keyframe_timestamp: Option<u32>,
    frames_since_keyframe: u32,
    avc_config: Option<AVCVideoConfig>,
}

impl VideoProcessor {
    /// A fresh processor that has seen nothing.
    pub fn new() -> (r: VideoProcessor)
        ensures
            r.codec_spec() is None,
            r.gap_spec() == 0,
    {
        VideoProcessor {
            codec: None,
            last_keyframe_timestamp: None,
            frames_since_keyframe: 0,
            avc_config: None,
        }
    }

    /// The last codec seen.
    pub closed spec fn codec_spec(self) -> Option<VideoCodec> {
        self.codec
    }

    /// Frames seen since the last keyframe.
    pub closed spec fn gap_spec(self) -> int {
        self.frames_since_keyframe as int
    }

    /// Parse one video packet's tag header.  Fails exactly on an empty
    /// payload; a keyframe resets the distance counter, any other frame
    /// advances it; an AVC or HEVC packet whose second byte is zero is the
    /// sequence header.
    pub fn process(&mut self, packet: &RtmpPacket) -> (r: Result<VideoInfo, Error>)
        requires
            old(self).gap_spec() < u32::MAX,
        ensures
            r is Ok <==> packet.payload@.len() >= 1,
            r is Ok ==> {
                let tag = packet.payload@[0];
                &&& r->Ok_0.codec == video_codec_of((tag % 16) as u8)
                &&& r->Ok_0.frame_type == frame_type_of((tag / 16) as u8)
                &&& r->Ok_0.is_keyframe == (r->Ok_0.frame_type == FrameType::Keyframe
                    || r->Ok_0.frame_type == FrameType::GeneratedKeyframe)
                &&& (r->Ok_0.is_keyframe ==> final(self).gap_spec() == 0)
                &&& (!r->Ok_0.is_keyframe ==> final(self).gap_spec() == old(self).gap_spec() + 1)
                &&& final(self).codec_spec() == Some(r->Ok_0.codec)
            },
            r is Err ==> r->Err_0 is Protocol,
    {
        if packet.payload.len() == 0 {
            return Err(Error::protocol("Empty video packet"));
        }
        let tag_header = packet.payload[0];
        let frame_type = tag_header / 16;
        let codec_id = tag_header % 16;
        let frame = FrameType::from_bits(frame_type);
        let codec = VideoCodec::from_codec_id(codec_id);
        self.codec = Some(codec);
        let is_key = frame.is_keyframe();
        if is_key {
            self.last_keyframe_timestamp = Some(packet.header.timestamp);
            self.frames_since_keyframe = 0;
        } else {
            self.frames_since_keyframe = self.frames_since_keyframe + 1;
        }
        let mut is_sequence_header = false;
        if (codec == VideoCodec::H264 || codec == VideoCodec::H265) && packet.payload.len() > 1 {
            let avc_packet_type = packet.payload[1];
            if avc_packet_type == 0 {
                is_sequence_header = true;
                if packet.payload.len() >= 9 {
                    let _ = self.parse_avc_config(&packet.payload, 2);
                }
            }
        }
        Ok(
            VideoInfo {
                codec,
                frame_type: frame,
                is_sequence_header,
                is_keyframe: is_key,
                frames_since_keyframe: self.frames_since_keyframe,
            },
        )
    }

    /// Read the DecoderConfigurationRecord standing at the offset: the
    /// four fixed bytes, then the SPS and PPS lists, each length-prefixed.
    fn parse_avc_config(&mut self, data: &Vec<u8>, at: usize) -> (r: Result<(), Error>)
        requires
            at + 7 <= data@.len(),
        ensures
            r is Ok,
            final(self).codec_spec() == old(self).codec_spec(),
            final(self).gap_spec() == old(self).gap_spec(),
            r is Ok ==> (final(self).config_spec() matches Some(c) ==> c.0 == data@[at as int]
                && c.1 == data@[at + 1] && c.2 == data@[at + 2] && c.3 == data@[at + 3]),
            r is Ok ==> final(self).config_spec() is Some,
    {
        proof {
            assert(vstd::std_specs::vec::spec_vec_len(data) == data@.len());
        }
        let version = data[at];
        let profile = data[at + 1];
        let profile_compat = data[at + 2];
        let level = data[at + 3];
        let mut sps: Vec<Vec<u8>> = Vec::new();
        let mut pps: Vec<Vec<u8>> = Vec::new();
        let num_sps = data[at + 5] % 32;
        let mut offset: usize = at + 6;
        let mut k: u8 = 0;
        while k < num_sps
            invariant
                offset <= data@.len(),
            decreases num_sps - k,
        {
            if data.len() - offset < 2 {
                break ;
            }
            let len = (data[offset] as usize) * 256 + (data[offset + 1] as usize);
            offset = offset + 2;
            if len <= data.len() - offset {
                sps.push(copy_slice_range(data, offset, offset + len));
                offset = offset + len;
            }
            k = k + 1;
        }
        if offset < data.len() {
            let num_pps = data[offset];
            offset = offset + 1;
            let mut k2: u8 = 0;
            while k2 < num_pps
                invariant
                    offset <= data@.len(),
                decreases num_pps - k2,
            {
                if data.len() - offset < 2 {
                    break ;
                }
                let len = (data[offset] as usize) * 256 + (data[offset + 1] as usize);
                offset = offset + 2;
                if len <= data.len() - offset {
                    pps.push(copy_slice_range(data, offset, offset + len));
                    offset = offset + len;
                }
                k2 = k2 + 1;
            }
        }
        self.avc_config = Some(
            AVCVideoConfig { version, profile, profile_compat, level, sps, pps },
        );
        Ok(())
    }

    /// The stored configuration record's four fixed fields.
    pub closed spec fn config_spec(self) -> Option<(u8, u8, u8, u8)> {
        match self.avc_config {
            Option::Some(c) => Option::Some((c.version, c.profile, c.profile_compat, c.level)),
            Option::None => Option::None,
        }
    }

    /// Whether more frames than allowed have passed without a keyframe.
    pub fn gop_too_large(&self, max_gop_size: u32) -> (r: bool)
        ensures
            r <==> self.gap_spec() > max_gop_size,
    {
        self.frames_since_keyframe > max_gop_size
    }

    /// The last codec seen.
    pub fn codec(&self) -> (r: Option<VideoCodec>)
        ensures
            r == self.codec_spec(),
    {
        self.codec
    }
}

/// Copy a range of a payload.
fn copy_slice_range(data: &Vec<u8>, from: usize, to: usize) -> (r: Vec<u8>)
    requires
        from <= to <= data@.len(),
    ensures
        r@ == data@.subrange(from as int, to as int),
{
    let mut out: Vec<u8> = Vec::new();
    let mut i: usize = from;
    proof {
        assert(out@ =~= data@.subrange(from as int, from as int));
    }
    while i < to
        invariant
            from <= i <= to <= data@.len(),
            out@ == data@.subrange(from as int, i as int),
        decreases to - i,
    {
        out.push(data[i]);
        i = i + 1;
        proof {
            assert(out@ =~= data@.subrange(from as int, i as int));
        }
    }
    out
}

/// Identify the audio codec at the head of a payload; an empty payload
/// reads as Reserved.
pub fn detect_audio_codec(data: &Vec<u8>) -> (r: AudioCodec)
    ensures
        data@.len() == 0 ==> r == AudioCodec::Reserved,
        data@.len() > 0 ==> r == audio_codec_of((data@[0] / 16) as u8),
{
    if data.len() == 0 {
        return AudioCodec::Reserved;
    }
    AudioCodec::from_sound_format(data[0] / 16)
}

/// Identify the video codec at the head of a payload; an empty payload
/// reads as unknown.
pub fn detect_video_codec(data: &Vec<u8>) -> (r: VideoCodec)
    ensures
        data@.len() == 0 ==> r == VideoCodec::Unknown(0),
        data@.len() > 0 ==> r == video_codec_of((data@[0] % 16) as u8),
{
    if data.len() == 0 {
        return VideoCodec::Unknown(0);
    }
    VideoCodec::from_codec_id(data[0] % 16)
}

/// Whether the video payload starts a decodable group: frame type 1 or 4.
pub fn is_keyframe(video_data: &Vec<u8>) -> (r: bool)
    ensures
        r <==> (video_data@.len() > 0 && (video_data@[0] / 16 == 1 || video_data@[0] / 16 == 4)),
{
    if video_data.len() == 0 {
        return false;
    }
    let frame_type = video_data[0] / 16;
    frame_type == 1 || frame_type == 4
}

/// The metadata fields read out of an onMetaData object; numbers are the
/// bit patterns of the wire values.
#[derive(Debug)]
pub struct Metadata {
    pub width: Option<u64>,
    pub height: Option<u64>,
    pub video_codec_id: Option<Vec<u8>>,
    pub video_data_rate: Option<u64>,
    pub framerate: Option<u64>,
    pub audio_codec_id: Option<Vec<u8>>,
    pub audio_data_rate: Option<u64>,
    pub audio_sample_rate: Option<u64>,
    pub audio_sample_size: Option<u64>,
    pub audio_channels: Option<u64>,
    pub stereo: Option<bool>,
    pub duration: Option<u64>,
    pub file_size: Option<u64>,
    pub encoder: Option<Vec<u8>>,
    pub can_seek_to_end: Option<bool>,
}

impl Metadata {
    /// Whether the stream announced video.
    pub fn has_video(&self) -> (r: bool)
        ensures
            r <==> (self.video_codec_id is Some || self.width is Some),
    {
        match self.video_codec_id {
            Some(_) => true,
            None => self.width.is_some(),
        }
    }

    /// Whether the stream announced audio.
    pub fn has_audio(&self) -> (r: bool)
        ensures
            r <==> (self.audio_codec_id is Some || self.audio_sample_rate is Some),
    {
        match self.audio_codec_id {
            Some(_) => true,
            None => self.audio_sample_rate.is_some(),
        }
    }

    /// Rebuild a metadata object from the stored fields, absent ones left
    /// out.
    pub fn to_amf(&self) -> (r: Vec<(Vec<u8>, Amf0Value)>)
        ensures
            props_view(r@) == meta_obj_members(*self),
    {
        let ghost t1 = num_member("width".spec_bytes(), self.width);
        let ghost t2 = t1 + num_member("height".spec_bytes(), self.height);
        let ghost t3 = t2 + str_member("videocodecid".spec_bytes(), self.video_codec_id);
        let ghost t4 = t3 + num_member("videodatarate".spec_bytes(), self.video_data_rate);
        let ghost t5 = t4 + num_member("framerate".spec_bytes(), self.framerate);
        let ghost t6 = t5 + str_member("audiocodecid".spec_bytes(), self.audio_codec_id);
        let ghost t7 = t6 + num_member("audiodatarate".spec_bytes(), self.audio_data_rate);
        let ghost t8 = t7 + num_member("audiosamplerate".spec_bytes(), self.audio_sample_rate);
        let ghost t9 = t8 + num_member("duration".spec_bytes(), self.duration);
        let ghost t10 = t9 + str_member("encoder".spec_bytes(), self.encoder);
        let mut obj: Vec<(Vec<u8>, Amf0Value)> = Vec::new();
        push_num_member(&mut obj, "width", self.width);
        proof {
            assert(props_view(obj@) =~= t1);
        }
        push_num_member(&mut obj, "height", self.height);
        proof {
            assert(props_view(obj@) == t2);
        }
        push_str_member(&mut obj, "videocodecid", &self.video_codec_id);
        proof {
            assert(props_view(obj@) == t3);
        }
        push_num_member(&mut obj, "videodatarate", self.video_data_rate);
        proof {
            assert(props_view(obj@) == t4);
        }
        push_num_member(&mut obj, "framerate", self.framerate);
        proof {
            assert(props_view(obj@) == t5);
        }
        push_str_member(&mut obj, "audiocodecid", &self.audio_codec_id);
        proof {
            assert(props_view(obj@) == t6);
        }
        push_num_member(&mut obj, "audiodatarate", self.audio_data_rate);
        proof {
            assert(props_view(obj@) == t7);
        }
        push_num_member(&mut obj, "audiosamplerate", self.audio_sample_rate);
        proof {
            assert(props_view(obj@) == t8);
        }
        push_num_member(&mut obj, "duration", self.duration);
        proof {
            assert(props_view(obj@) == t9);
        }
        push_str_member(&mut obj, "encoder", &self.encoder);
        proof {
            assert(props_view(obj@) == t10);
        }
        obj
    }
}

/// The member list a metadata record rebuilds: the present fields, in the
/// canonical order, absent ones left out.
pub open spec fn meta_obj_members(m: Metadata) -> Seq<(Seq<u8>, Amf0Term)> {
    num_member("width".spec_bytes(), m.width) + num_member("height".spec_bytes(), m.height)
        + str_member("videocodecid".spec_bytes(), m.video_codec_id) + num_member(
        "videodatarate".spec_bytes(),
        m.video_data_rate,
    ) + num_member("framerate".spec_bytes(), m.framerate) + str_member(
        "audiocodecid".spec_bytes(),
        m.audio_codec_id,
    ) + num_member("audiodatarate".spec_bytes(), m.audio_data_rate) + num_member(
        "audiosamplerate".spec_bytes(),
        m.audio_sample_rate,
    ) + num_member("duration".spec_bytes(), m.duration) + str_member(
        "encoder".spec_bytes(),
        m.encoder,
    )
}

/// A member value as the flat cache stores it: scalars and strings as they
/// stand, any nested structure as Null.
pub open spec fn shallow_term(m: Amf0Term) -> Amf0Term {
    match m {
        Amf0Term::Number(_) => m,
        Amf0Term::Boolean(_) => m,
        Amf0Term::String(_) => m,
        Amf0Term::LongString(_) => m,
        Amf0Term::Date(_, _) => m,
        Amf0Term::Undefined => m,
        Amf0Term::Unsupported => m,
        _ => Amf0Term::Null,
    }
}

/// The value stored under the last occurrence of a key in a member list.
pub open spec fn prop_lookup_last(ps: Seq<(Seq<u8>, Amf0Term)>, key: Seq<u8>) -> Option<
    Amf0Term,
>
    decreases ps.len(),
{
    if ps.len() == 0 {
        Option::None
    } else if ps.last().0 == key {
        Option::Some(ps.last().1)
    } else {
        prop_lookup_last(ps.drop_last(), key)
    }
}

/// The member list a metadata message carries: onMetaData holds it first;
/// @setDataFrame holds the event name first and the list second.  Nothing
/// for any other message, an empty one, or a carried value that is no
/// object.
pub open spec fn metadata_carried(tn: Seq<u8>, vs: Seq<Amf0Term>) -> Option<
    Seq<(Seq<u8>, Amf0Term)>,
> {
    if !(tn == "onMetaData".spec_bytes() || tn == "@setDataFrame".spec_bytes()) {
        Option::None
    } else if vs.len() == 0 {
        Option::None
    } else {
        let carried = if tn == "@setDataFrame".spec_bytes() && vs.len() > 1 {
            vs[1]
        } else {
            vs[0]
        };
        match carried {
            Amf0Term::Object(ps) => Option::Some(ps),
            Amf0Term::EcmaArray(ps) => Option::Some(ps),
            Amf0Term::TypedObject(n, ps) => Option::Some(ps),
            _ => Option::None,
        }
    }
}

/// A lookup survives an update elsewhere; one at the first entry carrying
/// the key replaces what is held.
proof fn lemma_prop_lookup_update(ps: Seq<(Seq<u8>, Amf0Term)>, i: int, p: (Seq<u8>, Amf0Term))
    requires
        0 <= i < ps.len(),
        ps[i].0 == p.0,
        forall|j: int| 0 <= j < i ==> ps[j].0 != p.0,
    ensures
        prop_lookup(ps.update(i, p), p.0) == Some(p.1),
        forall|k: Seq<u8>| k != p.0 ==> prop_lookup(ps.update(i, p), k) == prop_lookup(ps, k),
    decreases i,
{
    if i == 0 {
        assert(ps.update(0, p)[0] == p);
        assert(ps.update(0, p).drop_first() =~= ps.drop_first());
        assert forall|k: Seq<u8>| k != p.0 implies prop_lookup(ps.update(0, p), k) == prop_lookup(
            ps,
            k,
        ) by {
            assert(ps[0].0 == p.0);
        }
    } else {
        assert(ps.update(i, p)[0] == ps[0]);
        assert(ps[0].0 != p.0);
        assert(ps.update(i, p).drop_first() =~= ps.drop_first().update(i - 1, p));
        lemma_prop_lookup_update(ps.drop_first(), i - 1, p);
        assert(prop_lookup(ps.update(i, p), p.0) == Some(p.1));
        assert forall|k: Seq<u8>| k != p.0 implies prop_lookup(ps.update(i, p), k) == prop_lookup(
            ps,
            k,
        ) by {
            assert(prop_lookup(ps.drop_first().update(i - 1, p), k) == prop_lookup(
                ps.drop_first(),
                k,
            ));
        }
    }
}

/// Appending a member under a fresh key makes it the one held for that
/// key and leaves every other lookup unchanged.
proof fn lemma_prop_lookup_push(ps: Seq<(Seq<u8>, Amf0Term)>, p: (Seq<u8>, Amf0Term))
    requires
        prop_lookup(ps, p.0) is None,
    ensures
        prop_lookup(ps.push(p), p.0) == Some(p.1),
        forall|k: Seq<u8>| k != p.0 ==> prop_lookup(ps.push(p), k) == prop_lookup(ps, k),
    decreases ps.len(),
{
    if ps.len() == 0 {
        assert(ps.push(p)[0] == p);
        assert(ps.push(p).drop_first() =~= Seq::<(Seq<u8>, Amf0Term)>::empty());
        assert forall|k: Seq<u8>| k != p.0 implies prop_lookup(ps.push(p), k) == prop_lookup(
            ps,
            k,
        ) by {
            assert(prop_lookup(Seq::<(Seq<u8>, Amf0Term)>::empty(), k) is None);
        }
    } else {
        assert(ps.push(p)[0] == ps[0]);
        assert(ps.push(p).drop_first() =~= ps.drop_first().push(p));
        lemma_prop_lookup_push(ps.drop_first(), p);
        assert(prop_lookup(ps.push(p), p.0) == Some(p.1));
        assert forall|k: Seq<u8>| k != p.0 implies prop_lookup(ps.push(p), k) == prop_lookup(
            ps,
            k,
        ) by {
            assert(prop_lookup(ps.drop_first().push(p), k) == prop_lookup(ps.drop_first(), k));
        }
    }
}

/// A key no entry carries looks up to nothing.
proof fn lemma_prop_lookup_absent(ps: Seq<(Seq<u8>, Amf0Term)>, k: Seq<u8>)
    requires
        forall|j: int| 0 <= j < ps.len() ==> (#[trigger] ps[j]).0 != k,
    ensures
        prop_lookup(ps, k) is None,
    decreases ps.len(),
{
    if ps.len() > 0 {
        assert(forall|j: int|
            0 <= j < ps.drop_first().len() ==> (#[trigger] ps.drop_first()[j]).0 != k);
        lemma_prop_lookup_absent(ps.drop_first(), k);
    }
}

/// Digests onMetaData and @setDataFrame messages, keeping the merged
/// member list as they arrive.
pub struct MetadataProcessor {
    metadata_cache: Vec<(Vec<u8>, Amf0Value)>,
    last_update: Option<u32>,
}

impl MetadataProcessor {
    /// A fresh processor with an empty cache.
    pub fn new() -> (r: MetadataProcessor)
        ensures
            r.cache_len() == 0,
            forall|k: Seq<u8>| #[trigger] prop_lookup(r.cache_view(), k) is None,
    {
        let r = MetadataProcessor { metadata_cache: Vec::new(), last_update: None };
        proof {
            assert forall|k: Seq<u8>| #[trigger] prop_lookup(r.cache_view(), k) is None by {
                lemma_props_view_index(r.metadata_cache@);
                lemma_prop_lookup_absent(r.cache_view(), k);
            }
        }
        r
    }

    /// The merged members, as keys and value shapes.
    pub closed spec fn cache_view(self) -> Seq<(Seq<u8>, Amf0Term)> {
        props_view(self.metadata_cache@)
    }

    /// How many members the cache holds.
    pub closed spec fn cache_len(self) -> int {
        self.metadata_cache@.len() as int
    }

    /// Digest one data message.  Only onMetaData and @setDataFrame carrying
    /// an object qualify; each member of the carried object then overrides
    /// what the cache held under its key, flattened, and the recognised
    /// fields come back.
    pub fn process(&mut self, data: &RtmpData, timestamp: u32) -> (r: Result<Metadata, Error>)
        ensures
            r is Err ==> r->Err_0 is Protocol,
            r is Err ==> final(self).cache_view() == old(self).cache_view(),
            r is Ok <==> metadata_carried(data.data_type@, vals_view(data.values@)) is Some,
            r is Ok ==> (metadata_carried(data.data_type@, vals_view(data.values@))
                matches Some(ps) ==> {
                &&& r->Ok_0.width == num_prop_of(ps, "width".spec_bytes())
                &&& r->Ok_0.height == num_prop_of(ps, "height".spec_bytes())
                &&& opt_bytes(r->Ok_0.video_codec_id) == str_prop_of(
                    ps,
                    "videocodecid".spec_bytes(),
                )
                &&& r->Ok_0.video_data_rate == num_prop_of(ps, "videodatarate".spec_bytes())
                &&& r->Ok_0.framerate == num_prop_of(ps, "framerate".spec_bytes())
                &&& opt_bytes(r->Ok_0.audio_codec_id) == str_prop_of(
                    ps,
                    "audiocodecid".spec_bytes(),
                )
                &&& r->Ok_0.audio_data_rate == num_prop_of(ps, "audiodatarate".spec_bytes())
                &&& r->Ok_0.audio_sample_rate == num_prop_of(ps, "audiosamplerate".spec_bytes())
                &&& r->Ok_0.audio_sample_size == num_prop_of(ps, "audiosamplesize".spec_bytes())
                &&& r->Ok_0.audio_channels == num_prop_of(ps, "audiochannels".spec_bytes())
                &&& r->Ok_0.stereo == bool_prop_of(ps, "stereo".spec_bytes())
                &&& r->Ok_0.duration == num_prop_of(ps, "duration".spec_bytes())
                &&& r->Ok_0.file_size == num_prop_of(ps, "filesize".spec_bytes())
                &&& opt_bytes(r->Ok_0.encoder) == str_prop_of(ps, "encoder".spec_bytes())
                &&& r->Ok_0.can_seek_to_end == bool_prop_of(ps, "canSeekToEnd".spec_bytes())
                &&& (forall|k: Seq<u8>|
                    #[trigger] prop_lookup(final(self).cache_view(), k) == (
                    match prop_lookup_last(ps, k) {
                        Option::Some(v) => Option::Some(shallow_term(v)),
                        Option::None => prop_lookup(old(self).cache_view(), k),
                    }))
            }),
    {
        let is_on_metadata = str_bytes_is(&data.data_type, "onMetaData");
        let is_set_data_frame = str_bytes_is(&data.data_type, "@setDataFrame");
        if !is_on_metadata && !is_set_data_frame {
            return Err(Error::protocol("Not a metadata message"));
        }
        proof {
            lemma_vals_view_index(data.values@);
        }
        let carried = if is_set_data_frame && data.values.len() > 1 {
            &data.values[1]
        } else {
            if data.values.len() == 0 {
                return Err(Error::protocol("Invalid metadata format"));
            }
            &data.values[0]
        };
        proof {
            assert(carried@ == (if data.data_type@ == "@setDataFrame".spec_bytes()
                && vals_view(data.values@).len() > 1 {
                vals_view(data.values@)[1]
            } else {
                vals_view(data.values@)[0]
            }));
        }
        let obj = match carried.as_object() {
            Some(ps) => ps,
            None => {
                return Err(Error::protocol("Invalid metadata format"));
            },
        };
        let ghost opv = props_view(obj@);
        proof {
            lemma_props_view_index(obj@);
            assert(metadata_carried(data.data_type@, vals_view(data.values@)) == Some(opv));
        }
        self.last_update = Some(timestamp);
        let n = obj.len();
        let mut i: usize = 0;
        proof {
            assert(opv.take(0) =~= Seq::<(Seq<u8>, Amf0Term)>::empty());
        }
        while i < n
            invariant
                n == obj@.len(),
                i <= n,
                opv == props_view(obj@),
                opv.len() == n,
                forall|j: int|
                    0 <= j < n ==> #[trigger] opv[j] == (obj@[j].0@, amf_view(obj@[j].1)),
                forall|k: Seq<u8>|
                    #[trigger] prop_lookup(self.cache_view(), k) == (match prop_lookup_last(
                        opv.take(i as int),
                        k,
                    ) {
                        Option::Some(v) => Option::Some(shallow_term(v)),
                        Option::None => prop_lookup(old(self).cache_view(), k),
                    }),
            decreases n - i,
        {
            let key = crate::command::copy_bytes(&obj[i].0);
            let value = copy_value_shallow(&obj[i].1);
            let ghost before = self.cache_view();
            let ghost kb = key@;
            let ghost vv = amf_view(value);
            self.merge(key, value);
            proof {
                assert(opv.take(i + 1).last() == opv[i as int]);
                assert(opv.take(i + 1).drop_last() =~= opv.take(i as int));
                assert(vv == shallow_term(amf_view(obj@[i as int].1)));
                assert forall|k: Seq<u8>|
                    #[trigger] prop_lookup(self.cache_view(), k) == (match prop_lookup_last(
                        opv.take(i + 1),
                        k,
                    ) {
                        Option::Some(v) => Option::Some(shallow_term(v)),
                        Option::None => prop_lookup(old(self).cache_view(), k),
                    }) by {
                    if k == kb {
                        assert(prop_lookup(self.cache_view(), k) == Some(vv));
                    } else {
                        assert(prop_lookup(self.cache_view(), k) == prop_lookup(before, k));
                    }
                }
            }
            i = i + 1;
        }
        proof {
            assert(opv.take(n as int) =~= opv);
            assert forall|k: Seq<u8>|
                #[trigger] prop_lookup(self.cache_view(), k) == (match prop_lookup_last(opv, k) {
                    Option::Some(v) => Option::Some(shallow_term(v)),
                    Option::None => prop_lookup(old(self).cache_view(), k),
                }) by {
                assert(prop_lookup(self.cache_view(), k) == (match prop_lookup_last(
                    opv.take(n as int),
                    k,
                ) {
                    Option::Some(v) => Option::Some(shallow_term(v)),
                    Option::None => prop_lookup(old(self).cache_view(), k),
                }));
            }
        }
        Ok(parse_metadata(obj))
    }

    /// Replace the member under a key, or append one; every other member's
    /// lookup is untouched.
    fn merge(&mut self, key: Vec<u8>, value: Amf0Value)
        ensures
            prop_lookup(final(self).cache_view(), key@) == Some(amf_view(value)),
            forall|k: Seq<u8>|
                k != key@ ==> #[trigger] prop_lookup(final(self).cache_view(), k) == prop_lookup(
                    old(self).cache_view(),
                    k,
                ),
    {
        proof {
            lemma_props_view_index(self.metadata_cache@);
        }
        let ghost pv = self.cache_view();
        let ghost vv = amf_view(value);
        let ghost kb = key@;
        let n = self.metadata_cache.len();
        let mut i: usize = 0;
        while i < n
            invariant
                n == self.metadata_cache@.len(),
                i <= n,
                pv == self.cache_view(),
                pv == old(self).cache_view(),
                pv.len() == n,
                vv == amf_view(value),
                kb == key@,
                forall|j: int|
                    0 <= j < n ==> #[trigger] pv[j] == (
                        self.metadata_cache@[j].0@,
                        amf_view(self.metadata_cache@[j].1),
                    ),
                forall|j: int| 0 <= j < i ==> (#[trigger] pv[j]).0 != kb,
            decreases n - i,
        {
            if byte_eq(&self.metadata_cache[i].0, &key) {
                let ghost oldc = self.metadata_cache@;
                let _ = self.metadata_cache.remove(i);
                self.metadata_cache.insert(i, (key, value));
                proof {
                    assert(self.metadata_cache@ =~= oldc.update(
                        i as int,
                        self.metadata_cache@[i as int],
                    ));
                    lemma_props_view_index(self.metadata_cache@);
                    assert(self.cache_view() =~= pv.update(i as int, (kb, vv)));
                    lemma_prop_lookup_update(pv, i as int, (kb, vv));
                    assert forall|k: Seq<u8>|
                        k != kb implies #[trigger] prop_lookup(self.cache_view(), k)
                        == prop_lookup(pv, k) by {
                        assert(prop_lookup(pv.update(i as int, (kb, vv)), k) == prop_lookup(
                            pv,
                            k,
                        ));
                    }
                }
                return ;
            }
            i = i + 1;
        }
        let ghost oldc = self.metadata_cache@;
        self.metadata_cache.push((key, value));
        proof {
            lemma_prop_lookup_absent(pv, kb);
            lemma_props_view_push(oldc, self.metadata_cache@.last());
            assert(self.metadata_cache@ =~= oldc.push(self.metadata_cache@.last()));
            assert(self.cache_view() =~= pv.push((kb, vv)));
            lemma_prop_lookup_push(pv, (kb, vv));
            assert forall|k: Seq<u8>|
                k != kb implies #[trigger] prop_lookup(self.cache_view(), k) == prop_lookup(
                    pv,
                    k,
                ) by {
                assert(prop_lookup(pv.push((kb, vv)), k) == prop_lookup(pv, k));
            }
        }
    }

    /// Borrow the merged cache.
    pub fn get_cached(&self) -> (r: &Vec<(Vec<u8>, Amf0Value)>)
        ensures
            r@.len() == self.cache_len(),
            props_view(r@) == self.cache_view(),
    {
        &self.metadata_cache
    }

    /// Drop everything cached.
    pub fn clear_cache(&mut self)
        ensures
            final(self).cache_len() == 0,
            forall|k: Seq<u8>| #[trigger] prop_lookup(final(self).cache_view(), k) is None,
    {
        self.metadata_cache.clear();
        self.last_update = None;
        proof {
            assert forall|k: Seq<u8>| #[trigger] prop_lookup(self.cache_view(), k) is None by {
                lemma_props_view_index(self.metadata_cache@);
                lemma_prop_lookup_absent(self.cache_view(), k);
            }
        }
    }
}

/// Read the recognised fields out of a metadata object, each the first
/// value under its key.
fn parse_metadata(obj: &Vec<(Vec<u8>, Amf0Value)>) -> (r: Metadata)
    ensures
        r.width == num_prop_of(props_view(obj@), "width".spec_bytes()),
        r.height == num_prop_of(props_view(obj@), "height".spec_bytes()),
        opt_bytes(r.video_codec_id) == str_prop_of(props_view(obj@), "videocodecid".spec_bytes()),
        r.video_data_rate == num_prop_of(props_view(obj@), "videodatarate".spec_bytes()),
        r.framerate == num_prop_of(props_view(obj@), "framerate".spec_bytes()),
        opt_bytes(r.audio_codec_id) == str_prop_of(props_view(obj@), "audiocodecid".spec_bytes()),
        r.audio_data_rate == num_prop_of(props_view(obj@), "audiodatarate".spec_bytes()),
        r.audio_sample_rate == num_prop_of(props_view(obj@), "audiosamplerate".spec_bytes()),
        r.audio_sample_size == num_prop_of(props_view(obj@), "audiosamplesize".spec_bytes()),
        r.audio_channels == num_prop_of(props_view(obj@), "audiochannels".spec_bytes()),
        r.stereo == bool_prop_of(props_view(obj@), "stereo".spec_bytes()),
        r.duration == num_prop_of(props_view(obj@), "duration".spec_bytes()),
        r.file_size == num_prop_of(props_view(obj@), "filesize".spec_bytes()),
        opt_bytes(r.encoder) == str_prop_of(props_view(obj@), "encoder".spec_bytes()),
        r.can_seek_to_end == bool_prop_of(props_view(obj@), "canSeekToEnd".spec_bytes()),
{
    Metadata {
        width: meta_number(obj, "width"),
        height: meta_number(obj, "height"),
        video_codec_id: meta_string(obj, "videocodecid"),
        video_data_rate: meta_number(obj, "videodatarate"),
        framerate: meta_number(obj, "framerate"),
        audio_codec_id: meta_string(obj, "audiocodecid"),
        audio_data_rate: meta_number(obj, "audiodatarate"),
        audio_sample_rate: meta_number(obj, "audiosamplerate"),
        audio_sample_size: meta_number(obj, "audiosamplesize"),
        audio_channels: meta_number(obj, "audiochannels"),
        stereo: meta_boolean(obj, "stereo"),
        duration: meta_number(obj, "duration"),
        file_size: meta_number(obj, "filesize"),
        encoder: meta_string(obj, "encoder"),
        can_seek_to_end: meta_boolean(obj, "canSeekToEnd"),
    }
}

/// The number stored under a key, when the first occurrence holds one.
fn meta_number(obj: &Vec<(Vec<u8>, Amf0Value)>, key: &str) -> (r: Option<u64>)
    ensures
        r == num_prop_of(props_view(obj@), key.spec_bytes()),
{
    proof {
        lemma_props_view_index(obj@);
    }
    let ghost pv = props_view(obj@);
    let n = obj.len();
    let mut i: usize = 0;
    proof {
        assert(pv.skip(0) =~= pv);
    }
    while i < n
        invariant
            n == obj@.len(),
            i <= n,
            pv == props_view(obj@),
            pv.len() == n,
            forall|j: int| 0 <= j < n ==> #[trigger] pv[j] == (obj@[j].0@, amf_view(obj@[j].1)),
            prop_lookup(pv.skip(i as int), key.spec_bytes()) == prop_lookup(
                pv,
                key.spec_bytes(),
            ),
        decreases n - i,
    {
        proof {
            assert(pv.skip(i as int)[0] == pv[i as int]);
            assert(pv.skip(i as int).drop_first() =~= pv.skip(i + 1));
        }
        if str_bytes_is(&obj[i].0, key) {
            return obj[i].1.as_number();
        }
        i = i + 1;
    }
    proof {
        assert(pv.skip(n as int) =~= Seq::<(Seq<u8>, Amf0Term)>::empty());
    }
    None
}

/// The string bytes stored under a key, when the first occurrence holds
/// them.
fn meta_string(obj: &Vec<(Vec<u8>, Amf0Value)>, key: &str) -> (r: Option<Vec<u8>>)
    ensures
        opt_bytes(r) == str_prop_of(props_view(obj@), key.spec_bytes()),
{
    proof {
        lemma_props_view_index(obj@);
    }
    let ghost pv = props_view(obj@);
    let n = obj.len();
    let mut i: usize = 0;
    proof {
        assert(pv.skip(0) =~= pv);
    }
    while i < n
        invariant
            n == obj@.len(),
            i <= n,
            pv == props_view(obj@),
            pv.len() == n,
            forall|j: int| 0 <= j < n ==> #[trigger] pv[j] == (obj@[j].0@, amf_view(obj@[j].1)),
            prop_lookup(pv.skip(i as int), key.spec_bytes()) == prop_lookup(
                pv,
                key.spec_bytes(),
            ),
        decreases n - i,
    {
        proof {
            assert(pv.skip(i as int)[0] == pv[i as int]);
            assert(pv.skip(i as int).drop_first() =~= pv.skip(i + 1));
        }
        if str_bytes_is(&obj[i].0, key) {
            return match obj[i].1.as_string() {
                Some(bytes) => Some(crate::command::copy_bytes(bytes)),
                None => None,
            };
        }
        i = i + 1;
    }
    proof {
        assert(pv.skip(n as int) =~= Seq::<(Seq<u8>, Amf0Term)>::empty());
    }
    None
}

/// The boolean stored under a key, when the first occurrence holds one.
fn meta_boolean(obj: &Vec<(Vec<u8>, Amf0Value)>, key: &str) -> (r: Option<bool>)
    ensures
        r == bool_prop_of(props_view(obj@), key.spec_bytes()),
{
    proof {
        lemma_props_view_index(obj@);
    }
    let ghost pv = props_view(obj@);
    let n = obj.len();
    let mut i: usize = 0;
    proof {
        assert(pv.skip(0) =~= pv);
    }
    while i < n
        invariant
            n == obj@.len(),
            i <= n,
            pv == props_view(obj@),
            pv.len() == n,
            forall|j: int| 0 <= j < n ==> #[trigger] pv[j] == (obj@[j].0@, amf_view(obj@[j].1)),
            prop_lookup(pv.skip(i as int), key.spec_bytes()) == prop_lookup(
                pv,
                key.spec_bytes(),
            ),
        decreases n - i,
    {
        proof {
            assert(pv.skip(i as int)[0] == pv[i as int]);
            assert(pv.skip(i as int).drop_first() =~= pv.skip(i + 1));
        }
        if str_bytes_is(&obj[i].0, key) {
            return obj[i].1.as_boolean();
        }
        i = i + 1;
    }
    proof {
        assert(pv.skip(n as int) =~= Seq::<(Seq<u8>, Amf0Term)>::empty());
    }
    None
}

/// Whether two byte vectors hold the same bytes.
fn byte_eq(a: &Vec<u8>, b: &Vec<u8>) -> (r: bool)
    ensures
        r <==> a@ == b@,
{
    if a.len() != b.len() {
        return false;
    }
    let n = a.len();
    let mut i: usize = 0;
    while i < n
        invariant
            n == a@.len() == b@.len(),
            i <= n,
            forall|j: int| 0 <= j < i ==> a@[j] == b@[j],
        decreases n - i,
    {
        if a[i] != b[i] {
            return false;
        }
        i = i + 1;
    }
    proof {
        assert(a@ =~= b@);
    }
    true
}

/// A flat copy of a metadata member value: scalars and strings as they
/// stand; a nested structure is kept out of the flat cache as Null.
fn copy_value_shallow(v: &Amf0Value) -> (r: Amf0Value)
    ensures
        r@ == shallow_term(v@),
{
    match v {
        Amf0Value::Number(b) => Amf0Value::Number(*b),
        Amf0Value::Boolean(b) => Amf0Value::Boolean(*b),
        Amf0Value::String(s) => Amf0Value::String(crate::command::copy_bytes(s)),
        Amf0Value::LongString(s) => Amf0Value::LongString(crate::command::copy_bytes(s)),
        Amf0Value::Date(b, tz) => Amf0Value::Date(*b, *tz),
        Amf0Value::Undefined => Amf0Value::Undefined,
        Amf0Value::Unsupported => Amf0Value::Unsupported,
        _ => Amf0Value::Null,
    }
}

} // verus!
