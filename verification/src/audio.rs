//! Audio stream metadata and the decisions around decoding: which track of
//! a container to decode, what to do with each packet read, the Opus
//! identification header and the samples an Opus stream asks the decoder
//! to skip. Decoding itself works on floating-point samples and runs
//! outside this library.

use vstd::prelude::*;

use crate::storage::{decimal, decimal_string};

verus! {

/// Why audio could not be turned into 16 kHz mono samples.
#[derive(Debug)]
pub enum AudioError {
    Decode(String),
    Resample(String),
}

/// Mathematical value of an [`AudioError`].
pub ghost enum AudioErrorView {
    Decode(Seq<char>),
    Resample(Seq<char>),
}

impl View for AudioError {
    type V = AudioErrorView;

    open spec fn view(&self) -> AudioErrorView {
        match self {
            AudioError::Decode(m) => AudioErrorView::Decode(m@),
            AudioError::Resample(m) => AudioErrorView::Resample(m@),
        }
    }
}

impl AudioError {
    /// The human-readable message of this error.
    pub fn message(&self) -> (m: String)
        ensures
            m@ == match self@ {
                AudioErrorView::Decode(d) => "decode failed: "@ + d,
                AudioErrorView::Resample(d) => "resample failed: "@ + d,
            },
    {
        match self {
            AudioError::Decode(d) => String::from_str("decode failed: ").concat(d.as_str()),
            AudioError::Resample(d) => String::from_str("resample failed: ").concat(d.as_str()),
        }
    }
}

/// The sample rate Whisper consumes.
pub const TARGET_SAMPLE_RATE: u32 = 16_000;

/// The rate at which Opus always decodes.
pub const OPUS_INTERNAL_RATE: u32 = 48_000;

/// The largest Opus frame per channel: 120 ms at 48 kHz.
pub const MAX_FRAME_SAMPLES_PER_CHANNEL: u32 = 5_760;

/// What the decoder needs from an `OpusHead` packet.
#[derive(Debug)]
pub struct OpusHead {
    /// Samples per channel to drop from the start of the decoded stream.
    pub pre_skip: u16,
    pub channels: u8,
}

/// The identification magic `OpusHead`.
pub open spec fn opus_magic() -> Seq<u8> {
    seq![0x4fu8, 0x70u8, 0x75u8, 0x73u8, 0x48u8, 0x65u8, 0x61u8, 0x64u8]
}

/// The outcome of parsing an `OpusHead` (RFC 7845 §5.1): the magic,
/// version 1, one or two channels, the pre-skip (little-endian) and
/// channel mapping family 0. The input rate and output gain are ignored:
/// the decoder always runs at 48 kHz and the gain is 0 in practice.
pub open spec fn opus_head_result(b: Seq<u8>) -> Result<(u16, u8), AudioErrorView> {
    if b.len() < 19 {
        Err(AudioErrorView::Decode("OpusHead too short: "@ + decimal(b.len()) + " bytes"@))
    } else if b.take(8) != opus_magic() {
        Err(AudioErrorView::Decode("missing OpusHead"@))
    } else if b[8] != 1 {
        Err(AudioErrorView::Decode("unsupported OpusHead version: "@ + decimal(b[8] as nat)))
    } else if b[9] != 1 && b[9] != 2 {
        Err(AudioErrorView::Decode("unsupported channel count: "@ + decimal(b[9] as nat)))
    } else if b[18] != 0 {
        Err(
            AudioErrorView::Decode(
                "unsupported channel mapping family: "@ + decimal(b[18] as nat),
            ),
        )
    } else {
        Ok(((b[10] as int + 256 * (b[11] as int)) as u16, b[9]))
    }
}

/// Parses the `OpusHead` identification packet.
pub fn parse_opus_head(bytes: &[u8]) -> (r: Result<OpusHead, AudioError>)
    ensures
        match r {
            Ok(h) => opus_head_result(bytes@) == Ok::<(u16, u8), AudioErrorView>(
                (h.pre_skip, h.channels),
            ),
            Err(e) => opus_head_result(bytes@) == Err::<(u16, u8), AudioErrorView>(e@),
        },
{
    let n = bytes.len();
    if n < 19 {
        return Err(
            AudioError::Decode(
                String::from_str("OpusHead too short: ").concat(
                    decimal_string(n as u64).as_str(),
                ).concat(" bytes"),
            ),
        );
    }
    let magic = bytes[0] == 0x4f && bytes[1] == 0x70 && bytes[2] == 0x75 && bytes[3] == 0x73
        && bytes[4] == 0x48 && bytes[5] == 0x65 && bytes[6] == 0x61 && bytes[7] == 0x64;
    proof {
        if magic {
            assert(bytes@.take(8) =~= opus_magic());
        } else {
            if bytes@.take(8) == opus_magic() {
                assert(bytes@.take(8)[0] == bytes@[0]);
                assert(bytes@.take(8)[1] == bytes@[1]);
                assert(bytes@.take(8)[2] == bytes@[2]);
                assert(bytes@.take(8)[3] == bytes@[3]);
                assert(bytes@.take(8)[4] == bytes@[4]);
                assert(bytes@.take(8)[5] == bytes@[5]);
                assert(bytes@.take(8)[6] == bytes@[6]);
                assert(bytes@.take(8)[7] == bytes@[7]);
            }
        }
    }
    if !magic {
        return Err(AudioError::Decode(String::from_str("missing OpusHead")));
    }
    let version = bytes[8];
    if version != 1 {
        return Err(
            AudioError::Decode(
                String::from_str("unsupported OpusHead version: ").concat(
                    decimal_string(version as u64).as_str(),
                ),
            ),
        );
    }
    let channels = bytes[9];
    if channels != 1 && channels != 2 {
        return Err(
            AudioError::Decode(
                String::from_str("unsupported channel count: ").concat(
                    decimal_string(channels as u64).as_str(),
                ),
            ),
        );
    }
    let pre_skip: u16 = (bytes[10] as u16) + 256 * (bytes[11] as u16);
    let mapping_family = bytes[18];
    if mapping_family != 0 {
        return Err(
            AudioError::Decode(
                String::from_str("unsupported channel mapping family: ").concat(
                    decimal_string(mapping_family as u64).as_str(),
                ),
            ),
        );
    }
    Ok(OpusHead { pre_skip, channels })
}

/// The number of leading samples the pre-skip drops from an interleaved
/// buffer of `len` samples: `pre_skip` frames of `channels` samples, at
/// most the whole buffer.
pub open spec fn pre_skip_drop(len: nat, pre_skip: u16, channels: u8) -> nat {
    let d = pre_skip as nat * channels as nat;
    if d <= len {
        d
    } else {
        len
    }
}

/// Drops the pre-skip from the start of an interleaved decoded buffer.
pub fn apply_pre_skip<T>(buf: &mut Vec<T>, pre_skip: u16, channels: u8)
    ensures
        final(buf)@ == old(buf)@.skip(pre_skip_drop(old(buf)@.len(), pre_skip, channels) as int),
{
    proof {
        assert(pre_skip as int * channels as int <= 65535 * 255) by (nonlinear_arith)
            requires
                pre_skip <= 65535,
                channels <= 255,
        ;
    }
    let want: usize = (pre_skip as usize) * (channels as usize);
    let drop: usize = if want <= buf.len() { want } else { buf.len() };
    let tail = buf.split_off(drop);
    *buf = tail;
}

/// The Opus decoder supports mono and stereo streams only.
pub open spec fn opus_channels_result(channels: u8) -> Result<(), AudioErrorView> {
    if channels == 1 || channels == 2 {
        Ok(())
    } else {
        Err(AudioErrorView::Decode("unsupported channel count: "@ + decimal(channels as nat)))
    }
}

/// Checks that a decoder can be made for `channels` channels.
pub fn check_opus_channels(channels: u8) -> (r: Result<(), AudioError>)
    ensures
        match r {
            Ok(()) => opus_channels_result(channels) == Ok::<(), AudioErrorView>(()),
            Err(e) => opus_channels_result(channels) == Err::<(), AudioErrorView>(e@),
        },
{
    if channels != 1 && channels != 2 {
        return Err(
            AudioError::Decode(
                String::from_str("unsupported channel count: ").concat(
                    decimal_string(channels as u64).as_str(),
                ),
            ),
        );
    }
    Ok(())
}


// ---------------------------------------------------------------------------
// Choosing what to decode in a container
// ---------------------------------------------------------------------------

/// What the decoder needs to know of a track of a container: its id and
/// whether it names a codec at all.
#[derive(Debug, Clone, Copy)]
pub struct TrackInfo {
    pub id: u32,
    pub has_codec: bool,
}

/// The first track, from position `k` on, that names a codec.
pub open spec fn first_with_codec(tracks: Seq<TrackInfo>, k: int) -> Option<u32>
    decreases tracks.len() - k,
{
    if k < 0 || k >= tracks.len() {
        None
    } else if tracks[k].has_codec {
        Some(tracks[k].id)
    } else {
        first_with_codec(tracks, k + 1)
    }
}

/// The track to decode: the container's default track if it has one,
/// else the first track that names a codec.
pub open spec fn chosen_track(default_track: Option<u32>, tracks: Seq<TrackInfo>) -> Result<
    u32,
    AudioErrorView,
> {
    match default_track {
        Some(id) => Ok(id),
        None => match first_with_codec(tracks, 0) {
            Some(id) => Ok(id),
            None => Err(AudioErrorView::Decode("no decodable track in stream"@)),
        },
    }
}

/// Chooses the track to decode, by id.
pub fn select_track(default_track: Option<u32>, tracks: &Vec<TrackInfo>) -> (r: Result<
    u32,
    AudioError,
>)
    ensures
        match r {
            Ok(id) => chosen_track(default_track, tracks@) == Ok::<u32, AudioErrorView>(id),
            Err(e) => chosen_track(default_track, tracks@) == Err::<u32, AudioErrorView>(e@),
        },
{
    if let Some(id) = default_track {
        return Ok(id);
    }
    let n = tracks.len();
    let mut k: usize = 0;
    while k < n
        invariant
            default_track is None,
            n == tracks@.len(),
            k <= n,
            first_with_codec(tracks@, k as int) == first_with_codec(tracks@, 0),
        decreases n - k,
    {
        if tracks[k].has_codec {
            assert(first_with_codec(tracks@, k as int) == Some(tracks@[k as int].id));
            return Ok(tracks[k].id);
        }
        k = k + 1;
    }
    Err(AudioError::Decode(String::from_str("no decodable track in stream")))
}

/// The sample rate and channel count a track must declare to be decoded.
pub open spec fn track_layout_result(sample_rate: Option<u32>, channels: Option<u16>) -> Result<
    (u32, u16),
    AudioErrorView,
> {
    match (sample_rate, channels) {
        (None, _) => Err(AudioErrorView::Decode("track lacks sample rate"@)),
        (Some(_), None) => Err(AudioErrorView::Decode("track lacks channel layout"@)),
        (Some(r), Some(c)) => Ok((r, c)),
    }
}

/// Checks that the chosen track declares its sample rate and channels.
pub fn track_layout(sample_rate: Option<u32>, channels: Option<u16>) -> (r: Result<
    (u32, u16),
    AudioError,
>)
    ensures
        match r {
            Ok(l) => track_layout_result(sample_rate, channels) == Ok::<(u32, u16), AudioErrorView>(
                l,
            ),
            Err(e) => track_layout_result(sample_rate, channels) == Err::<
                (u32, u16),
                AudioErrorView,
            >(e@),
        },
{
    match (sample_rate, channels) {
        (None, _) => Err(AudioError::Decode(String::from_str("track lacks sample rate"))),
        (Some(_), None) => Err(AudioError::Decode(String::from_str("track lacks channel layout"))),
        (Some(r), Some(c)) => Ok((r, c)),
    }
}

/// What reading the next packet of a container gave.
#[derive(Debug)]
pub enum PacketRead {
    /// A packet of the track with this id.
    Packet(u32),
    /// The stream ended.
    EndOfStream,
    /// Reading failed, with this description.
    Failed(String),
}

/// What to do with what was read.
#[derive(Debug)]
pub enum PacketStep {
    /// Decode the packet: it belongs to the chosen track.
    Decode,
    /// Pass over the packet: it belongs to another track.
    Skip,
    /// All packets are in: the samples are complete.
    Finish,
    /// Decoding fails with this error.
    Fail(AudioError),
}

/// Decides what to do with the next read of a container whose chosen
/// track is `track`: decode its packets, pass over others, finish at the
/// end of the stream and fail on a read error.
pub fn packet_step(track: u32, read: PacketRead) -> (step: PacketStep)
    ensures
        match read {
            PacketRead::Packet(id) => if id == track {
                step is Decode
            } else {
                step is Skip
            },
            PacketRead::EndOfStream => step is Finish,
            PacketRead::Failed(m) => step matches PacketStep::Fail(e) && e@ == AudioErrorView::Decode(
                "next_packet: "@ + m@,
            ),
        },
{
    match read {
        PacketRead::Packet(id) => if id == track {
            PacketStep::Decode
        } else {
            PacketStep::Skip
        },
        PacketRead::EndOfStream => PacketStep::Finish,
        PacketRead::Failed(m) => PacketStep::Fail(
            AudioError::Decode(String::from_str("next_packet: ").concat(m.as_str())),
        ),
    }
}


/// An `OpusHead` with the magic, version 1, one or two channels and
/// channel mapping family 0 is accepted, mono as well as stereo: its
/// pre-skip is bytes 10 and 11 read little-endian and its channel count is
/// byte 9. The header is accepted exactly when a decoder can be made for
/// its channel count.
pub proof fn lemma_opus_head_accepts_mono_and_stereo(b: Seq<u8>)
    requires
        b.len() >= 19,
        b[0] == 0x4f && b[1] == 0x70 && b[2] == 0x75 && b[3] == 0x73,
        b[4] == 0x48 && b[5] == 0x65 && b[6] == 0x61 && b[7] == 0x64,
        b[8] == 1,
        b[18] == 0,
    ensures
        (b[9] == 1 || b[9] == 2) ==> opus_head_result(b) is Ok && opus_head_result(b)->Ok_0.0
            == b[10] + 256 * b[11] && opus_head_result(b)->Ok_0.1 == b[9],
        opus_head_result(b) is Ok <==> opus_channels_result(b[9]) is Ok,
        opus_head_result(b) is Ok <==> (b[9] == 1 || b[9] == 2),
{
    assert(b.take(8) =~= opus_magic());
}

/// Headers that are not of this form are refused: too short, without the
/// magic, of another version, with no channels or more than two, or with
/// another channel mapping family.
pub proof fn lemma_opus_head_refusals(b: Seq<u8>)
    ensures
        b.len() < 19 ==> opus_head_result(b) is Err,
        b.len() >= 19 && (b[8] != 1 || b[9] == 0 || b[9] > 2 || b[18] != 0) ==> opus_head_result(
            b,
        ) is Err,
        b.len() >= 19 && b[0] != 0x4f ==> opus_head_result(b) is Err,
{
    if b.len() >= 19 && b[0] != 0x4f {
        assert(b.take(8)[0] == b[0]);
    }
}

} // verus!
