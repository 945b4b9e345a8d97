//! Decisions of the audio pipeline: track selection, packet filtering, channel
//! bookkeeping, the duration cap, and the lengths used when resampling.
//!
//! The container reading, codec work and sample arithmetic happen around these
//! functions; they receive what that work observed as plain values.

use vstd::prelude::*;

use crate::error::{Error, ErrorView, result_view};
use crate::text::{decimal, push_decimal};

verus! {

/// Target sample rate expected by Whisper models.
pub const WHISPER_SAMPLE_RATE: u32 = 16_000;

/// Default maximum decoded duration: two hours.
pub const MAX_AUDIO_DURATION_SECS: u64 = 7_200;

/// Decodes MP3, WAV, FLAC, and AAC (MP4/M4A) to 16 kHz mono PCM.
#[derive(Debug, Clone, Copy)]
pub struct SymphoniaDecoder {
    /// Maximum decoded duration in seconds before failing.
    pub max_duration_secs: u64,
}

impl Default for SymphoniaDecoder {
    fn default() -> (d: Self)
        ensures
            d.max_duration_secs == MAX_AUDIO_DURATION_SECS,
    {
        SymphoniaDecoder { max_duration_secs: MAX_AUDIO_DURATION_SECS }
    }
}

/// What track selection reads of one track of a container.
#[derive(Debug, Clone, Copy, PartialEq, Eq)]
pub struct TrackSummary {
    /// Track identifier used by packets.
    pub id: u32,
    /// Whether the track names a codec (is not the null codec).
    pub has_codec: bool,
    /// Sample rate from the codec parameters, if present.
    pub sample_rate: Option<u32>,
    /// Channel count from the codec parameters, if present.
    pub channels: Option<usize>,
}

/// The selected audio track.
#[derive(Debug, Clone, Copy, PartialEq, Eq)]
pub struct TrackInfo {
    /// Position of the track in the container's track list.
    pub index: usize,
    /// Track identifier used by packets.
    pub track_id: u32,
    /// Sample rate of the track.
    pub sample_rate: u32,
    /// Channel count from the metadata, when present and non-zero.
    pub metadata_channels: Option<usize>,
}

/// `i` is the first track of `tracks` that names a codec.
pub open spec fn is_first_audio_track(tracks: Seq<TrackSummary>, i: int) -> bool {
    &&& 0 <= i < tracks.len()
    &&& tracks[i].has_codec
    &&& forall|j: int| 0 <= j < i ==> !(#[trigger] tracks[j]).has_codec
}

/// A channel count kept only when it is non-zero.
pub open spec fn nonzero_count(c: Option<usize>) -> Option<usize> {
    match c {
        Some(n) => if n > 0 {
            Some(n)
        } else {
            None
        },
        None => None,
    }
}

/// Selects the first track with a codec and copies its decode parameters.
///
/// Fails with [`Error::NoAudioTrack`] when no track names a codec, and with
/// [`Error::AudioDecode`] when the selected track has no sample rate.
pub fn select_audio_track(tracks: &Vec<TrackSummary>, path: &str) -> (r: Result<TrackInfo, Error>)
    ensures
        (forall|j: int| 0 <= j < tracks@.len() ==> !(#[trigger] tracks@[j]).has_codec) ==> (
        result_view(r) == Err::<TrackInfo, ErrorView>(ErrorView::NoAudioTrack { path: path@ })),
        forall|i: int|
            is_first_audio_track(tracks@, i) ==> match #[trigger] tracks@[i].sample_rate {
                None => result_view(r) == Err::<TrackInfo, ErrorView>(
                    ErrorView::AudioDecode("missing sample rate"@),
                ),
                Some(rate) => r == Ok::<TrackInfo, Error>(
                    TrackInfo {
                        index: i as usize,
                        track_id: tracks@[i].id,
                        sample_rate: rate,
                        metadata_channels: nonzero_count(tracks@[i].channels),
                    },
                ),
            },
{
    let mut i: usize = 0;
    while i < tracks.len()
        invariant
            i <= tracks@.len(),
            forall|j: int| 0 <= j < i ==> !(#[trigger] tracks@[j]).has_codec,
        decreases tracks@.len() - i,
    {
        if tracks[i].has_codec {
            let track = tracks[i];
            proof {
                assert forall|k: int| is_first_audio_track(tracks@, k) implies k == i by {
                    if k < i {
                        assert(!tracks@[k].has_codec);
                    } else if k > i {
                        assert(!tracks@[i as int].has_codec);
                    }
                }
            }
            match track.sample_rate {
                None => {
                    return Err(Error::AudioDecode(String::from_str("missing sample rate")));
                },
                Some(rate) => {
                    let metadata_channels = match track.channels {
                        Some(n) => if n > 0 {
                            Some(n)
                        } else {
                            None
                        },
                        None => None,
                    };
                    return Ok(
                        TrackInfo {
                            index: i,
                            track_id: track.id,
                            sample_rate: rate,
                            metadata_channels,
                        },
                    );
                },
            }
        }
        i = i + 1;
    }
    Err(Error::NoAudioTrack { path: path.to_owned() })
}

/// The outcome of asking the container for its next packet.
#[derive(Debug, Clone, PartialEq, Eq)]
pub enum PacketRead {
    /// A packet of the given track.
    Packet {
        /// The track the packet belongs to.
        track_id: u32,
    },
    /// The stream ended (an unexpected end of file).
    EndOfStream,
    /// The container asked for a bitstream reset.
    ResetRequired,
    /// Any other read failure, with its message.
    Failed(String),
}

/// What to do with the outcome of one packet read.
#[derive(Debug, Clone, Copy, PartialEq, Eq, Structural)]
pub enum PacketAction {
    /// The packet belongs to the selected track: decode it.
    Decode,
    /// The packet belongs to another track: read the next one.
    Skip,
    /// No packets remain.
    Finished,
}

/// Decides one read of the packet loop for the track `track_id`: its packets
/// are decoded, other tracks' packets are skipped, the end of the stream
/// finishes, and a format-level reset or any other failure is an error.
pub fn next_track_packet(read: PacketRead, track_id: u32) -> (r: Result<PacketAction, Error>)
    ensures
        result_view(r) == match read {
            PacketRead::Packet { track_id: id } => if id == track_id {
                Ok::<PacketAction, ErrorView>(PacketAction::Decode)
            } else {
                Ok(PacketAction::Skip)
            },
            PacketRead::EndOfStream => Ok(PacketAction::Finished),
            PacketRead::ResetRequired => Err(ErrorView::UnsupportedBitstreamReset),
            PacketRead::Failed(m) => Err(ErrorView::AudioDecode(m@)),
        },
{
    match read {
        PacketRead::Packet { track_id: id } => if id == track_id {
            Ok(PacketAction::Decode)
        } else {
            Ok(PacketAction::Skip)
        },
        PacketRead::EndOfStream => Ok(PacketAction::Finished),
        PacketRead::ResetRequired => Err(Error::UnsupportedBitstreamReset),
        PacketRead::Failed(m) => Err(Error::AudioDecode(m)),
    }
}

/// The message for metadata and decoded channel counts that disagree.
pub open spec fn channel_mismatch_message(known: usize, decoded: usize) -> Seq<char> {
    "channel count mismatch: metadata="@ + decimal(known as nat) + ", decoded="@ + decimal(
        decoded as nat,
    )
}

/// The channel count that a decoded packet establishes, given the count
/// already known (from metadata or an earlier packet).
pub open spec fn resolved_channels(known: Option<usize>, decoded: usize) -> Result<
    usize,
    ErrorView,
> {
    if decoded == 0 {
        Err(ErrorView::AudioDecode("missing channel count"@))
    } else {
        match known {
            None => Ok(decoded),
            Some(n) => if n == decoded {
                Ok(n)
            } else {
                Err(ErrorView::AudioDecode(channel_mismatch_message(n, decoded)))
            },
        }
    }
}

/// Resolves channel count from optional metadata and a decoded packet.
///
/// When `known` is missing, uses `decoded`. When both are present they must
/// match. A decoded count of zero is always an error.
pub fn resolve_channels(known: Option<usize>, decoded: usize) -> (r: Result<usize, Error>)
    ensures
        result_view(r) == resolved_channels(known, decoded),
        r matches Ok(c) ==> c == decoded && c > 0,
{
    if decoded == 0 {
        return Err(Error::AudioDecode(String::from_str("missing channel count")));
    }
    match known {
        None => Ok(decoded),
        Some(n) => if n == decoded {
            Ok(n)
        } else {
            let mut m = String::from_str("channel count mismatch: metadata=");
            push_decimal(&mut m, n as u64);
            m.append(", decoded=");
            push_decimal(&mut m, decoded as u64);
            Err(Error::AudioDecode(m))
        },
    }
}

/// The most frames that `max_secs` seconds hold at `sample_rate`, saturated at `u64::MAX`.
pub open spec fn max_frames(sample_rate: u32, max_secs: u64) -> int {
    if max_secs * sample_rate > u64::MAX {
        u64::MAX as int
    } else {
        max_secs * sample_rate
    }
}

/// Whether `frames` decoded frames exceed `max_secs` seconds at `sample_rate`;
/// a zero sample rate always counts as exceeded.
pub open spec fn exceeds_duration(frames: usize, sample_rate: u32, max_secs: u64) -> bool {
    sample_rate == 0 || frames > max_frames(sample_rate, max_secs)
}

/// Returns true when decoded `frames` exceed `max_secs` at `sample_rate`.
pub fn duration_exceeded(frames: usize, sample_rate: u32, max_secs: u64) -> (b: bool)
    ensures
        b == exceeds_duration(frames, sample_rate, max_secs),
{
    if sample_rate == 0 {
        return true;
    }
    let max: u64 = match max_secs.checked_mul(sample_rate as u64) {
        Some(m) => m,
        None => u64::MAX,
    };
    frames as u64 > max
}

/// The duration cap only ever turns on as more frames are decoded: once
/// `frames` exceed the cap, every larger count does too.
pub proof fn lemma_duration_cap_monotonic(frames: usize, more: usize, sample_rate: u32, max_secs: u64)
    requires
        frames <= more,
        exceeds_duration(frames, sample_rate, max_secs),
    ensures
        exceeds_duration(more, sample_rate, max_secs),
{
}

/// The cap is `max_secs` seconds of the track's own audio: at a sample rate
/// above zero, `frames` exceed it exactly when there are more than
/// `max_secs * sample_rate` of them; a zero sample rate is always over the cap.
pub proof fn lemma_duration_cap_is_seconds_at_track_rate(frames: usize, sample_rate: u32, max_secs: u64)
    ensures
        sample_rate > 0 ==> (exceeds_duration(frames, sample_rate, max_secs) <==> frames as int
            > max_secs as int * sample_rate as int),
        sample_rate == 0 ==> exceeds_duration(frames, sample_rate, max_secs),
{
    assert(frames as int <= u64::MAX) by {
        assert(usize::MAX <= u64::MAX);
    }
}

/// The outcome of decoding one packet.
#[derive(Debug, Clone, PartialEq, Eq)]
pub enum DecodeOutcome {
    /// The packet decoded into audio with the given channel count.
    Decoded {
        /// Channel count of the decoded audio.
        channels: usize,
    },
    /// The decoder asked for a reset.
    ResetRequired,
    /// Any other decoder failure, with its message.
    Failed(String),
}

/// What the decoding loop does after one decode attempt.
#[derive(Debug, Clone, Copy, PartialEq, Eq, Structural)]
pub enum DecodeStep {
    /// Append the decoded samples, which have `channels` channels.
    Append {
        /// The accepted channel count.
        channels: usize,
    },
    /// Reset the decoder and drop the sample buffer, then read on.
    Reset,
}

/// Bookkeeping of the packet-decoding loop for one track: the channel count
/// established so far and the limits that decoded audio must respect.
#[derive(Debug, Clone, Copy, PartialEq, Eq)]
pub struct DecodeSession {
    /// Sample rate of the track.
    pub sample_rate: u32,
    /// Channel count from the track metadata, if any.
    pub metadata_channels: Option<usize>,
    /// Maximum decoded duration in seconds.
    pub max_duration_secs: u64,
    /// Channel count established so far.
    pub channels: Option<usize>,
}

impl DecodeSession {
    /// No channel count, known or established, is zero.
    pub open spec fn well_formed(self) -> bool {
        &&& self.metadata_channels matches Some(c) ==> c > 0
        &&& self.channels matches Some(c) ==> c > 0
    }

    /// Starts decoding `track`, whose metadata fixes the initial channel count.
    pub fn new(track: &TrackInfo, max_duration_secs: u64) -> (s: Self)
        ensures
            s == (DecodeSession {
                sample_rate: track.sample_rate,
                metadata_channels: track.metadata_channels,
                max_duration_secs,
                channels: track.metadata_channels,
            }),
            (track.metadata_channels matches Some(c) ==> c > 0) ==> s.well_formed(),
    {
        DecodeSession {
            sample_rate: track.sample_rate,
            metadata_channels: track.metadata_channels,
            max_duration_secs,
            channels: track.metadata_channels,
        }
    }

    /// A packet decoded with `decoded` channels: resolves it against the count
    /// known so far and records the result.
    pub fn accept_packet_channels(&mut self, decoded: usize) -> (r: Result<usize, Error>)
        ensures
            result_view(r) == resolved_channels(old(self).channels, decoded),
            match r {
                Ok(c) => *final(self) == (DecodeSession { channels: Some(c), ..*old(self) }),
                Err(_) => *final(self) == *old(self),
            },
            old(self).well_formed() ==> final(self).well_formed(),
    {
        let r = resolve_channels(self.channels, decoded);
        if let Ok(c) = r {
            self.channels = Some(c);
        }
        r
    }

    /// The decoder asked for a reset: the channel count falls back to the metadata.
    pub fn reset(&mut self)
        ensures
            *final(self) == (DecodeSession { channels: old(self).metadata_channels, ..*old(self) }),
            old(self).well_formed() ==> final(self).well_formed(),
    {
        self.channels = self.metadata_channels;
    }

    /// Decides what follows one decode attempt: a decoded packet's channel
    /// count is accepted (then its samples are appended), a decoder-level
    /// reset falls back to the metadata count and decoding continues, and any
    /// other decoder failure is an [`Error::AudioDecode`].
    pub fn on_decode(&mut self, outcome: DecodeOutcome) -> (r: Result<DecodeStep, Error>)
        ensures
            match outcome {
                DecodeOutcome::Decoded { channels } => {
                    &&& result_view(r) == match resolved_channels(old(self).channels, channels) {
                        Ok(c) => Ok::<DecodeStep, ErrorView>(DecodeStep::Append { channels: c }),
                        Err(e) => Err(e),
                    }
                    &&& match r {
                        Ok(DecodeStep::Append { channels: c }) => *final(self) == (DecodeSession {
                            channels: Some(c),
                            ..*old(self)
                        }),
                        _ => *final(self) == *old(self),
                    }
                },
                DecodeOutcome::ResetRequired => {
                    &&& r == Ok::<DecodeStep, Error>(DecodeStep::Reset)
                    &&& *final(self) == (DecodeSession {
                        channels: old(self).metadata_channels,
                        ..*old(self)
                    })
                },
                DecodeOutcome::Failed(m) => {
                    &&& result_view(r) == Err::<DecodeStep, ErrorView>(ErrorView::AudioDecode(m@))
                    &&& *final(self) == *old(self)
                },
            },
            old(self).well_formed() ==> final(self).well_formed(),
    {
        match outcome {
            DecodeOutcome::Decoded { channels } => match self.accept_packet_channels(channels) {
                Ok(c) => Ok(DecodeStep::Append { channels: c }),
                Err(e) => Err(e),
            },
            DecodeOutcome::ResetRequired => {
                self.reset();
                Ok(DecodeStep::Reset)
            },
            DecodeOutcome::Failed(m) => Err(Error::AudioDecode(m)),
        }
    }

    /// After appending a packet: fails with [`Error::AudioTooLong`] when the
    /// `interleaved_len` samples of `channel_count` channels exceed the cap.
    pub fn check_duration(&self, interleaved_len: usize, channel_count: usize) -> (r: Result<
        (),
        Error,
    >)
        requires
            channel_count > 0,
        ensures
            result_view(r) == if exceeds_duration(
                interleaved_len / channel_count,
                self.sample_rate,
                self.max_duration_secs,
            ) {
                Err::<(), ErrorView>(ErrorView::AudioTooLong { max_secs: self.max_duration_secs })
            } else {
                Ok(())
            },
    {
        let frames = interleaved_len / channel_count;
        if duration_exceeded(frames, self.sample_rate, self.max_duration_secs) {
            Err(Error::AudioTooLong { max_secs: self.max_duration_secs })
        } else {
            Ok(())
        }
    }

    /// At the end of the stream: the channel count of the `interleaved_len`
    /// decoded samples, or why there is none.
    pub fn finish(&self, interleaved_len: usize) -> (r: Result<usize, Error>)
        ensures
            result_view(r) == if interleaved_len == 0 {
                Err::<usize, ErrorView>(ErrorView::AudioDecode("no audio samples decoded"@))
            } else {
                match self.channels {
                    Some(c) => Ok(c),
                    None => Err(ErrorView::AudioDecode("missing channel count"@)),
                }
            },
            self.well_formed() ==> (r matches Ok(c) ==> c > 0),
    {
        if interleaved_len == 0 {
            return Err(Error::AudioDecode(String::from_str("no audio samples decoded")));
        }
        match self.channels {
            Some(c) => Ok(c),
            None => Err(Error::AudioDecode(String::from_str("missing channel count"))),
        }
    }
}

/// Between resets every accepted packet has the channel count of the first
/// one: after a packet was accepted with `first` channels, a later packet is
/// accepted only with that same count.
pub proof fn lemma_channels_stable(session: DecodeSession, first: usize, later: usize)
    requires
        resolved_channels(session.channels, first) is Ok,
        resolved_channels(Some(first), later) is Ok,
    ensures
        later == first,
        resolved_channels(Some(first), later) == Ok::<usize, ErrorView>(first),
{
}

/// A session started from a track that [`select_audio_track`] chose is well
/// formed: the metadata channel count it keeps is never zero.
pub proof fn lemma_selected_track_session_well_formed(
    tracks: Seq<TrackSummary>,
    i: int,
    max_duration_secs: u64,
)
    requires
        is_first_audio_track(tracks, i),
        tracks[i].sample_rate is Some,
    ensures
        (DecodeSession {
            sample_rate: tracks[i].sample_rate->Some_0,
            metadata_channels: nonzero_count(tracks[i].channels),
            max_duration_secs,
            channels: nonzero_count(tracks[i].channels),
        }).well_formed(),
{
}

/// Whether the sample buffer must be replaced before copying a packet of
/// `frames` frames and `channels` channels into it.
pub fn sample_buffer_needs_growth(current_capacity: Option<usize>, frames: usize, channels: usize) -> (b: bool)
    requires
        frames * channels <= usize::MAX,
    ensures
        b == match current_capacity {
            Some(cap) => cap < frames * channels,
            None => true,
        },
{
    let needed = frames * channels;
    match current_capacity {
        Some(cap) => cap < needed,
        None => true,
    }
}

/// `a / b` rounded to the nearest integer, halves rounded up.
pub open spec fn nearest_quotient(a: nat, b: nat) -> nat {
    (2 * a + b) / (2 * b)
}

/// The planned output length for resampling `n` samples from `from_rate` to
/// `to_rate`: `None` when the samples pass through unchanged (equal rates or
/// no samples), otherwise the nearest integer to `n * to_rate / from_rate`,
/// saturated at `usize::MAX` (infinite when `from_rate` is zero).
pub open spec fn resample_target(n: usize, from_rate: u32, to_rate: u32) -> Option<usize> {
    if from_rate == to_rate || n == 0 {
        None
    } else if from_rate == 0 {
        Some(usize::MAX)
    } else {
        let q = nearest_quotient((n * to_rate) as nat, from_rate as nat);
        if q > usize::MAX {
            Some(usize::MAX)
        } else {
            Some(q as usize)
        }
    }
}

/// Decides how `n` mono samples at `from_rate` are brought to `to_rate`; see
/// [`resample_target`].
pub fn resample_plan(n: usize, from_rate: u32, to_rate: u32) -> (r: Option<usize>)
    ensures
        r == resample_target(n, from_rate, to_rate),
{
    if from_rate == to_rate || n == 0 {
        return None;
    }
    if from_rate == 0 {
        return Some(usize::MAX);
    }
    let n128 = n as u128;
    let to128 = to_rate as u128;
    let from128 = from_rate as u128;
    assert(n128 * to128 <= 0x1_0000_0000_0000_0000_0000_0000) by (nonlinear_arith)
        requires
            n128 <= 0xffff_ffff_ffff_ffff,
            to128 <= 0xffff_ffff,
    ;
    let num: u128 = 2 * (n128 * to128) + from128;
    let den: u128 = 2 * from128;
    let q: u128 = num / den;
    if q > usize::MAX as u128 {
        Some(usize::MAX)
    } else {
        Some(q as usize)
    }
}

/// The resampled length is the integer nearest to `n * to_rate / from_rate`,
/// computed from the exact product: when the rates differ and there are
/// samples, a planned length `q` below `usize::MAX` satisfies
/// `(2q - 1) * from_rate <= 2 * n * to_rate < (2q + 1) * from_rate`, and a
/// saturated one stands for a nearest length of at least `usize::MAX`.
/// Equal rates or no samples leave the samples as they are.
pub proof fn lemma_resample_length_is_nearest(n: usize, from_rate: u32, to_rate: u32)
    ensures
        (from_rate == to_rate || n == 0) ==> resample_target(n, from_rate, to_rate) is None,
        from_rate != to_rate && n > 0 && from_rate > 0 ==> {
            &&& resample_target(n, from_rate, to_rate) matches Some(q)
            &&& (q < usize::MAX ==> (2 * q - 1) * from_rate <= 2 * (n as int * to_rate as int)
                && 2 * (n as int * to_rate as int) < (2 * q + 1) * from_rate)
            &&& (q == usize::MAX ==> (2 * q - 1) * from_rate <= 2 * (n as int * to_rate as int))
        },
        from_rate != to_rate && n > 0 && from_rate == 0 ==> resample_target(n, from_rate, to_rate)
            == Some(usize::MAX),
{
    if from_rate != to_rate && n > 0 && from_rate > 0 {
        let a: nat = (n as int * to_rate as int) as nat;
        let b: nat = from_rate as nat;
        assert(n * to_rate == n as int * to_rate as int);
        lemma_nearest_quotient(a, b);
        let q = nearest_quotient(a, b);
        if q > usize::MAX {
            assert((2 * (usize::MAX as int) - 1) * b <= (2 * q - 1) * b) by (nonlinear_arith)
                requires
                    q > usize::MAX,
                    b > 0,
            ;
        }
    }
}

/// The planned length is the integer nearest to the exact ratio:
/// `|q - a / b| <= 1/2`, i.e. `(2q - 1) b <= 2a < (2q + 1) b`.
pub proof fn lemma_nearest_quotient(a: nat, b: nat)
    requires
        b > 0,
    ensures
        (2 * nearest_quotient(a, b) - 1) * b <= 2 * a,
        2 * a < (2 * nearest_quotient(a, b) + 1) * b,
{
    let q = nearest_quotient(a, b);
    let d = 2 * b;
    let x = 2 * a + b;
    assert(q == x / d);
    assert(d * q <= x < d * q + d) by (nonlinear_arith)
        requires
            d > 0,
            q == x / d,
    ;
    assert((2 * q - 1) * b <= 2 * a && 2 * a < (2 * q + 1) * b) by (nonlinear_arith)
        requires
            d == 2 * b,
            x == 2 * a + b,
            d * q <= x < d * q + d,
    ;
}

/// The window `[start, end)` of resampler output to keep: skip `delay`
/// samples of filter delay, then keep up to `expected_len` samples, both
/// limited to the `out_len` samples produced.
pub fn trim_window(delay: usize, expected_len: usize, out_len: usize) -> (w: (usize, usize))
    requires
        (if delay < out_len {
            delay
        } else {
            out_len
        }) + expected_len <= usize::MAX,
    ensures
        w.0 == if delay < out_len {
            delay
        } else {
            out_len
        },
        w.1 == if w.0 + expected_len < out_len {
            w.0 + expected_len
        } else {
            out_len as int
        },
        w.0 <= w.1 <= out_len,
        w.1 - w.0 <= expected_len,
{
    let start = if delay < out_len {
        delay
    } else {
        out_len
    };
    let end = if start + expected_len < out_len {
        start + expected_len
    } else {
        out_len
    };
    (start, end)
}

/// The flushing of a resampler's delayed output: more output is asked for
/// while fewer than `target` samples (the expected length plus the filter
/// delay) are there, and an empty chunk ends it.
#[derive(Debug, Clone, Copy, PartialEq, Eq)]
pub struct FlushPlan {
    /// Output length to reach, saturated at `usize::MAX`.
    pub target: usize,
}

impl FlushPlan {
    /// Plans the flush for `expected_len` kept samples after `delay` samples of delay.
    pub fn new(expected_len: usize, delay: usize) -> (p: Self)
        ensures
            p.target == if expected_len + delay > usize::MAX {
                usize::MAX as int
            } else {
                expected_len + delay
            },
    {
        FlushPlan { target: expected_len.saturating_add(delay) }
    }

    /// Whether `out_len` samples are still short of the target.
    pub fn wants_more(&self, out_len: usize) -> (b: bool)
        ensures
            b == (out_len < self.target),
    {
        out_len < self.target
    }

    /// Whether a flushed chunk of `chunk_len` samples is appended; an empty
    /// chunk ends the flush.
    pub fn accepts(&self, chunk_len: usize) -> (b: bool)
        ensures
            b == (chunk_len > 0),
    {
        chunk_len > 0
    }
}

/// The flush ends: every chunk that is asked for and accepted brings the
/// output strictly closer to the target, which bounds the number of chunks.
pub proof fn lemma_flush_progress(plan: FlushPlan, out_len: nat, chunk_len: nat)
    requires
        out_len < plan.target,
        chunk_len > 0,
    ensures
        plan.target - (out_len + chunk_len) < plan.target - out_len,
        plan.target - out_len <= plan.target,
{
}

} // verus!
