use earshot::audio::{
    duration_exceeded, next_track_packet, resample_plan, resolve_channels,
    sample_buffer_needs_growth, select_audio_track, trim_window, DecodeOutcome, DecodeSession, DecodeStep, FlushPlan, PacketAction,
    PacketRead, TrackInfo, TrackSummary,
};
use earshot::{Error, SymphoniaDecoder, MAX_AUDIO_DURATION_SECS, WHISPER_SAMPLE_RATE};

#[test]
fn resolve_channels_uses_decoded_when_metadata_missing() {
    assert_eq!(resolve_channels(None, 2).unwrap(), 2);
}

#[test]
fn resolve_channels_accepts_matching_metadata() {
    assert_eq!(resolve_channels(Some(2), 2).unwrap(), 2);
}

#[test]
fn resolve_channels_rejects_metadata_mismatch() {
    let err = resolve_channels(Some(1), 2).unwrap_err();
    assert!(matches!(err, Error::AudioDecode(_)));
    assert!(err.to_string().contains("channel count mismatch"));
}

#[test]
fn resolve_channels_rejects_zero_decoded() {
    let err = resolve_channels(None, 0).unwrap_err();
    assert!(matches!(err, Error::AudioDecode(_)));
    assert!(err.to_string().contains("missing channel count"));
}

#[test]
fn resolve_channels_mismatch_message_names_both_counts() {
    let err = resolve_channels(Some(1), 2).unwrap_err();
    assert_eq!(
        err,
        Error::AudioDecode("channel count mismatch: metadata=1, decoded=2".to_string())
    );
    assert_eq!(
        err.to_string(),
        "failed to decode audio: channel count mismatch: metadata=1, decoded=2"
    );
}

#[test]
fn unsupported_bitstream_reset_is_typed_error() {
    let err = Error::UnsupportedBitstreamReset;
    assert_eq!(err.to_string(), "bitstream reset is not supported");
    assert!(matches!(err, Error::UnsupportedBitstreamReset));
}

#[test]
fn duration_exceeded_respects_limit() {
    assert!(!duration_exceeded(15_999, 16_000, 1));
    assert!(!duration_exceeded(16_000, 16_000, 1));
    assert!(duration_exceeded(16_001, 16_000, 1));
    assert!(duration_exceeded(1, 16_000, 0));
}

#[test]
fn duration_cap_zero_rate_and_saturation() {
    assert!(duration_exceeded(0, 0, 100));
    assert!(!duration_exceeded(usize::MAX, u32::MAX, u64::MAX));
    assert!(duration_exceeded(16_001, 16_000, 1));
    assert!(duration_exceeded(1_000_000, 16_000, 1));
}

#[test]
fn default_decoder_caps_at_two_hours() {
    assert_eq!(MAX_AUDIO_DURATION_SECS, 7_200);
    assert_eq!(SymphoniaDecoder::default().max_duration_secs, 7_200);
    assert_eq!(WHISPER_SAMPLE_RATE, 16_000);
}

fn track(id: u32, has_codec: bool, rate: Option<u32>, channels: Option<usize>) -> TrackSummary {
    TrackSummary {
        id,
        has_codec,
        sample_rate: rate,
        channels,
    }
}

#[test]
fn select_audio_track_picks_first_codec_track() {
    let tracks = vec![
        track(7, false, Some(8_000), Some(1)),
        track(9, true, Some(44_100), Some(2)),
        track(11, true, Some(48_000), Some(1)),
    ];
    let info = select_audio_track(&tracks, "a.mp3").unwrap();
    assert_eq!(
        info,
        TrackInfo {
            index: 1,
            track_id: 9,
            sample_rate: 44_100,
            metadata_channels: Some(2)
        }
    );
}

#[test]
fn select_audio_track_drops_zero_channel_metadata() {
    let tracks = vec![track(1, true, Some(16_000), Some(0))];
    assert_eq!(select_audio_track(&tracks, "x").unwrap().metadata_channels, None);
    let tracks = vec![track(1, true, Some(16_000), None)];
    assert_eq!(select_audio_track(&tracks, "x").unwrap().metadata_channels, None);
}

#[test]
fn select_audio_track_errors() {
    let err = select_audio_track(&vec![track(1, false, Some(1), None)], "in.wav").unwrap_err();
    assert_eq!(
        err,
        Error::NoAudioTrack {
            path: "in.wav".to_string()
        }
    );
    assert_eq!(err.to_string(), "no audio track found in `in.wav`");
    let err = select_audio_track(&vec![], "e.wav").unwrap_err();
    assert!(matches!(err, Error::NoAudioTrack { .. }));
    let err = select_audio_track(&vec![track(1, true, None, Some(2))], "in.wav").unwrap_err();
    assert_eq!(err, Error::AudioDecode("missing sample rate".to_string()));
}

#[test]
fn next_track_packet_decisions() {
    assert_eq!(
        next_track_packet(PacketRead::Packet { track_id: 3 }, 3).unwrap(),
        PacketAction::Decode
    );
    assert_eq!(
        next_track_packet(PacketRead::Packet { track_id: 4 }, 3).unwrap(),
        PacketAction::Skip
    );
    assert_eq!(
        next_track_packet(PacketRead::EndOfStream, 3).unwrap(),
        PacketAction::Finished
    );
    assert_eq!(
        next_track_packet(PacketRead::ResetRequired, 3).unwrap_err(),
        Error::UnsupportedBitstreamReset
    );
    assert_eq!(
        next_track_packet(PacketRead::Failed("bad".to_string()), 3).unwrap_err(),
        Error::AudioDecode("bad".to_string())
    );
}

fn info(rate: u32, metadata: Option<usize>) -> TrackInfo {
    TrackInfo {
        index: 0,
        track_id: 1,
        sample_rate: rate,
        metadata_channels: metadata,
    }
}

#[test]
fn decode_session_keeps_channel_count_stable() {
    let mut s = DecodeSession::new(&info(16_000, None), 10);
    assert_eq!(s.accept_packet_channels(2).unwrap(), 2);
    assert_eq!(s.channels, Some(2));
    assert_eq!(s.accept_packet_channels(2).unwrap(), 2);
    let err = s.accept_packet_channels(1).unwrap_err();
    assert!(err.to_string().contains("channel count mismatch"));
    assert_eq!(s.channels, Some(2));
    s.reset();
    assert_eq!(s.channels, None);
    assert_eq!(s.accept_packet_channels(1).unwrap(), 1);
}

#[test]
fn decode_session_reset_restores_metadata() {
    let mut s = DecodeSession::new(&info(16_000, Some(2)), 10);
    assert!(s.accept_packet_channels(1).is_err());
    assert_eq!(s.accept_packet_channels(2).unwrap(), 2);
    s.reset();
    assert_eq!(s.channels, Some(2));
}

#[test]
fn decode_session_duration_and_finish() {
    let s = DecodeSession::new(&info(16_000, Some(2)), 1);
    assert!(s.check_duration(32_000, 2).is_ok());
    let err = s.check_duration(32_002, 2).unwrap_err();
    assert_eq!(err, Error::AudioTooLong { max_secs: 1 });
    assert_eq!(err.to_string(), "audio longer than 1 seconds is not supported");
    assert_eq!(
        s.finish(0).unwrap_err(),
        Error::AudioDecode("no audio samples decoded".to_string())
    );
    assert_eq!(s.finish(10).unwrap(), 2);
    let s = DecodeSession::new(&info(16_000, None), 1);
    assert_eq!(
        s.finish(10).unwrap_err(),
        Error::AudioDecode("missing channel count".to_string())
    );
    let zero_cap = DecodeSession::new(&info(16_000, Some(1)), 0);
    assert_eq!(
        zero_cap.check_duration(100, 1).unwrap_err(),
        Error::AudioTooLong { max_secs: 0 }
    );
}

#[test]
fn sample_buffer_grows_for_larger_packets() {
    assert!(sample_buffer_needs_growth(None, 8, 1));
    assert!(!sample_buffer_needs_growth(Some(8), 8, 1));
    assert!(sample_buffer_needs_growth(Some(8), 64, 1));
    assert!(!sample_buffer_needs_growth(Some(128), 64, 2));
    assert!(sample_buffer_needs_growth(Some(127), 64, 2));
}

#[test]
fn resample_plan_same_rate_is_identity() {
    assert_eq!(resample_plan(3, 16_000, 16_000), None);
    assert_eq!(resample_plan(0, 44_100, 16_000), None);
}

#[test]
fn resample_plan_44100_to_16000_length() {
    assert_eq!(resample_plan(44_100, 44_100, 16_000), Some(16_000));
    let n: usize = 12_345;
    let expected = (n as f64 * 16_000.0 / 44_100.0).round() as usize;
    assert_eq!(resample_plan(n, 44_100, 16_000), Some(expected));
}

#[test]
fn resample_plan_rounds_to_nearest() {
    assert_eq!(resample_plan(1, 2, 1), Some(1));
    assert_eq!(resample_plan(3, 4, 1), Some(1));
    assert_eq!(resample_plan(1, 4, 1), Some(0));
    assert_eq!(resample_plan(10, 1, 3), Some(30));
    assert_eq!(resample_plan(5, 0, 16_000), Some(usize::MAX));
    assert_eq!(resample_plan(5, 16_000, 0), Some(0));
}

#[test]
fn trim_window_skips_delay_and_limits_length() {
    assert_eq!(trim_window(10, 100, 200), (10, 110));
    assert_eq!(trim_window(10, 100, 50), (10, 50));
    assert_eq!(trim_window(60, 100, 50), (50, 50));
    assert_eq!(trim_window(0, 0, 5), (0, 0));
}

#[test]
fn flush_plan_targets_expected_plus_delay() {
    let plan = FlushPlan::new(100, 20);
    assert_eq!(plan.target, 120);
    assert!(plan.wants_more(119));
    assert!(!plan.wants_more(120));
    assert!(plan.accepts(1));
    assert!(!plan.accepts(0));
    assert_eq!(FlushPlan::new(usize::MAX, 5).target, usize::MAX);
}

#[test]
fn decode_session_decides_each_decode_outcome() {
    let mut s = DecodeSession::new(&info(16_000, Some(2)), 10);
    assert_eq!(
        s.on_decode(DecodeOutcome::Decoded { channels: 2 }).unwrap(),
        DecodeStep::Append { channels: 2 }
    );
    let err = s.on_decode(DecodeOutcome::Decoded { channels: 1 }).unwrap_err();
    assert_eq!(
        err,
        Error::AudioDecode("channel count mismatch: metadata=2, decoded=1".to_string())
    );
    assert_eq!(s.on_decode(DecodeOutcome::ResetRequired).unwrap(), DecodeStep::Reset);
    assert_eq!(s.channels, Some(2));
    assert_eq!(
        s.on_decode(DecodeOutcome::Failed("corrupt frame".to_string()))
            .unwrap_err(),
        Error::AudioDecode("corrupt frame".to_string())
    );
    let mut s = DecodeSession::new(&info(16_000, None), 10);
    assert_eq!(
        s.on_decode(DecodeOutcome::Decoded { channels: 1 }).unwrap(),
        DecodeStep::Append { channels: 1 }
    );
    assert_eq!(s.on_decode(DecodeOutcome::ResetRequired).unwrap(), DecodeStep::Reset);
    assert_eq!(s.channels, None);
    assert!(s.on_decode(DecodeOutcome::Decoded { channels: 0 }).is_err());
}
