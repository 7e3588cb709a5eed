use cadmus::audio::{
    apply_pre_skip, check_opus_channels, packet_step, parse_opus_head, select_track, track_layout,
    AudioError, PacketRead, PacketStep, TrackInfo,
};
use cadmus::inference::{InferenceError, ModelSlot};
use cadmus::CadmusError;

#[test]
fn parse_opus_head_extracts_pre_skip_and_channels() {
    let mut head = vec![0u8; 19];
    head[0..8].copy_from_slice(b"OpusHead");
    head[8] = 1;
    head[9] = 2;
    head[10..12].copy_from_slice(&312u16.to_le_bytes());
    head[12..16].copy_from_slice(&48_000u32.to_le_bytes());
    head[16..18].copy_from_slice(&0i16.to_le_bytes());
    head[18] = 0;
    let parsed = parse_opus_head(&head).expect("valid OpusHead");
    assert_eq!(parsed.pre_skip, 312);
    assert_eq!(parsed.channels, 2);
}

#[test]
fn parse_opus_head_rejects_nonzero_mapping_family() {
    let mut head = vec![0u8; 19];
    head[0..8].copy_from_slice(b"OpusHead");
    head[8] = 1;
    head[9] = 1;
    head[18] = 1;
    assert!(matches!(parse_opus_head(&head), Err(AudioError::Decode(_))));
}

#[test]
fn parse_opus_head_error_messages() {
    match parse_opus_head(b"short") {
        Err(AudioError::Decode(m)) => assert_eq!(m, "OpusHead too short: 5 bytes"),
        other => panic!("unexpected {other:?}"),
    }
    let mut head = vec![0u8; 19];
    head[0..8].copy_from_slice(b"OpusTags");
    assert!(matches!(parse_opus_head(&head), Err(AudioError::Decode(m)) if m == "missing OpusHead"));
    head[0..8].copy_from_slice(b"OpusHead");
    head[8] = 2;
    assert!(matches!(parse_opus_head(&head), Err(AudioError::Decode(m)) if m == "unsupported OpusHead version: 2"));
    head[8] = 1;
    head[9] = 3;
    assert!(matches!(parse_opus_head(&head), Err(AudioError::Decode(m)) if m == "unsupported channel count: 3"));
    assert!(check_opus_channels(1).is_ok());
    assert!(check_opus_channels(2).is_ok());
    assert!(matches!(check_opus_channels(6), Err(AudioError::Decode(_))));
}

#[test]
fn pre_skip_drops_correct_prefix_for_stereo() {
    let mut buf: Vec<f32> = (0..2000).map(|i| i as f32).collect();
    apply_pre_skip(&mut buf, 100, 2);
    assert_eq!(buf.len(), 1800);
    assert_eq!(buf[0], 200.0);
}

#[test]
fn pre_skip_longer_than_buffer_empties_it() {
    let mut buf: Vec<f32> = vec![1.0; 10];
    apply_pre_skip(&mut buf, 312, 1);
    assert!(buf.is_empty());
}

#[test]
fn transcribe_after_free_returns_already_freed() {
    let mut slot = ModelSlot::new("engine");
    assert_eq!(*slot.acquire().expect("fresh slot serves"), "engine");
    slot.free();
    slot.free();
    assert!(slot.is_freed());
    assert!(matches!(slot.acquire(), Err(InferenceError::AlreadyFreed)));
}

#[test]
fn free_during_inflight_keeps_the_acquired_engine() {
    let mut slot = ModelSlot::new(vec![1, 2, 3]);
    let inflight = slot.acquire().expect("acquire");
    slot.free();
    assert_eq!(*inflight, vec![1, 2, 3]);
    assert!(matches!(slot.acquire(), Err(InferenceError::AlreadyFreed)));
}

#[test]
fn errors_convert_into_cadmus_errors() {
    let e: CadmusError = AudioError::Decode("bad".into()).into();
    assert!(matches!(e, CadmusError::Decode(m) if m == "bad"));
    let e: CadmusError = AudioError::Resample("rate".into()).into();
    assert!(matches!(e, CadmusError::Resample(m) if m == "rate"));
    let e: CadmusError = InferenceError::Generate("oops".into()).into();
    assert!(matches!(e, CadmusError::Inference(m) if m == "oops"));
    let e: CadmusError = InferenceError::Load("gone".into()).into();
    assert!(matches!(e, CadmusError::Load(m) if m == "gone"));
    let e: CadmusError = InferenceError::AlreadyFreed.into();
    assert!(matches!(e, CadmusError::AlreadyFreed));
    let e: CadmusError = InferenceError::Poisoned.into();
    assert!(matches!(e, CadmusError::Poisoned));
    assert_eq!(AudioError::Decode("x".into()).message(), "decode failed: x");
    assert_eq!(InferenceError::Poisoned.message(), "internal lock poisoned by a panic");
}

#[test]
fn track_choice_prefers_default_then_first_with_codec() {
    let tracks = vec![
        TrackInfo { id: 3, has_codec: false },
        TrackInfo { id: 7, has_codec: true },
        TrackInfo { id: 9, has_codec: true },
    ];
    assert_eq!(select_track(Some(9), &tracks).ok(), Some(9));
    assert_eq!(select_track(None, &tracks).ok(), Some(7));
    match select_track(None, &vec![TrackInfo { id: 1, has_codec: false }]) {
        Err(AudioError::Decode(m)) => assert_eq!(m, "no decodable track in stream"),
        other => panic!("unexpected {other:?}"),
    }
}

#[test]
fn track_layout_needs_rate_and_channels() {
    assert_eq!(track_layout(Some(44_100), Some(2)).ok(), Some((44_100, 2)));
    match track_layout(None, Some(2)) {
        Err(AudioError::Decode(m)) => assert_eq!(m, "track lacks sample rate"),
        other => panic!("unexpected {other:?}"),
    }
    match track_layout(Some(8_000), None) {
        Err(AudioError::Decode(m)) => assert_eq!(m, "track lacks channel layout"),
        other => panic!("unexpected {other:?}"),
    }
}

#[test]
fn packets_of_the_chosen_track_are_decoded() {
    assert!(matches!(packet_step(4, PacketRead::Packet(4)), PacketStep::Decode));
    assert!(matches!(packet_step(4, PacketRead::Packet(5)), PacketStep::Skip));
    assert!(matches!(packet_step(4, PacketRead::EndOfStream), PacketStep::Finish));
    match packet_step(4, PacketRead::Failed("bad frame".to_string())) {
        PacketStep::Fail(AudioError::Decode(m)) => assert_eq!(m, "next_packet: bad frame"),
        other => panic!("unexpected {other:?}"),
    }
}

#[test]
fn corrupt_packet_read_returns_decode_error() {
    let step = packet_step(1, PacketRead::Failed("malformed stream: invalid frame header".to_string()));
    match step {
        PacketStep::Fail(e) => {
            assert_eq!(e.message(), "decode failed: next_packet: malformed stream: invalid frame header");
            let c = CadmusError::from(e);
            assert!(matches!(c, CadmusError::Decode(m) if m == "next_packet: malformed stream: invalid frame header"));
        }
        other => panic!("expected a decode failure, got {other:?}"),
    }
}
