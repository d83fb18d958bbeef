use streamio::media::{
    capture_candidates, check_hardware, encoder_candidate, first_available, select_capture,
    select_encoder, CaptureBackend, EncoderKind, HostOs, AUDIO_BITRATE, AUDIO_CLOCK_RATE,
    AUDIO_PAYLOAD_TYPE, ENCODER_CANDIDATES, VIDEO_BITRATE_KBPS, VIDEO_CLOCK_RATE,
    VIDEO_PAYLOAD_TYPE,
};

#[test]
fn rtp_parameters() {
    assert_eq!(VIDEO_PAYLOAD_TYPE, 96);
    assert_eq!(VIDEO_CLOCK_RATE, 90_000);
    assert_eq!(AUDIO_PAYLOAD_TYPE, 111);
    assert_eq!(AUDIO_CLOCK_RATE, 48_000);
    assert_eq!(AUDIO_BITRATE, 64_000);
    assert_eq!(VIDEO_BITRATE_KBPS, 4_000);
}

#[test]
fn encoders_are_ranked_hardware_first() {
    assert_eq!(ENCODER_CANDIDATES, 5);
    assert_eq!(encoder_candidate(0), Some(EncoderKind::VideoToolbox));
    assert_eq!(encoder_candidate(1), Some(EncoderKind::Nvenc));
    assert_eq!(encoder_candidate(2), Some(EncoderKind::Vaapi));
    assert_eq!(encoder_candidate(3), Some(EncoderKind::QuickSync));
    assert_eq!(encoder_candidate(4), Some(EncoderKind::Software));
    assert_eq!(encoder_candidate(5), None);
    assert_eq!(encoder_candidate(usize::MAX), None);
}

#[test]
fn only_the_software_encoder_is_not_hardware() {
    assert!(check_hardware(EncoderKind::VideoToolbox));
    assert!(check_hardware(EncoderKind::Nvenc));
    assert!(check_hardware(EncoderKind::Vaapi));
    assert!(check_hardware(EncoderKind::QuickSync));
    assert!(!check_hardware(EncoderKind::Software));
}

#[test]
fn first_available_finds_the_first_true() {
    assert_eq!(first_available(&[]), None);
    assert_eq!(first_available(&[false, false]), None);
    assert_eq!(first_available(&[true]), Some(0));
    assert_eq!(first_available(&[false, true, true]), Some(1));
    assert_eq!(first_available(&[false, false, false, true]), Some(3));
}

#[test]
fn encoder_fallback_to_software() {
    assert_eq!(
        select_encoder(&[false, false, false, false, true]),
        Some(EncoderKind::Software)
    );
}

#[test]
fn first_encoder_that_can_be_built_is_chosen() {
    assert_eq!(
        select_encoder(&[true, true, true, true, true]),
        Some(EncoderKind::VideoToolbox)
    );
    assert_eq!(
        select_encoder(&[false, true, false, true, true]),
        Some(EncoderKind::Nvenc)
    );
    assert_eq!(
        select_encoder(&[false, false, true, false, true]),
        Some(EncoderKind::Vaapi)
    );
    assert_eq!(
        select_encoder(&[false, false, false, true, false]),
        Some(EncoderKind::QuickSync)
    );
    assert_eq!(select_encoder(&[false, true]), Some(EncoderKind::Nvenc));
}

#[test]
fn no_encoder_where_none_can_be_built() {
    assert_eq!(select_encoder(&[false, false, false, false, false]), None);
    assert_eq!(select_encoder(&[]), None);
    assert_eq!(
        select_encoder(&[false, false, false, false, false, true]),
        None
    );
}

#[test]
fn capture_sources_by_host() {
    assert_eq!(
        capture_candidates(HostOs::MacOs, false),
        vec![CaptureBackend::AvFoundation]
    );
    assert_eq!(
        capture_candidates(HostOs::MacOs, true),
        vec![CaptureBackend::AvFoundation]
    );
    assert_eq!(
        capture_candidates(HostOs::Linux, true),
        vec![CaptureBackend::X11, CaptureBackend::PipeWire]
    );
    assert_eq!(
        capture_candidates(HostOs::Linux, false),
        vec![CaptureBackend::PipeWire]
    );
    assert_eq!(
        capture_candidates(HostOs::Windows, false),
        vec![CaptureBackend::D3d11, CaptureBackend::Dx9]
    );
}

#[test]
fn capture_source_is_the_first_that_can_be_built() {
    assert_eq!(
        select_capture(HostOs::Linux, true, &[true, true]),
        Some(CaptureBackend::X11)
    );
    assert_eq!(
        select_capture(HostOs::Linux, true, &[false, true]),
        Some(CaptureBackend::PipeWire)
    );
    assert_eq!(
        select_capture(HostOs::Linux, false, &[true]),
        Some(CaptureBackend::PipeWire)
    );
    assert_eq!(
        select_capture(HostOs::Windows, false, &[false, true]),
        Some(CaptureBackend::Dx9)
    );
    assert_eq!(
        select_capture(HostOs::MacOs, false, &[true]),
        Some(CaptureBackend::AvFoundation)
    );
}

#[test]
fn no_capture_source_is_a_failure() {
    assert_eq!(select_capture(HostOs::Linux, true, &[false, false]), None);
    assert_eq!(select_capture(HostOs::Linux, false, &[false]), None);
    assert_eq!(select_capture(HostOs::Linux, false, &[false, true]), None);
    assert_eq!(select_capture(HostOs::MacOs, false, &[]), None);
}
