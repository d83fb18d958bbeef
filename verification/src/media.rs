//! Which encoder and which capture source a session uses.
//!
//! Both are found by probing candidates in a fixed order and taking the
//! first that can be built. The probing belongs to whoever owns the media
//! framework; the order and the choice are decided here.

use vstd::prelude::*;

verus! {

/// RTP payload type of the video track.
pub const VIDEO_PAYLOAD_TYPE: u8 = 96;

/// RTP clock rate of the video track, in hertz.
pub const VIDEO_CLOCK_RATE: u32 = 90_000;

/// RTP payload type of the audio track.
pub const AUDIO_PAYLOAD_TYPE: u8 = 111;

/// RTP clock rate of the audio track, in hertz.
pub const AUDIO_CLOCK_RATE: u32 = 48_000;

/// Target bitrate of the audio track, in bits per second.
pub const AUDIO_BITRATE: u32 = 64_000;

/// Target bitrate of the video track, in kilobits per second.
pub const VIDEO_BITRATE_KBPS: u32 = 4_000;

/// An H.264 encoder that a session may use.
#[derive(Debug, Clone, Copy, PartialEq, Eq, Structural)]
pub enum EncoderKind {
    /// Apple VideoToolbox.
    VideoToolbox,
    /// NVIDIA NVENC.
    Nvenc,
    /// VA-API, for Intel and AMD.
    Vaapi,
    /// Intel Quick Sync.
    QuickSync,
    /// The software encoder.
    Software,
}

/// Number of encoders in the order of preference.
pub const ENCODER_CANDIDATES: usize = 5;

/// The encoder at a rank of the order of preference: the hardware encoders
/// first, the software encoder last.
pub open spec fn encoder_at(rank: int) -> Option<EncoderKind> {
    if rank == 0 {
        Some(EncoderKind::VideoToolbox)
    } else if rank == 1 {
        Some(EncoderKind::Nvenc)
    } else if rank == 2 {
        Some(EncoderKind::Vaapi)
    } else if rank == 3 {
        Some(EncoderKind::QuickSync)
    } else if rank == 4 {
        Some(EncoderKind::Software)
    } else {
        None
    }
}

/// Whether an encoder runs on dedicated hardware.
pub open spec fn is_hardware(kind: EncoderKind) -> bool {
    kind != EncoderKind::Software
}

/// Position of the first `true` at or after `from`, if there is one.
pub open spec fn first_true_from(available: Seq<bool>, from: int) -> Option<int>
    decreases available.len() - from,
{
    if from < 0 || from >= available.len() {
        None
    } else if available[from] {
        Some(from)
    } else {
        first_true_from(available, from + 1)
    }
}

/// Position of the first `true`, if there is one.
pub open spec fn first_true(available: Seq<bool>) -> Option<int> {
    first_true_from(available, 0)
}

/// The encoder that is chosen, given for each rank of the order of
/// preference whether the encoder there can be built: the one at the first
/// rank that can. Ranks beyond the order of preference name no encoder.
pub open spec fn chosen_encoder(available: Seq<bool>) -> Option<EncoderKind> {
    match first_true(available) {
        Some(rank) => encoder_at(rank),
        None => None,
    }
}

/// What `first_true_from` finds holds `true` and nothing before it does;
/// where it finds nothing, nothing holds `true`.
pub proof fn lemma_first_true_from(available: Seq<bool>, from: int)
    requires
        0 <= from,
    ensures
        match first_true_from(available, from) {
            Some(rank) => from <= rank < available.len() && available[rank] && forall|r: int|
                from <= r < rank ==> !#[trigger] available[r],
            None => forall|r: int| from <= r < available.len() ==> !#[trigger] available[r],
        },
    decreases available.len() - from,
{
    if from < available.len() && !available[from] {
        lemma_first_true_from(available, from + 1);
    }
}

/// The encoder at a rank of the order of preference.
pub fn encoder_candidate(rank: usize) -> (kind: Option<EncoderKind>)
    ensures
        kind == encoder_at(rank as int),
        kind is Some <==> rank < ENCODER_CANDIDATES,
{
    if rank == 0 {
        Some(EncoderKind::VideoToolbox)
    } else if rank == 1 {
        Some(EncoderKind::Nvenc)
    } else if rank == 2 {
        Some(EncoderKind::Vaapi)
    } else if rank == 3 {
        Some(EncoderKind::QuickSync)
    } else if rank == 4 {
        Some(EncoderKind::Software)
    } else {
        None
    }
}

/// Tests `is_hardware`.
pub fn check_hardware(kind: EncoderKind) -> (hardware: bool)
    ensures
        hardware == is_hardware(kind),
{
    match kind {
        EncoderKind::Software => false,
        _ => true,
    }
}

/// Position of the first `true`, if there is one.
pub fn first_available(available: &[bool]) -> (found: Option<usize>)
    ensures
        match found {
            Some(rank) => first_true(available@) == Some(rank as int),
            None => first_true(available@) is None,
        },
{
    let mut rank: usize = 0;
    while rank < available.len()
        invariant
            rank <= available@.len(),
            first_true(available@) == first_true_from(available@, rank as int),
        decreases available@.len() - rank,
    {
        if available[rank] {
            return Some(rank);
        }
        rank += 1;
    }
    None
}

/// Chooses the encoder, given for each rank of the order of preference
/// whether the encoder there can be built.
pub fn select_encoder(available: &[bool]) -> (chosen: Option<EncoderKind>)
    ensures
        chosen == chosen_encoder(available@),
{
    match first_available(available) {
        Some(rank) => encoder_candidate(rank),
        None => None,
    }
}

/// Where no hardware encoder can be built and the software encoder can,
/// the software encoder is chosen.
pub proof fn lemma_software_fallback(available: Seq<bool>)
    requires
        available.len() >= ENCODER_CANDIDATES,
        !available[0],
        !available[1],
        !available[2],
        !available[3],
        available[4],
    ensures
        chosen_encoder(available) == Some(EncoderKind::Software),
{
    reveal_with_fuel(first_true_from, 6);
}

/// Whatever is chosen is the first in the order of preference that can be
/// built; nothing is chosen only where none of the ranked encoders can.
pub proof fn lemma_chosen_encoder_is_first(available: Seq<bool>)
    ensures
        match chosen_encoder(available) {
            Some(kind) => exists|rank: int|
                0 <= rank < available.len() && rank < ENCODER_CANDIDATES && #[trigger] encoder_at(
                    rank,
                ) == Some(kind) && available[rank] && forall|r: int|
                    0 <= r < rank ==> !#[trigger] available[r],
            None => forall|r: int|
                0 <= r < available.len() && r < ENCODER_CANDIDATES ==> !#[trigger] available[r],
        },
{
    lemma_first_true_from(available, 0);
    match first_true(available) {
        Some(rank) => {
            if encoder_at(rank) is Some {
                assert(0 <= rank < available.len() && rank < ENCODER_CANDIDATES && encoder_at(rank)
                    == Some(encoder_at(rank)->0) && available[rank]);
            }
        },
        None => {},
    }
}

/// The operating system of the host.
#[derive(Debug, Clone, Copy, PartialEq, Eq, Structural)]
pub enum HostOs {
    MacOs,
    Linux,
    Windows,
}

/// A source of screen frames.
#[derive(Debug, Clone, Copy, PartialEq, Eq, Structural)]
pub enum CaptureBackend {
    /// AVFoundation screen capture, on macOS.
    AvFoundation,
    /// The X11 image source.
    X11,
    /// The PipeWire source, for Wayland.
    PipeWire,
    /// Direct3D 11 screen capture, on Windows.
    D3d11,
    /// Direct3D 9 screen capture, on Windows.
    Dx9,
}

/// The capture sources to try on a host, in order. On Linux the X11
/// source is tried only where a display is set, and PipeWire after it.
pub open spec fn capture_order(os: HostOs, has_display: bool) -> Seq<CaptureBackend> {
    match os {
        HostOs::MacOs => seq![CaptureBackend::AvFoundation],
        HostOs::Linux => if has_display {
            seq![CaptureBackend::X11, CaptureBackend::PipeWire]
        } else {
            seq![CaptureBackend::PipeWire]
        },
        HostOs::Windows => seq![CaptureBackend::D3d11, CaptureBackend::Dx9],
    }
}

/// The capture sources to try on a host, in order.
pub fn capture_candidates(os: HostOs, has_display: bool) -> (order: Vec<CaptureBackend>)
    ensures
        order@ == capture_order(os, has_display),
{
    let mut order: Vec<CaptureBackend> = Vec::new();
    match os {
        HostOs::MacOs => {
            order.push(CaptureBackend::AvFoundation);
        },
        HostOs::Linux => {
            if has_display {
                order.push(CaptureBackend::X11);
            }
            order.push(CaptureBackend::PipeWire);
        },
        HostOs::Windows => {
            order.push(CaptureBackend::D3d11);
            order.push(CaptureBackend::Dx9);
        },
    }
    assert(order@ =~= capture_order(os, has_display));
    order
}

/// The capture source that is chosen, given for each candidate of the
/// host whether it can be built: the first that can.
pub open spec fn chosen_capture(os: HostOs, has_display: bool, available: Seq<bool>) -> Option<
    CaptureBackend,
> {
    match first_true(available) {
        Some(rank) => if rank < capture_order(os, has_display).len() {
            Some(capture_order(os, has_display)[rank])
        } else {
            None
        },
        None => None,
    }
}

/// Chooses the capture source, given for each candidate of the host
/// whether it can be built. `None` means that the session cannot be set
/// up.
pub fn select_capture(os: HostOs, has_display: bool, available: &[bool]) -> (chosen: Option<
    CaptureBackend,
>)
    ensures
        chosen == chosen_capture(os, has_display, available@),
{
    let order = capture_candidates(os, has_display);
    match first_available(available) {
        Some(rank) => {
            if rank < order.len() {
                Some(order[rank])
            } else {
                None
            }
        },
        None => None,
    }
}

} // verus!
