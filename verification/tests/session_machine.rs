use bytes::Bytes;
use streamio::input::InputEvent;
use streamio::session::{
    classify, frame_interval_nanos, pacing_sleep_nanos, Action, Event, IceCandidate, IceState,
    Inbound, PeerState, Phase, Session, SignalingMessage, Warning, NANOS_PER_SECOND,
};

fn candidate(text: &str, index: Option<u32>) -> IceCandidate {
    IceCandidate {
        candidate: text.to_string(),
        sdp_mid: index.map(|i| i.to_string()),
        sdp_m_line_index: index,
    }
}

fn ice_message(c: &IceCandidate) -> SignalingMessage {
    SignalingMessage::Ice {
        candidate: c.candidate.clone(),
        sdp_mid: c.sdp_mid.clone(),
        sdp_m_line_index: c.sdp_m_line_index,
    }
}

fn signaling(message: SignalingMessage) -> Event {
    Event::Message { inbound: Inbound::Signaling { message } }
}

fn answer(sdp: &str) -> Event {
    signaling(SignalingMessage::Answer { sdp: sdp.to_string() })
}

fn remote_ice(c: &IceCandidate) -> Event {
    signaling(ice_message(c))
}

fn offer_ready(sdp: &str) -> Event {
    Event::OfferReady { sdp: sdp.to_string() }
}

fn unit(bytes: &[u8], elapsed_nanos: u64) -> Event {
    Event::Encoded { unit: Some(Bytes::copy_from_slice(bytes)), elapsed_nanos }
}

fn warn(warning: Warning) -> Action {
    Action::Warn { warning }
}

fn teardown() -> Vec<Action> {
    vec![
        Action::StopPipeline,
        Action::StopInput,
        Action::ClosePeerConnection,
        Action::CloseTransport,
    ]
}

fn established() -> Session {
    let mut s = Session::new(30, false);
    s.step(offer_ready("offer"));
    s.step(answer("answer"));
    s.step(Event::RemoteDescription { installed: true });
    assert_eq!(s.phase(), Phase::Established);
    s
}

#[test]
fn frame_interval_is_a_second_over_the_rate() {
    assert_eq!(NANOS_PER_SECOND, 1_000_000_000);
    assert_eq!(frame_interval_nanos(30), 33_333_333);
    assert_eq!(frame_interval_nanos(60), 16_666_666);
    assert_eq!(frame_interval_nanos(25), 40_000_000);
    assert_eq!(frame_interval_nanos(1), 1_000_000_000);
    assert_eq!(frame_interval_nanos(u32::MAX), 0);
}

#[test]
fn pacing_sleep_is_the_rest_of_the_interval() {
    assert_eq!(pacing_sleep_nanos(33_333_333, 10_000_000), 23_333_333);
    assert_eq!(pacing_sleep_nanos(33_333_333, 0), 33_333_333);
    assert_eq!(pacing_sleep_nanos(33_333_333, 33_333_332), 1);
}

#[test]
fn pacing_sleep_is_zero_after_an_overrun() {
    assert_eq!(pacing_sleep_nanos(33_333_333, 33_333_333), 0);
    assert_eq!(pacing_sleep_nanos(33_333_333, 50_000_000), 0);
    assert_eq!(pacing_sleep_nanos(0, 0), 0);
    assert_eq!(pacing_sleep_nanos(1, u64::MAX), 0);
}

#[test]
fn classify_prefers_signaling_over_input() {
    let message = SignalingMessage::Answer { sdp: "v=0".to_string() };
    let event = InputEvent::MouseMove { x: 1, y: 2 };
    assert_eq!(
        classify(Some(message.clone()), Some(event.clone())),
        Inbound::Signaling { message: message.clone() }
    );
    assert_eq!(classify(Some(message.clone()), None), Inbound::Signaling { message });
    assert_eq!(classify(None, Some(event.clone())), Inbound::Input { event });
    assert_eq!(classify(None, None), Inbound::Unknown);
}

#[test]
fn candidate_line_index_defaults_to_the_first_section() {
    assert_eq!(candidate("c", None).line_index(), 0);
    assert_eq!(candidate("c", Some(0)).line_index(), 0);
    assert_eq!(candidate("c", Some(3)).line_index(), 3);
}

#[test]
fn candidate_duplicate_is_equal() {
    let c = candidate("candidate:1 1 UDP 2122252543 192.0.2.1 54321 typ host", Some(1));
    assert_eq!(c.duplicate(), c);
    let bare = IceCandidate { candidate: String::new(), sdp_mid: None, sdp_m_line_index: None };
    assert_eq!(bare.duplicate(), bare);
}

#[test]
fn new_session_has_sent_nothing() {
    let s = Session::new(30, false);
    assert_eq!(s.phase(), Phase::New);
    assert!(!s.is_closed());
    assert_eq!(s.interval_nanos(), 33_333_333);
    assert_eq!(s.pending_local_candidates(), 0);
    assert_eq!(s.pending_remote_candidates(), 0);
}

#[test]
fn happy_path_of_the_exchange() {
    let mut s = Session::new(30, false);
    assert_eq!(
        s.step(offer_ready("v=0 offer")),
        vec![Action::Send { message: SignalingMessage::Offer { sdp: "v=0 offer".to_string() } }]
    );
    assert_eq!(s.phase(), Phase::OfferSent);
    assert_eq!(
        s.step(answer("v=0 answer")),
        vec![Action::SetRemoteDescription { sdp: "v=0 answer".to_string() }]
    );
    assert_eq!(s.phase(), Phase::AnswerPending);
    assert_eq!(s.step(Event::RemoteDescription { installed: true }), vec![]);
    assert_eq!(s.phase(), Phase::Established);
    assert_eq!(s.step(Event::IceStateChanged { ice: IceState::Checking }), vec![]);
    assert_eq!(s.step(Event::IceStateChanged { ice: IceState::Connected }), vec![]);
    assert_eq!(s.step(Event::PeerStateChanged { peer: PeerState::Connected }), vec![]);
    assert_eq!(
        s.step(unit(&[0, 0, 0, 1, 0x65], 1_000)),
        vec![Action::SendSample {
            data: Bytes::from_static(&[0, 0, 0, 1, 0x65]),
            duration_nanos: 33_333_333,
            pts_nanos: 1_000,
        }]
    );
    assert!(!s.is_closed());
}

#[test]
fn answer_before_any_offer_is_refused() {
    let mut s = Session::new(30, false);
    assert_eq!(s.step(answer("early")), vec![warn(Warning::UnexpectedAnswer)]);
    assert_eq!(s.phase(), Phase::New);
    assert!(!s.is_closed());
    s.step(offer_ready("offer"));
    assert_eq!(
        s.step(answer("late")),
        vec![Action::SetRemoteDescription { sdp: "late".to_string() }]
    );
}

#[test]
fn second_answer_is_refused() {
    let mut s = established();
    assert_eq!(s.step(answer("again")), vec![warn(Warning::UnexpectedAnswer)]);
    assert_eq!(s.phase(), Phase::Established);
    let mut pending = Session::new(30, false);
    pending.step(offer_ready("offer"));
    pending.step(answer("one"));
    assert_eq!(pending.step(answer("two")), vec![warn(Warning::UnexpectedAnswer)]);
    assert_eq!(pending.phase(), Phase::AnswerPending);
}

#[test]
fn rejected_answer_can_be_followed_by_a_good_one() {
    let mut s = Session::new(30, false);
    s.step(offer_ready("offer"));
    s.step(answer("garbage"));
    assert_eq!(
        s.step(Event::RemoteDescription { installed: false }),
        vec![warn(Warning::AnswerRejected)]
    );
    assert_eq!(s.phase(), Phase::OfferSent);
    assert_eq!(
        s.step(answer("good")),
        vec![Action::SetRemoteDescription { sdp: "good".to_string() }]
    );
    assert_eq!(s.step(Event::RemoteDescription { installed: true }), vec![]);
    assert_eq!(s.phase(), Phase::Established);
}

#[test]
fn install_report_without_an_answer_is_ignored() {
    let mut s = Session::new(30, false);
    assert_eq!(s.step(Event::RemoteDescription { installed: true }), vec![]);
    assert_eq!(s.phase(), Phase::New);
    s.step(offer_ready("offer"));
    assert_eq!(s.step(Event::RemoteDescription { installed: true }), vec![]);
    assert_eq!(s.phase(), Phase::OfferSent);
}

#[test]
fn second_offer_is_refused() {
    let mut s = Session::new(30, false);
    s.step(offer_ready("one"));
    assert_eq!(s.step(offer_ready("two")), vec![warn(Warning::UnexpectedOffer)]);
    assert_eq!(s.phase(), Phase::OfferSent);
}

#[test]
fn offer_from_the_client_is_ignored() {
    let mut s = Session::new(30, false);
    assert_eq!(s.step(signaling(SignalingMessage::Offer { sdp: "x".to_string() })), vec![]);
    assert_eq!(s.phase(), Phase::New);
    let mut e = established();
    assert_eq!(e.step(signaling(SignalingMessage::Offer { sdp: "x".to_string() })), vec![]);
    assert_eq!(e.phase(), Phase::Established);
}

#[test]
fn early_candidate_is_buffered_and_applied_on_install() {
    let mut s = Session::new(30, false);
    let before_offer = candidate("a", Some(0));
    let before_answer = candidate("b", None);
    let during_install = candidate("c", Some(0));
    assert_eq!(s.step(remote_ice(&before_offer)), vec![]);
    s.step(offer_ready("offer"));
    assert_eq!(s.step(remote_ice(&before_answer)), vec![]);
    assert_eq!(s.pending_remote_candidates(), 2);
    s.step(answer("answer"));
    assert_eq!(s.step(remote_ice(&during_install)), vec![]);
    assert_eq!(s.pending_remote_candidates(), 3);
    assert_eq!(
        s.step(Event::RemoteDescription { installed: true }),
        vec![
            Action::AddIceCandidate { candidate: before_offer },
            Action::AddIceCandidate { candidate: before_answer },
            Action::AddIceCandidate { candidate: during_install },
        ]
    );
    assert_eq!(s.pending_remote_candidates(), 0);
}

#[test]
fn buffered_candidates_survive_a_rejected_answer() {
    let mut s = Session::new(30, false);
    let c = candidate("a", Some(0));
    s.step(offer_ready("offer"));
    s.step(remote_ice(&c));
    s.step(answer("bad"));
    s.step(Event::RemoteDescription { installed: false });
    assert_eq!(s.pending_remote_candidates(), 1);
    s.step(answer("good"));
    assert_eq!(
        s.step(Event::RemoteDescription { installed: true }),
        vec![Action::AddIceCandidate { candidate: c }]
    );
}

#[test]
fn late_candidate_is_applied_at_once() {
    let mut s = established();
    let c = candidate("late", Some(0));
    assert_eq!(s.step(remote_ice(&c)), vec![Action::AddIceCandidate { candidate: c }]);
    assert_eq!(s.pending_remote_candidates(), 0);
}

#[test]
fn candidate_for_an_absent_media_section_is_discarded() {
    let mut video_only = established();
    assert_eq!(video_only.step(remote_ice(&candidate("x", Some(1)))), vec![]);
    assert_eq!(video_only.step(remote_ice(&candidate("x", Some(u32::MAX)))), vec![]);
    assert_eq!(video_only.pending_remote_candidates(), 0);
    let mut early = Session::new(30, false);
    assert_eq!(early.step(remote_ice(&candidate("x", Some(1)))), vec![]);
    assert_eq!(early.pending_remote_candidates(), 0);
}

#[test]
fn audio_adds_a_media_section() {
    let mut s = Session::new(30, true);
    s.step(offer_ready("offer"));
    s.step(answer("answer"));
    s.step(Event::RemoteDescription { installed: true });
    let audio = candidate("x", Some(1));
    assert_eq!(
        s.step(remote_ice(&audio)),
        vec![Action::AddIceCandidate { candidate: audio }]
    );
    assert_eq!(s.step(remote_ice(&candidate("x", Some(2)))), vec![]);
}

#[test]
fn local_candidates_wait_for_the_offer() {
    let mut s = Session::new(30, false);
    let first = candidate("first", Some(0));
    let second = candidate("second", Some(0));
    let third = candidate("third", Some(0));
    assert_eq!(s.step(Event::LocalCandidate { candidate: first.clone() }), vec![]);
    assert_eq!(s.step(Event::LocalCandidate { candidate: second.clone() }), vec![]);
    assert_eq!(s.pending_local_candidates(), 2);
    assert_eq!(
        s.step(offer_ready("offer")),
        vec![
            Action::Send { message: SignalingMessage::Offer { sdp: "offer".to_string() } },
            Action::Send { message: ice_message(&first) },
            Action::Send { message: ice_message(&second) },
        ]
    );
    assert_eq!(s.pending_local_candidates(), 0);
    assert_eq!(
        s.step(Event::LocalCandidate { candidate: third.clone() }),
        vec![Action::Send { message: ice_message(&third) }]
    );
}

#[test]
fn input_is_forwarded_in_arrival_order() {
    let mut s = Session::new(30, false);
    let down = InputEvent::MouseDown { button: 0, x: 1, y: 2 };
    let up = InputEvent::MouseUp { button: 0, x: 1, y: 2 };
    let mut seen = Vec::new();
    seen.extend(s.step(Event::Message { inbound: Inbound::Input { event: down.clone() } }));
    seen.extend(s.step(Event::Message { inbound: Inbound::Input { event: up.clone() } }));
    assert_eq!(seen, vec![Action::Inject { event: down }, Action::Inject { event: up }]);
}

#[test]
fn unknown_message_is_logged_and_ignored() {
    let mut s = Session::new(30, false);
    s.step(offer_ready("offer"));
    assert_eq!(
        s.step(Event::Message { inbound: Inbound::Unknown }),
        vec![warn(Warning::UnknownMessage)]
    );
    assert!(!s.is_closed());
    assert_eq!(s.phase(), Phase::OfferSent);
}

#[test]
fn malformed_message_does_not_stop_negotiation() {
    let mut s = Session::new(30, false);
    s.step(offer_ready("offer"));
    assert_eq!(
        s.step(Event::Message { inbound: classify(None, None) }),
        vec![warn(Warning::UnknownMessage)]
    );
    assert!(!s.is_closed());
    assert_eq!(
        s.step(answer("answer")),
        vec![Action::SetRemoteDescription { sdp: "answer".to_string() }]
    );
    s.step(Event::RemoteDescription { installed: true });
    assert_eq!(s.phase(), Phase::Established);
}

#[test]
fn binary_and_control_frames_are_ignored() {
    let mut s = established();
    assert_eq!(s.step(Event::OtherFrame), vec![]);
    assert!(!s.is_closed());
    assert_eq!(s.phase(), Phase::Established);
}

#[test]
fn graceful_close_releases_everything() {
    let mut s = established();
    assert_eq!(s.step(Event::TransportClosed), teardown());
    assert!(s.is_closed());
}

#[test]
fn teardown_runs_once() {
    let mut s = established();
    assert_eq!(s.step(Event::PeerStateChanged { peer: PeerState::Failed }), teardown());
    assert_eq!(s.step(Event::TransportClosed), vec![]);
    assert_eq!(s.step(Event::MediaFailed), vec![]);
    assert_eq!(s.step(Event::IceStateChanged { ice: IceState::Failed }), vec![]);
    assert_eq!(s.step(Event::PeerStateChanged { peer: PeerState::Closed }), vec![]);
    assert!(s.is_closed());
}

#[test]
fn closed_session_asks_for_nothing() {
    let mut s = established();
    s.step(Event::TransportClosed);
    assert_eq!(s.step(unit(&[1], 5)), vec![]);
    assert_eq!(s.step(answer("x")), vec![]);
    assert_eq!(s.step(remote_ice(&candidate("c", Some(0)))), vec![]);
    assert_eq!(s.step(Event::Message { inbound: Inbound::Unknown }), vec![]);
    assert_eq!(
        s.step(Event::Message {
            inbound: Inbound::Input { event: InputEvent::MouseMove { x: 0, y: 0 } }
        }),
        vec![]
    );
    assert_eq!(s.step(Event::LocalCandidate { candidate: candidate("l", Some(0)) }), vec![]);
    assert_eq!(s.step(offer_ready("x")), vec![]);
    assert_eq!(s.phase(), Phase::Established);
}

#[test]
fn terminal_states_end_the_session() {
    for event in [
        Event::PeerStateChanged { peer: PeerState::Failed },
        Event::PeerStateChanged { peer: PeerState::Closed },
        Event::IceStateChanged { ice: IceState::Failed },
        Event::IceStateChanged { ice: IceState::Closed },
        Event::MediaFailed,
        Event::TransportClosed,
    ] {
        let mut s = Session::new(30, false);
        assert_eq!(s.step(event), teardown());
        assert!(s.is_closed());
    }
}

#[test]
fn disconnected_is_only_a_warning() {
    let mut s = established();
    assert_eq!(
        s.step(Event::PeerStateChanged { peer: PeerState::Disconnected }),
        vec![warn(Warning::PeerDisconnected)]
    );
    assert_eq!(
        s.step(Event::IceStateChanged { ice: IceState::Disconnected }),
        vec![warn(Warning::IceDisconnected)]
    );
    assert!(!s.is_closed());
}

#[test]
fn other_state_changes_ask_for_nothing() {
    let mut s = established();
    for peer in [PeerState::New, PeerState::Connecting, PeerState::Connected] {
        assert_eq!(s.step(Event::PeerStateChanged { peer }), vec![]);
    }
    for ice in [IceState::New, IceState::Checking, IceState::Connected, IceState::Completed] {
        assert_eq!(s.step(Event::IceStateChanged { ice }), vec![]);
    }
    assert!(!s.is_closed());
}

#[test]
fn no_media_before_the_offer_is_set() {
    let mut s = Session::new(30, false);
    assert_eq!(s.step(unit(&[1, 2, 3], 10)), vec![]);
    assert_eq!(s.step(unit(&[1, 2, 3], 20)), vec![]);
    s.step(offer_ready("offer"));
    assert_eq!(
        s.step(unit(&[1, 2, 3], 30)),
        vec![Action::SendSample {
            data: Bytes::from_static(&[1, 2, 3]),
            duration_nanos: 33_333_333,
            pts_nanos: 30,
        }]
    );
}

#[test]
fn withheld_and_empty_units_are_not_forwarded() {
    let mut s = established();
    assert_eq!(s.step(Event::Encoded { unit: None, elapsed_nanos: 10 }), vec![]);
    assert_eq!(s.step(Event::Encoded { unit: Some(Bytes::new()), elapsed_nanos: 20 }), vec![]);
    assert_eq!(
        s.step(unit(&[7], 5)),
        vec![Action::SendSample {
            data: Bytes::from_static(&[7]),
            duration_nanos: 33_333_333,
            pts_nanos: 5,
        }]
    );
}

#[test]
fn timestamps_never_go_back() {
    let mut s = established();
    let mut stamps = Vec::new();
    for elapsed in [100u64, 250, 200, 0, 250, 1_000, 999, u64::MAX, 5] {
        for action in s.step(unit(&[1], elapsed)) {
            match action {
                Action::SendSample { pts_nanos, duration_nanos, data } => {
                    assert_eq!(duration_nanos, 33_333_333);
                    assert_eq!(data, Bytes::from_static(&[1]));
                    stamps.push(pts_nanos);
                }
                other => panic!("unexpected action {:?}", other),
            }
        }
    }
    assert_eq!(stamps, vec![100, 250, 250, 250, 250, 1_000, 1_000, u64::MAX, u64::MAX]);
}

#[test]
fn sample_duration_follows_the_frame_rate() {
    let mut s = Session::new(60, false);
    s.step(offer_ready("offer"));
    assert_eq!(
        s.step(unit(&[1], 0)),
        vec![Action::SendSample {
            data: Bytes::from_static(&[1]),
            duration_nanos: 16_666_666,
            pts_nanos: 0,
        }]
    );
}
