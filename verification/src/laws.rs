//! Laws of the session state machine, proved of every sequence of events.
//!
//! A run of a session is a sequence of events fed to the machine one after
//! the other from its initial state. [`trace`] is everything the machine
//! asked for during a run, in order; the laws below speak of traces.

use vstd::prelude::*;
use crate::encoder::bytes_content;
use crate::input::InputEvent;
use crate::session::{
    add_candidates, candidate_of, ice_message, initial, model_wf, next, output, send_candidates,
    teardown, Action, Event, IceCandidate, Inbound, Phase, SessionModel, SignalingMessage,
    Warning,
};

verus! {

/// The state after a run.
pub open spec fn state_after(m: SessionModel, events: Seq<Event>) -> SessionModel
    decreases events.len(),
{
    if events.len() == 0 {
        m
    } else {
        next(state_after(m, events.drop_last()), events.last())
    }
}

/// Everything the machine asked for during a run, in order.
pub open spec fn trace(m: SessionModel, events: Seq<Event>) -> Seq<Action>
    decreases events.len(),
{
    if events.len() == 0 {
        seq![]
    } else {
        trace(m, events.drop_last()) + output(
            state_after(m, events.drop_last()),
            events.last(),
        )
    }
}

/// The action sends an offer to the client.
pub open spec fn is_offer(a: Action) -> bool {
    a matches Action::Send { message: SignalingMessage::Offer { .. } }
}

/// The action sends a local candidate to the client.
pub open spec fn is_candidate_send(a: Action) -> bool {
    a matches Action::Send { message: SignalingMessage::Ice { .. } }
}

/// The action installs an answer.
pub open spec fn is_install(a: Action) -> bool {
    a is SetRemoteDescription
}

/// The action hands a remote candidate to the ICE agent.
pub open spec fn is_add_candidate(a: Action) -> bool {
    a is AddIceCandidate
}

/// The action hands a unit to the video track.
pub open spec fn is_sample(a: Action) -> bool {
    a is SendSample
}

/// The presentation timestamp of a sample.
pub open spec fn pts_of(a: Action) -> u64 {
    a->pts_nanos
}

/// An offer occurs in the trace before position `j`.
pub open spec fn offer_before(t: Seq<Action>, j: int) -> bool {
    exists|i: int| 0 <= i < j && i < t.len() && is_offer(#[trigger] t[i])
}

/// An answer is installed in the trace before position `j`.
pub open spec fn install_before(t: Seq<Action>, j: int) -> bool {
    exists|i: int| 0 <= i < j && i < t.len() && is_install(#[trigger] t[i])
}

/// Every step keeps the machine's invariant.
pub proof fn lemma_next_keeps_wf(m: SessionModel, e: Event)
    requires
        model_wf(m),
    ensures
        model_wf(next(m, e)),
{
}

/// The initial state meets the invariant, and so does every state of a
/// run that starts from one that does.
pub proof fn lemma_run_keeps_wf(m: SessionModel, events: Seq<Event>)
    requires
        model_wf(m),
    ensures
        model_wf(state_after(m, events)),
    decreases events.len(),
{
    if events.len() > 0 {
        lemma_run_keeps_wf(m, events.drop_last());
        lemma_next_keeps_wf(state_after(m, events.drop_last()), events.last());
    }
}

/// What one step can ask for, by the phase it starts in.
proof fn lemma_output_by_phase(m: SessionModel, e: Event, k: int)
    requires
        0 <= k < output(m, e).len(),
    ensures
        !m.closed,
        is_install(output(m, e)[k]) ==> m.phase == Phase::OfferSent,
        is_sample(output(m, e)[k]) ==> m.phase != Phase::New && m.last_pts <= pts_of(
            output(m, e)[k],
        ) == next(m, e).last_pts && output(m, e).len() == 1 && bytes_content(
            output(m, e)[k]->data,
        ).len() > 0 && output(m, e)[k]->duration_nanos == m.interval_nanos,
        is_add_candidate(output(m, e)[k]) ==> m.phase == Phase::Established || (m.phase
            == Phase::AnswerPending && next(m, e).phase == Phase::Established),
        is_offer(output(m, e)[k]) ==> m.phase == Phase::New && k == 0,
        is_candidate_send(output(m, e)[k]) ==> m.phase != Phase::New || (k >= 1 && is_offer(
            output(m, e)[0],
        )),
        output(m, e)[k] is ClosePeerConnection ==> next(m, e).closed && k == 2,
{
}

/// One step leaves the phase alone, or moves it as the exchange allows;
/// it leaves `New` only by sending an offer and reaches `AnswerPending`
/// only by installing an answer.
proof fn lemma_phase_moves(m: SessionModel, e: Event)
    ensures
        m.phase == Phase::New && next(m, e).phase != Phase::New ==> output(m, e).len() > 0
            && is_offer(output(m, e)[0]),
        m.phase != Phase::New ==> next(m, e).phase != Phase::New,
        m.phase == Phase::OfferSent && next(m, e).phase != Phase::OfferSent ==> output(m, e).len()
            == 1 && is_install(output(m, e)[0]) && next(m, e).phase == Phase::AnswerPending,
        m.phase == Phase::New ==> next(m, e).phase == Phase::New || next(m, e).phase
            == Phase::OfferSent,
        m.last_pts <= next(m, e).last_pts,
        m.closed ==> next(m, e).closed,
        m.interval_nanos == next(m, e).interval_nanos,
{
}

/// The facts about a run from which the laws follow.
pub open spec fn run_facts(m: SessionModel, events: Seq<Event>) -> bool {
    let s = state_after(m, events);
    let t = trace(m, events);
    &&& s.phase != Phase::New ==> offer_before(t, t.len() as int)
    &&& (s.phase == Phase::AnswerPending || s.phase == Phase::Established) ==> install_before(
        t,
        t.len() as int,
    )
    &&& forall|j: int|
        0 <= j < t.len() && (is_install(#[trigger] t[j]) || is_sample(t[j])) ==> offer_before(t, j)
    &&& forall|j: int|
        0 <= j < t.len() && is_add_candidate(#[trigger] t[j]) ==> install_before(t, j)
    &&& forall|j: int|
        0 <= j < t.len() && is_candidate_send(#[trigger] t[j]) ==> offer_before(t, j)
    &&& forall|j: int| 0 <= j < t.len() && is_sample(#[trigger] t[j]) ==> pts_of(t[j]) <= s.last_pts
    &&& s.interval_nanos == m.interval_nanos
    &&& forall|j: int|
        0 <= j < t.len() && is_sample(#[trigger] t[j]) ==> bytes_content(t[j]->data).len() > 0
            && t[j]->duration_nanos == m.interval_nanos
    &&& forall|i: int, j: int|
        0 <= i <= j < t.len() && is_sample(#[trigger] t[i]) && is_sample(#[trigger] t[j])
            ==> pts_of(t[i]) <= pts_of(t[j])
    &&& forall|j: int|
        0 <= j < t.len() && #[trigger] t[j] is ClosePeerConnection ==> s.closed
    &&& forall|i: int, j: int|
        0 <= i < j < t.len() && #[trigger] t[i] is ClosePeerConnection ==> !(
        #[trigger] t[j] is ClosePeerConnection)
}

/// The facts hold of every run from the initial state.
pub proof fn lemma_run_facts(fps: u32, audio: bool, events: Seq<Event>)
    ensures
        run_facts(initial(fps, audio), events),
    decreases events.len(),
{
    let m = initial(fps, audio);
    if events.len() > 0 {
        let before = events.drop_last();
        let e = events.last();
        lemma_run_facts(fps, audio, before);
        let s0 = state_after(m, before);
        let t0 = trace(m, before);
        let out = output(s0, e);
        let s = state_after(m, events);
        let t = trace(m, events);
        lemma_phase_moves(s0, e);
        assert forall|k: int| 0 <= k < out.len() implies t[t0.len() + k] == out[k] by {}
        assert forall|j: int| 0 <= j < t0.len() implies t[j] == t0[j] by {}
        // An offer or an install that was in the trace stays where it was.
        assert forall|j: int| offer_before(t0, j) implies offer_before(t, j) by {
            let i = choose|i: int| 0 <= i < j && i < t0.len() && is_offer(#[trigger] t0[i]);
            assert(is_offer(t[i]));
        }
        assert forall|j: int| install_before(t0, j) implies install_before(t, j) by {
            let i = choose|i: int| 0 <= i < j && i < t0.len() && is_install(#[trigger] t0[i]);
            assert(is_install(t[i]));
        }
        if s.phase != Phase::New {
            if s0.phase == Phase::New {
                assert(is_offer(t[t0.len() as int]));
            } else {
                let i = choose|i: int|
                    0 <= i < t0.len() && i < t0.len() && is_offer(#[trigger] t0[i]);
                assert(is_offer(t[i]));
            }
            assert(offer_before(t, t.len() as int));
        }
        if s.phase == Phase::AnswerPending || s.phase == Phase::Established {
            if s0.phase == Phase::AnswerPending || s0.phase == Phase::Established {
                let i = choose|i: int|
                    0 <= i < t0.len() && i < t0.len() && is_install(#[trigger] t0[i]);
                assert(is_install(t[i]));
            } else {
                assert(s0.phase == Phase::OfferSent);
                assert(is_install(t[t0.len() as int]));
            }
            assert(install_before(t, t.len() as int));
        }
        assert forall|j: int|
            0 <= j < t.len() && (is_install(#[trigger] t[j]) || is_sample(t[j])) implies offer_before(
            t,
            j,
        ) by {
            if j >= t0.len() {
                lemma_output_by_phase(s0, e, j - t0.len());
                assert(t[t0.len() + (j - t0.len())] == out[j - t0.len()]);
                assert(offer_before(t0, t0.len() as int));
                let i = choose|i: int|
                    0 <= i < t0.len() && i < t0.len() && is_offer(#[trigger] t0[i]);
                assert(is_offer(t[i]));
            } else {
                assert(offer_before(t0, j));
            }
        }
        assert forall|j: int|
            0 <= j < t.len() && is_candidate_send(#[trigger] t[j]) implies offer_before(t, j) by {
            if j >= t0.len() {
                lemma_output_by_phase(s0, e, j - t0.len());
                assert(t[t0.len() + (j - t0.len())] == out[j - t0.len()]);
                if s0.phase != Phase::New {
                    assert(offer_before(t0, t0.len() as int));
                    let i = choose|i: int|
                        0 <= i < t0.len() && i < t0.len() && is_offer(#[trigger] t0[i]);
                    assert(is_offer(t[i]));
                } else {
                    assert(t[t0.len() as int] == out[0]);
                    assert(is_offer(t[t0.len() as int]));
                }
            } else {
                assert(offer_before(t0, j));
            }
        }
        assert forall|j: int|
            0 <= j < t.len() && is_add_candidate(#[trigger] t[j]) implies install_before(t, j) by {
            if j >= t0.len() {
                lemma_output_by_phase(s0, e, j - t0.len());
                assert(t[t0.len() + (j - t0.len())] == out[j - t0.len()]);
                assert(install_before(t0, t0.len() as int));
                let i = choose|i: int|
                    0 <= i < t0.len() && i < t0.len() && is_install(#[trigger] t0[i]);
                assert(is_install(t[i]));
            } else {
                assert(install_before(t0, j));
            }
        }
        assert forall|j: int| 0 <= j < t.len() && is_sample(#[trigger] t[j]) implies pts_of(t[j])
            <= s.last_pts by {
            if j >= t0.len() {
                lemma_output_by_phase(s0, e, j - t0.len());
                assert(t[t0.len() + (j - t0.len())] == out[j - t0.len()]);
            } else {
                assert(t[j] == t0[j]);
            }
        }
        assert forall|j: int| 0 <= j < t.len() && is_sample(#[trigger] t[j]) implies bytes_content(
            t[j]->data,
        ).len() > 0 && t[j]->duration_nanos == m.interval_nanos by {
            if j >= t0.len() {
                lemma_output_by_phase(s0, e, j - t0.len());
                assert(t[t0.len() + (j - t0.len())] == out[j - t0.len()]);
            } else {
                assert(t[j] == t0[j]);
            }
        }
        assert forall|i: int, j: int|
            0 <= i <= j < t.len() && is_sample(#[trigger] t[i]) && is_sample(
                #[trigger] t[j],
            ) implies pts_of(t[i]) <= pts_of(t[j]) by {
            if j >= t0.len() {
                lemma_output_by_phase(s0, e, j - t0.len());
                assert(t[t0.len() + (j - t0.len())] == out[j - t0.len()]);
                if i >= t0.len() {
                    assert(i == j);
                } else {
                    assert(t[i] == t0[i]);
                }
            } else {
                assert(t[i] == t0[i]);
                assert(t[j] == t0[j]);
            }
        }
        assert forall|j: int| 0 <= j < t.len() && #[trigger] t[j] is ClosePeerConnection implies s.closed by {
            if j >= t0.len() {
                lemma_output_by_phase(s0, e, j - t0.len());
                assert(t[t0.len() + (j - t0.len())] == out[j - t0.len()]);
            } else {
                assert(t[j] == t0[j]);
            }
        }
        assert forall|i: int, j: int|
            0 <= i < j < t.len() && #[trigger] t[i] is ClosePeerConnection implies !(
            #[trigger] t[j] is ClosePeerConnection) by {
            if j >= t0.len() {
                if t[j] is ClosePeerConnection {
                    lemma_output_by_phase(s0, e, j - t0.len());
                    assert(t[t0.len() + (j - t0.len())] == out[j - t0.len()]);
                    if i >= t0.len() {
                        lemma_output_by_phase(s0, e, i - t0.len());
                        assert(t[t0.len() + (i - t0.len())] == out[i - t0.len()]);
                    } else {
                        assert(t[i] == t0[i]);
                    }
                }
            } else {
                assert(t[i] == t0[i]);
                assert(t[j] == t0[j]);
            }
        }
    } else {
        assert(trace(m, events) =~= seq![]);
    }
}

/// An answer is installed only after an offer went out: wherever a run
/// installs an answer, it has sent an offer before.
pub proof fn lemma_answer_follows_offer(fps: u32, audio: bool, events: Seq<Event>, j: int)
    requires
        0 <= j < trace(initial(fps, audio), events).len(),
        is_install(trace(initial(fps, audio), events)[j]),
    ensures
        exists|i: int| 0 <= i < j && is_offer(#[trigger] trace(initial(fps, audio), events)[i]),
{
    lemma_run_facts(fps, audio, events);
    let t = trace(initial(fps, audio), events);
    assert(offer_before(t, j));
}

/// No unit reaches the video track before the offer is the local
/// description: wherever a run hands a sample over, it has sent the offer
/// before. The sample is never empty and lasts one frame interval.
pub proof fn lemma_media_follows_offer(fps: u32, audio: bool, events: Seq<Event>, j: int)
    requires
        0 <= j < trace(initial(fps, audio), events).len(),
        is_sample(trace(initial(fps, audio), events)[j]),
    ensures
        exists|i: int| 0 <= i < j && is_offer(#[trigger] trace(initial(fps, audio), events)[i]),
        bytes_content(trace(initial(fps, audio), events)[j]->data).len() > 0,
        trace(initial(fps, audio), events)[j]->duration_nanos == crate::session::frame_interval(
            fps,
        ),
{
    lemma_run_facts(fps, audio, events);
    let t = trace(initial(fps, audio), events);
    assert(offer_before(t, j));
}

/// The client sees the offer before any local candidate: wherever a run
/// sends a candidate, it has sent the offer before.
pub proof fn lemma_offer_precedes_candidates(fps: u32, audio: bool, events: Seq<Event>, j: int)
    requires
        0 <= j < trace(initial(fps, audio), events).len(),
        is_candidate_send(trace(initial(fps, audio), events)[j]),
    ensures
        exists|i: int| 0 <= i < j && is_offer(#[trigger] trace(initial(fps, audio), events)[i]),
{
    lemma_run_facts(fps, audio, events);
    let t = trace(initial(fps, audio), events);
    assert(offer_before(t, j));
}

/// Remote candidates reach the ICE agent only after an answer was handed
/// over for installing.
pub proof fn lemma_candidates_follow_answer(fps: u32, audio: bool, events: Seq<Event>, j: int)
    requires
        0 <= j < trace(initial(fps, audio), events).len(),
        is_add_candidate(trace(initial(fps, audio), events)[j]),
    ensures
        exists|i: int| 0 <= i < j && is_install(#[trigger] trace(initial(fps, audio), events)[i]),
{
    lemma_run_facts(fps, audio, events);
    let t = trace(initial(fps, audio), events);
    assert(install_before(t, j));
}

/// The units handed to the video track never go back in presentation
/// time.
pub proof fn lemma_timestamps_never_decrease(
    fps: u32,
    audio: bool,
    events: Seq<Event>,
    i: int,
    j: int,
)
    requires
        0 <= i <= j < trace(initial(fps, audio), events).len(),
        is_sample(trace(initial(fps, audio), events)[i]),
        is_sample(trace(initial(fps, audio), events)[j]),
    ensures
        pts_of(trace(initial(fps, audio), events)[i]) <= pts_of(
            trace(initial(fps, audio), events)[j],
        ),
{
    lemma_run_facts(fps, audio, events);
}

/// A session is released once: no run closes the peer connection twice.
pub proof fn lemma_released_once(fps: u32, audio: bool, events: Seq<Event>, i: int, j: int)
    requires
        0 <= i < j < trace(initial(fps, audio), events).len(),
        trace(initial(fps, audio), events)[i] is ClosePeerConnection,
    ensures
        !(trace(initial(fps, audio), events)[j] is ClosePeerConnection),
{
    lemma_run_facts(fps, audio, events);
}

/// A remote candidate that arrives before the remote description is
/// installed is kept, in arrival order, and asks for nothing yet.
pub proof fn lemma_early_candidate_is_buffered(m: SessionModel, c: IceCandidate)
    requires
        !m.closed,
        m.phase != Phase::Established,
        c.spec_line_index() < m.media_sections,
    ensures
        ({
            let e = Event::Message {
                inbound: Inbound::Signaling { message: ice_message(c) },
            };
            &&& output(m, e) == Seq::<Action>::empty()
            &&& next(m, e) == (SessionModel { pending_remote: m.pending_remote.push(c), ..m })
        }),
{
    let e = Event::Message { inbound: Inbound::Signaling { message: ice_message(c) } };
    assert(candidate_of(c.candidate, c.sdp_mid, c.sdp_m_line_index) == c);
    assert(output(m, e) =~= Seq::<Action>::empty());
}

/// Once the answer is installed, every candidate that waited is handed to
/// the ICE agent, in arrival order, and none waits any longer.
pub proof fn lemma_install_applies_pending(m: SessionModel)
    requires
        !m.closed,
        m.phase == Phase::AnswerPending,
    ensures
        ({
            let e = Event::RemoteDescription { installed: true };
            &&& output(m, e) == add_candidates(m.pending_remote)
            &&& output(m, e).len() == m.pending_remote.len()
            &&& forall|k: int|
                0 <= k < m.pending_remote.len() ==> #[trigger] output(m, e)[k] == (
                Action::AddIceCandidate { candidate: m.pending_remote[k] })
            &&& next(m, e).phase == Phase::Established
            &&& next(m, e).pending_remote == Seq::<IceCandidate>::empty()
        }),
{
}

/// A candidate that arrives while the answer is still awaited is applied
/// when the answer is installed: it is buffered, the answer is handed over
/// for installing, and the install hands the candidate to the ICE agent
/// after those that waited before it.
pub proof fn lemma_early_candidate_applied_on_install(m: SessionModel, c: IceCandidate, sdp: String)
    requires
        !m.closed,
        m.phase == Phase::OfferSent,
        c.spec_line_index() < m.media_sections,
    ensures
        ({
            let ice = Event::Message { inbound: Inbound::Signaling { message: ice_message(c) } };
            let answer = Event::Message {
                inbound: Inbound::Signaling { message: SignalingMessage::Answer { sdp } },
            };
            let installed = Event::RemoteDescription { installed: true };
            let m1 = next(m, ice);
            let m2 = next(m1, answer);
            let m3 = next(m2, installed);
            &&& output(m, ice) == Seq::<Action>::empty()
            &&& output(m1, answer) == seq![Action::SetRemoteDescription { sdp }]
            &&& output(m2, installed) == add_candidates(m.pending_remote.push(c))
            &&& output(m2, installed).last() == (Action::AddIceCandidate { candidate: c })
            &&& m3.phase == Phase::Established
            &&& m3.pending_remote == Seq::<IceCandidate>::empty()
        }),
{
    lemma_early_candidate_is_buffered(m, c);
    let ice = Event::Message { inbound: Inbound::Signaling { message: ice_message(c) } };
    let answer = Event::Message {
        inbound: Inbound::Signaling { message: SignalingMessage::Answer { sdp } },
    };
    let m1 = next(m, ice);
    let m2 = next(m1, answer);
    assert(m2.pending_remote == m.pending_remote.push(c));
    lemma_install_applies_pending(m2);
}

/// A candidate that arrives after the answer is installed is applied at
/// once.
pub proof fn lemma_late_candidate_applied_at_once(m: SessionModel, c: IceCandidate)
    requires
        !m.closed,
        m.phase == Phase::Established,
        c.spec_line_index() < m.media_sections,
    ensures
        ({
            let e = Event::Message {
                inbound: Inbound::Signaling { message: ice_message(c) },
            };
            &&& output(m, e) == seq![Action::AddIceCandidate { candidate: c }]
            &&& next(m, e) == m
        }),
{
    assert(candidate_of(c.candidate, c.sdp_mid, c.sdp_m_line_index) == c);
}

/// A candidate for a media section that the session does not have is
/// dropped without a word.
pub proof fn lemma_stray_candidate_is_discarded(m: SessionModel, c: IceCandidate)
    requires
        c.spec_line_index() >= m.media_sections,
    ensures
        ({
            let e = Event::Message {
                inbound: Inbound::Signaling { message: ice_message(c) },
            };
            &&& output(m, e) == Seq::<Action>::empty()
            &&& next(m, e) == m
        }),
{
    let e = Event::Message { inbound: Inbound::Signaling { message: ice_message(c) } };
    assert(candidate_of(c.candidate, c.sdp_mid, c.sdp_m_line_index) == c);
    assert(output(m, e) =~= Seq::<Action>::empty());
}

/// A text frame that is neither a signaling message nor an input event is
/// logged and changes nothing: the session stays as alive as it was.
pub proof fn lemma_unknown_message_is_ignored(m: SessionModel)
    ensures
        next(m, Event::Message { inbound: Inbound::Unknown }) == m,
        !m.closed ==> output(m, Event::Message { inbound: Inbound::Unknown }) == seq![
            Action::Warn { warning: Warning::UnknownMessage },
        ],
        m.closed ==> output(m, Event::Message { inbound: Inbound::Unknown }) == Seq::<
            Action,
        >::empty(),
{
    assert(m.closed ==> output(m, Event::Message { inbound: Inbound::Unknown }) =~= Seq::<
        Action,
    >::empty());
}

/// An unknown text frame does not stand in the way of the exchange: an
/// answer that follows it is handed over for installing as if the frame
/// had never come.
pub proof fn lemma_answer_after_unknown_message(m: SessionModel, sdp: String)
    requires
        !m.closed,
        m.phase == Phase::OfferSent,
    ensures
        ({
            let unknown = Event::Message { inbound: Inbound::Unknown };
            let answer = Event::Message {
                inbound: Inbound::Signaling { message: SignalingMessage::Answer { sdp } },
            };
            &&& output(next(m, unknown), answer) == seq![Action::SetRemoteDescription { sdp }]
            &&& next(next(m, unknown), answer).phase == Phase::AnswerPending
        }),
{
}

/// A released session asks for nothing more and stays released.
pub proof fn lemma_closed_is_final(m: SessionModel, e: Event)
    requires
        m.closed,
    ensures
        next(m, e) == m,
        output(m, e) == Seq::<Action>::empty(),
{
    assert(output(m, e) =~= Seq::<Action>::empty());
}

/// A Close frame, a read error, a media failure, or a failed or closed
/// peer connection or ICE transport releases a live session: the pipeline
/// is stopped, the input worker let go, the peer connection and the socket
/// closed, in that order.
pub proof fn lemma_terminal_event_releases(m: SessionModel, e: Event)
    requires
        !m.closed,
        crate::session::is_terminal(e),
    ensures
        next(m, e).closed,
        output(m, e) == teardown(),
        output(m, e) == seq![
            Action::StopPipeline,
            Action::StopInput,
            Action::ClosePeerConnection,
            Action::CloseTransport,
        ],
{
}

/// The offer goes out before the local candidates: candidates found
/// before the offer was ready wait for it and follow it in the order in
/// which they were found.
pub proof fn lemma_offer_precedes_local_candidates(m: SessionModel, sdp: String)
    requires
        !m.closed,
        m.phase == Phase::New,
    ensures
        ({
            let e = Event::OfferReady { sdp };
            &&& output(m, e).len() == 1 + m.pending_local.len()
            &&& output(m, e)[0] == (Action::Send { message: SignalingMessage::Offer { sdp } })
            &&& forall|k: int|
                0 <= k < m.pending_local.len() ==> #[trigger] output(m, e)[1 + k] == (Action::Send {
                    message: ice_message(m.pending_local[k]),
                })
            &&& next(m, e).phase == Phase::OfferSent
            &&& next(m, e).pending_local == Seq::<IceCandidate>::empty()
        }),
{
    let e = Event::OfferReady { sdp };
    assert forall|k: int| 0 <= k < m.pending_local.len() implies #[trigger] output(m, e)[1 + k]
        == (Action::Send { message: ice_message(m.pending_local[k]) }) by {
        assert(send_candidates(m.pending_local)[k] == (Action::Send {
            message: ice_message(m.pending_local[k]),
        }));
    }
}

/// The input events that a sequence of actions hands to the input worker,
/// in order.
pub open spec fn injected(t: Seq<Action>) -> Seq<InputEvent>
    decreases t.len(),
{
    if t.len() == 0 {
        seq![]
    } else {
        match t.last() {
            Action::Inject { event } => injected(t.drop_last()).push(event),
            _ => injected(t.drop_last()),
        }
    }
}

/// The input events that arrive during a run while the session is alive,
/// in order of arrival.
pub open spec fn inputs_received(m: SessionModel, events: Seq<Event>) -> Seq<InputEvent>
    decreases events.len(),
{
    if events.len() == 0 {
        seq![]
    } else {
        let before = inputs_received(m, events.drop_last());
        match events.last() {
            Event::Message { inbound: Inbound::Input { event } } => if state_after(
                m,
                events.drop_last(),
            ).closed {
                before
            } else {
                before.push(event)
            },
            _ => before,
        }
    }
}

/// What two sequences of actions inject one after the other is what their
/// concatenation injects.
proof fn lemma_injected_concat(a: Seq<Action>, b: Seq<Action>)
    ensures
        injected(a + b) == injected(a) + injected(b),
    decreases b.len(),
{
    if b.len() == 0 {
        assert(a + b =~= a);
        assert(injected(a) + injected(b) =~= injected(a));
    } else {
        lemma_injected_concat(a, b.drop_last());
        assert((a + b).drop_last() =~= a + b.drop_last());
        assert((a + b).last() == b.last());
        match b.last() {
            Action::Inject { event } => {
                assert(injected(a) + injected(b.drop_last()).push(event) =~= (injected(a)
                    + injected(b.drop_last())).push(event));
            },
            _ => {},
        }
    }
}

/// Actions among which there is no injection inject nothing.
proof fn lemma_injected_none(t: Seq<Action>)
    requires
        forall|k: int| 0 <= k < t.len() ==> !(#[trigger] t[k] is Inject),
    ensures
        injected(t) == Seq::<InputEvent>::empty(),
    decreases t.len(),
{
    if t.len() > 0 {
        assert(!(t[t.len() - 1] is Inject));
        assert forall|k: int| 0 <= k < t.drop_last().len() implies !(
        #[trigger] t.drop_last()[k] is Inject) by {
            assert(t.drop_last()[k] == t[k]);
        }
        lemma_injected_none(t.drop_last());
    }
}

/// What one step injects: the event itself where an input event reaches a
/// live session, nothing otherwise.
proof fn lemma_injected_by_step(m: SessionModel, e: Event)
    ensures
        injected(output(m, e)) == (match e {
            Event::Message { inbound: Inbound::Input { event } } => if m.closed {
                Seq::<InputEvent>::empty()
            } else {
                seq![event]
            },
            _ => Seq::<InputEvent>::empty(),
        }),
{
    let out = output(m, e);
    match e {
        Event::Message { inbound: Inbound::Input { event } } => {
            if m.closed {
                assert(out =~= Seq::<Action>::empty());
            } else {
                assert(out == seq![Action::Inject { event }]);
                assert(out.len() == 1);
                assert(out.last() == (Action::Inject { event }));
                assert(out.drop_last().len() == 0);
                assert(injected(out.drop_last()) =~= Seq::<InputEvent>::empty());
                assert(injected(out) == injected(out.drop_last()).push(event));
                assert(injected(out) =~= seq![event]);
            }
        },
        _ => {
            assert forall|k: int| 0 <= k < out.len() implies !(#[trigger] out[k] is Inject) by {}
            lemma_injected_none(out);
        },
    }
}

/// Input is replayed in the order in which it arrived: what a run hands to
/// the input worker is exactly the input events that reached the live
/// session, each once, in order of arrival.
pub proof fn lemma_input_order_is_kept(m: SessionModel, events: Seq<Event>)
    ensures
        injected(trace(m, events)) == inputs_received(m, events),
    decreases events.len(),
{
    if events.len() > 0 {
        let before = events.drop_last();
        lemma_input_order_is_kept(m, before);
        lemma_injected_concat(trace(m, before), output(state_after(m, before), events.last()));
        lemma_injected_by_step(state_after(m, before), events.last());
        match events.last() {
            Event::Message { inbound: Inbound::Input { event } } => {
                if !state_after(m, before).closed {
                    assert(inputs_received(m, before) + seq![event] =~= inputs_received(
                        m,
                        before,
                    ).push(event));
                } else {
                    assert(inputs_received(m, before) + Seq::<InputEvent>::empty()
                        =~= inputs_received(m, before));
                }
            },
            _ => {
                assert(inputs_received(m, before) + Seq::<InputEvent>::empty()
                    =~= inputs_received(m, before));
            },
        }
    }
}

} // verus!
