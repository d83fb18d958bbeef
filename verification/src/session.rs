//! The session state machine: everything a session decides.
//!
//! A session is one browser on one WebSocket with one peer connection, one
//! media pipeline and one input worker. The code that owns those resources
//! reports what happens as an [`Event`]; [`Session::step`] answers with the
//! [`Action`]s to perform, in order. The machine never performs anything
//! itself, so all of its behaviour is stated by two specification
//! functions, [`next`] and [`output`]. The module `laws` proves what
//! follows from them for every sequence of events.

use vstd::prelude::*;
use crate::encoder::{bytes_content, bytes_len};
use crate::input::InputEvent;

verus! {

/// An ICE candidate with the media section it belongs to.
#[derive(Debug, Clone, PartialEq, Eq)]
pub struct IceCandidate {
    pub candidate: String,
    pub sdp_mid: Option<String>,
    pub sdp_m_line_index: Option<u32>,
}

impl IceCandidate {
    /// The media section the candidate is for; the first where none is
    /// named.
    pub open spec fn spec_line_index(&self) -> u32 {
        match self.sdp_m_line_index {
            Some(i) => i,
            None => 0,
        }
    }

    /// The media section the candidate is for.
    #[verifier::when_used_as_spec(spec_line_index)]
    pub fn line_index(&self) -> (index: u32)
        ensures
            index == self.spec_line_index(),
    {
        match self.sdp_m_line_index {
            Some(i) => i,
            None => 0,
        }
    }

    /// A copy, field by field.
    pub fn duplicate(&self) -> (copy: Self)
        ensures
            copy == *self,
    {
        let sdp_mid = match &self.sdp_mid {
            Some(mid) => Some(mid.clone()),
            None => None,
        };
        IceCandidate {
            candidate: self.candidate.clone(),
            sdp_mid,
            sdp_m_line_index: self.sdp_m_line_index,
        }
    }
}

/// A message of the offer/answer exchange. Offers come from the server
/// only, answers from the client only, candidates from both.
#[derive(Debug, Clone, PartialEq, Eq)]
pub enum SignalingMessage {
    Offer { sdp: String },
    Answer { sdp: String },
    Ice { candidate: String, sdp_mid: Option<String>, sdp_m_line_index: Option<u32> },
}

/// What a text frame from the client turned out to be.
#[derive(Debug, Clone, PartialEq, Eq)]
pub enum Inbound {
    Signaling { message: SignalingMessage },
    Input { event: InputEvent },
    Unknown,
}

/// State of the peer connection.
#[derive(Debug, Clone, Copy, PartialEq, Eq, Structural)]
pub enum PeerState {
    New,
    Connecting,
    Connected,
    Disconnected,
    Failed,
    Closed,
}

/// State of the ICE transport.
#[derive(Debug, Clone, Copy, PartialEq, Eq, Structural)]
pub enum IceState {
    New,
    Checking,
    Connected,
    Completed,
    Failed,
    Disconnected,
    Closed,
}

/// How far the offer/answer exchange has come.
#[derive(Debug, Clone, Copy, PartialEq, Eq, Structural)]
pub enum Phase {
    /// No local description yet.
    New,
    /// The offer is the local description and has been sent.
    OfferSent,
    /// An answer is being installed as the remote description.
    AnswerPending,
    /// The remote description is installed.
    Established,
}

/// Something that happened to the session.
#[derive(Debug, PartialEq, Eq)]
pub enum Event {
    /// An offer was created and has become the local description.
    OfferReady { sdp: String },
    /// The ICE agent found a local candidate.
    LocalCandidate { candidate: IceCandidate },
    /// A text frame arrived and was decoded.
    Message { inbound: Inbound },
    /// A binary frame or a control frame other than Close arrived.
    OtherFrame,
    /// A Close frame arrived or reading the socket failed.
    TransportClosed,
    /// Installing the answer finished, well or not.
    RemoteDescription { installed: bool },
    /// The peer connection changed state.
    PeerStateChanged { peer: PeerState },
    /// The ICE transport changed state.
    IceStateChanged { ice: IceState },
    /// The encoder was given a frame, `elapsed_nanos` after the pipeline
    /// started, and emitted a unit or withheld it.
    Encoded { unit: Option<bytes::Bytes>, elapsed_nanos: u64 },
    /// The frame producer or the encoder failed.
    MediaFailed,
}

/// A condition worth a line in the log that changes nothing.
#[derive(Debug, Clone, Copy, PartialEq, Eq, Structural)]
pub enum Warning {
    /// A text frame was neither a signaling message nor an input event.
    UnknownMessage,
    /// An answer arrived when no offer was waiting for one.
    UnexpectedAnswer,
    /// The answer could not be installed.
    AnswerRejected,
    /// A second offer was reported.
    UnexpectedOffer,
    /// The peer connection lost its connection.
    PeerDisconnected,
    /// The ICE transport lost its connection.
    IceDisconnected,
}

/// Something for the owner of the session's resources to do.
#[derive(Debug, PartialEq, Eq)]
pub enum Action {
    /// Send a message to the client.
    Send { message: SignalingMessage },
    /// Install an answer as the remote description, then report how that
    /// went with [`Event::RemoteDescription`].
    SetRemoteDescription { sdp: String },
    /// Hand a remote candidate to the ICE agent.
    AddIceCandidate { candidate: IceCandidate },
    /// Hand an input event to the input worker.
    Inject { event: InputEvent },
    /// Hand an encoded unit to the video track.
    SendSample { data: bytes::Bytes, duration_nanos: u64, pts_nanos: u64 },
    /// Log a warning.
    Warn { warning: Warning },
    /// Stop the media pipeline.
    StopPipeline,
    /// Let the input worker run out.
    StopInput,
    /// Close the peer connection.
    ClosePeerConnection,
    /// Stop writing to the socket and drop it.
    CloseTransport,
}

/// What the machine remembers, as plain values.
pub struct SessionModel {
    pub phase: Phase,
    pub closed: bool,
    pub media_sections: u32,
    pub interval_nanos: u64,
    pub last_pts: u64,
    pub pending_local: Seq<IceCandidate>,
    pub pending_remote: Seq<IceCandidate>,
}

/// Nanoseconds in a second.
pub const NANOS_PER_SECOND: u64 = 1_000_000_000;

/// Nominal duration of one frame at a frame rate, in whole nanoseconds.
pub open spec fn frame_interval(fps: u32) -> u64 {
    (NANOS_PER_SECOND / (fps as u64)) as u64
}

/// Number of media sections of the offer: video, and audio where enabled.
pub open spec fn media_section_count(audio: bool) -> u32 {
    if audio {
        2
    } else {
        1
    }
}

/// The state of a session that has just been set up.
pub open spec fn initial(fps: u32, audio: bool) -> SessionModel {
    SessionModel {
        phase: Phase::New,
        closed: false,
        media_sections: media_section_count(audio),
        interval_nanos: frame_interval(fps),
        last_pts: 0,
        pending_local: Seq::empty(),
        pending_remote: Seq::empty(),
    }
}

/// The wire message that carries a candidate.
pub open spec fn ice_message(c: IceCandidate) -> SignalingMessage {
    SignalingMessage::Ice {
        candidate: c.candidate,
        sdp_mid: c.sdp_mid,
        sdp_m_line_index: c.sdp_m_line_index,
    }
}

/// One send per candidate, in order.
pub open spec fn send_candidates(cs: Seq<IceCandidate>) -> Seq<Action> {
    Seq::new(cs.len(), |i: int| Action::Send { message: ice_message(cs[i]) })
}

/// One hand-over to the ICE agent per candidate, in order.
pub open spec fn add_candidates(cs: Seq<IceCandidate>) -> Seq<Action> {
    Seq::new(cs.len(), |i: int| Action::AddIceCandidate { candidate: cs[i] })
}

/// What releasing a session consists of.
pub open spec fn teardown() -> Seq<Action> {
    seq![
        Action::StopPipeline,
        Action::StopInput,
        Action::ClosePeerConnection,
        Action::CloseTransport,
    ]
}

/// Whether a peer connection state ends the session.
pub open spec fn peer_state_is_terminal(state: PeerState) -> bool {
    state == PeerState::Failed || state == PeerState::Closed
}

/// Whether an ICE state ends the session.
pub open spec fn ice_state_is_terminal(state: IceState) -> bool {
    state == IceState::Failed || state == IceState::Closed
}

/// Whether an event ends a session that is still alive.
pub open spec fn is_terminal(e: Event) -> bool {
    match e {
        Event::TransportClosed => true,
        Event::MediaFailed => true,
        Event::PeerStateChanged { peer } => peer_state_is_terminal(peer),
        Event::IceStateChanged { ice } => ice_state_is_terminal(ice),
        _ => false,
    }
}

/// Whether an encoded unit is handed to the video track: there is one, it
/// is not empty, and the local description is set.
pub open spec fn forwards(m: SessionModel, unit: Option<bytes::Bytes>) -> bool {
    unit is Some && bytes_content(unit->0).len() > 0 && m.phase != Phase::New
}

/// The timestamp a unit gets: the time since the pipeline started, but
/// never less than that of the unit before it.
pub open spec fn stamp(m: SessionModel, elapsed_nanos: u64) -> u64 {
    if elapsed_nanos >= m.last_pts {
        elapsed_nanos
    } else {
        m.last_pts
    }
}

/// The candidate that a signaling message carries.
pub open spec fn candidate_of(
    candidate: String,
    sdp_mid: Option<String>,
    sdp_m_line_index: Option<u32>,
) -> IceCandidate {
    IceCandidate { candidate, sdp_mid, sdp_m_line_index }
}

/// The state after an event.
pub open spec fn next(m: SessionModel, e: Event) -> SessionModel {
    if m.closed {
        m
    } else if is_terminal(e) {
        SessionModel { closed: true, ..m }
    } else {
        match e {
            Event::OfferReady { sdp } => if m.phase == Phase::New {
                SessionModel { phase: Phase::OfferSent, pending_local: Seq::empty(), ..m }
            } else {
                m
            },
            Event::LocalCandidate { candidate } => if m.phase == Phase::New {
                SessionModel { pending_local: m.pending_local.push(candidate), ..m }
            } else {
                m
            },
            Event::Message {
                inbound: Inbound::Signaling { message: SignalingMessage::Answer { sdp } },
            } => if m.phase == Phase::OfferSent {
                SessionModel { phase: Phase::AnswerPending, ..m }
            } else {
                m
            },
            Event::Message {
                inbound: Inbound::Signaling {
                    message: SignalingMessage::Ice { candidate, sdp_mid, sdp_m_line_index },
                },
            } => {
                let c = candidate_of(candidate, sdp_mid, sdp_m_line_index);
                if c.spec_line_index() < m.media_sections && m.phase != Phase::Established {
                    SessionModel { pending_remote: m.pending_remote.push(c), ..m }
                } else {
                    m
                }
            },
            Event::RemoteDescription { installed } => if m.phase == Phase::AnswerPending {
                if installed {
                    SessionModel { phase: Phase::Established, pending_remote: Seq::empty(), ..m }
                } else {
                    SessionModel { phase: Phase::OfferSent, ..m }
                }
            } else {
                m
            },
            Event::Encoded { unit, elapsed_nanos } => if forwards(m, unit) {
                SessionModel { last_pts: stamp(m, elapsed_nanos), ..m }
            } else {
                m
            },
            _ => m,
        }
    }
}

/// The actions an event calls for, in the order in which they are due.
pub open spec fn output(m: SessionModel, e: Event) -> Seq<Action> {
    if m.closed {
        seq![]
    } else if is_terminal(e) {
        teardown()
    } else {
        match e {
            Event::OfferReady { sdp } => if m.phase == Phase::New {
                seq![Action::Send { message: SignalingMessage::Offer { sdp } }] + send_candidates(
                    m.pending_local,
                )
            } else {
                seq![Action::Warn { warning: Warning::UnexpectedOffer }]
            },
            Event::LocalCandidate { candidate } => if m.phase == Phase::New {
                seq![]
            } else {
                seq![Action::Send { message: ice_message(candidate) }]
            },
            Event::Message { inbound: Inbound::Signaling { message } } => match message {
                SignalingMessage::Offer { sdp } => seq![],
                SignalingMessage::Answer { sdp } => if m.phase == Phase::OfferSent {
                    seq![Action::SetRemoteDescription { sdp }]
                } else {
                    seq![Action::Warn { warning: Warning::UnexpectedAnswer }]
                },
                SignalingMessage::Ice { candidate, sdp_mid, sdp_m_line_index } => {
                    let c = candidate_of(candidate, sdp_mid, sdp_m_line_index);
                    if c.spec_line_index() < m.media_sections && m.phase == Phase::Established {
                        seq![Action::AddIceCandidate { candidate: c }]
                    } else {
                        seq![]
                    }
                },
            },
            Event::Message { inbound: Inbound::Input { event } } => seq![Action::Inject { event }],
            Event::Message { inbound: Inbound::Unknown } => seq![
                Action::Warn { warning: Warning::UnknownMessage },
            ],
            Event::RemoteDescription { installed } => if m.phase == Phase::AnswerPending {
                if installed {
                    add_candidates(m.pending_remote)
                } else {
                    seq![Action::Warn { warning: Warning::AnswerRejected }]
                }
            } else {
                seq![]
            },
            Event::PeerStateChanged { peer } => if peer == PeerState::Disconnected {
                seq![Action::Warn { warning: Warning::PeerDisconnected }]
            } else {
                seq![]
            },
            Event::IceStateChanged { ice } => if ice == IceState::Disconnected {
                seq![Action::Warn { warning: Warning::IceDisconnected }]
            } else {
                seq![]
            },
            Event::Encoded { unit, elapsed_nanos } => if forwards(m, unit) {
                seq![
                    Action::SendSample {
                        data: unit->0,
                        duration_nanos: m.interval_nanos,
                        pts_nanos: stamp(m, elapsed_nanos),
                    },
                ]
            } else {
                seq![]
            },
            _ => seq![],
        }
    }
}

/// What holds of every state the machine can be in: candidates wait only
/// for what has not happened yet.
pub open spec fn model_wf(m: SessionModel) -> bool {
    &&& m.pending_local.len() > 0 ==> m.phase == Phase::New
    &&& m.pending_remote.len() > 0 ==> m.phase != Phase::Established
}

/// The session state machine.
pub struct Session {
    phase: Phase,
    closed: bool,
    media_sections: u32,
    interval_nanos: u64,
    last_pts: u64,
    pending_local: Vec<IceCandidate>,
    pending_remote: Vec<IceCandidate>,
}

impl View for Session {
    type V = SessionModel;

    closed spec fn view(&self) -> SessionModel {
        SessionModel {
            phase: self.phase,
            closed: self.closed,
            media_sections: self.media_sections,
            interval_nanos: self.interval_nanos,
            last_pts: self.last_pts,
            pending_local: self.pending_local@,
            pending_remote: self.pending_remote@,
        }
    }
}

/// Appends one send per candidate.
fn push_sends(actions: &mut Vec<Action>, candidates: &Vec<IceCandidate>)
    ensures
        final(actions)@ == old(actions)@ + send_candidates(candidates@),
{
    let ghost before = actions@;
    let mut i: usize = 0;
    while i < candidates.len()
        invariant
            i <= candidates.len(),
            actions@.len() == before.len() + i,
            forall|k: int| 0 <= k < before.len() ==> actions@[k] == before[k],
            forall|k: int|
                0 <= k < i ==> #[trigger] actions@[before.len() + k] == send_candidates(
                    candidates@,
                )[k],
        decreases candidates.len() - i,
    {
        let c = candidates[i].duplicate();
        actions.push(
            Action::Send {
                message: SignalingMessage::Ice {
                    candidate: c.candidate,
                    sdp_mid: c.sdp_mid,
                    sdp_m_line_index: c.sdp_m_line_index,
                },
            },
        );
        i += 1;
    }
    assert(actions@ =~= before + send_candidates(candidates@)) by {
        assert forall|k: int| before.len() <= k < actions@.len() implies actions@[k] == (before
            + send_candidates(candidates@))[k] by {
            assert(actions@[before.len() + (k - before.len())] == send_candidates(candidates@)[k
                - before.len()]);
        }
    }
}

/// Appends one hand-over to the ICE agent per candidate.
fn push_adds(actions: &mut Vec<Action>, candidates: &Vec<IceCandidate>)
    ensures
        final(actions)@ == old(actions)@ + add_candidates(candidates@),
{
    let ghost before = actions@;
    let mut i: usize = 0;
    while i < candidates.len()
        invariant
            i <= candidates.len(),
            actions@.len() == before.len() + i,
            forall|k: int| 0 <= k < before.len() ==> actions@[k] == before[k],
            forall|k: int|
                0 <= k < i ==> #[trigger] actions@[before.len() + k] == add_candidates(
                    candidates@,
                )[k],
        decreases candidates.len() - i,
    {
        actions.push(Action::AddIceCandidate { candidate: candidates[i].duplicate() });
        i += 1;
    }
    assert(actions@ =~= before + add_candidates(candidates@)) by {
        assert forall|k: int| before.len() <= k < actions@.len() implies actions@[k] == (before
            + add_candidates(candidates@))[k] by {
            assert(actions@[before.len() + (k - before.len())] == add_candidates(candidates@)[k
                - before.len()]);
        }
    }
}

/// The actions that release a session.
fn teardown_actions() -> (actions: Vec<Action>)
    ensures
        actions@ == teardown(),
{
    let mut actions: Vec<Action> = Vec::new();
    actions.push(Action::StopPipeline);
    actions.push(Action::StopInput);
    actions.push(Action::ClosePeerConnection);
    actions.push(Action::CloseTransport);
    assert(actions@ =~= teardown());
    actions
}

/// Tests `is_terminal`.
fn check_terminal(event: &Event) -> (terminal: bool)
    ensures
        terminal == is_terminal(*event),
{
    match event {
        Event::TransportClosed => true,
        Event::MediaFailed => true,
        Event::PeerStateChanged { peer } => match peer {
            PeerState::Failed => true,
            PeerState::Closed => true,
            _ => false,
        },
        Event::IceStateChanged { ice } => match ice {
            IceState::Failed => true,
            IceState::Closed => true,
            _ => false,
        },
        _ => false,
    }
}

/// Nominal duration of one frame, in whole nanoseconds.
pub fn frame_interval_nanos(fps: u32) -> (nanos: u64)
    requires
        fps > 0,
    ensures
        nanos == frame_interval(fps),
        nanos * fps <= NANOS_PER_SECOND,
        NANOS_PER_SECOND < (nanos + 1) * fps,
{
    let nanos: u64 = NANOS_PER_SECOND / (fps as u64);
    assert(nanos * fps <= NANOS_PER_SECOND && NANOS_PER_SECOND < (nanos + 1) * fps) by {
        vstd::arithmetic::div_mod::lemma_fundamental_div_mod(NANOS_PER_SECOND as int, fps as int);
        assert((fps as int) * (NANOS_PER_SECOND as int / fps as int) == nanos * fps)
            by (nonlinear_arith)
            requires
                nanos == NANOS_PER_SECOND as int / fps as int,
        ;
        assert((nanos + 1) * fps == nanos * fps + fps) by (nonlinear_arith);
    }
    nanos
}

/// How long the pipeline sleeps after a frame that took `elapsed_nanos`:
/// the rest of the frame interval, or nothing where the frame overran it.
pub fn pacing_sleep_nanos(interval_nanos: u64, elapsed_nanos: u64) -> (sleep: u64)
    ensures
        elapsed_nanos < interval_nanos ==> sleep == interval_nanos - elapsed_nanos,
        elapsed_nanos >= interval_nanos ==> sleep == 0,
{
    if elapsed_nanos < interval_nanos {
        interval_nanos - elapsed_nanos
    } else {
        0
    }
}

/// Decides what a text frame is: a signaling message where it decodes as
/// one, else an input event where it decodes as one, else unknown.
pub fn classify(signaling: Option<SignalingMessage>, input: Option<InputEvent>) -> (inbound:
    Inbound)
    ensures
        inbound == (match signaling {
            Some(message) => Inbound::Signaling { message },
            None => match input {
                Some(event) => Inbound::Input { event },
                None => Inbound::Unknown,
            },
        }),
{
    match signaling {
        Some(message) => Inbound::Signaling { message },
        None => match input {
            Some(event) => Inbound::Input { event },
            None => Inbound::Unknown,
        },
    }
}

impl Session {
    /// The invariant of the machine.
    pub open spec fn wf(&self) -> bool {
        model_wf(self@)
    }

    /// A session for a pipeline of the given frame rate, with or without
    /// an outbound audio track.
    pub fn new(fps: u32, audio: bool) -> (session: Self)
        requires
            fps > 0,
        ensures
            session@ == initial(fps, audio),
            session.wf(),
    {
        let session = Session {
            phase: Phase::New,
            closed: false,
            media_sections: if audio {
                2
            } else {
                1
            },
            interval_nanos: frame_interval_nanos(fps),
            last_pts: 0,
            pending_local: Vec::new(),
            pending_remote: Vec::new(),
        };
        assert(session@.pending_local =~= Seq::empty());
        assert(session@.pending_remote =~= Seq::empty());
        session
    }

    /// How far the offer/answer exchange has come.
    pub fn phase(&self) -> (phase: Phase)
        ensures
            phase == self@.phase,
    {
        self.phase
    }

    /// Whether the session has been released.
    pub fn is_closed(&self) -> (closed: bool)
        ensures
            closed == self@.closed,
    {
        self.closed
    }

    /// Nominal duration of one frame, in nanoseconds.
    pub fn interval_nanos(&self) -> (nanos: u64)
        ensures
            nanos == self@.interval_nanos,
    {
        self.interval_nanos
    }

    /// Number of remote candidates that wait for the remote description.
    pub fn pending_remote_candidates(&self) -> (count: usize)
        ensures
            count == self@.pending_remote.len(),
    {
        self.pending_remote.len()
    }

    /// Number of local candidates that wait for the offer to be sent.
    pub fn pending_local_candidates(&self) -> (count: usize)
        ensures
            count == self@.pending_local.len(),
    {
        self.pending_local.len()
    }

    /// Takes one event and returns what is to be done about it.
    pub fn step(&mut self, event: Event) -> (actions: Vec<Action>)
        requires
            old(self).wf(),
        ensures
            final(self).wf(),
            final(self)@ == next(old(self)@, event),
            actions@ == output(old(self)@, event),
    {
        if self.closed {
            return Vec::new();
        }
        if check_terminal(&event) {
            self.closed = true;
            return teardown_actions();
        }
        let mut actions: Vec<Action> = Vec::new();
        match event {
            Event::OfferReady { sdp } => {
                if self.phase == Phase::New {
                    actions.push(Action::Send { message: SignalingMessage::Offer { sdp } });
                    push_sends(&mut actions, &self.pending_local);
                    self.pending_local = Vec::new();
                    self.phase = Phase::OfferSent;
                } else {
                    actions.push(Action::Warn { warning: Warning::UnexpectedOffer });
                }
            },
            Event::LocalCandidate { candidate } => {
                if self.phase == Phase::New {
                    self.pending_local.push(candidate);
                } else {
                    actions.push(
                        Action::Send {
                            message: SignalingMessage::Ice {
                                candidate: candidate.candidate,
                                sdp_mid: candidate.sdp_mid,
                                sdp_m_line_index: candidate.sdp_m_line_index,
                            },
                        },
                    );
                }
            },
            Event::Message { inbound } => {
                match inbound {
                    Inbound::Signaling { message } => {
                        match message {
                            SignalingMessage::Offer { sdp } => {},
                            SignalingMessage::Answer { sdp } => {
                                if self.phase == Phase::OfferSent {
                                    actions.push(Action::SetRemoteDescription { sdp });
                                    self.phase = Phase::AnswerPending;
                                } else {
                                    actions.push(
                                        Action::Warn { warning: Warning::UnexpectedAnswer },
                                    );
                                }
                            },
                            SignalingMessage::Ice { candidate, sdp_mid, sdp_m_line_index } => {
                                let c = IceCandidate { candidate, sdp_mid, sdp_m_line_index };
                                if c.line_index() < self.media_sections {
                                    if self.phase == Phase::Established {
                                        actions.push(Action::AddIceCandidate { candidate: c });
                                    } else {
                                        self.pending_remote.push(c);
                                    }
                                }
                            },
                        }
                    },
                    Inbound::Input { event } => {
                        actions.push(Action::Inject { event });
                    },
                    Inbound::Unknown => {
                        actions.push(Action::Warn { warning: Warning::UnknownMessage });
                    },
                }
            },
            Event::RemoteDescription { installed } => {
                if self.phase == Phase::AnswerPending {
                    if installed {
                        push_adds(&mut actions, &self.pending_remote);
                        self.pending_remote = Vec::new();
                        self.phase = Phase::Established;
                    } else {
                        actions.push(Action::Warn { warning: Warning::AnswerRejected });
                        self.phase = Phase::OfferSent;
                    }
                }
            },
            Event::PeerStateChanged { peer } => {
                if peer == PeerState::Disconnected {
                    actions.push(Action::Warn { warning: Warning::PeerDisconnected });
                }
            },
            Event::IceStateChanged { ice } => {
                if ice == IceState::Disconnected {
                    actions.push(Action::Warn { warning: Warning::IceDisconnected });
                }
            },
            Event::Encoded { unit, elapsed_nanos } => {
                match unit {
                    Some(data) => {
                        if bytes_len(&data) > 0 && self.phase != Phase::New {
                            let pts: u64 = if elapsed_nanos >= self.last_pts {
                                elapsed_nanos
                            } else {
                                self.last_pts
                            };
                            self.last_pts = pts;
                            actions.push(
                                Action::SendSample {
                                    data,
                                    duration_nanos: self.interval_nanos,
                                    pts_nanos: pts,
                                },
                            );
                        }
                    },
                    None => {},
                }
            },
            Event::OtherFrame => {},
            Event::TransportClosed => {},
            Event::MediaFailed => {},
        }
        assert(actions@ =~= output(old(self)@, event));
        assert(self@.pending_local =~= next(old(self)@, event).pending_local);
        assert(self@.pending_remote =~= next(old(self)@, event).pending_remote);
        actions
    }
}

} // verus!
