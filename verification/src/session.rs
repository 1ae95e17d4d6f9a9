//! A viewer's session: how it is joined to a stream's tee, what its signaling events ask
//! for, and how it is taken down again.
use vstd::prelude::*;
use vstd::string::*;

use crate::pipeline;
use crate::pipeline::{Stream, StreamHandle};
use crate::signaling::{Signal, SignalingMessage};
use crate::text;

verus! {

/// One step of opening a session. `queue` and `webrtcbin` are the session's own elements.
#[derive(Debug)]
pub enum SessionStep {
    /// Make the queue.
    MakeQueue,
    /// Make the webrtcbin, with this name and these properties.
    MakeWebrtcbin { name: String, bundle_policy: String, stun_server: String },
    /// Add both elements to the pipeline.
    AddElements,
    /// Request a pad of this template from the tee of this name.
    RequestTeePad { tee: String, template: String },
    /// Link the tee's pad to the queue.
    LinkTeeToQueue,
    /// Link the queue to the webrtcbin.
    LinkQueueToWebrtcbin,
    /// From now on send each ICE candidate that the webrtcbin finds to the browser.
    WatchIceCandidates,
    /// Bring the queue into the state of the pipeline.
    SyncQueue,
    /// Bring the webrtcbin into the state of the pipeline.
    SyncWebrtcbin,
    /// Have the webrtcbin create an offer.
    CreateOffer,
    /// From now on act on each message that comes from the browser.
    ReceiveMessages,
}

/// What a step of opening a session says.
pub enum Step {
    MakeQueue,
    MakeWebrtcbin { name: Seq<char>, bundle_policy: Seq<char>, stun_server: Seq<char> },
    AddElements,
    RequestTeePad { tee: Seq<char>, template: Seq<char> },
    LinkTeeToQueue,
    LinkQueueToWebrtcbin,
    WatchIceCandidates,
    SyncQueue,
    SyncWebrtcbin,
    CreateOffer,
    ReceiveMessages,
}

impl View for SessionStep {
    type V = Step;

    open spec fn view(&self) -> Step {
        match self {
            SessionStep::MakeQueue => Step::MakeQueue,
            SessionStep::MakeWebrtcbin { name, bundle_policy, stun_server } => Step::MakeWebrtcbin {
                name: name@,
                bundle_policy: bundle_policy@,
                stun_server: stun_server@,
            },
            SessionStep::AddElements => Step::AddElements,
            SessionStep::RequestTeePad { tee, template } => Step::RequestTeePad {
                tee: tee@,
                template: template@,
            },
            SessionStep::LinkTeeToQueue => Step::LinkTeeToQueue,
            SessionStep::LinkQueueToWebrtcbin => Step::LinkQueueToWebrtcbin,
            SessionStep::WatchIceCandidates => Step::WatchIceCandidates,
            SessionStep::SyncQueue => Step::SyncQueue,
            SessionStep::SyncWebrtcbin => Step::SyncWebrtcbin,
            SessionStep::CreateOffer => Step::CreateOffer,
            SessionStep::ReceiveMessages => Step::ReceiveMessages,
        }
    }
}

/// What the steps say, in their order.
pub open spec fn steps(plan: Seq<SessionStep>) -> Seq<Step> {
    plan.map_values(|s: SessionStep| s@)
}

/// The name of the webrtcbin of a session on stream `stream_index`.
pub open spec fn webrtcbin_name(stream_index: nat, session_id: nat) -> Seq<char> {
    "webrtc-"@ + text::decimal(stream_index) + "-"@ + text::decimal(session_id)
}

/// How a session is opened on a stream.
pub open spec fn opening_steps(stream: Stream, session_id: nat) -> Seq<Step> {
    seq![
        Step::MakeQueue,
        Step::MakeWebrtcbin {
            name: webrtcbin_name(stream.stream_index, session_id),
            bundle_policy: "max-bundle"@,
            stun_server: stream.stun_server,
        },
        Step::AddElements,
        Step::RequestTeePad { tee: stream.tee, template: "src_%u"@ },
        Step::LinkTeeToQueue,
        Step::LinkQueueToWebrtcbin,
        Step::WatchIceCandidates,
        Step::SyncQueue,
        Step::SyncWebrtcbin,
        Step::CreateOffer,
        Step::ReceiveMessages,
    ]
}

/// One step of closing a session.
#[derive(Debug, Clone, Copy, PartialEq, Eq, Structural)]
pub enum ClosingStep {
    /// Bring the queue to a stop.
    StopQueue,
    /// Bring the webrtcbin to a stop.
    StopWebrtcbin,
    /// Unlink the tee's pad from the queue.
    UnlinkTee,
    /// Give the tee's pad back.
    ReleaseTeePad,
    /// Remove the queue from the pipeline.
    RemoveQueue,
    /// Remove the webrtcbin from the pipeline.
    RemoveWebrtcbin,
}

/// How a session is closed: its elements are stopped, the tee's pad is unlinked and given
/// back, and the elements are removed. A queue without a sink pad has nothing to unlink,
/// and a pad whose tee is gone cannot be given back.
pub open spec fn closing_steps(queue_has_sink: bool, pad_has_tee: bool) -> Seq<ClosingStep> {
    seq![ClosingStep::StopQueue, ClosingStep::StopWebrtcbin] + (if queue_has_sink {
        seq![ClosingStep::UnlinkTee]
    } else {
        Seq::empty()
    }) + (if pad_has_tee {
        seq![ClosingStep::ReleaseTeePad]
    } else {
        Seq::empty()
    }) + seq![ClosingStep::RemoveQueue, ClosingStep::RemoveWebrtcbin]
}

/// Stands for an open session. Whoever holds it closes the session when done.
#[derive(Debug)]
pub struct SessionGuard {
    /// The place of the session's stream among all streams.
    pub stream_index: usize,
    /// The number of the session.
    pub session_id: u64,
}

/// Numbers the sessions of a server in the order in which they begin.
#[derive(Debug)]
pub struct SessionCounter {
    /// The number of the session that begins next.
    pub next: u64,
}

/// The number that follows `n`. After the largest one the numbers start again.
pub open spec fn next_number(n: nat) -> nat {
    if n == u64::MAX {
        0
    } else {
        n + 1
    }
}

/// The number that a new counter gives to the session before which `k` others have begun.
pub open spec fn session_number(k: nat) -> nat
    decreases k,
{
    if k == 0 {
        0
    } else {
        next_number(session_number((k - 1) as nat))
    }
}

impl SessionCounter {
    /// A counter that has numbered no session yet.
    pub fn new() -> (r: Self)
        ensures
            r.next == session_number(0),
            r.next == 0,
    {
        SessionCounter { next: 0 }
    }

    /// The number of a session that begins now.
    pub fn take(&mut self) -> (r: u64)
        ensures
            r == old(self).next,
            final(self).next == next_number(old(self).next as nat),
            old(self).next < u64::MAX ==> final(self).next == old(self).next + 1,
            old(self).next == u64::MAX ==> final(self).next == 0,
    {
        let number = self.next;
        self.next = number.wrapping_add(1);
        number
    }
}

impl StreamHandle {
    /// Begins a session on this stream: the steps that open it, and the guard that closes
    /// it. The session gets the next number of `counter`.
    pub fn new_session(&self, counter: &mut SessionCounter) -> (r: (
        Vec<SessionStep>,
        SessionGuard,
    ))
        ensures
            steps(r.0@) == opening_steps(self@, old(counter).next as nat),
            r.1.stream_index == self.stream_index,
            r.1.session_id == old(counter).next,
            final(counter).next == next_number(old(counter).next as nat),
            r.0@.len() == 11,
            r.0@[0] is MakeQueue,
            r.0@[1] matches SessionStep::MakeWebrtcbin { name, bundle_policy, stun_server } && name@
                == "webrtc-"@ + text::decimal(self.stream_index as nat) + "-"@ + text::decimal(
                old(counter).next as nat,
            ) && bundle_policy@ == "max-bundle"@ && stun_server@ == self.stun_server@,
            r.0@[2] is AddElements,
            r.0@[3] matches SessionStep::RequestTeePad { tee, template } && tee@ == self.tee@
                && template@ == "src_%u"@,
            r.0@[4] is LinkTeeToQueue,
            r.0@[5] is LinkQueueToWebrtcbin,
            r.0@[6] is WatchIceCandidates,
            r.0@[7] is SyncQueue,
            r.0@[8] is SyncWebrtcbin,
            r.0@[9] is CreateOffer,
            r.0@[10] is ReceiveMessages,
    {
        let session_id = counter.take();
        let mut name = "webrtc-".to_owned();
        name.append(text::decimal_text(self.stream_index as u64).as_str());
        name.append("-");
        name.append(text::decimal_text(session_id).as_str());
        let mut plan: Vec<SessionStep> = Vec::new();
        plan.push(SessionStep::MakeQueue);
        plan.push(
            SessionStep::MakeWebrtcbin {
                name,
                bundle_policy: "max-bundle".to_owned(),
                stun_server: self.stun_server.clone(),
            },
        );
        plan.push(SessionStep::AddElements);
        plan.push(
            SessionStep::RequestTeePad { tee: self.tee.clone(), template: "src_%u".to_owned() },
        );
        plan.push(SessionStep::LinkTeeToQueue);
        plan.push(SessionStep::LinkQueueToWebrtcbin);
        plan.push(SessionStep::WatchIceCandidates);
        plan.push(SessionStep::SyncQueue);
        plan.push(SessionStep::SyncWebrtcbin);
        plan.push(SessionStep::CreateOffer);
        plan.push(SessionStep::ReceiveMessages);
        assert(steps(plan@) =~= opening_steps(self@, session_id as nat));
        (plan, SessionGuard { stream_index: self.stream_index, session_id })
    }
}

impl SessionGuard {
    /// The steps that close the session. `queue_has_sink` says whether the queue has a sink
    /// pad, `pad_has_tee` whether the tee still owns the requested pad.
    pub fn closing(&self, queue_has_sink: bool, pad_has_tee: bool) -> (r: Vec<ClosingStep>)
        ensures
            r@ == closing_steps(queue_has_sink, pad_has_tee),
            queue_has_sink && pad_has_tee ==> r@ == seq![
                ClosingStep::StopQueue,
                ClosingStep::StopWebrtcbin,
                ClosingStep::UnlinkTee,
                ClosingStep::ReleaseTeePad,
                ClosingStep::RemoveQueue,
                ClosingStep::RemoveWebrtcbin,
            ],
            queue_has_sink && !pad_has_tee ==> r@ == seq![
                ClosingStep::StopQueue,
                ClosingStep::StopWebrtcbin,
                ClosingStep::UnlinkTee,
                ClosingStep::RemoveQueue,
                ClosingStep::RemoveWebrtcbin,
            ],
            !queue_has_sink && pad_has_tee ==> r@ == seq![
                ClosingStep::StopQueue,
                ClosingStep::StopWebrtcbin,
                ClosingStep::ReleaseTeePad,
                ClosingStep::RemoveQueue,
                ClosingStep::RemoveWebrtcbin,
            ],
            !queue_has_sink && !pad_has_tee ==> r@ == seq![
                ClosingStep::StopQueue,
                ClosingStep::StopWebrtcbin,
                ClosingStep::RemoveQueue,
                ClosingStep::RemoveWebrtcbin,
            ],
    {
        let mut plan: Vec<ClosingStep> = Vec::new();
        plan.push(ClosingStep::StopQueue);
        plan.push(ClosingStep::StopWebrtcbin);
        if queue_has_sink {
            plan.push(ClosingStep::UnlinkTee);
        }
        if pad_has_tee {
            plan.push(ClosingStep::ReleaseTeePad);
        }
        plan.push(ClosingStep::RemoveQueue);
        plan.push(ClosingStep::RemoveWebrtcbin);
        plan
    }
}

/// The message that tells the browser of an ICE candidate.
pub fn ice_candidate_message(sdp_m_line_index: u32, candidate: String) -> (r: SignalingMessage)
    ensures
        r@ == (Signal::Ice {
            candidate: candidate@,
            sdp_m_line_index: sdp_m_line_index as nat,
        }),
        r matches SignalingMessage::Ice { candidate: c, sdp_m_line_index: m } && c == candidate && m
            == sdp_m_line_index,
{
    SignalingMessage::Ice { candidate, sdp_m_line_index }
}

/// What comes back from the request for an offer.
#[derive(Debug)]
pub enum OfferReply {
    /// The offer, as session description text.
    Created(String),
    /// A reply without content.
    Empty,
    /// The request was interrupted or has expired.
    Interrupted,
}

/// Why no offer is sent.
#[derive(Debug, Clone, Copy, PartialEq, Eq, Structural)]
pub enum OfferError {
    NoReply,
    Interrupted,
}

/// The message to send to the browser on the reply to the request for an offer.
pub fn offer_message(reply: OfferReply) -> (r: Result<SignalingMessage, OfferError>)
    ensures
        match reply {
            OfferReply::Created(sdp) => r matches Ok(m) && m@ == (Signal::Offer { sdp: sdp@ }),
            OfferReply::Empty => r matches Err(e) && e == OfferError::NoReply,
            OfferReply::Interrupted => r matches Err(e) && e == OfferError::Interrupted,
        },
        match reply {
            OfferReply::Created(sdp) => r matches Ok(SignalingMessage::Offer { sdp: s }) && s
                == sdp,
            _ => r is Err,
        },
{
    match reply {
        OfferReply::Created(sdp) => Ok(SignalingMessage::Offer { sdp }),
        OfferReply::Empty => Err(OfferError::NoReply),
        OfferReply::Interrupted => Err(OfferError::Interrupted),
    }
}

/// Something that the session's webrtcbin reports.
#[derive(Debug)]
pub enum WebrtcbinEvent {
    /// It has found an ICE candidate.
    IceCandidate { sdp_m_line_index: u32, candidate: String },
    /// The request for an offer has come back.
    OfferReply(OfferReply),
}

/// What an event of the webrtcbin says.
pub enum Report {
    IceCandidate { sdp_m_line_index: nat, candidate: Seq<char> },
    OfferCreated { sdp: Seq<char> },
    OfferEmpty,
    OfferInterrupted,
}

impl View for WebrtcbinEvent {
    type V = Report;

    open spec fn view(&self) -> Report {
        match self {
            WebrtcbinEvent::IceCandidate { sdp_m_line_index, candidate } => Report::IceCandidate {
                sdp_m_line_index: *sdp_m_line_index as nat,
                candidate: candidate@,
            },
            WebrtcbinEvent::OfferReply(OfferReply::Created(sdp)) => Report::OfferCreated {
                sdp: sdp@,
            },
            WebrtcbinEvent::OfferReply(OfferReply::Empty) => Report::OfferEmpty,
            WebrtcbinEvent::OfferReply(OfferReply::Interrupted) => Report::OfferInterrupted,
        }
    }
}

/// What to do on an event of the webrtcbin.
#[derive(Debug)]
pub enum OutgoingAction {
    /// Set the created offer as the webrtcbin's local description.
    SetLocalDescription,
    /// Send this message to the browser.
    Send(SignalingMessage),
}

/// What an action on an event of the webrtcbin says.
pub enum Outgoing {
    SetLocalDescription,
    Send(Signal),
}

impl View for OutgoingAction {
    type V = Outgoing;

    open spec fn view(&self) -> Outgoing {
        match self {
            OutgoingAction::SetLocalDescription => Outgoing::SetLocalDescription,
            OutgoingAction::Send(m) => Outgoing::Send(m@),
        }
    }
}

/// What the actions say, in their order.
pub open spec fn outgoing(actions: Seq<OutgoingAction>) -> Seq<Outgoing> {
    actions.map_values(|a: OutgoingAction| a@)
}

/// What is done on a report, in order. A candidate is announced. A created offer is set as
/// the local description and then sent. Where there is no offer, nothing is done.
pub open spec fn report_actions(report: Report) -> Seq<Outgoing> {
    match report {
        Report::IceCandidate { sdp_m_line_index, candidate } => seq![
            Outgoing::Send(Signal::Ice { candidate, sdp_m_line_index }),
        ],
        Report::OfferCreated { sdp } => seq![
            Outgoing::SetLocalDescription,
            Outgoing::Send(Signal::Offer { sdp }),
        ],
        Report::OfferEmpty => Seq::empty(),
        Report::OfferInterrupted => Seq::empty(),
    }
}

/// What to do, in order, on an event of the webrtcbin.
pub fn webrtcbin_actions(event: WebrtcbinEvent) -> (r: Vec<OutgoingAction>)
    ensures
        outgoing(r@) == report_actions(event@),
        match event {
            WebrtcbinEvent::IceCandidate { sdp_m_line_index, candidate } => r@.len() == 1 && (
            r@[0] matches OutgoingAction::Send(
                SignalingMessage::Ice { candidate: c, sdp_m_line_index: m },
            ) && c == candidate && m == sdp_m_line_index),
            WebrtcbinEvent::OfferReply(OfferReply::Created(sdp)) => r@.len() == 2 && r@[0]
                is SetLocalDescription && (r@[1] matches OutgoingAction::Send(
                SignalingMessage::Offer { sdp: s },
            ) && s == sdp),
            WebrtcbinEvent::OfferReply(_) => r@.len() == 0,
        },
{
    let mut actions: Vec<OutgoingAction> = Vec::new();
    match event {
        WebrtcbinEvent::IceCandidate { sdp_m_line_index, candidate } => {
            actions.push(OutgoingAction::Send(ice_candidate_message(sdp_m_line_index, candidate)));
        },
        WebrtcbinEvent::OfferReply(reply) => {
            match offer_message(reply) {
                Ok(message) => {
                    actions.push(OutgoingAction::SetLocalDescription);
                    actions.push(OutgoingAction::Send(message));
                },
                Err(_) => {},
            }
        },
    }
    assert(outgoing(actions@) =~= report_actions(event@));
    actions
}

/// What is done on the reports of one session's webrtcbin, in order.
pub open spec fn session_actions(reports: Seq<Report>) -> Seq<Outgoing>
    decreases reports.len(),
{
    if reports.len() == 0 {
        Seq::empty()
    } else {
        session_actions(reports.drop_last()) + report_actions(reports.last())
    }
}

/// The messages that the actions send to the browser, in order.
pub open spec fn messages_sent(actions: Seq<Outgoing>) -> Seq<Signal>
    decreases actions.len(),
{
    if actions.len() == 0 {
        Seq::empty()
    } else {
        match actions.last() {
            Outgoing::Send(m) => messages_sent(actions.drop_last()).push(m),
            Outgoing::SetLocalDescription => messages_sent(actions.drop_last()),
        }
    }
}

/// The ICE messages among `messages`, in order.
pub open spec fn ice_messages(messages: Seq<Signal>) -> Seq<Signal> {
    messages.filter(|m: Signal| m is Ice)
}

/// The offers among `messages`, in order.
pub open spec fn offers(messages: Seq<Signal>) -> Seq<Signal> {
    messages.filter(|m: Signal| m is Offer)
}

/// One ICE message for each candidate among `reports`, in order, with its text and index.
pub open spec fn announcements(reports: Seq<Report>) -> Seq<Signal>
    decreases reports.len(),
{
    if reports.len() == 0 {
        Seq::empty()
    } else {
        match reports.last() {
            Report::IceCandidate { sdp_m_line_index, candidate } => announcements(
                reports.drop_last(),
            ).push(Signal::Ice { candidate, sdp_m_line_index }),
            _ => announcements(reports.drop_last()),
        }
    }
}

/// One offer for each offer that was created, in order, with its text.
pub open spec fn created_offers(reports: Seq<Report>) -> Seq<Signal>
    decreases reports.len(),
{
    if reports.len() == 0 {
        Seq::empty()
    } else {
        match reports.last() {
            Report::OfferCreated { sdp } => created_offers(reports.drop_last()).push(
                Signal::Offer { sdp },
            ),
            _ => created_offers(reports.drop_last()),
        }
    }
}

/// What a message from the browser asks of the session's webrtcbin.
#[derive(Debug)]
pub enum PeerAction {
    /// Parse this answer and set it as the remote description.
    SetRemoteDescription { sdp: String },
    /// Add this ICE candidate.
    AddIceCandidate { sdp_m_line_index: u32, candidate: String },
    /// Nothing.
    Ignore,
}

/// What to do on a message from the browser. The offer is always the server's, so an offer
/// from the browser is ignored.
pub fn peer_action(message: SignalingMessage) -> (r: PeerAction)
    ensures
        match message@ {
            Signal::Answer { sdp } => r matches PeerAction::SetRemoteDescription { sdp: s } && s@
                == sdp,
            Signal::Ice {
                candidate,
                sdp_m_line_index,
            } => r matches PeerAction::AddIceCandidate { sdp_m_line_index: m, candidate: c } && m
                == sdp_m_line_index && c@ == candidate,
            Signal::Offer { .. } => r is Ignore,
        },
        match message {
            SignalingMessage::Answer {
                sdp,
            } => r matches PeerAction::SetRemoteDescription { sdp: s } && s == sdp,
            SignalingMessage::Ice {
                candidate,
                sdp_m_line_index,
            } => r matches PeerAction::AddIceCandidate { sdp_m_line_index: m, candidate: c } && m
                == sdp_m_line_index && c == candidate,
            SignalingMessage::Offer { .. } => r is Ignore,
        },
{
    match message {
        SignalingMessage::Answer { sdp } => PeerAction::SetRemoteDescription { sdp },
        SignalingMessage::Ice { candidate, sdp_m_line_index } => PeerAction::AddIceCandidate {
            sdp_m_line_index,
            candidate,
        },
        SignalingMessage::Offer { .. } => PeerAction::Ignore,
    }
}

/// What a session holds of the pipeline while it is open.
pub enum Resource {
    /// The queue is an element of the pipeline.
    QueueMember,
    /// The webrtcbin is an element of the pipeline.
    WebrtcbinMember,
    /// A requested pad of the tee.
    TeePad,
    /// The link from that pad to the queue.
    TeeLink,
    /// The link from the queue to the webrtcbin.
    QueueLink,
    /// The queue is running.
    QueueRunning,
    /// The webrtcbin is running.
    WebrtcbinRunning,
}

/// What all open sessions hold, each resource with the number of its session.
pub type Holdings = Set<(nat, Resource)>;

/// What session `id` must hold before an opening step.
pub open spec fn opening_step_ready(held: Holdings, id: nat, step: Step) -> bool {
    match step {
        Step::LinkTeeToQueue => held.contains((id, Resource::TeePad)) && held.contains(
            (id, Resource::QueueMember),
        ),
        Step::LinkQueueToWebrtcbin => held.contains((id, Resource::QueueMember)) && held.contains(
            (id, Resource::WebrtcbinMember),
        ),
        Step::SyncQueue => held.contains((id, Resource::QueueMember)),
        Step::SyncWebrtcbin => held.contains((id, Resource::WebrtcbinMember)),
        Step::CreateOffer => held.contains((id, Resource::WebrtcbinRunning)),
        _ => true,
    }
}

/// What is held after session `id` has taken an opening step.
pub open spec fn after_opening_step(held: Holdings, id: nat, step: Step) -> Holdings {
    match step {
        Step::AddElements => held.insert((id, Resource::QueueMember)).insert(
            (id, Resource::WebrtcbinMember),
        ),
        Step::RequestTeePad { .. } => held.insert((id, Resource::TeePad)),
        Step::LinkTeeToQueue => held.insert((id, Resource::TeeLink)),
        Step::LinkQueueToWebrtcbin => held.insert((id, Resource::QueueLink)),
        Step::SyncQueue => held.insert((id, Resource::QueueRunning)),
        Step::SyncWebrtcbin => held.insert((id, Resource::WebrtcbinRunning)),
        _ => held,
    }
}

/// What is held after session `id` has taken the first `n` of the opening steps `plan`.
pub open spec fn after_opening(held: Holdings, id: nat, plan: Seq<Step>, n: nat) -> Holdings
    decreases n,
{
    if n == 0 {
        held
    } else {
        after_opening_step(after_opening(held, id, plan, (n - 1) as nat), id, plan[n - 1])
    }
}

/// What session `id` must hold, or must hold no more, before a closing step: only what is
/// linked is unlinked, only an unlinked pad is given back, only a stopped element is
/// removed.
pub open spec fn closing_step_ready(held: Holdings, id: nat, step: ClosingStep) -> bool {
    match step {
        ClosingStep::StopQueue => held.contains((id, Resource::QueueMember)),
        ClosingStep::StopWebrtcbin => held.contains((id, Resource::WebrtcbinMember)),
        ClosingStep::UnlinkTee => held.contains((id, Resource::TeeLink)),
        ClosingStep::ReleaseTeePad => held.contains((id, Resource::TeePad)) && !held.contains(
            (id, Resource::TeeLink),
        ),
        ClosingStep::RemoveQueue => held.contains((id, Resource::QueueMember)) && !held.contains(
            (id, Resource::QueueRunning),
        ),
        ClosingStep::RemoveWebrtcbin => held.contains((id, Resource::WebrtcbinMember))
            && !held.contains((id, Resource::WebrtcbinRunning)),
    }
}

/// What is held after session `id` has taken a closing step. An element that leaves the
/// pipeline loses its links.
pub open spec fn after_closing_step(held: Holdings, id: nat, step: ClosingStep) -> Holdings {
    match step {
        ClosingStep::StopQueue => held.remove((id, Resource::QueueRunning)),
        ClosingStep::StopWebrtcbin => held.remove((id, Resource::WebrtcbinRunning)),
        ClosingStep::UnlinkTee => held.remove((id, Resource::TeeLink)),
        ClosingStep::ReleaseTeePad => held.remove((id, Resource::TeePad)),
        ClosingStep::RemoveQueue => held.remove((id, Resource::QueueMember)).remove(
            (id, Resource::QueueLink),
        ).remove((id, Resource::TeeLink)),
        ClosingStep::RemoveWebrtcbin => held.remove((id, Resource::WebrtcbinMember)).remove(
            (id, Resource::QueueLink),
        ),
    }
}

/// What is held after session `id` has taken the first `n` of the closing steps `plan`.
pub open spec fn after_closing(held: Holdings, id: nat, plan: Seq<ClosingStep>, n: nat) -> Holdings
    decreases n,
{
    if n == 0 {
        held
    } else {
        after_closing_step(after_closing(held, id, plan, (n - 1) as nat), id, plan[n - 1])
    }
}

/// Session `id` holds everything that a session can hold, and the others hold what they
/// held.
pub open spec fn fully_open(before: Holdings, id: nat) -> Holdings {
    Set::new(|e: (nat, Resource)| e.0 == id || before.contains(e))
}

/// A session on stream `i` of a pipeline takes its one pad from the tee of that stream.
pub proof fn law_session_joins_own_tee(i: nat, stun_server: Seq<char>, session_id: nat)
    ensures
        ({
            let plan = opening_steps(pipeline::stream(i, stun_server), session_id);
            &&& plan[3] == (Step::RequestTeePad {
                tee: pipeline::tee_name(i),
                template: "src_%u"@,
            })
            &&& forall|k: int|
                0 <= k < plan.len() && (#[trigger] plan[k]) is RequestTeePad ==> k == 3
        }),
{
}

/// Each opening step finds what it needs, and when all are taken the session holds every
/// resource while nothing has changed for the other sessions.
pub proof fn law_opening(held: Holdings, stream: Stream, id: nat)
    ensures
        forall|n: nat|
            n < opening_steps(stream, id).len() ==> opening_step_ready(
                #[trigger] after_opening(held, id, opening_steps(stream, id), n),
                id,
                opening_steps(stream, id)[n as int],
            ),
        after_opening(
            held,
            id,
            opening_steps(stream, id),
            opening_steps(stream, id).len(),
        ) == fully_open(held, id),
{
    let plan = opening_steps(stream, id);
    reveal_with_fuel(after_opening, 12);
    assert forall|n: nat| n < plan.len() implies opening_step_ready(
        #[trigger] after_opening(held, id, plan, n),
        id,
        plan[n as int],
    ) by {
        assert(n == 0 || n == 1 || n == 2 || n == 3 || n == 4 || n == 5 || n == 6 || n == 7 || n
            == 8 || n == 9 || n == 10);
    }
    let end = after_opening(held, id, plan, 11);
    assert forall|e: (nat, Resource)| end.contains(e) == fully_open(held, id).contains(e) by {
        match e.1 {
            Resource::QueueMember => {},
            Resource::WebrtcbinMember => {},
            Resource::TeePad => {},
            Resource::TeeLink => {},
            Resource::QueueLink => {},
            Resource::QueueRunning => {},
            Resource::WebrtcbinRunning => {},
        }
    }
    assert(end =~= fully_open(held, id));
}

/// Closing undoes opening: each closing step finds what it needs, and when all are taken
/// the pipeline is as it was before the session, whatever other sessions hold.
pub proof fn law_closing_undoes_opening(held: Holdings, id: nat)
    requires
        forall|r: Resource| !held.contains((id, r)),
    ensures
        forall|n: nat|
            n < closing_steps(true, true).len() ==> closing_step_ready(
                #[trigger] after_closing(fully_open(held, id), id, closing_steps(true, true), n),
                id,
                closing_steps(true, true)[n as int],
            ),
        after_closing(
            fully_open(held, id),
            id,
            closing_steps(true, true),
            closing_steps(true, true).len(),
        ) == held,
{
    let plan = closing_steps(true, true);
    let open = fully_open(held, id);
    reveal_with_fuel(after_closing, 7);
    assert forall|n: nat| n < plan.len() implies closing_step_ready(
        #[trigger] after_closing(open, id, plan, n),
        id,
        plan[n as int],
    ) by {
        assert(n == 0 || n == 1 || n == 2 || n == 3 || n == 4 || n == 5);
    }
    let end = after_closing(open, id, plan, 6);
    assert forall|e: (nat, Resource)| end.contains(e) == held.contains(e) by {
        if e.0 == id {
            match e.1 {
                Resource::QueueMember => {},
                Resource::WebrtcbinMember => {},
                Resource::TeePad => {},
                Resource::TeeLink => {},
                Resource::QueueLink => {},
                Resource::QueueRunning => {},
                Resource::WebrtcbinRunning => {},
            }
            assert(!held.contains((id, e.1)));
        }
    }
    assert(end =~= held);
}

/// A session leaves no trace: opening it and closing it again gives the pipeline back as it
/// was.
pub proof fn law_session_leaves_no_trace(held: Holdings, stream: Stream, id: nat)
    requires
        forall|r: Resource| !held.contains((id, r)),
    ensures
        after_closing(
            after_opening(
                held,
                id,
                opening_steps(stream, id),
                opening_steps(stream, id).len(),
            ),
            id,
            closing_steps(true, true),
            closing_steps(true, true).len(),
        ) == held,
{
    law_opening(held, stream, id);
    law_closing_undoes_opening(held, id);
}

/// The messages of two rows of actions are those of the first and then those of the second.
proof fn lemma_messages_sent_concat(a: Seq<Outgoing>, b: Seq<Outgoing>)
    ensures
        messages_sent(a + b) == messages_sent(a) + messages_sent(b),
    decreases b.len(),
{
    if b.len() == 0 {
        assert(a + b =~= a);
    } else {
        lemma_messages_sent_concat(a, b.drop_last());
        assert((a + b).drop_last() =~= a + b.drop_last());
    }
}

/// What one more report adds to the messages of a session.
proof fn lemma_messages_of_last_report(reports: Seq<Report>)
    requires
        reports.len() > 0,
    ensures
        messages_sent(session_actions(reports)) == messages_sent(
            session_actions(reports.drop_last()),
        ) + (match reports.last() {
            Report::IceCandidate { sdp_m_line_index, candidate } => seq![
                Signal::Ice { candidate, sdp_m_line_index },
            ],
            Report::OfferCreated { sdp } => seq![Signal::Offer { sdp }],
            Report::OfferEmpty => Seq::empty(),
            Report::OfferInterrupted => Seq::empty(),
        }),
{
    let added = report_actions(reports.last());
    lemma_messages_sent_concat(session_actions(reports.drop_last()), added);
    reveal_with_fuel(messages_sent, 3);
    match reports.last() {
        Report::IceCandidate { sdp_m_line_index, candidate } => {
            assert(added.drop_last() =~= Seq::<Outgoing>::empty());
            assert(messages_sent(added) =~= seq![Signal::Ice { candidate, sdp_m_line_index }]);
        },
        Report::OfferCreated { sdp } => {
            assert(added.drop_last() =~= seq![Outgoing::SetLocalDescription]);
            assert(added.drop_last().drop_last() =~= Seq::<Outgoing>::empty());
            assert(messages_sent(added) =~= seq![Signal::Offer { sdp }]);
        },
        Report::OfferEmpty => {},
        Report::OfferInterrupted => {},
    }
}

/// Filtering a row with one more message at its end.
proof fn lemma_filter_push(messages: Seq<Signal>, m: Signal, keep: spec_fn(Signal) -> bool)
    ensures
        (messages + seq![m]).filter(keep) == (if keep(m) {
            messages.filter(keep).push(m)
        } else {
            messages.filter(keep)
        }),
{
    reveal(Seq::filter);
    assert((messages + seq![m]).drop_last() =~= messages);
}

/// Every ICE candidate of a session, and nothing else, is announced to its browser: one
/// message each, in the order in which they were found, with their texts unchanged. Every
/// created offer is sent likewise, and no answer is ever sent.
pub proof fn law_session_messages(reports: Seq<Report>)
    ensures
        ice_messages(messages_sent(session_actions(reports))) == announcements(reports),
        offers(messages_sent(session_actions(reports))) == created_offers(reports),
        forall|i: int|
            0 <= i < messages_sent(session_actions(reports)).len() ==> !((
            #[trigger] messages_sent(session_actions(reports))[i]) is Answer),
    decreases reports.len(),
{
    let sent = messages_sent(session_actions(reports));
    if reports.len() == 0 {
        reveal(Seq::filter);
        assert(sent =~= Seq::<Signal>::empty());
    } else {
        let before = messages_sent(session_actions(reports.drop_last()));
        law_session_messages(reports.drop_last());
        lemma_messages_of_last_report(reports);
        match reports.last() {
            Report::IceCandidate { sdp_m_line_index, candidate } => {
                let m = Signal::Ice { candidate, sdp_m_line_index };
                lemma_filter_push(before, m, |m: Signal| m is Ice);
                lemma_filter_push(before, m, |m: Signal| m is Offer);
            },
            Report::OfferCreated { sdp } => {
                let m = Signal::Offer { sdp };
                lemma_filter_push(before, m, |m: Signal| m is Ice);
                lemma_filter_push(before, m, |m: Signal| m is Offer);
            },
            Report::OfferEmpty => {
                assert(sent =~= before);
            },
            Report::OfferInterrupted => {
                assert(sent =~= before);
            },
        }
    }
}

/// An offer is sent only right after it has been set as the local description, and a local
/// description is set only for an offer that is sent next.
pub proof fn law_offer_set_before_sent(reports: Seq<Report>, i: int)
    requires
        0 <= i < session_actions(reports).len(),
    ensures
        session_actions(reports)[i] matches Outgoing::Send(Signal::Offer { .. }) ==> i > 0
            && session_actions(reports)[i - 1] is SetLocalDescription,
        session_actions(reports)[i] is SetLocalDescription ==> i + 1 < session_actions(
            reports,
        ).len() && session_actions(reports)[i + 1] matches Outgoing::Send(Signal::Offer { .. }),
    decreases reports.len(),
{
    let before = session_actions(reports.drop_last());
    if i < before.len() {
        law_offer_set_before_sent(reports.drop_last(), i);
    }
}

/// The first sessions that a counter numbers, as many as there are numbers, are numbered in
/// the order in which they begin.
pub proof fn law_sessions_numbered_in_order(k: nat)
    requires
        k <= u64::MAX,
    ensures
        session_number(k) == k,
    decreases k,
{
    if k > 0 {
        law_sessions_numbered_in_order((k - 1) as nat);
    }
}

/// No two sessions of a server give their webrtcbin the same name, whichever streams they
/// are on, as long as the numbers last. `begun` lists the streams of the sessions in the
/// order in which they begin.
pub proof fn law_session_names_distinct(begun: Seq<Stream>, a: nat, b: nat)
    requires
        a < begun.len(),
        b < begun.len(),
        a != b,
        begun.len() <= u64::MAX + 1,
    ensures
        webrtcbin_name(begun[a as int].stream_index, session_number(a)) != webrtcbin_name(
            begun[b as int].stream_index,
            session_number(b),
        ),
{
    law_sessions_numbered_in_order(a);
    law_sessions_numbered_in_order(b);
    let i = begun[a as int].stream_index;
    let j = begun[b as int].stream_index;
    if webrtcbin_name(i, a) == webrtcbin_name(j, b) {
        law_webrtcbin_name_injective(i, a, j, b);
    }
}

/// The name of a webrtcbin determines the stream and the number of its session.
pub proof fn law_webrtcbin_name_injective(i: nat, a: nat, j: nat, b: nat)
    requires
        webrtcbin_name(i, a) == webrtcbin_name(j, b),
    ensures
        i == j,
        a == b,
{
    reveal_strlit("webrtc-");
    reveal_strlit("-");
    let x = "-"@ + text::decimal(a);
    let y = "-"@ + text::decimal(b);
    assert(webrtcbin_name(i, a).skip(7) =~= text::decimal(i) + x);
    assert(webrtcbin_name(j, b).skip(7) =~= text::decimal(j) + y);
    text::law_decimal_prefix_code(i, j, x, y);
    assert(x.skip(1) =~= text::decimal(a));
    assert(y.skip(1) =~= text::decimal(b));
    text::law_decimal_injective(a, b);
}

/// Every session on a pipeline uses the STUN server that the pipeline was set up with: its
/// webrtcbin gets exactly this URL, on every stream, and no other step names one.
pub proof fn law_session_uses_stun_server(
    n: nat,
    stun_server: Seq<char>,
    i: int,
    session_id: nat,
    k: int,
)
    requires
        0 <= i < n,
        0 <= k < opening_steps(pipeline::first_streams(n, stun_server)[i], session_id).len(),
    ensures
        opening_steps(pipeline::first_streams(n, stun_server)[i], session_id)[1] is MakeWebrtcbin,
        opening_steps(
            pipeline::first_streams(n, stun_server)[i],
            session_id,
        )[k] matches Step::MakeWebrtcbin { stun_server: used, bundle_policy, .. } ==> k == 1 && used
            == stun_server && bundle_policy == "max-bundle"@,
{
}

/// The webrtcbin of a session is named after the place of its stream and the number of the
/// session: whoever reads the two numerals in the name gets both back.
pub proof fn law_webrtcbin_named_after_session(stream: Stream, session_id: nat)
    ensures
        opening_steps(stream, session_id)[1] matches Step::MakeWebrtcbin { name, .. } && exists|
            place: Seq<char>,
            number: Seq<char>,
        | #![trigger text::numeral_value(place), text::numeral_value(number)]
            name == "webrtc-"@ + place + "-"@ + number && text::numeral_value(place)
                == stream.stream_index && text::numeral_value(number) == session_id,
{
    text::law_decimal_value(stream.stream_index);
    text::law_decimal_value(session_id);
    let place = text::decimal(stream.stream_index);
    let number = text::decimal(session_id);
    assert(text::numeral_value(place) == stream.stream_index);
    assert(text::numeral_value(number) == session_id);
}

/// A session listens for ICE candidates before it runs and before it asks for an offer, and
/// it takes messages from the browser only after that.
pub proof fn law_opening_order(stream: Stream, session_id: nat, i: int, j: int)
    requires
        0 <= i < opening_steps(stream, session_id).len(),
        0 <= j < opening_steps(stream, session_id).len(),
    ensures
        ({
            let plan = opening_steps(stream, session_id);
            &&& plan[i] is WatchIceCandidates && plan[j] is SyncQueue ==> i < j
            &&& plan[i] is SyncQueue && plan[j] is SyncWebrtcbin ==> i < j
            &&& plan[i] is SyncWebrtcbin && plan[j] is CreateOffer ==> i < j
            &&& plan[i] is CreateOffer && plan[j] is ReceiveMessages ==> i < j
            &&& plan[i] is LinkTeeToQueue && plan[j] is LinkQueueToWebrtcbin ==> i < j
            &&& plan[i] is LinkQueueToWebrtcbin && plan[j] is WatchIceCandidates ==> i < j
            &&& plan.len() == 11
            &&& plan[0] is MakeQueue
            &&& plan[10] is ReceiveMessages
        }),
{
}

/// What is missing is left out of closing a session, and nothing else changes: both elements
/// are stopped first and removed last, and a tee that is left is unlinked before its pad is
/// released.
pub proof fn law_closing_leaves_out_what_is_missing(queue_has_sink: bool, pad_has_tee: bool)
    ensures
        ({
            let plan = closing_steps(queue_has_sink, pad_has_tee);
            let last = plan.len() - 1;
            &&& plan.len() == 4 + (if queue_has_sink { 1int } else { 0 }) + (if pad_has_tee {
                1int
            } else {
                0
            })
            &&& plan[0] == ClosingStep::StopQueue
            &&& plan[1] == ClosingStep::StopWebrtcbin
            &&& queue_has_sink ==> plan[2] == ClosingStep::UnlinkTee
            &&& pad_has_tee ==> plan[last - 2] == ClosingStep::ReleaseTeePad
            &&& plan[last - 1] == ClosingStep::RemoveQueue
            &&& plan[last] == ClosingStep::RemoveWebrtcbin
        }),
{
}

/// A step, an event and an action of a session are seen as what their fields hold, and rows
/// of them in their order.
pub proof fn law_session_values_seen_as_they_are(
    plan: Seq<SessionStep>,
    event: WebrtcbinEvent,
    actions: Seq<OutgoingAction>,
)
    ensures
        steps(plan).len() == plan.len(),
        forall|i: int| 0 <= i < plan.len() ==> steps(plan)[i] == (#[trigger] plan[i])@,
        forall|i: int|
            0 <= i < plan.len() ==> ((#[trigger] plan[i]) matches SessionStep::MakeWebrtcbin {
                name,
                bundle_policy,
                stun_server,
            } ==> plan[i]@ == (Step::MakeWebrtcbin {
                name: name@,
                bundle_policy: bundle_policy@,
                stun_server: stun_server@,
            })),
        forall|i: int|
            0 <= i < plan.len() ==> ((#[trigger] plan[i]) matches SessionStep::RequestTeePad {
                tee,
                template,
            } ==> plan[i]@ == (Step::RequestTeePad { tee: tee@, template: template@ })),
        outgoing(actions).len() == actions.len(),
        forall|i: int| 0 <= i < actions.len() ==> outgoing(actions)[i] == (#[trigger] actions[i])@,
        match event {
            WebrtcbinEvent::IceCandidate { sdp_m_line_index, candidate } => event@
                == (Report::IceCandidate {
                sdp_m_line_index: sdp_m_line_index as nat,
                candidate: candidate@,
            }),
            WebrtcbinEvent::OfferReply(OfferReply::Created(sdp)) => event@
                == (Report::OfferCreated { sdp: sdp@ }),
            WebrtcbinEvent::OfferReply(OfferReply::Empty) => event@ is OfferEmpty,
            WebrtcbinEvent::OfferReply(OfferReply::Interrupted) => event@ is OfferInterrupted,
        },
{
}

} // verus!
