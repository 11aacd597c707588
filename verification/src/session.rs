//! One client's connection, from the websocket handshake to its end.
//!
//! A [`Session`] holds no socket. It is told what happened and says what to do
//! next; the last thing that it asks for is the one whose outcome it waits for.

use crate::clients::{lemma_recipients, others, ClientAddr, Clients};
use crate::json::parsed_json;
use crate::laws::law_only_chat_is_relayed;
use crate::message::{
    answer_with, inbound_of, init_of, message_text, read_text, AnswerSignalMessage, CandidateInit,
    CandidateInitView, ChatMessage, Inbound, InboundView, MessageView, PONG,
};
use crate::peer::{ice_server_urls, ice_servers, offer_description, parse_offer, servers_view};
use vstd::prelude::*;
use webrtc::error::Error;
use webrtc::peer_connection::sdp::session_description::RTCSessionDescription;

verus! {

/// A websocket message, as far as the server tells them apart.
#[derive(Debug)]
pub enum Frame {
    Text(String),
    Close,
    /// Binary data, a ping or a pong of the websocket protocol, a raw frame.
    Other,
}

/// What happened. Errors come as the texts that they print.
#[derive(Debug)]
pub enum Event {
    /// The websocket handshake is over.
    Upgraded(Result<(), String>),
    /// The default codecs have been registered with a media engine, or not.
    CodecsRegistered(Result<(), String>),
    /// The peer connection has been created, or not.
    PeerCreated(Result<(), Error>),
    /// The client sent something.
    Received(Frame),
    /// Receiving failed.
    ReceiveFailed(String),
    /// The client's stream is at its end.
    StreamEnded,
    /// The answer to a ping went out, or not.
    PongSent(Result<(), String>),
    /// Whether the remote description could be set.
    RemoteDescriptionSet(bool),
    /// The answer, if one could be created, and the text of its description.
    AnswerCreated(Option<(RTCSessionDescription, String)>),
    /// Whether the local description could be set.
    LocalDescriptionSet(bool),
    /// Whether the remote candidate could be added.
    CandidateAdded(bool),
}

/// A line for the log.
#[derive(Debug)]
pub enum Notice {
    UpgradeFailed(String),
    PeerFailed(String),
    PingReceived,
    PongFailed(String),
    ChatReceived(ChatMessage),
    /// The text did not get on the channel of this client.
    RelayFailed(ClientAddr, String),
    OfferUnreadable,
    RemoteDescriptionSet,
    RemoteDescriptionRefused,
    AnswerCreated,
    AnswerRefused,
    LocalDescriptionSet,
    LocalDescriptionRefused,
    SendingAnswer,
    ClientMissing,
    CandidateUnreadable,
    CandidateAdded,
    CandidateRefused,
    UnknownType(String),
    TypeMissing,
    MalformedJson(String),
    Closing,
    ReceiveFailed(String),
    Disconnected,
}

/// What is to be done.
#[derive(Debug)]
pub enum Action {
    /// Log a line.
    Print(Notice),
    /// Register the client, with a channel of its own.
    Register,
    /// Start to forward what arrives on the client's channel to its websocket.
    StartForwarding,
    /// Register the default codecs with a media engine.
    RegisterCodecs,
    /// Create the peer connection with that media engine and ICE servers with
    /// these URLs.
    CreatePeer(Vec<Vec<String>>),
    /// Start to announce local candidates and to read tracks.
    WatchPeer,
    /// Wait for the client's next message.
    Receive,
    /// Send this text straight to the client's websocket.
    SendPong(String),
    /// Put this text on the channels of these clients.
    Relay(Vec<ClientAddr>, String),
    /// Hand the client's offer to the peer connection.
    SetRemoteDescription(RTCSessionDescription),
    /// Have the peer connection create an answer.
    CreateAnswer,
    /// Hand the created answer to the peer connection.
    SetLocalDescription(RTCSessionDescription),
    /// Put this text on the client's own channel.
    SendAnswer(String),
    /// Hand a candidate of the client to the peer connection.
    AddCandidate(CandidateInit),
    /// Close the peer connection.
    ClosePeer,
    /// Take the client out of the register.
    Unregister,
    /// Stop forwarding.
    StopForwarding,
    /// The connection is done with.
    Return,
    /// The offer is no session description, or there is no peer connection to be
    /// had. The connection's task dies as it is.
    Crash(Error),
}

/// What the session waits for.
#[derive(Debug)]
pub enum Phase {
    Upgrading,
    RegisteringCodecs,
    CreatingPeer,
    Listening,
    SendingPong,
    SettingRemoteDescription,
    CreatingAnswer,
    /// With the session description of the answer.
    SettingLocalDescription(String),
    AddingCandidate,
    Ended,
}

pub enum FrameView {
    Text(Seq<char>),
    Close,
    Other,
}

pub enum EventView {
    Upgraded(Result<(), Seq<char>>),
    CodecsRegistered(Result<(), Seq<char>>),
    PeerCreated(Result<(), Error>),
    Received(FrameView),
    ReceiveFailed(Seq<char>),
    StreamEnded,
    PongSent(Result<(), Seq<char>>),
    RemoteDescriptionSet(bool),
    AnswerCreated(Option<(RTCSessionDescription, Seq<char>)>),
    LocalDescriptionSet(bool),
    CandidateAdded(bool),
}

pub enum NoticeView {
    UpgradeFailed(Seq<char>),
    PeerFailed(Seq<char>),
    PingReceived,
    PongFailed(Seq<char>),
    ChatReceived(MessageView),
    RelayFailed(ClientAddr, Seq<char>),
    OfferUnreadable,
    RemoteDescriptionSet,
    RemoteDescriptionRefused,
    AnswerCreated,
    AnswerRefused,
    LocalDescriptionSet,
    LocalDescriptionRefused,
    SendingAnswer,
    ClientMissing,
    CandidateUnreadable,
    CandidateAdded,
    CandidateRefused,
    UnknownType(Seq<char>),
    TypeMissing,
    MalformedJson(Seq<char>),
    Closing,
    ReceiveFailed(Seq<char>),
    Disconnected,
}

pub enum ActionView {
    Print(NoticeView),
    Register,
    StartForwarding,
    RegisterCodecs,
    CreatePeer(Seq<Seq<Seq<char>>>),
    WatchPeer,
    Receive,
    SendPong(Seq<char>),
    Relay(Seq<ClientAddr>, Seq<char>),
    SetRemoteDescription(RTCSessionDescription),
    CreateAnswer,
    SetLocalDescription(RTCSessionDescription),
    SendAnswer(Seq<char>),
    AddCandidate(CandidateInitView),
    ClosePeer,
    Unregister,
    StopForwarding,
    Return,
    Crash(Error),
}

pub enum PhaseView {
    Upgrading,
    RegisteringCodecs,
    CreatingPeer,
    Listening,
    SendingPong,
    SettingRemoteDescription,
    CreatingAnswer,
    SettingLocalDescription(Seq<char>),
    AddingCandidate,
    Ended,
}

pub open spec fn outcome_view(outcome: Result<(), String>) -> Result<(), Seq<char>> {
    match outcome {
        Ok(()) => Ok(()),
        Err(error) => Err(error@),
    }
}

impl View for Frame {
    type V = FrameView;

    open spec fn view(&self) -> FrameView {
        match self {
            Frame::Text(text) => FrameView::Text(text@),
            Frame::Close => FrameView::Close,
            Frame::Other => FrameView::Other,
        }
    }
}

impl View for Event {
    type V = EventView;

    open spec fn view(&self) -> EventView {
        match self {
            Event::Upgraded(outcome) => EventView::Upgraded(outcome_view(*outcome)),
            Event::CodecsRegistered(outcome) => EventView::CodecsRegistered(
                outcome_view(*outcome),
            ),
            Event::PeerCreated(outcome) => EventView::PeerCreated(*outcome),
            Event::Received(frame) => EventView::Received(frame@),
            Event::ReceiveFailed(error) => EventView::ReceiveFailed(error@),
            Event::StreamEnded => EventView::StreamEnded,
            Event::PongSent(outcome) => EventView::PongSent(outcome_view(*outcome)),
            Event::RemoteDescriptionSet(done) => EventView::RemoteDescriptionSet(*done),
            Event::AnswerCreated(Some((answer, sdp))) => EventView::AnswerCreated(
                Some((*answer, sdp@)),
            ),
            Event::AnswerCreated(None) => EventView::AnswerCreated(None),
            Event::LocalDescriptionSet(done) => EventView::LocalDescriptionSet(*done),
            Event::CandidateAdded(done) => EventView::CandidateAdded(*done),
        }
    }
}

impl View for Notice {
    type V = NoticeView;

    open spec fn view(&self) -> NoticeView {
        match self {
            Notice::UpgradeFailed(error) => NoticeView::UpgradeFailed(error@),
            Notice::PeerFailed(error) => NoticeView::PeerFailed(error@),
            Notice::PingReceived => NoticeView::PingReceived,
            Notice::PongFailed(error) => NoticeView::PongFailed(error@),
            Notice::ChatReceived(message) => NoticeView::ChatReceived(message@),
            Notice::RelayFailed(to, error) => NoticeView::RelayFailed(*to, error@),
            Notice::OfferUnreadable => NoticeView::OfferUnreadable,
            Notice::RemoteDescriptionSet => NoticeView::RemoteDescriptionSet,
            Notice::RemoteDescriptionRefused => NoticeView::RemoteDescriptionRefused,
            Notice::AnswerCreated => NoticeView::AnswerCreated,
            Notice::AnswerRefused => NoticeView::AnswerRefused,
            Notice::LocalDescriptionSet => NoticeView::LocalDescriptionSet,
            Notice::LocalDescriptionRefused => NoticeView::LocalDescriptionRefused,
            Notice::SendingAnswer => NoticeView::SendingAnswer,
            Notice::ClientMissing => NoticeView::ClientMissing,
            Notice::CandidateUnreadable => NoticeView::CandidateUnreadable,
            Notice::CandidateAdded => NoticeView::CandidateAdded,
            Notice::CandidateRefused => NoticeView::CandidateRefused,
            Notice::UnknownType(msg_type) => NoticeView::UnknownType(msg_type@),
            Notice::TypeMissing => NoticeView::TypeMissing,
            Notice::MalformedJson(message) => NoticeView::MalformedJson(message@),
            Notice::Closing => NoticeView::Closing,
            Notice::ReceiveFailed(error) => NoticeView::ReceiveFailed(error@),
            Notice::Disconnected => NoticeView::Disconnected,
        }
    }
}

impl View for Action {
    type V = ActionView;

    open spec fn view(&self) -> ActionView {
        match self {
            Action::Print(notice) => ActionView::Print(notice@),
            Action::Register => ActionView::Register,
            Action::StartForwarding => ActionView::StartForwarding,
            Action::RegisterCodecs => ActionView::RegisterCodecs,
            Action::CreatePeer(servers) => ActionView::CreatePeer(servers_view(servers@)),
            Action::WatchPeer => ActionView::WatchPeer,
            Action::Receive => ActionView::Receive,
            Action::SendPong(text) => ActionView::SendPong(text@),
            Action::Relay(to, text) => ActionView::Relay(to@, text@),
            Action::SetRemoteDescription(offer) => ActionView::SetRemoteDescription(*offer),
            Action::CreateAnswer => ActionView::CreateAnswer,
            Action::SetLocalDescription(answer) => ActionView::SetLocalDescription(*answer),
            Action::SendAnswer(text) => ActionView::SendAnswer(text@),
            Action::AddCandidate(init) => ActionView::AddCandidate(init@),
            Action::ClosePeer => ActionView::ClosePeer,
            Action::Unregister => ActionView::Unregister,
            Action::StopForwarding => ActionView::StopForwarding,
            Action::Return => ActionView::Return,
            Action::Crash(error) => ActionView::Crash(*error),
        }
    }
}

impl View for Phase {
    type V = PhaseView;

    open spec fn view(&self) -> PhaseView {
        match self {
            Phase::Upgrading => PhaseView::Upgrading,
            Phase::RegisteringCodecs => PhaseView::RegisteringCodecs,
            Phase::CreatingPeer => PhaseView::CreatingPeer,
            Phase::Listening => PhaseView::Listening,
            Phase::SendingPong => PhaseView::SendingPong,
            Phase::SettingRemoteDescription => PhaseView::SettingRemoteDescription,
            Phase::CreatingAnswer => PhaseView::CreatingAnswer,
            Phase::SettingLocalDescription(sdp) => PhaseView::SettingLocalDescription(sdp@),
            Phase::AddingCandidate => PhaseView::AddingCandidate,
            Phase::Ended => PhaseView::Ended,
        }
    }
}

pub open spec fn actions_view(actions: Seq<Action>) -> Seq<ActionView> {
    actions.map_values(|action: Action| action@)
}

/// Whether `action`, if it relays something, relays it to every registered client
/// but the one at `addr`, to each of them once.
pub open spec fn reaches_others(
    action: Action,
    registered: Set<ClientAddr>,
    addr: ClientAddr,
) -> bool {
    action matches Action::Relay(to, _) ==> {
        &&& to@.no_duplicates()
        &&& forall|a: ClientAddr| #[trigger]
            to@.contains(a) <==> registered.contains(a) && a != addr
    }
}

/// What the session does upon an event, and what it waits for then.
pub struct Reaction {
    pub phase: PhaseView,
    pub actions: Seq<ActionView>,
}

/// Whether `event` is an outcome of what the session waits for.
pub open spec fn expected(phase: PhaseView, event: EventView) -> bool {
    match phase {
        PhaseView::Upgrading => event is Upgraded,
        PhaseView::RegisteringCodecs => event is CodecsRegistered,
        PhaseView::CreatingPeer => event is PeerCreated,
        PhaseView::Listening => event is Received || event is ReceiveFailed || event is StreamEnded,
        PhaseView::SendingPong => event is PongSent,
        PhaseView::SettingRemoteDescription => event is RemoteDescriptionSet,
        PhaseView::CreatingAnswer => event is AnswerCreated,
        PhaseView::SettingLocalDescription(_) => event is LocalDescriptionSet,
        PhaseView::AddingCandidate => event is CandidateAdded,
        PhaseView::Ended => false,
    }
}

/// To do `actions` and go on listening.
pub open spec fn listening_after(actions: Seq<ActionView>) -> Reaction {
    Reaction { phase: PhaseView::Listening, actions: actions.push(ActionView::Receive) }
}

/// How a connection that was being served ends.
pub open spec fn farewell() -> Seq<ActionView> {
    seq![
        ActionView::Print(NoticeView::Disconnected),
        ActionView::Unregister,
        ActionView::ClosePeer,
        ActionView::StopForwarding,
        ActionView::Return,
    ]
}

/// To do `actions` and stop serving the client.
pub open spec fn ended_after(actions: Seq<ActionView>) -> Reaction {
    Reaction { phase: PhaseView::Ended, actions: actions + farewell() }
}

/// To give up before the client was served.
pub open spec fn abandoned_with(notice: NoticeView) -> Reaction {
    Reaction {
        phase: PhaseView::Ended,
        actions: seq![ActionView::Print(notice), ActionView::Return],
    }
}

/// To let the connection's task die.
pub open spec fn crashed_with(error: Error) -> Reaction {
    Reaction { phase: PhaseView::Ended, actions: seq![ActionView::Crash(error)] }
}

/// What comes of an offer.
pub open spec fn offer_reaction(description: Result<RTCSessionDescription, Error>) -> Reaction {
    match description {
        Ok(offer) => Reaction {
            phase: PhaseView::SettingRemoteDescription,
            actions: seq![ActionView::SetRemoteDescription(offer)],
        },
        Err(error) => crashed_with(error),
    }
}

/// What comes of a text of the client at `addr`, where the clients of `order` are
/// registered.
pub open spec fn inbound_reaction(
    addr: ClientAddr,
    order: Seq<ClientAddr>,
    inbound: InboundView,
) -> Reaction {
    match inbound {
        InboundView::Malformed(message) => listening_after(
            seq![ActionView::Print(NoticeView::MalformedJson(message))],
        ),
        InboundView::Untyped => listening_after(seq![ActionView::Print(NoticeView::TypeMissing)]),
        InboundView::Unknown(msg_type) => listening_after(
            seq![ActionView::Print(NoticeView::UnknownType(msg_type))],
        ),
        InboundView::Ping => Reaction {
            phase: PhaseView::SendingPong,
            actions: seq![
                ActionView::Print(NoticeView::PingReceived),
                ActionView::SendPong(PONG@),
            ],
        },
        InboundView::Chat(Some(message)) => listening_after(
            seq![
                ActionView::Print(NoticeView::ChatReceived(message)),
                ActionView::Relay(others(order, addr), message_text(message)),
            ],
        ),
        InboundView::Chat(None) => listening_after(Seq::empty()),
        InboundView::Offer(Some(message)) => offer_reaction(offer_description(message.content)),
        InboundView::Offer(None) => listening_after(
            seq![ActionView::Print(NoticeView::OfferUnreadable)],
        ),
        InboundView::Candidate(Some(message)) => Reaction {
            phase: PhaseView::AddingCandidate,
            actions: seq![ActionView::AddCandidate(init_of(message))],
        },
        InboundView::Candidate(None) => listening_after(
            seq![ActionView::Print(NoticeView::CandidateUnreadable)],
        ),
    }
}

/// What the session of the client at `addr` does upon an event that it waited
/// for in `phase`, where the clients of `order` are registered.
pub open spec fn reaction(
    addr: ClientAddr,
    order: Seq<ClientAddr>,
    phase: PhaseView,
    event: EventView,
) -> Reaction {
    match event {
        EventView::Upgraded(Ok(())) => Reaction {
            phase: PhaseView::RegisteringCodecs,
            actions: seq![
                ActionView::Register,
                ActionView::StartForwarding,
                ActionView::RegisterCodecs,
            ],
        },
        EventView::Upgraded(Err(error)) => abandoned_with(NoticeView::UpgradeFailed(error)),
        EventView::CodecsRegistered(Ok(())) => Reaction {
            phase: PhaseView::CreatingPeer,
            actions: seq![ActionView::CreatePeer(ice_servers())],
        },
        EventView::CodecsRegistered(Err(error)) => abandoned_with(NoticeView::PeerFailed(error)),
        EventView::PeerCreated(Ok(())) => listening_after(seq![ActionView::WatchPeer]),
        EventView::PeerCreated(Err(error)) => crashed_with(error),
        EventView::Received(FrameView::Text(text)) => inbound_reaction(
            addr,
            order,
            inbound_of(parsed_json(text)),
        ),
        EventView::Received(FrameView::Close) => ended_after(
            seq![ActionView::Print(NoticeView::Closing), ActionView::ClosePeer],
        ),
        EventView::Received(FrameView::Other) => listening_after(Seq::empty()),
        EventView::ReceiveFailed(error) => ended_after(
            seq![ActionView::Print(NoticeView::ReceiveFailed(error))],
        ),
        EventView::StreamEnded => ended_after(Seq::empty()),
        EventView::PongSent(Ok(())) => listening_after(Seq::empty()),
        EventView::PongSent(Err(error)) => ended_after(
            seq![ActionView::Print(NoticeView::PongFailed(error))],
        ),
        EventView::RemoteDescriptionSet(true) => Reaction {
            phase: PhaseView::CreatingAnswer,
            actions: seq![
                ActionView::Print(NoticeView::RemoteDescriptionSet),
                ActionView::CreateAnswer,
            ],
        },
        EventView::RemoteDescriptionSet(false) => listening_after(
            seq![ActionView::Print(NoticeView::RemoteDescriptionRefused)],
        ),
        EventView::AnswerCreated(Some((answer, sdp))) => Reaction {
            phase: PhaseView::SettingLocalDescription(sdp),
            actions: seq![
                ActionView::Print(NoticeView::AnswerCreated),
                ActionView::SetLocalDescription(answer),
            ],
        },
        EventView::AnswerCreated(None) => listening_after(
            seq![ActionView::Print(NoticeView::AnswerRefused)],
        ),
        EventView::LocalDescriptionSet(true) => if order.contains(addr) {
            listening_after(
                seq![
                    ActionView::Print(NoticeView::LocalDescriptionSet),
                    ActionView::Print(NoticeView::SendingAnswer),
                    ActionView::SendAnswer(
                        message_text(answer_with(phase->SettingLocalDescription_0)),
                    ),
                ],
            )
        } else {
            listening_after(
                seq![
                    ActionView::Print(NoticeView::LocalDescriptionSet),
                    ActionView::Print(NoticeView::ClientMissing),
                ],
            )
        },
        EventView::LocalDescriptionSet(false) => listening_after(
            seq![ActionView::Print(NoticeView::LocalDescriptionRefused)],
        ),
        EventView::CandidateAdded(true) => listening_after(
            seq![ActionView::Print(NoticeView::CandidateAdded)],
        ),
        EventView::CandidateAdded(false) => listening_after(
            seq![ActionView::Print(NoticeView::CandidateRefused)],
        ),
    }
}

proof fn lemma_relayed_to_others(
    addr: ClientAddr,
    order: Seq<ClientAddr>,
    inbound: InboundView,
    i: int,
)
    requires
        0 <= i < inbound_reaction(addr, order, inbound).actions.len(),
        inbound_reaction(addr, order, inbound).actions[i] is Relay,
    ensures
        inbound_reaction(addr, order, inbound).actions[i]->Relay_0 == others(order, addr),
{
}

/// What is logged of an attempt to put a relayed text on the channel of `to`.
pub open spec fn relay_notice(to: ClientAddr, sent: Result<(), Seq<char>>) -> Option<NoticeView> {
    match sent {
        Ok(()) => None,
        Err(error) => Some(NoticeView::RelayFailed(to, error)),
    }
}

/// Takes in whether a relayed text got on the channel of `to`: a failure is
/// logged, and nothing else comes of it.
pub fn on_relayed(to: ClientAddr, sent: Result<(), String>) -> (notice: Option<Notice>)
    ensures
        (match notice {
            Some(notice) => Some(notice@),
            None => None,
        }) == relay_notice(to, outcome_view(sent)),
        match sent {
            Ok(_) => notice is None,
            Err(error) => notice == Some(Notice::RelayFailed(to, error)),
        },
{
    match sent {
        Ok(()) => None,
        Err(error) => Some(Notice::RelayFailed(to, error)),
    }
}

/// The connection of one client.
#[derive(Debug)]
pub struct Session {
    addr: ClientAddr,
    phase: Phase,
}

impl Session {
    /// The client's address.
    pub closed spec fn addr(&self) -> ClientAddr {
        self.addr
    }

    /// What the session waits for.
    pub closed spec fn phase(&self) -> PhaseView {
        self.phase@
    }

    /// A connection whose websocket handshake is under way.
    pub fn new(addr: ClientAddr) -> (session: Session)
        ensures
            session.addr() == addr,
            session.phase() == PhaseView::Upgrading,
    {
        Session { addr, phase: Phase::Upgrading }
    }

    /// Whether the connection is over.
    pub fn is_ended(&self) -> (ended: bool)
        ensures
            ended == (self.phase() is Ended),
    {
        match self.phase {
            Phase::Ended => true,
            _ => false,
        }
    }

    /// Whether the session waits for such an event.
    pub fn expects(&self, event: &Event) -> (expects: bool)
        ensures
            expects == expected(self.phase(), event@),
    {
        match (&self.phase, event) {
            (Phase::Upgrading, Event::Upgraded(_)) => true,
            (Phase::RegisteringCodecs, Event::CodecsRegistered(_)) => true,
            (Phase::CreatingPeer, Event::PeerCreated(_)) => true,
            (Phase::Listening, Event::Received(_)) => true,
            (Phase::Listening, Event::ReceiveFailed(_)) => true,
            (Phase::Listening, Event::StreamEnded) => true,
            (Phase::SendingPong, Event::PongSent(_)) => true,
            (Phase::SettingRemoteDescription, Event::RemoteDescriptionSet(_)) => true,
            (Phase::CreatingAnswer, Event::AnswerCreated(_)) => true,
            (Phase::SettingLocalDescription(_), Event::LocalDescriptionSet(_)) => true,
            (Phase::AddingCandidate, Event::CandidateAdded(_)) => true,
            _ => false,
        }
    }

    /// Goes on listening after `actions`.
    fn listen_after(&mut self, actions: Vec<Action>) -> (all: Vec<Action>)
        ensures
            final(self).addr() == old(self).addr(),
            final(self).phase() == listening_after(actions_view(actions@)).phase,
            actions_view(all@) == listening_after(actions_view(actions@)).actions,
    {
        let mut all = actions;
        let ghost before = all@;
        all.push(Action::Receive);
        self.phase = Phase::Listening;
        assert(actions_view(all@) =~= actions_view(before).push(ActionView::Receive));
        all
    }

    /// Stops serving the client after `actions`.
    fn end_after(&mut self, actions: Vec<Action>) -> (all: Vec<Action>)
        ensures
            final(self).addr() == old(self).addr(),
            final(self).phase() == ended_after(actions_view(actions@)).phase,
            actions_view(all@) == ended_after(actions_view(actions@)).actions,
    {
        let mut all = actions;
        let ghost before = all@;
        all.push(Action::Print(Notice::Disconnected));
        all.push(Action::Unregister);
        all.push(Action::ClosePeer);
        all.push(Action::StopForwarding);
        all.push(Action::Return);
        self.phase = Phase::Ended;
        assert(actions_view(all@) =~= actions_view(before) + farewell());
        all
    }

    /// Gives up before the client was served.
    fn abandon(&mut self, notice: Notice) -> (all: Vec<Action>)
        ensures
            final(self).addr() == old(self).addr(),
            final(self).phase() == abandoned_with(notice@).phase,
            actions_view(all@) == abandoned_with(notice@).actions,
    {
        self.phase = Phase::Ended;
        let ghost seen = notice@;
        let all = vec![Action::Print(notice), Action::Return];
        assert(actions_view(all@) =~= abandoned_with(seen).actions);
        all
    }

    /// Lets the connection's task die.
    fn crash(&mut self, error: Error) -> (all: Vec<Action>)
        ensures
            final(self).addr() == old(self).addr(),
            final(self).phase() == crashed_with(error).phase,
            actions_view(all@) == crashed_with(error).actions,
            all@ == seq![Action::Crash(error)],
    {
        self.phase = Phase::Ended;
        let ghost seen = error;
        let all = vec![Action::Crash(error)];
        assert(all@ =~= seq![Action::Crash(seen)]);
        assert(actions_view(all@) =~= crashed_with(error).actions);
        all
    }

    /// Logs one line and goes on listening.
    fn note(&mut self, notice: Notice) -> (all: Vec<Action>)
        ensures
            final(self).addr() == old(self).addr(),
            final(self).phase() == PhaseView::Listening,
            actions_view(all@) == listening_after(seq![ActionView::Print(notice@)]).actions,
    {
        let ghost seen = notice@;
        let actions = vec![Action::Print(notice)];
        assert(actions_view(actions@) =~= seq![ActionView::Print(seen)]);
        self.listen_after(actions)
    }

    /// Goes on with an offer that has been parsed, or has not.
    pub fn on_offer(&mut self, description: Result<RTCSessionDescription, Error>) -> (actions: Vec<
        Action,
    >)
        requires
            old(self).phase() == PhaseView::Listening,
        ensures
            final(self).addr() == old(self).addr(),
            final(self).phase() == offer_reaction(description).phase,
            actions_view(actions@) == offer_reaction(description).actions,
            match description {
                Ok(offer) => actions@ == seq![Action::SetRemoteDescription(offer)],
                Err(error) => actions@ == seq![Action::Crash(error)],
            },
            final(self).phase() is Ended <==> description is Err,
            final(self).phase() is SettingRemoteDescription <==> description is Ok,
    {
        match description {
            Ok(offer) => {
                self.phase = Phase::SettingRemoteDescription;
                let ghost seen = offer;
                let actions = vec![Action::SetRemoteDescription(offer)];
                assert(actions@ =~= seq![Action::SetRemoteDescription(seen)]);
                assert(actions_view(actions@) =~= offer_reaction(description).actions);
                actions
            },
            Err(error) => self.crash(error),
        }
    }

    /// Goes on with a text of the client, once it is clear what it is.
    pub fn on_inbound<T>(&mut self, inbound: Inbound, clients: &Clients<T>) -> (actions: Vec<
        Action,
    >)
        requires
            old(self).phase() == PhaseView::Listening,
        ensures
            final(self).addr() == old(self).addr(),
            final(self).phase() == inbound_reaction(
                old(self).addr(),
                clients.order(),
                inbound@,
            ).phase,
            actions_view(actions@) == inbound_reaction(
                old(self).addr(),
                clients.order(),
                inbound@,
            ).actions,
            forall|i: int|
                0 <= i < actions@.len() ==> reaches_others(
                    #[trigger] actions@[i],
                    clients@.dom(),
                    old(self).addr(),
                ),
    {
        let ghost said = inbound@;
        let ghost wanted = inbound_reaction(self.addr(), clients.order(), said);
        let actions = match inbound {
            Inbound::Malformed(message) => self.note(Notice::MalformedJson(message)),
            Inbound::Untyped => self.note(Notice::TypeMissing),
            Inbound::Unknown(msg_type) => self.note(Notice::UnknownType(msg_type)),
            Inbound::Ping => {
                self.phase = Phase::SendingPong;
                let actions = vec![
                    Action::Print(Notice::PingReceived),
                    Action::SendPong(PONG.to_string()),
                ];
                assert(actions_view(actions@) =~= wanted.actions);
                actions
            },
            Inbound::Chat(Some(message)) => {
                let ghost seen = message@;
                let text = message.to_json();
                let to = clients.recipients(self.addr);
                let actions = vec![
                    Action::Print(Notice::ChatReceived(message)),
                    Action::Relay(to, text),
                ];
                assert(actions_view(actions@) =~= seq![
                    ActionView::Print(NoticeView::ChatReceived(seen)),
                    ActionView::Relay(others(clients.order(), self.addr()), message_text(seen)),
                ]);
                self.listen_after(actions)
            },
            Inbound::Chat(None) => {
                let actions: Vec<Action> = Vec::new();
                assert(actions_view(actions@) =~= Seq::<ActionView>::empty());
                self.listen_after(actions)
            },
            Inbound::Offer(Some(message)) => self.on_offer(parse_offer(message.content)),
            Inbound::Offer(None) => self.note(Notice::OfferUnreadable),
            Inbound::Candidate(Some(message)) => {
                self.phase = Phase::AddingCandidate;
                let actions = vec![Action::AddCandidate(message.into_init())];
                assert(actions_view(actions@) =~= wanted.actions);
                actions
            },
            Inbound::Candidate(None) => self.note(Notice::CandidateUnreadable),
        };
        proof {
            use_type_invariant(clients);
            lemma_recipients(*clients, self.addr());
            assert forall|i: int| 0 <= i < actions@.len() implies reaches_others(
                #[trigger] actions@[i],
                clients@.dom(),
                self.addr(),
            ) by {
                assert(actions@[i]@ == wanted.actions[i]);
                if actions@[i] is Relay {
                    lemma_relayed_to_others(self.addr(), clients.order(), said, i);
                }
            }
        }
        actions
    }

    /// Takes in what happened and says what to do next.
    pub fn step<T>(&mut self, event: Event, clients: &Clients<T>) -> (actions: Vec<Action>)
        requires
            expected(old(self).phase(), event@),
        ensures
            final(self).addr() == old(self).addr(),
            final(self).phase() == reaction(
                old(self).addr(),
                clients.order(),
                old(self).phase(),
                event@,
            ).phase,
            actions_view(actions@) == reaction(
                old(self).addr(),
                clients.order(),
                old(self).phase(),
                event@,
            ).actions,
            forall|i: int|
                0 <= i < actions@.len() ==> reaches_others(
                    #[trigger] actions@[i],
                    clients@.dom(),
                    old(self).addr(),
                ),
    {
        let ghost phase = self.phase();
        let ghost seen = event@;
        let ghost wanted = reaction(self.addr(), clients.order(), phase, seen);
        let actions = match event {
            Event::Upgraded(Ok(())) => {
                self.phase = Phase::RegisteringCodecs;
                let actions = vec![
                    Action::Register,
                    Action::StartForwarding,
                    Action::RegisterCodecs,
                ];
                assert(actions_view(actions@) =~= wanted.actions);
                actions
            },
            Event::Upgraded(Err(error)) => self.abandon(Notice::UpgradeFailed(error)),
            Event::CodecsRegistered(Ok(())) => {
                self.phase = Phase::CreatingPeer;
                let actions = vec![Action::CreatePeer(ice_server_urls())];
                assert(actions_view(actions@) =~= wanted.actions);
                actions
            },
            Event::CodecsRegistered(Err(error)) => self.abandon(Notice::PeerFailed(error)),
            Event::PeerCreated(Ok(())) => {
                let actions = vec![Action::WatchPeer];
                assert(actions_view(actions@) =~= seq![ActionView::WatchPeer]);
                self.listen_after(actions)
            },
            Event::PeerCreated(Err(error)) => self.crash(error),
            Event::Received(Frame::Text(text)) => self.on_inbound(
                read_text(text.as_str()),
                clients,
            ),
            Event::Received(Frame::Close) => {
                let actions = vec![Action::Print(Notice::Closing), Action::ClosePeer];
                assert(actions_view(actions@) =~= seq![
                    ActionView::Print(NoticeView::Closing),
                    ActionView::ClosePeer,
                ]);
                self.end_after(actions)
            },
            Event::Received(Frame::Other) | Event::PongSent(Ok(())) => {
                let actions: Vec<Action> = Vec::new();
                assert(actions_view(actions@) =~= Seq::<ActionView>::empty());
                self.listen_after(actions)
            },
            Event::ReceiveFailed(error) => {
                let ghost seen = error@;
                let actions = vec![Action::Print(Notice::ReceiveFailed(error))];
                assert(actions_view(actions@) =~= seq![
                    ActionView::Print(NoticeView::ReceiveFailed(seen)),
                ]);
                self.end_after(actions)
            },
            Event::StreamEnded => {
                let actions: Vec<Action> = Vec::new();
                assert(actions_view(actions@) =~= Seq::<ActionView>::empty());
                self.end_after(actions)
            },
            Event::PongSent(Err(error)) => {
                let ghost seen = error@;
                let actions = vec![Action::Print(Notice::PongFailed(error))];
                assert(actions_view(actions@) =~= seq![
                    ActionView::Print(NoticeView::PongFailed(seen)),
                ]);
                self.end_after(actions)
            },
            Event::RemoteDescriptionSet(true) => {
                self.phase = Phase::CreatingAnswer;
                let actions = vec![
                    Action::Print(Notice::RemoteDescriptionSet),
                    Action::CreateAnswer,
                ];
                assert(actions_view(actions@) =~= wanted.actions);
                actions
            },
            Event::RemoteDescriptionSet(false) => self.note(Notice::RemoteDescriptionRefused),
            Event::AnswerCreated(Some((answer, sdp))) => {
                self.phase = Phase::SettingLocalDescription(sdp);
                let actions = vec![
                    Action::Print(Notice::AnswerCreated),
                    Action::SetLocalDescription(answer),
                ];
                assert(actions_view(actions@) =~= wanted.actions);
                actions
            },
            Event::AnswerCreated(None) => self.note(Notice::AnswerRefused),
            Event::LocalDescriptionSet(true) => {
                let mut actions = vec![Action::Print(Notice::LocalDescriptionSet)];
                if clients.contains(self.addr) {
                    actions.push(Action::Print(Notice::SendingAnswer));
                    let mut phase = Phase::Listening;
                    std::mem::swap(&mut phase, &mut self.phase);
                    if let Phase::SettingLocalDescription(sdp) = phase {
                        let ghost seen = sdp@;
                        actions.push(Action::SendAnswer(AnswerSignalMessage::new(sdp).to_json()));
                        assert(actions_view(actions@) =~= seq![
                            ActionView::Print(NoticeView::LocalDescriptionSet),
                            ActionView::Print(NoticeView::SendingAnswer),
                            ActionView::SendAnswer(message_text(answer_with(seen))),
                        ]);
                    }
                } else {
                    actions.push(Action::Print(Notice::ClientMissing));
                    assert(actions_view(actions@) =~= seq![
                        ActionView::Print(NoticeView::LocalDescriptionSet),
                        ActionView::Print(NoticeView::ClientMissing),
                    ]);
                }
                self.listen_after(actions)
            },
            Event::LocalDescriptionSet(false) => self.note(Notice::LocalDescriptionRefused),
            Event::CandidateAdded(true) => self.note(Notice::CandidateAdded),
            Event::CandidateAdded(false) => self.note(Notice::CandidateRefused),
        };
        proof {
            use_type_invariant(clients);
            lemma_recipients(*clients, self.addr());
            assert forall|i: int| 0 <= i < actions@.len() implies reaches_others(
                #[trigger] actions@[i],
                clients@.dom(),
                self.addr(),
            ) by {
                assert(actions@[i]@ == wanted.actions[i]);
                if actions@[i] is Relay {
                    law_only_chat_is_relayed(self.addr(), clients.order(), phase, seen, i);
                }
            }
        }
        actions
    }
}

} // verus!
