//! What holds of every connection, whatever happens in it.

use crate::clients::{lemma_others, others, ClientAddr};
use crate::json::{json_string, law_plain_text_is_kept, lookup, parsed_json, JsonView};
use crate::message::{
    inbound_of, law_answer_text, law_candidate_is_read_by_name, law_message_text,
    law_type_decides, message_text, CandidateInitView, CandidateMessageView, Inbound, InboundView,
    MessageView,
};
use crate::peer::offer_description;
use crate::session::{
    actions_view, expected, farewell, inbound_reaction, offer_reaction, reaches_others, reaction,
    Action, ActionView, Event, EventView, Frame, FrameView, Notice, NoticeView, PhaseView,
};
use vstd::prelude::*;
use webrtc::error::Error;
use webrtc::peer_connection::sdp::session_description::RTCSessionDescription;

verus! {

/// Whether the session waits for the outcome of `action`, or stops with it.
pub open spec fn is_request(action: ActionView) -> bool {
    match action {
        ActionView::RegisterCodecs => true,
        ActionView::CreatePeer(_) => true,
        ActionView::Receive => true,
        ActionView::SendPong(_) => true,
        ActionView::SetRemoteDescription(_) => true,
        ActionView::CreateAnswer => true,
        ActionView::SetLocalDescription(_) => true,
        ActionView::AddCandidate(_) => true,
        ActionView::Return => true,
        ActionView::Crash(_) => true,
        _ => false,
    }
}

/// Whether `action` is the one whose outcome a session in `phase` waits for.
pub open spec fn is_awaited(phase: PhaseView, action: ActionView) -> bool {
    match phase {
        PhaseView::Upgrading => false,
        PhaseView::RegisteringCodecs => action is RegisterCodecs,
        PhaseView::CreatingPeer => action is CreatePeer,
        PhaseView::Listening => action is Receive,
        PhaseView::SendingPong => action is SendPong,
        PhaseView::SettingRemoteDescription => action is SetRemoteDescription,
        PhaseView::CreatingAnswer => action is CreateAnswer,
        PhaseView::SettingLocalDescription(_) => action is SetLocalDescription,
        PhaseView::AddingCandidate => action is AddCandidate,
        PhaseView::Ended => action is Return || action is Crash,
    }
}

/// What the client said, if `event` is a text of it.
pub open spec fn said(event: EventView) -> Option<InboundView> {
    match event {
        EventView::Received(FrameView::Text(text)) => Some(inbound_of(parsed_json(text))),
        _ => None,
    }
}

/// Upon every event the session asks for something, and for one thing at a time:
/// the last action, and no other, is one to be waited for, and it is what the new
/// phase waits for.
pub proof fn law_one_request_at_a_time(
    addr: ClientAddr,
    order: Seq<ClientAddr>,
    phase: PhaseView,
    event: EventView,
)
    requires
        expected(phase, event),
    ensures
        reaction(addr, order, phase, event).actions.len() > 0,
        is_awaited(
            reaction(addr, order, phase, event).phase,
            reaction(addr, order, phase, event).actions.last(),
        ),
        forall|i: int|
            0 <= i < reaction(addr, order, phase, event).actions.len() - 1 ==> !is_request(
                #[trigger] reaction(addr, order, phase, event).actions[i],
            ),
{
}

/// A connection that is over takes in nothing more, and every other one can still
/// be told something.
pub proof fn law_end_is_final(phase: PhaseView)
    ensures
        phase is Ended ==> forall|event: EventView| !expected(phase, event),
        !(phase is Ended) ==> exists|event: EventView| expected(phase, event),
{
    if !(phase is Ended) {
        let event = match phase {
            PhaseView::Upgrading => EventView::Upgraded(Ok(())),
            PhaseView::RegisteringCodecs => EventView::CodecsRegistered(Ok(())),
            PhaseView::CreatingPeer => EventView::PeerCreated(Ok(())),
            PhaseView::Listening => EventView::StreamEnded,
            PhaseView::SendingPong => EventView::PongSent(Ok(())),
            PhaseView::SettingRemoteDescription => EventView::RemoteDescriptionSet(true),
            PhaseView::CreatingAnswer => EventView::AnswerCreated(None),
            PhaseView::SettingLocalDescription(_) => EventView::LocalDescriptionSet(true),
            _ => EventView::CandidateAdded(true),
        };
        assert(expected(phase, event));
    }
}

/// A chat message goes out, as it was written, to every registered client but its
/// sender, to each of them once, and the sender is listened to again.
pub proof fn law_chat_reaches_all_others(
    addr: ClientAddr,
    order: Seq<ClientAddr>,
    phase: PhaseView,
    event: EventView,
    message: MessageView,
)
    requires
        order.no_duplicates(),
        expected(phase, event),
        said(event) == Some(InboundView::Chat(Some(message))),
    ensures
        reaction(addr, order, phase, event).phase == PhaseView::Listening,
        reaction(addr, order, phase, event).actions == seq![
            ActionView::Print(NoticeView::ChatReceived(message)),
            ActionView::Relay(
                others(order, addr),
                "{\"msg_type\":"@ + json_string(message.msg_type) + ",\"content\":"@ + json_string(
                    message.content,
                ) + "}"@,
            ),
            ActionView::Receive,
        ],
        others(order, addr).no_duplicates(),
        forall|a: ClientAddr| #[trigger]
            others(order, addr).contains(a) <==> order.contains(a) && a != addr,
{
    lemma_others(order, addr);
    law_message_text(message);
    assert(reaction(addr, order, phase, event).actions =~= seq![
        ActionView::Print(NoticeView::ChatReceived(message)),
        ActionView::Relay(others(order, addr), message_text(message)),
        ActionView::Receive,
    ]);
}

/// Nothing is relayed but chat messages.
pub proof fn law_only_chat_is_relayed(
    addr: ClientAddr,
    order: Seq<ClientAddr>,
    phase: PhaseView,
    event: EventView,
    i: int,
)
    requires
        expected(phase, event),
        0 <= i < reaction(addr, order, phase, event).actions.len(),
        reaction(addr, order, phase, event).actions[i] is Relay,
    ensures
        said(event) matches Some(InboundView::Chat(Some(message))) && reaction(
            addr,
            order,
            phase,
            event,
        ).actions[i] == ActionView::Relay(others(order, addr), message_text(message)),
{
}

/// A ping is answered, to the one that sent it, and nothing else is answered so.
pub proof fn law_ping_is_answered(
    addr: ClientAddr,
    order: Seq<ClientAddr>,
    phase: PhaseView,
    event: EventView,
)
    requires
        expected(phase, event),
    ensures
        said(event) == Some(InboundView::Ping) ==> reaction(addr, order, phase, event).actions
            == seq![
            ActionView::Print(NoticeView::PingReceived),
            ActionView::SendPong("{ 'msg_type': 'pong', 'content': [] }"@),
        ],
        forall|i: int|
            0 <= i < reaction(addr, order, phase, event).actions.len() && (#[trigger] reaction(
                addr,
                order,
                phase,
                event,
            ).actions[i]) is SendPong ==> said(event) == Some(InboundView::Ping),
{
}

/// Whether the server has nothing to do for such a text.
pub open spec fn is_idle(inbound: InboundView) -> bool {
    match inbound {
        InboundView::Malformed(_) => true,
        InboundView::Untyped => true,
        InboundView::Unknown(_) => true,
        InboundView::Chat(None) => true,
        InboundView::Offer(None) => true,
        InboundView::Candidate(None) => true,
        _ => false,
    }
}

/// Whether the server has nothing to do upon `event`: a text of that kind, or a
/// message that is neither a text nor the end.
pub open spec fn is_ignored(event: EventView) -> bool {
    match event {
        EventView::Received(FrameView::Text(text)) => is_idle(inbound_of(parsed_json(text))),
        EventView::Received(FrameView::Other) => true,
        _ => false,
    }
}

/// A message that cannot be read, or that the server does not know, is at most
/// logged: nothing is sent, the peer connection is left alone, and the client is
/// listened to as before.
pub proof fn law_unreadable_message_is_ignored(
    addr: ClientAddr,
    order: Seq<ClientAddr>,
    phase: PhaseView,
    event: EventView,
)
    requires
        expected(phase, event),
        is_ignored(event),
    ensures
        reaction(addr, order, phase, event).phase == phase,
        reaction(addr, order, phase, event).actions.len() <= 2,
        reaction(addr, order, phase, event).actions.last() == ActionView::Receive,
        forall|i: int|
            0 <= i < reaction(addr, order, phase, event).actions.len() - 1 ==> (#[trigger] reaction(
                addr,
                order,
                phase,
                event,
            ).actions[i]) is Print,
{
}

/// An offer is taken up step by step: an answer is asked for only once the remote
/// description is set, and set only once it has been created, and the description
/// that is held meanwhile is the created one.
pub proof fn law_negotiation_in_order(
    addr: ClientAddr,
    order: Seq<ClientAddr>,
    phase: PhaseView,
    event: EventView,
)
    requires
        expected(phase, event),
    ensures
        reaction(addr, order, phase, event).phase is SettingRemoteDescription ==> (said(
            event,
        ) matches Some(InboundView::Offer(Some(offer))) && offer_description(offer.content) is Ok),
        reaction(addr, order, phase, event).phase is CreatingAnswer ==> phase
            is SettingRemoteDescription && event == EventView::RemoteDescriptionSet(true),
        reaction(addr, order, phase, event).phase matches PhaseView::SettingLocalDescription(sdp)
            ==> phase is CreatingAnswer && (event matches EventView::AnswerCreated(Some(answer))
            && answer.1 == sdp),
{
}

/// What is set as the local description is the answer that was created just
/// before.
pub proof fn law_created_answer_is_set(
    addr: ClientAddr,
    order: Seq<ClientAddr>,
    phase: PhaseView,
    event: EventView,
    i: int,
)
    requires
        expected(phase, event),
        0 <= i < reaction(addr, order, phase, event).actions.len(),
        reaction(addr, order, phase, event).actions[i] is SetLocalDescription,
    ensures
        phase is CreatingAnswer,
        event matches EventView::AnswerCreated(Some(answer)) && reaction(
            addr,
            order,
            phase,
            event,
        ).actions[i] == ActionView::SetLocalDescription(answer.0),
{
}

/// A peer connection is created with the configured ICE servers, once the default
/// codecs are registered and only then. Without the codecs the connection is given
/// up, without a peer connection its task dies; either way the client stays in the
/// register.
pub proof fn law_peer_creation(
    addr: ClientAddr,
    order: Seq<ClientAddr>,
    phase: PhaseView,
    event: EventView,
)
    requires
        expected(phase, event),
    ensures
        forall|i: int|
            0 <= i < reaction(addr, order, phase, event).actions.len() && (#[trigger] reaction(
                addr,
                order,
                phase,
                event,
            ).actions[i]) is CreatePeer ==> phase is RegisteringCodecs && event matches
                EventView::CodecsRegistered(Ok(_)),
        event matches EventView::CodecsRegistered(Ok(_)) ==> reaction(
            addr,
            order,
            phase,
            event,
        ).actions == seq![
            ActionView::CreatePeer(seq![seq!["stun:stun.l.google.com:19302"@]]),
        ],
        event matches EventView::CodecsRegistered(Err(error)) ==> reaction(
            addr,
            order,
            phase,
            event,
        ).actions == seq![ActionView::Print(NoticeView::PeerFailed(error)), ActionView::Return],
        event matches EventView::PeerCreated(Err(error)) ==> reaction(
            addr,
            order,
            phase,
            event,
        ).actions == seq![ActionView::Crash(error)],
{
}

/// An answer is sent only to a registered client, only when the local description
/// is set, and with that description.
pub proof fn law_answer_is_local_description(
    addr: ClientAddr,
    order: Seq<ClientAddr>,
    phase: PhaseView,
    event: EventView,
    i: int,
)
    requires
        expected(phase, event),
        0 <= i < reaction(addr, order, phase, event).actions.len(),
        reaction(addr, order, phase, event).actions[i] is SendAnswer,
    ensures
        order.contains(addr),
        event == EventView::LocalDescriptionSet(true),
        phase matches PhaseView::SettingLocalDescription(sdp) && reaction(
            addr,
            order,
            phase,
            event,
        ).actions[i] == ActionView::SendAnswer(
            "{\"msg_type\":\"answer\",\"content\":"@ + json_string(sdp) + "}"@,
        ),
{
    law_answer_text(phase->SettingLocalDescription_0);
}

/// An offer that is a session description is answered, if the peer connection
/// does its part: the offer is set as the remote description, an answer is
/// created and set as the local description, and its text goes to the client.
pub proof fn law_offer_is_answered(
    addr: ClientAddr,
    order: Seq<ClientAddr>,
    text: Seq<char>,
    offer: MessageView,
    description: RTCSessionDescription,
    answer: RTCSessionDescription,
    sdp: Seq<char>,
)
    requires
        inbound_of(parsed_json(text)) == InboundView::Offer(Some(offer)),
        offer_description(offer.content) == Ok::<RTCSessionDescription, Error>(description),
        order.contains(addr),
    ensures
        ({
            let received = EventView::Received(FrameView::Text(text));
            let first = reaction(addr, order, PhaseView::Listening, received);
            let second = reaction(addr, order, first.phase, EventView::RemoteDescriptionSet(true));
            let created = EventView::AnswerCreated(Some((answer, sdp)));
            let third = reaction(addr, order, second.phase, created);
            let fourth = reaction(addr, order, third.phase, EventView::LocalDescriptionSet(true));
            &&& first.actions.last() == ActionView::SetRemoteDescription(description)
            &&& expected(first.phase, EventView::RemoteDescriptionSet(true))
            &&& second.actions.last() == ActionView::CreateAnswer
            &&& expected(second.phase, created)
            &&& third.actions.last() == ActionView::SetLocalDescription(answer)
            &&& expected(third.phase, EventView::LocalDescriptionSet(true))
            &&& fourth.actions.contains(
                ActionView::SendAnswer(
                    "{\"msg_type\":\"answer\",\"content\":"@ + json_string(sdp) + "}"@,
                ),
            )
            &&& fourth.phase == PhaseView::Listening
        }),
{
    let third = PhaseView::SettingLocalDescription(sdp);
    let fourth = reaction(addr, order, third, EventView::LocalDescriptionSet(true));
    law_answer_text(sdp);
    assert(fourth.actions[2] == ActionView::SendAnswer(
        "{\"msg_type\":\"answer\",\"content\":"@ + json_string(sdp) + "}"@,
    ));
}

/// An offer that is a session description is answered, if the peer connection
/// does its part, whoever else comes and goes meanwhile: the offer is set as the
/// remote description, an answer is created and set as the local description, and its
/// whole text goes to the client, if it is registered by then.
pub proof fn law_offer_text_is_answered(
    addr: ClientAddr,
    orders: (Seq<ClientAddr>, Seq<ClientAddr>, Seq<ClientAddr>, Seq<ClientAddr>),
    text: Seq<char>,
    members: Seq<(Seq<char>, JsonView)>,
    offer: Seq<char>,
    description: RTCSessionDescription,
    answer: RTCSessionDescription,
    sdp: Seq<char>,
)
    requires
        parsed_json(text) == Ok::<Option<Seq<(Seq<char>, JsonView)>>, Seq<char>>(Some(members)),
        lookup(members, "msg_type"@) == Some(JsonView::Text("offer"@)),
        lookup(members, "content"@) == Some(JsonView::Text(offer)),
        offer_description(offer) == Ok::<RTCSessionDescription, Error>(description),
    ensures
        ({
            let received = EventView::Received(FrameView::Text(text));
            let created = EventView::AnswerCreated(Some((answer, sdp)));
            let first = reaction(addr, orders.0, PhaseView::Listening, received);
            let second = reaction(
                addr,
                orders.1,
                first.phase,
                EventView::RemoteDescriptionSet(true),
            );
            let third = reaction(addr, orders.2, second.phase, created);
            let fourth = reaction(
                addr,
                orders.3,
                third.phase,
                EventView::LocalDescriptionSet(true),
            );
            &&& first.actions == seq![ActionView::SetRemoteDescription(description)]
            &&& expected(first.phase, EventView::RemoteDescriptionSet(true))
            &&& second.actions == seq![
                ActionView::Print(NoticeView::RemoteDescriptionSet),
                ActionView::CreateAnswer,
            ]
            &&& expected(second.phase, created)
            &&& third.actions == seq![
                ActionView::Print(NoticeView::AnswerCreated),
                ActionView::SetLocalDescription(answer),
            ]
            &&& expected(third.phase, EventView::LocalDescriptionSet(true))
            &&& orders.3.contains(addr) ==> fourth.actions == seq![
                ActionView::Print(NoticeView::LocalDescriptionSet),
                ActionView::Print(NoticeView::SendingAnswer),
                ActionView::SendAnswer(
                    "{\"msg_type\":\"answer\",\"content\":"@ + json_string(sdp) + "}"@,
                ),
                ActionView::Receive,
            ]
            &&& !orders.3.contains(addr) ==> fourth.actions == seq![
                ActionView::Print(NoticeView::LocalDescriptionSet),
                ActionView::Print(NoticeView::ClientMissing),
                ActionView::Receive,
            ]
            &&& fourth.phase == PhaseView::Listening
        }),
{
    law_type_decides(members);
    law_answer_text(sdp);
    let fourth = reaction(
        addr,
        orders.3,
        PhaseView::SettingLocalDescription(sdp),
        EventView::LocalDescriptionSet(true),
    );
    if orders.3.contains(addr) {
        assert(fourth.actions =~= seq![
            ActionView::Print(NoticeView::LocalDescriptionSet),
            ActionView::Print(NoticeView::SendingAnswer),
            ActionView::SendAnswer(
                "{\"msg_type\":\"answer\",\"content\":"@ + json_string(sdp) + "}"@,
            ),
            ActionView::Receive,
        ]);
    } else {
        assert(fourth.actions =~= seq![
            ActionView::Print(NoticeView::LocalDescriptionSet),
            ActionView::Print(NoticeView::ClientMissing),
            ActionView::Receive,
        ]);
    }
}

/// A client's candidate is handed to the peer connection as it came.
pub proof fn law_candidate_is_handed_on(
    addr: ClientAddr,
    order: Seq<ClientAddr>,
    phase: PhaseView,
    event: EventView,
    message: CandidateMessageView,
)
    requires
        expected(phase, event),
        said(event) == Some(InboundView::Candidate(Some(message))),
    ensures
        reaction(addr, order, phase, event).actions == seq![
            ActionView::AddCandidate(
                CandidateInitView {
                    candidate: message.content,
                    sdp_mid: message.sdp_mid,
                    sdp_mline_index: message.sdp_mline_index,
                    username_fragment: message.username_fragment,
                },
            ),
        ],
{
}

/// A client is registered once in the life of its connection, at the start, and
/// is taken out only at the end.
pub proof fn law_registered_once(
    addr: ClientAddr,
    order: Seq<ClientAddr>,
    phase: PhaseView,
    event: EventView,
    i: int,
)
    requires
        expected(phase, event),
        0 <= i < reaction(addr, order, phase, event).actions.len(),
    ensures
        !(reaction(addr, order, phase, event).phase is Upgrading),
        reaction(addr, order, phase, event).actions[i] is Register ==> phase is Upgrading,
        reaction(addr, order, phase, event).actions[i] is Unregister ==> reaction(
            addr,
            order,
            phase,
            event,
        ).phase is Ended,
{
}

/// However a served connection ends, the client is taken out of the register, the
/// peer connection is closed and the forwarding stops. The one exception is an
/// offer that is no session description: then the task dies as it is.
pub proof fn law_end_cleans_up(
    addr: ClientAddr,
    order: Seq<ClientAddr>,
    phase: PhaseView,
    event: EventView,
)
    requires
        expected(phase, event),
        !(phase is Upgrading),
        !(phase is RegisteringCodecs),
        !(phase is CreatingPeer),
        reaction(addr, order, phase, event).phase is Ended,
    ensures
        (said(event) matches Some(InboundView::Offer(Some(offer))) && offer_description(
            offer.content,
        ) is Err) || {
            let actions = reaction(addr, order, phase, event).actions;
            actions.len() >= farewell().len() && actions.skip(actions.len() - farewell().len())
                == farewell()
        },
{
    let actions = reaction(addr, order, phase, event).actions;
    if actions.len() >= 5 {
        assert(actions.skip(actions.len() - 5) =~= farewell());
    }
}

/// A client that has finished the handshake is registered, what arrives for it is
/// forwarded from then on, and only then its peer connection is prepared, whoever is
/// registered at that moment. A failed handshake is logged, and that is all.
pub proof fn law_handshake_starts_service(
    addr: ClientAddr,
    order: Seq<ClientAddr>,
    phase: PhaseView,
    event: EventView,
)
    requires
        expected(phase, event),
    ensures
        event matches EventView::Upgraded(Ok(_)) ==> reaction(addr, order, phase, event).actions
            == seq![
            ActionView::Register,
            ActionView::StartForwarding,
            ActionView::RegisterCodecs,
        ],
        event matches EventView::Upgraded(Err(error)) ==> reaction(addr, order, phase, event).actions
            == seq![ActionView::Print(NoticeView::UpgradeFailed(error)), ActionView::Return],
        event matches EventView::PeerCreated(Ok(_)) ==> reaction(addr, order, phase, event).actions
            == seq![ActionView::WatchPeer, ActionView::Receive],
        forall|i: int|
            0 <= i < reaction(addr, order, phase, event).actions.len() && (#[trigger] reaction(
                addr,
                order,
                phase,
                event,
            ).actions[i]) is StartForwarding ==> event matches EventView::Upgraded(Ok(_)),
        forall|i: int|
            0 <= i < reaction(addr, order, phase, event).actions.len() && (#[trigger] reaction(
                addr,
                order,
                phase,
                event,
            ).actions[i]) is WatchPeer ==> event matches EventView::PeerCreated(Ok(_)),
{
    if event matches EventView::PeerCreated(Ok(_)) {
        assert(reaction(addr, order, phase, event).actions =~= seq![
            ActionView::WatchPeer,
            ActionView::Receive,
        ]);
    }
}

/// Who is registered matters to two things alone: to whom a chat message goes, and
/// whether a client is still there to be sent its answer. Upon every other event a
/// session does the same, whoever is registered.
pub proof fn law_others_do_not_interfere(
    addr: ClientAddr,
    order: Seq<ClientAddr>,
    other_order: Seq<ClientAddr>,
    phase: PhaseView,
    event: EventView,
)
    requires
        expected(phase, event),
        !(said(event) matches Some(InboundView::Chat(Some(_)))),
        event == EventView::LocalDescriptionSet(true) ==> (order.contains(addr)
            <==> other_order.contains(addr)),
    ensures
        reaction(addr, order, phase, event) == reaction(addr, other_order, phase, event),
{
}

/// When a client that is listened to closes its websocket, when its stream ends and
/// when receiving fails, its connection is over, whoever else is registered: the
/// client is unregistered, its peer connection closed and the forwarding stopped. The
/// same happens when the answer to a ping cannot be sent.
pub proof fn law_disconnected_client_is_dropped(
    addr: ClientAddr,
    order: Seq<ClientAddr>,
    phase: PhaseView,
    event: EventView,
)
    requires
        expected(phase, event),
    ensures
        event == EventView::Received(FrameView::Close) ==> reaction(addr, order, phase, event).phase
            is Ended && reaction(addr, order, phase, event).actions == seq![
            ActionView::Print(NoticeView::Closing),
            ActionView::ClosePeer,
            ActionView::Print(NoticeView::Disconnected),
            ActionView::Unregister,
            ActionView::ClosePeer,
            ActionView::StopForwarding,
            ActionView::Return,
        ],
        event is StreamEnded ==> reaction(addr, order, phase, event).phase is Ended && reaction(
            addr,
            order,
            phase,
            event,
        ).actions == seq![
            ActionView::Print(NoticeView::Disconnected),
            ActionView::Unregister,
            ActionView::ClosePeer,
            ActionView::StopForwarding,
            ActionView::Return,
        ],
        event matches EventView::ReceiveFailed(error) ==> reaction(addr, order, phase, event).phase
            is Ended && reaction(addr, order, phase, event).actions == seq![
            ActionView::Print(NoticeView::ReceiveFailed(error)),
            ActionView::Print(NoticeView::Disconnected),
            ActionView::Unregister,
            ActionView::ClosePeer,
            ActionView::StopForwarding,
            ActionView::Return,
        ],
        event matches EventView::PongSent(Err(error)) ==> reaction(addr, order, phase, event).phase
            is Ended && reaction(addr, order, phase, event).actions == seq![
            ActionView::Print(NoticeView::PongFailed(error)),
            ActionView::Print(NoticeView::Disconnected),
            ActionView::Unregister,
            ActionView::ClosePeer,
            ActionView::StopForwarding,
            ActionView::Return,
        ],
{
    let actions = reaction(addr, order, phase, event).actions;
    match event {
        EventView::Received(FrameView::Close) => {
            assert(actions =~= seq![
                ActionView::Print(NoticeView::Closing),
                ActionView::ClosePeer,
                ActionView::Print(NoticeView::Disconnected),
                ActionView::Unregister,
                ActionView::ClosePeer,
                ActionView::StopForwarding,
                ActionView::Return,
            ]);
        },
        EventView::StreamEnded => {
            assert(actions =~= seq![
                ActionView::Print(NoticeView::Disconnected),
                ActionView::Unregister,
                ActionView::ClosePeer,
                ActionView::StopForwarding,
                ActionView::Return,
            ]);
        },
        EventView::ReceiveFailed(error) => {
            assert(actions =~= seq![
                ActionView::Print(NoticeView::ReceiveFailed(error)),
                ActionView::Print(NoticeView::Disconnected),
                ActionView::Unregister,
                ActionView::ClosePeer,
                ActionView::StopForwarding,
                ActionView::Return,
            ]);
        },
        EventView::PongSent(Err(error)) => {
            assert(actions =~= seq![
                ActionView::Print(NoticeView::PongFailed(error)),
                ActionView::Print(NoticeView::Disconnected),
                ActionView::Unregister,
                ActionView::ClosePeer,
                ActionView::StopForwarding,
                ActionView::Return,
            ]);
        },
        _ => {},
    }
}

/// A connection is over in these cases and in no others: the handshake failed, there
/// is no peer connection, the client is gone, the answer to a ping did not go out, or
/// an offer is no session description.
pub proof fn law_when_a_connection_ends(
    addr: ClientAddr,
    order: Seq<ClientAddr>,
    phase: PhaseView,
    event: EventView,
)
    requires
        expected(phase, event),
    ensures
        reaction(addr, order, phase, event).phase is Ended <==> {
            ||| event matches EventView::Upgraded(Err(_))
            ||| event matches EventView::CodecsRegistered(Err(_))
            ||| event matches EventView::PeerCreated(Err(_))
            ||| event matches EventView::Received(FrameView::Close)
            ||| event is ReceiveFailed
            ||| event is StreamEnded
            ||| event matches EventView::PongSent(Err(_))
            ||| (said(event) matches Some(InboundView::Offer(Some(offer))) && offer_description(
                offer.content,
            ) is Err)
        },
{
}

/// What a session asks for last is what it then waits for: it takes in every outcome
/// of that and nothing else, and after the end nothing at all.
pub proof fn law_every_outcome_is_taken_in(
    addr: ClientAddr,
    order: Seq<ClientAddr>,
    phase: PhaseView,
    event: EventView,
    outcome: EventView,
)
    requires
        expected(phase, event),
    ensures
        ({
            let next = reaction(addr, order, phase, event);
            let last = next.actions.last();
            &&& next.actions.len() > 0
            &&& last is RegisterCodecs ==> (expected(next.phase, outcome) <==> outcome
                is CodecsRegistered)
            &&& last is CreatePeer ==> (expected(next.phase, outcome) <==> outcome is PeerCreated)
            &&& last is Receive ==> (expected(next.phase, outcome) <==> outcome is Received
                || outcome is ReceiveFailed || outcome is StreamEnded)
            &&& last is SendPong ==> (expected(next.phase, outcome) <==> outcome is PongSent)
            &&& last is SetRemoteDescription ==> (expected(next.phase, outcome) <==> outcome
                is RemoteDescriptionSet)
            &&& last is CreateAnswer ==> (expected(next.phase, outcome) <==> outcome
                is AnswerCreated)
            &&& last is SetLocalDescription ==> (expected(next.phase, outcome) <==> outcome
                is LocalDescriptionSet)
            &&& last is AddCandidate ==> (expected(next.phase, outcome) <==> outcome
                is CandidateAdded)
            &&& (last is Return || last is Crash) <==> next.phase is Ended
            &&& last is Receive <==> next.phase is Listening
            &&& next.phase is Ended ==> !expected(next.phase, outcome)
            &&& (expected(PhaseView::Upgrading, outcome) <==> outcome is Upgraded)
        }),
{
}

/// What comes of each step with the peer connection: it is logged, and either the
/// next step is asked for or the client is listened to again.
pub proof fn law_peer_steps(
    addr: ClientAddr,
    order: Seq<ClientAddr>,
    phase: PhaseView,
    event: EventView,
)
    requires
        expected(phase, event),
    ensures
        event == EventView::RemoteDescriptionSet(true) ==> reaction(
            addr,
            order,
            phase,
            event,
        ).actions == seq![
            ActionView::Print(NoticeView::RemoteDescriptionSet),
            ActionView::CreateAnswer,
        ],
        event == EventView::RemoteDescriptionSet(false) ==> reaction(
            addr,
            order,
            phase,
            event,
        ).actions == seq![
            ActionView::Print(NoticeView::RemoteDescriptionRefused),
            ActionView::Receive,
        ],
        event matches EventView::AnswerCreated(Some(answer)) ==> reaction(
            addr,
            order,
            phase,
            event,
        ).actions == seq![
            ActionView::Print(NoticeView::AnswerCreated),
            ActionView::SetLocalDescription(answer.0),
        ],
        event matches EventView::AnswerCreated(None) ==> reaction(
            addr,
            order,
            phase,
            event,
        ).actions == seq![ActionView::Print(NoticeView::AnswerRefused), ActionView::Receive],
        event == EventView::LocalDescriptionSet(false) ==> reaction(
            addr,
            order,
            phase,
            event,
        ).actions == seq![
            ActionView::Print(NoticeView::LocalDescriptionRefused),
            ActionView::Receive,
        ],
        event == EventView::CandidateAdded(true) ==> reaction(addr, order, phase, event).actions
            == seq![ActionView::Print(NoticeView::CandidateAdded), ActionView::Receive],
        event == EventView::CandidateAdded(false) ==> reaction(addr, order, phase, event).actions
            == seq![ActionView::Print(NoticeView::CandidateRefused), ActionView::Receive],
        event matches EventView::PongSent(Ok(_)) ==> reaction(addr, order, phase, event).actions
            == seq![ActionView::Receive],
        event == EventView::Received(FrameView::Other) ==> reaction(
            addr,
            order,
            phase,
            event,
        ).actions == seq![ActionView::Receive],
{
    let actions = reaction(addr, order, phase, event).actions;
    match event {
        EventView::RemoteDescriptionSet(false) => {
            assert(actions =~= seq![
                ActionView::Print(NoticeView::RemoteDescriptionRefused),
                ActionView::Receive,
            ]);
        },
        EventView::AnswerCreated(None) => {
            assert(actions =~= seq![
                ActionView::Print(NoticeView::AnswerRefused),
                ActionView::Receive,
            ]);
        },
        EventView::LocalDescriptionSet(false) => {
            assert(actions =~= seq![
                ActionView::Print(NoticeView::LocalDescriptionRefused),
                ActionView::Receive,
            ]);
        },
        EventView::CandidateAdded(true) => {
            assert(actions =~= seq![
                ActionView::Print(NoticeView::CandidateAdded),
                ActionView::Receive,
            ]);
        },
        EventView::CandidateAdded(false) => {
            assert(actions =~= seq![
                ActionView::Print(NoticeView::CandidateRefused),
                ActionView::Receive,
            ]);
        },
        EventView::PongSent(Ok(_)) | EventView::Received(FrameView::Other) => {
            assert(actions =~= seq![ActionView::Receive]);
        },
        _ => {},
    }
}

/// A text of type `chat` with a textual content goes out, whole, to every registered
/// client but its sender, to each of them once; without one it is passed over.
pub proof fn law_chat_text_is_relayed(
    addr: ClientAddr,
    order: Seq<ClientAddr>,
    text: Seq<char>,
    members: Seq<(Seq<char>, JsonView)>,
)
    requires
        order.no_duplicates(),
        parsed_json(text) == Ok::<Option<Seq<(Seq<char>, JsonView)>>, Seq<char>>(Some(members)),
        lookup(members, "msg_type"@) == Some(JsonView::Text("chat"@)),
    ensures
        ({
            let event = EventView::Received(FrameView::Text(text));
            let next = reaction(addr, order, PhaseView::Listening, event);
            &&& next.phase == PhaseView::Listening
            &&& match lookup(members, "content"@) {
                Some(JsonView::Text(content)) => {
                    &&& next.actions.len() == 3
                    &&& next.actions[0] == ActionView::Print(
                        NoticeView::ChatReceived(MessageView { msg_type: "chat"@, content }),
                    )
                    &&& next.actions[1] matches ActionView::Relay(to, out) && {
                        &&& out == "{\"msg_type\":\"chat\",\"content\":"@ + json_string(content)
                            + "}"@
                        &&& to.no_duplicates()
                        &&& forall|a: ClientAddr| #[trigger]
                            to.contains(a) <==> order.contains(a) && a != addr
                    }
                    &&& next.actions[2] == ActionView::Receive
                },
                _ => next.actions == seq![ActionView::Receive],
            }
        }),
{
    law_type_decides(members);
    let event = EventView::Received(FrameView::Text(text));
    let next = reaction(addr, order, PhaseView::Listening, event);
    if let Some(JsonView::Text(content)) = lookup(members, "content"@) {
        let message = MessageView { msg_type: "chat"@, content };
        law_chat_reaches_all_others(addr, order, PhaseView::Listening, event, message);
        reveal_strlit("chat");
        reveal_strlit("{\"msg_type\":");
        reveal_strlit(",\"content\":");
        reveal_strlit("{\"msg_type\":\"chat\",\"content\":");
        law_plain_text_is_kept("chat"@);
        assert("{\"msg_type\":"@ + json_string("chat"@) + ",\"content\":"@
            =~= "{\"msg_type\":\"chat\",\"content\":"@);
    } else {
        assert(next.actions =~= seq![ActionView::Receive]);
    }
}

/// A text of type `offer` whose content is a session description is set as the remote
/// description. With another textual content the task dies of the parser's error, and
/// without one the text is logged as unreadable.
pub proof fn law_offer_text_is_set(
    addr: ClientAddr,
    order: Seq<ClientAddr>,
    text: Seq<char>,
    members: Seq<(Seq<char>, JsonView)>,
)
    requires
        parsed_json(text) == Ok::<Option<Seq<(Seq<char>, JsonView)>>, Seq<char>>(Some(members)),
        lookup(members, "msg_type"@) == Some(JsonView::Text("offer"@)),
    ensures
        ({
            let event = EventView::Received(FrameView::Text(text));
            let next = reaction(addr, order, PhaseView::Listening, event);
            match lookup(members, "content"@) {
                Some(JsonView::Text(content)) => match offer_description(content) {
                    Ok(description) => next.actions == seq![
                        ActionView::SetRemoteDescription(description),
                    ],
                    Err(error) => next.phase is Ended && next.actions == seq![
                        ActionView::Crash(error),
                    ],
                },
                _ => next.actions == seq![
                    ActionView::Print(NoticeView::OfferUnreadable),
                    ActionView::Receive,
                ],
            }
        }),
{
    law_type_decides(members);
    let event = EventView::Received(FrameView::Text(text));
    let next = reaction(addr, order, PhaseView::Listening, event);
    if !(lookup(members, "content"@) matches Some(JsonView::Text(_))) {
        assert(next.actions =~= seq![
            ActionView::Print(NoticeView::OfferUnreadable),
            ActionView::Receive,
        ]);
    }
}

/// A text of type `candidate` hands exactly the candidate that it spells out to the
/// peer connection: the line under `content`, and each of the other parts under its
/// own name, absent where the text has none or null there. Where a part is of another
/// kind the text is logged as unreadable.
pub proof fn law_candidate_text_is_handed_on(
    addr: ClientAddr,
    order: Seq<ClientAddr>,
    text: Seq<char>,
    members: Seq<(Seq<char>, JsonView)>,
)
    requires
        parsed_json(text) == Ok::<Option<Seq<(Seq<char>, JsonView)>>, Seq<char>>(Some(members)),
        lookup(members, "msg_type"@) == Some(JsonView::Text("candidate"@)),
    ensures
        ({
            let event = EventView::Received(FrameView::Text(text));
            let next = reaction(addr, order, PhaseView::Listening, event);
            if {
                &&& (lookup(members, "content"@) matches Some(JsonView::Text(_)))
                &&& (lookup(members, "sdp_mid"@) matches Some(value) ==> value is Null || value
                    is Text)
                &&& (lookup(members, "sdp_mline_index"@) matches Some(value) ==> value is Null || (
                value matches JsonView::Number(Some(n)) && n <= 0xffff))
                &&& (lookup(members, "username_fragment"@) matches Some(value) ==> value is Null
                    || value is Text)
            } {
                &&& next.actions.len() == 1
                &&& next.actions[0] matches ActionView::AddCandidate(init) && {
                    &&& lookup(members, "content"@) == Some(JsonView::Text(init.candidate))
                    &&& match lookup(members, "sdp_mid"@) {
                        Some(JsonView::Text(sdp_mid)) => init.sdp_mid == Some(sdp_mid),
                        _ => init.sdp_mid is None,
                    }
                    &&& match lookup(members, "sdp_mline_index"@) {
                        Some(JsonView::Number(Some(n))) => init.sdp_mline_index matches Some(index)
                            && index == n,
                        _ => init.sdp_mline_index is None,
                    }
                    &&& match lookup(members, "username_fragment"@) {
                        Some(JsonView::Text(fragment)) => init.username_fragment == Some(fragment),
                        _ => init.username_fragment is None,
                    }
                }
            } else {
                next.actions == seq![
                    ActionView::Print(NoticeView::CandidateUnreadable),
                    ActionView::Receive,
                ]
            }
        }),
{
    law_type_decides(members);
    law_candidate_is_read_by_name(members);
    let event = EventView::Received(FrameView::Text(text));
    let next = reaction(addr, order, PhaseView::Listening, event);
    if inbound_of(Ok(Some(members))) == InboundView::Candidate(None) {
        assert(next.actions =~= seq![
            ActionView::Print(NoticeView::CandidateUnreadable),
            ActionView::Receive,
        ]);
    }
}

/// A ping is answered, whatever else the text holds. A text of an unknown type, one
/// without a type and one that is no JSON are logged as what they are, and the client
/// is listened to again.
pub proof fn law_other_texts(addr: ClientAddr, order: Seq<ClientAddr>, text: Seq<char>)
    ensures
        ({
            let event = EventView::Received(FrameView::Text(text));
            let actions = reaction(addr, order, PhaseView::Listening, event).actions;
            match parsed_json(text) {
                Err(error) => actions == seq![
                    ActionView::Print(NoticeView::MalformedJson(error)),
                    ActionView::Receive,
                ],
                Ok(None) => actions == seq![
                    ActionView::Print(NoticeView::TypeMissing),
                    ActionView::Receive,
                ],
                Ok(Some(members)) => match lookup(members, "msg_type"@) {
                    Some(JsonView::Text(msg_type)) => {
                        &&& msg_type == "ping"@ ==> actions == seq![
                            ActionView::Print(NoticeView::PingReceived),
                            ActionView::SendPong("{ 'msg_type': 'pong', 'content': [] }"@),
                        ]
                        &&& msg_type != "ping"@ && msg_type != "chat"@ && msg_type != "offer"@
                            && msg_type != "candidate"@ ==> actions == seq![
                            ActionView::Print(NoticeView::UnknownType(msg_type)),
                            ActionView::Receive,
                        ]
                    },
                    _ => actions == seq![
                        ActionView::Print(NoticeView::TypeMissing),
                        ActionView::Receive,
                    ],
                },
            }
        }),
{
    let event = EventView::Received(FrameView::Text(text));
    let actions = reaction(addr, order, PhaseView::Listening, event).actions;
    if let Ok(Some(members)) = parsed_json(text) {
        law_type_decides(members);
    }
    match inbound_of(parsed_json(text)) {
        InboundView::Malformed(error) => {
            assert(actions =~= seq![
                ActionView::Print(NoticeView::MalformedJson(error)),
                ActionView::Receive,
            ]);
        },
        InboundView::Untyped => {
            assert(actions =~= seq![
                ActionView::Print(NoticeView::TypeMissing),
                ActionView::Receive,
            ]);
        },
        InboundView::Unknown(msg_type) => {
            assert(actions =~= seq![
                ActionView::Print(NoticeView::UnknownType(msg_type)),
                ActionView::Receive,
            ]);
        },
        _ => {},
    }
}

/// What a session does with a text goes by what the text is, and with an offer by what
/// the parser made of it: the session that is told the text does what the session does
/// that is told the reading.
pub proof fn law_reading_is_what_counts(
    addr: ClientAddr,
    order: Seq<ClientAddr>,
    text: Seq<char>,
    offer: MessageView,
)
    ensures
        reaction(addr, order, PhaseView::Listening, EventView::Received(FrameView::Text(text)))
            == inbound_reaction(addr, order, inbound_of(parsed_json(text))),
        inbound_reaction(addr, order, InboundView::Offer(Some(offer))) == offer_reaction(
            offer_description(offer.content),
        ),
{
}

/// An event is seen as what it is, with all that it brings.
pub proof fn law_events_are_seen(event: Event)
    ensures
        match event {
            Event::Upgraded(Ok(_)) => event@ matches EventView::Upgraded(Ok(_)),
            Event::Upgraded(Err(e)) => event@ == EventView::Upgraded(Err(e@)),
            Event::CodecsRegistered(Ok(_)) => event@ matches EventView::CodecsRegistered(Ok(_)),
            Event::CodecsRegistered(Err(e)) => event@ == EventView::CodecsRegistered(Err(e@)),
            Event::PeerCreated(created) => event@ == EventView::PeerCreated(created),
            Event::Received(Frame::Text(text)) => event@ == EventView::Received(
                FrameView::Text(text@),
            ),
            Event::Received(Frame::Close) => event@ == EventView::Received(FrameView::Close),
            Event::Received(Frame::Other) => event@ == EventView::Received(FrameView::Other),
            Event::ReceiveFailed(e) => event@ == EventView::ReceiveFailed(e@),
            Event::StreamEnded => event@ is StreamEnded,
            Event::PongSent(Ok(_)) => event@ matches EventView::PongSent(Ok(_)),
            Event::PongSent(Err(e)) => event@ == EventView::PongSent(Err(e@)),
            Event::RemoteDescriptionSet(done) => event@ == EventView::RemoteDescriptionSet(done),
            Event::AnswerCreated(Some(answer)) => event@ == EventView::AnswerCreated(
                Some((answer.0, answer.1@)),
            ),
            Event::AnswerCreated(None) => event@ == EventView::AnswerCreated(None),
            Event::LocalDescriptionSet(done) => event@ == EventView::LocalDescriptionSet(done),
            Event::CandidateAdded(done) => event@ == EventView::CandidateAdded(done),
        },
{
}

/// The actions are seen one by one, in their order, each as what it is and with all
/// that it carries.
pub proof fn law_actions_are_seen(actions: Seq<Action>, i: int)
    requires
        0 <= i < actions.len(),
    ensures
        actions_view(actions).len() == actions.len(),
        match (actions[i], actions_view(actions)[i]) {
            (Action::Print(a), ActionView::Print(b)) => a@ == b,
            (Action::Register, ActionView::Register) => true,
            (Action::StartForwarding, ActionView::StartForwarding) => true,
            (Action::RegisterCodecs, ActionView::RegisterCodecs) => true,
            (Action::CreatePeer(a), ActionView::CreatePeer(b)) => {
                &&& a@.len() == b.len()
                &&& forall|j: int|
                    0 <= j < b.len() ==> (#[trigger] b[j]).len() == a@[j]@.len() && forall|k: int|
                        0 <= k < b[j].len() ==> #[trigger] b[j][k] == a@[j]@[k]@
            },
            (Action::WatchPeer, ActionView::WatchPeer) => true,
            (Action::Receive, ActionView::Receive) => true,
            (Action::SendPong(a), ActionView::SendPong(b)) => a@ == b,
            (Action::Relay(a, text), ActionView::Relay(b, seen)) => a@ == b && text@ == seen,
            (Action::SetRemoteDescription(a), ActionView::SetRemoteDescription(b)) => a == b,
            (Action::CreateAnswer, ActionView::CreateAnswer) => true,
            (Action::SetLocalDescription(a), ActionView::SetLocalDescription(b)) => a == b,
            (Action::SendAnswer(a), ActionView::SendAnswer(b)) => a@ == b,
            (Action::AddCandidate(a), ActionView::AddCandidate(b)) => {
                &&& a.candidate@ == b.candidate
                &&& same_text(a.sdp_mid, b.sdp_mid)
                &&& a.sdp_mline_index == b.sdp_mline_index
                &&& same_text(a.username_fragment, b.username_fragment)
            },
            (Action::ClosePeer, ActionView::ClosePeer) => true,
            (Action::Unregister, ActionView::Unregister) => true,
            (Action::StopForwarding, ActionView::StopForwarding) => true,
            (Action::Return, ActionView::Return) => true,
            (Action::Crash(a), ActionView::Crash(b)) => a == b,
            _ => false,
        },
{
}

/// A line for the log is seen as what it is, with all that it tells.
pub proof fn law_notices_are_seen(notice: Notice)
    ensures
        match (notice, notice@) {
            (Notice::UpgradeFailed(a), NoticeView::UpgradeFailed(b)) => a@ == b,
            (Notice::PeerFailed(a), NoticeView::PeerFailed(b)) => a@ == b,
            (Notice::PingReceived, NoticeView::PingReceived) => true,
            (Notice::PongFailed(a), NoticeView::PongFailed(b)) => a@ == b,
            (Notice::ChatReceived(a), NoticeView::ChatReceived(b)) => a.msg_type@ == b.msg_type
                && a.content@ == b.content,
            (Notice::RelayFailed(to, a), NoticeView::RelayFailed(seen, b)) => to == seen && a@ == b,
            (Notice::OfferUnreadable, NoticeView::OfferUnreadable) => true,
            (Notice::RemoteDescriptionSet, NoticeView::RemoteDescriptionSet) => true,
            (Notice::RemoteDescriptionRefused, NoticeView::RemoteDescriptionRefused) => true,
            (Notice::AnswerCreated, NoticeView::AnswerCreated) => true,
            (Notice::AnswerRefused, NoticeView::AnswerRefused) => true,
            (Notice::LocalDescriptionSet, NoticeView::LocalDescriptionSet) => true,
            (Notice::LocalDescriptionRefused, NoticeView::LocalDescriptionRefused) => true,
            (Notice::SendingAnswer, NoticeView::SendingAnswer) => true,
            (Notice::ClientMissing, NoticeView::ClientMissing) => true,
            (Notice::CandidateUnreadable, NoticeView::CandidateUnreadable) => true,
            (Notice::CandidateAdded, NoticeView::CandidateAdded) => true,
            (Notice::CandidateRefused, NoticeView::CandidateRefused) => true,
            (Notice::UnknownType(a), NoticeView::UnknownType(b)) => a@ == b,
            (Notice::TypeMissing, NoticeView::TypeMissing) => true,
            (Notice::MalformedJson(a), NoticeView::MalformedJson(b)) => a@ == b,
            (Notice::Closing, NoticeView::Closing) => true,
            (Notice::ReceiveFailed(a), NoticeView::ReceiveFailed(b)) => a@ == b,
            (Notice::Disconnected, NoticeView::Disconnected) => true,
            _ => false,
        },
{
}

/// Whether the two are the same text, or both none.
pub open spec fn same_text(text: Option<String>, seen: Option<Seq<char>>) -> bool {
    match (text, seen) {
        (Some(a), Some(b)) => a@ == b,
        (None, None) => true,
        _ => false,
    }
}

/// The reading of a text is seen as what it is, with each part of its message.
pub proof fn law_readings_are_seen(inbound: Inbound)
    ensures
        match (inbound, inbound@) {
            (Inbound::Malformed(a), InboundView::Malformed(b)) => a@ == b,
            (Inbound::Untyped, InboundView::Untyped) => true,
            (Inbound::Ping, InboundView::Ping) => true,
            (Inbound::Chat(Some(a)), InboundView::Chat(Some(b))) => a.msg_type@ == b.msg_type
                && a.content@ == b.content,
            (Inbound::Chat(None), InboundView::Chat(None)) => true,
            (Inbound::Offer(Some(a)), InboundView::Offer(Some(b))) => a.msg_type@ == b.msg_type
                && a.content@ == b.content,
            (Inbound::Offer(None), InboundView::Offer(None)) => true,
            (Inbound::Candidate(Some(a)), InboundView::Candidate(Some(b))) => {
                &&& a.msg_type@ == b.msg_type
                &&& a.content@ == b.content
                &&& same_text(a.sdp_mid, b.sdp_mid)
                &&& a.sdp_mline_index == b.sdp_mline_index
                &&& same_text(a.username_fragment, b.username_fragment)
            },
            (Inbound::Candidate(None), InboundView::Candidate(None)) => true,
            (Inbound::Unknown(a), InboundView::Unknown(b)) => a@ == b,
            _ => false,
        },
{
}

/// What reaches the others is put on the channels of all registered clients but the
/// sender, of each once, and of nobody else.
pub proof fn law_others_are_all_but_the_sender(
    action: Action,
    registered: Set<ClientAddr>,
    addr: ClientAddr,
    a: ClientAddr,
)
    requires
        reaches_others(action, registered, addr),
    ensures
        action matches Action::Relay(to, _) ==> to@.no_duplicates() && (to@.contains(a)
            <==> registered.contains(a) && a != addr),
{
}

/// What a session does once it is clear what a text is, for every reading: each
/// message is taken up as it was read, and what cannot be taken up is at most logged.
pub proof fn law_every_reading_is_taken_up(
    addr: ClientAddr,
    order: Seq<ClientAddr>,
    inbound: InboundView,
)
    requires
        order.no_duplicates(),
    ensures
        ({
            let actions = inbound_reaction(addr, order, inbound).actions;
            match inbound {
                InboundView::Malformed(error) => actions == seq![
                    ActionView::Print(NoticeView::MalformedJson(error)),
                    ActionView::Receive,
                ],
                InboundView::Untyped => actions == seq![
                    ActionView::Print(NoticeView::TypeMissing),
                    ActionView::Receive,
                ],
                InboundView::Unknown(msg_type) => actions == seq![
                    ActionView::Print(NoticeView::UnknownType(msg_type)),
                    ActionView::Receive,
                ],
                InboundView::Ping => actions == seq![
                    ActionView::Print(NoticeView::PingReceived),
                    ActionView::SendPong("{ 'msg_type': 'pong', 'content': [] }"@),
                ],
                InboundView::Chat(Some(message)) => {
                    &&& actions.len() == 3
                    &&& actions[0] == ActionView::Print(NoticeView::ChatReceived(message))
                    &&& actions[1] matches ActionView::Relay(to, out) && {
                        &&& out == "{\"msg_type\":"@ + json_string(message.msg_type)
                            + ",\"content\":"@ + json_string(message.content) + "}"@
                        &&& to.no_duplicates()
                        &&& forall|a: ClientAddr| #[trigger]
                            to.contains(a) <==> order.contains(a) && a != addr
                    }
                    &&& actions[2] == ActionView::Receive
                },
                InboundView::Chat(None) => actions == seq![ActionView::Receive],
                InboundView::Offer(Some(offer)) => match offer_description(offer.content) {
                    Ok(description) => actions == seq![
                        ActionView::SetRemoteDescription(description),
                    ],
                    Err(error) => actions == seq![ActionView::Crash(error)],
                },
                InboundView::Offer(None) => actions == seq![
                    ActionView::Print(NoticeView::OfferUnreadable),
                    ActionView::Receive,
                ],
                InboundView::Candidate(Some(message)) => {
                    &&& actions.len() == 1
                    &&& actions[0] matches ActionView::AddCandidate(init) && {
                        &&& init.candidate == message.content
                        &&& init.sdp_mid == message.sdp_mid
                        &&& init.sdp_mline_index == message.sdp_mline_index
                        &&& init.username_fragment == message.username_fragment
                    }
                },
                InboundView::Candidate(None) => actions == seq![
                    ActionView::Print(NoticeView::CandidateUnreadable),
                    ActionView::Receive,
                ],
            }
        }),
{
    let actions = inbound_reaction(addr, order, inbound).actions;
    match inbound {
        InboundView::Malformed(error) => {
            assert(actions =~= seq![
                ActionView::Print(NoticeView::MalformedJson(error)),
                ActionView::Receive,
            ]);
        },
        InboundView::Untyped => {
            assert(actions =~= seq![
                ActionView::Print(NoticeView::TypeMissing),
                ActionView::Receive,
            ]);
        },
        InboundView::Unknown(msg_type) => {
            assert(actions =~= seq![
                ActionView::Print(NoticeView::UnknownType(msg_type)),
                ActionView::Receive,
            ]);
        },
        InboundView::Chat(Some(message)) => {
            lemma_others(order, addr);
            law_message_text(message);
        },
        InboundView::Chat(None) => {
            assert(actions =~= seq![ActionView::Receive]);
        },
        InboundView::Offer(None) => {
            assert(actions =~= seq![
                ActionView::Print(NoticeView::OfferUnreadable),
                ActionView::Receive,
            ]);
        },
        InboundView::Candidate(None) => {
            assert(actions =~= seq![
                ActionView::Print(NoticeView::CandidateUnreadable),
                ActionView::Receive,
            ]);
        },
        _ => {},
    }
}

} // verus!
