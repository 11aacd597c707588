//! What holds of a connection over its whole life.

use crate::clients::ClientAddr;
use crate::laws::{
    is_ignored, law_answer_is_local_description, law_disconnected_client_is_dropped,
    law_end_cleans_up, law_handshake_starts_service, law_negotiation_in_order, law_registered_once,
    law_unreadable_message_is_ignored, law_when_a_connection_ends, said,
};
use crate::json::json_string;
use crate::message::InboundView;
use crate::peer::offer_description;
use crate::session::{
    expected, farewell, reaction, ActionView, EventView, FrameView, NoticeView, PhaseView,
};
use vstd::prelude::*;

verus! {

/// An event and the clients that are registered when it is taken in.
pub struct Moment {
    pub order: Seq<ClientAddr>,
    pub event: EventView,
}

/// What the session of the client at `addr` waits for after `history`.
pub open spec fn phase_after(addr: ClientAddr, history: Seq<Moment>) -> PhaseView
    decreases history.len(),
{
    if history.len() == 0 {
        PhaseView::Upgrading
    } else {
        let last = history.last();
        reaction(addr, last.order, phase_after(addr, history.drop_last()), last.event).phase
    }
}

/// Whether each event of `history` was waited for when it came.
pub open spec fn possible(addr: ClientAddr, history: Seq<Moment>) -> bool
    decreases history.len(),
{
    history.len() > 0 ==> possible(addr, history.drop_last()) && expected(
        phase_after(addr, history.drop_last()),
        history.last().event,
    )
}

/// All that the session has asked for in the course of `history`.
pub open spec fn asked(addr: ClientAddr, history: Seq<Moment>) -> Seq<ActionView>
    decreases history.len(),
{
    if history.len() == 0 {
        Seq::empty()
    } else {
        let last = history.last();
        asked(addr, history.drop_last()) + reaction(
            addr,
            last.order,
            phase_after(addr, history.drop_last()),
            last.event,
        ).actions
    }
}

/// Over the life of a connection the client is registered at most once, before
/// anything else, and taken out at most once, when the connection ends, and only
/// if it was registered.
pub proof fn law_registered_then_unregistered(addr: ClientAddr, history: Seq<Moment>)
    requires
        possible(addr, history),
    ensures
        forall|i: int|
            0 <= i < asked(addr, history).len() && (#[trigger] asked(addr, history)[i])
                is Register ==> i == 0,
        forall|i: int|
            0 <= i < asked(addr, history).len() && (#[trigger] asked(addr, history)[i])
                is Unregister ==> {
                &&& phase_after(addr, history) is Ended
                &&& i == asked(addr, history).len() - 4
                &&& asked(addr, history)[0] is Register
            },
        !(phase_after(addr, history) is Upgrading) && !(phase_after(addr, history) is Ended) ==> {
            &&& asked(addr, history).len() > 0
            &&& asked(addr, history)[0] is Register
        },
        phase_after(addr, history) is Upgrading ==> history.len() == 0,
    decreases history.len(),
{
    if history.len() > 0 {
        let front = history.drop_last();
        let last = history.last();
        law_registered_then_unregistered(addr, front);
        let before = asked(addr, front);
        let phase = phase_after(addr, front);
        let now = reaction(addr, last.order, phase, last.event);
        let all = asked(addr, history);
        assert(all == before + now.actions);
        assert(now.actions.len() > 0);
        assert forall|i: int| 0 <= i < all.len() && (#[trigger] all[i]) is Register implies i
            == 0 by {
            if i >= before.len() {
                assert(all[i] == now.actions[i - before.len()]);
                law_registered_once(addr, last.order, phase, last.event, i - before.len());
            } else {
                assert(all[i] == before[i]);
            }
        }
        assert forall|i: int| 0 <= i < all.len() && (#[trigger] all[i]) is Unregister implies {
            &&& now.phase is Ended
            &&& i == all.len() - 4
            &&& all[0] is Register
        } by {
            if i < before.len() {
                assert(all[i] == before[i]);
            } else {
                assert(all[i] == now.actions[i - before.len()]);
            }
            if before.len() > 0 {
                assert(all[0] == before[0]);
            }
        }
        if before.len() > 0 {
            assert(all[0] == before[0]);
        } else {
            assert(all[0] == now.actions[0]);
        }
    }
}

/// While an answer is being set as the local description, the last three things
/// that happened are: the client's offer, the success of setting it, and the
/// creation of this very answer, and the last thing that was asked for is to set
/// it.
pub proof fn law_answer_follows_its_offer(addr: ClientAddr, history: Seq<Moment>, sdp: Seq<char>)
    requires
        possible(addr, history),
        phase_after(addr, history) == PhaseView::SettingLocalDescription(sdp),
    ensures
        history.len() >= 3,
        history[history.len() - 1].event matches EventView::AnswerCreated(Some(answer))
            && answer.1 == sdp && asked(addr, history).last() == ActionView::SetLocalDescription(
            answer.0,
        ),
        history[history.len() - 2].event == EventView::RemoteDescriptionSet(true),
        said(history[history.len() - 3].event) matches Some(InboundView::Offer(Some(offer)))
            && offer_description(offer.content) is Ok,
{
    reveal_with_fuel(phase_after, 4);
    reveal_with_fuel(possible, 4);
    assert(history.len() > 0);
    let first = history.drop_last();
    law_negotiation_in_order(
        addr,
        history.last().order,
        phase_after(addr, first),
        history.last().event,
    );
    let now = reaction(
        addr,
        history.last().order,
        phase_after(addr, first),
        history.last().event,
    ).actions;
    assert(asked(addr, history) == asked(addr, first) + now);
    assert(asked(addr, history).last() == now.last());
    assert(first.len() > 0);
    let second = first.drop_last();
    law_negotiation_in_order(
        addr,
        first.last().order,
        phase_after(addr, second),
        first.last().event,
    );
    assert(second.len() > 0);
    law_negotiation_in_order(
        addr,
        second.last().order,
        phase_after(addr, second.drop_last()),
        second.last().event,
    );
}

/// Whoever is sent an answer has made an offer: the four things that happened last
/// are the offer, the success of setting it, the creation of the answer and the
/// success of setting that. What is set and what is sent are the created answer
/// and its text.
pub proof fn law_every_answer_has_its_offer(addr: ClientAddr, history: Seq<Moment>, i: int)
    requires
        possible(addr, history),
        history.len() > 0,
        ({
            let last = history.last();
            let phase = phase_after(addr, history.drop_last());
            let actions = reaction(addr, last.order, phase, last.event).actions;
            0 <= i < actions.len() && actions[i] is SendAnswer
        }),
    ensures
        history.len() >= 4,
        history[history.len() - 1].event == EventView::LocalDescriptionSet(true),
        history[history.len() - 3].event == EventView::RemoteDescriptionSet(true),
        said(history[history.len() - 4].event) matches Some(InboundView::Offer(Some(offer)))
            && offer_description(offer.content) is Ok,
        history[history.len() - 2].event matches EventView::AnswerCreated(Some(answer)) && {
            let last = history.last();
            let phase = phase_after(addr, history.drop_last());
            &&& asked(addr, history.drop_last()).last() == ActionView::SetLocalDescription(answer.0)
            &&& reaction(addr, last.order, phase, last.event).actions[i] == ActionView::SendAnswer(
                "{\"msg_type\":\"answer\",\"content\":"@ + json_string(answer.1) + "}"@,
            )
        },
{
    let front = history.drop_last();
    let last = history.last();
    let phase = phase_after(addr, front);
    law_answer_is_local_description(addr, last.order, phase, last.event, i);
    law_answer_follows_its_offer(addr, front, phase->SettingLocalDescription_0);
    assert(front[front.len() - 1] == history[history.len() - 2]);
    assert(front[front.len() - 2] == history[history.len() - 3]);
    assert(front[front.len() - 3] == history[history.len() - 4]);
}

/// A connection that was being served and then ended, other than over an offer
/// that is no session description, has taken its client out of the register,
/// closed the peer connection and stopped forwarding, and did nothing after that.
pub proof fn law_life_ends_with_farewell(addr: ClientAddr, history: Seq<Moment>, k: int)
    requires
        possible(addr, history),
        phase_after(addr, history) is Ended,
        0 <= k < history.len(),
        phase_after(addr, history.take(k)) is Listening,
    ensures
        (said(history.last().event) matches Some(InboundView::Offer(Some(offer)))
            && offer_description(offer.content) is Err) || {
            let all = asked(addr, history);
            all.len() >= farewell().len() && all.skip(all.len() - farewell().len()) == farewell()
        },
{
    let front = history.drop_last();
    let last = history.last();
    lemma_served_stays_served(addr, front, k, history);
    let phase = phase_after(addr, front);
    law_end_cleans_up(addr, last.order, phase, last.event);
    let actions = reaction(addr, last.order, phase, last.event).actions;
    let all = asked(addr, history);
    assert(all == asked(addr, front) + actions);
    if actions.len() >= 5 {
        assert(all.skip(all.len() - 5) =~= actions.skip(actions.len() - 5));
    }
}

proof fn lemma_served_stays_served(
    addr: ClientAddr,
    front: Seq<Moment>,
    k: int,
    history: Seq<Moment>,
)
    requires
        possible(addr, front),
        0 <= k <= front.len() < history.len(),
        front == history.take(front.len() as int),
        phase_after(addr, history.take(k)) is Listening,
    ensures
        !(phase_after(addr, front) is Upgrading),
        !(phase_after(addr, front) is RegisteringCodecs),
        !(phase_after(addr, front) is CreatingPeer),
    decreases front.len(),
{
    if k < front.len() {
        let shorter = front.drop_last();
        assert(shorter =~= history.take(shorter.len() as int));
        lemma_served_stays_served(addr, shorter, k, history);
    }
}

/// The actions that reach beyond the log and the wait for the next message.
pub open spec fn effects(actions: Seq<ActionView>) -> Seq<ActionView> {
    actions.filter(|action: ActionView| !(action is Print) && !(action is Receive))
}

/// A message that the server has nothing to do for makes no difference, whenever it
/// comes: with it the same events are possible as without it, the session ends up
/// waiting for the same, and it asks for the same but for lines of the log and the
/// wait for one message more.
pub proof fn law_ignored_message_makes_no_difference(
    addr: ClientAddr,
    history: Seq<Moment>,
    k: int,
    ignored: Moment,
)
    requires
        possible(addr, history),
        0 <= k <= history.len(),
        phase_after(addr, history.take(k)) is Listening,
        is_ignored(ignored.event),
    ensures
        possible(addr, history.insert(k, ignored)),
        phase_after(addr, history.insert(k, ignored)) == phase_after(addr, history),
        effects(asked(addr, history.insert(k, ignored))) == effects(asked(addr, history)),
    decreases history.len(),
{
    let longer = history.insert(k, ignored);
    let keep = |action: ActionView| !(action is Print) && !(action is Receive);
    if k == history.len() {
        assert(history.take(k) =~= history);
        assert(longer.drop_last() =~= history);
        assert(longer.last() == ignored);
        let now = reaction(addr, ignored.order, phase_after(addr, history), ignored.event).actions;
        law_unreadable_message_is_ignored(
            addr,
            ignored.order,
            phase_after(addr, history),
            ignored.event,
        );
        lemma_no_effects(now);
        Seq::filter_distributes_over_add(asked(addr, history), now, keep);
        assert(effects(asked(addr, history) + now) =~= effects(asked(addr, history)));
    } else {
        let front = history.drop_last();
        let last = history.last();
        assert(front.take(k) =~= history.take(k));
        law_ignored_message_makes_no_difference(addr, front, k, ignored);
        assert(longer.drop_last() =~= front.insert(k, ignored));
        assert(longer.last() == last);
        let now = reaction(addr, last.order, phase_after(addr, front), last.event).actions;
        Seq::filter_distributes_over_add(asked(addr, front), now, keep);
        Seq::filter_distributes_over_add(asked(addr, front.insert(k, ignored)), now, keep);
    }
}

proof fn lemma_no_effects(actions: Seq<ActionView>)
    requires
        forall|i: int|
            0 <= i < actions.len() ==> (#[trigger] actions[i]) is Print || actions[i] is Receive,
    ensures
        effects(actions) == Seq::<ActionView>::empty(),
    decreases actions.len(),
{
    reveal(Seq::filter);
    if actions.len() > 0 {
        lemma_no_effects(actions.drop_last());
    } else {
        assert(effects(actions) =~= Seq::<ActionView>::empty());
    }
}

/// Where the handshake succeeded, the first things that are asked for are to register
/// the client and to forward what arrives for it, and that is asked for once in the
/// life of the connection, whoever is registered and whatever happens later. Where it
/// failed, neither is ever asked for.
pub proof fn law_service_starts_once(addr: ClientAddr, history: Seq<Moment>)
    requires
        possible(addr, history),
        history.len() > 0,
    ensures
        history[0].event is Upgraded,
        history[0].event matches EventView::Upgraded(Ok(_)) ==> {
            let all = asked(addr, history);
            &&& all.len() >= 3
            &&& all[0] == ActionView::Register
            &&& all[1] == ActionView::StartForwarding
            &&& all[2] == ActionView::RegisterCodecs
            &&& forall|i: int|
                0 <= i < all.len() && (#[trigger] all[i]) is StartForwarding ==> i == 1
            &&& forall|i: int| 0 <= i < all.len() && (#[trigger] all[i]) is Register ==> i == 0
        },
        history[0].event matches EventView::Upgraded(Err(error)) ==> history.len() == 1 && asked(
            addr,
            history,
        ) == seq![ActionView::Print(NoticeView::UpgradeFailed(error)), ActionView::Return],
        !(phase_after(addr, history) is Upgrading),
    decreases history.len(),
{
    let front = history.drop_last();
    let last = history.last();
    let phase = phase_after(addr, front);
    let now = reaction(addr, last.order, phase, last.event).actions;
    let before = asked(addr, front);
    let all = asked(addr, history);
    assert(all == before + now);
    law_handshake_starts_service(addr, last.order, phase, last.event);
    if front.len() == 0 {
        assert(phase is Upgrading);
        assert(before =~= Seq::<ActionView>::empty());
        assert(all =~= now);
        assert(history[0] == last);
    } else {
        law_service_starts_once(addr, front);
        assert(history[0] == front[0]);
        if front[0].event matches EventView::Upgraded(Err(_)) {
            assert(front.drop_last() =~= Seq::<Moment>::empty());
            assert(front.last() == front[0]);
            law_when_a_connection_ends(
                addr,
                front[0].order,
                phase_after(addr, front.drop_last()),
                front[0].event,
            );
            assert(phase is Ended);
        }
        assert forall|i: int| 0 <= i < all.len() && (#[trigger] all[i]) is StartForwarding implies i
            == 1 by {
            if i < before.len() {
                assert(all[i] == before[i]);
            } else {
                assert(all[i] == now[i - before.len()]);
            }
        }
        assert forall|i: int| 0 <= i < all.len() && (#[trigger] all[i]) is Register implies i
            == 0 by {
            if i < before.len() {
                assert(all[i] == before[i]);
            } else {
                assert(all[i] == now[i - before.len()]);
                law_registered_once(addr, last.order, phase, last.event, i - before.len());
            }
        }
    }
}

/// A client that closes its websocket, whose stream ends or that cannot be received
/// from is not listened to any more, whoever else is registered: its connection is
/// over, and the last things that are asked for are to unregister it, to close its
/// peer connection, to stop forwarding and to return.
pub proof fn law_gone_client_is_dropped(addr: ClientAddr, history: Seq<Moment>)
    requires
        possible(addr, history),
        history.len() > 0,
        history.last().event matches EventView::Received(FrameView::Close)
            || history.last().event is StreamEnded || history.last().event is ReceiveFailed,
    ensures
        phase_after(addr, history) is Ended,
        ({
            let all = asked(addr, history);
            &&& all.len() >= 5
            &&& all[all.len() - 4] == ActionView::Unregister
            &&& all[all.len() - 3] == ActionView::ClosePeer
            &&& all[all.len() - 2] == ActionView::StopForwarding
            &&& all[all.len() - 1] == ActionView::Return
        }),
{
    let front = history.drop_last();
    let last = history.last();
    let phase = phase_after(addr, front);
    law_disconnected_client_is_dropped(addr, last.order, phase, last.event);
    let now = reaction(addr, last.order, phase, last.event).actions;
    let all = asked(addr, history);
    assert(all == asked(addr, front) + now);
}

} // verus!
