//! Forwarding what is put on a client's channel to its websocket.

use vstd::prelude::*;

verus! {

/// A line for the log.
#[derive(Debug)]
pub enum ForwardNotice {
    /// The error, as it prints.
    SendFailed(String),
}

/// What is to be done, with messages of type `M`.
#[derive(Debug)]
pub enum ForwardAction<M> {
    Print(ForwardNotice),
    /// Wait for the next message on the channel.
    Take,
    /// Send this message to the websocket.
    Send(M),
    /// The channel is closed: there is nothing left to do.
    Stop,
}

pub enum ForwardNoticeView {
    SendFailed(Seq<char>),
}

pub enum ForwardActionView<M> {
    Print(ForwardNoticeView),
    Take,
    Send(M),
    Stop,
}

impl View for ForwardNotice {
    type V = ForwardNoticeView;

    open spec fn view(&self) -> ForwardNoticeView {
        match self {
            ForwardNotice::SendFailed(error) => ForwardNoticeView::SendFailed(error@),
        }
    }
}

impl<M> View for ForwardAction<M> {
    type V = ForwardActionView<M>;

    open spec fn view(&self) -> ForwardActionView<M> {
        match self {
            ForwardAction::Print(notice) => ForwardActionView::Print(notice@),
            ForwardAction::Take => ForwardActionView::Take,
            ForwardAction::Send(message) => ForwardActionView::Send(*message),
            ForwardAction::Stop => ForwardActionView::Stop,
        }
    }
}

pub open spec fn forward_actions_view<M>(actions: Seq<ForwardAction<M>>) -> Seq<
    ForwardActionView<M>,
> {
    actions.map_values(|action: ForwardAction<M>| action@)
}

pub open spec fn sent_view(sent: Result<(), String>) -> Result<(), Seq<char>> {
    match sent {
        Ok(()) => Ok(()),
        Err(error) => Err(error@),
    }
}

/// What comes of a wait for the channel: its next message, or its end.
pub open spec fn taken_reaction<M>(taken: Option<M>) -> ForwardActionView<M> {
    match taken {
        Some(message) => ForwardActionView::Send(message),
        None => ForwardActionView::Stop,
    }
}

/// What comes of an attempt to send a message.
pub open spec fn sent_reaction<M>(sent: Result<(), Seq<char>>) -> Seq<ForwardActionView<M>> {
    match sent {
        Ok(()) => seq![ForwardActionView::Take],
        Err(error) => seq![
            ForwardActionView::Print(ForwardNoticeView::SendFailed(error)),
            ForwardActionView::Take,
        ],
    }
}

/// Takes in the next message on the channel, or its end.
pub fn on_taken<M>(taken: Option<M>) -> (action: ForwardAction<M>)
    ensures
        action@ == taken_reaction(taken),
        match taken {
            Some(message) => action == ForwardAction::Send(message),
            None => action == ForwardAction::<M>::Stop,
        },
{
    match taken {
        Some(message) => ForwardAction::Send(message),
        None => ForwardAction::Stop,
    }
}

/// Takes in whether a message went out: a failure is logged, and either way the
/// next message is waited for.
pub fn on_forwarded<M>(sent: Result<(), String>) -> (actions: Vec<ForwardAction<M>>)
    ensures
        forward_actions_view(actions@) == sent_reaction::<M>(sent_view(sent)),
        match sent {
            Ok(_) => actions@ == seq![ForwardAction::<M>::Take],
            Err(error) => actions@ == seq![
                ForwardAction::<M>::Print(ForwardNotice::SendFailed(error)),
                ForwardAction::<M>::Take,
            ],
        },
{
    match sent {
        Ok(()) => {
            let actions: Vec<ForwardAction<M>> = vec![ForwardAction::Take];
            assert(forward_actions_view(actions@) =~= sent_reaction::<M>(Ok(())));
            actions
        },
        Err(error) => {
            let ghost seen = error@;
            let actions: Vec<ForwardAction<M>> = vec![
                ForwardAction::Print(ForwardNotice::SendFailed(error)),
                ForwardAction::Take,
            ];
            assert(forward_actions_view(actions@) =~= sent_reaction::<M>(Err(seen)));
            actions
        },
    }
}

/// What is taken from the channel is sent as it is. A failure to send is logged once,
/// a success is not, and either way the channel is waited for again.
pub proof fn law_what_comes_of_a_message<M>(message: M, error: Seq<char>)
    ensures
        taken_reaction(Some(message)) == ForwardActionView::Send(message),
        taken_reaction(None::<M>) == ForwardActionView::<M>::Stop,
        sent_reaction::<M>(Ok(())) == seq![ForwardActionView::<M>::Take],
        sent_reaction::<M>(Err(error)) == seq![
            ForwardActionView::<M>::Print(ForwardNoticeView::SendFailed(error)),
            ForwardActionView::<M>::Take,
        ],
{
}

/// All that is done about the messages of `queue`, where the attempt to send each
/// comes out as in `outcomes`.
pub open spec fn forward_history<M>(
    queue: Seq<M>,
    outcomes: Seq<Result<(), Seq<char>>>,
) -> Seq<ForwardActionView<M>>
    decreases queue.len(),
{
    if queue.len() == 0 {
        Seq::empty()
    } else {
        forward_history(queue.drop_last(), outcomes.drop_last()).push(
            taken_reaction(Some(queue.last())),
        ) + sent_reaction(outcomes.last())
    }
}

/// The messages that `actions` send, in order.
pub open spec fn sent_messages<M>(actions: Seq<ForwardActionView<M>>) -> Seq<M>
    decreases actions.len(),
{
    if actions.len() == 0 {
        Seq::empty()
    } else {
        match actions.last() {
            ForwardActionView::Send(message) => sent_messages(actions.drop_last()).push(message),
            _ => sent_messages(actions.drop_last()),
        }
    }
}

/// Every message of the channel is sent, once each and in order, whatever comes of
/// the attempts; after each of them the channel is waited for again, and only its
/// end stops the forwarding.
pub proof fn law_queue_is_forwarded<M>(queue: Seq<M>, outcomes: Seq<Result<(), Seq<char>>>)
    requires
        outcomes.len() == queue.len(),
    ensures
        sent_messages(forward_history(queue, outcomes)) == queue,
        queue.len() > 0 ==> forward_history(queue, outcomes).last() is Take,
        forall|i: int|
            0 <= i < forward_history(queue, outcomes).len() ==> !((#[trigger] forward_history(
                queue,
                outcomes,
            )[i]) is Stop),
        taken_reaction(None::<M>) is Stop,
    decreases queue.len(),
{
    if queue.len() > 0 {
        let front = queue.drop_last();
        law_queue_is_forwarded(front, outcomes.drop_last());
        let before = forward_history(front, outcomes.drop_last());
        let sending = before.push(ForwardActionView::Send(queue.last()));
        let now = sent_reaction::<M>(outcomes.last());
        let all = sending + now;
        assert(forward_history(queue, outcomes) == all);
        reveal_with_fuel(sent_messages, 4);
        assert(sending.drop_last() =~= before);
        assert(all.last() == now.last());
        if now.len() == 1 {
            assert(all.drop_last() =~= sending);
        } else {
            assert(all.drop_last().last() == now[0]);
            assert(all.drop_last().drop_last() =~= sending);
        }
        assert(front.push(queue.last()) =~= queue);
    } else {
        assert(sent_messages(forward_history(queue, outcomes)) =~= queue);
    }
}

} // verus!
