//! Reading the packets of a remote track.

use vstd::prelude::*;

verus! {

/// A line for the log.
#[derive(Debug)]
pub enum TrackNotice {
    PacketArrived,
    /// The packet, as it prints.
    Packet(String),
    /// The error, as it prints. It goes to the error log.
    ReadFailed(String),
}

/// What is to be done.
#[derive(Debug)]
pub enum TrackAction {
    Print(TrackNotice),
    /// Wait for the next packet.
    Read,
    /// Leave the track alone.
    Stop,
}

pub enum TrackNoticeView {
    PacketArrived,
    Packet(Seq<char>),
    ReadFailed(Seq<char>),
}

pub enum TrackActionView {
    Print(TrackNoticeView),
    Read,
    Stop,
}

impl View for TrackNotice {
    type V = TrackNoticeView;

    open spec fn view(&self) -> TrackNoticeView {
        match self {
            TrackNotice::PacketArrived => TrackNoticeView::PacketArrived,
            TrackNotice::Packet(packet) => TrackNoticeView::Packet(packet@),
            TrackNotice::ReadFailed(error) => TrackNoticeView::ReadFailed(error@),
        }
    }
}

impl View for TrackAction {
    type V = TrackActionView;

    open spec fn view(&self) -> TrackActionView {
        match self {
            TrackAction::Print(notice) => TrackActionView::Print(notice@),
            TrackAction::Read => TrackActionView::Read,
            TrackAction::Stop => TrackActionView::Stop,
        }
    }
}

pub open spec fn track_actions_view(actions: Seq<TrackAction>) -> Seq<TrackActionView> {
    actions.map_values(|action: TrackAction| action@)
}

pub open spec fn read_view(read: Result<String, String>) -> Result<Seq<char>, Seq<char>> {
    match read {
        Ok(packet) => Ok(packet@),
        Err(error) => Err(error@),
    }
}

/// What comes of a read.
pub open spec fn read_reaction(read: Result<Seq<char>, Seq<char>>) -> Seq<TrackActionView> {
    match read {
        Ok(packet) => seq![
            TrackActionView::Print(TrackNoticeView::PacketArrived),
            TrackActionView::Print(TrackNoticeView::Packet(packet)),
            TrackActionView::Read,
        ],
        Err(error) => seq![
            TrackActionView::Print(TrackNoticeView::ReadFailed(error)),
            TrackActionView::Stop,
        ],
    }
}

/// Handles a packet: it is logged.
pub fn handle_rtp_packet(packet: String) -> (notice: TrackNotice)
    ensures
        notice@ == TrackNoticeView::Packet(packet@),
        notice == TrackNotice::Packet(packet),
{
    TrackNotice::Packet(packet)
}

/// Takes in what came of a read: packets are handled one after the other, until
/// a read fails.
pub fn on_rtp_read(read: Result<String, String>) -> (actions: Vec<TrackAction>)
    ensures
        track_actions_view(actions@) == read_reaction(read_view(read)),
        match read {
            Ok(packet) => actions@ == seq![
                TrackAction::Print(TrackNotice::PacketArrived),
                TrackAction::Print(TrackNotice::Packet(packet)),
                TrackAction::Read,
            ],
            Err(error) => actions@ == seq![
                TrackAction::Print(TrackNotice::ReadFailed(error)),
                TrackAction::Stop,
            ],
        },
{
    match read {
        Ok(packet) => {
            let ghost seen = packet@;
            let actions = vec![
                TrackAction::Print(TrackNotice::PacketArrived),
                TrackAction::Print(handle_rtp_packet(packet)),
                TrackAction::Read,
            ];
            assert(track_actions_view(actions@) =~= seq![
                TrackActionView::Print(TrackNoticeView::PacketArrived),
                TrackActionView::Print(TrackNoticeView::Packet(seen)),
                TrackActionView::Read,
            ]);
            actions
        },
        Err(error) => {
            let ghost seen = error@;
            let actions = vec![
                TrackAction::Print(TrackNotice::ReadFailed(error)),
                TrackAction::Stop,
            ];
            assert(track_actions_view(actions@) =~= seq![
                TrackActionView::Print(TrackNoticeView::ReadFailed(seen)),
                TrackActionView::Stop,
            ]);
            actions
        },
    }
}

/// A packet is logged as arrived and then as what it is, and the next one is waited
/// for. A failed read is logged, and the track is left alone.
pub proof fn law_what_comes_of_a_read(packet: Seq<char>, error: Seq<char>)
    ensures
        read_reaction(Ok(packet)) == seq![
            TrackActionView::Print(TrackNoticeView::PacketArrived),
            TrackActionView::Print(TrackNoticeView::Packet(packet)),
            TrackActionView::Read,
        ],
        read_reaction(Err(error)) == seq![
            TrackActionView::Print(TrackNoticeView::ReadFailed(error)),
            TrackActionView::Stop,
        ],
{
}

/// Whether the track is still read after these reads.
pub open spec fn still_reading(reads: Seq<Result<Seq<char>, Seq<char>>>) -> bool
    decreases reads.len(),
{
    reads.len() > 0 ==> still_reading(reads.drop_last()) && read_reaction(reads.last()).last()
        is Read
}

/// All that is done about a track that would give these reads, one after the other,
/// for as long as it is read.
pub open spec fn track_history(reads: Seq<Result<Seq<char>, Seq<char>>>) -> Seq<TrackActionView>
    decreases reads.len(),
{
    if reads.len() == 0 {
        Seq::empty()
    } else if still_reading(reads.drop_last()) {
        track_history(reads.drop_last()) + read_reaction(reads.last())
    } else {
        track_history(reads.drop_last())
    }
}

/// The packets that are handled by `actions`, in order.
pub open spec fn handled(actions: Seq<TrackActionView>) -> Seq<Seq<char>>
    decreases actions.len(),
{
    if actions.len() == 0 {
        Seq::empty()
    } else {
        match actions.last() {
            TrackActionView::Print(TrackNoticeView::Packet(packet)) => handled(
                actions.drop_last(),
            ).push(packet),
            _ => handled(actions.drop_last()),
        }
    }
}

/// The reads that give these packets.
pub open spec fn packet_reads(packets: Seq<Seq<char>>) -> Seq<Result<Seq<char>, Seq<char>>> {
    packets.map_values(|packet: Seq<char>| Ok::<Seq<char>, Seq<char>>(packet))
}

proof fn lemma_handled_of_read(
    before: Seq<TrackActionView>,
    read: Result<Seq<char>, Seq<char>>,
)
    ensures
        handled(before + read_reaction(read)) == match read {
            Ok(packet) => handled(before).push(packet),
            Err(_) => handled(before),
        },
{
    reveal_with_fuel(handled, 4);
    let now = read_reaction(read);
    let all = before + now;
    match read {
        Ok(packet) => {
            assert(all.drop_last().drop_last().drop_last() =~= before);
            assert(all.last() == now[2]);
            assert(all.drop_last().last() == now[1]);
            assert(all.drop_last().drop_last().last() == now[0]);
        },
        Err(_) => {
            assert(all.drop_last().drop_last() =~= before);
            assert(all.last() == now[1]);
            assert(all.drop_last().last() == now[0]);
        },
    }
}

/// While packets come, the track is read, and exactly those packets have been
/// handled, once each and in order.
pub proof fn law_packets_are_handled(packets: Seq<Seq<char>>)
    ensures
        still_reading(packet_reads(packets)),
        handled(track_history(packet_reads(packets))) == packets,
        forall|i: int|
            0 <= i < track_history(packet_reads(packets)).len() ==> !((#[trigger] track_history(
                packet_reads(packets),
            )[i]) is Stop),
    decreases packets.len(),
{
    let reads = packet_reads(packets);
    if packets.len() > 0 {
        let front = packets.drop_last();
        law_packets_are_handled(front);
        assert(reads.drop_last() =~= packet_reads(front));
        assert(reads.last() == Ok::<Seq<char>, Seq<char>>(packets.last()));
        lemma_handled_of_read(track_history(packet_reads(front)), reads.last());
        assert(front.push(packets.last()) =~= packets);
    } else {
        assert(handled(track_history(reads)) =~= packets);
    }
}

/// After some packets and a failed read, whatever the track would have given after
/// that, exactly those packets have been handled, once each and in order, the track
/// has been left alone as the last thing, and nothing more is read.
pub proof fn law_track_stops_at_error(
    packets: Seq<Seq<char>>,
    error: Seq<char>,
    further: Seq<Result<Seq<char>, Seq<char>>>,
)
    ensures
        ({
            let reads = packet_reads(packets).push(Err(error)) + further;
            &&& !still_reading(reads)
            &&& track_history(reads) == track_history(packet_reads(packets)) + read_reaction(
                Err(error),
            )
            &&& handled(track_history(reads)) == packets
            &&& track_history(reads).last() is Stop
        }),
    decreases further.len(),
{
    let stopped = packet_reads(packets).push(Err(error));
    let reads = stopped + further;
    if further.len() > 0 {
        law_track_stops_at_error(packets, error, further.drop_last());
        assert(reads.drop_last() =~= stopped + further.drop_last());
    } else {
        assert(reads =~= stopped);
        assert(stopped.drop_last() =~= packet_reads(packets));
        law_packets_are_handled(packets);
        lemma_handled_of_read(track_history(packet_reads(packets)), Err(error));
    }
}

} // verus!
