use signaling::clients::{ClientAddr, Clients};
use signaling::forward::{on_forwarded, on_taken, ForwardAction, ForwardNotice};
use signaling::message::{CandidateInit, Inbound, PONG};
use signaling::peer::{announce, announce_encoded, ice_server_urls, Announcement, Candidate};
use signaling::session::{on_relayed, Action, Event, Frame, Notice, Session};
use signaling::track::{handle_rtp_packet, on_rtp_read, TrackAction, TrackNotice};
use webrtc::error::Error;
use webrtc::peer_connection::sdp::session_description::RTCSessionDescription;

const SDP: &str = "v=0\r\no=- 0 0 IN IP4 127.0.0.1\r\ns=-\r\nt=0 0\r\n";

fn addr(port: u16) -> ClientAddr {
    ClientAddr { is_v6: false, ip: 0x7f00_0001, port, flow_info: 0, scope_id: 0 }
}

fn three_clients() -> Clients<u8> {
    let mut clients = Clients::new();
    clients.insert(addr(1), 1);
    clients.insert(addr(2), 2);
    clients.insert(addr(3), 3);
    clients
}

/// What the session is told, if it waits for it.
fn tell(session: &mut Session, event: Event, clients: &Clients<u8>) -> Vec<String> {
    assert!(session.expects(&event), "{:?} {:?}", session, event);
    session.step(event, clients).iter().map(|action| format!("{:?}", action)).collect()
}

fn listening(clients: &Clients<u8>) -> Session {
    let mut session = Session::new(addr(1));
    tell(&mut session, Event::Upgraded(Ok(())), clients);
    tell(&mut session, Event::CodecsRegistered(Ok(())), clients);
    tell(&mut session, Event::PeerCreated(Ok(())), clients);
    session
}

/// An answer that the peer connection created.
fn created(sdp: &str) -> Event {
    let answer = RTCSessionDescription::answer(SDP.to_string()).unwrap();
    Event::AnswerCreated(Some((answer, sdp.to_string())))
}

fn text(s: &str) -> Event {
    Event::Received(Frame::Text(s.to_string()))
}

const FAREWELL: [&str; 5] =
    ["Print(Disconnected)", "Unregister", "ClosePeer", "StopForwarding", "Return"];

#[test]
fn a_connection_is_set_up() {
    let clients = three_clients();
    let mut session = Session::new(addr(1));
    assert!(!session.is_ended());
    assert_eq!(
        tell(&mut session, Event::Upgraded(Ok(())), &clients),
        ["Register", "StartForwarding", "RegisterCodecs"]
    );
    assert_eq!(
        tell(&mut session, Event::CodecsRegistered(Ok(())), &clients),
        ["CreatePeer([[\"stun:stun.l.google.com:19302\"]])"]
    );
    assert_eq!(
        tell(&mut session, Event::PeerCreated(Ok(())), &clients),
        ["WatchPeer", "Receive"]
    );
    assert!(!session.is_ended());
}

#[test]
fn a_failed_handshake_ends_the_connection() {
    let clients = three_clients();
    let mut session = Session::new(addr(1));
    assert_eq!(
        tell(&mut session, Event::Upgraded(Err("e".to_string())), &clients),
        ["Print(UpgradeFailed(\"e\"))", "Return"]
    );
    assert!(session.is_ended());
}

#[test]
fn without_codecs_the_connection_ends_registered() {
    let clients = three_clients();
    let mut session = Session::new(addr(1));
    tell(&mut session, Event::Upgraded(Ok(())), &clients);
    assert_eq!(
        tell(&mut session, Event::CodecsRegistered(Err("e".to_string())), &clients),
        ["Print(PeerFailed(\"e\"))", "Return"]
    );
    assert!(session.is_ended());
}

#[test]
fn without_a_peer_connection_the_task_dies() {
    let clients = three_clients();
    let mut session = Session::new(addr(1));
    tell(&mut session, Event::Upgraded(Ok(())), &clients);
    tell(&mut session, Event::CodecsRegistered(Ok(())), &clients);
    let actions = session.step(Event::PeerCreated(Err(Error::ErrConnectionClosed)), &clients);
    assert!(matches!(&actions[..], [Action::Crash(Error::ErrConnectionClosed)]));
    assert!(session.is_ended());
}

#[test]
fn a_ping_is_answered_with_a_pong() {
    let clients = three_clients();
    let mut session = listening(&clients);
    let actions = session.step(text(r#"{"msg_type":"ping"}"#), &clients);
    assert_eq!(actions.len(), 2);
    assert!(matches!(actions[0], Action::Print(Notice::PingReceived)));
    assert!(matches!(&actions[1], Action::SendPong(text) if text == PONG));
    assert!(!session.expects(&Event::StreamEnded));
    assert_eq!(tell(&mut session, Event::PongSent(Ok(())), &clients), ["Receive"]);
}

#[test]
fn a_pong_that_cannot_be_sent_ends_the_connection() {
    let clients = three_clients();
    let mut session = listening(&clients);
    tell(&mut session, text(r#"{"msg_type":"ping"}"#), &clients);
    let actions = tell(&mut session, Event::PongSent(Err("e".to_string())), &clients);
    assert_eq!(actions[0], "Print(PongFailed(\"e\"))");
    assert_eq!(actions[1..], FAREWELL);
    assert!(session.is_ended());
}

#[test]
fn chat_is_relayed_to_all_others() {
    let clients = three_clients();
    let mut session = listening(&clients);
    let actions = session.step(text(r#"{"content":"hi","msg_type":"chat","x":[]}"#), &clients);
    assert_eq!(actions.len(), 3);
    assert!(
        matches!(&actions[0], Action::Print(Notice::ChatReceived(m)) if m.content == "hi")
    );
    match &actions[1] {
        Action::Relay(to, text) => {
            assert_eq!(*to, vec![addr(2), addr(3)]);
            assert_eq!(text, r#"{"msg_type":"chat","content":"hi"}"#);
        }
        other => panic!("{:?}", other),
    }
    assert!(matches!(actions[2], Action::Receive));
}

#[test]
fn a_failed_relay_is_logged() {
    assert!(on_relayed(addr(2), Ok(())).is_none());
    assert!(matches!(
        on_relayed(addr(2), Err("e".to_string())),
        Some(Notice::RelayFailed(to, error)) if to == addr(2) && error == "e"
    ));
}

#[test]
fn unreadable_texts_are_at_most_logged() {
    let clients = three_clients();
    let mut session = listening(&clients);
    assert_eq!(
        tell(&mut session, text("{"), &clients),
        ["Print(MalformedJson(\"EOF while parsing an object at line 1 column 1\"))", "Receive"]
    );
    assert_eq!(tell(&mut session, text("[]"), &clients), ["Print(TypeMissing)", "Receive"]);
    assert_eq!(
        tell(&mut session, text(r#"{"msg_type":"x"}"#), &clients),
        ["Print(UnknownType(\"x\"))", "Receive"]
    );
    assert_eq!(tell(&mut session, text(r#"{"msg_type":"chat"}"#), &clients), ["Receive"]);
    assert_eq!(
        tell(&mut session, text(r#"{"msg_type":"offer"}"#), &clients),
        ["Print(OfferUnreadable)", "Receive"]
    );
    assert_eq!(
        tell(&mut session, text(r#"{"msg_type":"candidate"}"#), &clients),
        ["Print(CandidateUnreadable)", "Receive"]
    );
    assert_eq!(tell(&mut session, Event::Received(Frame::Other), &clients), ["Receive"]);
}

fn offering(clients: &Clients<u8>) -> Session {
    let mut session = listening(clients);
    let offer = r#"{"msg_type":"offer","content":"v=0\r\no=- 0 0 IN IP4 127.0.0.1\r\ns=-\r\nt=0 0\r\n"}"#;
    let actions = session.step(text(offer), clients);
    assert_eq!(actions.len(), 1);
    match &actions[0] {
        Action::SetRemoteDescription(description) => assert_eq!(description.sdp, SDP),
        other => panic!("{:?}", other),
    }
    session
}

#[test]
fn an_offer_is_answered() {
    let clients = three_clients();
    let mut session = offering(&clients);
    assert_eq!(
        tell(&mut session, Event::RemoteDescriptionSet(true), &clients),
        ["Print(RemoteDescriptionSet)", "CreateAnswer"]
    );
    let actions = session.step(created("sdp\n"), &clients);
    match &actions[..] {
        [Action::Print(Notice::AnswerCreated), Action::SetLocalDescription(answer)] => {
            assert_eq!(answer.sdp, SDP);
            assert_eq!(format!("{:?}", answer.sdp_type), "Answer");
        }
        other => panic!("{:?}", other),
    }
    let actions = session.step(Event::LocalDescriptionSet(true), &clients);
    assert_eq!(actions.len(), 4);
    assert!(matches!(actions[0], Action::Print(Notice::LocalDescriptionSet)));
    assert!(matches!(actions[1], Action::Print(Notice::SendingAnswer)));
    assert!(matches!(
        &actions[2],
        Action::SendAnswer(text) if text == r#"{"msg_type":"answer","content":"sdp\n"}"#
    ));
    assert!(matches!(actions[3], Action::Receive));
}

#[test]
fn an_unregistered_client_gets_no_answer() {
    let mut clients = three_clients();
    let mut session = offering(&clients);
    tell(&mut session, Event::RemoteDescriptionSet(true), &clients);
    tell(&mut session, created("sdp"), &clients);
    clients.remove(addr(1));
    assert_eq!(
        tell(&mut session, Event::LocalDescriptionSet(true), &clients),
        ["Print(LocalDescriptionSet)", "Print(ClientMissing)", "Receive"]
    );
}

#[test]
fn a_negotiation_that_fails_is_dropped() {
    let clients = three_clients();
    let mut session = offering(&clients);
    assert_eq!(
        tell(&mut session, Event::RemoteDescriptionSet(false), &clients),
        ["Print(RemoteDescriptionRefused)", "Receive"]
    );
    let mut session = offering(&clients);
    tell(&mut session, Event::RemoteDescriptionSet(true), &clients);
    assert_eq!(
        tell(&mut session, Event::AnswerCreated(None), &clients),
        ["Print(AnswerRefused)", "Receive"]
    );
    let mut session = offering(&clients);
    tell(&mut session, Event::RemoteDescriptionSet(true), &clients);
    tell(&mut session, created("sdp"), &clients);
    assert_eq!(
        tell(&mut session, Event::LocalDescriptionSet(false), &clients),
        ["Print(LocalDescriptionRefused)", "Receive"]
    );
}

#[test]
fn an_offer_that_is_no_session_description_kills_the_task() {
    let clients = three_clients();
    let mut session = listening(&clients);
    let actions = session.step(text(r#"{"msg_type":"offer","content":"x"}"#), &clients);
    assert_eq!(actions.len(), 1);
    assert!(matches!(actions[0], Action::Crash(_)));
    assert!(session.is_ended());
}

#[test]
fn a_parsed_offer_is_gone_on_with() {
    let clients = three_clients();
    let mut session = listening(&clients);
    let actions = session.on_offer(RTCSessionDescription::offer(SDP.to_string()));
    assert!(matches!(&actions[..], [Action::SetRemoteDescription(_)]));
    let mut session = listening(&clients);
    let actions = session.on_offer(RTCSessionDescription::offer(String::new()));
    assert!(matches!(&actions[..], [Action::Crash(_)]));
}

#[test]
fn a_candidate_is_handed_on() {
    let clients = three_clients();
    let mut session = listening(&clients);
    let actions = session.step(
        text(r#"{"msg_type":"candidate","content":"c","sdp_mid":"0","sdp_mline_index":1}"#),
        &clients,
    );
    assert_eq!(actions.len(), 1);
    match &actions[0] {
        Action::AddCandidate(init) => {
            assert_eq!(init.candidate, "c");
            assert_eq!(init.sdp_mid.as_deref(), Some("0"));
            assert_eq!(init.sdp_mline_index, Some(1));
            assert_eq!(init.username_fragment, None);
        }
        other => panic!("{:?}", other),
    }
    assert_eq!(
        tell(&mut session, Event::CandidateAdded(true), &clients),
        ["Print(CandidateAdded)", "Receive"]
    );
    tell(&mut session, text(r#"{"msg_type":"candidate","content":"c"}"#), &clients);
    assert_eq!(
        tell(&mut session, Event::CandidateAdded(false), &clients),
        ["Print(CandidateRefused)", "Receive"]
    );
}

#[test]
fn a_close_frame_closes_the_peer_connection_first() {
    let clients = three_clients();
    let mut session = listening(&clients);
    let actions = tell(&mut session, Event::Received(Frame::Close), &clients);
    assert_eq!(actions[..2], ["Print(Closing)", "ClosePeer"]);
    assert_eq!(actions[2..], FAREWELL);
    assert!(session.is_ended());
}

#[test]
fn the_end_of_the_stream_and_errors_clean_up() {
    let clients = three_clients();
    let mut session = listening(&clients);
    assert_eq!(tell(&mut session, Event::StreamEnded, &clients), FAREWELL);
    assert!(session.is_ended());
    let mut session = listening(&clients);
    let actions = tell(&mut session, Event::ReceiveFailed("e".to_string()), &clients);
    assert_eq!(actions[0], "Print(ReceiveFailed(\"e\"))");
    assert_eq!(actions[1..], FAREWELL);
}

#[test]
fn an_ended_connection_expects_nothing() {
    let clients = three_clients();
    let mut session = listening(&clients);
    tell(&mut session, Event::StreamEnded, &clients);
    for event in [
        Event::Upgraded(Ok(())),
        Event::CodecsRegistered(Ok(())),
        Event::PeerCreated(Ok(())),
        Event::Received(Frame::Other),
        Event::ReceiveFailed(String::new()),
        Event::StreamEnded,
        Event::PongSent(Ok(())),
        Event::RemoteDescriptionSet(true),
        Event::AnswerCreated(None),
        Event::LocalDescriptionSet(true),
        Event::CandidateAdded(true),
    ] {
        assert!(!session.expects(&event), "{:?}", event);
    }
}

#[test]
fn what_a_text_is_decides() {
    let clients = three_clients();
    let mut session = listening(&clients);
    let actions = session.on_inbound(Inbound::Unknown("x".to_string()), &clients);
    assert!(matches!(
        &actions[..],
        [Action::Print(Notice::UnknownType(msg_type)), Action::Receive] if msg_type == "x"
    ));
}

fn host_candidate() -> Candidate {
    Candidate {
        stats_id: "candidate:id".to_string(),
        foundation: "7".to_string(),
        priority: 2130706431,
        address: "192.168.0.2".to_string(),
        protocol: "udp".to_string(),
        port: 4000,
        typ: "host".to_string(),
        component: 1,
        related_address: String::new(),
        related_port: 0,
        tcp_type: "unspecified".to_string(),
    }
}

#[test]
fn a_local_candidate_is_announced() {
    let clients = three_clients();
    match announce(addr(1), Some(host_candidate()), &clients) {
        Announcement::Send(text) => assert_eq!(
            text,
            "{\"msg_type\":\"candidate\",\
             \"content\":\"candidate:7 1 udp 2130706431 192.168.0.2 4000 typ host\",\
             \"sdp_mid\":\"\",\"sdp_mline_index\":0,\"username_fragment\":null}"
        ),
        other => panic!("{:?}", other),
    }
    let reflexive = Candidate {
        typ: "srflx".to_string(),
        related_address: "10.0.0.1".to_string(),
        related_port: 9,
        ..host_candidate()
    };
    match announce(addr(1), Some(reflexive), &clients) {
        Announcement::Send(text) => assert!(text.contains(
            "candidate:7 1 udp 2130706431 192.168.0.2 4000 typ srflx raddr 10.0.0.1 rport 9"
        )),
        other => panic!("{:?}", other),
    }
}

#[test]
fn a_candidate_gets_a_priority_if_it_has_none() {
    let clients = three_clients();
    let candidate = Candidate { priority: 0, component: 256, ..host_candidate() };
    assert!(matches!(announce(addr(1), Some(candidate), &clients), Announcement::Send(_)));
}

#[test]
fn a_candidate_that_cannot_be_written_is_an_error() {
    let clients = three_clients();
    let candidate = Candidate { typ: "none".to_string(), ..host_candidate() };
    assert!(matches!(announce(addr(1), Some(candidate), &clients), Announcement::Unencodable(_)));
    let candidate = Candidate { address: "nowhere".to_string(), ..host_candidate() };
    assert!(matches!(announce(addr(9), Some(candidate), &clients), Announcement::Unencodable(_)));
}

#[test]
fn candidates_of_an_unregistered_client_are_not_sent() {
    let clients = three_clients();
    assert!(matches!(
        announce(addr(9), Some(host_candidate()), &clients),
        Announcement::Unregistered
    ));
    let init = CandidateInit {
        candidate: "c".to_string(),
        sdp_mid: None,
        sdp_mline_index: None,
        username_fragment: None,
    };
    assert!(matches!(announce_encoded(addr(9), Ok(init), &clients), Announcement::Unregistered));
}

#[test]
fn the_end_of_the_candidates_is_not_announced() {
    let clients = three_clients();
    assert!(matches!(announce(addr(1), None, &clients), Announcement::Nothing));
    assert!(matches!(announce(addr(9), None, &clients), Announcement::Nothing));
}

#[test]
fn one_stun_server_is_asked() {
    assert_eq!(ice_server_urls(), vec![vec!["stun:stun.l.google.com:19302".to_string()]]);
}

#[test]
fn packets_are_read_until_a_read_fails() {
    let actions = on_rtp_read(Ok("p".to_string()));
    assert!(matches!(
        &actions[..],
        [
            TrackAction::Print(TrackNotice::PacketArrived),
            TrackAction::Print(TrackNotice::Packet(packet)),
            TrackAction::Read,
        ] if packet == "p"
    ));
    let actions = on_rtp_read(Err("e".to_string()));
    assert!(matches!(
        &actions[..],
        [TrackAction::Print(TrackNotice::ReadFailed(error)), TrackAction::Stop] if error == "e"
    ));
    assert!(matches!(
        handle_rtp_packet("p".to_string()),
        TrackNotice::Packet(packet) if packet == "p"
    ));
}

#[test]
fn a_whole_life_registers_and_unregisters_once() {
    let clients = three_clients();
    let mut session = Session::new(addr(1));
    let requests = ["RegisterCodecs", "CreatePeer", "Receive", "SendPong", "Return"];
    let mut asked = Vec::new();
    for event in [
        Event::Upgraded(Ok(())),
        Event::CodecsRegistered(Ok(())),
        Event::PeerCreated(Ok(())),
        text(r#"{"msg_type":"ping"}"#),
        Event::PongSent(Ok(())),
        text(r#"{"msg_type":"chat","content":"hi"}"#),
        text("no json"),
        Event::Received(Frame::Close),
    ] {
        let actions = tell(&mut session, event, &clients);
        let awaited: Vec<bool> = actions
            .iter()
            .map(|action| requests.iter().any(|request| action.starts_with(request)))
            .collect();
        assert_eq!(awaited.last(), Some(&true));
        assert_eq!(awaited.iter().filter(|is_request| **is_request).count(), 1);
        asked.extend(actions);
    }
    assert!(session.is_ended());
    assert_eq!(asked[0], "Register");
    assert_eq!(asked.iter().filter(|action| *action == "Register").count(), 1);
    assert_eq!(asked.iter().filter(|action| *action == "Unregister").count(), 1);
    assert_eq!(asked[asked.len() - 5..], FAREWELL);
}

#[test]
fn ignored_messages_make_no_difference() {
    let clients = three_clients();
    let life = |ignored: bool| {
        let mut session = listening(&clients);
        let mut asked = Vec::new();
        for said in [r#"{"msg_type":"chat","content":"hi"}"#, r#"{"msg_type":"chat","content":"ho"}"#] {
            if ignored {
                asked.extend(tell(&mut session, text("no json"), &clients));
                asked.extend(tell(&mut session, Event::Received(Frame::Other), &clients));
                asked.extend(tell(&mut session, text(r#"{"msg_type":"x"}"#), &clients));
            }
            asked.extend(tell(&mut session, text(said), &clients));
        }
        asked.extend(tell(&mut session, Event::StreamEnded, &clients));
        asked.retain(|action| !action.starts_with("Print") && action != "Receive");
        asked
    };
    assert_eq!(life(true), life(false));
    assert_eq!(life(false).len(), 6);
}

#[test]
fn a_track_is_handled_packet_by_packet_until_it_fails() {
    let mut reads = vec![Ok("a"), Ok("b"), Err("e"), Ok("c")].into_iter();
    let mut handled = Vec::new();
    let mut reading = true;
    while reading {
        let read = reads.next().unwrap();
        for action in on_rtp_read(read.map(str::to_string).map_err(str::to_string)) {
            match action {
                TrackAction::Print(TrackNotice::Packet(packet)) => handled.push(packet),
                TrackAction::Print(_) | TrackAction::Read => {}
                TrackAction::Stop => reading = false,
            }
        }
    }
    assert_eq!(handled, ["a", "b"]);
    assert_eq!(reads.next(), Some(Ok("c")));
}

#[test]
fn a_message_that_cannot_be_sent_is_logged_and_the_next_is_taken() {
    assert!(matches!(on_taken(Some("m")), ForwardAction::Send("m")));
    assert!(matches!(on_taken::<&str>(None), ForwardAction::Stop));
    assert!(matches!(&on_forwarded::<&str>(Ok(()))[..], [ForwardAction::Take]));
    assert!(matches!(
        &on_forwarded::<&str>(Err("e".to_string()))[..],
        [ForwardAction::Print(ForwardNotice::SendFailed(error)), ForwardAction::Take] if error == "e"
    ));
}

#[test]
fn every_message_of_a_channel_is_sent_whatever_fails() {
    let mut queue = vec!["a", "b", "c"].into_iter();
    let mut sent = Vec::new();
    let mut failures = Vec::new();
    let mut todo = vec![ForwardAction::Take];
    while let Some(action) = todo.pop() {
        match action {
            ForwardAction::Take => todo.push(on_taken(queue.next())),
            ForwardAction::Send(message) => {
                sent.push(message);
                let outcome = if message == "b" { Err("e".to_string()) } else { Ok(()) };
                todo.extend(on_forwarded(outcome).into_iter().rev());
            }
            ForwardAction::Print(ForwardNotice::SendFailed(error)) => failures.push(error),
            ForwardAction::Stop => assert!(todo.is_empty()),
        }
    }
    assert_eq!(sent, ["a", "b", "c"]);
    assert_eq!(failures, ["e"]);
}
