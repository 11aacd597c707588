use signaling::json::{find_member, Json, Members};
use signaling::message::{
    classify, read_text, AnswerSignalMessage, CandidateInit, ChatMessage,
    IceCandidateSignalMessage, Inbound, OfferSignalMessage, PONG,
};

fn text(s: &str) -> Json {
    Json::Text(s.to_string())
}

fn members(entries: Vec<(&str, Json)>) -> Members {
    entries.into_iter().map(|(name, value)| (name.to_string(), value)).collect()
}

fn init(
    candidate: &str,
    sdp_mid: Option<&str>,
    sdp_mline_index: Option<u16>,
    username_fragment: Option<&str>,
) -> CandidateInit {
    CandidateInit {
        candidate: candidate.to_string(),
        sdp_mid: sdp_mid.map(|s| s.to_string()),
        sdp_mline_index,
        username_fragment: username_fragment.map(|s| s.to_string()),
    }
}

#[test]
fn the_first_member_of_a_name_is_found() {
    let m = members(vec![("a", Json::Null), ("b", Json::Bool(true)), ("b", Json::Bool(false))]);
    assert!(matches!(find_member(&m, "b"), Some(Json::Bool(true))));
    assert!(matches!(find_member(&m, "a"), Some(Json::Null)));
    assert!(find_member(&m, "c").is_none());
}

#[test]
fn a_ping_needs_only_its_type() {
    assert!(matches!(read_text(r#"{"msg_type":"ping"}"#), Inbound::Ping));
    assert!(matches!(read_text(r#" { "content": [], "msg_type": "ping" } "#), Inbound::Ping));
}

#[test]
fn a_chat_message_is_read() {
    match read_text(r#"{"msg_type":"chat","content":"selam \"dünya\"","extra":1}"#) {
        Inbound::Chat(Some(message)) => {
            assert_eq!(message.msg_type, "chat");
            assert_eq!(message.content, "selam \"dünya\"");
        }
        other => panic!("{:?}", other),
    }
}

#[test]
fn a_chat_message_without_textual_content_is_unreadable() {
    assert!(matches!(read_text(r#"{"msg_type":"chat"}"#), Inbound::Chat(None)));
    assert!(matches!(read_text(r#"{"msg_type":"chat","content":5}"#), Inbound::Chat(None)));
    assert!(matches!(read_text(r#"{"msg_type":"chat","content":null}"#), Inbound::Chat(None)));
}

#[test]
fn an_offer_is_read() {
    match read_text(r#"{"msg_type":"offer","content":"v=0"}"#) {
        Inbound::Offer(Some(message)) => assert_eq!(message.content, "v=0"),
        other => panic!("{:?}", other),
    }
    assert!(matches!(read_text(r#"{"msg_type":"offer","content":{}}"#), Inbound::Offer(None)));
    assert!(matches!(read_text(r#"{"msg_type":"offer","content":["v=0"]}"#), Inbound::Offer(None)));
}

#[test]
fn a_candidate_may_lack_its_optional_members() {
    match read_text(r#"{"msg_type":"candidate","content":"candidate:1"}"#) {
        Inbound::Candidate(Some(message)) => {
            let init = message.into_init();
            assert_eq!(init.candidate, "candidate:1");
            assert_eq!(init.sdp_mid, None);
            assert_eq!(init.sdp_mline_index, None);
            assert_eq!(init.username_fragment, None);
        }
        other => panic!("{:?}", other),
    }
    match read_text(
        r#"{"msg_type":"candidate","content":"c","sdp_mid":null,"sdp_mline_index":65535,"username_fragment":"u"}"#,
    ) {
        Inbound::Candidate(Some(message)) => {
            assert_eq!(message.sdp_mid, None);
            assert_eq!(message.sdp_mline_index, Some(65535));
            assert_eq!(message.username_fragment.as_deref(), Some("u"));
        }
        other => panic!("{:?}", other),
    }
}

#[test]
fn a_candidate_with_a_member_of_the_wrong_kind_is_unreadable() {
    for bad in [
        r#"{"msg_type":"candidate"}"#,
        r#"{"msg_type":"candidate","content":"c","sdp_mid":0}"#,
        r#"{"msg_type":"candidate","content":"c","sdp_mline_index":65536}"#,
        r#"{"msg_type":"candidate","content":"c","sdp_mline_index":-1}"#,
        r#"{"msg_type":"candidate","content":"c","sdp_mline_index":1.0}"#,
        r#"{"msg_type":"candidate","content":"c","sdp_mline_index":"0"}"#,
        r#"{"msg_type":"candidate","content":"c","username_fragment":false}"#,
    ] {
        assert!(matches!(read_text(bad), Inbound::Candidate(None)), "{}", bad);
    }
}

#[test]
fn an_unknown_type_is_told_apart() {
    match read_text(r#"{"msg_type":"Ping"}"#) {
        Inbound::Unknown(msg_type) => assert_eq!(msg_type, "Ping"),
        other => panic!("{:?}", other),
    }
    assert!(matches!(read_text(r#"{"msg_type":""}"#), Inbound::Unknown(_)));
    assert!(matches!(read_text(r#"{"msg_type":"answer","content":""}"#), Inbound::Unknown(_)));
}

#[test]
fn a_text_without_a_type_is_untyped() {
    for untyped in ["{}", "[]", "null", "3", "\"ping\"", r#"{"msg_type":7}"#, r#"[["msg_type","ping"]]"#] {
        assert!(matches!(read_text(untyped), Inbound::Untyped), "{}", untyped);
    }
}

#[test]
fn a_text_that_is_no_json_is_malformed() {
    match read_text("{ 'msg_type': 'ping' }") {
        Inbound::Malformed(message) => {
            assert_eq!(message, "key must be a string at line 1 column 3");
        }
        other => panic!("{:?}", other),
    }
    assert!(matches!(read_text(""), Inbound::Malformed(_)));
    assert!(matches!(read_text(r#"{"msg_type":"ping"} x"#), Inbound::Malformed(_)));
}

#[test]
fn of_a_repeated_member_the_last_counts() {
    assert!(matches!(read_text(r#"{"msg_type":"chat","msg_type":"ping"}"#), Inbound::Ping));
}

#[test]
fn parsed_texts_are_sorted_out() {
    assert!(matches!(classify(Err("bad".to_string())), Inbound::Malformed(message) if message == "bad"));
    assert!(matches!(classify(Ok(None)), Inbound::Untyped));
    assert!(matches!(classify(Ok(Some(members(vec![])))), Inbound::Untyped));
    assert!(matches!(
        classify(Ok(Some(members(vec![("msg_type", text("ping"))])))),
        Inbound::Ping
    ));
    assert!(matches!(
        classify(Ok(Some(members(vec![("msg_type", text("chat")), ("content", Json::Array)])))),
        Inbound::Chat(None)
    ));
    assert!(matches!(
        classify(Ok(Some(members(vec![("msg_type", Json::Object)])))),
        Inbound::Untyped
    ));
}

#[test]
fn members_make_messages() {
    let m = members(vec![("content", text("c")), ("msg_type", text("t"))]);
    assert_eq!(ChatMessage::from_members(&m).unwrap().content, "c");
    assert_eq!(OfferSignalMessage::from_members(&m).unwrap().msg_type, "t");
    assert!(IceCandidateSignalMessage::from_members(&m).is_some());
    let m = members(vec![("msg_type", text("t"))]);
    assert!(ChatMessage::from_members(&m).is_none());
    assert!(OfferSignalMessage::from_members(&m).is_none());
    assert!(IceCandidateSignalMessage::from_members(&m).is_none());
}

#[test]
fn messages_have_their_texts() {
    let chat = ChatMessage { msg_type: "chat".to_string(), content: "a\"b\\c\nd\u{1}é".to_string() };
    assert_eq!(chat.to_json(), "{\"msg_type\":\"chat\",\"content\":\"a\\\"b\\\\c\\nd\\u0001é\"}");
    let answer = AnswerSignalMessage::new("v=0\r\n".to_string());
    assert_eq!(answer.to_json(), r#"{"msg_type":"answer","content":"v=0\r\n"}"#);
    let candidate = IceCandidateSignalMessage::new(init("candidate:1", Some(""), Some(0), None));
    assert_eq!(
        candidate.to_json(),
        r#"{"msg_type":"candidate","content":"candidate:1","sdp_mid":"","sdp_mline_index":0,"username_fragment":null}"#
    );
    let candidate = IceCandidateSignalMessage::new(init("c", None, Some(65535), Some("u")));
    assert_eq!(
        candidate.to_json(),
        r#"{"msg_type":"candidate","content":"c","sdp_mid":null,"sdp_mline_index":65535,"username_fragment":"u"}"#
    );
    let candidate = IceCandidateSignalMessage::new(init("c", None, None, None));
    assert_eq!(
        candidate.to_json(),
        r#"{"msg_type":"candidate","content":"c","sdp_mid":null,"sdp_mline_index":null,"username_fragment":null}"#
    );
}

/// How a character stands in a JSON string.
fn escaped(c: char) -> String {
    match c {
        '"' => "\\\"".to_string(),
        '\\' => "\\\\".to_string(),
        '\u{8}' => "\\b".to_string(),
        '\t' => "\\t".to_string(),
        '\n' => "\\n".to_string(),
        '\u{c}' => "\\f".to_string(),
        '\r' => "\\r".to_string(),
        c if (c as u32) < 0x20 => format!("\\u{:04x}", c as u32),
        c => c.to_string(),
    }
}

#[test]
fn every_ascii_character_is_escaped_as_stated() {
    for code in 0u8..=0x80 {
        let c = code as char;
        let chat = ChatMessage { msg_type: "m".to_string(), content: c.to_string() };
        assert_eq!(
            chat.to_json(),
            format!("{{\"msg_type\":\"m\",\"content\":\"{}\"}}", escaped(c))
        );
    }
}

#[test]
fn a_written_message_is_read_back() {
    for content in ["", "selam", "\"\\\u{0}\u{7f}\u{2028}", "{\"msg_type\":\"ping\"}", "😀"] {
        let chat = ChatMessage { msg_type: "chat".to_string(), content: content.to_string() };
        match read_text(&chat.to_json()) {
            Inbound::Chat(Some(message)) => {
                assert_eq!(message.msg_type, "chat");
                assert_eq!(message.content, content);
            }
            other => panic!("{:?}", other),
        }
        let offer = ChatMessage { msg_type: "offer".to_string(), content: content.to_string() };
        match read_text(&offer.to_json()) {
            Inbound::Offer(Some(message)) => assert_eq!(message.content, content),
            other => panic!("{:?}", other),
        }
    }
}

#[test]
fn a_written_candidate_is_read_back() {
    for index in [None, Some(0), Some(9), Some(10), Some(1234), Some(65535)] {
        for mid in [None, Some(""), Some("0")] {
            let message = IceCandidateSignalMessage::new(init("candidate:1", mid, index, mid));
            match read_text(&message.to_json()) {
                Inbound::Candidate(Some(message)) => {
                    let init = message.into_init();
                    assert_eq!(init.candidate, "candidate:1");
                    assert_eq!(init.sdp_mid.as_deref(), mid);
                    assert_eq!(init.sdp_mline_index, index);
                    assert_eq!(init.username_fragment.as_deref(), mid);
                }
                other => panic!("{:?}", other),
            }
        }
    }
}

#[test]
fn the_pong_is_fixed() {
    assert_eq!(PONG, "{ 'msg_type': 'pong', 'content': [] }");
}
