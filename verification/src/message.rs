//! The messages of the protocol and their JSON texts.

use crate::json::{
    all_writable, decimal, distinct_names, find_member, holds_members, is_text, json_string,
    law_plain_text_is_kept, lookup, member_text, members_text, members_view, object_text, parse_json,
    parsed_json, parsed_view, value_text, write_object, Json, JsonView, Members, Parsed,
};
use vstd::prelude::*;

verus! {

/// The answer to a ping.
pub const PONG: &'static str = "{ 'msg_type': 'pong', 'content': [] }";

/// A chat message. Every other client gets it.
#[derive(Debug)]
pub struct ChatMessage {
    pub msg_type: String,
    pub content: String,
}

/// A client's offer: `content` is its session description.
#[derive(Debug)]
pub struct OfferSignalMessage {
    pub msg_type: String,
    pub content: String,
}

/// The server's answer: `content` is its session description.
#[derive(Debug)]
pub struct AnswerSignalMessage {
    pub msg_type: String,
    pub content: String,
}

/// An ICE candidate, in either direction.
#[derive(Debug)]
pub struct IceCandidateSignalMessage {
    pub msg_type: String,
    pub content: String,
    pub sdp_mid: Option<String>,
    pub sdp_mline_index: Option<u16>,
    pub username_fragment: Option<String>,
}

/// What a peer connection is told of a remote candidate, and what it tells of a
/// local one.
#[derive(Debug)]
pub struct CandidateInit {
    pub candidate: String,
    pub sdp_mid: Option<String>,
    pub sdp_mline_index: Option<u16>,
    pub username_fragment: Option<String>,
}

/// A message that consists of its type and a text.
pub struct MessageView {
    pub msg_type: Seq<char>,
    pub content: Seq<char>,
}

pub struct CandidateMessageView {
    pub msg_type: Seq<char>,
    pub content: Seq<char>,
    pub sdp_mid: Option<Seq<char>>,
    pub sdp_mline_index: Option<u16>,
    pub username_fragment: Option<Seq<char>>,
}

pub struct CandidateInitView {
    pub candidate: Seq<char>,
    pub sdp_mid: Option<Seq<char>>,
    pub sdp_mline_index: Option<u16>,
    pub username_fragment: Option<Seq<char>>,
}

pub open spec fn optional_view(text: Option<String>) -> Option<Seq<char>> {
    match text {
        Some(text) => Some(text@),
        None => None,
    }
}

impl View for ChatMessage {
    type V = MessageView;

    open spec fn view(&self) -> MessageView {
        MessageView { msg_type: self.msg_type@, content: self.content@ }
    }
}

impl View for OfferSignalMessage {
    type V = MessageView;

    open spec fn view(&self) -> MessageView {
        MessageView { msg_type: self.msg_type@, content: self.content@ }
    }
}

impl View for AnswerSignalMessage {
    type V = MessageView;

    open spec fn view(&self) -> MessageView {
        MessageView { msg_type: self.msg_type@, content: self.content@ }
    }
}

impl View for IceCandidateSignalMessage {
    type V = CandidateMessageView;

    open spec fn view(&self) -> CandidateMessageView {
        CandidateMessageView {
            msg_type: self.msg_type@,
            content: self.content@,
            sdp_mid: optional_view(self.sdp_mid),
            sdp_mline_index: self.sdp_mline_index,
            username_fragment: optional_view(self.username_fragment),
        }
    }
}

impl View for CandidateInit {
    type V = CandidateInitView;

    open spec fn view(&self) -> CandidateInitView {
        CandidateInitView {
            candidate: self.candidate@,
            sdp_mid: optional_view(self.sdp_mid),
            sdp_mline_index: self.sdp_mline_index,
            username_fragment: optional_view(self.username_fragment),
        }
    }
}

// ---------------------------------------------------------------------------
// Reading
// ---------------------------------------------------------------------------

/// A member that must be there and be a text.
pub open spec fn text_member(
    members: Seq<(Seq<char>, JsonView)>,
    name: Seq<char>,
) -> Option<Seq<char>> {
    match lookup(members, name) {
        Some(JsonView::Text(text)) => Some(text),
        _ => None,
    }
}

/// A member that may be absent or null and is a text otherwise. The outer `None`
/// stands for a member of another kind.
pub open spec fn optional_text_member(
    members: Seq<(Seq<char>, JsonView)>,
    name: Seq<char>,
) -> Option<Option<Seq<char>>> {
    match lookup(members, name) {
        None => Some(None),
        Some(JsonView::Null) => Some(None),
        Some(JsonView::Text(text)) => Some(Some(text)),
        _ => None,
    }
}

/// A member that may be absent or null and is an integer of 16 bits otherwise.
pub open spec fn optional_index_member(
    members: Seq<(Seq<char>, JsonView)>,
    name: Seq<char>,
) -> Option<Option<u16>> {
    match lookup(members, name) {
        None => Some(None),
        Some(JsonView::Null) => Some(None),
        Some(JsonView::Number(Some(n))) => if n <= 0xffff {
            Some(Some(n as u16))
        } else {
            None
        },
        _ => None,
    }
}

/// The message with a type and a text that `members` hold. Further members are
/// of no account.
pub open spec fn message_of(members: Seq<(Seq<char>, JsonView)>) -> Option<MessageView> {
    match (text_member(members, "msg_type"@), text_member(members, "content"@)) {
        (Some(msg_type), Some(content)) => Some(MessageView { msg_type, content }),
        _ => None,
    }
}

/// The candidate message that `members` hold.
pub open spec fn candidate_message_of(members: Seq<(Seq<char>, JsonView)>) -> Option<
    CandidateMessageView,
> {
    match (
        message_of(members),
        optional_text_member(members, "sdp_mid"@),
        optional_index_member(members, "sdp_mline_index"@),
        optional_text_member(members, "username_fragment"@),
    ) {
        (Some(message), Some(sdp_mid), Some(sdp_mline_index), Some(username_fragment)) => Some(
            CandidateMessageView {
                msg_type: message.msg_type,
                content: message.content,
                sdp_mid,
                sdp_mline_index,
                username_fragment,
            },
        ),
        _ => None,
    }
}

/// What a client's text turns out to be.
#[derive(Debug)]
pub enum Inbound {
    /// No JSON, with the parser's message.
    Malformed(String),
    /// JSON, but not an object with a textual `msg_type`.
    Untyped,
    Ping,
    /// A chat message, `None` where members are missing or of the wrong kind.
    Chat(Option<ChatMessage>),
    /// An offer, with the same reading of `None`.
    Offer(Option<OfferSignalMessage>),
    /// A candidate, with the same reading of `None`.
    Candidate(Option<IceCandidateSignalMessage>),
    /// A type that the server does not know.
    Unknown(String),
}

pub enum InboundView {
    Malformed(Seq<char>),
    Untyped,
    Ping,
    Chat(Option<MessageView>),
    Offer(Option<MessageView>),
    Candidate(Option<CandidateMessageView>),
    Unknown(Seq<char>),
}

impl View for Inbound {
    type V = InboundView;

    open spec fn view(&self) -> InboundView {
        match self {
            Inbound::Malformed(message) => InboundView::Malformed(message@),
            Inbound::Untyped => InboundView::Untyped,
            Inbound::Ping => InboundView::Ping,
            Inbound::Chat(Some(message)) => InboundView::Chat(Some(message@)),
            Inbound::Chat(None) => InboundView::Chat(None),
            Inbound::Offer(Some(message)) => InboundView::Offer(Some(message@)),
            Inbound::Offer(None) => InboundView::Offer(None),
            Inbound::Candidate(Some(message)) => InboundView::Candidate(Some(message@)),
            Inbound::Candidate(None) => InboundView::Candidate(None),
            Inbound::Unknown(msg_type) => InboundView::Unknown(msg_type@),
        }
    }
}

/// The reading of a text, by its `msg_type`.
pub open spec fn inbound_of(
    parsed: Result<Option<Seq<(Seq<char>, JsonView)>>, Seq<char>>,
) -> InboundView {
    match parsed {
        Err(message) => InboundView::Malformed(message),
        Ok(None) => InboundView::Untyped,
        Ok(Some(members)) => match text_member(members, "msg_type"@) {
            None => InboundView::Untyped,
            Some(msg_type) => if msg_type == "ping"@ {
                InboundView::Ping
            } else if msg_type == "chat"@ {
                InboundView::Chat(message_of(members))
            } else if msg_type == "offer"@ {
                InboundView::Offer(message_of(members))
            } else if msg_type == "candidate"@ {
                InboundView::Candidate(candidate_message_of(members))
            } else {
                InboundView::Unknown(msg_type)
            },
        },
    }
}

fn read_text_member(members: &Members, name: &str) -> (text: Option<String>)
    ensures
        optional_view(text) == text_member(members_view(members@), name@),
{
    match find_member(members, name) {
        Some(Json::Text(text)) => Some(text.clone()),
        _ => None,
    }
}

fn read_optional_text_member(members: &Members, name: &str) -> (text: Option<Option<String>>)
    ensures
        match text {
            Some(text) => optional_text_member(members_view(members@), name@) == Some(
                optional_view(text),
            ),
            None => optional_text_member(members_view(members@), name@) is None,
        },
{
    match find_member(members, name) {
        None => Some(None),
        Some(Json::Null) => Some(None),
        Some(Json::Text(text)) => Some(Some(text.clone())),
        _ => None,
    }
}

fn read_optional_index_member(members: &Members, name: &str) -> (index: Option<Option<u16>>)
    ensures
        index == optional_index_member(members_view(members@), name@),
{
    match find_member(members, name) {
        None => Some(None),
        Some(Json::Null) => Some(None),
        Some(Json::Number(Some(n))) => if *n <= 0xffff {
            Some(Some(*n as u16))
        } else {
            None
        },
        _ => None,
    }
}

impl ChatMessage {
    /// Reads a chat message out of an object.
    pub fn from_members(members: &Members) -> (message: Option<ChatMessage>)
        ensures
            match message {
                Some(message) => message_of(members_view(members@)) == Some(message@),
                None => message_of(members_view(members@)) is None,
            },
            match (
                lookup(members_view(members@), "msg_type"@),
                lookup(members_view(members@), "content"@),
            ) {
                (Some(JsonView::Text(msg_type)), Some(JsonView::Text(content))) => message matches
                    Some(message) && message.msg_type@ == msg_type && message.content@ == content,
                _ => message is None,
            },
    {
        match (read_text_member(members, "msg_type"), read_text_member(members, "content")) {
            (Some(msg_type), Some(content)) => Some(ChatMessage { msg_type, content }),
            _ => None,
        }
    }
}

impl OfferSignalMessage {
    /// Reads an offer out of an object.
    pub fn from_members(members: &Members) -> (message: Option<OfferSignalMessage>)
        ensures
            match message {
                Some(message) => message_of(members_view(members@)) == Some(message@),
                None => message_of(members_view(members@)) is None,
            },
            match (
                lookup(members_view(members@), "msg_type"@),
                lookup(members_view(members@), "content"@),
            ) {
                (Some(JsonView::Text(msg_type)), Some(JsonView::Text(content))) => message matches
                    Some(message) && message.msg_type@ == msg_type && message.content@ == content,
                _ => message is None,
            },
    {
        match (read_text_member(members, "msg_type"), read_text_member(members, "content")) {
            (Some(msg_type), Some(content)) => Some(OfferSignalMessage { msg_type, content }),
            _ => None,
        }
    }
}

impl IceCandidateSignalMessage {
    /// Reads a candidate out of an object.
    pub fn from_members(members: &Members) -> (message: Option<IceCandidateSignalMessage>)
        ensures
            match message {
                Some(message) => candidate_message_of(members_view(members@)) == Some(message@),
                None => candidate_message_of(members_view(members@)) is None,
            },
            message matches Some(message) ==> {
                let found = members_view(members@);
                &&& lookup(found, "msg_type"@) == Some(JsonView::Text(message.msg_type@))
                &&& lookup(found, "content"@) == Some(JsonView::Text(message.content@))
                &&& match message.sdp_mid {
                    Some(text) => lookup(found, "sdp_mid"@) == Some(JsonView::Text(text@)),
                    None => lookup(found, "sdp_mid"@) is None || lookup(found, "sdp_mid"@) == Some(
                        JsonView::Null,
                    ),
                }
                &&& match message.sdp_mline_index {
                    Some(n) => lookup(found, "sdp_mline_index"@) == Some(
                        JsonView::Number(Some(n as u64)),
                    ),
                    None => lookup(found, "sdp_mline_index"@) is None || lookup(
                        found,
                        "sdp_mline_index"@,
                    ) == Some(JsonView::Null),
                }
                &&& match message.username_fragment {
                    Some(text) => lookup(found, "username_fragment"@) == Some(
                        JsonView::Text(text@),
                    ),
                    None => lookup(found, "username_fragment"@) is None || lookup(
                        found,
                        "username_fragment"@,
                    ) == Some(JsonView::Null),
                }
            },
    {
        let msg_type = read_text_member(members, "msg_type");
        let content = read_text_member(members, "content");
        let sdp_mid = read_optional_text_member(members, "sdp_mid");
        let sdp_mline_index = read_optional_index_member(members, "sdp_mline_index");
        let username_fragment = read_optional_text_member(members, "username_fragment");
        match (msg_type, content, sdp_mid, sdp_mline_index, username_fragment) {
            (
                Some(msg_type),
                Some(content),
                Some(sdp_mid),
                Some(sdp_mline_index),
                Some(username_fragment),
            ) => Some(
                IceCandidateSignalMessage {
                    msg_type,
                    content,
                    sdp_mid,
                    sdp_mline_index,
                    username_fragment,
                },
            ),
            _ => None,
        }
    }

    /// The candidate that the message carries.
    pub fn into_init(self) -> (init: CandidateInit)
        ensures
            init@ == init_of(self@),
            init.candidate == self.content,
            init.sdp_mid == self.sdp_mid,
            init.sdp_mline_index == self.sdp_mline_index,
            init.username_fragment == self.username_fragment,
    {
        CandidateInit {
            candidate: self.content,
            sdp_mid: self.sdp_mid,
            sdp_mline_index: self.sdp_mline_index,
            username_fragment: self.username_fragment,
        }
    }
}

/// Sorts out what a parsed text is.
pub fn classify(parsed: Parsed) -> (inbound: Inbound)
    ensures
        inbound@ == inbound_of(parsed_view(parsed)),
{
    match parsed {
        Err(message) => Inbound::Malformed(message),
        Ok(None) => Inbound::Untyped,
        Ok(Some(members)) => match read_text_member(&members, "msg_type") {
            None => Inbound::Untyped,
            Some(msg_type) => if is_text(&msg_type, "ping") {
                Inbound::Ping
            } else if is_text(&msg_type, "chat") {
                Inbound::Chat(ChatMessage::from_members(&members))
            } else if is_text(&msg_type, "offer") {
                Inbound::Offer(OfferSignalMessage::from_members(&members))
            } else if is_text(&msg_type, "candidate") {
                Inbound::Candidate(IceCandidateSignalMessage::from_members(&members))
            } else {
                Inbound::Unknown(msg_type)
            },
        },
    }
}

/// Reads a client's text.
///
/// A chat message, an offer or a candidate in the form in which this library
/// writes messages is read back as it was written.
pub fn read_text(text: &str) -> (inbound: Inbound)
    ensures
        inbound@ == inbound_of(parsed_json(text@)),
        forall|message: MessageView|
            text@ == #[trigger] message_text(message) && message.msg_type == "chat"@ ==> inbound@
                == InboundView::Chat(Some(message)),
        forall|message: MessageView|
            text@ == #[trigger] message_text(message) && message.msg_type == "offer"@ ==> inbound@
                == InboundView::Offer(Some(message)),
        forall|message: CandidateMessageView|
            text@ == #[trigger] candidate_message_text(message) && message.msg_type
                == "candidate"@ ==> inbound@ == InboundView::Candidate(Some(message)),
{
    let parsed = parse_json(text);
    proof {
        assert forall|message: MessageView|
            text@ == #[trigger] message_text(message) implies inbound_of(parsed_view(parsed))
            == inbound_of(Ok(Some(message_members(message)))) by {
            lemma_names_differ();
            lemma_same_lookups(parsed_view(parsed), message_members(message));
        }
        assert forall|message: CandidateMessageView|
            text@ == #[trigger] candidate_message_text(message) implies inbound_of(
            parsed_view(parsed),
        ) == inbound_of(Ok(Some(candidate_message_members(message)))) by {
            lemma_names_differ();
            lemma_same_lookups(parsed_view(parsed), candidate_message_members(message));
        }
        assert forall|message: MessageView| message.msg_type == "chat"@ implies #[trigger] inbound_of(
            Ok(Some(message_members(message))),
        ) == InboundView::Chat(Some(message)) by {
            law_message_is_read_back(message);
        }
        assert forall|message: MessageView|
            message.msg_type == "offer"@ implies #[trigger] inbound_of(
            Ok(Some(message_members(message))),
        ) == InboundView::Offer(Some(message)) by {
            law_message_is_read_back(message);
        }
        assert forall|message: CandidateMessageView|
            message.msg_type == "candidate"@ implies #[trigger] inbound_of(
            Ok(Some(candidate_message_members(message))),
        ) == InboundView::Candidate(Some(message)) by {
            law_candidate_is_read_back(message);
        }
    }
    classify(parsed)
}

// ---------------------------------------------------------------------------
// Writing
// ---------------------------------------------------------------------------

pub open spec fn optional_text_value(text: Option<Seq<char>>) -> JsonView {
    match text {
        Some(text) => JsonView::Text(text),
        None => JsonView::Null,
    }
}

pub open spec fn optional_index_value(index: Option<u16>) -> JsonView {
    match index {
        Some(index) => JsonView::Number(Some(index as u64)),
        None => JsonView::Null,
    }
}

/// The members that stand for a message, in the order in which they are written.
pub open spec fn message_members(message: MessageView) -> Seq<(Seq<char>, JsonView)> {
    seq![
        ("msg_type"@, JsonView::Text(message.msg_type)),
        ("content"@, JsonView::Text(message.content)),
    ]
}

pub open spec fn candidate_message_members(message: CandidateMessageView) -> Seq<
    (Seq<char>, JsonView),
> {
    seq![
        ("msg_type"@, JsonView::Text(message.msg_type)),
        ("content"@, JsonView::Text(message.content)),
        ("sdp_mid"@, optional_text_value(message.sdp_mid)),
        ("sdp_mline_index"@, optional_index_value(message.sdp_mline_index)),
        ("username_fragment"@, optional_text_value(message.username_fragment)),
    ]
}

/// The text in which a message goes out.
pub open spec fn message_text(message: MessageView) -> Seq<char> {
    object_text(message_members(message))
}

/// The text in which a candidate goes out.
pub open spec fn candidate_message_text(message: CandidateMessageView) -> Seq<char> {
    object_text(candidate_message_members(message))
}

/// The answer with the given session description.
pub open spec fn answer_with(sdp: Seq<char>) -> MessageView {
    MessageView { msg_type: "answer"@, content: sdp }
}

/// The candidate that a message carries.
pub open spec fn init_of(message: CandidateMessageView) -> CandidateInitView {
    CandidateInitView {
        candidate: message.content,
        sdp_mid: message.sdp_mid,
        sdp_mline_index: message.sdp_mline_index,
        username_fragment: message.username_fragment,
    }
}

/// The message that carries a candidate.
pub open spec fn message_with(init: CandidateInitView) -> CandidateMessageView {
    CandidateMessageView {
        msg_type: "candidate"@,
        content: init.candidate,
        sdp_mid: init.sdp_mid,
        sdp_mline_index: init.sdp_mline_index,
        username_fragment: init.username_fragment,
    }
}

proof fn lemma_names_differ()
    ensures
        forall|message: MessageView| #[trigger]
            distinct_names(message_members(message)) && all_writable(message_members(message)),
        forall|message: CandidateMessageView| #[trigger]
            distinct_names(candidate_message_members(message)) && all_writable(
                candidate_message_members(message),
            ),
{
    reveal_strlit("msg_type");
    reveal_strlit("content");
    reveal_strlit("sdp_mid");
    reveal_strlit("sdp_mline_index");
    reveal_strlit("username_fragment");
    assert("msg_type"@.len() == 8 && "content"@.len() == 7 && "sdp_mid"@.len() == 7);
    assert("sdp_mline_index"@.len() == 15 && "username_fragment"@.len() == 17);
    assert("content"@[0] == 'c' && "sdp_mid"@[0] == 's');
}

pub(crate) proof fn lemma_same_lookups(
    parsed: Result<Option<Seq<(Seq<char>, JsonView)>>, Seq<char>>,
    members: Seq<(Seq<char>, JsonView)>,
)
    requires
        holds_members(parsed, members),
    ensures
        inbound_of(parsed) == inbound_of(Ok(Some(members))),
{
    let found = parsed->Ok_0->Some_0;
    assert(forall|name: Seq<char>| text_member(found, name) == text_member(members, name));
    assert(message_of(found) == message_of(members));
    assert(candidate_message_of(found) == candidate_message_of(members));
}

/// What a text is goes by the text under `msg_type`, and what a chat message or an
/// offer says is the text under `content`. Nothing else in the object matters.
pub proof fn law_type_decides(members: Seq<(Seq<char>, JsonView)>)
    ensures
        match lookup(members, "msg_type"@) {
            Some(JsonView::Text(msg_type)) => {
                &&& msg_type == "ping"@ ==> inbound_of(Ok(Some(members))) == InboundView::Ping
                &&& msg_type == "chat"@ ==> match lookup(members, "content"@) {
                    Some(JsonView::Text(content)) => inbound_of(Ok(Some(members)))
                        == InboundView::Chat(Some(MessageView { msg_type: "chat"@, content })),
                    _ => inbound_of(Ok(Some(members))) == InboundView::Chat(None),
                }
                &&& msg_type == "offer"@ ==> match lookup(members, "content"@) {
                    Some(JsonView::Text(content)) => inbound_of(Ok(Some(members)))
                        == InboundView::Offer(Some(MessageView { msg_type: "offer"@, content })),
                    _ => inbound_of(Ok(Some(members))) == InboundView::Offer(None),
                }
                &&& msg_type == "candidate"@ ==> inbound_of(Ok(Some(members))) is Candidate
                &&& msg_type != "ping"@ && msg_type != "chat"@ && msg_type != "offer"@ && msg_type
                    != "candidate"@ ==> inbound_of(Ok(Some(members))) == InboundView::Unknown(
                    msg_type,
                )
            },
            _ => inbound_of(Ok(Some(members))) == InboundView::Untyped,
        },
        inbound_of(Ok(None)) == InboundView::Untyped,
        forall|error: Seq<char>|
            #![trigger inbound_of(Err(error))]
            inbound_of(Err(error)) == InboundView::Malformed(error),
{
    lemma_types_differ();
}

/// A candidate is readable where its line is a text and each of the other parts is
/// absent, null or of its kind. What is read of it stands, part by part, under the
/// part's own name.
pub proof fn law_candidate_is_read_by_name(members: Seq<(Seq<char>, JsonView)>)
    requires
        lookup(members, "msg_type"@) == Some(JsonView::Text("candidate"@)),
    ensures
        inbound_of(Ok(Some(members))) == InboundView::Candidate(None) <==> {
            ||| !(lookup(members, "content"@) matches Some(JsonView::Text(_)))
            ||| (lookup(members, "sdp_mid"@) matches Some(value) && !(value is Null)
                && !(value is Text))
            ||| (lookup(members, "username_fragment"@) matches Some(value) && !(value is Null)
                && !(value is Text))
            ||| (lookup(members, "sdp_mline_index"@) matches Some(value) && !(value is Null) && !(
            value matches JsonView::Number(Some(n)) && n <= 0xffff))
        },
        inbound_of(Ok(Some(members))) matches InboundView::Candidate(read) && (read matches Some(
            message,
        ) ==> {
            &&& message.msg_type == "candidate"@
            &&& lookup(members, "content"@) == Some(JsonView::Text(message.content))
            &&& match lookup(members, "sdp_mid"@) {
                Some(JsonView::Text(text)) => message.sdp_mid == Some(text),
                _ => message.sdp_mid is None,
            }
            &&& match lookup(members, "sdp_mline_index"@) {
                Some(JsonView::Number(Some(n))) => message.sdp_mline_index matches Some(index)
                    && index == n,
                _ => message.sdp_mline_index is None,
            }
            &&& match lookup(members, "username_fragment"@) {
                Some(JsonView::Text(text)) => message.username_fragment == Some(text),
                _ => message.username_fragment is None,
            }
        }),
{
    lemma_types_differ();
}

/// The members that stand for a message hold that message: those of a chat message
/// are read as that chat message, those of an offer as that offer.
pub proof fn law_message_is_read_back(message: MessageView)
    ensures
        message_of(message_members(message)) == Some(message),
        message.msg_type == "chat"@ ==> inbound_of(Ok(Some(message_members(message))))
            == InboundView::Chat(Some(message)),
        message.msg_type == "offer"@ ==> inbound_of(Ok(Some(message_members(message))))
            == InboundView::Offer(Some(message)),
{
    lemma_names_differ();
    lemma_types_differ();
    let members = message_members(message);
    assert(distinct_names(members));
    assert(members[0].0 != members[1].0);
    reveal_with_fuel(lookup, 3);
    assert(members.drop_first()[0] == members[1]);
}

/// The members that stand for a candidate are read as that candidate.
pub proof fn law_candidate_is_read_back(message: CandidateMessageView)
    ensures
        candidate_message_of(candidate_message_members(message)) == Some(message),
        message.msg_type == "candidate"@ ==> inbound_of(
            Ok(Some(candidate_message_members(message))),
        ) == InboundView::Candidate(Some(message)),
{
    lemma_names_differ();
    lemma_types_differ();
    let members = candidate_message_members(message);
    assert(distinct_names(members));
    lemma_lookup(members, 0);
    lemma_lookup(members, 1);
    lemma_lookup(members, 2);
    lemma_lookup(members, 3);
    lemma_lookup(members, 4);
}

/// A message goes out as a compact object: its type and its whole text, under their
/// names and in this order.
pub proof fn law_message_text(message: MessageView)
    ensures
        message_text(message) == object_text(
            seq![
                ("msg_type"@, JsonView::Text(message.msg_type)),
                ("content"@, JsonView::Text(message.content)),
            ],
        ),
        message_text(message) == "{\"msg_type\":"@ + json_string(message.msg_type)
            + ",\"content\":"@ + json_string(message.content) + "}"@,
{
    lemma_first_two(message.msg_type, message.content);
    reveal_with_fuel(members_text, 3);
    let members = message_members(message);
    assert(members.drop_last() =~= seq![members[0]]);
    reveal_strlit("}");
    assert(message_text(message) =~= "{\"msg_type\":"@ + json_string(message.msg_type)
        + ",\"content\":"@ + json_string(message.content) + "}"@);
}

/// A candidate goes out as a compact object: its type and its whole line, and then
/// each of the other parts under its own name, `null` where there is none.
pub proof fn law_candidate_message_text(message: CandidateMessageView)
    ensures
        candidate_message_text(message) == object_text(
            seq![
                ("msg_type"@, JsonView::Text(message.msg_type)),
                ("content"@, JsonView::Text(message.content)),
                (
                    "sdp_mid"@,
                    match message.sdp_mid {
                        Some(sdp_mid) => JsonView::Text(sdp_mid),
                        None => JsonView::Null,
                    },
                ),
                (
                    "sdp_mline_index"@,
                    match message.sdp_mline_index {
                        Some(index) => JsonView::Number(Some(index as u64)),
                        None => JsonView::Null,
                    },
                ),
                (
                    "username_fragment"@,
                    match message.username_fragment {
                        Some(fragment) => JsonView::Text(fragment),
                        None => JsonView::Null,
                    },
                ),
            ],
        ),
        candidate_message_text(message) == "{\"msg_type\":"@ + json_string(message.msg_type)
            + ",\"content\":"@ + json_string(message.content) + ",\"sdp_mid\":"@ + (
        match message.sdp_mid {
            Some(sdp_mid) => json_string(sdp_mid),
            None => "null"@,
        }) + ",\"sdp_mline_index\":"@ + (match message.sdp_mline_index {
            Some(index) => decimal(index as nat),
            None => "null"@,
        }) + ",\"username_fragment\":"@ + (match message.username_fragment {
            Some(fragment) => json_string(fragment),
            None => "null"@,
        }) + "}"@,
{
    let members = candidate_message_members(message);
    assert(members =~= seq![
        ("msg_type"@, JsonView::Text(message.msg_type)),
        ("content"@, JsonView::Text(message.content)),
        (
            "sdp_mid"@,
            match message.sdp_mid {
                Some(sdp_mid) => JsonView::Text(sdp_mid),
                None => JsonView::Null,
            },
        ),
        (
            "sdp_mline_index"@,
            match message.sdp_mline_index {
                Some(index) => JsonView::Number(Some(index as u64)),
                None => JsonView::Null,
            },
        ),
        (
            "username_fragment"@,
            match message.username_fragment {
                Some(fragment) => JsonView::Text(fragment),
                None => JsonView::Null,
            },
        ),
    ]);
    lemma_first_two(message.msg_type, message.content);
    lemma_later_names();
    let head = "{"@ + member_text(members[0]) + ","@ + member_text(members[1]);
    let third = head + ",\"sdp_mid\":"@ + value_text(members[2].1);
    let fourth = third + ",\"sdp_mline_index\":"@ + value_text(members[3].1);
    lemma_five_members(members);
    lemma_member_in_place(head, "sdp_mid"@, members[2].1);
    lemma_member_in_place(third, "sdp_mline_index"@, members[3].1);
    lemma_member_in_place(fourth, "username_fragment"@, members[4].1);
}

proof fn lemma_member_in_place(before: Seq<char>, name: Seq<char>, value: JsonView)
    ensures
        before + ","@ + member_text((name, value)) == before + (","@ + json_string(name) + ":"@)
            + value_text(value),
{
    assert(before + ","@ + member_text((name, value)) =~= before + (","@ + json_string(name)
        + ":"@) + value_text(value));
}

proof fn lemma_five_members(members: Seq<(Seq<char>, JsonView)>)
    requires
        members.len() == 5,
    ensures
        object_text(members) == "{"@ + member_text(members[0]) + ","@ + member_text(members[1])
            + ","@ + member_text(members[2]) + ","@ + member_text(members[3]) + ","@ + member_text(
            members[4],
        ) + "}"@,
{
    let four = members.drop_last();
    let three = four.drop_last();
    let two = three.drop_last();
    let one = two.drop_last();
    assert(members_text(one) == member_text(members[0]));
    lemma_one_member_more(two);
    lemma_one_member_more(three);
    lemma_one_member_more(four);
    lemma_one_member_more(members);
}

proof fn lemma_one_member_more(members: Seq<(Seq<char>, JsonView)>)
    requires
        members.len() > 1,
    ensures
        "{"@ + members_text(members) == "{"@ + members_text(members.drop_last()) + ","@
            + member_text(members.last()),
{
    assert("{"@ + members_text(members) =~= "{"@ + members_text(members.drop_last()) + ","@
        + member_text(members.last()));
}

proof fn lemma_first_two(msg_type: Seq<char>, content: Seq<char>)
    ensures
        "{"@ + (json_string("msg_type"@) + ":"@ + json_string(msg_type)) + ","@ + (json_string(
            "content"@,
        ) + ":"@ + json_string(content)) == "{\"msg_type\":"@ + json_string(msg_type)
            + ",\"content\":"@ + json_string(content),
{
    reveal_strlit("{");
    reveal_strlit(":");
    reveal_strlit(",");
    reveal_strlit("msg_type");
    reveal_strlit("content");
    reveal_strlit("{\"msg_type\":");
    reveal_strlit(",\"content\":");
    law_plain_text_is_kept("msg_type"@);
    law_plain_text_is_kept("content"@);
    assert("{"@ + json_string("msg_type"@) + ":"@ =~= "{\"msg_type\":"@);
    assert(","@ + json_string("content"@) + ":"@ =~= ",\"content\":"@);
    assert("{"@ + (json_string("msg_type"@) + ":"@ + json_string(msg_type)) + ","@ + (json_string(
        "content"@,
    ) + ":"@ + json_string(content)) =~= ("{"@ + json_string("msg_type"@) + ":"@) + json_string(
        msg_type,
    ) + (","@ + json_string("content"@) + ":"@) + json_string(content));
}

proof fn lemma_later_names()
    ensures
        ","@ + json_string("sdp_mid"@) + ":"@ == ",\"sdp_mid\":"@,
        ","@ + json_string("sdp_mline_index"@) + ":"@ == ",\"sdp_mline_index\":"@,
        ","@ + json_string("username_fragment"@) + ":"@ == ",\"username_fragment\":"@,
{
    reveal_strlit(":");
    reveal_strlit(",");
    reveal_strlit("sdp_mid");
    reveal_strlit("sdp_mline_index");
    reveal_strlit("username_fragment");
    reveal_strlit(",\"sdp_mid\":");
    reveal_strlit(",\"sdp_mline_index\":");
    reveal_strlit(",\"username_fragment\":");
    law_plain_text_is_kept("sdp_mid"@);
    law_plain_text_is_kept("sdp_mline_index"@);
    law_plain_text_is_kept("username_fragment"@);
    assert(","@ + json_string("sdp_mid"@) + ":"@ =~= ",\"sdp_mid\":"@);
    assert(","@ + json_string("sdp_mline_index"@) + ":"@ =~= ",\"sdp_mline_index\":"@);
    assert(","@ + json_string("username_fragment"@) + ":"@ =~= ",\"username_fragment\":"@);
}

/// The text of an answer is the compact object of the type `answer` and the whole
/// session description, whatever its length.
pub proof fn law_answer_text(sdp: Seq<char>)
    ensures
        answer_with(sdp).msg_type == "answer"@,
        answer_with(sdp).content == sdp,
        message_text(answer_with(sdp)) == object_text(
            seq![("msg_type"@, JsonView::Text("answer"@)), ("content"@, JsonView::Text(sdp))],
        ),
        message_text(answer_with(sdp)) == "{\"msg_type\":\"answer\",\"content\":"@ + json_string(
            sdp,
        ) + "}"@,
{
    law_message_text(answer_with(sdp));
    reveal_strlit("answer");
    reveal_strlit("{\"msg_type\":");
    reveal_strlit(",\"content\":");
    reveal_strlit("{\"msg_type\":\"answer\",\"content\":");
    law_plain_text_is_kept("answer"@);
    assert("{\"msg_type\":"@ + json_string("answer"@) + ",\"content\":"@
        =~= "{\"msg_type\":\"answer\",\"content\":"@);
}

/// A candidate and the message that carries it hold the same, part by part.
pub proof fn law_candidate_parts_are_kept(message: CandidateMessageView, init: CandidateInitView)
    ensures
        init_of(message).candidate == message.content,
        init_of(message).sdp_mid == message.sdp_mid,
        init_of(message).sdp_mline_index == message.sdp_mline_index,
        init_of(message).username_fragment == message.username_fragment,
        message_with(init).msg_type == "candidate"@,
        message_with(init).content == init.candidate,
        message_with(init).sdp_mid == init.sdp_mid,
        message_with(init).sdp_mline_index == init.sdp_mline_index,
        message_with(init).username_fragment == init.username_fragment,
{
}

/// A candidate comes out of a message as it went in.
pub proof fn law_candidate_survives_message(init: CandidateInitView)
    ensures
        init_of(message_with(init)) == init,
{
}

/// Where no name occurs twice, each member is found under its name.
proof fn lemma_lookup(members: Seq<(Seq<char>, JsonView)>, i: int)
    requires
        distinct_names(members),
        0 <= i < members.len(),
    ensures
        lookup(members, members[i].0) == Some(members[i].1),
    decreases i,
{
    if i > 0 {
        let rest = members.drop_first();
        assert(members[0].0 != members[i].0);
        assert(rest[i - 1] == members[i]);
        assert forall|a: int, b: int| 0 <= a < b < rest.len() implies (#[trigger] rest[a]).0 != (
        #[trigger] rest[b]).0 by {
            assert(rest[a] == members[a + 1] && rest[b] == members[b + 1]);
        }
        lemma_lookup(rest, i - 1);
    }
}

proof fn lemma_types_differ()
    ensures
        "ping"@ != "chat"@,
        "ping"@ != "offer"@,
        "chat"@ != "offer"@,
        "candidate"@ != "ping"@,
        "candidate"@ != "chat"@,
        "candidate"@ != "offer"@,
{
    reveal_strlit("ping");
    reveal_strlit("chat");
    reveal_strlit("offer");
    reveal_strlit("candidate");
    assert("ping"@[0] == 'p' && "chat"@[0] == 'c');
    assert("ping"@.len() == 4 && "chat"@.len() == 4);
    assert("offer"@.len() == 5 && "candidate"@.len() == 9);
}

fn optional_text_json(text: &Option<String>) -> (value: Json)
    ensures
        value@ == optional_text_value(optional_view(*text)),
{
    match text {
        Some(text) => Json::Text(text.clone()),
        None => Json::Null,
    }
}

/// Writes a message of a type and a text.
fn write_message(msg_type: &String, content: &String) -> (text: String)
    ensures
        text@ == message_text(MessageView { msg_type: msg_type@, content: content@ }),
{
    let mut members: Members = Vec::new();
    members.push(("msg_type".to_string(), Json::Text(msg_type.clone())));
    members.push(("content".to_string(), Json::Text(content.clone())));
    proof {
        lemma_names_differ();
        assert(members_view(members@) =~= message_members(
            MessageView { msg_type: msg_type@, content: content@ },
        ));
    }
    write_object(&members)
}

impl ChatMessage {
    /// The text in which the message is relayed.
    pub fn to_json(&self) -> (text: String)
        ensures
            text@ == message_text(self@),
            text@ == "{\"msg_type\":"@ + json_string(self.msg_type@) + ",\"content\":"@
                + json_string(self.content@) + "}"@,
    {
        proof {
            law_message_text(self@);
        }
        write_message(&self.msg_type, &self.content)
    }
}

impl AnswerSignalMessage {
    /// The answer with the given session description.
    pub fn new(sdp: String) -> (message: AnswerSignalMessage)
        ensures
            message@ == answer_with(sdp@),
            message.msg_type@ == "answer"@,
            message.content == sdp,
    {
        AnswerSignalMessage { msg_type: "answer".to_string(), content: sdp }
    }

    /// The text in which the answer is sent.
    pub fn to_json(&self) -> (text: String)
        ensures
            text@ == message_text(self@),
            text@ == "{\"msg_type\":"@ + json_string(self.msg_type@) + ",\"content\":"@
                + json_string(self.content@) + "}"@,
    {
        proof {
            law_message_text(self@);
        }
        write_message(&self.msg_type, &self.content)
    }
}

impl IceCandidateSignalMessage {
    /// The message that tells a client of a candidate.
    pub fn new(init: CandidateInit) -> (message: IceCandidateSignalMessage)
        ensures
            message@ == message_with(init@),
            message.msg_type@ == "candidate"@,
            message.content == init.candidate,
            message.sdp_mid == init.sdp_mid,
            message.sdp_mline_index == init.sdp_mline_index,
            message.username_fragment == init.username_fragment,
    {
        IceCandidateSignalMessage {
            msg_type: "candidate".to_string(),
            content: init.candidate,
            sdp_mid: init.sdp_mid,
            sdp_mline_index: init.sdp_mline_index,
            username_fragment: init.username_fragment,
        }
    }

    /// The text in which the candidate is sent.
    pub fn to_json(&self) -> (text: String)
        ensures
            text@ == candidate_message_text(self@),
            text@ == "{\"msg_type\":"@ + json_string(self.msg_type@) + ",\"content\":"@
                + json_string(self.content@) + ",\"sdp_mid\":"@ + (match self.sdp_mid {
                Some(sdp_mid) => json_string(sdp_mid@),
                None => "null"@,
            }) + ",\"sdp_mline_index\":"@ + (match self.sdp_mline_index {
                Some(index) => decimal(index as nat),
                None => "null"@,
            }) + ",\"username_fragment\":"@ + (match self.username_fragment {
                Some(fragment) => json_string(fragment@),
                None => "null"@,
            }) + "}"@,
    {
        proof {
            law_candidate_message_text(self@);
        }
        let mut members: Members = Vec::new();
        members.push(("msg_type".to_string(), Json::Text(self.msg_type.clone())));
        members.push(("content".to_string(), Json::Text(self.content.clone())));
        members.push(("sdp_mid".to_string(), optional_text_json(&self.sdp_mid)));
        members.push(
            (
                "sdp_mline_index".to_string(),
                match self.sdp_mline_index {
                    Some(index) => Json::Number(Some(index as u64)),
                    None => Json::Null,
                },
            ),
        );
        members.push(
            ("username_fragment".to_string(), optional_text_json(&self.username_fragment)),
        );
        proof {
            lemma_names_differ();
            assert(members_view(members@) =~= candidate_message_members(self@));
        }
        write_object(&members)
    }
}

} // verus!
