//! What the server takes from and gives to its peer connections as plain values.

use crate::clients::{ClientAddr, Clients};
use crate::json::{decimal, json_string, law_plain_text_is_kept, lookup, object_text, JsonView};
use crate::message::{
    candidate_message_members, candidate_message_text, inbound_of, law_candidate_is_read_back,
    law_candidate_message_text, lemma_same_lookups, message_with, CandidateInit, CandidateInitView,
    IceCandidateSignalMessage, InboundView,
};
use vstd::prelude::*;
use webrtc::error::Error;
use webrtc::ice_transport::ice_candidate::RTCIceCandidate;
use webrtc::peer_connection::sdp::session_description::RTCSessionDescription;

verus! {

/// The STUN server that peer connections ask for their public address.
pub const STUN_SERVER: &'static str = "stun:stun.l.google.com:19302";

/// The URLs of ICE servers, server by server.
pub open spec fn servers_view(servers: Seq<Vec<String>>) -> Seq<Seq<Seq<char>>> {
    servers.map_values(|urls: Vec<String>| urls@.map_values(|url: String| url@))
}

/// The ICE servers that a peer connection is configured with: one server, with
/// one URL.
pub open spec fn ice_servers() -> Seq<Seq<Seq<char>>> {
    seq![seq![STUN_SERVER@]]
}

/// The URLs of the ICE servers that a peer connection is configured with.
pub fn ice_server_urls() -> (servers: Vec<Vec<String>>)
    ensures
        servers_view(servers@) == ice_servers(),
        servers@.len() == 1,
        servers@[0]@.len() == 1,
        servers@[0]@[0]@ == "stun:stun.l.google.com:19302"@,
{
    let servers = vec![vec![STUN_SERVER.to_string()]];
    assert(servers_view(servers@)[0] =~= seq![STUN_SERVER@]);
    assert(servers_view(servers@) =~= ice_servers());
    servers
}

/// `webrtc::error::Error`.
#[verifier::external_type_specification]
#[verifier::external_body]
pub struct ExError(webrtc::error::Error);

/// `RTCSessionDescription`, a session description with its type.
#[verifier::external_type_specification]
#[verifier::external_body]
pub struct ExRTCSessionDescription(
    webrtc::peer_connection::sdp::session_description::RTCSessionDescription,
);

/// What `RTCSessionDescription::offer` makes of the text of a session description.
pub uninterp spec fn offer_description(sdp: Seq<char>) -> Result<RTCSessionDescription, Error>;

/// `RTCSessionDescription::offer`: the offer with the given text, or the error of
/// its parser. The outcome is a function of the text alone. Which texts the
/// parser takes is left unsaid.
#[verifier::external_body]
pub(crate) fn parse_offer(sdp: String) -> (description: Result<RTCSessionDescription, Error>)
    ensures
        description == offer_description(sdp@),
{
    RTCSessionDescription::offer(sdp)
}

/// A local ICE candidate. Protocol and type are written as the peer connection
/// prints them (`udp`, `host`).
#[derive(Debug)]
pub struct Candidate {
    pub stats_id: String,
    pub foundation: String,
    pub priority: u32,
    pub address: String,
    pub protocol: String,
    pub port: u16,
    pub typ: String,
    pub component: u16,
    pub related_address: String,
    pub related_port: u16,
    pub tcp_type: String,
}

pub struct CandidateView {
    pub stats_id: Seq<char>,
    pub foundation: Seq<char>,
    pub priority: u32,
    pub address: Seq<char>,
    pub protocol: Seq<char>,
    pub port: u16,
    pub typ: Seq<char>,
    pub component: u16,
    pub related_address: Seq<char>,
    pub related_port: u16,
    pub tcp_type: Seq<char>,
}

impl View for Candidate {
    type V = CandidateView;

    open spec fn view(&self) -> CandidateView {
        CandidateView {
            stats_id: self.stats_id@,
            foundation: self.foundation@,
            priority: self.priority,
            address: self.address@,
            protocol: self.protocol@,
            port: self.port,
            typ: self.typ@,
            component: self.component,
            related_address: self.related_address@,
            related_port: self.related_port,
            tcp_type: self.tcp_type@,
        }
    }
}

/// The candidate line that `RTCIceCandidate::to_json` writes, or its error.
pub uninterp spec fn candidate_line(candidate: CandidateView) -> Result<Seq<char>, Error>;

/// What is told of a local candidate whose line is `line`: the first media
/// section, under an empty name, and no user name fragment.
pub open spec fn local_init(line: Seq<char>) -> CandidateInitView {
    CandidateInitView {
        candidate: line,
        sdp_mid: Some(Seq::empty()),
        sdp_mline_index: Some(0u16),
        username_fragment: None,
    }
}

pub open spec fn local_init_of(line: Result<Seq<char>, Error>) -> Result<
    CandidateInitView,
    Error,
> {
    match line {
        Ok(line) => Ok(local_init(line)),
        Err(error) => Err(error),
    }
}

pub open spec fn init_result_view(init: Result<CandidateInit, Error>) -> Result<
    CandidateInitView,
    Error,
> {
    match init {
        Ok(init) => Ok(init@),
        Err(error) => Err(error),
    }
}

/// `RTCIceCandidate::to_json`: the candidate line is a function of the candidate,
/// and the rest is the same for every candidate. A candidate without a priority
/// of its own gets one computed, which takes a component of at most 256.
#[verifier::external_body]
fn encode_candidate(candidate: Candidate) -> (init: Result<CandidateInit, Error>)
    requires
        candidate.priority != 0 || candidate.component <= 256,
    ensures
        init_result_view(init) == local_init_of(candidate_line(candidate@)),
{
    let rtc = RTCIceCandidate {
        stats_id: candidate.stats_id, foundation: candidate.foundation,
        priority: candidate.priority, address: candidate.address,
        protocol: candidate.protocol.as_str().into(), port: candidate.port,
        typ: candidate.typ.as_str().into(), component: candidate.component,
        related_address: candidate.related_address, related_port: candidate.related_port,
        tcp_type: candidate.tcp_type,
    };
    rtc.to_json().map(|init| CandidateInit {
        candidate: init.candidate, sdp_mid: init.sdp_mid,
        sdp_mline_index: init.sdp_mline_index, username_fragment: init.username_fragment,
    })
}

/// What comes of a local candidate.
#[derive(Debug)]
pub enum Announcement {
    /// The gathering is over: nothing is sent.
    Nothing,
    /// The text that goes to the client.
    Send(String),
    /// The candidate cannot be written down. The task that announces it dies.
    Unencodable(Error),
    /// The client is not registered. The task that announces it dies.
    Unregistered,
}

pub enum AnnouncementView {
    Nothing,
    Send(Seq<char>),
    Unencodable(Error),
    Unregistered,
}

impl View for Announcement {
    type V = AnnouncementView;

    open spec fn view(&self) -> AnnouncementView {
        match self {
            Announcement::Nothing => AnnouncementView::Nothing,
            Announcement::Send(text) => AnnouncementView::Send(text@),
            Announcement::Unencodable(error) => AnnouncementView::Unencodable(*error),
            Announcement::Unregistered => AnnouncementView::Unregistered,
        }
    }
}

/// What comes of a candidate that is told as `init`.
pub open spec fn announcement_of(
    init: Result<CandidateInitView, Error>,
    registered: bool,
) -> AnnouncementView {
    match init {
        Err(error) => AnnouncementView::Unencodable(error),
        Ok(init) => if registered {
            AnnouncementView::Send(candidate_message_text(message_with(init)))
        } else {
            AnnouncementView::Unregistered
        },
    }
}

/// Announces a candidate that has been written down.
pub fn announce_encoded<T>(
    addr: ClientAddr,
    init: Result<CandidateInit, Error>,
    clients: &Clients<T>,
) -> (announcement: Announcement)
    ensures
        announcement@ == announcement_of(init_result_view(init), clients@.contains_key(addr)),
        match init {
            Err(error) => announcement == Announcement::Unencodable(error),
            Ok(init) => if clients@.contains_key(addr) {
                announcement matches Announcement::Send(text) && text@
                    == "{\"msg_type\":\"candidate\",\"content\":"@ + json_string(init.candidate@)
                    + ",\"sdp_mid\":"@ + (match init.sdp_mid {
                    Some(sdp_mid) => json_string(sdp_mid@),
                    None => "null"@,
                }) + ",\"sdp_mline_index\":"@ + (match init.sdp_mline_index {
                    Some(index) => decimal(index as nat),
                    None => "null"@,
                }) + ",\"username_fragment\":"@ + (match init.username_fragment {
                    Some(fragment) => json_string(fragment@),
                    None => "null"@,
                }) + "}"@
            } else {
                announcement is Unregistered
            },
        },
{
    proof {
        lemma_candidate_type();
    }
    match init {
        Err(error) => Announcement::Unencodable(error),
        Ok(init) => {
            let message = IceCandidateSignalMessage::new(init);
            if clients.contains(addr) {
                Announcement::Send(message.to_json())
            } else {
                Announcement::Unregistered
            }
        },
    }
}

/// Announces what the peer connection of `addr` has gathered: a candidate, or
/// that there are no more.
pub fn announce<T>(
    addr: ClientAddr,
    candidate: Option<Candidate>,
    clients: &Clients<T>,
) -> (announcement: Announcement)
    requires
        match candidate {
            Some(candidate) => candidate.priority != 0 || candidate.component <= 256,
            None => true,
        },
    ensures
        announcement@ == match candidate {
            Some(candidate) => announcement_of(
                local_init_of(candidate_line(candidate@)),
                clients@.contains_key(addr),
            ),
            None => AnnouncementView::Nothing,
        },
        match candidate {
            None => announcement is Nothing,
            Some(candidate) => match candidate_line(candidate@) {
                Err(error) => announcement == Announcement::Unencodable(error),
                Ok(line) => if clients@.contains_key(addr) {
                    announcement matches Announcement::Send(text) && text@
                        == "{\"msg_type\":\"candidate\",\"content\":"@ + json_string(line)
                        + ",\"sdp_mid\":\"\",\"sdp_mline_index\":0,\"username_fragment\":null}"@
                } else {
                    announcement is Unregistered
                },
            },
        },
{
    match candidate {
        Some(candidate) => {
            proof {
                if candidate_line(candidate@) is Ok {
                    law_local_candidate_is_announced(candidate_line(candidate@)->Ok_0);
                }
            }
            announce_encoded(addr, encode_candidate(candidate), clients)
        },
        None => Announcement::Nothing,
    }
}

proof fn lemma_candidate_type()
    ensures
        "{\"msg_type\":"@ + json_string("candidate"@) + ",\"content\":"@
            == "{\"msg_type\":\"candidate\",\"content\":"@,
{
    reveal_strlit("candidate");
    reveal_strlit("{\"msg_type\":");
    reveal_strlit(",\"content\":");
    reveal_strlit("{\"msg_type\":\"candidate\",\"content\":");
    law_plain_text_is_kept("candidate"@);
    assert("{\"msg_type\":"@ + json_string("candidate"@) + ",\"content\":"@
        =~= "{\"msg_type\":\"candidate\",\"content\":"@);
}

/// A candidate that can be written down is announced to a registered client, always
/// and whole: the text that is sent holds each part of the candidate under its name,
/// and whoever reads these members finds that very candidate.
pub proof fn law_candidate_is_announced(
    init: CandidateInitView,
    found: Seq<(Seq<char>, JsonView)>,
)
    ensures
        ({
            let members = seq![
                ("msg_type"@, JsonView::Text("candidate"@)),
                ("content"@, JsonView::Text(init.candidate)),
                (
                    "sdp_mid"@,
                    match init.sdp_mid {
                        Some(sdp_mid) => JsonView::Text(sdp_mid),
                        None => JsonView::Null,
                    },
                ),
                (
                    "sdp_mline_index"@,
                    match init.sdp_mline_index {
                        Some(index) => JsonView::Number(Some(index as u64)),
                        None => JsonView::Null,
                    },
                ),
                (
                    "username_fragment"@,
                    match init.username_fragment {
                        Some(fragment) => JsonView::Text(fragment),
                        None => JsonView::Null,
                    },
                ),
            ];
            &&& announcement_of(Ok(init), true) == AnnouncementView::Send(object_text(members))
            &&& (forall|name: Seq<char>| #[trigger]
                lookup(found, name) == lookup(members, name)) ==> (inbound_of(
                Ok(Some(found)),
            ) matches InboundView::Candidate(Some(message)) && {
                &&& message.msg_type == "candidate"@
                &&& message.content == init.candidate
                &&& message.sdp_mid == init.sdp_mid
                &&& message.sdp_mline_index == init.sdp_mline_index
                &&& message.username_fragment == init.username_fragment
            })
        }),
{
    let message = message_with(init);
    law_candidate_message_text(message);
    law_candidate_is_read_back(message);
    let members = candidate_message_members(message);
    assert(members =~= seq![
        ("msg_type"@, JsonView::Text("candidate"@)),
        ("content"@, JsonView::Text(init.candidate)),
        (
            "sdp_mid"@,
            match init.sdp_mid {
                Some(sdp_mid) => JsonView::Text(sdp_mid),
                None => JsonView::Null,
            },
        ),
        (
            "sdp_mline_index"@,
            match init.sdp_mline_index {
                Some(index) => JsonView::Number(Some(index as u64)),
                None => JsonView::Null,
            },
        ),
        (
            "username_fragment"@,
            match init.username_fragment {
                Some(fragment) => JsonView::Text(fragment),
                None => JsonView::Null,
            },
        ),
    ]);
    if forall|name: Seq<char>| #[trigger] lookup(found, name) == lookup(members, name) {
        lemma_same_lookups(Ok(Some(found)), members);
    }
}

/// A local candidate is announced with its whole line, for the first media section,
/// under an empty name and without a user name fragment.
pub proof fn law_local_candidate_is_announced(line: Seq<char>)
    ensures
        announcement_of(local_init_of(Ok(line)), true) == AnnouncementView::Send(
            "{\"msg_type\":\"candidate\",\"content\":"@ + json_string(line)
                + ",\"sdp_mid\":\"\",\"sdp_mline_index\":0,\"username_fragment\":null}"@,
        ),
{
    law_candidate_message_text(message_with(local_init(line)));
    lemma_candidate_type();
    law_plain_text_is_kept(Seq::empty());
    reveal_strlit(",\"sdp_mid\":");
    reveal_strlit(",\"sdp_mline_index\":");
    reveal_strlit(",\"username_fragment\":");
    reveal_strlit("null");
    reveal_strlit("}");
    reveal_strlit("0123456789");
    reveal_strlit(",\"sdp_mid\":\"\",\"sdp_mline_index\":0,\"username_fragment\":null}");
    assert(decimal(0) =~= seq!['0']);
    assert(json_string(Seq::empty()) =~= seq!['"', '"']);
    let head = "{\"msg_type\":\"candidate\",\"content\":"@ + json_string(line);
    let tail = ",\"sdp_mid\":"@ + seq!['"', '"'] + ",\"sdp_mline_index\":"@ + seq!['0']
        + ",\"username_fragment\":"@ + "null"@ + "}"@;
    assert(tail =~= ",\"sdp_mid\":\"\",\"sdp_mline_index\":0,\"username_fragment\":null}"@);
    assert(head + ",\"sdp_mid\":"@ + seq!['"', '"'] + ",\"sdp_mline_index\":"@ + seq!['0']
        + ",\"username_fragment\":"@ + "null"@ + "}"@ =~= head + tail);
}

/// What is announced to nobody: a candidate that cannot be written down, which is
/// reported with its error whoever is registered, and any other candidate of a client
/// that is not registered.
pub proof fn law_unannounced_candidates(
    error: Error,
    init: CandidateInitView,
    line: Seq<char>,
    registered: bool,
)
    ensures
        announcement_of(Err(error), registered) == AnnouncementView::Unencodable(error),
        announcement_of(Ok(init), false) == AnnouncementView::Unregistered,
        local_init_of(Err(error)) == Err::<CandidateInitView, Error>(error),
        local_init_of(Ok(line)) is Ok,
{
}

} // verus!
