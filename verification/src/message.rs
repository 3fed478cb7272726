//! What travels in the mesh: agents as they are told about, messages, announcements, and
//! the requests of local agents.

use crate::json;
use crate::json::{copy_opt, json_field, Json, JsonView};
use crate::text;
use crate::text::str_eq;
use vstd::prelude::*;

verus! {

/// The version of the protocol that peers must share.
pub const PROTOCOL_VERSION: u32 = 3;

/// An agent of this machine, with the time at which it last registered, in nanoseconds.
#[derive(Debug, PartialEq)]
pub struct LocalAgent {
    pub alias: String,
    pub title: Option<String>,
    pub cwd: String,
    pub runtime: Option<Json>,
    pub last_seen: u64,
}

/// An agent of another machine, with the address of the peer that reaches it.
#[derive(Debug, PartialEq)]
pub struct RemoteAgent {
    pub alias: String,
    pub title: Option<String>,
    pub cwd: String,
    pub runtime: Option<Json>,
    pub addr: String,
}

/// An agent as it is told about.
#[derive(Debug, PartialEq)]
pub struct AgentInfo {
    pub id: String,
    pub alias: String,
    pub title: Option<String>,
    pub cwd: String,
    pub runtime: Option<Json>,
    pub addr: String,
}

/// A message between agents.
#[derive(Debug, PartialEq)]
pub struct MeshMessage {
    pub from: String,
    pub to: String,
    pub id: String,
    pub kind: String,
    pub body: Json,
    pub from_agent: AgentInfo,
}

/// A local agent registers.
#[derive(Debug, PartialEq)]
pub struct RegisterReq {
    pub id: String,
    pub alias: String,
    pub title: Option<String>,
    pub cwd: String,
    pub runtime: Option<Json>,
}

/// A local agent sends a message.
#[derive(Debug, PartialEq)]
pub struct LocalSendReq {
    pub from: String,
    pub to: String,
    pub body: Json,
}

/// A local agent sends a message and waits for the answer.
#[derive(Debug, PartialEq)]
pub struct LocalRequestReq {
    pub from: String,
    pub to: String,
    pub body: Json,
    pub timeout_ms: u64,
}

/// A peer announces itself and its own agents.
#[derive(Debug, PartialEq)]
pub struct AnnounceReq {
    pub protocol: u32,
    pub addr: String,
    pub agents: Vec<AgentInfo>,
}

/// The answer to an announcement.
#[derive(Debug, PartialEq)]
pub struct AnnounceResp {
    pub protocol: u32,
    pub addr: String,
    pub peers: Vec<String>,
    pub agents: Vec<AgentInfo>,
}

/// How long a request waits for its answer unless it says so itself, in milliseconds.
pub fn default_timeout_ms() -> (ms: u64)
    ensures
        ms == 30_000,
{
    30_000
}

pub struct LocalAgentView {
    pub alias: Seq<char>,
    pub title: Option<Seq<char>>,
    pub cwd: Seq<char>,
    pub runtime: Option<JsonView>,
    pub last_seen: u64,
}

pub struct RemoteAgentView {
    pub alias: Seq<char>,
    pub title: Option<Seq<char>>,
    pub cwd: Seq<char>,
    pub runtime: Option<JsonView>,
    pub addr: Seq<char>,
}

pub struct AgentInfoView {
    pub id: Seq<char>,
    pub alias: Seq<char>,
    pub title: Option<Seq<char>>,
    pub cwd: Seq<char>,
    pub runtime: Option<JsonView>,
    pub addr: Seq<char>,
}

pub struct MessageView {
    pub from: Seq<char>,
    pub to: Seq<char>,
    pub id: Seq<char>,
    pub kind: Seq<char>,
    pub body: JsonView,
    pub from_agent: AgentInfoView,
}

pub struct RegisterView {
    pub id: Seq<char>,
    pub alias: Seq<char>,
    pub title: Option<Seq<char>>,
    pub cwd: Seq<char>,
    pub runtime: Option<JsonView>,
}

pub struct AnnounceReqView {
    pub protocol: u32,
    pub addr: Seq<char>,
    pub agents: Seq<AgentInfoView>,
}

pub struct AnnounceRespView {
    pub protocol: u32,
    pub addr: Seq<char>,
    pub peers: Seq<Seq<char>>,
    pub agents: Seq<AgentInfoView>,
}

impl View for LocalAgent {
    type V = LocalAgentView;

    open spec fn view(&self) -> LocalAgentView {
        LocalAgentView {
            alias: self.alias@,
            title: text::opt_text(self.title),
            cwd: self.cwd@,
            runtime: json::opt_json(self.runtime),
            last_seen: self.last_seen,
        }
    }
}

impl View for RemoteAgent {
    type V = RemoteAgentView;

    open spec fn view(&self) -> RemoteAgentView {
        RemoteAgentView {
            alias: self.alias@,
            title: text::opt_text(self.title),
            cwd: self.cwd@,
            runtime: json::opt_json(self.runtime),
            addr: self.addr@,
        }
    }
}

impl View for AgentInfo {
    type V = AgentInfoView;

    open spec fn view(&self) -> AgentInfoView {
        AgentInfoView {
            id: self.id@,
            alias: self.alias@,
            title: text::opt_text(self.title),
            cwd: self.cwd@,
            runtime: json::opt_json(self.runtime),
            addr: self.addr@,
        }
    }
}

impl View for MeshMessage {
    type V = MessageView;

    open spec fn view(&self) -> MessageView {
        MessageView {
            from: self.from@,
            to: self.to@,
            id: self.id@,
            kind: self.kind@,
            body: self.body@,
            from_agent: self.from_agent@,
        }
    }
}

impl View for RegisterReq {
    type V = RegisterView;

    open spec fn view(&self) -> RegisterView {
        RegisterView {
            id: self.id@,
            alias: self.alias@,
            title: text::opt_text(self.title),
            cwd: self.cwd@,
            runtime: json::opt_json(self.runtime),
        }
    }
}

/// The views of a sequence of agents.
pub open spec fn infos_view(agents: Seq<AgentInfo>) -> Seq<AgentInfoView> {
    agents.map_values(|a: AgentInfo| a@)
}

impl View for AnnounceReq {
    type V = AnnounceReqView;

    open spec fn view(&self) -> AnnounceReqView {
        AnnounceReqView {
            protocol: self.protocol,
            addr: self.addr@,
            agents: infos_view(self.agents@),
        }
    }
}

impl View for AnnounceResp {
    type V = AnnounceRespView;

    open spec fn view(&self) -> AnnounceRespView {
        AnnounceRespView {
            protocol: self.protocol,
            addr: self.addr@,
            peers: text::texts(self.peers@),
            agents: infos_view(self.agents@),
        }
    }
}

impl RemoteAgent {
    /// An agent with the same content.
    pub fn copy(&self) -> (r: RemoteAgent)
        ensures
            r@ == self@,
    {
        RemoteAgent {
            alias: self.alias.clone(),
            title: self.title.clone(),
            cwd: self.cwd.clone(),
            runtime: copy_opt(&self.runtime),
            addr: self.addr.clone(),
        }
    }
}

/// An agent as it is told about, from its parts.
pub fn agent_info(
    id: &str,
    alias: &str,
    title: Option<String>,
    cwd: String,
    runtime: Option<Json>,
    addr: &str,
) -> (r: AgentInfo)
    ensures
        r@ == (AgentInfoView {
            id: id@,
            alias: alias@,
            title: text::opt_text(title),
            cwd: cwd@,
            runtime: json::opt_json(runtime),
            addr: addr@,
        }),
{
    AgentInfo { id: id.to_owned(), alias: alias.to_owned(), title, cwd, runtime, addr: addr.to_owned() }
}

/// What is told of a sender that nobody knows.
pub open spec fn placeholder(id: Seq<char>, cwd: Seq<char>) -> AgentInfoView {
    AgentInfoView { id, alias: id, title: None, cwd, runtime: None, addr: Seq::empty() }
}

/// What is told of a sender that nobody knows: its name, and the directory of this process.
pub fn placeholder_agent_info(id: &str, cwd: String) -> (r: AgentInfo)
    ensures
        r@ == placeholder(id@, cwd@),
{
    proof {
        reveal_strlit("");
        assert(""@ =~= Seq::<char>::empty());
    }
    agent_info(id, id, None, cwd, None, "")
}

/// An optional agent of a peer by its view.
pub open spec fn opt_remote(agent: Option<RemoteAgent>) -> Option<RemoteAgentView> {
    match agent {
        Some(a) => Some(a@),
        None => None,
    }
}

/// An optional message by its view.
pub open spec fn opt_message(msg: Option<MeshMessage>) -> Option<MessageView> {
    match msg {
        Some(m) => Some(m@),
        None => None,
    }
}

/// A message from its parts.
pub fn compose(
    from: String,
    to: String,
    kind: &str,
    body: Json,
    from_agent: AgentInfo,
    id: String,
) -> (m: MeshMessage)
    ensures
        m@ == (MessageView {
            from: from@,
            to: to@,
            id: id@,
            kind: kind@,
            body: body@,
            from_agent: from_agent@,
        }),
{
    MeshMessage { from, to, id, kind: kind.to_owned(), body, from_agent }
}

/// A JSON value, or null where there is none.
pub open spec fn opt_value_json(v: Option<JsonView>) -> JsonView {
    match v {
        Some(j) => j,
        None => JsonView::Null,
    }
}

/// An agent in JSON.
pub open spec fn info_json(a: AgentInfoView) -> JsonView {
    JsonView::Object(
        seq![
            ("id"@, JsonView::Text(a.id)),
            ("alias"@, JsonView::Text(a.alias)),
            ("title"@, json::opt_text_json(a.title)),
            ("cwd"@, JsonView::Text(a.cwd)),
            ("runtime"@, opt_value_json(a.runtime)),
            ("addr"@, JsonView::Text(a.addr)),
        ],
    )
}

impl AgentInfo {
    /// This agent in JSON.
    pub fn to_json(&self) -> (j: Json)
        ensures
            j@ == info_json(self@),
    {
        broadcast use json::lemma_json_view;
        let runtime = match &self.runtime {
            Some(v) => v.copy(),
            None => Json::Null,
        };
        let mut fields: Vec<(String, Json)> = Vec::new();
        fields.push(json_field("id", Json::Text(self.id.clone())));
        fields.push(json_field("alias", Json::Text(self.alias.clone())));
        fields.push(json_field("title", Json::optional_text(&self.title)));
        fields.push(json_field("cwd", Json::Text(self.cwd.clone())));
        fields.push(json_field("runtime", runtime));
        fields.push(json_field("addr", Json::Text(self.addr.clone())));
        let j = Json::Object(fields);
        proof {
            assert(j@->Object_0 =~= info_json(self@)->Object_0);
        }
        j
    }
}

/// A message in JSON.
pub open spec fn message_json(m: MessageView) -> JsonView {
    JsonView::Object(
        seq![
            ("from"@, JsonView::Text(m.from)),
            ("to"@, JsonView::Text(m.to)),
            ("id"@, JsonView::Text(m.id)),
            ("kind"@, JsonView::Text(m.kind)),
            ("body"@, m.body),
            ("from_agent"@, info_json(m.from_agent)),
        ],
    )
}

/// Whether a message waits for an answer.
pub open spec fn asks(kind: Seq<char>) -> bool {
    kind == "request"@
}

impl MeshMessage {
    /// This message in JSON.
    pub fn to_json(&self) -> (j: Json)
        ensures
            j@ == message_json(self@),
    {
        broadcast use json::lemma_json_view;
        let mut fields: Vec<(String, Json)> = Vec::new();
        fields.push(json_field("from", Json::Text(self.from.clone())));
        fields.push(json_field("to", Json::Text(self.to.clone())));
        fields.push(json_field("id", Json::Text(self.id.clone())));
        fields.push(json_field("kind", Json::Text(self.kind.clone())));
        fields.push(json_field("body", self.body.copy()));
        fields.push(json_field("from_agent", self.from_agent.to_json()));
        let j = Json::Object(fields);
        proof {
            assert(j@->Object_0 =~= message_json(self@)->Object_0);
        }
        j
    }

    /// Whether this message waits for an answer.
    pub fn is_request(&self) -> (r: bool)
        ensures
            r == asks(self@.kind),
    {
        str_eq(self.kind.as_str(), "request")
    }
}

/// How long a message that came from a peer is given, in seconds.
pub fn network_timeout_secs(msg: &MeshMessage) -> (secs: u64)
    ensures
        secs == (if asks(msg@.kind) {
            30u64
        } else {
            1u64
        }),
{
    if msg.is_request() {
        30
    } else {
        1
    }
}

/// A lower-case hexadecimal digit.
pub open spec fn hex_digit(c: char) -> bool {
    '0' <= c <= '9' || 'a' <= c <= 'f'
}

/// The hyphenated form of a random UUID: 36 characters, hyphens after 8, 12, 16 and 20
/// digits, and the marks of version and variant.
pub open spec fn random_uuid(id: Seq<char>) -> bool {
    &&& id.len() == 36
    &&& forall|i: int|
        0 <= i < 36 ==> if i == 8 || i == 13 || i == 18 || i == 23 {
            #[trigger] id[i] == '-'
        } else {
            hex_digit(id[i])
        }
    &&& id[14] == '4'
    &&& id[19] == '8' || id[19] == '9' || id[19] == 'a' || id[19] == 'b'
}

/// `uuid::Uuid::new_v4` in its hyphenated text form. The digits are drawn at random: that
/// two calls give different texts is likely and not stated. On a machine without a source of
/// randomness the call panics.
#[verifier::external_body]
pub(crate) fn new_message_id() -> (id: String)
    ensures
        random_uuid(id@),
{
    uuid::Uuid::new_v4().to_string()
}

} // verus!
