//! What the calls of a service give: of each call, for every result that it can have, what its
//! caller sees.

use crate::address;
use crate::address::Ip;
use crate::json;
use crate::json::{Json, JsonView};
use crate::laws_mesh;
use crate::laws_pages;
use crate::message;
use crate::message::{
    agent_info, compose, default_timeout_ms, network_timeout_secs, placeholder_agent_info,
    AgentInfo, AnnounceReq, AnnounceResp, LocalRequestReq, LocalSendReq,
    MeshMessage, RegisterReq, RemoteAgent, RemoteAgentView,
};
use crate::reply;
use crate::reply::{
    forbidden_reply, json_reply, network_reply, ok_reply, request_reply, send_reply, text_reply,
    Reply, ReplyBody,
};
use crate::state::Inner;
use crate::steps::{
    local_outcome, network_msg, remote_outcome, AnnounceEvent, AnnounceStep, Announced,
    ConnectorAction, ConnectorEvent, LocalRoute, NextEvent, NextStep, RemoteEvent, RemoteStep,
    Route,
};
use crate::text;
use vstd::prelude::*;

verus! {

/// Whether an answer is a text with a status.
pub open spec fn says(r: Reply, status: u16, words: Seq<char>) -> bool {
    r.status == status && !r.wake && match r.body {
        ReplyBody::Text(s) => s@ == words,
        ReplyBody::Json(_) => false,
    }
}

/// Whether an answer says that all went well.
pub open spec fn is_fine(r: Reply, wake: bool) -> bool {
    r.status == 200 && r.wake == wake && match r.body {
        ReplyBody::Json(page) => page@.get("ok"@) == Some(JsonView::Bool(true)) && page@.get(
            "body"@,
        ) is None,
        ReplyBody::Text(_) => false,
    }
}

/// Whether an answer says that all went well, and carries a body.
pub open spec fn carries(r: Reply, body: JsonView) -> bool {
    r.status == 200 && !r.wake && match r.body {
        ReplyBody::Json(page) => page@.get("ok"@) == Some(JsonView::Bool(true)) && page@.get(
            "body"@,
        ) == Some(body),
        ReplyBody::Text(_) => false,
    }
}

proof fn lemma_says(r: Reply, status: u16, words: Seq<char>)
    requires
        r@ == reply::text_answer(status, words),
    ensures
        says(r, status, words),
{
    laws_pages::law_answers_carry_what_they_are_given(status, words, JsonView::Null, false, r);
}

proof fn lemma_fine(r: Reply, wake: bool)
    requires
        r@ == reply::ok_answer(wake),
    ensures
        is_fine(r, wake),
{
    laws_pages::law_answers_carry_what_they_are_given(0, Seq::empty(), JsonView::Null, wake, r);
    laws_pages::law_sender_is_told_how_it_went(JsonView::Null, Seq::empty());
}

/// Law: a registration whose alias is held by another agent is refused with status 409 and
/// changes nothing; any other is accepted, wakes those who wait, and makes the agent known
/// with the alias, title, directory and runtime that it registered.
pub proof fn law_register<W>(s: &mut Inner<W>, req: RegisterReq, now: u64, r: Reply)
    requires
        call_ensures(Inner::<W>::register, (s, req, now), r),
    ensures
        laws_mesh::held_by_another(old(s)@, req.id@, req.alias@) ==> says(
            r,
            409,
            "alias in use: "@ + req.alias@,
        ) && final(s)@ == old(s)@,
        !laws_mesh::held_by_another(old(s)@, req.id@, req.alias@) ==> {
            let t = final(s)@;
            &&& is_fine(r, true)
            &&& t.local.contains_key(req.id@)
            &&& t.local[req.id@].alias == req.alias@
            &&& t.local[req.id@].title == text::opt_text(req.title)
            &&& t.local[req.id@].cwd == req.cwd@
            &&& t.local[req.id@].runtime == json::opt_json(req.runtime)
            &&& t.local[req.id@].last_seen == now
            &&& !t.remote.contains_key(req.id@)
            &&& t.queues.contains_key(req.id@)
            &&& t.local.remove(req.id@) == old(s)@.local.remove(req.id@)
            &&& t.remote == old(s)@.remote.remove(req.id@)
            &&& t.peers == old(s)@.peers
            &&& t.advertise == old(s)@.advertise
            &&& t.waiters == old(s)@.waiters
        },
{
    let before = old(s)@;
    laws_mesh::law_alias_is_taken_by_others(before, req.id@, req.alias@);
    laws_mesh::law_registration_touches_one_agent(before, req@, now, req.id@);
    if laws_mesh::held_by_another(before, req.id@, req.alias@) {
        lemma_says(r, 409, "alias in use: "@ + req.alias@);
    } else {
        lemma_fine(r, true);
        laws_mesh::law_registered_agent_is_as_it_registered(before, req@, now);
        assert(final(s)@.local.remove(req.id@) =~= before.local.remove(req.id@));
        assert(final(s)@.remote =~= before.remote.remove(req.id@));
    }
}

/// Law: an agent that leaves is gone with its messages; those who wait are woken, and nothing
/// else changes.
pub proof fn law_unregister<W>(s: &mut Inner<W>, id: &str, r: Reply)
    requires
        call_ensures(Inner::<W>::unregister, (s, id), r),
    ensures
        is_fine(r, true),
        final(s)@.local == old(s)@.local.remove(id@),
        final(s)@.queues == old(s)@.queues.remove(id@),
        final(s)@.remote == old(s)@.remote,
        final(s)@.peers == old(s)@.peers,
        final(s)@.waiters == old(s)@.waiters,
        final(s)@.advertise == old(s)@.advertise,
{
    lemma_fine(r, true);
}

/// Law: a named peer is known from then on, and nothing else changes.
pub proof fn law_local_peer<W>(s: &mut Inner<W>, addr: &str, r: Reply)
    requires
        call_ensures(Inner::<W>::local_peer, (s, addr), r),
    ensures
        is_fine(r, false),
        final(s)@.peers == old(s)@.peers.insert(addr@),
        final(s)@.local == old(s)@.local,
        final(s)@.remote == old(s)@.remote,
        final(s)@.queues == old(s)@.queues,
        final(s)@.waiters == old(s)@.waiters,
        final(s)@.advertise == old(s)@.advertise,
{
    lemma_fine(r, false);
}

/// Law: a service starts empty, with its peers, at its configured address or at its machine
/// and port.
pub proof fn law_new<W>(
    machine: String,
    port: u16,
    advertise: Option<String>,
    peers: Vec<String>,
    r: Inner<W>,
    any: Seq<char>,
)
    requires
        call_ensures(Inner::<W>::new, (machine, port, advertise, peers), r),
    ensures
        r@.machine == machine@,
        advertise matches Some(a) ==> r@.advertise == a@ && r@.advertise_locked,
        advertise is None ==> !r@.advertise_locked && r@.advertise == machine@ + ":"@
            + text::decimal(port as nat),
        r@.local.dom().len() == 0 && !r@.local.contains_key(any),
        !r@.remote.contains_key(any),
        !r@.queues.contains_key(any),
        !r@.waiters.contains_key(any),
        r@.peers.contains(any) <==> exists|i: int|
            0 <= i < peers@.len() && #[trigger] peers@[i]@ == any,
{
    let texts = text::texts(peers@);
    laws_mesh::law_service_starts_empty::<W>(machine@, port, text::opt_text(advertise), texts, any);
    if texts.contains(any) {
        let i = texts.index_of(any);
        assert(peers@[i]@ == any);
    }
    if exists|i: int| 0 <= i < peers@.len() && #[trigger] peers@[i]@ == any {
        let i = choose|i: int| 0 <= i < peers@.len() && #[trigger] peers@[i]@ == any;
        assert(texts[i] == any);
    }
}

/// Law: the alias of an agent is taken exactly if another agent, here or at a peer, goes by it.
pub proof fn law_alias_taken<W>(s: &Inner<W>, id: &str, alias: &str, r: bool)
    requires
        call_ensures(Inner::<W>::alias_taken, (s, id, alias), r),
    ensures
        r <==> laws_mesh::held_by_another(s@, id@, alias@),
{
    laws_mesh::law_alias_is_taken_by_others(s@, id@, alias@);
}

/// Law: a name means the local agent with that id, else one that goes by it, else nobody.
pub proof fn law_resolve_local<W>(s: &Inner<W>, to: &str, r: Option<String>)
    requires
        call_ensures(Inner::<W>::resolve_local, (s, to), r),
    ensures
        s@.local.contains_key(to@) ==> (r matches Some(id) && id@ == to@),
        r matches Some(id) ==> s@.local.contains_key(id@) && (id@ == to@ || s@.local[id@].alias
            == to@),
        r is None ==> !s@.local.contains_key(to@) && forall|id: Seq<char>| #[trigger]
            s@.local.contains_key(id) ==> s@.local[id].alias != to@,
{
    laws_mesh::law_name_means_id_before_alias(s@, to@, text::opt_text(r));
}

/// Law: among the agents of peers a name means the one with that id, else one that goes by it,
/// else nobody; what is given of it is what is known of it.
pub proof fn law_resolve_remote<W>(s: &Inner<W>, to: &str, r: Option<RemoteAgent>)
    requires
        call_ensures(Inner::<W>::resolve_remote, (s, to), r),
    ensures
        r matches Some(a) ==> exists|id: Seq<char>| #[trigger]
            s@.remote.contains_key(id) && (id == to@ || (!s@.remote.contains_key(to@)
                && s@.remote[id].alias == to@)) && s@.remote[id].alias == a.alias@
                && s@.remote[id].title == text::opt_text(a.title) && s@.remote[id].cwd == a.cwd@
                && s@.remote[id].runtime == json::opt_json(a.runtime) && s@.remote[id].addr
                == a.addr@,
        r is None ==> !s@.remote.contains_key(to@) && forall|id: Seq<char>| #[trigger]
            s@.remote.contains_key(id) ==> s@.remote[id].alias != to@,
{
    laws_mesh::law_remote_name_means_id_before_alias(s@, to@, message::opt_remote(r));
    if r is Some {
        let a = r->0@;
        let id = choose|id: Seq<char>| #[trigger]
            s@.remote.contains_key(id) && s@.remote[id] == a && (id == to@ || a.alias == to@);
        if s@.remote.contains_key(to@) {
            assert(s@.remote[to@] == a);
        } else {
            assert(s@.remote.contains_key(id));
        }
    }
}

/// Whether what is told of an agent are these particulars.
pub open spec fn info_of(
    r: AgentInfo,
    id: Seq<char>,
    alias: Seq<char>,
    title: Option<Seq<char>>,
    cwd: Seq<char>,
    runtime: Option<JsonView>,
    addr: Seq<char>,
) -> bool {
    &&& r.id@ == id
    &&& r.alias@ == alias
    &&& text::opt_text(r.title) == title
    &&& r.cwd@ == cwd
    &&& json::opt_json(r.runtime) == runtime
    &&& r.addr@ == addr
}

/// Law: a sender is described by the agent with its id, a local one first, else by one that
/// goes by it, a local one first, else by its name and directory alone.
pub proof fn law_resolve_agent_info<W>(s: &Inner<W>, from: &str, cwd: String, r: AgentInfo)
    requires
        call_ensures(Inner::<W>::resolve_agent_info, (s, from, cwd), r),
    ensures
        s@.local.contains_key(from@) ==> laws_mesh::tells_of_local(r@, s@, from@),
        !s@.local.contains_key(from@) && s@.remote.contains_key(from@)
            ==> laws_mesh::tells_of_remote(r@, s@, from@),
        !s@.local.contains_key(from@) && !s@.remote.contains_key(from@) ==> {
            let local = exists|id: Seq<char>| #[trigger]
                s@.local.contains_key(id) && s@.local[id].alias == from@;
            let remote = exists|id: Seq<char>| #[trigger]
                s@.remote.contains_key(id) && s@.remote[id].alias == from@;
            &&& local ==> r.alias@ == from@ && laws_mesh::tells_of_local(r@, s@, r.id@)
            &&& !local && remote ==> r.alias@ == from@ && laws_mesh::tells_of_remote(r@, s@, r.id@)
            &&& !local && !remote ==> info_of(r, from@, from@, None, cwd@, None, Seq::empty())
        },
{
    laws_mesh::law_sender_is_described_by_what_is_known(s@, from@, cwd@, r@);
}

/// Law: what is told of an agent is what was given of it.
pub proof fn law_agent_info(
    id: &str,
    alias: &str,
    title: Option<String>,
    cwd: String,
    runtime: Option<Json>,
    addr: &str,
    r: AgentInfo,
    unknown: AgentInfo,
)
    requires
        call_ensures(agent_info, (id, alias, title, cwd, runtime, addr), r),
        call_ensures(placeholder_agent_info, (id, cwd), unknown),
    ensures
        info_of(r, id@, alias@, text::opt_text(title), cwd@, json::opt_json(runtime), addr@),
        info_of(unknown, id@, id@, None, cwd@, None, Seq::empty()),
{
    reveal_strlit("");
    assert(""@ =~= Seq::empty());
}

/// Law: a message is made of its parts as they are given.
pub proof fn law_compose(
    from: String,
    to: String,
    kind: &str,
    body: Json,
    agent: AgentInfo,
    id: String,
    m: MeshMessage,
)
    requires
        call_ensures(compose, (from, to, kind, body, agent, id), m),
    ensures
        m.from@ == from@,
        m.to@ == to@,
        m.kind@ == kind@,
        m.body@ == body@,
        m.from_agent@ == agent@,
        m.id@ == id@,
{
}

/// Law: the message of an agent bears its sender, its addressee and its whole body, and of
/// which kind it is: `send` or `request`.
pub proof fn law_sent_messages_bear_what_was_asked<W>(
    s: &Inner<W>,
    send: LocalSendReq,
    request: LocalRequestReq,
    cwd: String,
    m: MeshMessage,
    q: MeshMessage,
)
    requires
        call_ensures(Inner::<W>::local_send, (s, send, cwd), m),
        call_ensures(Inner::<W>::local_request, (s, request, cwd), q),
    ensures
        m.from@ == send.from@,
        m.to@ == send.to@,
        m.kind@ == "send"@,
        m.body@ == send.body@,
        s@.local.contains_key(send.from@) ==> laws_mesh::tells_of_local(
            m.from_agent@,
            s@,
            send.from@,
        ),
        q.from@ == request.from@,
        q.to@ == request.to@,
        q.kind@ == "request"@,
        q.body@ == request.body@,
        s@.local.contains_key(request.from@) ==> laws_mesh::tells_of_local(
            q.from_agent@,
            s@,
            request.from@,
        ),
{
    laws_mesh::law_sender_is_described_by_what_is_known(s@, send.from@, cwd@, m@.from_agent);
    laws_mesh::law_sender_is_described_by_what_is_known(s@, request.from@, cwd@, q@.from_agent);
}

/// Law: an announcement by a caller that is not let in is answered with status 403, one of
/// another protocol with 426, and both change nothing; any other is answered with all that is
/// known, and each agent that the announcer told about last as its own, but for local ones, is
/// kept as it was told, at the address of the caller.
pub proof fn law_announce<W>(
    s: &mut Inner<W>,
    authorized: bool,
    remote: &Ip,
    req: AnnounceReq,
    r: Announced,
    i: int,
)
    requires
        call_ensures(Inner::<W>::announce, (s, authorized, remote, req), r),
    ensures
        !authorized ==> (r matches Announced::Refused(a) && says(a, 403, "forbidden"@))
            && final(s)@ == old(s)@,
        authorized && req.protocol != 3 ==> (r matches Announced::Refused(a) && says(
            a,
            426,
            "protocol mismatch"@,
        )) && final(s)@ == old(s)@,
        authorized && req.protocol == 3 ==> (r matches Announced::Accepted(resp)
            && final(s)@.answers(resp@)),
        authorized && req.protocol == 3 && req.addr@ != old(s)@.advertise && 0 <= i
            < req.agents@.len() && (forall|j: int|
            i < j < req.agents@.len() ==> (#[trigger] req.agents@[j]).id@ != req.agents@[i].id@)
            && req.agents@[i].addr@ == req.addr@ && !old(s)@.local.contains_key(req.agents@[i].id@) ==> {
            let peer = address::socket_text(*remote, address::advertised_port(req.addr@));
            let t = final(s)@;
            let told = req.agents@[i];
            &&& t.peers.contains(peer)
            &&& t.remote.contains_key(told.id@)
            &&& t.remote[told.id@].alias == told.alias@
            &&& t.remote[told.id@].title == text::opt_text(told.title)
            &&& t.remote[told.id@].cwd == told.cwd@
            &&& t.remote[told.id@].runtime == json::opt_json(told.runtime)
            &&& t.remote[told.id@].addr == peer
        },
        final(s)@.local == old(s)@.local,
        final(s)@.queues == old(s)@.queues,
        final(s)@.waiters == old(s)@.waiters,
        final(s)@.advertise == old(s)@.advertise,
{
    let before = old(s)@;
    let peer = address::socket_text(*remote, address::advertised_port(req.addr@));
    laws_mesh::law_announcement_is_heard_where_it_came_from(before, authorized, *remote, req@);
    if !authorized {
        match r {
            Announced::Refused(a) => {
                lemma_says(a, 403, "forbidden"@);
            },
            Announced::Accepted(_) => {},
        }
    } else if req.protocol != 3 {
        match r {
            Announced::Refused(a) => {
                lemma_says(a, 426, "protocol mismatch"@);
            },
            Announced::Accepted(_) => {},
        }
    } else {
        if req.addr@ != before.advertise && 0 <= i < req.agents@.len() && (forall|j: int|
            i < j < req.agents@.len() ==> (#[trigger] req.agents@[j]).id@ != req.agents@[i].id@)
            && req.agents@[i].addr@ == req.addr@ && !before.local.contains_key(
            req.agents@[i].id@,
        ) {
            assert forall|j: int| i < j < req@.agents.len() implies (#[trigger] req@.agents[j]).id
                != req@.agents[i].id by {
                assert(req@.agents[j] == req.agents@[j]@);
            }
            laws_mesh::law_heard_agent_is_kept_as_told(before, req@, peer, i);
        }
    }
}

/// Law: the answer of a peer of this protocol is taken over: each agent that it told about last
/// as its own, but for local ones, is kept as it was told, at the address of the peer; that
/// peer and the peers that it tells are known. An answer of another protocol, a refusal and a
/// failure change nothing, and are told.
pub proof fn law_announce_outcome<W>(
    s: &mut Inner<W>,
    peer: &str,
    event: AnnounceEvent,
    r: AnnounceStep,
    i: int,
)
    requires
        call_ensures(Inner::<W>::announce_outcome, (s, peer, event), r),
    ensures
        match event {
            AnnounceEvent::Failed(why) => final(s)@ == old(s)@ && (r matches AnnounceStep::Done(
                Err(e),
            ) && e@ == why@),
            AnnounceEvent::Status { success: true, text } => final(s)@ == old(s)@
                && r is ReadAnswer,
            AnnounceEvent::Status { success: false, text } => final(s)@ == old(s)@ && (
            r matches AnnounceStep::Done(Err(e)) && e@ == "announce failed: "@ + text@),
            AnnounceEvent::Answer(resp) => if resp.protocol != 3 {
                final(s)@ == old(s)@ && (r matches AnnounceStep::Done(Err(e)) && e@
                    == "protocol mismatch: "@ + text::decimal(resp.protocol as nat))
            } else {
                &&& r == AnnounceStep::Done(Ok(()))
                &&& resp.addr@ != old(s)@.advertise ==> final(s)@.peers.contains(peer@)
                &&& forall|j: int|
                    0 <= j < resp.peers@.len() && resp.peers@[j]@ != old(s)@.advertise
                        ==> final(s)@.peers.contains(#[trigger] resp.peers@[j]@)
                &&& 0 <= i < resp.agents@.len() && (forall|j: int|
                    i < j < resp.agents@.len() ==> (#[trigger] resp.agents@[j]).id@
                        != resp.agents@[i].id@) && resp.agents@[i].addr@ == resp.addr@ && peer@
                    != old(s)@.advertise && !old(s)@.local.contains_key(resp.agents@[i].id@) ==> {
                    let t = final(s)@;
                    let told = resp.agents@[i];
                    &&& t.remote.contains_key(told.id@)
                    &&& t.remote[told.id@].alias == told.alias@
                    &&& t.remote[told.id@].title == text::opt_text(told.title)
                    &&& t.remote[told.id@].cwd == told.cwd@
                    &&& t.remote[told.id@].runtime == json::opt_json(told.runtime)
                    &&& t.remote[told.id@].addr == peer@
                }
            },
        },
        final(s)@.local == old(s)@.local,
        final(s)@.queues == old(s)@.queues,
        final(s)@.waiters == old(s)@.waiters,
        final(s)@.advertise == old(s)@.advertise,
{
    match event {
        AnnounceEvent::Answer(resp) => {
            let before = old(s)@;
            if resp.protocol == 3 {
                assert forall|j: int|
                    0 <= j < resp.peers@.len() && resp.peers@[j]@ != before.advertise implies final(s)@.peers.contains(#[trigger] resp.peers@[j]@) by {
                    assert(resp@.peers[j] == resp.peers@[j]@);
                    assert(resp@.peers.contains(resp.peers@[j]@));
                }
                if 0 <= i < resp.agents@.len() && (forall|j: int|
                    i < j < resp.agents@.len() ==> (#[trigger] resp.agents@[j]).id@
                        != resp.agents@[i].id@) && resp.agents@[i].addr@ == resp.addr@ && peer@
                    != before.advertise && !before.local.contains_key(resp.agents@[i].id@) {
                    assert forall|j: int| i < j < resp@.agents.len() implies (
                    #[trigger] resp@.agents[j]).id != resp@.agents[i].id by {
                        assert(resp@.agents[j] == resp.agents@[j]@);
                    }
                    laws_mesh::law_learned_agent_is_kept_as_told(before, peer@, resp@, i);
                }
            }
        },
        _ => {},
    }
}

/// Law: a service announces itself to a peer with its address and each of its own agents as it
/// registered; it announces nothing to itself.
pub proof fn law_announce_to_peer<W>(
    s: &Inner<W>,
    peer: &str,
    r: Option<(String, AnnounceReq)>,
    id: Seq<char>,
)
    requires
        call_ensures(Inner::<W>::announce_to_peer, (s, peer), r),
    ensures
        r is None <==> peer@ == s@.advertise,
        r matches Some((url, req)) ==> {
            &&& url@ == "http://"@ + peer@ + "/announce"@
            &&& req.protocol == 3
            &&& req.addr@ == s@.advertise
            &&& s@.local.contains_key(id) ==> exists|i: int|
                0 <= i < req.agents@.len() && laws_mesh::tells_of_local(
                    (#[trigger] req.agents@[i])@,
                    s@,
                    id,
                )
            &&& forall|i: int|
                0 <= i < req.agents@.len() ==> laws_mesh::tells_of_local(
                    (#[trigger] req.agents@[i])@,
                    s@,
                    req.agents@[i].id@,
                )
        },
{
    if r is Some {
        let req = (r->0).1;
        laws_mesh::law_announcement_tells_the_local_agents(s@, req@);
        if s@.local.contains_key(id) {
            let i = choose|i: int|
                0 <= i < req@.agents.len() && laws_mesh::tells_of_local(
                    #[trigger] req@.agents[i],
                    s@,
                    id,
                );
            assert(req@.agents[i] == req.agents@[i]@);
        }
        assert forall|i: int| 0 <= i < req.agents@.len() implies laws_mesh::tells_of_local(
            (#[trigger] req.agents@[i])@,
            s@,
            req.agents@[i].id@,
        ) by {
            assert(req@.agents[i] == req.agents@[i]@);
        }
    }
}

/// Law: the answer to an announcement tells each agent that the service has and each that it
/// knows from peers, as it is known.
pub proof fn law_announce_response<W>(s: &Inner<W>, r: AnnounceResp, id: Seq<char>)
    requires
        call_ensures(Inner::<W>::announce_response, (s,), r),
    ensures
        r.protocol == 3,
        r.addr@ == s@.advertise,
        s@.local.contains_key(id) ==> exists|i: int|
            0 <= i < r.agents@.len() && laws_mesh::tells_of_local(
                (#[trigger] r.agents@[i])@,
                s@,
                id,
            ),
        s@.remote.contains_key(id) ==> exists|i: int|
            0 <= i < r.agents@.len() && laws_mesh::tells_of_remote(
                (#[trigger] r.agents@[i])@,
                s@,
                id,
            ),
        s@.peers.contains(id) ==> exists|i: int|
            0 <= i < r.peers@.len() && (#[trigger] r.peers@[i])@ == id,
{
    laws_mesh::law_answer_tells_all_that_is_known(s@, r@);
    if s@.local.contains_key(id) {
        let i = choose|i: int|
            0 <= i < r@.agents.len() && laws_mesh::tells_of_local(#[trigger] r@.agents[i], s@, id);
        assert(r@.agents[i] == r.agents@[i]@);
    }
    if s@.remote.contains_key(id) {
        let i = choose|i: int|
            0 <= i < r@.agents.len() && laws_mesh::tells_of_remote(#[trigger] r@.agents[i], s@, id);
        assert(r@.agents[i] == r.agents@[i]@);
    }
    if s@.peers.contains(id) {
        let i = choose|i: int| 0 <= i < r@.peers.len() && #[trigger] r@.peers[i] == id;
        assert(r@.peers[i] == r.peers@[i]@);
    }
}

/// Law: a message for a local agent, whole, comes last among those that wait for it; exactly a
/// request waits for its answer, with its handle.
pub proof fn law_route_local<W>(s: &mut Inner<W>, msg: MeshMessage, waiter: W, r: LocalRoute)
    requires
        call_ensures(Inner::<W>::route_local, (s, msg, waiter), r),
    ensures
        final(s)@.queues.contains_key(msg.to@),
        final(s)@.queues[msg.to@].len() > 0 && final(s)@.queues[msg.to@].last() == msg@,
        old(s)@.queues.contains_key(msg.to@) ==> final(s)@.queues[msg.to@].drop_last()
            == old(s)@.queues[msg.to@],
        !old(s)@.queues.contains_key(msg.to@) ==> final(s)@.queues[msg.to@].len() == 1,
        final(s)@.queues.remove(msg.to@) == old(s)@.queues.remove(msg.to@),
        msg.kind@ == "request"@ ==> r is AwaitAnswer && final(s)@.waiters == old(s)@.waiters.insert(msg.id@, waiter),
        msg.kind@ != "request"@ ==> r is Done && final(s)@.waiters == old(s)@.waiters,
        final(s)@.local == old(s)@.local,
        final(s)@.remote == old(s)@.remote,
        final(s)@.peers == old(s)@.peers,
{
    laws_mesh::law_message_is_put_behind_the_others(old(s)@, msg@, waiter, msg.to@);
    if old(s)@.queues.contains_key(msg.to@) {
        assert(final(s)@.queues[msg.to@].drop_last() =~= old(s)@.queues[msg.to@]);
    }
    assert(final(s)@.queues.remove(msg.to@) =~= old(s)@.queues.remove(msg.to@));
}

/// Law: an agent gets the oldest message that waits for it, whole, or none.
pub proof fn law_pop_next<W>(s: &mut Inner<W>, agent: &str, r: Option<MeshMessage>)
    requires
        call_ensures(Inner::<W>::pop_next, (s, agent), r),
    ensures
        r matches Some(m) ==> old(s)@.queues.contains_key(agent@) && final(s)@.queues.contains_key(agent@) && seq![m@] + final(s)@.queues[agent@] == old(s)@.queues[agent@],
        r is None <==> !old(s)@.queues.contains_key(agent@) || old(s)@.queues[agent@].len() == 0,
        r is None ==> final(s)@ == old(s)@,
        final(s)@.waiters == old(s)@.waiters,
        final(s)@.local == old(s)@.local,
{
    laws_mesh::law_first_message_is_taken(old(s)@, agent@, agent@);
}

/// Law: an agent that looks is answered with its oldest message in JSON, each part of it, or
/// waits where there is none; when its time is over it is answered with status 204.
pub proof fn law_local_next<W>(s: &mut Inner<W>, agent: &str, event: NextEvent, r: NextStep)
    requires
        call_ensures(Inner::<W>::local_next, (s, agent, event), r),
    ensures
        event is TimeUp ==> (r matches NextStep::Answer(a) && says(a, 204, Seq::empty()))
            && final(s)@ == old(s)@,
        event is Look && !(old(s)@.queues.contains_key(agent@) && old(s)@.queues[agent@].len() > 0)
            ==> r is Wait && final(s)@ == old(s)@,
        event is Look && old(s)@.queues.contains_key(agent@) && old(s)@.queues[agent@].len() > 0
            ==> (r matches NextStep::Answer(a) && a.status == 200 && (
        a.body matches ReplyBody::Json(page) && {
            let m = old(s)@.queues[agent@][0];
            &&& page@.text_at("from"@) == Some(m.from)
            &&& page@.text_at("to"@) == Some(m.to)
            &&& page@.text_at("id"@) == Some(m.id)
            &&& page@.text_at("kind"@) == Some(m.kind)
            &&& page@.get("body"@) == Some(m.body)
            &&& page@.get("from_agent"@) matches Some(agent) && laws_pages::shows_agent(
                agent,
                m.from_agent.id,
                m.from_agent.alias,
                m.from_agent.title,
                m.from_agent.cwd,
                m.from_agent.runtime,
                m.from_agent.addr,
            )
        })) && final(s)@.queues[agent@] == old(s)@.queues[agent@].skip(1),
{
    laws_mesh::law_first_message_is_taken(old(s)@, agent@, agent@);
    match event {
        NextEvent::TimeUp => {
            match r {
                NextStep::Answer(a) => {
                    lemma_says(a, 204, Seq::empty());
                },
                NextStep::Wait => {},
            }
        },
        NextEvent::Look => {
            if old(s)@.queues.contains_key(agent@) && old(s)@.queues[agent@].len() > 0 {
                let m = old(s)@.queues[agent@][0];
                laws_pages::law_message_is_read_back(m);
                match r {
                    NextStep::Answer(a) => {
                        laws_pages::law_answers_carry_what_they_are_given(
                            0,
                            Seq::empty(),
                            message::message_json(m),
                            false,
                            a,
                        );
                    },
                    NextStep::Wait => {},
                }
                assert(old(s)@.queues[agent@].skip(1) =~= final(s)@.queues[agent@]);
            }
        },
    }
}

/// Law: an answer is handed to the request that waits under its id, which then waits no more;
/// an answer to no request is told so with status 404.
pub proof fn law_local_reply<W>(s: &mut Inner<W>, id: &str, r: (Option<W>, Reply))
    requires
        call_ensures(Inner::<W>::local_reply, (s, id), r),
    ensures
        old(s)@.waiters.contains_key(id@) ==> r.0 == Some(old(s)@.waiters[id@]) && is_fine(
            r.1,
            false,
        ),
        !old(s)@.waiters.contains_key(id@) ==> r.0 is None && says(
            r.1,
            404,
            "reply id not found"@,
        ),
        final(s)@.waiters == old(s)@.waiters.remove(id@),
        final(s)@.queues == old(s)@.queues,
        final(s)@.local == old(s)@.local,
{
    if old(s)@.waiters.contains_key(id@) {
        lemma_fine(r.1, false);
    } else {
        lemma_says(r.1, 404, "reply id not found"@);
    }
}

/// Law: a message goes, unchanged but for its addressee's id, to the local agent that its
/// addressee means; else, unchanged, to the address of the agent of a peer that it means; else
/// nowhere, which is told.
pub proof fn law_route_message<W>(s: &Inner<W>, msg: MeshMessage, r: Route)
    requires
        call_ensures(Inner::<W>::route_message, (s, msg), r),
    ensures
        ({
            let here = s@.local.contains_key(msg.to@) || exists|id: Seq<char>| #[trigger]
                s@.local.contains_key(id) && s@.local[id].alias == msg.to@;
            let there = s@.remote.contains_key(msg.to@) || exists|id: Seq<char>| #[trigger]
                s@.remote.contains_key(id) && s@.remote[id].alias == msg.to@;
            &&& here <==> r is Local
            &&& !here && there <==> r is Remote
            &&& r matches Route::Local(m) ==> {
                &&& s@.local.contains_key(m.to@)
                &&& m.to@ == msg.to@ || s@.local[m.to@].alias == msg.to@
                &&& s@.local.contains_key(msg.to@) ==> m.to@ == msg.to@
                &&& m.from@ == msg.from@ && m.id@ == msg.id@ && m.kind@ == msg.kind@
                &&& m.body@ == msg.body@ && m.from_agent@ == msg.from_agent@
            }
            &&& r matches Route::Remote { url, msg: m } ==> {
                &&& m@ == msg@
                &&& exists|id: Seq<char>| #[trigger]
                    s@.remote.contains_key(id) && (id == msg.to@ || s@.remote[id].alias == msg.to@)
                        && url@ == "http://"@ + s@.remote[id].addr + "/msg"@
                &&& s@.remote.contains_key(msg.to@) ==> url@ == "http://"@
                    + s@.remote[msg.to@].addr + "/msg"@
            }
            &&& r matches Route::Unknown(e) ==> e@ == "unknown agent: "@ + msg.to@
        }),
{
    match r {
        Route::Local(m) => {
            let id = choose|id: Seq<char>| #[trigger]
                s@.resolves_local(msg@.to, Some(id)) && m@.to == id;
            assert(s@.resolves_local(msg@.to, Some(id)));
            assert(m@.to == id);
            assert(s@.local.contains_key(id));
        },
        Route::Remote { url, msg: m } => {
            let agent = choose|agent: RemoteAgentView| #[trigger]
                s@.resolves_remote(msg@.to, Some(agent)) && url@ == "http://"@ + agent.addr
                    + "/msg"@;
            laws_mesh::law_remote_name_means_id_before_alias(s@, msg@.to, Some(agent));
        },
        Route::Unknown(e) => {},
    }
}

/// Law: agents that did not register for three seconds are dropped, and no others.
pub proof fn law_prune_stale_local_agents<W>(s: &mut Inner<W>, now: u64, r: (), id: Seq<char>)
    requires
        call_ensures(Inner::<W>::prune_stale_local_agents, (s, now), r),
    ensures
        final(s)@.local.contains_key(id) <==> old(s)@.local.contains_key(id) && now - old(s)@.local[id].last_seen <= 3_000_000_000,
        final(s)@.local.contains_key(id) ==> final(s)@.local[id] == old(s)@.local[id],
        final(s)@.local.contains_key(id) && old(s)@.queues.contains_key(id) ==> final(s)@.queues.contains_key(id) && final(s)@.queues[id] == old(s)@.queues[id],
        final(s)@.peers == old(s)@.peers,
        final(s)@.waiters == old(s)@.waiters,
{
    laws_mesh::law_agent_is_dropped_after_three_seconds(old(s)@, now, id);
}

/// Law: a peer that could not be told is dropped with the agents that are reached there; one
/// that was told stays, with all that is known of it.
pub proof fn law_settle_peer<W>(
    s: &mut Inner<W>,
    peer: &str,
    outcome: Result<(), String>,
    r: (),
    id: Seq<char>,
)
    requires
        call_ensures(Inner::<W>::settle_peer, (s, peer, outcome), r),
    ensures
        outcome is Ok ==> final(s)@ == old(s)@,
        outcome is Err ==> {
            &&& final(s)@.peers == old(s)@.peers.remove(peer@)
            &&& final(s)@.remote.contains_key(id) <==> old(s)@.remote.contains_key(id) && old(s)@.remote[id].addr != peer@
            &&& final(s)@.remote.contains_key(id) ==> final(s)@.remote[id] == old(s)@.remote[id]
            &&& final(s)@.local == old(s)@.local
            &&& final(s)@.queues == old(s)@.queues
        },
{
}

/// Law: a dropped peer is gone with the agents that are reached there, and nothing else is.
pub proof fn law_prune_peer<W>(s: &mut Inner<W>, peer: &str, r: (), id: Seq<char>)
    requires
        call_ensures(Inner::<W>::prune_peer, (s, peer), r),
    ensures
        final(s)@.peers == old(s)@.peers.remove(peer@),
        final(s)@.remote.contains_key(id) <==> old(s)@.remote.contains_key(id) && old(s)@.remote[id].addr != peer@,
        final(s)@.remote.contains_key(id) ==> final(s)@.remote[id] == old(s)@.remote[id],
        final(s)@.local == old(s)@.local,
        final(s)@.queues == old(s)@.queues,
        final(s)@.waiters == old(s)@.waiters,
{
}

/// Law: where a connector names the address of this service, it is taken unless one is
/// configured; where it names a peer, that peer is to be told; anything else does nothing.
pub proof fn law_connector_event<W>(s: &mut Inner<W>, event: ConnectorEvent, r: ConnectorAction)
    requires
        call_ensures(Inner::<W>::connector_event, (s, event), r),
    ensures
        event.addr is None ==> r is Nothing && final(s)@ == old(s)@,
        event.addr matches Some(addr) ==> {
            &&& event.kind@ == "self"@ ==> {
                &&& r is Nothing
                &&& !old(s)@.advertise_locked ==> final(s)@.advertise == addr@
                &&& old(s)@.advertise_locked ==> final(s)@ == old(s)@
            }
            &&& event.kind@ == "peer"@ ==> (r matches ConnectorAction::Announce(a) && a@ == addr@)
                && final(s)@ == old(s)@
            &&& event.kind@ != "self"@ && event.kind@ != "peer"@ ==> r is Nothing && final(s)@
                == old(s)@
        },
        final(s)@.local == old(s)@.local,
        final(s)@.remote == old(s)@.remote,
        final(s)@.peers == old(s)@.peers,
        final(s)@.queues == old(s)@.queues,
        final(s)@.waiters == old(s)@.waiters,
        final(s)@.advertise_locked == old(s)@.advertise_locked,
{
    reveal_strlit("self");
    reveal_strlit("peer");
    assert("self"@[0] == 's' && "peer"@[0] == 'p');
}

/// Law: the address that a service tells is its own.
pub proof fn law_advertise<W>(s: &Inner<W>, r: &str)
    requires
        call_ensures(Inner::<W>::advertise, (s,), r),
    ensures
        r@ == s@.advertise,
{
}

/// Law: the pages of a service hold its particulars, its agents, those of its peers, and its
/// peers, each once.
pub proof fn law_pages<W>(s: &Inner<W>, version: &str, health: Json, list: Json)
    requires
        call_ensures(Inner::<W>::health_payload, (s, version), health),
        call_ensures(Inner::<W>::list, (s,), list),
    ensures
        health@.get("ok"@) == Some(JsonView::Bool(true)),
        health@.text_at("version"@) == Some(version@),
        health@.get("protocol"@) matches Some(p) && p.as_unsigned() == Some(3u64),
        health@.text_at("machine"@) == Some(s@.machine),
        health@.text_at("advertise"@) == Some(s@.advertise),
        laws_pages::holds_agents(health@, "local_agents"@, "remote_agents"@, s@),
        laws_pages::holds_agents(list@, "local"@, "remote"@, s@),
        list@.get("peers"@) matches Some(JsonView::List(items)) && exists|peers: Seq<Seq<char>>|
            #[trigger] laws_pages::names_each(peers, s@.peers) && items == peers.map_values(
                |p: Seq<char>| JsonView::Text(p),
            ),
        list@.text_at("self"@) == Some(s@.advertise),
{
    laws_pages::law_health_page_holds_the_service(s@, version@, health@);
    laws_pages::law_list_page_holds_what_is_known(s@, list@);
}

/// Law: the peers are given each once, each before those that come later in the order of
/// texts.
pub proof fn law_sorted_peers<W>(s: &Inner<W>, r: Vec<String>)
    requires
        call_ensures(Inner::<W>::sorted_peers, (s,), r),
    ensures
        laws_pages::names_each(text::texts(r@), s@.peers),
        forall|i: int, j: int|
            0 <= i < j < r@.len() ==> text::text_before(
                (#[trigger] r@[i])@,
                (#[trigger] r@[j])@,
            ),
{
    laws_pages::law_enumeration_names_each_once(text::texts(r@), s@.peers);
    assert forall|i: int, j: int| 0 <= i < j < r@.len() implies text::text_before(
        (#[trigger] r@[i])@,
        (#[trigger] r@[j])@,
    ) by {
        assert(text::texts(r@)[i] == r@[i]@ && text::texts(r@)[j] == r@[j]@);
    }
}

/// Law: what came of a message to a peer: why it failed; that the peer refused it; of a
/// request, the whole body of the answer, or null where it has none; of any other message,
/// that it was delivered.
pub proof fn law_remote_outcome(
    kind: &str,
    why: String,
    failed: RemoteStep,
    status: String,
    refused: RemoteStep,
    taken: RemoteStep,
    page: Json,
    answered: RemoteStep,
)
    requires
        call_ensures(remote_outcome, (kind, RemoteEvent::Failed(why)), failed),
        call_ensures(
            remote_outcome,
            (kind, RemoteEvent::Status { success: false, text: status }),
            refused,
        ),
        call_ensures(
            remote_outcome,
            (kind, RemoteEvent::Status { success: true, text: status }),
            taken,
        ),
        call_ensures(remote_outcome, (kind, RemoteEvent::Answer(page)), answered),
    ensures
        failed matches RemoteStep::Done(Err(e)) && e@ == why@,
        refused matches RemoteStep::Done(Err(e)) && e@ == "peer returned "@ + status@,
        kind@ == "request"@ ==> taken is ReadAnswer,
        kind@ != "request"@ ==> (taken matches RemoteStep::Done(Ok(body)) && body@
            == JsonView::Bool(true)),
        answered matches RemoteStep::Done(Ok(body)) && (page@.get("body"@) matches Some(b) ==> body@
            == b) && (page@.get("body"@) is None ==> body@ == JsonView::Null),
{
}

/// Law: what came of a message for a local agent: that it was delivered; of a request, the
/// whole answer, or that it did not come in time.
pub proof fn law_local_outcome(
    body: Json,
    delivered: Result<Json, String>,
    answered: Result<Json, String>,
    late: Result<Json, String>,
)
    requires
        call_ensures(local_outcome, (LocalRoute::Done, None), delivered),
        call_ensures(local_outcome, (LocalRoute::AwaitAnswer, Some(body)), answered),
        call_ensures(local_outcome, (LocalRoute::AwaitAnswer, None), late),
    ensures
        delivered matches Ok(b) && b@ == JsonView::Bool(true),
        answered matches Ok(b) && b@ == body@,
        late matches Err(e) && e@ == "request timed out"@,
{
}

/// Law: a request that is answered gives its asker, here or at a peer, exactly the body of the
/// answer; one that failed tells why.
pub proof fn law_answers_are_passed_on(
    body: Json,
    why: String,
    sent: Reply,
    asked: Reply,
    passed: Reply,
    not_sent: Reply,
    not_asked: Reply,
    not_passed: Reply,
)
    requires
        call_ensures(send_reply, (Ok(body),), sent),
        call_ensures(request_reply, (Ok(body),), asked),
        call_ensures(network_reply, (Ok(body),), passed),
        call_ensures(send_reply, (Err(why),), not_sent),
        call_ensures(request_reply, (Err(why),), not_asked),
        call_ensures(network_reply, (Err(why),), not_passed),
    ensures
        is_fine(sent, false),
        carries(asked, body@),
        carries(passed, body@),
        says(not_sent, 502, why@),
        says(not_asked, 504, why@),
        says(not_passed, 502, why@),
{
    laws_pages::law_request_is_answered_with_the_body(body@, why@);
    laws_pages::law_peer_is_answered_with_the_body(body@, why@);
    laws_pages::law_sender_is_told_how_it_went(body@, why@);
    lemma_seen(sent);
    lemma_seen(asked);
    lemma_seen(passed);
    lemma_seen(not_sent);
    lemma_seen(not_asked);
    lemma_seen(not_passed);
}

proof fn lemma_seen(r: Reply)
    ensures
        r@.status == r.status,
        r@.wake == r.wake,
        match r.body {
            ReplyBody::Json(j) => r@.body == reply::ReplyBodyView::Json(j@),
            ReplyBody::Text(s) => r@.body == reply::ReplyBodyView::Text(s@),
        },
{
}

/// Law: a request that goes to an agent of a peer comes back to its asker with the body that
/// the agent answered, whatever it is: the peer's answer, read back and passed on.
pub proof fn law_request_comes_back_across_peers(
    body: Json,
    passed: Reply,
    page: Json,
    kind: &str,
    step: RemoteStep,
    outcome: Result<Json, String>,
    asked: Reply,
)
    requires
        call_ensures(network_reply, (Ok(body),), passed),
        passed.body == ReplyBody::Json(page),
        call_ensures(remote_outcome, (kind, RemoteEvent::Answer(page)), step),
        step == RemoteStep::Done(outcome),
        call_ensures(request_reply, (outcome,), asked),
    ensures
        carries(asked, body@),
{
    laws_pages::law_peer_is_answered_with_the_body(body@, Seq::empty());
    lemma_seen(passed);
    assert(outcome is Ok);
    let back = outcome->Ok_0;
    assert(back@ == body@);
    laws_pages::law_request_is_answered_with_the_body(back@, Seq::empty());
    lemma_seen(asked);
}

/// Law: answers bear what they are made of.
pub proof fn law_replies_bear_what_they_are_made_of(
    status: u16,
    words: String,
    page: Json,
    wake: bool,
    plain: Reply,
    paged: Reply,
    fine: Reply,
    forbidden: Reply,
)
    requires
        call_ensures(text_reply, (status, words), plain),
        call_ensures(json_reply, (page,), paged),
        call_ensures(ok_reply, (wake,), fine),
        call_ensures(forbidden_reply, (), forbidden),
    ensures
        says(plain, status, words@),
        paged.status == 200 && !paged.wake && (paged.body matches ReplyBody::Json(j) && j@
            == page@),
        is_fine(fine, wake),
        says(forbidden, 403, "forbidden"@),
{
    lemma_says(plain, status, words@);
    lemma_seen(paged);
    laws_pages::law_answers_carry_what_they_are_given(0, Seq::empty(), page@, false, paged);
    lemma_fine(fine, wake);
    lemma_says(forbidden, 403, "forbidden"@);
}

/// Law: a message that a peer passes on is given thirty seconds if it is a request and one
/// otherwise; from a caller that is not let in it is refused with status 403. A local request
/// that says nothing else is given thirty seconds.
pub proof fn law_messages_are_given_their_time(
    authorized: bool,
    msg: &MeshMessage,
    r: Result<u64, Reply>,
    secs: u64,
    ms: u64,
)
    requires
        call_ensures(network_msg, (authorized, msg), r),
        call_ensures(network_timeout_secs, (msg,), secs),
        call_ensures(default_timeout_ms, (), ms),
    ensures
        !authorized ==> (r matches Err(a) && says(a, 403, "forbidden"@)),
        authorized && msg.kind@ == "request"@ ==> r == Ok::<u64, Reply>(30),
        authorized && msg.kind@ != "request"@ ==> r == Ok::<u64, Reply>(1),
        msg.kind@ == "request"@ ==> secs == 30,
        msg.kind@ != "request"@ ==> secs == 1,
        ms == 30_000,
{
    if !authorized {
        match r {
            Err(a) => {
                lemma_says(a, 403, "forbidden"@);
            },
            Ok(_) => {},
        }
    }
}

/// Law: the JSON of an agent and of a message holds each of their parts.
pub proof fn law_json_holds_each_part(a: &AgentInfo, m: &MeshMessage, agent: Json, msg: Json)
    requires
        call_ensures(AgentInfo::to_json, (a,), agent),
        call_ensures(MeshMessage::to_json, (m,), msg),
    ensures
        laws_pages::shows_agent(
            agent@,
            a.id@,
            a.alias@,
            text::opt_text(a.title),
            a.cwd@,
            json::opt_json(a.runtime),
            a.addr@,
        ),
        msg@.text_at("from"@) == Some(m.from@),
        msg@.text_at("to"@) == Some(m.to@),
        msg@.text_at("id"@) == Some(m.id@),
        msg@.text_at("kind"@) == Some(m.kind@),
        msg@.get("body"@) == Some(m.body@),
        msg@.get("from_agent"@) matches Some(f) && laws_pages::shows_agent(
            f,
            m.from_agent.id@,
            m.from_agent.alias@,
            text::opt_text(m.from_agent.title),
            m.from_agent.cwd@,
            json::opt_json(m.from_agent.runtime),
            m.from_agent.addr@,
        ),
{
    laws_pages::law_agent_is_read_back(a@);
    laws_pages::law_message_is_read_back(m@);
}

} // verus!
