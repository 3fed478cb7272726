//! What each step does to what a service knows, field by field.

use crate::address;
use crate::address::Ip;
use crate::laws;
use crate::mesh;
use crate::mesh::MeshView;
use crate::message::{
    AgentInfo, AgentInfoView, AnnounceReq, AnnounceReqView, AnnounceResp, AnnounceRespView,
    MeshMessage, MessageView, RegisterReq, RegisterView, RemoteAgentView,
};
use crate::state;
use crate::table;
use vstd::prelude::*;

verus! {

/// Whether an agent is told about with exactly these particulars.
pub open spec fn told_as(
    a: AgentInfoView,
    id: Seq<char>,
    alias: Seq<char>,
    title: Option<Seq<char>>,
    cwd: Seq<char>,
    runtime: Option<crate::json::JsonView>,
    addr: Seq<char>,
) -> bool {
    &&& a.id == id
    &&& a.alias == alias
    &&& a.title == title
    &&& a.cwd == cwd
    &&& a.runtime == runtime
    &&& a.addr == addr
}

/// Whether `a` tells of the local agent `id` of a service.
pub open spec fn tells_of_local<W>(a: AgentInfoView, s: MeshView<W>, id: Seq<char>) -> bool {
    s.local.contains_key(id) && told_as(
        a,
        id,
        s.local[id].alias,
        s.local[id].title,
        s.local[id].cwd,
        s.local[id].runtime,
        s.advertise,
    )
}

/// Whether `a` tells of the agent `id` that a service knows from a peer.
pub open spec fn tells_of_remote<W>(a: AgentInfoView, s: MeshView<W>, id: Seq<char>) -> bool {
    s.remote.contains_key(id) && told_as(
        a,
        id,
        s.remote[id].alias,
        s.remote[id].title,
        s.remote[id].cwd,
        s.remote[id].runtime,
        s.remote[id].addr,
    )
}

/// Whether an agent other than `id`, of this machine or of a peer, goes by `alias`.
pub open spec fn held_by_another<W>(s: MeshView<W>, id: Seq<char>, alias: Seq<char>) -> bool {
    ||| exists|o: Seq<char>| #[trigger]
        s.local.dom().contains(o) && o != id && s.local[o].alias == alias
    ||| exists|o: Seq<char>| #[trigger]
        s.remote.dom().contains(o) && o != id && s.remote[o].alias == alias
}

/// Law: what a registration, an agent, a message or an announcement says reaches the mesh as
/// it stands in each of its fields.
pub proof fn law_fields_are_taken_as_they_stand(
    reg: RegisterReq,
    agent: AgentInfo,
    msg: MeshMessage,
    req: AnnounceReq,
    resp: AnnounceResp,
)
    ensures
        reg@.id == reg.id@ && reg@.alias == reg.alias@ && reg@.cwd == reg.cwd@,
        reg@.title is Some <==> reg.title is Some,
        reg.title matches Some(t) ==> reg@.title == Some(t@),
        reg@.runtime is Some <==> reg.runtime is Some,
        reg.runtime matches Some(r) ==> reg@.runtime == Some(r@),
        agent@.id == agent.id@ && agent@.alias == agent.alias@ && agent@.cwd == agent.cwd@,
        agent@.addr == agent.addr@,
        agent@.title is Some <==> agent.title is Some,
        agent.title matches Some(t) ==> agent@.title == Some(t@),
        agent@.runtime is Some <==> agent.runtime is Some,
        agent.runtime matches Some(r) ==> agent@.runtime == Some(r@),
        msg@.from == msg.from@ && msg@.to == msg.to@ && msg@.id == msg.id@,
        msg@.kind == msg.kind@ && msg@.body == msg.body@ && msg@.from_agent == msg.from_agent@,
        req@.protocol == req.protocol && req@.addr == req.addr@,
        req@.agents.len() == req.agents@.len(),
        forall|i: int| 0 <= i < req.agents@.len() ==> #[trigger] req@.agents[i] == req.agents@[i]@,
        resp@.protocol == resp.protocol && resp@.addr == resp.addr@,
        resp@.agents.len() == resp.agents@.len(),
        forall|i: int|
            0 <= i < resp.agents@.len() ==> #[trigger] resp@.agents[i] == resp.agents@[i]@,
        resp@.peers.len() == resp.peers@.len(),
        forall|i: int| 0 <= i < resp.peers@.len() ==> #[trigger] resp@.peers[i] == resp.peers@[i]@,
{
}

/// Law: a service starts without agents, messages or requests, with the peers that it was
/// given; at the configured address, which then stays, or else at its machine and port.
pub proof fn law_service_starts_empty<W>(
    machine: Seq<char>,
    port: u16,
    advertise: Option<Seq<char>>,
    peers: Seq<Seq<char>>,
    any: Seq<char>,
)
    ensures
        ({
            let s = state::started::<W>(machine, port, advertise, peers);
            &&& s.machine == machine
            &&& advertise matches Some(a) ==> s.advertise == a && s.advertise_locked
            &&& advertise is None ==> !s.advertise_locked && s.advertise == machine + ":"@
                + crate::text::decimal(port as nat)
            &&& !s.local.contains_key(any)
            &&& !s.remote.contains_key(any)
            &&& !s.queues.contains_key(any)
            &&& !s.waiters.contains_key(any)
            &&& s.peers.contains(any) <==> peers.contains(any)
        }),
{
    reveal_strlit(":");
    assert(":"@ =~= seq![':']);
}

/// Law: an alias is taken exactly if an agent with another id goes by it, here or at a peer.
pub proof fn law_alias_is_taken_by_others<W>(s: MeshView<W>, id: Seq<char>, alias: Seq<char>)
    ensures
        s.alias_taken(id, alias) <==> held_by_another(s, id, alias),
{
    if s.alias_taken(id, alias) {
        if exists|o: Seq<char>| #[trigger]
            s.local.contains_key(o) && o != id && s.local[o].alias == alias {
            let o = choose|o: Seq<char>| #[trigger]
                s.local.contains_key(o) && o != id && s.local[o].alias == alias;
            assert(s.local.dom().contains(o));
        } else {
            let o = choose|o: Seq<char>| #[trigger]
                s.remote.contains_key(o) && o != id && s.remote[o].alias == alias;
            assert(s.remote.dom().contains(o));
        }
    }
    if held_by_another(s, id, alias) {
        if exists|o: Seq<char>| #[trigger]
            s.local.dom().contains(o) && o != id && s.local[o].alias == alias {
            let o = choose|o: Seq<char>| #[trigger]
                s.local.dom().contains(o) && o != id && s.local[o].alias == alias;
            assert(s.local.contains_key(o));
        } else {
            let o = choose|o: Seq<char>| #[trigger]
                s.remote.dom().contains(o) && o != id && s.remote[o].alias == alias;
            assert(s.remote.contains_key(o));
        }
    }
}

/// Law: after an accepted registration the agent under the registered id has the alias, the
/// title, the directory and the runtime of the registration, and the time at which it came.
pub proof fn law_registered_agent_is_as_it_registered<W>(
    s: MeshView<W>,
    req: RegisterView,
    now: u64,
)
    requires
        !held_by_another(s, req.id, req.alias),
    ensures
        s.register(req, now).local.contains_key(req.id),
        s.register(req, now).local[req.id].alias == req.alias,
        s.register(req, now).local[req.id].title == req.title,
        s.register(req, now).local[req.id].cwd == req.cwd,
        s.register(req, now).local[req.id].runtime == req.runtime,
        s.register(req, now).local[req.id].last_seen == now,
{
    law_alias_is_taken_by_others(s, req.id, req.alias);
}

/// Law: an accepted registration keeps the messages that wait for the agent, takes the agent
/// from those of peers, and leaves all else alone. A refused one leaves everything alone.
pub proof fn law_registration_touches_one_agent<W>(
    s: MeshView<W>,
    req: RegisterView,
    now: u64,
    other: Seq<char>,
)
    ensures
        held_by_another(s, req.id, req.alias) ==> s.register(req, now) == s,
        !held_by_another(s, req.id, req.alias) ==> {
            let t = s.register(req, now);
            &&& !t.remote.contains_key(req.id)
            &&& t.queues.contains_key(req.id)
            &&& s.queues.contains_key(req.id) ==> t.queues[req.id] == s.queues[req.id]
            &&& !s.queues.contains_key(req.id) ==> t.queues[req.id].len() == 0
            &&& other != req.id ==> {
                &&& t.local.contains_key(other) <==> s.local.contains_key(other)
                &&& s.local.contains_key(other) ==> t.local[other] == s.local[other]
                &&& t.remote.contains_key(other) <==> s.remote.contains_key(other)
                &&& s.remote.contains_key(other) ==> t.remote[other] == s.remote[other]
                &&& t.queues.contains_key(other) <==> s.queues.contains_key(other)
                &&& s.queues.contains_key(other) ==> t.queues[other] == s.queues[other]
            }
            &&& t.peers == s.peers
            &&& t.waiters == s.waiters
            &&& t.advertise == s.advertise
            &&& t.advertise_locked == s.advertise_locked
            &&& t.machine == s.machine
        },
{
    law_alias_is_taken_by_others(s, req.id, req.alias);
}

/// Law: an agent that leaves takes its registration and its messages with it, and nothing
/// else.
pub proof fn law_leaving_touches_one_agent<W>(s: MeshView<W>, id: Seq<char>, other: Seq<char>)
    ensures
        ({
            let t = s.unregister(id);
            &&& !t.local.contains_key(id)
            &&& !t.queues.contains_key(id)
            &&& other != id ==> {
                &&& t.local.contains_key(other) <==> s.local.contains_key(other)
                &&& s.local.contains_key(other) ==> t.local[other] == s.local[other]
                &&& t.queues.contains_key(other) <==> s.queues.contains_key(other)
                &&& s.queues.contains_key(other) ==> t.queues[other] == s.queues[other]
            }
            &&& t.remote == s.remote
            &&& t.peers == s.peers
            &&& t.waiters == s.waiters
            &&& t.advertise == s.advertise
            &&& t.advertise_locked == s.advertise_locked
            &&& t.machine == s.machine
        }),
{
}

/// Law: naming a peer adds that peer and nothing else.
pub proof fn law_named_peer_is_added<W>(s: MeshView<W>, addr: Seq<char>, other: Seq<char>)
    ensures
        s.add_peer(addr).peers.contains(addr),
        other != addr ==> (s.add_peer(addr).peers.contains(other) <==> s.peers.contains(other)),
        s.add_peer(addr).local == s.local,
        s.add_peer(addr).remote == s.remote,
        s.add_peer(addr).queues == s.queues,
        s.add_peer(addr).waiters == s.waiters,
        s.add_peer(addr).advertise == s.advertise,
        s.add_peer(addr).advertise_locked == s.advertise_locked,
        s.add_peer(addr).machine == s.machine,
{
}

/// Law: a message that is taken in stands, whole, behind the messages of its addressee; a
/// message of kind `request`, and no other, waits for its answer under its id; nothing else
/// changes.
pub proof fn law_message_is_put_behind_the_others<W>(
    s: MeshView<W>,
    msg: MessageView,
    waiter: W,
    other: Seq<char>,
)
    ensures
        ({
            let t = s.route_local(msg, waiter);
            &&& t.queues.contains_key(msg.to)
            &&& s.queues.contains_key(msg.to) ==> t.queues[msg.to] == s.queues[msg.to].push(msg)
            &&& !s.queues.contains_key(msg.to) ==> t.queues[msg.to] == seq![msg]
            &&& other != msg.to ==> {
                &&& t.queues.contains_key(other) <==> s.queues.contains_key(other)
                &&& s.queues.contains_key(other) ==> t.queues[other] == s.queues[other]
            }
            &&& msg.kind == "request"@ ==> t.waiters == s.waiters.insert(msg.id, waiter)
            &&& msg.kind != "request"@ ==> t.waiters == s.waiters
            &&& t.local == s.local
            &&& t.remote == s.remote
            &&& t.peers == s.peers
            &&& t.advertise == s.advertise
            &&& t.advertise_locked == s.advertise_locked
            &&& t.machine == s.machine
        }),
{
    assert(Seq::<MessageView>::empty().push(msg) =~= seq![msg]);
}

/// Law: an agent that asks gets the first message that waits for it, and the others keep
/// waiting in their order; an agent for which none waits gets none, and nothing else changes.
pub proof fn law_first_message_is_taken<W>(s: MeshView<W>, agent: Seq<char>, other: Seq<char>)
    ensures
        ({
            let t = s.pop(agent);
            let some = s.queues.contains_key(agent) && s.queues[agent].len() > 0;
            &&& some ==> {
                &&& s.next_message(agent) == Some(s.queues[agent][0])
                &&& t.queues.contains_key(agent)
                &&& seq![s.queues[agent][0]] + t.queues[agent] == s.queues[agent]
            }
            &&& !some ==> s.next_message(agent) is None && t == s
            &&& other != agent ==> {
                &&& t.queues.contains_key(other) <==> s.queues.contains_key(other)
                &&& s.queues.contains_key(other) ==> t.queues[other] == s.queues[other]
            }
            &&& t.waiters == s.waiters
            &&& t.local == s.local
            &&& t.remote == s.remote
            &&& t.peers == s.peers
            &&& t.advertise == s.advertise
            &&& t.advertise_locked == s.advertise_locked
            &&& t.machine == s.machine
        }),
{
    if s.queues.contains_key(agent) && s.queues[agent].len() > 0 {
        assert(seq![s.queues[agent][0]] + s.pop(agent).queues[agent] =~= s.queues[agent]);
    }
}

/// Law: an answer finds exactly the request that waits under its id, and ends its wait;
/// nothing else changes.
pub proof fn law_answer_finds_its_request<W>(s: MeshView<W>, id: Seq<char>, other: Seq<char>)
    ensures
        s.waiters.contains_key(id) ==> s.waiter(id) == Some(s.waiters[id]),
        !s.waiters.contains_key(id) ==> s.waiter(id) is None,
        !s.reply(id).waiters.contains_key(id),
        other != id ==> {
            &&& s.reply(id).waiters.contains_key(other) <==> s.waiters.contains_key(other)
            &&& s.waiters.contains_key(other) ==> s.reply(id).waiters[other] == s.waiters[other]
        },
        s.reply(id).queues == s.queues,
        s.reply(id).local == s.local,
        s.reply(id).remote == s.remote,
        s.reply(id).peers == s.peers,
        s.reply(id).advertise == s.advertise,
        s.reply(id).advertise_locked == s.advertise_locked,
        s.reply(id).machine == s.machine,
{
}

/// Law: three seconds after its last registration, and no sooner, an agent is dropped with
/// its messages; all other agents, peers, messages and requests stay.
pub proof fn law_agent_is_dropped_after_three_seconds<W>(s: MeshView<W>, now: u64, id: Seq<char>)
    ensures
        ({
            let t = s.prune_stale(now);
            let late = s.local.contains_key(id) && now - s.local[id].last_seen > 3_000_000_000;
            &&& late ==> !t.local.contains_key(id) && !t.queues.contains_key(id)
                && !t.remote.contains_key(id)
            &&& !late ==> {
                &&& t.local.contains_key(id) <==> s.local.contains_key(id)
                &&& s.local.contains_key(id) ==> t.local[id] == s.local[id]
                &&& t.queues.contains_key(id) <==> s.queues.contains_key(id)
                &&& s.queues.contains_key(id) ==> t.queues[id] == s.queues[id]
                &&& t.remote.contains_key(id) <==> s.remote.contains_key(id)
                &&& s.remote.contains_key(id) ==> t.remote[id] == s.remote[id]
            }
            &&& t.peers == s.peers
            &&& t.waiters == s.waiters
            &&& t.advertise == s.advertise
            &&& t.advertise_locked == s.advertise_locked
            &&& t.machine == s.machine
        }),
{
}

/// Law: dropping a peer drops its address and the agents that are reached there, and nothing
/// else.
pub proof fn law_dropped_peer_takes_its_agents<W>(
    s: MeshView<W>,
    peer: Seq<char>,
    id: Seq<char>,
    other: Seq<char>,
)
    ensures
        ({
            let t = s.prune_peer(peer);
            &&& !t.peers.contains(peer)
            &&& other != peer ==> (t.peers.contains(other) <==> s.peers.contains(other))
            &&& t.remote.contains_key(id) <==> s.remote.contains_key(id) && s.remote[id].addr
                != peer
            &&& t.remote.contains_key(id) ==> t.remote[id] == s.remote[id]
            &&& t.local == s.local
            &&& t.queues == s.queues
            &&& t.waiters == s.waiters
            &&& t.advertise == s.advertise
            &&& t.advertise_locked == s.advertise_locked
            &&& t.machine == s.machine
        }),
{
}

/// Law: a named address becomes the address of the service unless that is configured; nothing
/// else changes.
pub proof fn law_named_address_is_taken<W>(s: MeshView<W>, addr: Seq<char>)
    ensures
        s.advertise_locked ==> s.advertise_as(addr).advertise == s.advertise,
        !s.advertise_locked ==> s.advertise_as(addr).advertise == addr,
        s.advertise_as(addr).advertise_locked == s.advertise_locked,
        s.advertise_as(addr).local == s.local,
        s.advertise_as(addr).remote == s.remote,
        s.advertise_as(addr).peers == s.peers,
        s.advertise_as(addr).queues == s.queues,
        s.advertise_as(addr).waiters == s.waiters,
        s.advertise_as(addr).machine == s.machine,
{
}

/// What is not told of, or is local, is not changed by what is taken over.
proof fn lemma_merged_untold(
    remote: Map<Seq<char>, RemoteAgentView>,
    local: Set<Seq<char>>,
    agents: Seq<AgentInfoView>,
    from: Seq<char>,
    peer: Seq<char>,
    own: Option<Seq<char>>,
    id: Seq<char>,
)
    requires
        local.contains(id) || forall|i: int|
            0 <= i < agents.len() ==> (#[trigger] agents[i]).id != id,
    ensures
        ({
            let m = mesh::merged(remote, local, agents, from, peer, own);
            m.contains_key(id) == remote.contains_key(id) && (remote.contains_key(id) ==> m[id]
                == remote[id])
        }),
    decreases agents.len(),
{
    if agents.len() > 0 {
        let front = agents.drop_last();
        if !local.contains(id) {
            assert forall|i: int| 0 <= i < front.len() implies (#[trigger] front[i]).id != id by {
                assert(front[i] == agents[i]);
            }
            assert(agents[agents.len() - 1].id != id);
        }
        lemma_merged_untold(remote, local, front, from, peer, own, id);
    }
}

/// The last entry of an agent that is not passed over decides what is kept of it.
proof fn lemma_merged_last_taken(
    remote: Map<Seq<char>, RemoteAgentView>,
    local: Set<Seq<char>>,
    agents: Seq<AgentInfoView>,
    from: Seq<char>,
    peer: Seq<char>,
    own: Seq<char>,
    i: int,
)
    requires
        0 <= i < agents.len(),
        !local.contains(agents[i].id),
        reached_at(agents[i], from, peer) != own,
        forall|j: int|
            i < j < agents.len() && (#[trigger] agents[j]).id == agents[i].id ==> reached_at(
                agents[j],
                from,
                peer,
            ) == own,
    ensures
        ({
            let m = mesh::merged(remote, local, agents, from, peer, Some(own));
            let id = agents[i].id;
            m.contains_key(id) && m[id] == (RemoteAgentView {
                alias: agents[i].alias,
                title: agents[i].title,
                cwd: agents[i].cwd,
                runtime: agents[i].runtime,
                addr: reached_at(agents[i], from, peer),
            })
        }),
    decreases agents.len(),
{
    if i < agents.len() - 1 {
        let front = agents.drop_last();
        assert(front[i] == agents[i]);
        assert forall|j: int|
            i < j < front.len() && (#[trigger] front[j]).id == front[i].id implies reached_at(
            front[j],
            from,
            peer,
        ) == own by {
            assert(front[j] == agents[j]);
        }
        lemma_merged_last_taken(remote, local, front, from, peer, own, i);
        let last = agents[agents.len() - 1];
        if last.id == agents[i].id {
            assert(reached_at(last, from, peer) == own);
        }
    }
}

/// What is only told of at the address of this service is not changed by what is taken over.
proof fn lemma_merged_passed_over(
    remote: Map<Seq<char>, RemoteAgentView>,
    local: Set<Seq<char>>,
    agents: Seq<AgentInfoView>,
    from: Seq<char>,
    peer: Seq<char>,
    own: Seq<char>,
    id: Seq<char>,
)
    requires
        forall|j: int|
            0 <= j < agents.len() && (#[trigger] agents[j]).id == id ==> reached_at(
                agents[j],
                from,
                peer,
            ) == own,
    ensures
        ({
            let m = mesh::merged(remote, local, agents, from, peer, Some(own));
            m.contains_key(id) == remote.contains_key(id) && (remote.contains_key(id) ==> m[id]
                == remote[id])
        }),
    decreases agents.len(),
{
    if agents.len() > 0 {
        let front = agents.drop_last();
        assert forall|j: int|
            0 <= j < front.len() && (#[trigger] front[j]).id == id implies reached_at(
            front[j],
            from,
            peer,
        ) == own by {
            assert(front[j] == agents[j]);
        }
        lemma_merged_passed_over(remote, local, front, from, peer, own, id);
        let last = agents[agents.len() - 1];
        if last.id == id {
            assert(reached_at(last, from, peer) == own);
        }
    }
}

/// Where an agent that a peer tells about is reached: at the peer, where it is the peer's own,
/// and else where the peer says.
pub open spec fn reached_at(a: AgentInfoView, from: Seq<char>, peer: Seq<char>) -> Seq<char> {
    if a.addr == from {
        peer
    } else {
        a.addr
    }
}

/// Whether a peer tells of an agent as its own.
pub open spec fn told_as_own(agents: Seq<AgentInfoView>, from: Seq<char>, id: Seq<char>) -> bool {
    exists|j: int|
        0 <= j < agents.len() && (#[trigger] agents[j]).id == id && agents[j].addr == from
}

/// Law: of each agent that an announcer tells about, and that is not of this machine, what it
/// says last is kept, field by field: its own agents at the address where it is reached, the
/// others at the address that it tells. One that it places at its own address without having
/// it is not kept.
pub proof fn law_heard_agent_is_kept_as_told<W>(
    s: MeshView<W>,
    req: AnnounceReqView,
    peer: Seq<char>,
    i: int,
)
    requires
        req.addr != s.advertise,
        0 <= i < req.agents.len(),
        forall|j: int| i < j < req.agents.len() ==> (#[trigger] req.agents[j]).id
            != req.agents[i].id,
        !s.local.contains_key(req.agents[i].id),
    ensures
        ({
            let told = req.agents[i];
            let t = s.hear(req, peer);
            let kept = t.remote[told.id];
            let live = told_as_own(req.agents, req.addr, told.id);
            &&& live || reached_at(told, req.addr, peer) != peer ==> {
                &&& t.remote.contains_key(told.id)
                &&& kept.alias == told.alias
                &&& kept.title == told.title
                &&& kept.cwd == told.cwd
                &&& kept.runtime == told.runtime
                &&& kept.addr == reached_at(told, req.addr, peer)
            }
            &&& !live && reached_at(told, req.addr, peer) == peer ==> !t.remote.contains_key(
                told.id,
            )
        }),
{
    laws::lemma_merged_last_word(s.remote, s.local.dom(), req.agents, req.addr, peer, None, i);
    let told = req.agents[i];
    assert(told_as_own(req.agents, req.addr, told.id) == mesh::told_live(
        req.agents,
        req.addr,
        told.id,
    ));
    if told.addr == req.addr {
        assert(told_as_own(req.agents, req.addr, told.id));
    }
}

/// Law: of each agent that an answerer tells about, and that is not of this machine, what it
/// says last is kept, field by field, but for what it places at the address of this service:
/// its own agents at the address where it is reached, the others at the address that it
/// tells. One that it places at its own address without having it is not kept.
pub proof fn law_learned_agent_is_kept_as_told<W>(
    s: MeshView<W>,
    peer: Seq<char>,
    resp: AnnounceRespView,
    i: int,
)
    requires
        resp.protocol == 3,
        0 <= i < resp.agents.len(),
        !s.local.contains_key(resp.agents[i].id),
        reached_at(resp.agents[i], resp.addr, peer) != s.advertise,
        forall|j: int|
            i < j < resp.agents.len() && (#[trigger] resp.agents[j]).id == resp.agents[i].id
                ==> reached_at(resp.agents[j], resp.addr, peer) == s.advertise,
    ensures
        ({
            let told = resp.agents[i];
            let t = s.learn(peer, resp);
            let kept = t.remote[told.id];
            let live = told_as_own(resp.agents, resp.addr, told.id);
            &&& live || reached_at(told, resp.addr, peer) != peer ==> {
                &&& t.remote.contains_key(told.id)
                &&& kept.alias == told.alias
                &&& kept.title == told.title
                &&& kept.cwd == told.cwd
                &&& kept.runtime == told.runtime
                &&& kept.addr == reached_at(told, resp.addr, peer)
            }
            &&& !live && reached_at(told, resp.addr, peer) == peer ==> !t.remote.contains_key(
                told.id,
            )
        }),
{
    lemma_merged_last_taken(
        s.remote,
        s.local.dom(),
        resp.agents,
        resp.addr,
        peer,
        s.advertise,
        i,
    );
    let told = resp.agents[i];
    assert(told_as_own(resp.agents, resp.addr, told.id) == mesh::told_live(
        resp.agents,
        resp.addr,
        told.id,
    ));
}

/// Law: an agent that an answerer tells about only at the address of this service stays as it
/// was, unless it was reached at the answerer, which does not have it.
pub proof fn law_agent_at_the_own_address_is_passed_over<W>(
    s: MeshView<W>,
    peer: Seq<char>,
    resp: AnnounceRespView,
    id: Seq<char>,
)
    requires
        resp.protocol == 3,
        forall|j: int|
            0 <= j < resp.agents.len() && (#[trigger] resp.agents[j]).id == id ==> reached_at(
                resp.agents[j],
                resp.addr,
                peer,
            ) == s.advertise,
    ensures
        s.learn(peer, resp).remote.contains_key(id) <==> s.remote.contains_key(id) && (
        s.remote[id].addr != peer || told_as_own(resp.agents, resp.addr, id)),
        s.learn(peer, resp).remote.contains_key(id) ==> s.learn(peer, resp).remote[id]
            == s.remote[id],
{
    lemma_merged_passed_over(
        s.remote,
        s.local.dom(),
        resp.agents,
        resp.addr,
        peer,
        s.advertise,
        id,
    );
    assert(told_as_own(resp.agents, resp.addr, id) == mesh::told_live(
        resp.agents,
        resp.addr,
        id,
    ));
}

/// Law: an agent that a peer does not tell about is dropped if it is reached at that peer, and
/// stays as it is otherwise.
pub proof fn law_untold_agent_is_dropped_with_its_peer<W>(
    s: MeshView<W>,
    peer: Seq<char>,
    req: AnnounceReqView,
    resp: AnnounceRespView,
    id: Seq<char>,
)
    ensures
        req.addr != s.advertise && (forall|i: int|
            0 <= i < req.agents.len() ==> (#[trigger] req.agents[i]).id != id) ==> {
            let t = s.hear(req, peer);
            &&& t.remote.contains_key(id) <==> s.remote.contains_key(id) && s.remote[id].addr
                != peer
            &&& t.remote.contains_key(id) ==> t.remote[id] == s.remote[id]
        },
        resp.protocol == 3 && (forall|i: int|
            0 <= i < resp.agents.len() ==> (#[trigger] resp.agents[i]).id != id) ==> {
            let t = s.learn(peer, resp);
            &&& t.remote.contains_key(id) <==> s.remote.contains_key(id) && s.remote[id].addr
                != peer
            &&& t.remote.contains_key(id) ==> t.remote[id] == s.remote[id]
        },
{
    if forall|i: int| 0 <= i < req.agents.len() ==> (#[trigger] req.agents[i]).id != id {
        lemma_merged_untold(s.remote, s.local.dom(), req.agents, req.addr, peer, None, id);
        assert(!mesh::told_live(req.agents, req.addr, id));
    }
    if forall|i: int| 0 <= i < resp.agents.len() ==> (#[trigger] resp.agents[i]).id != id {
        lemma_merged_untold(
            s.remote,
            s.local.dom(),
            resp.agents,
            resp.addr,
            peer,
            Some(s.advertise),
            id,
        );
        assert(!mesh::told_live(resp.agents, resp.addr, id));
    }
}

/// Law: an agent that is reached at a peer once that peer was heard is one that the peer told
/// about as its own.
pub proof fn law_agent_at_a_peer_was_told_by_it<W>(
    s: MeshView<W>,
    peer: Seq<char>,
    req: AnnounceReqView,
    resp: AnnounceRespView,
    id: Seq<char>,
)
    ensures
        req.addr != s.advertise && s.hear(req, peer).remote.contains_key(id) && s.hear(
            req,
            peer,
        ).remote[id].addr == peer ==> exists|i: int|
            0 <= i < req.agents.len() && (#[trigger] req.agents[i]).id == id
                && req.agents[i].addr == req.addr,
        resp.protocol == 3 && s.learn(peer, resp).remote.contains_key(id) && s.learn(
            peer,
            resp,
        ).remote[id].addr == peer ==> exists|i: int|
            0 <= i < resp.agents.len() && (#[trigger] resp.agents[i]).id == id
                && resp.agents[i].addr == resp.addr,
{
}

/// Law: an agent of this machine does not become one of a peer, whatever peers tell.
pub proof fn law_local_agent_stays_local<W>(
    s: MeshView<W>,
    peer: Seq<char>,
    req: AnnounceReqView,
    resp: AnnounceRespView,
    id: Seq<char>,
)
    requires
        s.local.contains_key(id),
        !s.remote.contains_key(id),
    ensures
        !s.hear(req, peer).remote.contains_key(id),
        !s.learn(peer, resp).remote.contains_key(id),
        s.hear(req, peer).local.contains_key(id),
        s.learn(peer, resp).local.contains_key(id),
{
    lemma_merged_untold(s.remote, s.local.dom(), req.agents, req.addr, peer, None, id);
    lemma_merged_untold(
        s.remote,
        s.local.dom(),
        resp.agents,
        resp.addr,
        peer,
        Some(s.advertise),
        id,
    );
}

/// Law: hearing an announcement makes the announcer a peer; taking over an answer makes the
/// answerer a peer, unless it answers with this service's address, and the peers that it
/// tells, but for this service itself. No other peer comes or goes.
pub proof fn law_peers_are_learned<W>(
    s: MeshView<W>,
    peer: Seq<char>,
    req: AnnounceReqView,
    resp: AnnounceRespView,
    p: Seq<char>,
)
    ensures
        req.addr != s.advertise ==> (s.hear(req, peer).peers.contains(p) <==> s.peers.contains(p)
            || p == peer),
        req.addr == s.advertise ==> s.hear(req, peer) == s,
        resp.protocol == 3 ==> (s.learn(peer, resp).peers.contains(p) <==> s.peers.contains(p) || (
        p == peer && resp.addr != s.advertise) || (p != s.advertise && exists|i: int|
            0 <= i < resp.peers.len() && #[trigger] resp.peers[i] == p)),
        resp.protocol != 3 ==> s.learn(peer, resp) == s,
{
}

/// Law: what peers say changes neither the address nor the machine of a service, nor its own
/// agents, messages and requests.
pub proof fn law_peers_change_only_what_is_theirs<W>(
    s: MeshView<W>,
    peer: Seq<char>,
    req: AnnounceReqView,
    resp: AnnounceRespView,
)
    ensures
        ({
            let t = s.hear(req, peer);
            &&& t.local == s.local
            &&& t.queues == s.queues
            &&& t.waiters == s.waiters
            &&& t.advertise == s.advertise
            &&& t.advertise_locked == s.advertise_locked
            &&& t.machine == s.machine
        }),
        ({
            let t = s.learn(peer, resp);
            &&& t.local == s.local
            &&& t.queues == s.queues
            &&& t.waiters == s.waiters
            &&& t.advertise == s.advertise
            &&& t.advertise_locked == s.advertise_locked
            &&& t.machine == s.machine
        }),
{
}

/// Law: an announcement is let in exactly if its caller is and it speaks version three of the
/// protocol; then it is heard from the address that the caller called from, with the port
/// that it advertises. Otherwise nothing changes.
pub proof fn law_announcement_is_heard_where_it_came_from<W>(
    s: MeshView<W>,
    authorized: bool,
    remote: Ip,
    req: AnnounceReqView,
)
    ensures
        MeshView::<W>::admits(authorized, req) <==> authorized && req.protocol == 3,
        authorized && req.protocol == 3 ==> s.announce(authorized, remote, req) == s.hear(
            req,
            address::socket_text(remote, address::advertised_port(req.addr)),
        ),
        !authorized || req.protocol != 3 ==> s.announce(authorized, remote, req) == s,
{
}

/// Law: an announcement tells each agent of this machine once, as it registered, and no other.
pub proof fn law_announcement_tells_the_local_agents<W>(s: MeshView<W>, req: AnnounceReqView)
    requires
        s.announces(req),
    ensures
        req.protocol == 3,
        req.addr == s.advertise,
        forall|id: Seq<char>| #[trigger] s.local.contains_key(id) ==> exists|i: int|
            0 <= i < req.agents.len() && tells_of_local(#[trigger] req.agents[i], s, id),
        forall|i: int|
            0 <= i < req.agents.len() ==> tells_of_local(
                #[trigger] req.agents[i],
                s,
                req.agents[i].id,
            ),
        forall|i: int, j: int|
            0 <= i < j < req.agents.len() ==> (#[trigger] req.agents[i]).id
                != (#[trigger] req.agents[j]).id,
{
    lemma_told_local(s, req.agents);
}

proof fn lemma_told_local<W>(s: MeshView<W>, agents: Seq<AgentInfoView>)
    requires
        s.tells_local(agents),
    ensures
        forall|id: Seq<char>| #[trigger] s.local.contains_key(id) ==> exists|i: int|
            0 <= i < agents.len() && tells_of_local(#[trigger] agents[i], s, id),
        forall|i: int|
            0 <= i < agents.len() ==> tells_of_local(#[trigger] agents[i], s, agents[i].id),
        forall|i: int, j: int|
            0 <= i < j < agents.len() ==> (#[trigger] agents[i]).id != (#[trigger] agents[j]).id,
{
    let ids = choose|ids: Seq<Seq<char>>| #[trigger]
        table::enumerates(ids, s.local.dom()) && agents == ids.map_values(
            |id: Seq<char>| s.local_info(id),
        );
    assert forall|id: Seq<char>| #[trigger] s.local.contains_key(id) implies exists|i: int|
        0 <= i < agents.len() && tells_of_local(#[trigger] agents[i], s, id) by {
        assert(s.local.dom().contains(id));
        let i = ids.index_of(id);
        assert(ids[i] == id);
        assert(tells_of_local(agents[i], s, id));
    }
    assert forall|i: int| 0 <= i < agents.len() implies tells_of_local(
        #[trigger] agents[i],
        s,
        agents[i].id,
    ) by {
        assert(ids.contains(ids[i]));
        assert(s.local.dom().contains(ids[i]));
    }
    assert forall|i: int, j: int| 0 <= i < j < agents.len() implies (#[trigger] agents[i]).id
        != (#[trigger] agents[j]).id by {
        assert(agents[i].id == ids[i] && agents[j].id == ids[j]);
    }
}

proof fn lemma_told_remote<W>(s: MeshView<W>, agents: Seq<AgentInfoView>)
    requires
        s.tells_remote(agents),
    ensures
        forall|id: Seq<char>| #[trigger] s.remote.contains_key(id) ==> exists|i: int|
            0 <= i < agents.len() && tells_of_remote(#[trigger] agents[i], s, id),
        forall|i: int|
            0 <= i < agents.len() ==> tells_of_remote(#[trigger] agents[i], s, agents[i].id),
        forall|i: int, j: int|
            0 <= i < j < agents.len() ==> (#[trigger] agents[i]).id != (#[trigger] agents[j]).id,
{
    let ids = choose|ids: Seq<Seq<char>>| #[trigger]
        table::enumerates(ids, s.remote.dom()) && agents == ids.map_values(
            |id: Seq<char>| s.remote_info(id),
        );
    assert forall|id: Seq<char>| #[trigger] s.remote.contains_key(id) implies exists|i: int|
        0 <= i < agents.len() && tells_of_remote(#[trigger] agents[i], s, id) by {
        assert(s.remote.dom().contains(id));
        let i = ids.index_of(id);
        assert(ids[i] == id);
        assert(tells_of_remote(agents[i], s, id));
    }
    assert forall|i: int| 0 <= i < agents.len() implies tells_of_remote(
        #[trigger] agents[i],
        s,
        agents[i].id,
    ) by {
        assert(ids.contains(ids[i]));
        assert(s.remote.dom().contains(ids[i]));
    }
    assert forall|i: int, j: int| 0 <= i < j < agents.len() implies (#[trigger] agents[i]).id
        != (#[trigger] agents[j]).id by {
        assert(agents[i].id == ids[i] && agents[j].id == ids[j]);
    }
}

/// Law: the answer to an announcement tells the address and the peers of this service, each
/// of its own agents, and each agent that it knows from peers at the address where it is
/// reached; it tells nothing else.
pub proof fn law_answer_tells_all_that_is_known<W>(s: MeshView<W>, resp: AnnounceRespView)
    requires
        s.answers(resp),
    ensures
        resp.protocol == 3,
        resp.addr == s.advertise,
        forall|p: Seq<char>| #[trigger] s.peers.contains(p) ==> exists|i: int|
            0 <= i < resp.peers.len() && #[trigger] resp.peers[i] == p,
        forall|i: int| 0 <= i < resp.peers.len() ==> s.peers.contains(#[trigger] resp.peers[i]),
        resp.peers.no_duplicates(),
        forall|id: Seq<char>| #[trigger] s.local.contains_key(id) ==> exists|i: int|
            0 <= i < resp.agents.len() && tells_of_local(#[trigger] resp.agents[i], s, id),
        forall|id: Seq<char>| #[trigger] s.remote.contains_key(id) ==> exists|i: int|
            0 <= i < resp.agents.len() && tells_of_remote(#[trigger] resp.agents[i], s, id),
        forall|i: int|
            0 <= i < resp.agents.len() ==> tells_of_local(
                #[trigger] resp.agents[i],
                s,
                resp.agents[i].id,
            ) || tells_of_remote(resp.agents[i], s, resp.agents[i].id),
{
    let (mine, theirs) = choose|mine: Seq<AgentInfoView>, theirs: Seq<AgentInfoView>| #[trigger]
        s.tells_local(mine) && #[trigger] s.tells_remote(theirs) && resp.agents == mine + theirs;
    lemma_told_local(s, mine);
    lemma_told_remote(s, theirs);
    assert forall|id: Seq<char>| #[trigger] s.local.contains_key(id) implies exists|i: int|
        0 <= i < resp.agents.len() && tells_of_local(#[trigger] resp.agents[i], s, id) by {
        let i = choose|i: int| 0 <= i < mine.len() && tells_of_local(#[trigger] mine[i], s, id);
        assert(resp.agents[i] == mine[i]);
    }
    assert forall|id: Seq<char>| #[trigger] s.remote.contains_key(id) implies exists|i: int|
        0 <= i < resp.agents.len() && tells_of_remote(#[trigger] resp.agents[i], s, id) by {
        let i = choose|i: int|
            0 <= i < theirs.len() && tells_of_remote(#[trigger] theirs[i], s, id);
        assert(resp.agents[mine.len() + i] == theirs[i]);
    }
    assert forall|i: int| 0 <= i < resp.agents.len() implies tells_of_local(
        #[trigger] resp.agents[i],
        s,
        resp.agents[i].id,
    ) || tells_of_remote(resp.agents[i], s, resp.agents[i].id) by {
        if i < mine.len() {
            assert(resp.agents[i] == mine[i]);
        } else {
            assert(resp.agents[i] == theirs[i - mine.len()]);
        }
    }
    assert forall|p: Seq<char>| #[trigger] s.peers.contains(p) implies exists|i: int|
        0 <= i < resp.peers.len() && #[trigger] resp.peers[i] == p by {
        assert(resp.peers.contains(p));
    }
    assert forall|i: int| 0 <= i < resp.peers.len() implies s.peers.contains(
        #[trigger] resp.peers[i],
    ) by {
        assert(resp.peers.contains(resp.peers[i]));
    }
}

/// Law: a name means the local agent with that id; where there is none, a local agent that
/// goes by it; and nobody only if neither an id nor an alias matches.
pub proof fn law_name_means_id_before_alias<W>(
    s: MeshView<W>,
    to: Seq<char>,
    r: Option<Seq<char>>,
)
    requires
        s.resolves_local(to, r),
    ensures
        s.local.contains_key(to) ==> r == Some(to),
        r matches Some(id) ==> s.local.contains_key(id) && (id == to || s.local[id].alias == to),
        r is None ==> !s.local.contains_key(to) && forall|id: Seq<char>| #[trigger]
            s.local.contains_key(id) ==> s.local[id].alias != to,
{
}

/// Law: among the agents of peers, too, a name means the agent with that id; where there is
/// none, one that goes by it; and nobody only if neither an id nor an alias matches.
pub proof fn law_remote_name_means_id_before_alias<W>(
    s: MeshView<W>,
    to: Seq<char>,
    r: Option<RemoteAgentView>,
)
    requires
        s.resolves_remote(to, r),
    ensures
        s.remote.contains_key(to) ==> r == Some(s.remote[to]),
        r matches Some(agent) ==> exists|id: Seq<char>| #[trigger]
            s.remote.contains_key(id) && s.remote[id] == agent && (id == to || agent.alias == to),
        r is None ==> !s.remote.contains_key(to) && forall|id: Seq<char>| #[trigger]
            s.remote.contains_key(id) ==> s.remote[id].alias != to,
{
}

/// Law: the sender of a message is described by the agent with that id, a local one before one
/// of a peer; else by an agent that goes by it, again a local one first; else by its name and
/// the directory alone.
pub proof fn law_sender_is_described_by_what_is_known<W>(
    s: MeshView<W>,
    from: Seq<char>,
    cwd: Seq<char>,
    r: AgentInfoView,
)
    requires
        s.describes_sender(from, cwd, r),
    ensures
        s.local.contains_key(from) ==> tells_of_local(r, s, from),
        !s.local.contains_key(from) && s.remote.contains_key(from) ==> tells_of_remote(r, s, from),
        !s.local.contains_key(from) && !s.remote.contains_key(from) ==> {
            let local = exists|id: Seq<char>| #[trigger]
                s.local.contains_key(id) && s.local[id].alias == from;
            let remote = exists|id: Seq<char>| #[trigger]
                s.remote.contains_key(id) && s.remote[id].alias == from;
            &&& local ==> r.alias == from && tells_of_local(r, s, r.id)
            &&& !local && remote ==> r.alias == from && tells_of_remote(r, s, r.id)
            &&& !local && !remote ==> told_as(r, from, from, None, cwd, None, Seq::empty())
        },
{
    reveal_strlit("");
    assert(""@ =~= Seq::empty());
}

} // verus!
