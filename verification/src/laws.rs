//! What holds of the mesh as a whole: laws that relate its steps to each other.

use crate::address::Ip;
use crate::json;
use crate::json::JsonView;
use crate::mesh;
use crate::mesh::MeshView;
use crate::message;
use crate::message::{
    AgentInfoView, AnnounceReqView, AnnounceRespView, MessageView, RegisterView, RemoteAgentView,
};
use crate::pages;
use crate::reply;
use crate::state;
use crate::table;
use vstd::prelude::*;

verus! {

/// A step that a service takes.
pub enum Step<W> {
    Register(RegisterView, u64),
    Unregister(Seq<char>),
    AddPeer(Seq<char>),
    RouteLocal(MessageView, W),
    Pop(Seq<char>),
    Reply(Seq<char>),
    PruneStale(u64),
    PrunePeer(Seq<char>),
    Announce(bool, Ip, AnnounceReqView),
    Learn(Seq<char>, AnnounceRespView),
    AdvertiseAs(Seq<char>),
}

/// The state after a step.
pub open spec fn after<W>(s: MeshView<W>, step: Step<W>) -> MeshView<W> {
    match step {
        Step::Register(req, now) => s.register(req, now),
        Step::Unregister(id) => s.unregister(id),
        Step::AddPeer(addr) => s.add_peer(addr),
        Step::RouteLocal(msg, waiter) => s.route_local(msg, waiter),
        Step::Pop(agent) => s.pop(agent),
        Step::Reply(id) => s.reply(id),
        Step::PruneStale(now) => s.prune_stale(now),
        Step::PrunePeer(peer) => s.prune_peer(peer),
        Step::Announce(authorized, remote, req) => s.announce(authorized, remote, req),
        Step::Learn(peer, resp) => s.learn(peer, resp),
        Step::AdvertiseAs(addr) => s.advertise_as(addr),
    }
}

/// The state after some steps.
pub open spec fn after_all<W>(s: MeshView<W>, steps: Seq<Step<W>>) -> MeshView<W>
    decreases steps.len(),
{
    if steps.len() == 0 {
        s
    } else {
        after(after_all(s, steps.drop_last()), steps.last())
    }
}

/// No agent is both local and of a peer; every local agent has a queue; no two local agents
/// go by one alias.
pub open spec fn consistent<W>(s: MeshView<W>) -> bool {
    &&& forall|id: Seq<char>| #[trigger] s.local.contains_key(id) ==> !s.remote.contains_key(id)
    &&& forall|id: Seq<char>| #[trigger] s.local.contains_key(id) ==> s.queues.contains_key(id)
    &&& forall|a: Seq<char>, b: Seq<char>| #[trigger]
        s.local.contains_key(a) && #[trigger] s.local.contains_key(b) && s.local[a].alias
            == s.local[b].alias ==> a == b
}

/// What a peer says last of an agent, among what is taken over.
spec fn word(
    local: Set<Seq<char>>,
    agents: Seq<AgentInfoView>,
    from: Seq<char>,
    peer: Seq<char>,
    own: Option<Seq<char>>,
    id: Seq<char>,
) -> Option<RemoteAgentView>
    decreases agents.len(),
{
    if agents.len() == 0 {
        None
    } else {
        let a = mesh::relocated(agents.last(), from, peer);
        if a.id == id && !local.contains(id) && own != Some(a.addr) {
            Some(mesh::remote_of(a))
        } else {
            word(local, agents.drop_last(), from, peer, own, id)
        }
    }
}

/// What is kept of an agent: what the peer says last of it, else what was known before.
proof fn lemma_merged_at(
    remote: Map<Seq<char>, RemoteAgentView>,
    local: Set<Seq<char>>,
    agents: Seq<AgentInfoView>,
    from: Seq<char>,
    peer: Seq<char>,
    own: Option<Seq<char>>,
    id: Seq<char>,
)
    ensures
        ({
            let m = mesh::merged(remote, local, agents, from, peer, own);
            match word(local, agents, from, peer, own, id) {
                Some(agent) => m.contains_key(id) && m[id] == agent && !local.contains(id),
                None => m.contains_key(id) == remote.contains_key(id) && (remote.contains_key(id)
                    ==> m[id] == remote[id]),
            }
        }),
    decreases agents.len(),
{
    if agents.len() > 0 {
        lemma_merged_at(remote, local, agents.drop_last(), from, peer, own, id);
    }
}

/// Taking over agents from a peer adds no id of a local agent.
proof fn lemma_merged_dom(
    remote: Map<Seq<char>, RemoteAgentView>,
    local: Set<Seq<char>>,
    agents: Seq<AgentInfoView>,
    from: Seq<char>,
    peer: Seq<char>,
    own: Option<Seq<char>>,
)
    ensures
        forall|id: Seq<char>| #[trigger]
            mesh::merged(remote, local, agents, from, peer, own).contains_key(id)
                ==> remote.contains_key(id) || !local.contains(id),
{
    assert forall|id: Seq<char>| #[trigger]
        mesh::merged(remote, local, agents, from, peer, own).contains_key(id) implies
        remote.contains_key(id) || !local.contains(id) by {
        lemma_merged_at(remote, local, agents, from, peer, own, id);
    }
}

/// Law: every step keeps a consistent state consistent.
pub proof fn law_steps_keep_consistency<W>(s: MeshView<W>, step: Step<W>)
    requires
        consistent(s),
    ensures
        consistent(after(s, step)),
{
    let t = after(s, step);
    match step {
        Step::Announce(authorized, remote, req) => {
            let peer = crate::address::socket_text(
                remote,
                crate::address::advertised_port(req.addr),
            );
            lemma_merged_dom(s.remote, s.local.dom(), req.agents, req.addr, peer, None);
        },
        Step::Learn(peer, resp) => {
            lemma_merged_dom(
                s.remote,
                s.local.dom(),
                resp.agents,
                resp.addr,
                peer,
                Some(s.advertise),
            );
        },
        Step::Register(req, now) => {
            if !s.alias_taken(req.id, req.alias) {
                assert forall|a: Seq<char>, b: Seq<char>| #[trigger]
                    t.local.contains_key(a) && #[trigger] t.local.contains_key(b)
                        && t.local[a].alias == t.local[b].alias implies a == b by {
                    if a != b {
                        if a == req.id {
                            assert(s.local.contains_key(b));
                        } else if b == req.id {
                            assert(s.local.contains_key(a));
                        } else {
                            assert(s.local.contains_key(a) && s.local.contains_key(b));
                        }
                    }
                }
            }
        },
        _ => {},
    }
}

/// Law: every state that a service reaches from its start is consistent.
pub proof fn law_reached_states_are_consistent<W>(
    machine: Seq<char>,
    port: u16,
    advertise: Option<Seq<char>>,
    peers: Seq<Seq<char>>,
    steps: Seq<Step<W>>,
)
    ensures
        consistent(after_all(state::started::<W>(machine, port, advertise, peers), steps)),
    decreases steps.len(),
{
    if steps.len() > 0 {
        law_reached_states_are_consistent(machine, port, advertise, peers, steps.drop_last());
        law_steps_keep_consistency(
            after_all(
                state::started::<W>(machine, port, advertise, peers),
                steps.drop_last(),
            ),
            steps.last(),
        );
    }
}

/// Law: a configured address stays the address of the service, whatever happens.
pub proof fn law_configured_address_stays<W>(s: MeshView<W>, steps: Seq<Step<W>>)
    requires
        s.advertise_locked,
    ensures
        after_all(s, steps).advertise == s.advertise,
        after_all(s, steps).advertise_locked,
    decreases steps.len(),
{
    if steps.len() > 0 {
        law_configured_address_stays(s, steps.drop_last());
    }
}

/// The address that connectors named last among some steps.
pub open spec fn last_named<W>(steps: Seq<Step<W>>) -> Option<Seq<char>>
    decreases steps.len(),
{
    if steps.len() == 0 {
        None
    } else {
        match steps.last() {
            Step::AdvertiseAs(addr) => Some(addr),
            _ => last_named(steps.drop_last()),
        }
    }
}

/// Law: the address of a service without a configured one is the address that connectors
/// named last, or the one that it had where they named none.
pub proof fn law_last_named_address_is_used<W>(s: MeshView<W>, steps: Seq<Step<W>>)
    requires
        !s.advertise_locked,
    ensures
        after_all(s, steps).advertise == (match last_named(steps) {
            Some(addr) => addr,
            None => s.advertise,
        }),
        !after_all(s, steps).advertise_locked,
    decreases steps.len(),
{
    if steps.len() > 0 {
        law_last_named_address_is_used(s, steps.drop_last());
    }
}

/// Law: in a consistent state a name means at most one local agent.
pub proof fn law_local_names_are_unambiguous<W>(
    s: MeshView<W>,
    to: Seq<char>,
    a: Option<Seq<char>>,
    b: Option<Seq<char>>,
)
    requires
        consistent(s),
        s.resolves_local(to, a),
        s.resolves_local(to, b),
    ensures
        a == b,
{
}

/// Law: a registration that is accepted makes the agent known by its id, and by its alias
/// unless that is the id of another local agent.
pub proof fn law_registered_agent_is_found<W>(
    s: MeshView<W>,
    req: RegisterView,
    now: u64,
    r: Option<Seq<char>>,
)
    requires
        !s.alias_taken(req.id, req.alias),
    ensures
        s.register(req, now).local[req.id] == mesh::registered_agent(req, now),
        s.register(req, now).resolves_local(req.id, r) ==> r == Some(req.id),
        s.register(req, now).resolves_local(req.alias, r) && !s.local.contains_key(req.alias)
            ==> r == Some(req.id),
{
    let t = s.register(req, now);
    assert(t.local.contains_key(req.id));
    if t.resolves_local(req.alias, r) && !s.local.contains_key(req.alias) && req.alias
        != req.id {
        assert(!t.local.contains_key(req.alias));
        match r {
            Some(id) => {
                if id != req.id {
                    assert(s.local.contains_key(id));
                }
            },
            None => {},
        }
    }
}

/// Law: a registration is refused exactly while another agent goes by its alias, and a
/// refused one changes nothing.
pub proof fn law_alias_is_held_by_one<W>(s: MeshView<W>, req: RegisterView, now: u64)
    ensures
        s.alias_taken(req.id, req.alias) ==> s.register(req, now) == s,
        !s.alias_taken(req.id, req.alias) ==> !s.register(req, now).alias_taken(
            req.id,
            req.alias,
        ),
        !s.alias_taken(req.id, req.alias) ==> forall|other: Seq<char>|
            other != req.id ==> #[trigger] s.register(req, now).alias_taken(other, req.alias),
{
    let t = s.register(req, now);
    if !s.alias_taken(req.id, req.alias) {
        if t.alias_taken(req.id, req.alias) {
            if exists|other: Seq<char>| #[trigger]
                t.local.contains_key(other) && other != req.id && t.local[other].alias
                    == req.alias {
                let other = choose|other: Seq<char>| #[trigger]
                    t.local.contains_key(other) && other != req.id && t.local[other].alias
                        == req.alias;
                assert(s.local.contains_key(other));
            } else {
                let other = choose|other: Seq<char>| #[trigger]
                    t.remote.contains_key(other) && other != req.id && t.remote[other].alias
                        == req.alias;
                assert(s.remote.contains_key(other));
            }
        }
        assert(t.local.contains_key(req.id) && t.local[req.id].alias == req.alias);
    }
}

/// Law: leaving undoes the registration of an agent that was not known before.
pub proof fn law_unregister_undoes_register<W>(s: MeshView<W>, req: RegisterView, now: u64)
    requires
        !s.alias_taken(req.id, req.alias),
        !s.local.contains_key(req.id),
        !s.remote.contains_key(req.id),
        !s.queues.contains_key(req.id),
    ensures
        s.register(req, now).unregister(req.id) == s,
{
    let t = s.register(req, now).unregister(req.id);
    assert(t.local =~= s.local);
    assert(t.remote =~= s.remote);
    assert(t.queues =~= s.queues);
}

/// Law: an agent that left is neither found by its id nor given messages.
pub proof fn law_unregistered_agent_is_gone<W>(s: MeshView<W>, id: Seq<char>, agent: Seq<char>)
    ensures
        !s.unregister(id).local.contains_key(id),
        s.unregister(id).next_message(id) is None,
        agent != id ==> s.unregister(id).queue(agent) == s.queue(agent),
{
}

/// The state after messages were taken in, in order.
pub open spec fn taken_in<W>(s: MeshView<W>, msgs: Seq<MessageView>, waiters: Seq<W>) -> MeshView<W>
    decreases msgs.len(),
{
    if msgs.len() == 0 {
        s
    } else {
        taken_in(s, msgs.drop_last(), waiters.drop_last()).route_local(msgs.last(), waiters.last())
    }
}

/// The state after an agent asked for its next message `n` times.
pub open spec fn popped<W>(s: MeshView<W>, agent: Seq<char>, n: nat) -> MeshView<W>
    decreases n,
{
    if n == 0 {
        s
    } else {
        popped(s, agent, (n - 1) as nat).pop(agent)
    }
}

proof fn lemma_taken_in<W>(
    s: MeshView<W>,
    agent: Seq<char>,
    msgs: Seq<MessageView>,
    waiters: Seq<W>,
)
    requires
        msgs.len() == waiters.len(),
        forall|i: int| 0 <= i < msgs.len() ==> (#[trigger] msgs[i]).to == agent,
    ensures
        taken_in(s, msgs, waiters).queue(agent) == s.queue(agent) + msgs,
    decreases msgs.len(),
{
    if msgs.len() == 0 {
        assert(s.queue(agent) + msgs =~= s.queue(agent));
    } else {
        lemma_taken_in(s, agent, msgs.drop_last(), waiters.drop_last());
        assert(msgs.last().to == agent);
        assert((s.queue(agent) + msgs.drop_last()).push(msgs.last()) =~= s.queue(agent) + msgs);
    }
}

proof fn lemma_popped<W>(s: MeshView<W>, agent: Seq<char>, n: nat)
    requires
        n <= s.queue(agent).len(),
    ensures
        popped(s, agent, n).queue(agent) == s.queue(agent).skip(n as int),
    decreases n,
{
    if n == 0 {
        assert(s.queue(agent).skip(0) =~= s.queue(agent));
    } else {
        lemma_popped(s, agent, (n - 1) as nat);
        assert(s.queue(agent).skip(n - 1).drop_first() =~= s.queue(agent).skip(n as int));
    }
}

/// Law: an agent gets its messages in the order in which they were taken in, each once:
/// those that waited already, then the new ones, then none.
pub proof fn law_messages_come_in_order<W>(
    s: MeshView<W>,
    agent: Seq<char>,
    msgs: Seq<MessageView>,
    waiters: Seq<W>,
    n: nat,
)
    requires
        msgs.len() == waiters.len(),
        forall|i: int| 0 <= i < msgs.len() ==> (#[trigger] msgs[i]).to == agent,
        n <= s.queue(agent).len() + msgs.len(),
    ensures
        popped(taken_in(s, msgs, waiters), agent, n).next_message(agent) == (if n < s.queue(
            agent,
        ).len() + msgs.len() {
            Some((s.queue(agent) + msgs)[n as int])
        } else {
            None
        }),
{
    lemma_taken_in(s, agent, msgs, waiters);
    lemma_popped(taken_in(s, msgs, waiters), agent, n);
}

/// Law: what is taken in for one agent, or taken out by it, leaves the messages of the
/// others alone.
pub proof fn law_queues_are_separate<W>(
    s: MeshView<W>,
    msg: MessageView,
    waiter: W,
    agent: Seq<char>,
    other: Seq<char>,
)
    ensures
        msg.to != other ==> s.route_local(msg, waiter).queue(other) == s.queue(other),
        agent != other ==> s.pop(agent).queue(other) == s.queue(other),
{
}

/// Law: a request that was taken in is answered by an answer with its id, once. Other
/// messages wait for no answer, and other requests keep waiting.
pub proof fn law_request_is_answered_once<W>(
    s: MeshView<W>,
    msg: MessageView,
    waiter: W,
    other: Seq<char>,
)
    ensures
        message::asks(msg.kind) ==> s.route_local(msg, waiter).waiter(msg.id) == Some(waiter),
        !message::asks(msg.kind) ==> s.route_local(msg, waiter).waiters == s.waiters,
        s.reply(msg.id).waiter(msg.id) is None,
        other != msg.id ==> s.route_local(msg, waiter).waiter(other) == s.waiter(other),
        other != msg.id ==> s.reply(msg.id).waiter(other) == s.waiter(other),
{
}

/// Whether a step answers the request `id`, or puts another request in its place.
pub open spec fn settles<W>(step: Step<W>, id: Seq<char>) -> bool {
    match step {
        Step::Reply(answered) => answered == id,
        Step::RouteLocal(msg, _) => message::asks(msg.kind) && msg.id == id,
        _ => false,
    }
}

/// Law: a request waits, whatever happens, until it is answered or another request with its
/// id comes.
pub proof fn law_request_waits_until_answered<W>(
    s: MeshView<W>,
    id: Seq<char>,
    steps: Seq<Step<W>>,
)
    requires
        forall|i: int| 0 <= i < steps.len() ==> !settles(#[trigger] steps[i], id),
    ensures
        after_all(s, steps).waiter(id) == s.waiter(id),
    decreases steps.len(),
{
    if steps.len() > 0 {
        let front = steps.drop_last();
        assert forall|i: int| 0 <= i < front.len() implies !settles(#[trigger] front[i], id) by {
            assert(front[i] == steps[i]);
        }
        law_request_waits_until_answered(s, id, front);
        assert(!settles(steps[steps.len() - 1], id));
    }
}

/// Whether a step takes messages of `agent` away: the agent gets one, it leaves, or it is
/// dropped.
pub open spec fn takes_from<W>(s: MeshView<W>, step: Step<W>, agent: Seq<char>) -> bool {
    match step {
        Step::Pop(who) => who == agent,
        Step::Unregister(who) => who == agent,
        Step::PruneStale(now) => s.is_stale(agent, now),
        _ => false,
    }
}

/// Law: the messages of an agent keep waiting, in their order and in front of new ones, until
/// the agent gets one, leaves, or is dropped.
pub proof fn law_messages_wait_for_their_agent<W>(
    s: MeshView<W>,
    step: Step<W>,
    agent: Seq<char>,
)
    requires
        !takes_from(s, step, agent),
    ensures
        s.queue(agent).is_prefix_of(after(s, step).queue(agent)),
{
    let t = after(s, step);
    if t.queue(agent).len() == s.queue(agent).len() {
        assert(t.queue(agent) == s.queue(agent));
    } else {
        assert(t.queue(agent).drop_last() =~= s.queue(agent));
    }
}

/// Law: a body that a service answers to a peer is the body that the peer takes out of the
/// answer.
pub proof fn law_answer_crosses_peers(body: JsonView)
    ensures
        reply::network_answer(Ok(body)).body == reply::ReplyBodyView::Json(
            reply::ok_body_json(body),
        ),
        reply::ok_body_json(body).get("body"@) == Some(body),
{
    reveal_strlit("ok");
    reveal_strlit("body");
    let fields = seq![("ok"@, JsonView::Bool(true)), ("body"@, body)];
    assert("ok"@.len() != "body"@.len());
    assert(fields.drop_first()[0] == ("body"@, body));
    reveal_with_fuel(json::field, 3);
}

/// An entry after which no entry has the same id.
pub open spec fn last_word(agents: Seq<AgentInfoView>, i: int) -> bool {
    &&& 0 <= i < agents.len()
    &&& forall|j: int| i < j < agents.len() ==> (#[trigger] agents[j]).id != agents[i].id
}

/// The last word that is said of an agent decides what is kept of it.
pub proof fn lemma_merged_last_word(
    remote: Map<Seq<char>, RemoteAgentView>,
    local: Set<Seq<char>>,
    agents: Seq<AgentInfoView>,
    from: Seq<char>,
    peer: Seq<char>,
    own: Option<Seq<char>>,
    i: int,
)
    requires
        last_word(agents, i),
        !local.contains(agents[i].id),
        own != Some(mesh::relocated(agents[i], from, peer).addr),
    ensures
        mesh::merged(remote, local, agents, from, peer, own).contains_key(agents[i].id),
        mesh::merged(remote, local, agents, from, peer, own)[agents[i].id] == mesh::remote_of(
            mesh::relocated(agents[i], from, peer),
        ),
    decreases agents.len(),
{
    if i < agents.len() - 1 {
        let front = agents.drop_last();
        assert(front[i] == agents[i]);
        assert forall|j: int| i < j < front.len() implies (#[trigger] front[j]).id
            != front[i].id by {
            assert(front[j] == agents[j]);
        }
        lemma_merged_last_word(remote, local, front, from, peer, own, i);
        assert(agents.last().id != agents[i].id);
    }
}

/// Law: after an announcement was heard, the agents reached at the announcer are agents
/// that it told about as its own.
pub proof fn law_heard_peer_has_only_live_agents<W>(
    s: MeshView<W>,
    req: AnnounceReqView,
    peer: Seq<char>,
    id: Seq<char>,
)
    requires
        req.addr != s.advertise,
        s.hear(req, peer).remote.contains_key(id),
        s.hear(req, peer).remote[id].addr == peer,
    ensures
        mesh::told_live(req.agents, req.addr, id),
        s.hear(req, peer).peers.contains(peer),
{
}

/// Law: after an answer to an announcement was taken over, the agents reached at the
/// answerer are agents that it told about as its own.
pub proof fn law_learned_peer_has_only_live_agents<W>(
    s: MeshView<W>,
    peer: Seq<char>,
    resp: AnnounceRespView,
    id: Seq<char>,
)
    requires
        resp.protocol == message::PROTOCOL_VERSION,
        s.learn(peer, resp).remote.contains_key(id),
        s.learn(peer, resp).remote[id].addr == peer,
    ensures
        mesh::told_live(resp.agents, resp.addr, id),
{
}

/// Taking over the same agents again changes nothing.
proof fn lemma_merged_again(
    remote: Map<Seq<char>, RemoteAgentView>,
    local: Set<Seq<char>>,
    agents: Seq<AgentInfoView>,
    from: Seq<char>,
    peer: Seq<char>,
    own: Option<Seq<char>>,
)
    ensures
        ({
            let once = mesh::less_departed(
                mesh::merged(remote, local, agents, from, peer, own),
                agents,
                from,
                peer,
            );
            mesh::less_departed(
                mesh::merged(once, local, agents, from, peer, own),
                agents,
                from,
                peer,
            ) == once
        }),
{
    let first = mesh::merged(remote, local, agents, from, peer, own);
    let once = mesh::less_departed(first, agents, from, peer);
    let second = mesh::merged(once, local, agents, from, peer, own);
    let twice = mesh::less_departed(second, agents, from, peer);
    assert forall|id: Seq<char>|
        #![trigger twice.dom().contains(id)]
        #![trigger once.dom().contains(id)]
        twice.dom().contains(id) == once.dom().contains(id) && (once.dom().contains(id)
            ==> twice[id] == once[id]) by {
        lemma_merged_at(remote, local, agents, from, peer, own, id);
        lemma_merged_at(once, local, agents, from, peer, own, id);
    }
    assert(twice =~= once);
}

/// Law: hearing an announcement again, or taking over an answer again, changes nothing.
pub proof fn law_repetition_changes_nothing<W>(
    s: MeshView<W>,
    req: AnnounceReqView,
    peer: Seq<char>,
    resp: AnnounceRespView,
)
    ensures
        s.hear(req, peer).hear(req, peer) == s.hear(req, peer),
        s.learn(peer, resp).learn(peer, resp) == s.learn(peer, resp),
{
    lemma_merged_again(s.remote, s.local.dom(), req.agents, req.addr, peer, None);
    lemma_merged_again(
        s.remote,
        s.local.dom(),
        resp.agents,
        resp.addr,
        peer,
        Some(s.advertise),
    );
    assert(s.hear(req, peer).hear(req, peer).peers =~= s.hear(req, peer).peers);
    assert(s.learn(peer, resp).learn(peer, resp).peers =~= s.learn(peer, resp).peers);
}

/// Law: what peers say changes nothing about the agents of this machine, their messages, or
/// the requests that wait.
pub proof fn law_peers_do_not_touch_local_state<W>(
    s: MeshView<W>,
    authorized: bool,
    remote: Ip,
    req: AnnounceReqView,
    peer: Seq<char>,
    resp: AnnounceRespView,
)
    ensures
        s.announce(authorized, remote, req).local == s.local,
        s.announce(authorized, remote, req).queues == s.queues,
        s.announce(authorized, remote, req).waiters == s.waiters,
        s.learn(peer, resp).local == s.local,
        s.learn(peer, resp).queues == s.queues,
        s.learn(peer, resp).waiters == s.waiters,
{
}

/// Law: an announcement that is not authorized, is of another protocol, or bears this
/// service's own address changes nothing.
pub proof fn law_refused_announcement_changes_nothing<W>(
    s: MeshView<W>,
    authorized: bool,
    remote: Ip,
    req: AnnounceReqView,
)
    requires
        !authorized || req.protocol != message::PROTOCOL_VERSION || req.addr == s.advertise,
    ensures
        s.announce(authorized, remote, req) == s,
{
}

/// Law: a service that hears the announcement of another knows the local agents of the
/// other, at the address where it reaches the other, but for ids that it has itself.
pub proof fn law_announced_agents_are_known<V, W>(
    announcer: MeshView<V>,
    req: AnnounceReqView,
    s: MeshView<W>,
    peer: Seq<char>,
    id: Seq<char>,
)
    requires
        announcer.announces(req),
        announcer.advertise != s.advertise,
        announcer.local.contains_key(id),
        !s.local.contains_key(id),
    ensures
        s.hear(req, peer).remote.contains_key(id),
        s.hear(req, peer).remote[id] == mesh::remote_of(
            AgentInfoView { addr: peer, ..announcer.local_info(id) },
        ),
{
    let ids = choose|ids: Seq<Seq<char>>| #[trigger]
        table::enumerates(ids, announcer.local.dom()) && req.agents == ids.map_values(
            |id: Seq<char>| announcer.local_info(id),
        );
    assert(announcer.local.dom().contains(id));
    let i = ids.index_of(id);
    assert(ids[i] == id && req.agents[i] == announcer.local_info(id));
    assert forall|j: int| i < j < req.agents.len() implies (#[trigger] req.agents[j]).id
        != req.agents[i].id by {
        assert(req.agents[j].id == ids[j]);
    }
    lemma_merged_last_word(s.remote, s.local.dom(), req.agents, req.addr, peer, None, i);
    assert(mesh::told_live(req.agents, req.addr, id));
}

/// Law: a service that gets the answer to its announcement knows the local agents of the
/// answerer, at the address where it reaches the answerer, but for ids that it has itself.
pub proof fn law_answered_agents_are_known<V, W>(
    answerer: MeshView<V>,
    resp: AnnounceRespView,
    s: MeshView<W>,
    peer: Seq<char>,
    id: Seq<char>,
)
    requires
        consistent(answerer),
        answerer.answers(resp),
        peer != s.advertise,
        answerer.local.contains_key(id),
        !s.local.contains_key(id),
    ensures
        s.learn(peer, resp).remote.contains_key(id),
        s.learn(peer, resp).remote[id] == mesh::remote_of(
            AgentInfoView { addr: peer, ..answerer.local_info(id) },
        ),
{
    let (mine, theirs) = choose|mine: Seq<AgentInfoView>, theirs: Seq<AgentInfoView>| #[trigger]
        answerer.tells_local(mine) && #[trigger] answerer.tells_remote(theirs) && resp.agents
            == mine + theirs;
    let ids = choose|ids: Seq<Seq<char>>| #[trigger]
        table::enumerates(ids, answerer.local.dom()) && mine == ids.map_values(
            |id: Seq<char>| answerer.local_info(id),
        );
    let others = choose|ids: Seq<Seq<char>>| #[trigger]
        table::enumerates(ids, answerer.remote.dom()) && theirs == ids.map_values(
            |id: Seq<char>| answerer.remote_info(id),
        );
    assert(answerer.local.dom().contains(id));
    let i = ids.index_of(id);
    assert(ids[i] == id && mine[i] == answerer.local_info(id));
    assert(resp.agents[i] == mine[i]);
    assert forall|j: int| i < j < resp.agents.len() implies (#[trigger] resp.agents[j]).id
        != resp.agents[i].id by {
        if j < mine.len() {
            assert(resp.agents[j] == mine[j]);
            assert(mine[j].id == ids[j]);
        } else {
            let k = j - mine.len();
            assert(resp.agents[j] == theirs[k]);
            assert(theirs[k].id == others[k]);
            assert(others.contains(others[k]));
            assert(answerer.remote.dom().contains(others[k]));
        }
    }
    lemma_merged_last_word(
        s.remote,
        s.local.dom(),
        resp.agents,
        resp.addr,
        peer,
        Some(s.advertise),
        i,
    );
    assert(mesh::told_live(resp.agents, resp.addr, id));
}

/// Law: a service never takes its own address for that of a peer from what a peer answers,
/// nor an agent that is reached at its own address.
pub proof fn law_own_address_is_not_learned<W>(
    s: MeshView<W>,
    peer: Seq<char>,
    resp: AnnounceRespView,
    id: Seq<char>,
)
    requires
        peer != s.advertise,
    ensures
        !s.peers.contains(s.advertise) ==> !s.learn(peer, resp).peers.contains(s.advertise),
        s.learn(peer, resp).remote.contains_key(id) && s.learn(peer, resp).remote[id].addr
            == s.advertise ==> s.remote.contains_key(id) && s.remote[id] == s.learn(
            peer,
            resp,
        ).remote[id],
{
    lemma_merged_own(
        s.remote,
        s.local.dom(),
        resp.agents,
        resp.addr,
        peer,
        s.advertise,
        id,
    );
}

proof fn lemma_merged_own(
    remote: Map<Seq<char>, RemoteAgentView>,
    local: Set<Seq<char>>,
    agents: Seq<AgentInfoView>,
    from: Seq<char>,
    peer: Seq<char>,
    own: Seq<char>,
    id: Seq<char>,
)
    ensures
        ({
            let m = mesh::merged(remote, local, agents, from, peer, Some(own));
            m.contains_key(id) && m[id].addr == own ==> remote.contains_key(id) && remote[id]
                == m[id]
        }),
    decreases agents.len(),
{
    if agents.len() > 0 {
        lemma_merged_own(remote, local, agents.drop_last(), from, peer, own, id);
    }
}

/// Law: after a peer was found unreachable, neither it nor an agent reached through it is
/// known, and the other agents are as before.
pub proof fn law_pruned_peer_is_gone<W>(s: MeshView<W>, peer: Seq<char>, id: Seq<char>)
    ensures
        !s.prune_peer(peer).peers.contains(peer),
        s.prune_peer(peer).remote.contains_key(id) <==> s.remote.contains_key(id)
            && s.remote[id].addr != peer,
        s.prune_peer(peer).remote.contains_key(id) ==> s.prune_peer(peer).remote[id]
            == s.remote[id],
        s.prune_peer(peer).local == s.local,
{
}

/// Law: pruning at a time keeps exactly the local agents that registered no more than the
/// allowed while before, each with its messages; pruning again changes nothing.
pub proof fn law_pruning_keeps_the_fresh<W>(s: MeshView<W>, now: u64, id: Seq<char>)
    ensures
        s.prune_stale(now).local.contains_key(id) <==> s.local.contains_key(id) && now
            - s.local[id].last_seen <= mesh::STALE_AFTER_NANOS,
        s.prune_stale(now).local.contains_key(id) ==> s.prune_stale(now).local[id]
            == s.local[id] && s.prune_stale(now).queue(id) == s.queue(id),
        s.prune_stale(now).prune_stale(now) == s.prune_stale(now),
{
    let t = s.prune_stale(now);
    assert forall|k: Seq<char>| !t.is_stale(k, now) by {}
    let none = Set::new(|k: Seq<char>| t.is_stale(k, now));
    assert(none =~= Set::empty());
    assert(t.prune_stale(now).local =~= t.local);
    assert(t.prune_stale(now).queues =~= t.queues);
    assert(t.prune_stale(now).remote =~= t.remote);
}

/// Law: a registration keeps the agent from being pruned until the allowed while is over.
pub proof fn law_registration_keeps_agent_alive<W>(
    s: MeshView<W>,
    req: RegisterView,
    now: u64,
    later: u64,
)
    requires
        !s.alias_taken(req.id, req.alias),
        later - now <= mesh::STALE_AFTER_NANOS,
    ensures
        s.register(req, now).prune_stale(later).local.contains_key(req.id),
{
}

/// Law: once a service has heard the announcement of another, a message to an agent of the
/// other goes to the address where the other is reached, and the other puts it behind the
/// messages that wait for that agent. Left out are ids that mean an agent of the service
/// itself.
pub proof fn law_message_reaches_announced_agent<V, W>(
    announcer: MeshView<V>,
    req: AnnounceReqView,
    s: MeshView<W>,
    peer: Seq<char>,
    msg: MessageView,
    waiter: V,
    here: Option<Seq<char>>,
    there: Option<Seq<char>>,
    target: Option<RemoteAgentView>,
)
    requires
        announcer.announces(req),
        announcer.advertise != s.advertise,
        announcer.local.contains_key(msg.to),
        !s.local.contains_key(msg.to),
        !s.local_alias(msg.to),
        s.hear(req, peer).resolves_local(msg.to, here),
        s.hear(req, peer).resolves_remote(msg.to, target),
        announcer.resolves_local(msg.to, there),
    ensures
        here is None,
        target is Some,
        target->0.addr == peer,
        there == Some(msg.to),
        announcer.route_local(msg, waiter).queue(msg.to) == announcer.queue(msg.to).push(msg),
{
    law_announced_agents_are_known(announcer, req, s, peer, msg.to);
}

/// Law: the parts of a message can be read back from its JSON.
pub proof fn law_message_parts_are_read_back(m: MessageView)
    ensures
        message::message_json(m).text_at("from"@) == Some(m.from),
        message::message_json(m).text_at("to"@) == Some(m.to),
        message::message_json(m).text_at("id"@) == Some(m.id),
        message::message_json(m).text_at("kind"@) == Some(m.kind),
        message::message_json(m).get("body"@) == Some(m.body),
        message::message_json(m).get("from_agent"@) == Some(message::info_json(m.from_agent)),
{
    let fields = message::message_json(m)->Object_0;
    reveal_strlit("from");
    reveal_strlit("to");
    reveal_strlit("id");
    reveal_strlit("kind");
    reveal_strlit("body");
    reveal_strlit("from_agent");
    assert("from"@[0] == 'f' && "to"@[0] == 't' && "id"@[0] == 'i' && "kind"@[0] == 'k'
        && "body"@[0] == 'b');
    assert("from"@.len() == 4 && "from_agent"@.len() == 10);
    json::lemma_field_at(fields, 0);
    json::lemma_field_at(fields, 1);
    json::lemma_field_at(fields, 2);
    json::lemma_field_at(fields, 3);
    json::lemma_field_at(fields, 4);
    json::lemma_field_at(fields, 5);
}

/// Law: the status that is shown of a service bears its version, its machine and its address.
pub proof fn law_status_shows_the_service<W>(
    s: MeshView<W>,
    version: Seq<char>,
    page: JsonView,
    protocol: Seq<char>,
)
    requires
        s.health_page(version, page),
    ensures
        page.get("protocol"@) == Some(json::unsigned_json(message::PROTOCOL_VERSION as u64)),
        pages::status_text(page, protocol) == "pi-mesh: running\nversion: "@ + version
            + "\nprotocol: "@ + protocol + "\nmachine: "@ + s.machine + "\naddr: "@ + s.advertise,
{
    let fields = page->Object_0;
    reveal_strlit("ok");
    reveal_strlit("version");
    reveal_strlit("protocol");
    reveal_strlit("machine");
    reveal_strlit("advertise");
    assert("ok"@[0] == 'o' && "version"@[0] == 'v' && "protocol"@[0] == 'p' && "machine"@[0]
        == 'm' && "advertise"@[0] == 'a');
    json::lemma_field_at(fields, 1);
    json::lemma_field_at(fields, 2);
    json::lemma_field_at(fields, 3);
    json::lemma_field_at(fields, 4);
}

} // verus!
