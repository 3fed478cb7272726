//! The mesh as one service sees it, and the steps that it takes, in mathematical terms.

use crate::address;
use crate::address::Ip;
use crate::json;
use crate::json::JsonView;
use crate::message;
use crate::message::{
    AgentInfoView, AnnounceReqView, AnnounceRespView, LocalAgentView, MessageView, RegisterView,
    RemoteAgentView, PROTOCOL_VERSION,
};
use crate::table;
use vstd::prelude::*;

verus! {

/// How long an agent that does not register again is kept, in nanoseconds.
pub const STALE_AFTER_NANOS: u64 = 3_000_000_000;

/// What a service knows: its own address and machine, the agents that registered with it,
/// the agents of its peers, the addresses of its peers, the messages that wait for local
/// agents, and the requests that wait for an answer.
pub struct MeshView<W> {
    pub advertise: Seq<char>,
    pub advertise_locked: bool,
    pub machine: Seq<char>,
    pub local: Map<Seq<char>, LocalAgentView>,
    pub remote: Map<Seq<char>, RemoteAgentView>,
    pub peers: Set<Seq<char>>,
    pub queues: Map<Seq<char>, Seq<MessageView>>,
    pub waiters: Map<Seq<char>, W>,
}

/// The agent that a registration makes.
pub open spec fn registered_agent(req: RegisterView, now: u64) -> LocalAgentView {
    LocalAgentView {
        alias: req.alias,
        title: req.title,
        cwd: req.cwd,
        runtime: req.runtime,
        last_seen: now,
    }
}

/// The agent that is kept for one that a peer tells about.
pub open spec fn remote_of(a: AgentInfoView) -> RemoteAgentView {
    RemoteAgentView {
        alias: a.alias,
        title: a.title,
        cwd: a.cwd,
        runtime: a.runtime,
        addr: a.addr,
    }
}

/// An agent as it is taken over from a peer: one that the peer has at its own address
/// `from` is reached at `peer`.
pub open spec fn relocated(a: AgentInfoView, from: Seq<char>, peer: Seq<char>) -> AgentInfoView {
    if a.addr == from {
        AgentInfoView { addr: peer, ..a }
    } else {
        a
    }
}

/// The agents of peers after `agents` were told about, in order, by the peer whose address
/// for itself is `from` and that is reached at `peer`. Agents of this machine are not taken
/// over, nor those that are reached at the address `own`, where there is one.
pub open spec fn merged(
    remote: Map<Seq<char>, RemoteAgentView>,
    local: Set<Seq<char>>,
    agents: Seq<AgentInfoView>,
    from: Seq<char>,
    peer: Seq<char>,
    own: Option<Seq<char>>,
) -> Map<Seq<char>, RemoteAgentView>
    decreases agents.len(),
{
    if agents.len() == 0 {
        remote
    } else {
        let before = merged(remote, local, agents.drop_last(), from, peer, own);
        let a = relocated(agents.last(), from, peer);
        if local.contains(a.id) || own == Some(a.addr) {
            before
        } else {
            before.insert(a.id, remote_of(a))
        }
    }
}

/// Whether a peer tells of an agent `id` that it has itself.
pub open spec fn told_live(agents: Seq<AgentInfoView>, from: Seq<char>, id: Seq<char>) -> bool {
    exists|i: int|
        0 <= i < agents.len() && (#[trigger] agents[i]).id == id && agents[i].addr == from
}

/// The agents of peers, less those reached at `peer` that the peer does not have itself.
pub open spec fn less_departed(
    remote: Map<Seq<char>, RemoteAgentView>,
    agents: Seq<AgentInfoView>,
    from: Seq<char>,
    peer: Seq<char>,
) -> Map<Seq<char>, RemoteAgentView> {
    Map::new(
        |id: Seq<char>|
            remote.contains_key(id) && (remote[id].addr != peer || told_live(agents, from, id)),
        |id: Seq<char>| remote[id],
    )
}

/// Agents in JSON.
pub open spec fn infos_json(agents: Seq<AgentInfoView>) -> Seq<JsonView> {
    agents.map_values(|a: AgentInfoView| message::info_json(a))
}

/// Texts in JSON.
pub open spec fn texts_json(items: Seq<Seq<char>>) -> Seq<JsonView> {
    items.map_values(|s: Seq<char>| JsonView::Text(s))
}

impl<W> MeshView<W> {
    /// Whether an agent other than `id` goes by `alias`.
    pub open spec fn alias_taken(self, id: Seq<char>, alias: Seq<char>) -> bool {
        ||| exists|other: Seq<char>| #[trigger]
            self.local.contains_key(other) && other != id && self.local[other].alias == alias
        ||| exists|other: Seq<char>| #[trigger]
            self.remote.contains_key(other) && other != id && self.remote[other].alias == alias
    }

    /// After a registration. One whose alias is taken changes nothing.
    pub open spec fn register(self, req: RegisterView, now: u64) -> MeshView<W> {
        if self.alias_taken(req.id, req.alias) {
            self
        } else {
            MeshView {
                remote: self.remote.remove(req.id),
                local: self.local.insert(req.id, registered_agent(req, now)),
                queues: if self.queues.contains_key(req.id) {
                    self.queues
                } else {
                    self.queues.insert(req.id, Seq::empty())
                },
                ..self
            }
        }
    }

    /// After a local agent left.
    pub open spec fn unregister(self, id: Seq<char>) -> MeshView<W> {
        MeshView { local: self.local.remove(id), queues: self.queues.remove(id), ..self }
    }

    /// After a peer was named.
    pub open spec fn add_peer(self, addr: Seq<char>) -> MeshView<W> {
        MeshView { peers: self.peers.insert(addr), ..self }
    }

    /// The messages that wait for `id`.
    pub open spec fn queue(self, id: Seq<char>) -> Seq<MessageView> {
        if self.queues.contains_key(id) {
            self.queues[id]
        } else {
            Seq::empty()
        }
    }

    /// After a message was put behind those that wait for its addressee.
    pub open spec fn enqueue(self, msg: MessageView) -> MeshView<W> {
        MeshView { queues: self.queues.insert(msg.to, self.queue(msg.to).push(msg)), ..self }
    }

    /// After a message was taken in for a local agent: a request also waits for its answer.
    pub open spec fn route_local(self, msg: MessageView, waiter: W) -> MeshView<W> {
        if message::asks(msg.kind) {
            MeshView { waiters: self.waiters.insert(msg.id, waiter), ..self.enqueue(msg) }
        } else {
            self.enqueue(msg)
        }
    }

    /// After `agent` asked for its next message.
    pub open spec fn pop(self, agent: Seq<char>) -> MeshView<W> {
        if self.queue(agent).len() > 0 {
            MeshView { queues: self.queues.insert(agent, self.queue(agent).drop_first()), ..self }
        } else {
            self
        }
    }

    /// The message that `agent` gets when it asks for its next one.
    pub open spec fn next_message(self, agent: Seq<char>) -> Option<MessageView> {
        if self.queue(agent).len() > 0 {
            Some(self.queue(agent)[0])
        } else {
            None
        }
    }

    /// After an answer came.
    pub open spec fn reply(self, id: Seq<char>) -> MeshView<W> {
        MeshView { waiters: self.waiters.remove(id), ..self }
    }

    /// The request that an answer is for.
    pub open spec fn waiter(self, id: Seq<char>) -> Option<W> {
        if self.waiters.contains_key(id) {
            Some(self.waiters[id])
        } else {
            None
        }
    }

    /// After the agents that did not register for too long were dropped.
    pub open spec fn prune_stale(self, now: u64) -> MeshView<W> {
        let stale = Set::new(|id: Seq<char>| self.is_stale(id, now));
        MeshView {
            local: self.local.remove_keys(stale),
            queues: self.queues.remove_keys(stale),
            remote: self.remote.remove_keys(stale),
            ..self
        }
    }

    /// Whether `id` is a local agent that did not register for too long.
    pub open spec fn is_stale(self, id: Seq<char>, now: u64) -> bool {
        self.local.contains_key(id) && now - self.local[id].last_seen > STALE_AFTER_NANOS
    }

    /// After a peer could not be reached.
    pub open spec fn prune_peer(self, peer: Seq<char>) -> MeshView<W> {
        MeshView {
            peers: self.peers.remove(peer),
            remote: Map::new(
                |id: Seq<char>| self.remote.contains_key(id) && self.remote[id].addr != peer,
                |id: Seq<char>| self.remote[id],
            ),
            ..self
        }
    }

    /// After an accepted announcement from a peer that is reached at `peer`. One that bears
    /// this service's own address changes nothing.
    pub open spec fn hear(self, req: AnnounceReqView, peer: Seq<char>) -> MeshView<W> {
        if req.addr == self.advertise {
            self
        } else {
            MeshView {
                peers: self.peers.insert(peer),
                remote: less_departed(
                    merged(self.remote, self.local.dom(), req.agents, req.addr, peer, None),
                    req.agents,
                    req.addr,
                    peer,
                ),
                ..self
            }
        }
    }

    /// Whether an announcement is let in.
    pub open spec fn admits(authorized: bool, req: AnnounceReqView) -> bool {
        authorized && req.protocol == PROTOCOL_VERSION
    }

    /// After an announcement that came from the address `remote`.
    pub open spec fn announce(self, authorized: bool, remote: Ip, req: AnnounceReqView) -> MeshView<
        W,
    > {
        if Self::admits(authorized, req) {
            self.hear(req, address::socket_text(remote, address::advertised_port(req.addr)))
        } else {
            self
        }
    }

    /// The peers after `resp` came back from the one at `peer`.
    pub open spec fn learned_peers(self, peer: Seq<char>, resp: AnnounceRespView) -> Set<
        Seq<char>,
    > {
        Set::new(
            |p: Seq<char>|
                self.peers.contains(p) || (resp.addr != self.advertise && p == peer) || (
                resp.peers.contains(p) && p != self.advertise),
        )
    }

    /// After the answer `resp` of the peer at `peer` to an announcement. An answer of
    /// another protocol changes nothing.
    pub open spec fn learn(self, peer: Seq<char>, resp: AnnounceRespView) -> MeshView<W> {
        if resp.protocol != PROTOCOL_VERSION {
            self
        } else {
            MeshView {
                peers: self.learned_peers(peer, resp),
                remote: less_departed(
                    merged(
                        self.remote,
                        self.local.dom(),
                        resp.agents,
                        resp.addr,
                        peer,
                        Some(self.advertise),
                    ),
                    resp.agents,
                    resp.addr,
                    peer,
                ),
                ..self
            }
        }
    }

    /// After a connector named the address of this service, which a configured one overrides.
    pub open spec fn advertise_as(self, addr: Seq<char>) -> MeshView<W> {
        if self.advertise_locked {
            self
        } else {
            MeshView { advertise: addr, ..self }
        }
    }

    /// Whether `r` is what `to` means among the local agents: itself, where it is an id, and
    /// otherwise the id of an agent that goes by it.
    pub open spec fn resolves_local(self, to: Seq<char>, r: Option<Seq<char>>) -> bool {
        if self.local.contains_key(to) {
            r == Some(to)
        } else {
            match r {
                Some(id) => self.local.contains_key(id) && self.local[id].alias == to,
                None => forall|id: Seq<char>| #[trigger]
                    self.local.contains_key(id) ==> self.local[id].alias != to,
            }
        }
    }

    /// Whether `r` is what `to` means among the agents of peers: the agent with that id,
    /// where there is one, and otherwise one that goes by it.
    pub open spec fn resolves_remote(self, to: Seq<char>, r: Option<RemoteAgentView>) -> bool {
        if self.remote.contains_key(to) {
            r == Some(self.remote[to])
        } else {
            match r {
                Some(agent) => agent.alias == to && exists|id: Seq<char>| #[trigger]
                    self.remote.contains_key(id) && self.remote[id] == agent,
                None => forall|id: Seq<char>| #[trigger]
                    self.remote.contains_key(id) ==> self.remote[id].alias != to,
            }
        }
    }

    /// A local agent as it is told about.
    pub open spec fn local_info(self, id: Seq<char>) -> AgentInfoView {
        let a = self.local[id];
        AgentInfoView {
            id,
            alias: a.alias,
            title: a.title,
            cwd: a.cwd,
            runtime: a.runtime,
            addr: self.advertise,
        }
    }

    /// An agent of a peer as it is told about.
    pub open spec fn remote_info(self, id: Seq<char>) -> AgentInfoView {
        let a = self.remote[id];
        AgentInfoView {
            id,
            alias: a.alias,
            title: a.title,
            cwd: a.cwd,
            runtime: a.runtime,
            addr: a.addr,
        }
    }

    /// Whether a local agent goes by `alias`.
    pub open spec fn local_alias(self, alias: Seq<char>) -> bool {
        exists|id: Seq<char>| #[trigger]
            self.local.contains_key(id) && self.local[id].alias == alias
    }

    /// Whether an agent of a peer goes by `alias`.
    pub open spec fn remote_alias(self, alias: Seq<char>) -> bool {
        exists|id: Seq<char>| #[trigger]
            self.remote.contains_key(id) && self.remote[id].alias == alias
    }

    /// Whether `r` is what is told of the sender `from`: the agent with that id, a local one
    /// first, else an agent that goes by it, a local one first, else a placeholder.
    pub open spec fn describes_sender(
        self,
        from: Seq<char>,
        cwd: Seq<char>,
        r: AgentInfoView,
    ) -> bool {
        if self.local.contains_key(from) {
            r == self.local_info(from)
        } else if self.remote.contains_key(from) {
            r == self.remote_info(from)
        } else if self.local_alias(from) {
            exists|id: Seq<char>| #[trigger]
                self.local.contains_key(id) && self.local[id].alias == from && r
                    == self.local_info(id)
        } else if self.remote_alias(from) {
            exists|id: Seq<char>| #[trigger]
                self.remote.contains_key(id) && self.remote[id].alias == from && r
                    == self.remote_info(id)
        } else {
            r == message::placeholder(from, cwd)
        }
    }

    /// Whether `agents` tells of each local agent once.
    pub open spec fn tells_local(self, agents: Seq<AgentInfoView>) -> bool {
        exists|ids: Seq<Seq<char>>| #[trigger]
            table::enumerates(ids, self.local.dom()) && agents == ids.map_values(
                |id: Seq<char>| self.local_info(id),
            )
    }

    /// Whether `agents` tells of each agent of a peer once.
    pub open spec fn tells_remote(self, agents: Seq<AgentInfoView>) -> bool {
        exists|ids: Seq<Seq<char>>| #[trigger]
            table::enumerates(ids, self.remote.dom()) && agents == ids.map_values(
                |id: Seq<char>| self.remote_info(id),
            )
    }

    /// Whether `page` is what the service tells of itself: its version, and all the agents
    /// that it knows.
    pub open spec fn health_page(self, version: Seq<char>, page: JsonView) -> bool {
        exists|mine: Seq<AgentInfoView>, theirs: Seq<AgentInfoView>| #[trigger]
            self.tells_local(mine) && #[trigger] self.tells_remote(theirs) && page
                == JsonView::Object(
                seq![
                    ("ok"@, JsonView::Bool(true)),
                    ("version"@, JsonView::Text(version)),
                    ("protocol"@, json::unsigned_json(PROTOCOL_VERSION as u64)),
                    ("machine"@, JsonView::Text(self.machine)),
                    ("advertise"@, JsonView::Text(self.advertise)),
                    ("local_agents"@, JsonView::List(infos_json(mine))),
                    ("remote_agents"@, JsonView::List(infos_json(theirs))),
                ],
            )
    }

    /// Whether `page` lists the agents and the peers.
    pub open spec fn list_page(self, page: JsonView) -> bool {
        exists|mine: Seq<AgentInfoView>, theirs: Seq<AgentInfoView>, peers: Seq<Seq<char>>|
            #[trigger] self.tells_local(mine) && #[trigger] self.tells_remote(theirs)
                && #[trigger] table::enumerates(peers, self.peers) && page == JsonView::Object(
                seq![
                    ("local"@, JsonView::List(infos_json(mine))),
                    ("remote"@, JsonView::List(infos_json(theirs))),
                    ("peers"@, JsonView::List(texts_json(peers))),
                    ("self"@, JsonView::Text(self.advertise)),
                ],
            )
    }

    /// Whether `resp` is an answer to an announcement: all that this service knows.
    pub open spec fn answers(self, resp: AnnounceRespView) -> bool {
        &&& resp.protocol == PROTOCOL_VERSION
        &&& resp.addr == self.advertise
        &&& table::enumerates(resp.peers, self.peers)
        &&& exists|mine: Seq<AgentInfoView>, theirs: Seq<AgentInfoView>| #[trigger]
            self.tells_local(mine) && #[trigger] self.tells_remote(theirs) && resp.agents == mine
                + theirs
    }

    /// Whether `req` is an announcement of this service: its address and its local agents.
    pub open spec fn announces(self, req: AnnounceReqView) -> bool {
        &&& req.protocol == PROTOCOL_VERSION
        &&& req.addr == self.advertise
        &&& self.tells_local(req.agents)
    }
}

} // verus!
