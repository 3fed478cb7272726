//! The state of a service: the steps of the mesh, carried out.

use crate::address::{reachable_addr, Ip};
use crate::json;
use crate::json::{copy_opt, json_field, Json, JsonView};
use crate::mesh;
use crate::mesh::{MeshView, STALE_AFTER_NANOS};
use crate::message;
use crate::message::{
    agent_info, compose, new_message_id, placeholder_agent_info, AgentInfo, AgentInfoView, AnnounceReq,
    AnnounceResp, LocalAgent, LocalRequestReq, LocalSendReq, MeshMessage, MessageView,
    RegisterReq, RemoteAgent, RemoteAgentView, PROTOCOL_VERSION,
};
use crate::reply;
use crate::reply::{ok_reply, text_reply, Reply};
use crate::steps::{
    AnnounceEvent, AnnounceStep, Announced, ConnectorAction, ConnectorEvent, LocalRoute,
    NextEvent, NextStep, Route,
};
use crate::table;
use crate::table::Table;
use crate::text;
use crate::text::{comes_before, decimal_text, str_eq};
use std::collections::VecDeque;
use vstd::prelude::*;
use vstd::string::*;

verus! {

/// The messages that wait for an agent, the oldest first.
pub struct Queue {
    messages: VecDeque<MeshMessage>,
}

impl View for Queue {
    type V = Seq<MessageView>;

    closed spec fn view(&self) -> Seq<MessageView> {
        self.messages@.map_values(|m: MeshMessage| m@)
    }
}

/// What a request waits with until its answer comes.
pub struct Waiter<W> {
    handle: W,
}

impl<W> View for Waiter<W> {
    type V = W;

    closed spec fn view(&self) -> W {
        self.handle
    }
}

/// What a service knows. A request waits for its answer with a handle of type `W`.
pub struct Inner<W> {
    advertise: String,
    advertise_locked: bool,
    machine: String,
    local_agents: Table<LocalAgent>,
    remote_agents: Table<RemoteAgent>,
    peers: Table<()>,
    queues: Table<Queue>,
    waiters: Table<Waiter<W>>,
}

impl<W> View for Inner<W> {
    type V = MeshView<W>;

    closed spec fn view(&self) -> MeshView<W> {
        MeshView {
            advertise: self.advertise@,
            advertise_locked: self.advertise_locked,
            machine: self.machine@,
            local: self.local_agents@,
            remote: self.remote_agents@,
            peers: self.peers@.dom(),
            queues: self.queues@,
            waiters: self.waiters@,
        }
    }
}

/// The state of a service that has just started: at a configured address, or else at the
/// name of its machine and its port.
pub open spec fn started<W>(
    machine: Seq<char>,
    port: u16,
    advertise: Option<Seq<char>>,
    peers: Seq<Seq<char>>,
) -> MeshView<W> {
    MeshView {
        advertise: match advertise {
            Some(addr) => addr,
            None => machine + seq![':'] + text::decimal(port as nat),
        },
        advertise_locked: advertise is Some,
        machine,
        local: Map::empty(),
        remote: Map::empty(),
        peers: peers.to_set(),
        queues: Map::empty(),
        waiters: Map::empty(),
    }
}

impl<W> Inner<W> {
    /// In none of the tables a name occurs twice.
    pub closed spec fn wf(&self) -> bool {
        &&& self.local_agents.wf()
        &&& self.remote_agents.wf()
        &&& self.peers.wf()
        &&& self.queues.wf()
        &&& self.waiters.wf()
    }

    /// The state of a service that has just started.
    pub fn new(machine: String, port: u16, advertise: Option<String>, peers: Vec<String>) -> (r:
        Inner<W>)
        ensures
            r.wf(),
            r@ == started::<W>(
                machine@,
                port,
                text::opt_text(advertise),
                text::texts(peers@),
            ),
    {
        let mut known: Table<()> = Table::new();
        let ghost all = text::texts(peers@);
        let mut i: usize = 0;
        proof {
            assert(known@.dom() =~= all.take(0).to_set());
        }
        while i < peers.len()
            invariant
                known.wf(),
                i <= peers@.len(),
                all == text::texts(peers@),
                known@.dom() == all.take(i as int).to_set(),
            decreases peers@.len() - i,
        {
            known.insert(peers[i].clone(), ());
            proof {
                lemma_take_set(all, i as int);
            }
            i = i + 1;
        }
        proof {
            assert(all.take(i as int) =~= all);
            reveal_strlit(":");
            assert(":"@ =~= seq![':']);
        }
        let (address, locked) = match advertise {
            Some(addr) => (addr, true),
            None => {
                let mut addr = machine.clone();
                addr.append(":");
                addr.append(decimal_text(port as u64).as_str());
                (addr, false)
            },
        };
        Inner {
            advertise: address,
            advertise_locked: locked,
            machine,
            local_agents: Table::new(),
            remote_agents: Table::new(),
            peers: known,
            queues: Table::new(),
            waiters: Table::new(),
        }
    }

    /// The address under which this service is told about.
    pub fn advertise(&self) -> (r: &str)
        ensures
            r@ == self@.advertise,
    {
        self.advertise.as_str()
    }
}

impl<W> Inner<W> {
    /// Drops the agents reached at `peer`, but for those named in `live`.
    fn drop_departed(&mut self, peer: &str, live: &Vec<String>)
        requires
            old(self).wf(),
        ensures
            final(self).wf(),
            final(self)@ == (MeshView {
                remote: Map::new(
                    |id: Seq<char>|
                        old(self)@.remote.contains_key(id) && (old(self)@.remote[id].addr != peer@
                            || text::texts(live@).contains(id)),
                    |id: Seq<char>| old(self)@.remote[id],
                ),
                ..old(self)@
            }),
    {
        let mut gone: Vec<String> = Vec::new();
        let mut i: usize = 0;
        while i < self.remote_agents.len()
            invariant
                *self == *old(self),
                self.wf(),
                i <= self.remote_agents.names().len(),
                forall|id: Seq<char>| #[trigger]
                    text::texts(gone@).contains(id) ==> self@.remote.contains_key(id)
                        && self@.remote[id].addr == peer@ && !text::texts(live@).contains(id),
                forall|j: int|
                    0 <= j < i && self@.remote[#[trigger] self.remote_agents.names()[j]].addr
                        == peer@ && !text::texts(live@).contains(self.remote_agents.names()[j])
                        ==> text::texts(gone@).contains(self.remote_agents.names()[j]),
            decreases self.remote_agents.names().len() - i,
        {
            let agent = self.remote_agents.value_at(i);
            let name = self.remote_agents.name_at(i);
            let leaves = str_eq(agent.addr.as_str(), peer) && !text::holds(live, name.as_str());
            proof {
                self.remote_agents.lemma_at(i as int);
            }
            if leaves {
                let ghost before = text::texts(gone@);
                gone.push(name.clone());
                proof {
                    lemma_push_contains(before, name@);
                    assert(text::texts(gone@) =~= before.push(name@));
                }
            }
            i = i + 1;
        }
        self.remote_agents.remove_all(&gone);
        proof {
            let all = old(self)@.remote;
            let kept = Map::new(
                |id: Seq<char>|
                    all.contains_key(id) && (all[id].addr != peer@ || text::texts(
                        live@,
                    ).contains(id)),
                |id: Seq<char>| all[id],
            );
            assert forall|id: Seq<char>| #[trigger]
                self@.remote.dom().contains(id) == kept.dom().contains(id) by {
                if all.contains_key(id) {
                    let names = old(self).remote_agents.names();
                    assert(names.contains(id));
                    let j = names.index_of(id);
                    assert(names[j] == id);
                }
            }
            assert(self@.remote =~= kept);
        }
    }

    /// Takes over the agents that a peer tells about, and drops those that it no longer has.
    fn absorb(&mut self, agents: &Vec<AgentInfo>, from: &str, peer: &str, skip_own: bool)
        requires
            old(self).wf(),
        ensures
            final(self).wf(),
            final(self)@ == (MeshView {
                remote: mesh::less_departed(
                    mesh::merged(
                        old(self)@.remote,
                        old(self)@.local.dom(),
                        message::infos_view(agents@),
                        from@,
                        peer@,
                        if skip_own {
                            Some(old(self)@.advertise)
                        } else {
                            None
                        },
                    ),
                    message::infos_view(agents@),
                    from@,
                    peer@,
                ),
                ..old(self)@
            }),
    {
        let ghost told = message::infos_view(agents@);
        let ghost own = if skip_own {
            Some(old(self)@.advertise)
        } else {
            None
        };
        let mut live: Vec<String> = Vec::new();
        let mut i: usize = 0;
        while i < agents.len()
            invariant
                self.wf(),
                i <= agents@.len(),
                told == message::infos_view(agents@),
                own == (if skip_own {
                    Some(old(self)@.advertise)
                } else {
                    None
                }),
                self@ == (MeshView {
                    remote: mesh::merged(
                        old(self)@.remote,
                        old(self)@.local.dom(),
                        told.take(i as int),
                        from@,
                        peer@,
                        own,
                    ),
                    ..old(self)@
                }),
                forall|id: Seq<char>| #[trigger]
                    text::texts(live@).contains(id) == mesh::told_live(
                        told.take(i as int),
                        from@,
                        id,
                    ),
            decreases agents@.len() - i,
        {
            let ghost before = self@;
            let ghost live_before = text::texts(live@);
            let agent = &agents[i];
            let here = str_eq(agent.addr.as_str(), from);
            let addr: String = if here {
                live.push(agent.id.clone());
                peer.to_owned()
            } else {
                agent.addr.clone()
            };
            let mine = self.local_agents.contains(agent.id.as_str()) || (skip_own && str_eq(
                addr.as_str(),
                self.advertise.as_str(),
            ));
            proof {
                let next = told.take(i + 1);
                assert(next.drop_last() =~= told.take(i as int));
                assert(next.last() == agent@);
                assert(told[i as int] == agent@);
                lemma_told_live_step(told, from@, i as int);
                if here {
                    lemma_push_contains(live_before, agent.id@);
                    assert(text::texts(live@) =~= live_before.push(agent.id@));
                }
            }
            if !mine {
                let kept = RemoteAgent {
                    alias: agent.alias.clone(),
                    title: agent.title.clone(),
                    cwd: agent.cwd.clone(),
                    runtime: copy_opt(&agent.runtime),
                    addr,
                };
                proof {
                    assert(kept@ == mesh::remote_of(mesh::relocated(agent@, from@, peer@)));
                }
                self.remote_agents.insert(agent.id.clone(), kept);
            }
            i = i + 1;
        }
        proof {
            assert(told.take(i as int) =~= told);
        }
        let ghost remote = self@.remote;
        self.drop_departed(peer, &live);
        proof {
            assert(self@.remote =~= mesh::less_departed(remote, told, from@, peer@));
        }
    }
}

impl<W> Inner<W> {
    /// The place of a local agent that goes by `alias` and is not `except`.
    fn find_local(&self, alias: &str, except: Option<&str>) -> (r: Option<usize>)
        requires
            self.wf(),
        ensures
            match r {
                Some(i) => i < self.local_agents.names().len() && {
                    let id = self.local_agents.names()[i as int];
                    &&& self@.local.contains_key(id)
                    &&& self@.local[id] == self.local_agents.values()[i as int]
                    &&& self@.local[id].alias == alias@
                    &&& text::opt_str(except) != Some(id)
                },
                None => forall|id: Seq<char>| #[trigger]
                    self@.local.contains_key(id) && text::opt_str(except) != Some(id)
                        ==> self@.local[id].alias != alias@,
            },
    {
        let mut i: usize = 0;
        while i < self.local_agents.len()
            invariant
                self.wf(),
                i <= self.local_agents.names().len(),
                forall|j: int|
                    0 <= j < i && text::opt_str(except) != Some(
                        #[trigger] self.local_agents.names()[j],
                    ) ==> self@.local[self.local_agents.names()[j]].alias != alias@,
            decreases self.local_agents.names().len() - i,
        {
            proof {
                self.local_agents.lemma_at(i as int);
            }
            let excluded = match except {
                Some(id) => str_eq(self.local_agents.name_at(i).as_str(), id),
                None => false,
            };
            if !excluded && str_eq(self.local_agents.value_at(i).alias.as_str(), alias) {
                return Some(i);
            }
            i = i + 1;
        }
        proof {
            let names = self.local_agents.names();
            assert forall|id: Seq<char>| #[trigger]
                self@.local.contains_key(id) && text::opt_str(except) != Some(id) implies
                self@.local[id].alias != alias@ by {
                assert(names.contains(id));
                assert(names[names.index_of(id)] == id);
            }
        }
        None
    }

    /// The place of an agent of a peer that goes by `alias` and is not `except`.
    fn find_remote(&self, alias: &str, except: Option<&str>) -> (r: Option<usize>)
        requires
            self.wf(),
        ensures
            match r {
                Some(i) => i < self.remote_agents.names().len() && {
                    let id = self.remote_agents.names()[i as int];
                    &&& self@.remote.contains_key(id)
                    &&& self@.remote[id] == self.remote_agents.values()[i as int]
                    &&& self@.remote[id].alias == alias@
                    &&& text::opt_str(except) != Some(id)
                },
                None => forall|id: Seq<char>| #[trigger]
                    self@.remote.contains_key(id) && text::opt_str(except) != Some(id)
                        ==> self@.remote[id].alias != alias@,
            },
    {
        let mut i: usize = 0;
        while i < self.remote_agents.len()
            invariant
                self.wf(),
                i <= self.remote_agents.names().len(),
                forall|j: int|
                    0 <= j < i && text::opt_str(except) != Some(
                        #[trigger] self.remote_agents.names()[j],
                    ) ==> self@.remote[self.remote_agents.names()[j]].alias != alias@,
            decreases self.remote_agents.names().len() - i,
        {
            proof {
                self.remote_agents.lemma_at(i as int);
            }
            let excluded = match except {
                Some(id) => str_eq(self.remote_agents.name_at(i).as_str(), id),
                None => false,
            };
            if !excluded && str_eq(self.remote_agents.value_at(i).alias.as_str(), alias) {
                return Some(i);
            }
            i = i + 1;
        }
        proof {
            let names = self.remote_agents.names();
            assert forall|id: Seq<char>| #[trigger]
                self@.remote.contains_key(id) && text::opt_str(except) != Some(id) implies
                self@.remote[id].alias != alias@ by {
                assert(names.contains(id));
                assert(names[names.index_of(id)] == id);
            }
        }
        None
    }

    /// Whether an agent other than `id` goes by `alias`.
    pub fn alias_taken(&self, id: &str, alias: &str) -> (r: bool)
        requires
            self.wf(),
        ensures
            r == self@.alias_taken(id@, alias@),
    {
        match self.find_local(alias, Some(id)) {
            Some(_) => true,
            None => match self.find_remote(alias, Some(id)) {
                Some(_) => true,
                None => false,
            },
        }
    }

    /// A local agent registers, at the time `now` in nanoseconds. Its alias must not be
    /// taken by another agent.
    pub fn register(&mut self, req: RegisterReq, now: u64) -> (r: Reply)
        requires
            old(self).wf(),
        ensures
            final(self).wf(),
            final(self)@ == old(self)@.register(req@, now),
            r@ == (if old(self)@.alias_taken(req.id@, req.alias@) {
                reply::text_answer(409, "alias in use: "@ + req.alias@)
            } else {
                reply::ok_answer(true)
            }),
    {
        if self.alias_taken(req.id.as_str(), req.alias.as_str()) {
            let mut message = "alias in use: ".to_owned();
            message.append(req.alias.as_str());
            return text_reply(409, message);
        }
        let _ = self.remote_agents.remove(req.id.as_str());
        let agent = LocalAgent {
            alias: req.alias,
            title: req.title,
            cwd: req.cwd,
            runtime: req.runtime,
            last_seen: now,
        };
        self.local_agents.insert(req.id.clone(), agent);
        if !self.queues.contains(req.id.as_str()) {
            let empty = Queue { messages: VecDeque::new() };
            proof {
                assert(empty@ =~= Seq::<MessageView>::empty());
            }
            self.queues.insert(req.id, empty);
        }
        ok_reply(true)
    }

    /// A local agent leaves.
    pub fn unregister(&mut self, id: &str) -> (r: Reply)
        requires
            old(self).wf(),
        ensures
            final(self).wf(),
            final(self)@ == old(self)@.unregister(id@),
            r@ == reply::ok_answer(true),
    {
        let _ = self.local_agents.remove(id);
        let _ = self.queues.remove(id);
        ok_reply(true)
    }

    /// A user names a peer.
    pub fn local_peer(&mut self, addr: &str) -> (r: Reply)
        requires
            old(self).wf(),
        ensures
            final(self).wf(),
            final(self)@ == old(self)@.add_peer(addr@),
            r@ == reply::ok_answer(false),
    {
        self.peers.insert(addr.to_owned(), ());
        proof {
            assert(self@.peers =~= old(self)@.peers.insert(addr@));
        }
        ok_reply(false)
    }

    /// The local agent that `to` means: the one with that id, else one that goes by it.
    pub fn resolve_local(&self, to: &str) -> (r: Option<String>)
        requires
            self.wf(),
        ensures
            self@.resolves_local(to@, text::opt_text(r)),
    {
        if self.local_agents.contains(to) {
            return Some(to.to_owned());
        }
        match self.find_local(to, None) {
            Some(i) => Some(self.local_agents.name_at(i).clone()),
            None => None,
        }
    }

    /// The agent of a peer that `to` means: the one with that id, else one that goes by it.
    pub fn resolve_remote(&self, to: &str) -> (r: Option<RemoteAgent>)
        requires
            self.wf(),
        ensures
            self@.resolves_remote(to@, message::opt_remote(r)),
    {
        match self.remote_agents.get(to) {
            Some(agent) => Some(agent.copy()),
            None => match self.find_remote(to, None) {
                Some(i) => Some(self.remote_agents.value_at(i).copy()),
                None => None,
            },
        }
    }

    /// The local agent at a place, as it is told about.
    fn local_info_at(&self, i: usize) -> (r: AgentInfo)
        requires
            self.wf(),
            i < self.local_agents.names().len(),
        ensures
            r@ == self@.local_info(self.local_agents.names()[i as int]),
            self@.local.contains_key(self.local_agents.names()[i as int]),
    {
        proof {
            self.local_agents.lemma_at(i as int);
        }
        let agent = self.local_agents.value_at(i);
        agent_info(
            self.local_agents.name_at(i).as_str(),
            agent.alias.as_str(),
            agent.title.clone(),
            agent.cwd.clone(),
            copy_opt(&agent.runtime),
            self.advertise.as_str(),
        )
    }

    /// The agent of a peer at a place, as it is told about.
    fn remote_info_at(&self, i: usize) -> (r: AgentInfo)
        requires
            self.wf(),
            i < self.remote_agents.names().len(),
        ensures
            r@ == self@.remote_info(self.remote_agents.names()[i as int]),
            self@.remote.contains_key(self.remote_agents.names()[i as int]),
    {
        proof {
            self.remote_agents.lemma_at(i as int);
        }
        let agent = self.remote_agents.value_at(i);
        agent_info(
            self.remote_agents.name_at(i).as_str(),
            agent.alias.as_str(),
            agent.title.clone(),
            agent.cwd.clone(),
            copy_opt(&agent.runtime),
            agent.addr.as_str(),
        )
    }

    /// What is told of the sender `from`. A sender that nobody knows works in `cwd`.
    pub fn resolve_agent_info(&self, from: &str, cwd: String) -> (r: AgentInfo)
        requires
            self.wf(),
        ensures
            self@.describes_sender(from@, cwd@, r@),
    {
        match self.local_agents.position(from) {
            Some(i) => {
                return self.local_info_at(i);
            },
            None => {},
        }
        match self.remote_agents.position(from) {
            Some(i) => {
                return self.remote_info_at(i);
            },
            None => {},
        }
        match self.find_local(from, None) {
            Some(i) => {
                return self.local_info_at(i);
            },
            None => {},
        }
        match self.find_remote(from, None) {
            Some(i) => {
                return self.remote_info_at(i);
            },
            None => {},
        }
        placeholder_agent_info(from, cwd)
    }

    /// The local agents, as they are told about.
    fn local_infos(&self) -> (r: Vec<AgentInfo>)
        requires
            self.wf(),
        ensures
            self@.tells_local(message::infos_view(r@)),
    {
        let ghost ids = self.local_agents.names();
        let mut out: Vec<AgentInfo> = Vec::new();
        let mut i: usize = 0;
        while i < self.local_agents.len()
            invariant
                self.wf(),
                ids == self.local_agents.names(),
                i <= ids.len(),
                message::infos_view(out@) =~= ids.take(i as int).map_values(
                    |id: Seq<char>| self@.local_info(id),
                ),
            decreases ids.len() - i,
        {
            let ghost before = message::infos_view(out@);
            let info = self.local_info_at(i);
            out.push(info);
            proof {
                assert(message::infos_view(out@) =~= before.push(info@));
            }
            i = i + 1;
        }
        proof {
            self.local_agents.lemma_names();
            assert(table::enumerates(ids, self@.local.dom()));
            assert(ids.take(i as int) =~= ids);
        }
        out
    }

    /// The agents of peers, as they are told about.
    fn remote_infos(&self) -> (r: Vec<AgentInfo>)
        requires
            self.wf(),
        ensures
            self@.tells_remote(message::infos_view(r@)),
    {
        let ghost ids = self.remote_agents.names();
        let mut out: Vec<AgentInfo> = Vec::new();
        let mut i: usize = 0;
        while i < self.remote_agents.len()
            invariant
                self.wf(),
                ids == self.remote_agents.names(),
                i <= ids.len(),
                message::infos_view(out@) =~= ids.take(i as int).map_values(
                    |id: Seq<char>| self@.remote_info(id),
                ),
            decreases ids.len() - i,
        {
            let ghost before = message::infos_view(out@);
            let info = self.remote_info_at(i);
            out.push(info);
            proof {
                assert(message::infos_view(out@) =~= before.push(info@));
            }
            i = i + 1;
        }
        proof {
            self.remote_agents.lemma_names();
            assert(table::enumerates(ids, self@.remote.dom()));
            assert(ids.take(i as int) =~= ids);
        }
        out
    }

    /// The addresses of the peers.
    fn peer_names(&self) -> (r: Vec<String>)
        requires
            self.wf(),
        ensures
            table::enumerates(text::texts(r@), self@.peers),
    {
        let ghost names = self.peers.names();
        let mut out: Vec<String> = Vec::new();
        let mut i: usize = 0;
        while i < self.peers.len()
            invariant
                self.wf(),
                names == self.peers.names(),
                i <= names.len(),
                text::texts(out@) =~= names.take(i as int),
            decreases names.len() - i,
        {
            let name = self.peers.name_at(i).clone();
            let ghost before = text::texts(out@);
            out.push(name);
            proof {
                assert(text::texts(out@) =~= before.push(name@));
            }
            i = i + 1;
        }
        proof {
            self.peers.lemma_names();
            assert(names.take(i as int) =~= names);
        }
        out
    }

    /// The answer to an announcement: all that this service knows.
    pub fn announce_response(&self) -> (r: AnnounceResp)
        requires
            self.wf(),
        ensures
            self@.answers(r@),
    {
        let mut agents = self.local_infos();
        let ghost mine = message::infos_view(agents@);
        let mut others = self.remote_infos();
        let ghost theirs = message::infos_view(others@);
        agents.append(&mut others);
        proof {
            assert(self@.tells_local(mine));
            assert(self@.tells_remote(theirs));
            assert(message::infos_view(agents@) =~= mine + theirs);
        }
        AnnounceResp {
            protocol: PROTOCOL_VERSION,
            addr: self.advertise.clone(),
            peers: self.peer_names(),
            agents,
        }
    }

    /// An announcement came from the address `remote`.
    pub fn announce(&mut self, authorized: bool, remote: &Ip, req: AnnounceReq) -> (r: Announced)
        requires
            old(self).wf(),
        ensures
            final(self).wf(),
            final(self)@ == old(self)@.announce(authorized, *remote, req@),
            match r {
                Announced::Refused(answer) => if !authorized {
                    answer@ == reply::text_answer(403, "forbidden"@)
                } else {
                    req.protocol != PROTOCOL_VERSION && answer@ == reply::text_answer(
                        426,
                        "protocol mismatch"@,
                    )
                },
                Announced::Accepted(resp) => MeshView::<W>::admits(authorized, req@)
                    && final(self)@.answers(resp@),
            },
    {
        if !authorized {
            return Announced::Refused(reply::forbidden_reply());
        }
        if req.protocol != PROTOCOL_VERSION {
            return Announced::Refused(text_reply(426, "protocol mismatch".to_owned()));
        }
        if !str_eq(req.addr.as_str(), self.advertise.as_str()) {
            let peer = reachable_addr(req.addr.as_str(), remote);
            self.peers.insert(peer.clone(), ());
            proof {
                assert(self@.peers =~= old(self)@.peers.insert(peer@));
            }
            self.absorb(&req.agents, req.addr.as_str(), peer.as_str(), false);
        }
        Announced::Accepted(self.announce_response())
    }
}

impl<W> Inner<W> {
    /// Puts a message behind those that wait for its addressee.
    fn enqueue(&mut self, msg: MeshMessage)
        requires
            old(self).wf(),
        ensures
            final(self).wf(),
            final(self)@ == old(self)@.enqueue(msg@),
    {
        let id = msg.to.clone();
        let mut queue = match self.queues.remove(id.as_str()) {
            Some(queue) => queue,
            None => Queue { messages: VecDeque::new() },
        };
        let ghost before = queue@;
        proof {
            assert(before =~= old(self)@.queue(msg.to@));
        }
        queue.messages.push_back(msg);
        proof {
            assert(queue@ =~= before.push(msg@));
        }
        self.queues.insert(id, queue);
        proof {
            assert(self@.queues =~= old(self)@.enqueue(msg@).queues);
        }
    }

    /// Takes in a message for the local agent that it is addressed to. A request also waits
    /// for its answer, with `waiter`.
    pub fn route_local(&mut self, msg: MeshMessage, waiter: W) -> (r: LocalRoute)
        requires
            old(self).wf(),
        ensures
            final(self).wf(),
            final(self)@ == old(self)@.route_local(msg@, waiter),
            r == (if message::asks(msg@.kind) {
                LocalRoute::AwaitAnswer
            } else {
                LocalRoute::Done
            }),
    {
        if msg.is_request() {
            self.waiters.insert(msg.id.clone(), Waiter { handle: waiter });
            self.enqueue(msg);
            LocalRoute::AwaitAnswer
        } else {
            self.enqueue(msg);
            LocalRoute::Done
        }
    }

    /// Takes out the oldest message that waits for `agent`.
    pub fn pop_next(&mut self, agent: &str) -> (r: Option<MeshMessage>)
        requires
            old(self).wf(),
        ensures
            final(self).wf(),
            final(self)@ == old(self)@.pop(agent@),
            message::opt_message(r) == old(self)@.next_message(agent@),
    {
        match self.queues.remove(agent) {
            Some(mut queue) => {
                let ghost before = queue@;
                let ghost messages = queue.messages@;
                let first = queue.messages.pop_front();
                proof {
                    if messages.len() > 0 {
                        assert(queue@ =~= before.drop_first());
                        assert(before[0] == messages[0]@);
                    } else {
                        assert(queue@ =~= before);
                    }
                }
                self.queues.insert(agent.to_owned(), queue);
                proof {
                    assert(self@.queues =~= old(self)@.pop(agent@).queues);
                }
                first
            },
            None => {
                proof {
                    assert(self@.queues =~= old(self)@.queues);
                }
                None
            },
        }
    }

    /// A step of an agent's wait for its next message. At first, and whenever agents are to
    /// look again, the agent looks; when its time is over it gets an empty answer.
    pub fn local_next(&mut self, agent: &str, event: NextEvent) -> (r: NextStep)
        requires
            old(self).wf(),
        ensures
            final(self).wf(),
            match event {
                NextEvent::Look => final(self)@ == old(self)@.pop(agent@) && match r {
                    NextStep::Answer(answer) => old(self)@.next_message(agent@) matches Some(m)
                        && answer@ == reply::json_answer(message::message_json(m)),
                    NextStep::Wait => old(self)@.next_message(agent@) is None,
                },
                NextEvent::TimeUp => final(self)@ == old(self)@ && match r {
                    NextStep::Answer(answer) => answer@ == reply::text_answer(204, Seq::empty()),
                    NextStep::Wait => false,
                },
            },
    {
        match event {
            NextEvent::Look => match self.pop_next(agent) {
                Some(msg) => NextStep::Answer(reply::json_reply(msg.to_json())),
                None => NextStep::Wait,
            },
            NextEvent::TimeUp => NextStep::Answer(text_reply(204, String::new())),
        }
    }

    /// An answer to a request came: the handle that the request waits with, and what to say
    /// to the agent that answered.
    pub fn local_reply(&mut self, id: &str) -> (r: (Option<W>, Reply))
        requires
            old(self).wf(),
        ensures
            final(self).wf(),
            final(self)@ == old(self)@.reply(id@),
            r.0 == old(self)@.waiter(id@),
            r.1@ == (if old(self)@.waiters.contains_key(id@) {
                reply::ok_answer(false)
            } else {
                reply::text_answer(404, "reply id not found"@)
            }),
    {
        match self.waiters.remove(id) {
            Some(waiter) => (Some(waiter.handle), ok_reply(false)),
            None => (None, text_reply(404, "reply id not found".to_owned())),
        }
    }

    /// Where a message goes: to the local agent that its addressee means, else to the peer
    /// of the agent that it means, else nowhere.
    pub fn route_message(&self, msg: MeshMessage) -> (r: Route)
        requires
            self.wf(),
        ensures
            match r {
                Route::Local(m) => exists|id: Seq<char>| #[trigger]
                    self@.resolves_local(msg@.to, Some(id)) && m@ == (MessageView {
                        to: id,
                        ..msg@
                    }),
                Route::Remote { url, msg: m } => self@.resolves_local(msg@.to, None) && m@ == msg@
                    && exists|agent: RemoteAgentView| #[trigger]
                    self@.resolves_remote(msg@.to, Some(agent)) && url@ == "http://"@ + agent.addr
                        + "/msg"@,
                Route::Unknown(e) => self@.resolves_local(msg@.to, None)
                    && self@.resolves_remote(msg@.to, None) && e@ == "unknown agent: "@ + msg@.to,
            },
    {
        let ghost sent = msg@;
        let mut msg = msg;
        match self.resolve_local(msg.to.as_str()) {
            Some(id) => {
                proof {
                    assert(self@.resolves_local(sent.to, Some(id@)));
                }
                msg.to = id;
                return Route::Local(msg);
            },
            None => {},
        }
        match self.resolve_remote(msg.to.as_str()) {
            Some(agent) => {
                let mut url = "http://".to_owned();
                url.append(agent.addr.as_str());
                url.append("/msg");
                proof {
                    assert(self@.resolves_remote(sent.to, Some(agent@)));
                }
                Route::Remote { url, msg }
            },
            None => {
                let mut e = "unknown agent: ".to_owned();
                e.append(msg.to.as_str());
                Route::Unknown(e)
            },
        }
    }

    /// The message that a local agent sends, under a fresh id.
    pub fn local_send(&self, req: LocalSendReq, cwd: String) -> (m: MeshMessage)
        requires
            self.wf(),
        ensures
            message::random_uuid(m@.id),
            exists|agent: AgentInfoView| #[trigger]
                self@.describes_sender(req.from@, cwd@, agent) && m@ == (MessageView {
                    from: req.from@,
                    to: req.to@,
                    id: m@.id,
                    kind: "send"@,
                    body: req.body@,
                    from_agent: agent,
                }),
    {
        let from_agent = self.resolve_agent_info(req.from.as_str(), cwd);
        proof {
            assert(self@.describes_sender(req.from@, cwd@, from_agent@));
        }
        compose(req.from, req.to, "send", req.body, from_agent, new_message_id())
    }

    /// The request that a local agent sends, under a fresh id.
    pub fn local_request(&self, req: LocalRequestReq, cwd: String) -> (m: MeshMessage)
        requires
            self.wf(),
        ensures
            message::random_uuid(m@.id),
            exists|agent: AgentInfoView| #[trigger]
                self@.describes_sender(req.from@, cwd@, agent) && m@ == (MessageView {
                    from: req.from@,
                    to: req.to@,
                    id: m@.id,
                    kind: "request"@,
                    body: req.body@,
                    from_agent: agent,
                }),
    {
        let from_agent = self.resolve_agent_info(req.from.as_str(), cwd);
        proof {
            assert(self@.describes_sender(req.from@, cwd@, from_agent@));
        }
        compose(req.from, req.to, "request", req.body, from_agent, new_message_id())
    }

    /// Drops the agents that did not register for too long, at the time `now`.
    pub fn prune_stale_local_agents(&mut self, now: u64)
        requires
            old(self).wf(),
        ensures
            final(self).wf(),
            final(self)@ == old(self)@.prune_stale(now),
    {
        let mut stale: Vec<String> = Vec::new();
        let mut i: usize = 0;
        while i < self.local_agents.len()
            invariant
                *self == *old(self),
                self.wf(),
                i <= self.local_agents.names().len(),
                forall|id: Seq<char>| #[trigger]
                    text::texts(stale@).contains(id) ==> self@.is_stale(id, now),
                forall|j: int|
                    0 <= j < i && self@.is_stale(#[trigger] self.local_agents.names()[j], now)
                        ==> text::texts(stale@).contains(self.local_agents.names()[j]),
            decreases self.local_agents.names().len() - i,
        {
            proof {
                self.local_agents.lemma_at(i as int);
            }
            let seen: u64 = self.local_agents.value_at(i).last_seen;
            if now >= seen && now - seen > STALE_AFTER_NANOS {
                let name = self.local_agents.name_at(i).clone();
                let ghost before = text::texts(stale@);
                stale.push(name);
                proof {
                    lemma_push_contains(before, name@);
                    assert(text::texts(stale@) =~= before.push(name@));
                }
            }
            i = i + 1;
        }
        self.local_agents.remove_all(&stale);
        self.queues.remove_all(&stale);
        self.remote_agents.remove_all(&stale);
        proof {
            let names = old(self).local_agents.names();
            let set = Set::new(|id: Seq<char>| old(self)@.is_stale(id, now));
            assert forall|id: Seq<char>| #[trigger]
                set.contains(id) == text::texts(stale@).to_set().contains(id) by {
                if old(self)@.is_stale(id, now) {
                    assert(names.contains(id));
                    assert(names[names.index_of(id)] == id);
                }
            }
            assert(set =~= text::texts(stale@).to_set());
        }
    }

    /// A peer could not be reached: drops it, and the agents that were reached through it.
    pub fn prune_peer(&mut self, peer: &str)
        requires
            old(self).wf(),
        ensures
            final(self).wf(),
            final(self)@ == old(self)@.prune_peer(peer@),
    {
        let _ = self.peers.remove(peer);
        proof {
            assert(self@.peers =~= old(self)@.peers.remove(peer@));
        }
        let nobody: Vec<String> = Vec::new();
        self.drop_departed(peer, &nobody);
        proof {
            assert(self@.remote =~= old(self)@.prune_peer(peer@).remote);
        }
    }

    /// What follows when the regular announcement to the peer at `peer` has come to an end: a
    /// peer that could not be told is dropped.
    pub fn settle_peer(&mut self, peer: &str, outcome: Result<(), String>)
        requires
            old(self).wf(),
        ensures
            final(self).wf(),
            final(self)@ == (match outcome {
                Ok(_) => old(self)@,
                Err(_) => old(self)@.prune_peer(peer@),
            }),
    {
        match outcome {
            Ok(_) => {},
            Err(_) => self.prune_peer(peer),
        }
    }

    /// A connector says something: this service's own address, or that of a peer.
    pub fn connector_event(&mut self, event: ConnectorEvent) -> (r: ConnectorAction)
        requires
            old(self).wf(),
        ensures
            final(self).wf(),
            final(self)@ == (if event.kind@ == "self"@ && event.addr is Some {
                old(self)@.advertise_as(event.addr->0@)
            } else {
                old(self)@
            }),
            match r {
                ConnectorAction::Announce(addr) => event.kind@ == "peer"@ && event.kind@
                    != "self"@ && text::opt_text(event.addr) == Some(addr@),
                ConnectorAction::Nothing => event.addr is None || event.kind@ == "self"@
                    || event.kind@ != "peer"@,
            },
    {
        match event.addr {
            None => ConnectorAction::Nothing,
            Some(addr) => {
                if str_eq(event.kind.as_str(), "self") {
                    if !self.advertise_locked {
                        self.advertise = addr;
                    }
                    ConnectorAction::Nothing
                } else if str_eq(event.kind.as_str(), "peer") {
                    ConnectorAction::Announce(addr)
                } else {
                    ConnectorAction::Nothing
                }
            },
        }
    }

    /// What to send to the peer at `peer`, and where. Nothing is sent to this service itself.
    pub fn announce_to_peer(&self, peer: &str) -> (r: Option<(String, AnnounceReq)>)
        requires
            self.wf(),
        ensures
            match r {
                Some((url, req)) => peer@ != self@.advertise && url@ == "http://"@ + peer@
                    + "/announce"@ && self@.announces(req@),
                None => peer@ == self@.advertise,
            },
    {
        if str_eq(peer, self.advertise.as_str()) {
            return None;
        }
        let req = AnnounceReq {
            protocol: PROTOCOL_VERSION,
            addr: self.advertise.clone(),
            agents: self.local_infos(),
        };
        let mut url = "http://".to_owned();
        url.append(peer);
        url.append("/announce");
        Some((url, req))
    }

    /// What came of an announcement that was sent to the peer at `peer`.
    pub fn announce_outcome(&mut self, peer: &str, event: AnnounceEvent) -> (r: AnnounceStep)
        requires
            old(self).wf(),
        ensures
            final(self).wf(),
            final(self)@ == (match event {
                AnnounceEvent::Answer(resp) => old(self)@.learn(peer@, resp@),
                _ => old(self)@,
            }),
            match event {
                AnnounceEvent::Failed(e) => r == AnnounceStep::Done(Err(e)),
                AnnounceEvent::Status { success, text } => if success {
                    r == AnnounceStep::ReadAnswer
                } else {
                    r matches AnnounceStep::Done(Err(e)) && e@ == "announce failed: "@ + text@
                },
                AnnounceEvent::Answer(resp) => if resp.protocol == PROTOCOL_VERSION {
                    r == AnnounceStep::Done(Ok(()))
                } else {
                    r matches AnnounceStep::Done(Err(e)) && e@ == "protocol mismatch: "@
                        + text::decimal(resp.protocol as nat)
                },
            },
    {
        match event {
            AnnounceEvent::Failed(e) => AnnounceStep::Done(Err(e)),
            AnnounceEvent::Status { success, text } => {
                if success {
                    AnnounceStep::ReadAnswer
                } else {
                    let mut e = "announce failed: ".to_owned();
                    e.append(text.as_str());
                    AnnounceStep::Done(Err(e))
                }
            },
            AnnounceEvent::Answer(resp) => {
                if resp.protocol != PROTOCOL_VERSION {
                    let mut e = "protocol mismatch: ".to_owned();
                    e.append(decimal_text(resp.protocol as u64).as_str());
                    return AnnounceStep::Done(Err(e));
                }
                self.learn_peers(peer, &resp);
                self.absorb(&resp.agents, resp.addr.as_str(), peer, true);
                AnnounceStep::Done(Ok(()))
            },
        }
    }

    /// Takes over the peers that a peer tells about, but for this service itself.
    fn learn_peers(&mut self, peer: &str, resp: &AnnounceResp)
        requires
            old(self).wf(),
        ensures
            final(self).wf(),
            final(self)@ == (MeshView {
                peers: old(self)@.learned_peers(peer@, resp@),
                ..old(self)@
            }),
    {
        if !str_eq(resp.addr.as_str(), self.advertise.as_str()) {
            self.peers.insert(peer.to_owned(), ());
        }
        let ghost first = self@.peers;
        let ghost told = text::texts(resp.peers@);
        let mut i: usize = 0;
        while i < resp.peers.len()
            invariant
                self.wf(),
                told == text::texts(resp.peers@),
                i <= told.len(),
                self@ == (MeshView { peers: self@.peers, ..old(self)@ }),
                forall|p: Seq<char>| #[trigger]
                    self@.peers.contains(p) == (first.contains(p) || (told.take(
                        i as int,
                    ).contains(p) && p != self@.advertise)),
            decreases told.len() - i,
        {
            let ghost before = self@.peers;
            if !str_eq(resp.peers[i].as_str(), self.advertise.as_str()) {
                self.peers.insert(resp.peers[i].clone(), ());
            }
            proof {
                lemma_push_contains(told.take(i as int), told[i as int]);
                assert(told.take(i + 1) =~= told.take(i as int).push(told[i as int]));
            }
            i = i + 1;
        }
        proof {
            assert(told.take(i as int) =~= told);
            assert(self@.peers =~= old(self)@.learned_peers(peer@, resp@));
        }
    }
}

impl<W> Inner<W> {
    /// What the service tells of itself.
    pub fn health_payload(&self, version: &str) -> (page: Json)
        requires
            self.wf(),
        ensures
            self@.health_page(version@, page@),
    {
        broadcast use json::lemma_json_view;
        let local = self.local_infos();
        let remote = self.remote_infos();
        let ghost mine = message::infos_view(local@);
        let ghost theirs = message::infos_view(remote@);
        let mut fields: Vec<(String, Json)> = Vec::new();
        fields.push(json_field("ok", Json::Bool(true)));
        fields.push(json_field("version", Json::text(version)));
        fields.push(json_field("protocol", Json::unsigned(PROTOCOL_VERSION as u64)));
        fields.push(json_field("machine", Json::Text(self.machine.clone())));
        fields.push(json_field("advertise", Json::Text(self.advertise.clone())));
        fields.push(json_field("local_agents", infos_list(&local)));
        fields.push(json_field("remote_agents", infos_list(&remote)));
        let page = Json::Object(fields);
        proof {
            assert(self@.tells_local(mine) && self@.tells_remote(theirs));
            let expected = seq![
                ("ok"@, JsonView::Bool(true)),
                ("version"@, JsonView::Text(version@)),
                ("protocol"@, json::unsigned_json(PROTOCOL_VERSION as u64)),
                ("machine"@, JsonView::Text(self@.machine)),
                ("advertise"@, JsonView::Text(self@.advertise)),
                ("local_agents"@, JsonView::List(mesh::infos_json(mine))),
                ("remote_agents"@, JsonView::List(mesh::infos_json(theirs))),
            ];
            assert(page@->Object_0 =~= expected);
        }
        page
    }

    /// The agents and the peers.
    pub fn list(&self) -> (page: Json)
        requires
            self.wf(),
        ensures
            self@.list_page(page@),
    {
        broadcast use json::lemma_json_view;
        let local = self.local_infos();
        let remote = self.remote_infos();
        let names = self.peer_names();
        let ghost mine = message::infos_view(local@);
        let ghost theirs = message::infos_view(remote@);
        let ghost peers = text::texts(names@);
        let mut fields: Vec<(String, Json)> = Vec::new();
        fields.push(json_field("local", infos_list(&local)));
        fields.push(json_field("remote", infos_list(&remote)));
        fields.push(json_field("peers", texts_list(&names)));
        fields.push(json_field("self", Json::Text(self.advertise.clone())));
        let page = Json::Object(fields);
        proof {
            assert(self@.tells_local(mine) && self@.tells_remote(theirs));
            assert(table::enumerates(peers, self@.peers));
            let expected = seq![
                ("local"@, JsonView::List(mesh::infos_json(mine))),
                ("remote"@, JsonView::List(mesh::infos_json(theirs))),
                ("peers"@, JsonView::List(mesh::texts_json(peers))),
                ("self"@, JsonView::Text(self@.advertise)),
            ];
            assert(page@->Object_0 =~= expected);
        }
        page
    }

    /// The addresses of the peers in lexicographic order, each once.
    pub fn sorted_peers(&self) -> (r: Vec<String>)
        requires
            self.wf(),
        ensures
            table::enumerates(text::texts(r@), self@.peers),
            text::sorted(text::texts(r@)),
    {
        let names = self.peer_names();
        let ghost told = text::texts(names@);
        let mut out: Vec<String> = Vec::new();
        let mut i: usize = 0;
        while i < names.len()
            invariant
                told == text::texts(names@),
                i <= told.len(),
                text::sorted(text::texts(out@)),
                forall|p: Seq<char>| #[trigger]
                    text::texts(out@).contains(p) == told.take(i as int).contains(p),
            decreases told.len() - i,
        {
            insert_sorted(&mut out, names[i].clone());
            proof {
                lemma_push_contains(told.take(i as int), told[i as int]);
                assert(told.take(i + 1) =~= told.take(i as int).push(told[i as int]));
            }
            i = i + 1;
        }
        proof {
            assert(told.take(i as int) =~= told);
            text::lemma_sorted_distinct(text::texts(out@));
        }
        out
    }
}

/// Puts a text into its place in a sorted sequence, unless it is there already.
fn insert_sorted(sorted: &mut Vec<String>, item: String)
    requires
        text::sorted(text::texts(old(sorted)@)),
    ensures
        text::sorted(text::texts(final(sorted)@)),
        forall|p: Seq<char>| #[trigger]
            text::texts(final(sorted)@).contains(p) == (text::texts(old(sorted)@).contains(p) || p
                == item@),
{
    let ghost before = text::texts(sorted@);
    let mut i: usize = 0;
    while i < sorted.len() && comes_before(sorted[i].as_str(), item.as_str())
        invariant
            i <= sorted@.len(),
            *sorted == *old(sorted),
            before == text::texts(sorted@),
            forall|j: int| 0 <= j < i ==> text::text_before(#[trigger] before[j], item@),
        decreases sorted@.len() - i,
    {
        i = i + 1;
    }
    if i < sorted.len() && str_eq(sorted[i].as_str(), item.as_str()) {
        proof {
            assert(before[i as int] == item@);
            assert(before.contains(item@));
        }
        return;
    }
    sorted.insert(i, item);
    proof {
        let after = text::texts(sorted@);
        assert(after =~= before.insert(i as int, item@));
        if i < before.len() {
            text::lemma_before_total(item@, before[i as int]);
        }
        assert forall|a: int, b: int| 0 <= a < b < after.len() implies text::text_before(
            #[trigger] after[a],
            #[trigger] after[b],
        ) by {
            let x = if a < i { a } else { a - 1 };
            let y = if b < i { b } else { b - 1 };
            if a < i && b == i {
                assert(after[a] == before[a]);
            } else if a == i && b > i {
                assert(after[b] == before[b - 1]);
                if b - 1 > i {
                    text::lemma_before_trans(item@, before[i as int], before[b - 1]);
                }
            } else {
                assert(after[a] == before[x] && after[b] == before[y]);
            }
        }
        assert forall|p: Seq<char>| #[trigger]
            after.contains(p) == (before.contains(p) || p == item@) by {
            if before.contains(p) {
                let j = before.index_of(p);
                let j2 = if j < i { j } else { j + 1 };
                assert(after[j2] == p);
            }
            if p == item@ {
                assert(after[i as int] == p);
            }
            if after.contains(p) {
                let j = after.index_of(p);
                if j < i {
                    assert(before[j] == p);
                } else if j > i {
                    assert(before[j - 1] == p);
                }
            }
        }
    }
}

/// Agents in JSON.
fn infos_list(agents: &Vec<AgentInfo>) -> (j: Json)
    ensures
        j@ == JsonView::List(mesh::infos_json(message::infos_view(agents@))),
{
    broadcast use json::lemma_json_view;
    let ghost expected = mesh::infos_json(message::infos_view(agents@));
    let mut items: Vec<Json> = Vec::new();
    let mut i: usize = 0;
    while i < agents.len()
        invariant
            i <= agents@.len(),
            expected == mesh::infos_json(message::infos_view(agents@)),
            json::items_view(items@) =~= expected.take(i as int),
        decreases agents@.len() - i,
    {
        let item = agents[i].to_json();
        let ghost before = json::items_view(items@);
        items.push(item);
        proof {
            assert(json::items_view(items@) =~= before.push(item@));
            assert(expected.take(i + 1) =~= before.push(expected[i as int]));
        }
        i = i + 1;
    }
    proof {
        assert(expected.take(i as int) =~= expected);
    }
    Json::List(items)
}

/// Texts in JSON.
fn texts_list(texts: &Vec<String>) -> (j: Json)
    ensures
        j@ == JsonView::List(mesh::texts_json(text::texts(texts@))),
{
    broadcast use json::lemma_json_view;
    let ghost expected = mesh::texts_json(text::texts(texts@));
    let mut items: Vec<Json> = Vec::new();
    let mut i: usize = 0;
    while i < texts.len()
        invariant
            i <= texts@.len(),
            expected == mesh::texts_json(text::texts(texts@)),
            json::items_view(items@) =~= expected.take(i as int),
        decreases texts@.len() - i,
    {
        let item = Json::Text(texts[i].clone());
        let ghost before = json::items_view(items@);
        items.push(item);
        proof {
            assert(json::items_view(items@) =~= before.push(item@));
            assert(expected.take(i + 1) =~= before.push(expected[i as int]));
        }
        i = i + 1;
    }
    proof {
        assert(expected.take(i as int) =~= expected);
    }
    Json::List(items)
}

/// What a sequence contains when an element is added.
proof fn lemma_push_contains(s: Seq<Seq<char>>, x: Seq<char>)
    ensures
        forall|k: Seq<char>| #[trigger] s.push(x).contains(k) == (s.contains(k) || k == x),
{
    assert forall|k: Seq<char>| #[trigger]
        s.push(x).contains(k) == (s.contains(k) || k == x) by {
        if s.contains(k) {
            let j = s.index_of(k);
            assert(s.push(x)[j] == k);
        }
        if k == x {
            assert(s.push(x)[s.len() as int] == k);
        }
    }
}

/// Which agents a peer has itself, told one agent further.
proof fn lemma_told_live_step(told: Seq<AgentInfoView>, from: Seq<char>, i: int)
    requires
        0 <= i < told.len(),
    ensures
        forall|id: Seq<char>| #[trigger]
            mesh::told_live(told.take(i + 1), from, id) == (mesh::told_live(
                told.take(i),
                from,
                id,
            ) || (told[i].addr == from && told[i].id == id)),
{
    let done = told.take(i);
    let next = told.take(i + 1);
    assert forall|id: Seq<char>| #[trigger]
        mesh::told_live(next, from, id) == (mesh::told_live(done, from, id) || (told[i].addr
            == from && told[i].id == id)) by {
        if mesh::told_live(done, from, id) {
            let j = choose|j: int|
                0 <= j < done.len() && (#[trigger] done[j]).id == id && done[j].addr == from;
            assert(next[j] == done[j]);
        }
        if mesh::told_live(next, from, id) {
            let j = choose|j: int|
                0 <= j < next.len() && (#[trigger] next[j]).id == id && next[j].addr == from;
            if j < i {
                assert(done[j] == next[j]);
            }
        }
        if told[i].addr == from && told[i].id == id {
            assert(next[i] == told[i]);
        }
    }
}

/// The elements of a sequence up to and with the next one.
proof fn lemma_take_set(s: Seq<Seq<char>>, i: int)
    requires
        0 <= i < s.len(),
    ensures
        s.take(i + 1).to_set() == s.take(i).to_set().insert(s[i]),
{
    let done = s.take(i);
    let next = s.take(i + 1);
    assert forall|k: Seq<char>|
        #[trigger] next.to_set().contains(k) == done.to_set().insert(s[i]).contains(k) by {
        if done.contains(k) {
            let j = done.index_of(k);
            assert(next[j] == k);
        }
        if k == s[i] {
            assert(next[i] == k);
        }
        if next.contains(k) {
            let j = next.index_of(k);
            assert(next[j] == k);
            if j < i {
                assert(done[j] == k);
            }
        }
    }
    assert(next.to_set() =~= done.to_set().insert(s[i]));
}

} // verus!
