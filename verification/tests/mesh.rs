use pi_mesh::address::Ip;
use pi_mesh::json::{value_str, Json};
use pi_mesh::mesh::STALE_AFTER_NANOS;
use pi_mesh::message::{
    agent_info, default_timeout_ms, network_timeout_secs, placeholder_agent_info, AgentInfo,
    AnnounceReq, AnnounceResp, LocalRequestReq, LocalSendReq, MeshMessage, RegisterReq,
    PROTOCOL_VERSION,
};
use pi_mesh::pages::format_status;
use pi_mesh::reply::{
    forbidden_reply, network_reply, request_reply, send_reply, Reply, ReplyBody,
};
use pi_mesh::state::Inner;
use pi_mesh::steps::{
    local_outcome, network_msg, remote_outcome, AnnounceEvent, AnnounceStep, Announced,
    ConnectorAction, ConnectorEvent, LocalRoute, NextEvent, NextStep, RemoteEvent, RemoteStep, Route,
};

fn service(machine: &str) -> Inner<u32> {
    Inner::new(machine.to_string(), 7373, None, Vec::new())
}

fn registration(id: &str, alias: &str) -> RegisterReq {
    RegisterReq {
        id: id.to_string(),
        alias: alias.to_string(),
        title: None,
        cwd: "~".to_string(),
        runtime: None,
    }
}

fn info(id: &str, alias: &str, addr: &str) -> AgentInfo {
    agent_info(id, alias, None, "~".to_string(), None, addr)
}

fn message(id: &str, to: &str, kind: &str) -> MeshMessage {
    MeshMessage {
        from: "me".to_string(),
        to: to.to_string(),
        id: id.to_string(),
        kind: kind.to_string(),
        body: Json::text("hi"),
        from_agent: info("me", "me", ""),
    }
}

fn announcement(addr: &str, agents: Vec<AgentInfo>) -> AnnounceReq {
    AnnounceReq { protocol: PROTOCOL_VERSION, addr: addr.to_string(), agents }
}

fn answer(addr: &str, peers: &[&str], agents: Vec<AgentInfo>) -> AnnounceResp {
    AnnounceResp {
        protocol: PROTOCOL_VERSION,
        addr: addr.to_string(),
        peers: peers.iter().map(|p| p.to_string()).collect(),
        agents,
    }
}

fn caller() -> Ip {
    Ip::V4 { octets: [10, 0, 0, 7] }
}

fn is_ok(reply: &Reply) -> bool {
    reply.status == 200
        && reply.body == ReplyBody::Json(Json::Object(vec![("ok".to_string(), Json::Bool(true))]))
}

fn text(reply: &Reply) -> (u16, &str) {
    match &reply.body {
        ReplyBody::Text(s) => (reply.status, s.as_str()),
        ReplyBody::Json(_) => panic!("a text is expected"),
    }
}

fn heard(service: &mut Inner<u32>, req: AnnounceReq) -> AnnounceResp {
    match service.announce(true, &caller(), req) {
        Announced::Accepted(resp) => resp,
        Announced::Refused(_) => panic!("the announcement is expected to be accepted"),
    }
}

#[test]
fn service_starts_at_its_machine_or_where_it_is_configured() {
    assert_eq!(service("box").advertise(), "box:7373");
    let mut fixed: Inner<u32> = Inner::new(
        "box".to_string(),
        7380,
        Some("10.0.0.1:1".to_string()),
        vec!["b:1".to_string(), "a:1".to_string(), "b:1".to_string()],
    );
    assert_eq!(fixed.advertise(), "10.0.0.1:1");
    assert_eq!(fixed.sorted_peers(), vec!["a:1", "b:1"]);
    let named = ConnectorEvent { kind: "self".to_string(), addr: Some("x:1".to_string()) };
    assert_eq!(fixed.connector_event(named), ConnectorAction::Nothing);
    assert_eq!(fixed.advertise(), "10.0.0.1:1");
}

#[test]
fn registered_agents_are_found() {
    let mut s = service("box");
    let done = s.register(registration("1", "ann"), 0);
    assert!(is_ok(&done) && done.wake);
    assert_eq!(s.resolve_local("1"), Some("1".to_string()));
    assert_eq!(s.resolve_local("ann"), Some("1".to_string()));
    assert_eq!(s.resolve_local("bob"), None);
    assert!(s.register(registration("ann", "cat"), 0).wake);
    assert_eq!(s.resolve_local("ann"), Some("ann".to_string()));
}

#[test]
fn alias_is_held_by_one_agent() {
    let mut s = service("box");
    assert!(is_ok(&s.register(registration("1", "ann"), 0)));
    assert!(!s.alias_taken("1", "ann"));
    assert!(s.alias_taken("2", "ann"));
    let refused = s.register(registration("2", "ann"), 0);
    assert_eq!(text(&refused), (409, "alias in use: ann"));
    assert!(!refused.wake);
    assert_eq!(s.resolve_local("2"), None);
    assert!(is_ok(&s.register(registration("1", "ann"), 1)));
    heard(&mut s, announcement("far:7373", vec![info("9", "bob", "far:7373")]));
    assert_eq!(text(&s.register(registration("2", "bob"), 0)), (409, "alias in use: bob"));
    assert!(is_ok(&s.register(registration("9", "bob"), 0)));
    assert_eq!(s.resolve_remote("9"), None);
}

#[test]
fn agents_that_leave_are_gone() {
    let mut s = service("box");
    s.register(registration("1", "ann"), 0);
    s.route_local(message("m", "1", "send"), 0);
    let done = s.unregister("1");
    assert!(is_ok(&done) && done.wake);
    assert_eq!(s.resolve_local("1"), None);
    assert_eq!(s.pop_next("1"), None);
    assert!(is_ok(&s.unregister("1")));
    s.register(registration("1", "ann"), 0);
    assert_eq!(s.pop_next("1"), None);
}

#[test]
fn messages_come_in_order() {
    let mut s = service("box");
    for id in ["a", "b", "c"] {
        assert_eq!(s.route_local(message(id, "1", "send"), 0), LocalRoute::Done);
        s.route_local(message("other", "2", "send"), 0);
    }
    for id in ["a", "b", "c"] {
        assert_eq!(s.pop_next("1").unwrap().id, id);
    }
    assert_eq!(s.pop_next("1"), None);
    assert_eq!(s.pop_next("2").unwrap().id, "other");
}

#[test]
fn agents_wait_for_their_next_message() {
    let mut s = service("box");
    s.register(registration("1", "ann"), 0);
    assert_eq!(s.local_next("1", NextEvent::Look), NextStep::Wait);
    s.route_local(message("m", "1", "send"), 0);
    match s.local_next("1", NextEvent::Look) {
        NextStep::Answer(reply) => match reply.body {
            ReplyBody::Json(page) => {
                assert_eq!(reply.status, 200);
                assert_eq!(value_str(&page, "id"), Some("m"));
                assert_eq!(value_str(&page, "to"), Some("1"));
                assert_eq!(value_str(&page, "from"), Some("me"));
                assert_eq!(value_str(&page, "kind"), Some("send"));
                assert_eq!(value_str(&page, "body"), Some("hi"));
                assert_eq!(value_str(page.get("from_agent").unwrap(), "alias"), Some("me"));
            }
            ReplyBody::Text(_) => panic!("a message is expected"),
        },
        NextStep::Wait => panic!("a message is expected"),
    }
    match s.local_next("1", NextEvent::TimeUp) {
        NextStep::Answer(reply) => assert_eq!(text(&reply), (204, "")),
        NextStep::Wait => panic!("an empty answer is expected"),
    }
}

#[test]
fn requests_are_answered_once() {
    let mut s = service("box");
    assert_eq!(s.route_local(message("r", "1", "request"), 41), LocalRoute::AwaitAnswer);
    assert_eq!(s.route_local(message("q", "1", "request"), 42), LocalRoute::AwaitAnswer);
    assert_eq!(s.route_local(message("s", "1", "send"), 43), LocalRoute::Done);
    let (handle, reply) = s.local_reply("r");
    assert_eq!(handle, Some(41));
    assert!(is_ok(&reply));
    let (handle, reply) = s.local_reply("r");
    assert_eq!(handle, None);
    assert_eq!(text(&reply), (404, "reply id not found"));
    assert_eq!(s.local_reply("s").0, None);
    assert_eq!(s.local_reply("q").0, Some(42));
}

#[test]
fn messages_are_routed() {
    let mut s = service("box");
    s.register(registration("1", "ann"), 0);
    heard(&mut s, announcement("far:7380", vec![info("9", "bob", "far:7380")]));
    match s.route_message(message("m", "ann", "send")) {
        Route::Local(m) => assert_eq!(m.to, "1"),
        other => panic!("{:?}", other),
    }
    for to in ["9", "bob"] {
        match s.route_message(message("m", to, "send")) {
            Route::Remote { url, msg } => {
                assert_eq!(url, "http://10.0.0.7:7380/msg");
                assert_eq!(msg.to, to);
            }
            other => panic!("{:?}", other),
        }
    }
    assert_eq!(
        s.route_message(message("m", "cat", "send")),
        Route::Unknown("unknown agent: cat".to_string())
    );
}

#[test]
fn message_reaches_an_announced_agent() {
    let mut there = service("far");
    there.register(registration("9", "bob"), 0);
    let mut here = service("box");
    let (url, req) = there.announce_to_peer("box:7373").unwrap();
    assert_eq!(url, "http://box:7373/announce");
    assert_eq!(req.addr, "far:7373");
    heard(&mut here, req);
    let sent = match here.route_message(message("m", "9", "send")) {
        Route::Remote { url, msg } => {
            assert_eq!(url, "http://10.0.0.7:7373/msg");
            msg
        }
        other => panic!("{:?}", other),
    };
    match there.route_message(sent) {
        Route::Local(msg) => {
            there.route_local(msg, 0);
        }
        other => panic!("{:?}", other),
    }
    assert_eq!(there.pop_next("9").unwrap().id, "m");
}

#[test]
fn senders_are_described() {
    let mut s = service("box");
    s.register(registration("1", "ann"), 0);
    heard(&mut s, announcement("far:7380", vec![info("9", "bob", "far:7380")]));
    let describe = |from: &str| s.resolve_agent_info(from, "~/x".to_string());
    assert_eq!(describe("1"), info("1", "ann", "box:7373"));
    assert_eq!(describe("ann"), info("1", "ann", "box:7373"));
    assert_eq!(describe("9"), info("9", "bob", "10.0.0.7:7380"));
    assert_eq!(describe("bob"), info("9", "bob", "10.0.0.7:7380"));
    assert_eq!(describe("cli"), placeholder_agent_info("cli", "~/x".to_string()));
    assert_eq!(
        describe("cli"),
        agent_info("cli", "cli", None, "~/x".to_string(), None, "")
    );
}

#[test]
fn messages_bear_fresh_ids() {
    let mut s = service("box");
    s.register(registration("1", "ann"), 0);
    let sent = s.local_send(
        LocalSendReq {
            from: "ann".to_string(),
            to: "bob".to_string(),
            body: Json::text("hi"),
        },
        "~".to_string(),
    );
    assert_eq!(sent.kind, "send");
    assert_eq!(sent.from_agent, info("1", "ann", "box:7373"));
    let asked = s.local_request(
        LocalRequestReq {
            from: "cli".to_string(),
            to: "bob".to_string(),
            body: Json::text("hi"),
            timeout_ms: default_timeout_ms(),
        },
        "~".to_string(),
    );
    assert_eq!(asked.kind, "request");
    assert_eq!(asked.to, "bob");
    assert_ne!(sent.id, asked.id);
    for id in [&sent.id, &asked.id] {
        assert_eq!(id.len(), 36);
        assert_eq!(&id[14..15], "4");
        assert_eq!(id.matches('-').count(), 4);
    }
    assert_eq!(default_timeout_ms(), 30_000);
    assert_eq!(network_timeout_secs(&sent), 1);
    assert_eq!(network_timeout_secs(&asked), 30);
    assert_eq!(network_msg(true, &sent), Ok(1));
    assert_eq!(network_msg(true, &asked), Ok(30));
    assert_eq!(text(&network_msg(false, &asked).unwrap_err()), (403, "forbidden"));
}

#[test]
fn announcements_are_refused() {
    let mut s = service("box");
    let mut other = announcement("far:7373", vec![info("9", "bob", "far:7373")]);
    other.protocol = PROTOCOL_VERSION + 1;
    match s.announce(true, &caller(), other) {
        Announced::Refused(reply) => assert_eq!(text(&reply), (426, "protocol mismatch")),
        Announced::Accepted(_) => panic!("a refusal is expected"),
    }
    let other = announcement("far:7373", vec![info("9", "bob", "far:7373")]);
    match s.announce(false, &caller(), other) {
        Announced::Refused(reply) => assert_eq!(text(&reply), (403, "forbidden")),
        Announced::Accepted(_) => panic!("a refusal is expected"),
    }
    assert_eq!(text(&forbidden_reply()), (403, "forbidden"));
    heard(&mut s, announcement("box:7373", vec![info("9", "bob", "far:7373")]));
    assert_eq!(s.resolve_remote("9"), None);
    assert_eq!(s.sorted_peers(), Vec::<String>::new());
}

#[test]
fn announced_agents_replace_those_that_left() {
    let mut s = service("box");
    s.register(registration("1", "ann"), 0);
    let resp = heard(
        &mut s,
        announcement(
            "far:7380",
            vec![
                info("8", "cat", "far:7380"),
                info("9", "bob", "far:7380"),
                info("1", "eve", "far:7380"),
                info("7", "dan", "third:7373"),
            ],
        ),
    );
    assert_eq!(resp.addr, "box:7373");
    assert_eq!(resp.protocol, PROTOCOL_VERSION);
    assert_eq!(resp.peers, vec!["10.0.0.7:7380"]);
    assert_eq!(resp.agents.len(), 4);
    assert_eq!(resp.agents[0], info("1", "ann", "box:7373"));
    assert_eq!(s.resolve_remote("9").unwrap().addr, "10.0.0.7:7380");
    assert_eq!(s.resolve_remote("7").unwrap().addr, "third:7373");
    assert_eq!(s.resolve_remote("1"), None);
    for _ in 0..2 {
        heard(&mut s, announcement("far:7380", vec![info("9", "bob", "far:7380")]));
        assert_eq!(s.resolve_remote("8"), None);
        assert_eq!(s.resolve_remote("9").unwrap().alias, "bob");
        assert_eq!(s.resolve_remote("7").unwrap().addr, "third:7373");
        assert_eq!(s.sorted_peers(), vec!["10.0.0.7:7380"]);
    }
}

#[test]
fn service_does_not_announce_to_itself() {
    let s = service("box");
    assert!(s.announce_to_peer("box:7373").is_none());
    let (url, req) = s.announce_to_peer("far:1").unwrap();
    assert_eq!(url, "http://far:1/announce");
    assert_eq!(req, announcement("box:7373", vec![]));
}

#[test]
fn announcements_come_to_an_end() {
    let mut s = service("box");
    let failed = AnnounceEvent::Failed("no route".to_string());
    assert_eq!(
        s.announce_outcome("far:1", failed),
        AnnounceStep::Done(Err("no route".to_string()))
    );
    let refused = AnnounceEvent::Status { success: false, text: "403 Forbidden".to_string() };
    assert_eq!(
        s.announce_outcome("far:1", refused),
        AnnounceStep::Done(Err("announce failed: 403 Forbidden".to_string()))
    );
    let fine = AnnounceEvent::Status { success: true, text: "200 OK".to_string() };
    assert_eq!(s.announce_outcome("far:1", fine), AnnounceStep::ReadAnswer);
    let mut other = answer("far:7373", &["x:1"], vec![]);
    other.protocol = 2;
    assert_eq!(
        s.announce_outcome("far:1", AnnounceEvent::Answer(other)),
        AnnounceStep::Done(Err("protocol mismatch: 2".to_string()))
    );
    assert_eq!(s.sorted_peers(), Vec::<String>::new());
}

#[test]
fn answers_are_learned() {
    let mut s = service("box");
    s.register(registration("1", "ann"), 0);
    let resp = || {
        answer(
            "far:7373",
            &["third:1", "box:7373"],
            vec![
                info("9", "bob", "far:7373"),
                info("1", "eve", "far:7373"),
                info("7", "dan", "third:1"),
                info("6", "fay", "box:7373"),
            ],
        )
    };
    for _ in 0..2 {
        assert_eq!(
            s.announce_outcome("far:1", AnnounceEvent::Answer(resp())),
            AnnounceStep::Done(Ok(()))
        );
        assert_eq!(s.sorted_peers(), vec!["far:1", "third:1"]);
        assert_eq!(s.resolve_remote("bob").unwrap().addr, "far:1");
        assert_eq!(s.resolve_remote("dan").unwrap().addr, "third:1");
        assert_eq!(s.resolve_remote("6"), None);
        assert_eq!(s.resolve_remote("1"), None);
    }
    let gone = answer("far:7373", &[], vec![]);
    s.announce_outcome("far:1", AnnounceEvent::Answer(gone));
    assert_eq!(s.resolve_remote("bob"), None);
    assert_eq!(s.resolve_remote("dan").unwrap().addr, "third:1");
    let own = answer("box:7373", &[], vec![]);
    s.announce_outcome("loop:1", AnnounceEvent::Answer(own));
    assert_eq!(s.sorted_peers(), vec!["far:1", "third:1"]);
}

#[test]
fn unreachable_peers_are_pruned() {
    let mut s = service("box");
    assert!(is_ok(&s.local_peer("third:1")));
    let resp = answer(
        "far:7373",
        &[],
        vec![info("9", "bob", "far:7373"), info("7", "dan", "third:1")],
    );
    s.announce_outcome("far:1", AnnounceEvent::Answer(resp));
    s.settle_peer("far:1", Ok(()));
    assert_eq!(s.resolve_remote("9").unwrap().alias, "bob");
    s.settle_peer("far:1", Err("no route".to_string()));
    assert_eq!(s.sorted_peers(), vec!["third:1"]);
    assert_eq!(s.resolve_remote("9"), None);
    assert_eq!(s.resolve_remote("7").unwrap().alias, "dan");
}

#[test]
fn stale_agents_are_pruned() {
    let mut s = service("box");
    s.register(registration("1", "ann"), 100);
    s.register(registration("2", "bob"), 200);
    s.route_local(message("m", "2", "send"), 0);
    s.prune_stale_local_agents(100 + STALE_AFTER_NANOS);
    assert_eq!(s.resolve_local("1"), Some("1".to_string()));
    s.prune_stale_local_agents(101 + STALE_AFTER_NANOS);
    assert_eq!(s.resolve_local("1"), None);
    assert_eq!(s.resolve_local("2"), Some("2".to_string()));
    assert_eq!(s.pop_next("2").unwrap().id, "m");
    s.prune_stale_local_agents(0);
    assert_eq!(s.resolve_local("2"), Some("2".to_string()));
    assert_eq!(STALE_AFTER_NANOS, 3_000_000_000);
}

#[test]
fn connector_events_are_obeyed() {
    let mut s = service("box");
    let event = |kind: &str, addr: Option<&str>| ConnectorEvent {
        kind: kind.to_string(),
        addr: addr.map(|a| a.to_string()),
    };
    assert_eq!(
        s.connector_event(event("peer", Some("far:1"))),
        ConnectorAction::Announce("far:1".to_string())
    );
    assert_eq!(s.connector_event(event("peer", None)), ConnectorAction::Nothing);
    assert_eq!(s.connector_event(event("other", Some("x"))), ConnectorAction::Nothing);
    assert_eq!(s.advertise(), "box:7373");
    assert_eq!(s.connector_event(event("self", Some("100.64.0.7:1"))), ConnectorAction::Nothing);
    assert_eq!(s.advertise(), "100.64.0.7:1");
    s.connector_event(event("self", Some("100.64.0.9:2")));
    s.connector_event(event("peer", Some("far:1")));
    assert_eq!(s.advertise(), "100.64.0.9:2");
}

#[test]
fn pages_tell_of_the_service() {
    let mut s = service("box");
    s.register(registration("1", "ann"), 0);
    heard(&mut s, announcement("far:7380", vec![info("9", "bob", "far:7380")]));
    let health = s.health_payload("1.2.3");
    assert_eq!(health.get("ok").unwrap().as_bool(), Some(true));
    assert_eq!(value_str(&health, "version"), Some("1.2.3"));
    assert_eq!(health.get("protocol").unwrap().as_unsigned(), Some(3));
    assert_eq!(value_str(&health, "machine"), Some("box"));
    assert_eq!(value_str(&health, "advertise"), Some("box:7373"));
    let local = health.get("local_agents").unwrap().as_list().unwrap();
    assert_eq!(local.len(), 1);
    assert_eq!(local[0], info("1", "ann", "box:7373").to_json());
    assert_eq!(
        format_status(&health, "3"),
        "pi-mesh: running\nversion: 1.2.3\nprotocol: 3\nmachine: box\naddr: box:7373"
    );
    let list = s.list();
    assert_eq!(list.get("local").unwrap().as_list().unwrap().len(), 1);
    let remote = list.get("remote").unwrap().as_list().unwrap();
    assert_eq!(remote[0], info("9", "bob", "10.0.0.7:7380").to_json());
    assert_eq!(remote[0].get("title"), Some(&Json::Null));
    assert_eq!(
        list.get("peers"),
        Some(&Json::List(vec![Json::text("10.0.0.7:7380")]))
    );
    assert_eq!(value_str(&list, "self"), Some("box:7373"));
}

#[test]
fn messages_to_peers_come_to_an_end() {
    let status = |success: bool| RemoteEvent::Status { success, text: "500 Oops".to_string() };
    assert_eq!(
        remote_outcome("send", RemoteEvent::Failed("no route".to_string())),
        RemoteStep::Done(Err("no route".to_string()))
    );
    assert_eq!(
        remote_outcome("request", status(false)),
        RemoteStep::Done(Err("peer returned 500 Oops".to_string()))
    );
    assert_eq!(remote_outcome("request", status(true)), RemoteStep::ReadAnswer);
    assert_eq!(
        remote_outcome("send", status(true)),
        RemoteStep::Done(Ok(Json::Bool(true)))
    );
    let page = network_reply(Ok(Json::text("42")));
    match page.body {
        ReplyBody::Json(body) => assert_eq!(
            remote_outcome("request", RemoteEvent::Answer(body)),
            RemoteStep::Done(Ok(Json::text("42")))
        ),
        ReplyBody::Text(_) => panic!("a page is expected"),
    }
    assert_eq!(
        remote_outcome("request", RemoteEvent::Answer(Json::Null)),
        RemoteStep::Done(Ok(Json::Null))
    );
}

#[test]
fn outcomes_are_answered() {
    assert_eq!(local_outcome(LocalRoute::Done, None), Ok(Json::Bool(true)));
    assert_eq!(
        local_outcome(LocalRoute::AwaitAnswer, Some(Json::text("42"))),
        Ok(Json::text("42"))
    );
    assert_eq!(
        local_outcome(LocalRoute::AwaitAnswer, None),
        Err("request timed out".to_string())
    );
    let failed = || Err("why".to_string());
    assert!(is_ok(&send_reply(Ok(Json::Null))));
    assert_eq!(text(&send_reply(failed())), (502, "why"));
    assert_eq!(text(&request_reply(failed())), (504, "why"));
    assert_eq!(text(&network_reply(failed())), (502, "why"));
    for reply in [request_reply(Ok(Json::text("42"))), network_reply(Ok(Json::text("42")))] {
        assert_eq!(reply.status, 200);
        match reply.body {
            ReplyBody::Json(page) => {
                assert_eq!(page.get("ok"), Some(&Json::Bool(true)));
                assert_eq!(value_str(&page, "body"), Some("42"));
            }
            ReplyBody::Text(_) => panic!("a page is expected"),
        }
    }
}

#[test]
fn messages_and_requests_wait_through_other_steps() {
    let mut s = service("box");
    s.register(registration("1", "ann"), 0);
    s.route_local(message("r", "1", "request"), 41);
    s.register(registration("2", "bob"), 0);
    heard(&mut s, announcement("far:7380", vec![info("1", "eve", "far:7380")]));
    let resp = answer("far:7380", &[], vec![info("1", "eve", "far:7380")]);
    s.announce_outcome("far:1", AnnounceEvent::Answer(resp));
    s.prune_peer("far:1");
    s.prune_stale_local_agents(STALE_AFTER_NANOS);
    s.unregister("2");
    s.register(registration("1", "ann"), 1);
    assert_eq!(s.pop_next("1").unwrap().id, "r");
    assert_eq!(s.local_reply("r").0, Some(41));
}
