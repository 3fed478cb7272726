//! The connector for Tailscale: what it makes of its arguments, of the status of the
//! network, and of the answer to the question who calls.

use crate::connector;
use crate::connector::ProgramOutput;
use crate::json;
use crate::json::{json_field, value_str, Json, JsonView};
use crate::jsontext;
use crate::jsontext::parse_json;
use crate::text;
use crate::text::{str_eq, trim_end_matches};
use vstd::prelude::*;
use vstd::string::*;

verus! {

/// What the connector tells a user who calls it wrongly.
pub const USAGE: &'static str =
    "usage: pi-mesh-tailscale run --port 7373 | auth --remote-ip 100.x.y.z";

/// The argument behind the first `name` that has one behind it.
pub open spec fn argument(args: Seq<Seq<char>>, name: Seq<char>) -> Option<Seq<char>>
    decreases args.len(),
{
    if args.len() < 2 {
        None
    } else if args[0] == name {
        Some(args[1])
    } else {
        argument(args.drop_first(), name)
    }
}

/// The argument behind the first `name` that has one behind it.
pub fn arg<'a>(args: &'a [String], name: &str) -> (r: Option<&'a str>)
    ensures
        text::opt_str(r) == argument(text::texts(args@), name@),
{
    let ghost all = text::texts(args@);
    let mut i: usize = 0;
    proof {
        assert(all.skip(0) =~= all);
    }
    while i < args.len() && args.len() - i >= 2
        invariant
            i <= args@.len(),
            all == text::texts(args@),
            argument(all, name@) == argument(all.skip(i as int), name@),
        decreases args@.len() - i,
    {
        proof {
            let rest = all.skip(i as int);
            assert(rest[0] == args@[i as int]@);
            assert(rest[1] == args@[i + 1]@);
            assert(rest.drop_first() =~= all.skip(i + 1));
        }
        if str_eq(args[i].as_str(), name) {
            return Some(args[i + 1].as_str());
        }
        i = i + 1;
    }
    None
}

/// What the connector is asked to do.
#[derive(Debug, PartialEq)]
pub enum Mode {
    /// Say whether the caller with this address is let in, where an address is given.
    Auth(Option<String>),
    /// Tell the peers, which listen on this port.
    Run(String),
    /// Nothing that it knows.
    Usage,
}

/// What a command line of the connector asks, with the name of the program in front.
pub open spec fn asked(args: Seq<Seq<char>>, mode: Mode) -> bool {
    if args.len() > 1 && args[1] == "auth"@ {
        mode matches Mode::Auth(ip) && text::opt_text(ip) == argument(args, "--remote-ip"@)
    } else if args.len() > 1 && args[1] == "run"@ {
        mode matches Mode::Run(port) && port@ == match argument(args, "--port"@) {
            Some(p) => p,
            None => "7373"@,
        }
    } else {
        mode is Usage
    }
}

/// What the command line `args` asks.
pub fn parse_mode(args: &[String]) -> (r: Mode)
    ensures
        asked(text::texts(args@), r),
{
    if args.len() > 1 && str_eq(args[1].as_str(), "auth") {
        match arg(args, "--remote-ip") {
            Some(ip) => Mode::Auth(Some(ip.to_owned())),
            None => Mode::Auth(None),
        }
    } else if args.len() > 1 && str_eq(args[1].as_str(), "run") {
        match arg(args, "--port") {
            Some(port) => Mode::Run(port.to_owned()),
            None => Mode::Run("7373".to_owned()),
        }
    } else {
        Mode::Usage
    }
}

/// The answer to the question whether a caller is let in, where `known` says whether the
/// network knows it. Without an address there is nobody to ask about.
pub open spec fn auth_json(known: Option<bool>) -> JsonView {
    match known {
        Some(ok) => JsonView::Object(
            seq![("allow"@, JsonView::Bool(ok)), ("source"@, JsonView::Text("tailscale"@))],
        ),
        None => JsonView::Object(seq![("allow"@, JsonView::Bool(false))]),
    }
}

/// The answer to the question whether a caller is let in.
pub fn auth_reply(known: Option<bool>) -> (r: Json)
    ensures
        r@ == auth_json(known),
{
    broadcast use json::lemma_json_view;
    match known {
        Some(ok) => {
            let r = Json::Object(
                vec![
                    json_field("allow", Json::Bool(ok)),
                    json_field("source", Json::text("tailscale")),
                ],
            );
            proof {
                assert(r@->Object_0 =~= auth_json(known)->Object_0);
            }
            r
        },
        None => {
            let r = Json::Object(vec![json_field("allow", Json::Bool(false))]);
            proof {
                assert(r@->Object_0 =~= auth_json(known)->Object_0);
            }
            r
        },
    }
}

/// The first Tailscale address of a machine, where it is listed.
pub open spec fn first_ip(machine: JsonView) -> Option<Seq<char>> {
    match machine.get("TailscaleIPs"@) {
        Some(ips) => match ips.as_list() {
            Some(list) => if list.len() > 0 {
                list[0].as_text()
            } else {
                None
            },
            None => None,
        },
        None => None,
    }
}

/// The DNS name of a machine without the dots at its end, where something is left.
pub open spec fn dns_name(machine: JsonView) -> Option<Seq<char>> {
    match machine.text_at("DNSName"@) {
        Some(name) => if text::trim_end(name, "."@).len() > 0 {
            Some(text::trim_end(name, "."@))
        } else {
            None
        },
        None => None,
    }
}

/// Where a machine is reached: at its first Tailscale address, else under its DNS name.
pub open spec fn machine_address(machine: JsonView, port: Seq<char>) -> Option<Seq<char>> {
    match first_ip(machine) {
        Some(ip) => Some(ip + ":"@ + port),
        None => match dns_name(machine) {
            Some(name) => Some(name + ":"@ + port),
            None => None,
        },
    }
}

fn find_first_ip<'a>(machine: &'a Json) -> (r: Option<&'a str>)
    ensures
        text::opt_str(r) == first_ip(machine@),
{
    match machine.get("TailscaleIPs") {
        Some(ips) => match ips.as_list() {
            Some(list) => {
                if list.len() > 0 {
                    list[0].as_text()
                } else {
                    None
                }
            },
            None => None,
        },
        None => None,
    }
}

fn find_dns_name<'a>(machine: &'a Json) -> (r: Option<&'a str>)
    ensures
        text::opt_str(r) == dns_name(machine@),
{
    match value_str(machine, "DNSName") {
        Some(name) => {
            let bare = trim_end_matches(name, ".");
            if bare.is_empty() {
                None
            } else {
                Some(bare)
            }
        },
        None => None,
    }
}

/// Where a machine is reached, where it can be.
pub fn reached_at(machine: &Json, port: &str) -> (r: Option<String>)
    ensures
        text::opt_text(r) == machine_address(machine@, port@),
{
    let host = match find_first_ip(machine) {
        Some(ip) => ip,
        None => match find_dns_name(machine) {
            Some(name) => name,
            None => {
                return None;
            },
        },
    };
    let mut out = host.to_owned();
    out.append(":");
    out.append(port);
    Some(out)
}

/// An event of the connector: an address, and whose it is.
pub open spec fn event_json(kind: Seq<char>, addr: Seq<char>) -> JsonView {
    JsonView::Object(
        seq![
            ("type"@, JsonView::Text(kind)),
            ("addr"@, JsonView::Text(addr)),
            ("source"@, JsonView::Text("tailscale"@)),
        ],
    )
}

/// An event of the connector.
pub fn event(kind: &str, addr: &str) -> (r: Json)
    ensures
        r@ == event_json(kind@, addr@),
{
    broadcast use json::lemma_json_view;
    let r = Json::Object(
        vec![
            json_field("type", Json::text(kind)),
            json_field("addr", Json::text(addr)),
            json_field("source", Json::text("tailscale")),
        ],
    );
    proof {
        assert(r@->Object_0 =~= event_json(kind@, addr@)->Object_0);
    }
    r
}

/// The event that tells where a machine is reached, where it can be.
pub open spec fn told(kind: Seq<char>, machine: JsonView, port: Seq<char>) -> Seq<JsonView> {
    match machine_address(machine, port) {
        Some(addr) => seq![event_json(kind, addr)],
        None => seq![],
    }
}

/// Whether a machine is known to be away.
pub open spec fn offline(machine: JsonView) -> bool {
    match machine.get("Online"@) {
        Some(v) => v.as_bool() == Some(false),
        None => false,
    }
}

/// The events that tell the peers, in their order: one for each that is not away and can be
/// reached.
pub open spec fn peer_events(peers: Seq<(Seq<char>, JsonView)>, port: Seq<char>) -> Seq<
    JsonView,
>
    decreases peers.len(),
{
    if peers.len() == 0 {
        seq![]
    } else {
        let before = peer_events(peers.drop_last(), port);
        let peer = peers.last().1;
        if offline(peer) {
            before
        } else {
            before + told("peer"@, peer, port)
        }
    }
}

/// The events that a status of the network gives: the address of this machine, and those of
/// its peers.
pub open spec fn status_events(status: JsonView, port: Seq<char>) -> Seq<JsonView> {
    let own = match status.get("Self"@) {
        Some(machine) => told("self"@, machine, port),
        None => seq![],
    };
    let others = match status.get("Peer"@) {
        Some(peers) => match peers.as_object() {
            Some(fields) => peer_events(fields, port),
            None => seq![],
        },
        None => seq![],
    };
    own + others
}

fn tell(out: &mut Vec<Json>, kind: &str, machine: &Json, port: &str)
    ensures
        json::items_view(final(out)@) == json::items_view(old(out)@) + told(
            kind@,
            machine@,
            port@,
        ),
{
    let ghost before = json::items_view(out@);
    match reached_at(machine, port) {
        Some(addr) => {
            let e = event(kind, addr.as_str());
            out.push(e);
            proof {
                assert(json::items_view(out@) =~= before + seq![e@]);
            }
        },
        None => {
            proof {
                assert(before =~= before + Seq::<JsonView>::empty());
            }
        },
    }
}

fn is_offline(machine: &Json) -> (r: bool)
    ensures
        r == offline(machine@),
{
    match machine.get("Online") {
        Some(v) => match v.as_bool() {
            Some(online) => !online,
            None => false,
        },
        None => false,
    }
}

/// The events that a status of the network gives, for services that listen on `port`.
pub fn events(status: &Json, port: &str) -> (r: Vec<Json>)
    ensures
        json::items_view(r@) == status_events(status@, port@),
{
    let mut out: Vec<Json> = Vec::new();
    proof {
        assert(json::items_view(out@) =~= Seq::<JsonView>::empty());
    }
    match status.get("Self") {
        Some(machine) => {
            tell(&mut out, "self", machine, port);
        },
        None => {},
    }
    let ghost own = json::items_view(out@);
    proof {
        assert(own =~= own + Seq::<JsonView>::empty());
        assert(own =~= match status@.get("Self"@) {
            Some(machine) => told("self"@, machine, port@),
            None => seq![],
        });
    }
    match status.get("Peer") {
        Some(peers) => match peers.as_object() {
            Some(fields) => {
                let ghost all = json::fields_view(fields@);
                let mut i: usize = 0;
                proof {
                    assert(all.take(0) =~= seq![]);
                }
                while i < fields.len()
                    invariant
                        i <= fields@.len(),
                        all == json::fields_view(fields@),
                        json::items_view(out@) == own + peer_events(all.take(i as int), port@),
                    decreases fields@.len() - i,
                {
                    let ghost here = all.take(i + 1);
                    proof {
                        assert(here.drop_last() =~= all.take(i as int));
                        assert(here.last().1 == fields@[i as int].1@);
                    }
                    if !is_offline(&fields[i].1) {
                        tell(&mut out, "peer", &fields[i].1, port);
                        proof {
                            assert(json::items_view(out@) =~= own + peer_events(here, port@));
                        }
                    }
                    i = i + 1;
                }
                proof {
                    assert(all.take(i as int) =~= all);
                }
            },
            None => {},
        },
        None => {},
    }
    out
}

/// The events that the output of a status command gives: none where the command did not run,
/// failed, or wrote no JSON.
pub fn discover(output: &Option<ProgramOutput>, port: &str) -> (r: Vec<Json>)
    ensures
        json::items_view(r@) == (match *output {
            Some(o) => match jsontext::parsed_json(o.stdout@) {
                Some(status) => if o.success {
                    status_events(status, port@)
                } else {
                    seq![]
                },
                None => seq![],
            },
            None => seq![],
        }),
{
    match output {
        Some(o) => {
            if o.success {
                match parse_json(o.stdout.as_slice()) {
                    Some(status) => {
                        return events(&status, port);
                    },
                    None => {},
                }
            }
        },
        None => {},
    }
    let none: Vec<Json> = Vec::new();
    proof {
        assert(json::items_view(none@) =~= Seq::<JsonView>::empty());
    }
    none
}

proof fn lemma_peer_events(peers: Seq<(Seq<char>, JsonView)>, port: Seq<char>)
    ensures
        forall|i: int|
            0 <= i < peers.len() && !offline((#[trigger] peers[i]).1) && machine_address(
                peers[i].1,
                port,
            ) is Some ==> peer_events(peers, port).contains(
                event_json("peer"@, machine_address(peers[i].1, port)->0),
            ),
        forall|e: JsonView|
            #[trigger] peer_events(peers, port).contains(e) ==> exists|i: int|
                0 <= i < peers.len() && !offline((#[trigger] peers[i]).1) && machine_address(
                    peers[i].1,
                    port,
                ) is Some && e == event_json("peer"@, machine_address(peers[i].1, port)->0),
    decreases peers.len(),
{
    if peers.len() > 0 {
        let front = peers.drop_last();
        let before = peer_events(front, port);
        let all = peer_events(peers, port);
        let last = peers.len() - 1;
        lemma_peer_events(front, port);
        let added = if offline(peers.last().1) {
            seq![]
        } else {
            told("peer"@, peers.last().1, port)
        };
        assert(all =~= before + added);
        assert forall|e: JsonView| #[trigger] all.contains(e) == (before.contains(e)
            || added.contains(e)) by {
            if before.contains(e) {
                let k = before.index_of(e);
                assert(all[k] == e);
            }
            if added.contains(e) {
                let k = added.index_of(e);
                assert(all[before.len() + k] == e);
            }
            if all.contains(e) {
                let k = all.index_of(e);
                if k < before.len() {
                    assert(before[k] == e);
                } else {
                    assert(added[k - before.len()] == e);
                }
            }
        }
        assert forall|i: int|
            0 <= i < peers.len() && !offline((#[trigger] peers[i]).1) && machine_address(
                peers[i].1,
                port,
            ) is Some implies all.contains(
            event_json("peer"@, machine_address(peers[i].1, port)->0),
        ) by {
            let e = event_json("peer"@, machine_address(peers[i].1, port)->0);
            if i < last {
                assert(front[i] == peers[i]);
                assert(before.contains(e));
            } else {
                assert(added[0] == e);
                assert(added.contains(e));
            }
        }
        assert forall|e: JsonView| #[trigger] all.contains(e) implies exists|i: int|
            0 <= i < peers.len() && !offline((#[trigger] peers[i]).1) && machine_address(
                peers[i].1,
                port,
            ) is Some && e == event_json("peer"@, machine_address(peers[i].1, port)->0) by {
            if before.contains(e) {
                let i = choose|i: int|
                    0 <= i < front.len() && !offline((#[trigger] front[i]).1)
                        && machine_address(front[i].1, port) is Some && e == event_json(
                        "peer"@,
                        machine_address(front[i].1, port)->0,
                    );
                assert(peers[i] == front[i]);
            } else {
                assert(added.contains(e));
                assert(peers[last] == peers.last());
            }
        }
    }
}

/// Law: the connector tells exactly the peers that are not away and can be reached, each at
/// the one address where it is reached.
pub proof fn law_reachable_peers_are_told(
    peers: Seq<(Seq<char>, JsonView)>,
    port: Seq<char>,
    addr: Seq<char>,
)
    ensures
        peer_events(peers, port).contains(event_json("peer"@, addr)) <==> exists|i: int|
            0 <= i < peers.len() && !offline((#[trigger] peers[i]).1) && machine_address(
                peers[i].1,
                port,
            ) == Some(addr),
{
    lemma_peer_events(peers, port);
    let e = event_json("peer"@, addr);
    assert forall|other: Seq<char>| #[trigger] event_json("peer"@, other) == e implies other
        == addr by {
        assert(event_json("peer"@, other)->Object_0[1].1 == e->Object_0[1].1);
    }
}

/// Law: a service that asks this connector lets a caller in exactly if the network knows it.
pub proof fn law_known_callers_are_allowed(known: Option<bool>)
    ensures
        connector::page_allows(auth_json(known)) <==> known == Some(true),
{
    json::lemma_field_at(auth_json(known)->Object_0, 0);
}

/// Law: the kind and the address of an event can be read back from it.
pub proof fn law_event_is_read_back(kind: Seq<char>, addr: Seq<char>)
    ensures
        event_json(kind, addr).text_at("type"@) == Some(kind),
        event_json(kind, addr).text_at("addr"@) == Some(addr),
{
    let fields = event_json(kind, addr)->Object_0;
    reveal_strlit("type");
    reveal_strlit("addr");
    assert("type"@[0] == 't' && "addr"@[0] == 'a');
    json::lemma_field_at(fields, 0);
    json::lemma_field_at(fields, 1);
}

} // verus!
