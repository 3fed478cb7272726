//! What is made of texts, addresses, connectors and their output: of each call, for every
//! result that it can have.

use crate::address;
use crate::address::{
    check_loopback, control_base, control_url, dotted_text, ensure_loopback_control_url,
    listen_ports, next_port, parse_ipv4, reachable_addr, Ip, PortStep, UrlParts,
};
use crate::connector::{
    answer_allows, authorize, authorize_next, connector_allows, connector_metadata,
    connector_name, event_lines, find_connectors, is_connector, is_executable, AuthStep, Entry,
    ProgramOutput,
};
use crate::errors::MeshError;
use crate::json;
use crate::json::{Json, JsonView};
use crate::jsontext;
use crate::laws_network;
use crate::laws_text;
use crate::machine::choose_name;
use crate::paths;
use crate::paths::{path_comes_before, PathPart};
use crate::tailscale;
use crate::tailscale::{arg, auth_reply, discover, event, events, parse_mode, reached_at, Mode};
use crate::text;
use crate::text::{
    comes_before, decimal_text, ends_with, find_last, forward_slashes, join_strings, parse_u16,
    parse_u64, starts_with, str_eq, text_lines, trim_end_matches, trim_start_matches,
};
use serde_json::Value;
use vstd::prelude::*;

verus! {

/// Law: a peer that advertises a host and a port is reached where it calls from, at that port;
/// one that advertises no port at port 7373.
pub proof fn law_reachable_addr(
    advertised: &str,
    octets: [u8; 4],
    r: String,
    host: Seq<char>,
    port: nat,
)
    requires
        call_ensures(reachable_addr, (advertised, &Ip::V4 { octets }), r),
        port <= 65535,
    ensures
        advertised@ == host + seq![':'] + text::decimal(port) ==> r@ == address::dotted(octets@)
            + ":"@ + text::decimal(port),
        !advertised@.contains(':') ==> r@ == address::dotted(octets@) + ":"@ + text::decimal(7373),
{
    laws_network::law_port_stands_behind_the_last_colon(host, port, advertised@);
    laws_network::law_addresses_are_written_out(octets, Ip::V4 { octets }, port);
    laws_network::law_addresses_are_written_out(octets, Ip::V4 { octets }, 7373);
}

/// Law: an address is written with the numbers that it consists of, and a text is read as the
/// four numbers that it is written with, and as none where it is not written so.
pub proof fn law_ipv4_is_written_and_read(
    octets: [u8; 4],
    written: String,
    s: &str,
    read: Option<[u8; 4]>,
    six: &Ip,
    shown: String,
)
    requires
        call_ensures(dotted_text, (&octets,), written),
        call_ensures(parse_ipv4, (s,), read),
        call_ensures(Ip::to_text, (six,), shown),
    ensures
        written@ == text::decimal(octets@[0] as nat) + "."@ + text::decimal(octets@[1] as nat)
            + "."@ + text::decimal(octets@[2] as nat) + "."@ + text::decimal(octets@[3] as nat),
        s@ == written@ ==> (read matches Some(o) && o@ == octets@),
        read matches Some(o) ==> s@ == text::decimal(o@[0] as nat) + "."@ + text::decimal(
            o@[1] as nat,
        ) + "."@ + text::decimal(o@[2] as nat) + "."@ + text::decimal(o@[3] as nat),
        *six is V6 ==> shown@ == six->text@,
{
    laws_network::law_addresses_are_written_out(octets, Ip::V4 { octets }, 0);
    match read {
        Some(o) => {
            laws_network::law_addresses_are_written_out(o, Ip::V4 { octets: o }, 0);
            if s@ == written@ {
                address::law_dotted_notation_is_unique(octets@, o@);
            }
        },
        None => {
            if s@ == written@ {
                assert(s@ == address::dotted(octets@));
            }
        },
    }
}

/// Law: an address is of this machine exactly if it begins with 127 or is one, of version 6.
pub proof fn law_is_loopback(octets: [u8; 4], four: bool, ip: &Ip, six: bool)
    requires
        call_ensures(Ip::is_loopback, (&Ip::V4 { octets },), four),
        call_ensures(Ip::is_loopback, (ip,), six),
    ensures
        four <==> octets@[0] == 127,
        *ip is V6 ==> (six <==> ip->segments@ == seq![0u16, 0, 0, 0, 0, 0, 0, 1]),
{
    laws_network::law_only_this_machine_is_loopback(octets, *ip);
}

/// Law: the ports to try begin where configured and end at 7399, or where they begin; after
/// one comes the next, up to the last.
pub proof fn law_ports(
    words: &str,
    port: nat,
    unset: (u16, u16),
    set: (u16, u16),
    at: u16,
    last: u16,
    step: PortStep,
)
    requires
        call_ensures(listen_ports, (None,), unset),
        call_ensures(listen_ports, (Some(words),), set),
        call_ensures(next_port, (at, last), step),
        port <= 65535,
    ensures
        unset == (7373u16, 7399u16),
        words@ == text::decimal(port) ==> set.0 == port && set.1 == (if port > 7399 {
            port
        } else {
            7399
        }),
        text::unsigned_value(words@, 65535) is None ==> set == (7373u16, 7399u16),
        at < last ==> step == PortStep::Try((at + 1) as u16),
        at >= last ==> step is NoneFree,
{
    laws_network::law_ports_begin_where_configured(words@, port);
}

/// Law: the control service is asked at its configured URL, or at port 7372 of this machine;
/// a path is put behind that URL without the slashes at its end.
pub proof fn law_control_urls(
    configured: String,
    set: String,
    unset: String,
    base: &str,
    path: &str,
    url: String,
    bare: Seq<char>,
)
    requires
        call_ensures(control_base, (Some(configured),), set),
        call_ensures(control_base, (None,), unset),
        call_ensures(control_url, (base, path), url),
        bare.len() == 0 || bare.last() != '/',
    ensures
        set@ == configured@,
        unset@ == "http://127.0.0.1:7372"@,
        base@ == bare ==> url@ == bare + path@,
        base@ == bare + seq!['/'] ==> url@ == bare + path@,
        base@ == bare + seq!['/'] + seq!['/'] ==> url@ == bare + path@,
{
    laws_network::law_control_service_is_on_this_machine(configured@);
    let slash = seq!['/'];
    assert forall|front: Seq<char>| bare != #[trigger] (front + slash) by {
        assert((front + slash).last() == '/');
    }
    laws_text::law_trimming_takes_copies_off_the_end(bare, slash);
    laws_text::law_trimming_takes_copies_off_the_end(bare + slash, slash);
}

/// Law: a slash at the end of the URL of the control service makes no difference to where a
/// path is asked for, however many stand there.
pub proof fn law_slashes_at_the_end_of_a_url(
    base: &str,
    slashed: &str,
    path: &str,
    url: String,
    same: String,
)
    requires
        call_ensures(control_url, (base, path), url),
        call_ensures(control_url, (slashed, path), same),
        slashed@ == base@ + seq!['/'],
    ensures
        same@ == url@,
{
    laws_text::law_trimming_takes_copies_off_the_end(base@, seq!['/']);
}

/// Law: only a service of this machine is stopped; of any other URL it is told that it is not.
pub proof fn law_stopping(parts: &UrlParts, r: Result<(), Box<MeshError>>)
    requires
        call_ensures(check_loopback, (parts,), r),
    ensures
        parts.host is None ==> (r matches Err(e) && e.message@ == "control URL has no host"@),
        parts.host matches Some(h) ==> {
            &&& h@ == "localhost"@ ==> r is Ok
            &&& (exists|o: Seq<u8>|
                o.len() == 4 && o[0] == 127 && h@ == #[trigger] address::dotted(o)) ==> r is Ok
            &&& h@ != "localhost"@ && !(exists|o: Seq<u8>|
                o.len() == 4 && o[0] == 127 && h@ == #[trigger] address::dotted(o)) ==> (
            r matches Err(e) && e.message@ == "refusing to stop non-loopback control URL: "@
                + parts.text@)
        },
{
}

/// Law: what is not a URL is not stopped either, and why it is none is told.
pub proof fn law_stopping_at_a_url(base: &str, r: Result<(), Box<MeshError>>)
    requires
        call_ensures(ensure_loopback_control_url, (base,), r),
    ensures
        match address::parsed_url(base@) {
            Err(why) => r matches Err(e) && e.message@ == why,
            Ok((None, url)) => r matches Err(e) && e.message@ == "control URL has no host"@,
            Ok((Some(host), url)) => (r is Ok <==> (host == "localhost"@ || exists|o: Seq<u8>|
                o.len() == 4 && o[0] == 127 && host == #[trigger] address::dotted(o))) && (
            r matches Err(e) ==> e.message@ == "refusing to stop non-loopback control URL: "@
                + url),
        },
{
}

/// Law: the name of a machine is its host name, else the first name that is configured, else
/// `machine`.
pub proof fn law_choose_name(
    host: Option<String>,
    first: Option<String>,
    second: Option<String>,
    r: String,
)
    requires
        call_ensures(choose_name, (host, first, second), r),
    ensures
        ({
            let hosted = host is Some && host->0@.len() > 0;
            &&& hosted ==> r@ == host->0@
            &&& !hosted && first is Some ==> r@ == first->0@
            &&& !hosted && first is None && second is Some ==> r@ == second->0@
            &&& !hosted && first is None && second is None ==> r@ == "machine"@
        }),
{
}

/// Law: a connector is named after its file, without `pi-mesh-` in front and `.exe` or `.js`
/// behind.
pub proof fn law_connector_name(file: &str, r: String, unknown: String, name: Seq<char>)
    requires
        call_ensures(connector_name, (Some(file),), r),
        call_ensures(connector_name, (None,), unknown),
        !text::has_prefix(name, "pi-mesh-"@),
        !text::has_suffix(name, ".exe"@),
        !text::has_suffix(name, ".js"@),
    ensures
        file@ == name || file@ == "pi-mesh-"@ + name || file@ == "pi-mesh-"@ + (name + ".exe"@)
            || file@ == "pi-mesh-"@ + (name + ".js"@) ==> r@ == name,
        unknown@ == "unknown"@,
{
    laws_network::law_connector_is_named_after_its_file(name);
}

/// Law: one more `pi-mesh-` in front of the name of a file, or `.exe` behind it, makes no
/// difference to the name of its connector, nor does a second `.js` behind it.
pub proof fn law_connector_names_agree(
    file: &str,
    prefixed: &str,
    exe: &str,
    js: &str,
    jsjs: &str,
    name: String,
    a: String,
    b: String,
    c: String,
    d: String,
)
    requires
        call_ensures(connector_name, (Some(file),), name),
        call_ensures(connector_name, (Some(prefixed),), a),
        call_ensures(connector_name, (Some(exe),), b),
        call_ensures(connector_name, (Some(js),), c),
        call_ensures(connector_name, (Some(jsjs),), d),
        prefixed@ == "pi-mesh-"@ + file@,
        exe@ == file@ + ".exe"@,
        js@ == file@ + ".js"@,
        jsjs@ == file@ + ".js"@ + ".js"@,
    ensures
        a@ == name@,
        b@ == name@,
        c@ == d@,
{
    laws_network::law_affixes_make_no_difference(file@);
}

/// Law: a connector is a file that somebody may run and whose name begins with `pi-mesh-`.
pub proof fn law_is_connector(
    name: &str,
    is_file: bool,
    executable: bool,
    r: bool,
    unnamed: bool,
    mode: u32,
    run: bool,
    unknown: bool,
)
    requires
        call_ensures(is_connector, (Some(name), is_file, executable), r),
        call_ensures(is_connector, (None, is_file, executable), unnamed),
        call_ensures(is_executable, (Some(mode),), run),
        call_ensures(is_executable, (None,), unknown),
    ensures
        r <==> is_file && executable && exists|rest: Seq<char>| name@ == #[trigger] ("pi-mesh-"@
            + rest),
        !unnamed,
        run <==> mode & 0o111 != 0,
        !unknown,
{
    laws_text::law_prefix_is_followed_by_the_rest(name@, "pi-mesh-"@);
}

/// Law: the connectors among some entries are found each once, in the order of their paths,
/// where they occur first.
pub proof fn law_find_connectors(entries: &Vec<Entry>, picked: Vec<usize>, k: int)
    requires
        call_ensures(find_connectors, (entries,), picked),
    ensures
        forall|i: int|
            0 <= i < picked@.len() ==> (#[trigger] picked@[i]) < entries@.len()
                && entries@[picked@[i] as int].is_connector(),
        forall|i: int, j: int|
            0 <= i < j < picked@.len() ==> paths::path_before(
                entries@[(#[trigger] picked@[i]) as int].place(),
                entries@[(#[trigger] picked@[j]) as int].place(),
            ),
        0 <= k < entries@.len() && entries@[k].is_connector() ==> exists|i: int|
            0 <= i < picked@.len() && (#[trigger] picked@[i]) <= k
                && entries@[picked@[i] as int].place() == entries@[k].place(),
{
    laws_network::law_list_holds_each_connector_once(picked@, entries@, k);
}

/// Law: the order of paths is computed as it is stated.
pub proof fn law_path_comes_before(a: &Vec<PathPart>, b: &Vec<PathPart>, r: bool, s: bool)
    requires
        call_ensures(path_comes_before, (a, b), r),
        call_ensures(path_comes_before, (b, a), s),
    ensures
        r <==> paths::path_before(paths::path_view(a@), paths::path_view(b@)),
        !(r && s),
        !r && !s ==> paths::path_view(a@) == paths::path_view(b@),
{
    paths::lemma_path_total(paths::path_view(a@), paths::path_view(b@));
}

/// Law: a caller is let in by a connector exactly if that ran, succeeded and wrote `true` under
/// `allow`.
pub proof fn law_connector_allows(
    page: &Json,
    said: bool,
    output: &Option<ProgramOutput>,
    allowed: bool,
)
    requires
        call_ensures(answer_allows, (page,), said),
        call_ensures(connector_allows, (output,), allowed),
    ensures
        said <==> page@.get("allow"@) == Some(JsonView::Bool(true)),
        *output is None ==> !allowed,
        *output matches Some(o) ==> (allowed <==> o.success && (jsontext::parsed_json(
            o.stdout@,
        ) matches Some(p) && p.get("allow"@) == Some(JsonView::Bool(true)))),
{
}

/// Law: a caller of this machine, and any where the service is told `1`, is let in at once; any
/// other is asked about at the first connector, and then at the next until one lets it in.
pub proof fn law_authorize(
    ip: &Ip,
    insecure: Option<&str>,
    connectors: usize,
    first: AuthStep,
    asked: usize,
    output: &Option<ProgramOutput>,
    next: AuthStep,
    allowed: bool,
)
    requires
        call_ensures(authorize, (ip, insecure, connectors), first),
        call_ensures(authorize_next, (asked, connectors, output), next),
        call_ensures(connector_allows, (output,), allowed),
        asked < connectors,
    ensures
        ({
            let known = address::loopback(*ip) || (insecure matches Some(s) && s@ == "1"@);
            &&& known ==> first is Allow
            &&& !known && connectors > 0 ==> first == AuthStep::Ask(0)
            &&& !known && connectors == 0 ==> first is Deny
        }),
        allowed ==> next is Allow,
        !allowed && asked + 1 < connectors ==> next == AuthStep::Ask((asked + 1) as usize),
        !allowed && asked + 1 >= connectors ==> next is Deny,
{
}

/// Law: what a connector says of itself is the JSON that it wrote, where it succeeded.
pub proof fn law_connector_metadata(output: &Option<ProgramOutput>, r: Option<Value>)
    requires
        call_ensures(connector_metadata, (output,), r),
    ensures
        r matches Some(v) ==> (*output matches Some(o) && o.success && jsontext::parsed_json(
            o.stdout@,
        ) == Some(jsontext::value_view(v))),
        r is None ==> (*output matches Some(o) ==> !o.success || jsontext::parsed_json(
            o.stdout@,
        ) is None),
{
}

/// Law: the output of a connector is read line by line.
pub proof fn law_event_lines(stdout: &[u8], r: Vec<String>, s: &str, lines: Vec<String>)
    requires
        call_ensures(event_lines, (stdout,), r),
        call_ensures(text_lines, (s,), lines),
    ensures
        vstd::utf8::valid_utf8(stdout@) && vstd::utf8::decode_utf8(stdout@) == s@ ==> text::texts(
            r@,
        ) == text::texts(lines@),
        text::texts(lines@) == text::lines(s@),
{
}

/// Law: the argument of an option is the one behind its first occurrence.
pub proof fn law_arg<'a>(args: &'a [String], name: &str, r: Option<&'a str>, i: int)
    requires
        call_ensures(arg, (args, name), r),
        0 <= i < args@.len(),
        forall|j: int| 0 <= j < i ==> #[trigger] args@[j]@ != name@,
    ensures
        args@[i]@ == name@ && i + 1 < args@.len() ==> (r matches Some(v) && v@ == args@[i + 1]@),
        args@[i]@ == name@ && i + 1 == args@.len() ==> r is None,
        args@[i]@ != name@ && i + 1 == args@.len() ==> r is None,
{
    let all = text::texts(args@);
    let front = all.take(i);
    assert forall|j: int| 0 <= j < front.len() implies #[trigger] front[j] != name@ by {
        assert(front[j] == args@[j]@);
    }
    if args@[i]@ == name@ && i + 1 < args@.len() {
        let rest = all.skip(i + 2);
        laws_network::law_argument_stands_behind_its_name(front, name@, args@[i + 1]@, rest);
        assert(all =~= front + seq![name@, args@[i + 1]@] + rest);
    } else if args@[i]@ == name@ {
        laws_network::law_argument_stands_behind_its_name(front, name@, name@, Seq::empty());
        assert(all =~= front.push(name@));
    } else if i + 1 == args@.len() {
        assert forall|j: int| 0 <= j < all.len() implies #[trigger] all[j] != name@ by {
            assert(all[j] == args@[j]@);
        }
        laws_network::law_argument_stands_behind_its_name(all, name@, name@, Seq::empty());
    }
}

/// Law: the first argument of the connector says what it is to do.
pub proof fn law_parse_mode(args: &[String], r: Mode)
    requires
        call_ensures(parse_mode, (args,), r),
    ensures
        args@.len() > 1 && args@[1]@ == "auth"@ ==> (r matches Mode::Auth(ip) && text::opt_text(ip)
            == tailscale::argument(text::texts(args@), "--remote-ip"@)),
        args@.len() > 1 && args@[1]@ == "run"@ ==> (r matches Mode::Run(port) && port@ == (
        match tailscale::argument(text::texts(args@), "--port"@) {
            Some(p) => p,
            None => "7373"@,
        })),
        args@.len() < 2 || (args@[1]@ != "auth"@ && args@[1]@ != "run"@) ==> r is Usage,
{
    laws_network::law_connector_does_what_it_is_asked(text::texts(args@), r);
}

/// Law: the connector answers whether the network knows a caller, and tells events with their
/// kind and address, both as those of Tailscale.
pub proof fn law_connector_answers(
    known: bool,
    answer: Json,
    nobody: Json,
    kind: &str,
    addr: &str,
    told: Json,
)
    requires
        call_ensures(auth_reply, (Some(known),), answer),
        call_ensures(auth_reply, (None,), nobody),
        call_ensures(event, (kind, addr), told),
    ensures
        answer@.get("allow"@) == Some(JsonView::Bool(known)),
        answer@.text_at("source"@) == Some("tailscale"@),
        nobody@.get("allow"@) == Some(JsonView::Bool(false)),
        told@.text_at("type"@) == Some(kind@),
        told@.text_at("addr"@) == Some(addr@),
        told@.text_at("source"@) == Some("tailscale"@),
{
    laws_network::law_answer_about_a_caller_is_read_back(known);
    laws_network::law_event_holds_its_parts(kind@, addr@);
}

/// Law: a machine is reached at its first Tailscale address, else under its DNS name.
pub proof fn law_reached_at(machine: &Json, port: &str, r: Option<String>, name: Seq<char>)
    requires
        call_ensures(reached_at, (machine, port), r),
        name.len() > 0 && name.last() != '.',
    ensures
        machine@.get("TailscaleIPs"@) matches Some(JsonView::List(ips)) ==> ips.len() > 0 ==> (
        ips[0] matches JsonView::Text(ip) ==> (r matches Some(a) && a@ == ip + ":"@ + port@)),
        !laws_network::has_address(machine@) && (machine@.get("DNSName"@) == Some(
            JsonView::Text(name),
        ) || machine@.get("DNSName"@) == Some(JsonView::Text(name + seq!['.']))) ==> (
        r matches Some(a) && a@ == name + ":"@ + port@),
        !laws_network::has_address(machine@) && machine@.get("DNSName"@) is None ==> r is None,
{
    reveal_strlit(".");
    let dot = "."@;
    assert(dot =~= seq!['.']);
    assert forall|front: Seq<char>| name != #[trigger] (front + dot) by {
        assert((front + dot).last() == '.');
    }
    laws_text::law_trimming_takes_copies_off_the_end(name, dot);
    laws_network::law_machine_is_reached_at_its_first_address(machine@, port@, name);
    laws_network::law_machine_is_reached_at_its_first_address(machine@, port@, name + dot);
}

/// Law: the connector tells what the status that it read gives: this machine, where it is
/// reached, and each peer that is not away, where it is reached. Without a status that was
/// read it tells nothing.
pub proof fn law_events(
    status: &Json,
    port: &str,
    r: Vec<Json>,
    output: &Option<ProgramOutput>,
    told: Vec<Json>,
    addr: Seq<char>,
)
    requires
        call_ensures(events, (status, port), r),
        call_ensures(discover, (output, port), told),
    ensures
        (status@.get("Self"@) matches Some(own) && tailscale::machine_address(own, port@) == Some(
            addr,
        )) ==> r@.len() > 0 && r@[0]@ == tailscale::event_json("self"@, addr),
        status@.get("Peer"@) matches Some(JsonView::Object(peers)) ==> forall|k: int|
            0 <= k < peers.len() && (#[trigger] peers[k]).1.get("Online"@) != Some(
                JsonView::Bool(false),
            ) && tailscale::machine_address(peers[k].1, port@) == Some(addr) ==> exists|i: int|
                0 <= i < r@.len() && (#[trigger] r@[i])@ == tailscale::event_json("peer"@, addr),
        *output is None ==> told@.len() == 0,
        *output matches Some(o) ==> {
            &&& !o.success || jsontext::parsed_json(o.stdout@) is None ==> told@.len() == 0
            &&& o.success && jsontext::parsed_json(o.stdout@) == Some(status@) ==> json::items_view(
                told@,
            ) == json::items_view(r@)
        },
{
    let seen = json::items_view(r@);
    assert(seen.len() == r@.len());
    assert(json::items_view(told@).len() == told@.len());
    laws_network::law_events_are_told_in_order(
        status@,
        port@,
        Seq::empty(),
        Seq::empty(),
        JsonView::Null,
    );
    if status@.get("Self"@) matches Some(own) && tailscale::machine_address(own, port@) == Some(
        addr,
    ) {
        assert(seen[0] == tailscale::event_json("self"@, addr));
        assert(seen[0] == r@[0]@);
    }
    match status@.get("Peer"@) {
        Some(JsonView::Object(peers)) => {
            assert forall|k: int|
                0 <= k < peers.len() && (#[trigger] peers[k]).1.get("Online"@) != Some(
                    JsonView::Bool(false),
                ) && tailscale::machine_address(peers[k].1, port@) == Some(addr) implies exists|
                i: int,
            |
                0 <= i < r@.len() && (#[trigger] r@[i])@ == tailscale::event_json(
                    "peer"@,
                    addr,
                ) by {
                tailscale::law_reachable_peers_are_told(peers, port@, addr);
                let e = tailscale::event_json("peer"@, addr);
                let others = tailscale::peer_events(peers, port@);
                assert(!tailscale::offline(peers[k].1));
                assert(others.contains(e));
                let at = others.index_of(e);
                let i = seen.len() - others.len() + at;
                assert(seen[i] == e);
                assert(r@[i]@ == e);
            }
        },
        _ => {},
    }
}

/// Law: texts are compared, taken apart, put together and ordered as they are.
pub proof fn law_texts<'a>(
    a: &'a str,
    b: &str,
    c: char,
    equal: bool,
    starts: bool,
    ends: bool,
    before: bool,
    last: Option<usize>,
    slashes: String,
    front: &'a str,
    back: &'a str,
    i: int,
)
    requires
        call_ensures(str_eq, (a, b), equal),
        call_ensures(starts_with, (a, b), starts),
        call_ensures(ends_with, (a, b), ends),
        call_ensures(comes_before, (a, b), before),
        call_ensures(find_last, (a, c), last),
        call_ensures(forward_slashes, (a,), slashes),
        call_ensures(trim_start_matches, (a, b), front),
        call_ensures(trim_end_matches, (a, b), back),
    ensures
        equal <==> a@ == b@,
        starts <==> exists|rest: Seq<char>| a@ == #[trigger] (b@ + rest),
        ends <==> exists|rest: Seq<char>| a@ == #[trigger] (rest + b@),
        before ==> !equal,
        last matches Some(k) ==> k < a@.len() && a@[k as int] == c && forall|j: int|
            k < j < a@.len() ==> #[trigger] a@[j] != c,
        last is None ==> forall|j: int| 0 <= j < a@.len() ==> #[trigger] a@[j] != c,
        slashes@.len() == a@.len(),
        0 <= i < a@.len() ==> slashes@[i] == (if a@[i] == '\\' {
            '/'
        } else {
            a@[i]
        }),
        front@ == text::trim_start(a@, b@),
        back@ == text::trim_end(a@, b@),
{
    laws_text::law_prefix_is_followed_by_the_rest(a@, b@);
    if ends {
        assert(a@ =~= a@.take(a@.len() - b@.len()) + b@);
    }
    if exists|rest: Seq<char>| a@ == #[trigger] (rest + b@) {
        assert(a@.skip(a@.len() - b@.len()) =~= b@);
    }
    text::lemma_before_total(a@, b@);
    text::lemma_last_index(a@, c);
}

/// Law: joined texts grow by the separator and the text that is added.
pub proof fn law_join_strings(
    parts: &[String],
    more: &[String],
    separator: &str,
    r: String,
    q: String,
)
    requires
        call_ensures(join_strings, (parts, separator), r),
        call_ensures(join_strings, (more, separator), q),
        more@.len() == parts@.len() + 1,
        forall|i: int| 0 <= i < parts@.len() ==> #[trigger] parts@[i]@ == more@[i]@,
    ensures
        parts@.len() == 0 ==> r@.len() == 0 && q@ == more@[0]@,
        parts@.len() > 0 ==> q@ == r@ + separator@ + more@.last()@,
{
    let a = text::texts(parts@);
    let b = text::texts(more@);
    assert(b =~= a.push(more@.last()@));
    laws_text::law_join_grows_by_separator_and_part(a, more@.last()@, separator@);
    if parts@.len() == 0 {
        assert(a =~= Seq::empty());
        assert(b =~= seq![more@[0]@]);
    }
}

/// Law: a number is written in decimal, and read back from that; what is no number is refused.
pub proof fn law_numbers(
    n: u64,
    written: String,
    s: &str,
    long: Result<u64, String>,
    short: Option<u16>,
)
    requires
        call_ensures(decimal_text, (n,), written),
        call_ensures(parse_u64, (s,), long),
        call_ensures(parse_u16, (s,), short),
    ensures
        s@ == written@ ==> long == Ok::<u64, String>(n),
        s@ == written@ && n <= 65535 ==> short == Some(n as u16),
        s@ == written@ && n > 65535 ==> short is None,
        long matches Err(e) ==> e@ == text::parse_error_text(s@),
        long matches Ok(m) ==> text::unsigned_value(s@, u64::MAX as nat) == Some(m as nat),
{
    laws_text::law_number_is_read_back_from_its_notation(n as nat, u64::MAX as nat);
    laws_text::law_number_is_read_back_from_its_notation(n as nat, u16::MAX as nat);
}

} // verus!
