//! How addresses, connectors and the names of machines are read and chosen.

use crate::address;
use crate::address::{Ip, PortStep};
use crate::connector;
use crate::connector::{AuthStep, Entry, ProgramOutput};
use crate::json;
use crate::json::JsonView;
use crate::jsontext;
use crate::laws_text;
use crate::machine;
use crate::paths;
use crate::tailscale;
use crate::tailscale::Mode;
use crate::text;
use vstd::prelude::*;

verus! {

proof fn lemma_decimal_without(n: nat, c: char)
    requires
        !('0' <= c && c <= '9'),
    ensures
        !text::decimal(n).contains(c),
{
    text::lemma_decimal(n);
    if text::decimal(n).contains(c) {
        let i = text::decimal(n).index_of(c);
        assert('0' <= text::decimal(n)[i] <= '9');
    }
}

/// Law: the port of an advertised address is the number behind its last colon; an address
/// without a colon, or without a number of sixteen bits behind it, has the port 7373.
pub proof fn law_port_stands_behind_the_last_colon(host: Seq<char>, port: nat, tail: Seq<char>)
    ensures
        port <= 65535 ==> address::advertised_port(host + seq![':'] + text::decimal(port)) == port,
        !tail.contains(':') && text::unsigned_value(tail, 65535) is None
            ==> address::advertised_port(host + seq![':'] + tail) == 7373,
        !tail.contains(':') ==> address::advertised_port(tail) == 7373,
{
    lemma_decimal_without(port, ':');
    text::lemma_last_index_of(host, ':', text::decimal(port));
    let full = host + seq![':'] + text::decimal(port);
    assert(full.skip(host.len() as int + 1) =~= text::decimal(port));
    laws_text::law_number_is_read_back_from_its_notation(port, 65535);
    if !tail.contains(':') {
        text::lemma_last_index_of(host, ':', tail);
        let other = host + seq![':'] + tail;
        assert(other.skip(host.len() as int + 1) =~= tail);
        text::lemma_last_index(tail, ':');
        if text::last_index(tail, ':') >= 0 {
            assert(tail.contains(':'));
        }
    }
}

/// Law: an address of version 4 is written as its four numbers with dots between them, and
/// dialled with a colon and the port behind it; one of version 6 is dialled in brackets.
pub proof fn law_addresses_are_written_out(octets: [u8; 4], ip: Ip, port: nat)
    ensures
        address::ip_text(Ip::V4 { octets }) == text::decimal(octets@[0] as nat) + "."@
            + text::decimal(octets@[1] as nat) + "."@ + text::decimal(octets@[2] as nat) + "."@
            + text::decimal(octets@[3] as nat),
        ip is V4 ==> address::socket_text(ip, port) == address::ip_text(ip) + ":"@ + text::decimal(
            port,
        ),
        ip is V6 ==> address::ip_text(ip) == ip->text@ && address::socket_text(ip, port) == "["@
            + ip->text@ + "]:"@ + text::decimal(port),
{
    reveal_strlit(".");
    reveal_strlit(":");
    reveal_strlit("[");
    reveal_strlit("]:");
    assert("."@ =~= seq!['.']);
    assert(":"@ =~= seq![':']);
    assert("["@ =~= seq!['[']);
    assert("]:"@ =~= seq![']', ':']);
}

/// Law: this machine is called at 127 and any three numbers, and at one, of version 6; at no
/// other address.
pub proof fn law_only_this_machine_is_loopback(octets: [u8; 4], ip: Ip)
    ensures
        address::loopback(Ip::V4 { octets }) <==> octets@[0] == 127,
        ip is V6 ==> (address::loopback(ip) <==> ip->segments@ == seq![
            0u16,
            0,
            0,
            0,
            0,
            0,
            0,
            1,
        ]),
{
    if ip is V6 {
        let one = seq![0u16, 0, 0, 0, 0, 0, 0, 1];
        assert(one.len() == 8);
        if address::loopback(ip) {
            assert(ip->segments@ =~= one);
        }
    }
}

/// Law: the ports that are tried begin at the configured one, or at 7373 where none is
/// configured that is a number of sixteen bits, and end at 7399, or with the first one where
/// that is higher.
pub proof fn law_ports_begin_where_configured(words: Seq<char>, port: nat)
    ensures
        address::ports_to_try(None) == (7373nat, 7399nat),
        text::unsigned_value(words, 65535) is None ==> address::ports_to_try(Some(words)) == (
            7373nat,
            7399nat,
        ),
        port <= 65535 ==> address::ports_to_try(Some(text::decimal(port))) == (
            port,
            if port > 7399 {
                port
            } else {
                7399nat
            },
        ),
{
    laws_text::law_number_is_read_back_from_its_notation(port, 65535);
}

/// Law: after a port that could not be had comes the next higher one, up to the last.
pub proof fn law_next_port_is_one_higher(port: u16, last: u16)
    ensures
        port < last ==> address::port_after(port, last) == PortStep::Try((port + 1) as u16),
        port >= last ==> address::port_after(port, last) == PortStep::NoneFree,
{
}

/// Law: the control service is asked where it is configured, and at port 7372 of this machine
/// otherwise.
pub proof fn law_control_service_is_on_this_machine(configured: Seq<char>)
    ensures
        address::control_base_text(Some(configured)) == configured,
        address::control_base_text(None) == "http://127.0.0.1:7372"@,
{
    reveal_strlit("http://");
    reveal_strlit("127.0.0.1:7372");
    reveal_strlit("http://127.0.0.1:7372");
    assert("http://"@ + "127.0.0.1:7372"@ =~= "http://127.0.0.1:7372"@);
}

/// Law: a service is stopped exactly if its URL names this machine, by name or by an address
/// that begins with 127; what else it names is told.
pub proof fn law_only_this_machine_is_stopped(host: Seq<char>, octets: Seq<u8>, url: Seq<char>)
    requires
        octets.len() == 4,
    ensures
        address::stop_refusal(None, url) == Some("control URL has no host"@),
        address::stop_refusal(Some("localhost"@), url) is None,
        octets[0] == 127 ==> address::stop_refusal(Some(address::dotted(octets)), url) is None,
        octets[0] != 127 && address::dotted(octets) != "localhost"@ ==> address::stop_refusal(
            Some(address::dotted(octets)),
            url,
        ) == Some("refusing to stop non-loopback control URL: "@ + url),
        host != "localhost"@ && (forall|o: Seq<u8>|
            o.len() == 4 ==> host != #[trigger] address::dotted(o)) ==> address::stop_refusal(
            Some(host),
            url,
        ) == Some("refusing to stop non-loopback control URL: "@ + url),
{
    if octets[0] != 127 && address::loopback_host(address::dotted(octets)) && address::dotted(
        octets,
    ) != "localhost"@ {
        let o = choose|o: Seq<u8>|
            o.len() == 4 && o[0] == 127 && address::dotted(octets) == #[trigger] address::dotted(
                o,
            );
        address::law_dotted_notation_is_unique(octets, o);
    }
}

/// Law: the name of a machine is its host name; where that is missing or empty, the first
/// configured name, then the second, then `machine`.
pub proof fn law_machine_is_named(host: Seq<char>, first: Option<Seq<char>>, name: Seq<char>)
    ensures
        host.len() > 0 ==> machine::chosen_name(Some(host), first, Some(name)) == host,
        machine::chosen_name(None, Some(name), first) == name,
        machine::chosen_name(Some(Seq::empty()), Some(name), first) == name,
        machine::chosen_name(None, None, Some(name)) == name,
        machine::chosen_name(None, None, None) == "machine"@,
{
}

/// Law: the name of a connector is that of its file without `pi-mesh-` in front and without
/// `.exe` or `.js` behind; a file without a name is an unknown connector.
pub proof fn law_connector_is_named_after_its_file(name: Seq<char>)
    requires
        !text::has_prefix(name, "pi-mesh-"@),
        !text::has_suffix(name, ".exe"@),
        !text::has_suffix(name, ".js"@),
    ensures
        connector::short_name(Some(name)) == name,
        connector::short_name(Some("pi-mesh-"@ + name)) == name,
        connector::short_name(Some("pi-mesh-"@ + (name + ".exe"@))) == name,
        connector::short_name(Some("pi-mesh-"@ + (name + ".js"@))) == name,
        connector::short_name(None) == "unknown"@,
{
    reveal_strlit("pi-mesh-");
    reveal_strlit(".exe");
    reveal_strlit(".js");
    reveal_strlit("unknown");
    let prefix = "pi-mesh-"@;
    let exe = ".exe"@;
    let js = ".js"@;
    laws_text::law_trimming_takes_copies_off_the_start(name, prefix);
    laws_text::law_trimming_takes_copies_off_the_end(name, exe);
    laws_text::law_trimming_takes_copies_off_the_end(name, js);
    lemma_ending_hides_no_prefix(name, exe);
    lemma_ending_hides_no_prefix(name, js);
    laws_text::law_trimming_takes_copies_off_the_start(name + exe, prefix);
    laws_text::law_trimming_takes_copies_off_the_start(name + js, prefix);
    assert((name + js).last() == 's');
    assert(!text::has_suffix(name + js, exe)) by {
        if text::has_suffix(name + js, exe) {
            let end = (name + js).skip((name + js).len() - exe.len());
            assert(end.last() == 's');
            assert(exe.last() == 'e');
        }
    }
    let u = "unknown"@;
    assert(u[0] == 'u' && u.last() == 'n');
    assert(!text::has_prefix(u, prefix));
    assert(!text::has_suffix(u, exe)) by {
        if text::has_suffix(u, exe) {
            assert(u.skip(u.len() - exe.len()).last() == 'n');
        }
    }
    assert(!text::has_suffix(u, js)) by {
        if text::has_suffix(u, js) {
            assert(u.skip(u.len() - js.len()).last() == 'n');
        }
    }
}

/// Trimming the front of a name leaves the ending of a program alone.
proof fn lemma_trim_keeps_ending(name: Seq<char>, ending: Seq<char>)
    requires
        ending.len() > 0,
        ending[0] == '.',
    ensures
        text::trim_start(name + ending, "pi-mesh-"@) == text::trim_start(name, "pi-mesh-"@)
            + ending,
    decreases name.len(),
{
    reveal_strlit("pi-mesh-");
    let prefix = "pi-mesh-"@;
    let all = name + ending;
    if text::has_prefix(name, prefix) {
        assert(all.take(prefix.len() as int) =~= name.take(prefix.len() as int));
        let rest = name.skip(prefix.len() as int);
        assert(all.skip(prefix.len() as int) =~= rest + ending);
        lemma_trim_keeps_ending(rest, ending);
    } else {
        lemma_ending_hides_no_prefix(name, ending);
    }
}

/// Law: one more `pi-mesh-` in front of the name of a file, or `.exe` behind it, makes no
/// difference to the name of its connector, nor does a second `.js` behind it.
pub proof fn law_affixes_make_no_difference(file: Seq<char>)
    ensures
        connector::short_name(Some("pi-mesh-"@ + file)) == connector::short_name(Some(file)),
        connector::short_name(Some(file + ".exe"@)) == connector::short_name(Some(file)),
        connector::short_name(Some(file + ".js"@ + ".js"@)) == connector::short_name(
            Some(file + ".js"@),
        ),
{
    reveal_strlit("pi-mesh-");
    reveal_strlit(".exe");
    reveal_strlit(".js");
    let exe = ".exe"@;
    let js = ".js"@;
    laws_text::law_trimming_takes_copies_off_the_start(file, "pi-mesh-"@);
    lemma_trim_keeps_ending(file, exe);
    let bare = text::trim_start(file, "pi-mesh-"@);
    laws_text::law_trimming_takes_copies_off_the_end(bare, exe);
    lemma_trim_keeps_ending(file, js);
    lemma_trim_keeps_ending(file + js, js);
    assert forall|s: Seq<char>, front: Seq<char>| #![trigger s + js, front + exe] s + js != front
        + exe by {
        assert((s + js).last() == 's');
        assert((front + exe).last() == 'e');
    }
    laws_text::law_trimming_takes_copies_off_the_end(bare + js, exe);
    laws_text::law_trimming_takes_copies_off_the_end(bare + js + js, exe);
    laws_text::law_trimming_takes_copies_off_the_end(bare + js, js);
}

proof fn lemma_ending_hides_no_prefix(name: Seq<char>, ending: Seq<char>)
    requires
        !text::has_prefix(name, "pi-mesh-"@),
        ending.len() > 0,
        ending[0] == '.',
    ensures
        !text::has_prefix(name + ending, "pi-mesh-"@),
{
    reveal_strlit("pi-mesh-");
    let prefix = "pi-mesh-"@;
    let all = name + ending;
    if text::has_prefix(all, prefix) {
        if name.len() >= prefix.len() {
            assert(name.take(prefix.len() as int) =~= all.take(prefix.len() as int));
        } else {
            let k = name.len() as int;
            assert(all.take(prefix.len() as int)[k] == ending[0]);
            assert(prefix[k] == '.');
        }
    }
}

/// Law: a connector is a file that can be run and whose name begins with `pi-mesh-`, and
/// nothing else is.
pub proof fn law_connectors_are_told_by_name(
    name: Seq<char>,
    rest: Seq<char>,
    is_file: bool,
    executable: bool,
)
    ensures
        connector::counts(Some("pi-mesh-"@ + rest), is_file, executable) <==> is_file
            && executable,
        (forall|r: Seq<char>| name != #[trigger] ("pi-mesh-"@ + r)) ==> !connector::counts(
            Some(name),
            is_file,
            executable,
        ),
        !connector::counts(None, is_file, executable),
{
    laws_text::law_prefix_is_followed_by_the_rest("pi-mesh-"@ + rest, "pi-mesh-"@);
    laws_text::law_prefix_is_followed_by_the_rest(name, "pi-mesh-"@);
}

/// Law: an entry is judged by its own name, sort and mode, and placed by its own path.
pub proof fn law_entries_are_taken_as_they_stand(e: Entry)
    ensures
        e.is_connector() <==> (e.file_name matches Some(name) && e.is_file && e.executable
            && exists|rest: Seq<char>| name@ == #[trigger] ("pi-mesh-"@ + rest)),
        e.place() == paths::path_view(e.path@),
{
    if e.file_name is Some {
        laws_text::law_prefix_is_followed_by_the_rest(e.file_name->0@, "pi-mesh-"@);
    }
}

/// Law: there is one list of connectors: two lists that pick the connectors among the same
/// entries pick the same places in the same order.
pub proof fn law_list_of_connectors_is_determined(
    a: Seq<usize>,
    b: Seq<usize>,
    entries: Seq<Entry>,
)
    requires
        connector::picks(a, entries, entries.len()),
        connector::picks(b, entries, entries.len()),
    ensures
        a == b,
{
    lemma_picks_agree(a, b, entries, 0);
    lemma_picks_agree(b, a, entries, 0);
    if a.len() < b.len() {
        lemma_picks_step(b, a, entries, a.len() as int);
    } else if b.len() < a.len() {
        lemma_picks_step(a, b, entries, b.len() as int);
    }
    assert(a =~= b);
}

/// What one list picks at a place, another that agrees up to there picks at that place too.
proof fn lemma_picks_step(a: Seq<usize>, b: Seq<usize>, entries: Seq<Entry>, n: int)
    requires
        connector::picks(a, entries, entries.len()),
        connector::picks(b, entries, entries.len()),
        0 <= n < a.len(),
        n <= b.len(),
        forall|i: int| 0 <= i < n ==> #[trigger] a[i] == b[i],
    ensures
        n < b.len(),
        a[n] == b[n],
{
    // The path at `n` of `a` is picked by `b`, not before `n`.
    let p = entries[a[n] as int].place();
    assert(entries[a[n] as int].is_connector());
    assert(connector::picked_by(b, entries, p, a[n] as int));
    let j = choose|j: int|
        0 <= j < b.len() && (#[trigger] b[j]) <= a[n] as int && entries[b[j] as int].place() == p;
    if j < n {
        assert(a[j] == b[j]);
        assert(paths::path_before(entries[a[j] as int].place(), entries[a[n] as int].place()));
        paths::lemma_path_total(p, p);
    }
    // The path at `n` of `b` is picked by `a`, not before `n`.
    let q = entries[b[n] as int].place();
    assert(entries[b[n] as int].is_connector());
    assert(connector::picked_by(a, entries, q, b[n] as int));
    let k = choose|k: int|
        0 <= k < a.len() && (#[trigger] a[k]) <= b[n] as int && entries[a[k] as int].place() == q;
    if k < n {
        assert(a[k] == b[k]);
        assert(paths::path_before(entries[b[k] as int].place(), entries[b[n] as int].place()));
        paths::lemma_path_total(q, q);
    }
    paths::lemma_path_total(p, q);
    if j > n {
        assert(paths::path_before(entries[b[n] as int].place(), entries[b[j] as int].place()));
        if k > n {
            assert(paths::path_before(entries[a[n] as int].place(), entries[a[k] as int].place()));
        } else {
            assert(k == n);
        }
    } else {
        assert(j == n);
        if k > n {
            assert(paths::path_before(entries[a[n] as int].place(), entries[a[k] as int].place()));
        }
    }
}

proof fn lemma_picks_agree(a: Seq<usize>, b: Seq<usize>, entries: Seq<Entry>, n: int)
    requires
        connector::picks(a, entries, entries.len()),
        connector::picks(b, entries, entries.len()),
        0 <= n <= a.len(),
        n <= b.len(),
        forall|i: int| 0 <= i < n ==> #[trigger] a[i] == b[i],
    ensures
        a.len() <= b.len(),
        forall|i: int| 0 <= i < a.len() ==> #[trigger] a[i] == b[i],
    decreases a.len() - n,
{
    if n < a.len() {
        lemma_picks_step(a, b, entries, n);
        lemma_picks_agree(a, b, entries, n + 1);
    }
}

/// Law: a list of connectors holds each path of a connector once, where it occurs first, in
/// the order of the paths, and nothing that is no connector.
pub proof fn law_list_holds_each_connector_once(picked: Seq<usize>, entries: Seq<Entry>, k: int)
    requires
        connector::picks(picked, entries, entries.len()),
    ensures
        forall|i: int|
            0 <= i < picked.len() ==> 0 <= (#[trigger] picked[i]) < entries.len()
                && entries[picked[i] as int].is_connector(),
        forall|i: int, j: int|
            0 <= i < j < picked.len() ==> paths::path_before(
                entries[(#[trigger] picked[i]) as int].place(),
                entries[(#[trigger] picked[j]) as int].place(),
            ),
        0 <= k < entries.len() && entries[k].is_connector() ==> exists|i: int|
            0 <= i < picked.len() && (#[trigger] picked[i]) <= k
                && entries[picked[i] as int].place() == entries[k].place(),
{
    if 0 <= k < entries.len() && entries[k].is_connector() {
        assert(connector::picked_by(picked, entries, entries[k].place(), k));
    }
}

/// Law: a page lets a caller in exactly if it says `true` under `allow`.
pub proof fn law_only_true_allows(page: JsonView)
    ensures
        connector::page_allows(page) <==> page.get("allow"@) == Some(JsonView::Bool(true)),
{
}

/// Law: a connector lets a caller in exactly if it ran, succeeded, and wrote JSON that says so.
pub proof fn law_only_a_successful_answer_allows(output: ProgramOutput)
    ensures
        !connector::output_allows(None),
        connector::output_allows(Some(output)) <==> output.success && (jsontext::parsed_json(
            output.stdout@,
        ) matches Some(page) && page.get("allow"@) == Some(JsonView::Bool(true))),
{
}

/// Law: callers from this machine are let in, and all callers where the service is told `1`;
/// any other caller is let in by a connector alone, and asked about at each in turn.
pub proof fn law_others_are_asked_about(
    ip: Ip,
    insecure: Option<Seq<char>>,
    connectors: nat,
    asked: nat,
)
    requires
        connectors <= usize::MAX,
    ensures
        ({
            let known = address::loopback(ip) || insecure == Some("1"@);
            let first = connector::first_step(connector::trusted(ip, insecure), connectors);
            &&& known ==> first == AuthStep::Allow
            &&& !known && connectors > 0 ==> first == AuthStep::Ask(0)
            &&& !known && connectors == 0 ==> first == AuthStep::Deny
        }),
        connector::next_step(asked, connectors, true) == AuthStep::Allow,
        asked + 1 < connectors ==> connector::next_step(asked, connectors, false) == AuthStep::Ask(
            (asked + 1) as usize,
        ),
        asked + 1 >= connectors ==> connector::next_step(asked, connectors, false)
            == AuthStep::Deny,
{
}

/// Law: the argument of an option is what stands behind its first occurrence; an option that
/// does not occur, or only at the very end, has none.
pub proof fn law_argument_stands_behind_its_name(
    front: Seq<Seq<char>>,
    name: Seq<char>,
    value: Seq<char>,
    rest: Seq<Seq<char>>,
)
    requires
        forall|i: int| 0 <= i < front.len() ==> #[trigger] front[i] != name,
    ensures
        tailscale::argument(front + seq![name, value] + rest, name) == Some(value),
        tailscale::argument(front, name) is None,
        tailscale::argument(front.push(name), name) is None,
    decreases front.len(),
{
    let all = front + seq![name, value] + rest;
    if front.len() == 0 {
        assert(all[0] == name && all[1] == value);
    } else {
        let tail = front.drop_first();
        assert(front[0] != name);
        assert forall|i: int| 0 <= i < tail.len() implies #[trigger] tail[i] != name by {
            assert(tail[i] == front[i + 1]);
        }
        law_argument_stands_behind_its_name(tail, name, value, rest);
        assert(all.drop_first() =~= tail + seq![name, value] + rest);
        assert(front.push(name).drop_first() =~= tail.push(name));
    }
}

/// Law: the first argument says what the connector is to do; it tells peers on the port behind
/// `--port`, 7373 where none is given, and is asked about the address behind `--remote-ip`.
pub proof fn law_connector_does_what_it_is_asked(args: Seq<Seq<char>>, mode: Mode)
    requires
        tailscale::asked(args, mode),
    ensures
        args.len() > 1 && args[1] == "auth"@ ==> (mode matches Mode::Auth(ip) && text::opt_text(ip)
            == tailscale::argument(args, "--remote-ip"@)),
        args.len() > 1 && args[1] == "run"@ ==> (mode matches Mode::Run(port) && (
        tailscale::argument(args, "--port"@) matches Some(p) ==> port@ == p) && (
        tailscale::argument(args, "--port"@) is None ==> port@ == "7373"@)),
        args.len() < 2 || (args[1] != "auth"@ && args[1] != "run"@) ==> mode is Usage,
{
    reveal_strlit("auth");
    reveal_strlit("run");
    assert("auth"@.len() == 4 && "run"@.len() == 3);
}

/// Law: the answer about a caller says whether the network knows it, and that Tailscale says
/// so; without a caller it says no.
pub proof fn law_answer_about_a_caller_is_read_back(ok: bool)
    ensures
        tailscale::auth_json(Some(ok)).get("allow"@) == Some(JsonView::Bool(ok)),
        tailscale::auth_json(Some(ok)).text_at("source"@) == Some("tailscale"@),
        tailscale::auth_json(None).get("allow"@) == Some(JsonView::Bool(false)),
{
    reveal_strlit("allow");
    reveal_strlit("source");
    assert("allow"@[0] == 'a' && "source"@[0] == 's');
    json::lemma_field_at(tailscale::auth_json(Some(ok))->Object_0, 0);
    json::lemma_field_at(tailscale::auth_json(Some(ok))->Object_0, 1);
    json::lemma_field_at(tailscale::auth_json(None)->Object_0, 0);
}

/// Law: an event holds its kind, its address, and that it comes from Tailscale.
pub proof fn law_event_holds_its_parts(kind: Seq<char>, addr: Seq<char>)
    ensures
        tailscale::event_json(kind, addr).text_at("type"@) == Some(kind),
        tailscale::event_json(kind, addr).text_at("addr"@) == Some(addr),
        tailscale::event_json(kind, addr).text_at("source"@) == Some("tailscale"@),
{
    tailscale::law_event_is_read_back(kind, addr);
    reveal_strlit("type");
    reveal_strlit("addr");
    reveal_strlit("source");
    assert("type"@[0] == 't' && "addr"@[0] == 'a' && "source"@[0] == 's');
    json::lemma_field_at(tailscale::event_json(kind, addr)->Object_0, 2);
}

/// Law: a machine is reached at its first Tailscale address; where it has none, under its DNS
/// name without the dots at its end; where nothing is left of that, not at all.
pub proof fn law_machine_is_reached_at_its_first_address(
    machine: JsonView,
    port: Seq<char>,
    name: Seq<char>,
)
    ensures
        machine.get("TailscaleIPs"@) matches Some(JsonView::List(ips)) ==> ips.len() > 0 ==> (
        ips[0] matches JsonView::Text(ip) ==> tailscale::machine_address(machine, port) == Some(
            ip + ":"@ + port,
        )),
        !has_address(machine) && machine.text_at("DNSName"@) is None ==> tailscale::machine_address(
            machine,
            port,
        ) is None,
        !has_address(machine) && machine.text_at("DNSName"@) == Some(name) && text::trim_end(
            name,
            "."@,
        ).len() == 0 ==> tailscale::machine_address(machine, port) is None,
        !has_address(machine) && machine.text_at("DNSName"@) == Some(name) && text::trim_end(
            name,
            "."@,
        ).len() > 0 ==> tailscale::machine_address(machine, port) == Some(
            text::trim_end(name, "."@) + ":"@ + port,
        ),
{
}

/// Whether a machine has a Tailscale address.
pub open spec fn has_address(machine: JsonView) -> bool {
    machine.get("TailscaleIPs"@) matches Some(JsonView::List(ips)) && ips.len() > 0
        && ips[0] is Text
}

/// Law: a machine is away exactly if the status says that it is not online.
pub proof fn law_only_machines_said_to_be_offline_are_away(machine: JsonView)
    ensures
        tailscale::offline(machine) <==> machine.get("Online"@) == Some(JsonView::Bool(false)),
{
}

/// Law: the connector tells first where this machine is reached, as `self`, and behind it the
/// peers, in their order: one more peer at the end is told last, as `peer`, if it is not away
/// and can be reached, and changes nothing otherwise.
pub proof fn law_events_are_told_in_order(
    status: JsonView,
    port: Seq<char>,
    peers: Seq<(Seq<char>, JsonView)>,
    name: Seq<char>,
    peer: JsonView,
)
    ensures
        ({
            let own = match status.get("Self"@) {
                Some(machine) => match tailscale::machine_address(machine, port) {
                    Some(addr) => seq![tailscale::event_json("self"@, addr)],
                    None => seq![],
                },
                None => seq![],
            };
            let others = match status.get("Peer"@) {
                Some(JsonView::Object(fields)) => tailscale::peer_events(fields, port),
                _ => seq![],
            };
            tailscale::status_events(status, port) == own + others
        }),
        tailscale::peer_events(Seq::empty(), port).len() == 0,
        tailscale::peer_events(peers.push((name, peer)), port) == (if peer.get("Online"@) != Some(
            JsonView::Bool(false),
        ) && tailscale::machine_address(peer, port) is Some {
            tailscale::peer_events(peers, port).push(
                tailscale::event_json("peer"@, tailscale::machine_address(peer, port)->0),
            )
        } else {
            tailscale::peer_events(peers, port)
        }),
{
    let all = peers.push((name, peer));
    assert(all.drop_last() =~= peers);
    assert(all.last() == (name, peer));
    let before = tailscale::peer_events(peers, port);
    match tailscale::machine_address(peer, port) {
        Some(addr) => {
            let e = tailscale::event_json("peer"@, addr);
            assert(before + seq![e] =~= before.push(e));
        },
        None => {
            assert(before + Seq::<JsonView>::empty() =~= before);
        },
    }
}

} // verus!
