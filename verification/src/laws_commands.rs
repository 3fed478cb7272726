//! What the commands read, ask and show: of each call, for every result that it can have.

use crate::cli;
use crate::cli::{
    default_sender, optional_peer, parse_cli, parse_command, parse_message_args, peer_line,
    peer_report, peer_request, plan_start, request_request, request_timeouts, required_arg,
    send_request, sent_line, start_banner, start_report, stop_report, unknown_command, Cli,
    Command, MessageArgs, Report, StartPlan,
};
use crate::errors::{
    boxed_error, control_failure, control_post_failure, control_send_error, MeshError,
};
use crate::json;
use crate::json::{copy_opt, json_field, value_str, Json, JsonView};
use crate::jsontext;
use crate::jsontext::{json_of, open_field, parse_json, text_of};
use crate::laws_cli;
use crate::laws_pages;
use crate::pages;
use crate::pages::{
    connectors_page, connectors_report, display_cwd, format_agents, format_answer, format_body,
    format_connectors, format_list, format_status, runtime_label, status_page, ConnectorInfo,
};
use crate::state::Inner;
use crate::text;
use serde_json::Value;
use vstd::prelude::*;

verus! {

/// Law: the global flags are taken out wherever they stand; the other arguments are left as
/// they stand, unless the version is asked for.
pub proof fn law_parse_cli(args: &[String], cli: Cli)
    requires
        call_ensures(parse_cli, (args,), cli),
    ensures
        cli.json <==> exists|i: int| 0 <= i < args@.len() && #[trigger] args@[i]@ == "--json"@,
        (exists|i: int|
            0 <= i < args@.len() && (#[trigger] args@[i]@ == "--version"@ || args@[i]@ == "-V"@))
            ==> cli.args@.len() == 1 && cli.args@[0]@ == "version"@,
        (forall|i: int|
            0 <= i < args@.len() ==> #[trigger] args@[i]@ != "--json"@ && args@[i]@ != "--version"@
                && args@[i]@ != "-V"@) ==> text::texts(cli.args@) == text::texts(args@),
{
    let all = text::texts(args@);
    if all.contains("--json"@) {
        let i = all.index_of("--json"@);
        assert(args@[i]@ == "--json"@);
    }
    if exists|i: int| 0 <= i < args@.len() && #[trigger] args@[i]@ == "--json"@ {
        let i = choose|i: int| 0 <= i < args@.len() && #[trigger] args@[i]@ == "--json"@;
        assert(all[i] == "--json"@);
    }
    if exists|i: int|
        0 <= i < args@.len() && (#[trigger] args@[i]@ == "--version"@ || args@[i]@ == "-V"@) {
        let i = choose|i: int|
            0 <= i < args@.len() && (#[trigger] args@[i]@ == "--version"@ || args@[i]@ == "-V"@);
        let before = all.take(i);
        let behind = all.skip(i + 1);
        assert(all[i] == args@[i]@);
        assert(all =~= before + seq![all[i]] + behind);
        cli::law_global_flags_stand_anywhere(before, all[i], behind);
        assert(text::texts(cli.args@).len() == 1);
        assert(text::texts(cli.args@)[0] == cli.args@[0]@);
    }
    if forall|i: int|
        0 <= i < args@.len() ==> #[trigger] args@[i]@ != "--json"@ && args@[i]@ != "--version"@
            && args@[i]@ != "-V"@ {
        assert forall|i: int| 0 <= i < all.len() implies #[trigger] all[i] != "--json"@ && all[i]
            != "--version"@ && all[i] != "-V"@ by {
            assert(all[i] == args@[i]@);
        }
        laws_cli::law_other_arguments_are_left(all);
    }
}

/// Law: of arguments that are all words the first is the addressee and the others, with spaces
/// between them, are the message; one more word makes the message longer by a space and that
/// word.
pub proof fn law_parse_message_args(
    args: &[String],
    more: &[String],
    allow: bool,
    from: String,
    r: Result<MessageArgs, Box<MeshError>>,
    q: Result<MessageArgs, Box<MeshError>>,
)
    requires
        call_ensures(parse_message_args, (args, allow, from), r),
        call_ensures(parse_message_args, (more, allow, from), q),
        laws_cli::words_only(text::texts(more@)),
        args@.len() >= 2,
        more@.len() == args@.len() + 1,
        forall|i: int| 0 <= i < args@.len() ==> #[trigger] args@[i]@ == more@[i]@,
    ensures
        r matches Ok(m) && m.to@ == args@[0]@ && m.from@ == from@ && m.timeout_seconds is None && (
        args@.len() == 2 ==> m.message@ == args@[1]@) && (q matches Ok(n) && n.to@ == m.to@
            && n.from@ == m.from@ && n.timeout_seconds is None && n.message@ == m.message@ + " "@
            + more@.last()@),
{
    let a = text::texts(args@);
    let b = text::texts(more@);
    assert(b =~= a.push(more@.last()@));
    assert forall|i: int| 0 <= i < a.len() implies #[trigger] a[i] != "--from"@ && a[i]
        != "--timeout"@ by {
        assert(a[i] == b[i]);
    }
    assert(b[b.len() - 1] == more@.last()@);
    laws_cli::law_words_make_the_message(a, more@.last()@, allow, from@);
    assert(a[0] == args@[0]@ && a[1] == args@[1]@);
}

/// Law: what the arguments of a message, or of any command, are read as is what they mean, each
/// part of it; what they do not mean is refused with the reason.
pub proof fn law_arguments_are_read_as_they_mean(
    args: &[String],
    allow: bool,
    from: String,
    r: Result<MessageArgs, Box<MeshError>>,
    c: Result<Command, Box<MeshError>>,
)
    requires
        call_ensures(parse_message_args, (args, allow, from), r),
        call_ensures(parse_command, (args, from), c),
    ensures
        match cli::message_args(text::texts(args@), allow, from@) {
            Ok(m) => r matches Ok(a) && a.from@ == m.from && a.to@ == m.to && a.message@
                == m.message && a.timeout_seconds == m.timeout_seconds,
            Err(why) => r matches Err(e) && e.message@ == why,
        },
        match cli::command(text::texts(args@), from@) {
            Ok(v) => c matches Ok(found) && found@ == v,
            Err(why) => c matches Err(e) && e.message@ == why,
        },
{
}

/// Law: an optional peer is the one argument, where there is one; more are refused. A required
/// argument is the only one.
pub proof fn law_single_arguments<'a>(
    args: &'a [String],
    usage: &str,
    peer: Result<Option<String>, Box<MeshError>>,
    one: Result<&'a str, Box<MeshError>>,
)
    requires
        call_ensures(optional_peer, (args,), peer),
        call_ensures(required_arg, (args, usage), one),
    ensures
        args@.len() == 0 ==> (peer matches Ok(p) && p is None),
        args@.len() == 1 ==> (peer matches Ok(p) && (p matches Some(a) && a@ == args@[0]@)),
        args@.len() > 1 ==> (peer matches Err(e) && e.message@ == "usage: pi-mesh start [peer]"@),
        args@.len() == 1 ==> (one matches Ok(a) && a@ == args@[0]@),
        args@.len() != 1 ==> (one matches Err(e) && e.message@ == "usage: pi-mesh "@ + usage@),
{
    laws_cli::law_start_takes_one_peer(text::texts(args@));
}

/// Law: the first argument names the command; what is behind it is read as the command's own.
pub proof fn law_parse_command(args: &[String], from: String, r: Result<Command, Box<MeshError>>)
    requires
        call_ensures(parse_command, (args, from), r),
    ensures
        args@.len() == 0 ==> r == Ok::<Command, Box<MeshError>>(Command::Start(None)),
        args@.len() > 0 ==> {
            let name = args@[0]@;
            &&& name == "stop"@ ==> r == Ok::<Command, Box<MeshError>>(Command::Stop)
            &&& name == "status"@ ==> r == Ok::<Command, Box<MeshError>>(Command::Status)
            &&& name == "list"@ ==> r == Ok::<Command, Box<MeshError>>(Command::List)
            &&& name == "connectors"@ ==> r == Ok::<Command, Box<MeshError>>(Command::Connectors)
            &&& name == "version"@ ==> r == Ok::<Command, Box<MeshError>>(Command::Version)
            &&& name == "self-check"@ ==> r == Ok::<Command, Box<MeshError>>(Command::SelfCheck)
            &&& name == "help"@ || name == "-h"@ || name == "--help"@ ==> r == Ok::<
                Command,
                Box<MeshError>,
            >(Command::Help)
            &&& name == "peer"@ && args@.len() == 2 ==> (r matches Ok(Command::Peer(p)) && p@
                == args@[1]@)
            &&& name == "start"@ && args@.len() == 2 ==> (r matches Ok(Command::Start(Some(p)))
                && p@ == args@[1]@)
            &&& name == "daemon"@ && args@.len() == 2 ==> (r matches Ok(Command::Daemon(Some(p)))
                && p@ == args@[1]@)
            &&& !laws_cli::command_names().contains(name) ==> (r matches Ok(Command::Unknown(n))
                && n@ == name)
        },
{
    let all = text::texts(args@);
    if args@.len() == 0 {
        assert(all =~= Seq::empty());
        laws_cli::law_first_argument_names_the_command(Seq::empty(), Seq::empty(), from@);
    } else {
        let rest = all.skip(1);
        assert(all =~= seq![args@[0]@] + rest);
        if args@.len() == 2 {
            assert(rest[0] == args@[1]@);
        }
        laws_cli::law_first_argument_names_the_command(args@[0]@, rest, from@);
    }
}

/// Law: the command line sends under its configured name, or as `cli` at its machine.
pub proof fn law_default_sender(configured: Option<String>, machine: &str, r: String)
    requires
        call_ensures(default_sender, (configured, machine), r),
    ensures
        configured matches Some(name) ==> r@ == name@,
        configured is None ==> r@ == "cli@"@ + machine@,
{
}

/// Law: a request is given the time that was asked for, in milliseconds, and the command line
/// waits five seconds longer; what does not fit is cut.
pub proof fn law_request_timeouts(asked: Option<u64>, r: (u64, u64))
    requires
        call_ensures(request_timeouts, (asked,), r),
    ensures
        asked is None ==> r == (30_000u64, 35u64),
        asked == Some(0u64) ==> r == (1_000u64, 6u64),
        asked matches Some(n) ==> (0 < n && n * 1000 <= u64::MAX ==> r.0 == n * 1000) && (n * 1000
            > u64::MAX ==> r.0 == u64::MAX) && (0 < n && n + 5 <= u64::MAX ==> r.1 == n + 5) && (n
            + 5 > u64::MAX ==> r.1 == u64::MAX),
{
}

/// Law: what the command line asks of the service holds sender, addressee, the whole message,
/// the time of a request, and the address of a peer.
pub proof fn law_control_requests_hold_what_is_asked(
    args: &MessageArgs,
    addr: &str,
    send: Json,
    request: Json,
    peer: Json,
    times: (u64, u64),
)
    requires
        call_ensures(send_request, (args,), send),
        call_ensures(request_request, (args,), request),
        call_ensures(peer_request, (addr,), peer),
        call_ensures(request_timeouts, (args.timeout_seconds,), times),
    ensures
        send@.text_at("from"@) == Some(args.from@),
        send@.text_at("to"@) == Some(args.to@),
        send@.text_at("body"@) == Some(args.message@),
        request@.text_at("from"@) == Some(args.from@),
        request@.text_at("to"@) == Some(args.to@),
        request@.text_at("body"@) == Some(args.message@),
        request@.get("timeout_ms"@) matches Some(n) && n.as_unsigned() == Some(times.0),
        peer@.text_at("addr"@) == Some(addr@),
{
    reveal_strlit("from");
    reveal_strlit("to");
    reveal_strlit("body");
    reveal_strlit("timeout_ms");
    assert("from"@[0] == 'f' && "to"@[0] == 't' && "to"@.len() == 2 && "body"@[0] == 'b'
        && "timeout_ms"@.len() == 10);
    assert("timeout_ms"@[0] == 't');
    json::lemma_field_at(send@->Object_0, 0);
    json::lemma_field_at(send@->Object_0, 1);
    json::lemma_field_at(send@->Object_0, 2);
    json::lemma_field_at(request@->Object_0, 0);
    json::lemma_field_at(request@->Object_0, 1);
    json::lemma_field_at(request@->Object_0, 2);
    json::lemma_field_at(request@->Object_0, 3);
    json::lemma_field_at(peer@->Object_0, 0);
}

/// Law: what the commands report holds what they did.
pub proof fn law_reports_hold_what_was_done(
    already: bool,
    peer: &Option<String>,
    addr: &str,
    start: Json,
    stop: Json,
    named: Json,
)
    requires
        call_ensures(start_report, (already, peer), start),
        call_ensures(stop_report, (), stop),
        call_ensures(peer_report, (addr,), named),
    ensures
        start@.get("ok"@) == Some(JsonView::Bool(true)),
        start@.get("running"@) == Some(JsonView::Bool(true)),
        already ==> start@.get("already_running"@) == Some(JsonView::Bool(true)) && start@.get(
            "foreground"@,
        ) is None,
        !already ==> start@.get("foreground"@) == Some(JsonView::Bool(true)) && start@.get(
            "already_running"@,
        ) is None,
        *peer matches Some(p) ==> start@.get("peer"@) == Some(JsonView::Text(p@)),
        *peer is None ==> start@.get("peer"@) == Some(JsonView::Null),
        stop@.get("ok"@) == Some(JsonView::Bool(true)),
        stop@.get("stopped"@) == Some(JsonView::Bool(true)),
        named@.get("ok"@) == Some(JsonView::Bool(true)),
        named@.text_at("peer"@) == Some(addr@),
{
    laws_pages::law_start_report_is_read_back(already, text::opt_text(*peer));
    reveal_strlit("ok");
    reveal_strlit("stopped");
    reveal_strlit("peer");
    assert("ok"@[0] == 'o' && "stopped"@[0] == 's' && "peer"@[0] == 'p');
    json::lemma_field_at(stop@->Object_0, 0);
    json::lemma_field_at(stop@->Object_0, 1);
    json::lemma_field_at(named@->Object_0, 0);
    json::lemma_field_at(named@->Object_0, 1);
}

/// Law: where the service runs, `start` names the peer to it and says that it runs; else it
/// serves, with the peer, and says so in JSON alone.
pub proof fn law_plan_start(running: bool, peer: Option<String>, json: bool, r: StartPlan)
    requires
        call_ensures(plan_start, (running, peer, json), r),
    ensures
        running ==> (r matches StartPlan::AlreadyRunning { peer: p, report } && text::opt_text(p)
            == text::opt_text(peer) && match report {
            Report::Json(j) => json && j@.get("already_running"@) == Some(JsonView::Bool(true))
                && j@.get("peer"@) == Some(
                match peer {
                    Some(named) => JsonView::Text(named@),
                    None => JsonView::Null,
                },
            ),
            Report::Line(line) => !json && line@ == "pi-mesh: already running"@,
        }),
        !running ==> (r matches StartPlan::Serve { announce, peers } && (announce is Some <==> json)
            && (announce matches Some(j) ==> j@.get("foreground"@) == Some(JsonView::Bool(true))
            && j@.get("peer"@) == Some(
            match peer {
                Some(named) => JsonView::Text(named@),
                None => JsonView::Null,
            },
        ))
            && (peer is None ==> peers@.len() == 0) && (peer matches Some(p) ==> peers@.len() == 1
            && peers@[0]@ == p@)),
{
    laws_pages::law_start_report_is_read_back(running, text::opt_text(peer));
    match r {
        StartPlan::Serve { announce, peers } => {
            assert(text::texts(peers@).len() == peers@.len());
            if peers@.len() == 1 {
                assert(text::texts(peers@)[0] == peers@[0]@);
            }
        },
        _ => {},
    }
}

/// Law: the lines that commands tell bear what they are about.
pub proof fn law_lines_bear_what_they_tell(
    control: &str,
    port: u16,
    addr: &str,
    banner: String,
    sent: String,
    added: String,
    unknown: Box<MeshError>,
)
    requires
        call_ensures(start_banner, (control, port, addr), banner),
        call_ensures(sent_line, (addr,), sent),
        call_ensures(peer_line, (addr,), added),
        call_ensures(unknown_command, (addr,), unknown),
    ensures
        banner@ == "pi-mesh: control http://"@ + control@ + "\npi-mesh: listen  http://0.0.0.0:"@
            + text::decimal(port as nat) + "\npi-mesh: addr    "@ + addr@,
        sent@ == "sent to "@ + addr@,
        added@ == "pi-mesh: peer added "@ + addr@,
        unknown.message@ == "unknown command: "@ + addr@,
{
}

/// Law: errors of the control service tell what it said, or how it is started where nobody
/// answers.
pub proof fn law_control_errors_tell_why(
    words: String,
    said: &str,
    own: Box<MeshError>,
    refused: Box<MeshError>,
    unread: Box<MeshError>,
    read: Box<MeshError>,
    absent: Box<MeshError>,
    broken: Box<MeshError>,
)
    requires
        call_ensures(boxed_error, (words,), own),
        call_ensures(control_failure, (said,), refused),
        call_ensures(control_post_failure, (None,), unread),
        call_ensures(control_post_failure, (Some(words),), read),
        call_ensures(control_send_error, (true, words), absent),
        call_ensures(control_send_error, (false, words), broken),
    ensures
        own.message@ == words@,
        refused.message@ == "control request failed: "@ + said@,
        unread.message@ == "control request failed: "@ + "unknown error"@,
        read.message@ == "control request failed: "@ + words@,
        absent.message@
            == "service is not running; run `pi-mesh start`, `pi --mesh-on`, or `/mesh on` in Pi"@,
        broken.message@ == words@,
{
}

/// Law: the list that is shown of a service has a line for each local agent, for each agent
/// known from a peer, and for each peer, with its particulars, and no other line.
pub proof fn law_format_list<W>(s: &Inner<W>, page: Json, r: String)
    requires
        call_ensures(Inner::<W>::list, (s,), page),
        call_ensures(format_list, (&page,), r),
    ensures
        exists|here: Seq<Seq<char>>, there: Seq<Seq<char>>, peers: Seq<Seq<char>>|
            #[trigger] laws_pages::names_each(here, s@.local.dom())
                && #[trigger] laws_pages::names_each(there, s@.remote.dom())
                && #[trigger] laws_pages::names_each(peers, s@.peers) && r@ == "service: "@
                + s@.advertise + "\nlocal:\n  "@ + laws_pages::section(
                here.map_values(
                    |id: Seq<char>|
                        laws_pages::line_of(
                            id,
                            s@.local[id].alias,
                            s@.local[id].title,
                            s@.local[id].cwd,
                            s@.local[id].runtime,
                            s@.advertise,
                        ),
                ),
            ) + "\nremote:\n  "@ + laws_pages::section(
                there.map_values(
                    |id: Seq<char>|
                        laws_pages::line_of(
                            id,
                            s@.remote[id].alias,
                            s@.remote[id].title,
                            s@.remote[id].cwd,
                            s@.remote[id].runtime,
                            s@.remote[id].addr,
                        ),
                ),
            ) + "\npeers:\n  "@ + laws_pages::section(peers),
{
    laws_pages::law_shown_list_has_a_line_for_each(s@, page@);
}

/// Law: the agents under a key are shown one a line, and a runtime by its model, provider and
/// free context.
pub proof fn law_agents_are_shown(
    page: &Json,
    key: &str,
    agent: &Json,
    lines: String,
    label: String,
)
    requires
        call_ensures(format_agents, (page, key), lines),
        call_ensures(runtime_label, (agent,), label),
    ensures
        page@.get(key@) matches Some(JsonView::List(items)) ==> lines@ == laws_pages::section(
            items.map_values(|a: JsonView| pages::agent_line(a)),
        ),
        page@.get(key@) is None || !(page@.get(key@)->0 is List) ==> lines@ == "none"@,
        label@ == laws_pages::shown_runtime(agent@.get("runtime"@)),
{
    laws_pages::lemma_label(agent@);
    match page@.get(key@) {
        Some(JsonView::List(items)) => {
            laws_pages::lemma_section(items.map_values(|a: JsonView| pages::agent_line(a)));
        },
        _ => {},
    }
}

/// Law: the status of a service is shown with its version, protocol, machine and address.
pub proof fn law_format_status<W>(
    s: &Inner<W>,
    version: &str,
    page: Json,
    protocol: &str,
    r: String,
    value: &Value,
    shown: String,
)
    requires
        call_ensures(Inner::<W>::health_payload, (s, version), page),
        call_ensures(format_status, (&page, protocol), r),
        jsontext::value_view(*value) == page@,
        call_ensures(status_page, (value,), shown),
    ensures
        r@ == "pi-mesh: running\nversion: "@ + version@ + "\nprotocol: "@ + protocol@
            + "\nmachine: "@ + s@.machine + "\naddr: "@ + s@.advertise,
        exists|p: JsonView|
            p.as_unsigned() == Some(3u64) && shown@ == "pi-mesh: running\nversion: "@ + version@
                + "\nprotocol: "@ + #[trigger] jsontext::json_text(p) + "\nmachine: "@ + s@.machine
                + "\naddr: "@ + s@.advertise,
{
    laws_pages::law_health_page_holds_the_service(s@, version@, page@);
    laws_pages::law_status_shows_what_is_said(
        page@,
        version@,
        s@.machine,
        s@.advertise,
        protocol@,
    );
    let p = page@.get("protocol"@)->0;
    laws_pages::law_status_shows_what_is_said(
        page@,
        version@,
        s@.machine,
        s@.advertise,
        jsontext::json_text(p),
    );
    assert(p.as_unsigned() == Some(3u64));
}

/// Law: a body is shown whole: a text as it stands, any other value as its JSON; of an answer
/// its body is shown, and null where it has none.
pub proof fn law_bodies_are_shown(body: &Value, answer: &Value, shown: String, answered: String)
    requires
        call_ensures(format_body, (body,), shown),
        call_ensures(format_answer, (answer,), answered),
    ensures
        match jsontext::value_view(*body) {
            JsonView::Text(s) => shown@ == s,
            v => shown@ == jsontext::json_text(v),
        },
        match jsontext::value_view(*answer).get("body"@) {
            Some(JsonView::Text(s)) => answered@ == s,
            Some(v) => answered@ == jsontext::json_text(v),
            None => answered@ == "null"@,
        },
{
}

/// Law: each connector is shown and reported with its name and what it says of itself.
pub proof fn law_connectors_are_shown(
    one: &Vec<ConnectorInfo>,
    more: &Vec<ConnectorInfo>,
    page: String,
    longer: String,
    report: Json,
    i: int,
)
    requires
        call_ensures(connectors_page, (one,), page),
        call_ensures(connectors_page, (more,), longer),
        call_ensures(connectors_report, (more,), report),
        more@.len() == one@.len() + 1,
        forall|k: int| 0 <= k < one@.len() ==> #[trigger] one@[k] == more@[k],
        0 <= i < more@.len(),
    ensures
        one@.len() == 0 ==> page@ == "none"@,
        ({
            let last = more@.last();
            let line = match last.metadata {
                Some(v) => last.name@ + " "@ + jsontext::json_text(jsontext::value_view(v)),
                None => last.name@ + " found"@,
            };
            &&& one@.len() == 0 ==> longer@ == line
            &&& one@.len() > 0 ==> longer@ == page@ + "\n"@ + line
        }),
        report@.get("connectors"@) matches Some(JsonView::List(items)) && items.len()
            == more@.len() && items[i].text_at("name"@) == Some(more@[i].name@)
            && items[i].text_at("path"@) == Some(more@[i].path@) && items[i].get("metadata"@)
            == Some(
            match more@[i].metadata {
                Some(v) => jsontext::value_view(v),
                None => JsonView::Null,
            },
        ),
{
    let shown = |c: ConnectorInfo| pages::named_metadata(c);
    let a = one@.map_values(shown);
    let b = more@.map_values(shown);
    let last = more@.last();
    let said = match last.metadata {
        Some(v) => jsontext::json_text(jsontext::value_view(v)),
        None => Seq::empty(),
    };
    laws_pages::law_connector_is_shown_with_what_it_says(last);
    assert(b =~= a.push(pages::named_metadata(last)));
    laws_pages::law_each_connector_has_a_line(a, last.name@, said);
    if one@.len() == 0 {
        assert(a =~= Seq::empty());
        assert(b =~= seq![pages::named_metadata(last)]);
    }
    laws_pages::law_report_holds_each_connector(more@, i);
}

/// Law: connectors that are given with the text of what they say are shown by it.
pub proof fn law_format_connectors(
    connectors: &Vec<(String, Option<String>)>,
    r: String,
)
    requires
        call_ensures(format_connectors, (connectors,), r),
        connectors@.len() == 1,
    ensures
        connectors@[0].1 matches Some(said) ==> r@ == connectors@[0].0@ + " "@ + said@,
        connectors@[0].1 is None ==> r@ == connectors@[0].0@ + " found"@,
{
    let all = pages::connectors_view(connectors@);
    let name = connectors@[0].0@;
    let said = match connectors@[0].1 {
        Some(s) => s@,
        None => Seq::empty(),
    };
    laws_pages::law_each_connector_has_a_line(Seq::empty(), name, said);
    assert(all =~= seq![(name, text::opt_text(connectors@[0].1))]);
}

/// Law: a list page, a directory and a status are shown as what they show.
pub proof fn law_pages_are_shown(
    page: &Json,
    list: String,
    cwd: Option<&str>,
    home: &str,
    directory: String,
    protocol: &str,
    status: String,
)
    requires
        call_ensures(format_list, (page,), list),
        call_ensures(display_cwd, (cwd, home), directory),
        call_ensures(format_status, (page, protocol), status),
    ensures
        list@ == pages::list_text(page@),
        directory@ == pages::shown_directory(text::opt_str(cwd), home@),
        status@ == pages::status_text(page@, protocol@),
{
}

/// Law: a user is told every command, with its arguments, and every option.
pub proof fn law_usage_names_every_command()
    ensures
        cli::USAGE@ == "Usage:
  pi-mesh start [peer]
  pi-mesh stop
  pi-mesh status
  pi-mesh list
  pi-mesh connectors
  pi-mesh peer <addr>
  pi-mesh send <to> <message>
  pi-mesh request <to> <message>
  pi-mesh version

Options:
  --json
  --version
  --from <name>
  --timeout <seconds>"@,
{
}

/// Law: a directory in the home directory is shown with a tilde; a directory elsewhere as it
/// is.
pub proof fn law_display_cwd(home: &str, cwd: &str, r: String, inner: Seq<char>)
    requires
        call_ensures(display_cwd, (Some(cwd), home), r),
        laws_pages::plain(home@),
        laws_pages::plain(cwd@),
        laws_pages::plain(inner),
        home@.len() > 0,
    ensures
        cwd@ == home@ ==> r@ == "~"@,
        cwd@ == home@ + seq!['/'] + inner ==> r@ == "~/"@ + inner,
        cwd@ != home@ && !(exists|rest: Seq<char>| cwd@ == #[trigger] (home@ + seq!['/'] + rest))
            ==> r@ == cwd@,
{
    laws_pages::law_home_is_shown_as_a_tilde(home@, inner, cwd@);
}

/// Law: a copy holds what was copied, and a text or a number what it was made of.
pub proof fn law_values_hold_what_they_are_made_of(
    j: &Json,
    words: &str,
    n: u64,
    maybe: &Option<String>,
    other: &Option<Json>,
    copied: Json,
    text: Json,
    number: Json,
    optional: Json,
    again: Option<Json>,
    field: (String, Json),
)
    requires
        call_ensures(Json::copy, (j,), copied),
        call_ensures(Json::text, (words,), text),
        call_ensures(Json::unsigned, (n,), number),
        call_ensures(Json::optional_text, (maybe,), optional),
        call_ensures(copy_opt, (other,), again),
        call_ensures(json_field, (words, *j), field),
    ensures
        copied@ == j@,
        text@ == JsonView::Text(words@),
        number@ == JsonView::Number(Some(n), text::decimal(n as nat)),
        *maybe matches Some(s) ==> optional@ == JsonView::Text(s@),
        *maybe is None ==> optional@ == JsonView::Null,
        again is Some <==> *other is Some,
        *other matches Some(v) ==> again->0@ == v@,
        field.0@ == words@ && field.1@ == j@,
{
}

/// Law: what is asked of a value is what it holds: a field, a text, a truth value, a number,
/// items or fields, and nothing where it is none of these.
pub proof fn law_values_give_what_they_hold<'a>(
    j: &'a Json,
    key: &str,
    field: Option<&'a Json>,
    words: Option<&'a str>,
    truth: Option<bool>,
    number: Option<u64>,
    items: Option<&'a Vec<Json>>,
    fields: Option<&'a Vec<(String, Json)>>,
    at: Option<&'a str>,
)
    requires
        call_ensures(Json::get, (j, key), field),
        call_ensures(Json::as_text, (j,), words),
        call_ensures(Json::as_bool, (j,), truth),
        call_ensures(Json::as_unsigned, (j,), number),
        call_ensures(Json::as_list, (j,), items),
        call_ensures(Json::as_object, (j,), fields),
        call_ensures(value_str, (j, key), at),
    ensures
        field matches Some(v) ==> j@.get(key@) == Some(v@),
        field is None ==> j@.get(key@) is None,
        words matches Some(s) ==> j@ == JsonView::Text(s@),
        words is None ==> !(j@ is Text),
        truth matches Some(b) ==> j@ == JsonView::Bool(b),
        truth is None ==> !(j@ is Bool),
        number matches Some(n) ==> (j@ matches JsonView::Number(Some(m), _) && m == n),
        number is None ==> !(j@ is Number) || j@->Number_0 is None,
        items matches Some(list) ==> j@ == JsonView::List(json::items_view(list@)),
        items is None ==> !(j@ is List),
        fields matches Some(all) ==> j@ == JsonView::Object(json::fields_view(all@)),
        fields is None ==> !(j@ is Object),
        at matches Some(s) ==> j@.get(key@) == Some(JsonView::Text(s@)),
        at is None ==> j@.get(key@) is None || !(j@.get(key@)->0 is Text),
{
}

/// Law: what `serde_json` holds or reads is taken over as it is.
pub proof fn law_outside_values_are_taken_over<'a>(
    v: &'a Value,
    bytes: &[u8],
    key: &str,
    tree: Json,
    read: Option<Json>,
    field: Option<&'a Value>,
    words: Option<String>,
)
    requires
        call_ensures(json_of, (v,), tree),
        call_ensures(parse_json, (bytes,), read),
        call_ensures(open_field, (v, key), field),
        call_ensures(text_of, (v,), words),
    ensures
        tree@ == jsontext::value_view(*v),
        read matches Some(j) ==> jsontext::parsed_json(bytes@) == Some(j@),
        read is None ==> jsontext::parsed_json(bytes@) is None,
        field matches Some(w) ==> jsontext::value_view(*v).get(key@) == Some(
            jsontext::value_view(*w),
        ),
        field is None ==> jsontext::value_view(*v).get(key@) is None,
        words matches Some(s) ==> jsontext::value_view(*v) == JsonView::Text(s@),
        words is None ==> !(jsontext::value_view(*v) is Text),
{
}

} // verus!
