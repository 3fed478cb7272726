//! What the user is shown: the list of agents, the status of the service, the connectors.

use crate::json;
use crate::json::{json_field, value_str, Json, JsonView};
use crate::jsontext;
use crate::jsontext::{json_of, open_field, text_of, value_text};
use crate::message;
use crate::text;
use crate::text::{decimal_text, forward_slashes, join_strings, starts_with, str_eq};
use serde_json::Value;
use vstd::prelude::*;
use vstd::string::*;

verus! {

/// A directory as it is shown: with forward slashes, and with a tilde for the home directory
/// at its start. An unknown directory is shown as a dot.
pub open spec fn shown_directory(cwd: Option<Seq<char>>, home: Seq<char>) -> Seq<char> {
    let here = match cwd {
        Some(path) => text::replace_char(path, '\\', '/'),
        None => "."@,
    };
    let home = text::replace_char(home, '\\', '/');
    if home.len() > 0 && here == home {
        "~"@
    } else if home.len() > 0 && text::has_prefix(here, home.push('/')) {
        "~/"@ + here.skip(home.len() as int + 1)
    } else {
        here
    }
}

/// A directory as it is shown.
pub fn display_cwd(cwd: Option<&str>, home: &str) -> (r: String)
    ensures
        r@ == shown_directory(text::opt_str(cwd), home@),
{
    let here = match cwd {
        Some(path) => forward_slashes(path),
        None => ".".to_owned(),
    };
    let home = forward_slashes(home);
    if home.as_str().is_empty() {
        return here;
    }
    if str_eq(here.as_str(), home.as_str()) {
        return "~".to_owned();
    }
    let mut inside = home.clone();
    inside.append("/");
    proof {
        reveal_strlit("/");
        assert(inside@ =~= home@.push('/'));
    }
    if starts_with(here.as_str(), inside.as_str()) {
        let cut: usize = inside.as_str().unicode_len();
        let total: usize = here.as_str().unicode_len();
        let tail = here.as_str().substring_char(cut, total);
        proof {
            assert(tail@ =~= here@.skip(home@.len() as int + 1));
        }
        let mut out = "~/".to_owned();
        out.append(tail);
        return out;
    }
    here
}

/// A text under a key, or `unknown`.
pub open spec fn known(page: JsonView, key: Seq<char>) -> Seq<char> {
    match page.text_at(key) {
        Some(s) => s,
        None => "unknown"@,
    }
}

/// A text under a key, or `unknown`.
fn known_text<'a>(page: &'a Json, key: &str) -> (r: &'a str)
    ensures
        r@ == known(page@, key@),
{
    match value_str(page, key) {
        Some(s) => s,
        None => "unknown",
    }
}

/// A text under a key, with `lead` before it, or nothing.
pub open spec fn led(page: JsonView, key: Seq<char>, lead: Seq<char>) -> Seq<char> {
    match page.text_at(key) {
        Some(s) => lead + s,
        None => Seq::empty(),
    }
}

/// A text under a key, with `lead` before it, or nothing.
fn led_text(page: &Json, key: &str, lead: &str) -> (r: String)
    ensures
        r@ == led(page@, key@, lead@),
{
    match value_str(page, key) {
        Some(s) => {
            let mut out = lead.to_owned();
            out.append(s);
            out
        },
        None => String::new(),
    }
}

/// How much context a runtime has left, where it says so.
pub open spec fn free_context(runtime: JsonView) -> Option<u64> {
    match runtime.get("context"@) {
        Some(context) => match context.get("free"@) {
            Some(free) => free.as_unsigned(),
            None => None,
        },
        None => None,
    }
}

/// The runtime of an agent as it is shown: its model, provider and free context, in
/// brackets. Without a model nothing is shown.
pub open spec fn label(agent: JsonView) -> Seq<char> {
    match agent.get("runtime"@) {
        None => Seq::empty(),
        Some(runtime) => match runtime.text_at("model"@) {
            None => Seq::empty(),
            Some(model) => " ["@ + model + led(runtime, "provider"@, "@"@) + match free_context(
                runtime,
            ) {
                Some(n) => ", "@ + text::decimal(n as nat) + " ctx free"@,
                None => Seq::empty(),
            } + "]"@,
        },
    }
}

/// The runtime of an agent as it is shown.
pub fn runtime_label(agent: &Json) -> (r: String)
    ensures
        r@ == label(agent@),
{
    let runtime = match agent.get("runtime") {
        Some(runtime) => runtime,
        None => {
            return String::new();
        },
    };
    let model = match value_str(runtime, "model") {
        Some(model) => model,
        None => {
            return String::new();
        },
    };
    let free: Option<u64> = match runtime.get("context") {
        Some(context) => match context.get("free") {
            Some(free) => free.as_unsigned(),
            None => None,
        },
        None => None,
    };
    let mut out = " [".to_owned();
    out.append(model);
    out.append(led_text(runtime, "provider", "@").as_str());
    let mut tail = String::new();
    match free {
        Some(n) => {
            tail.append(", ");
            tail.append(decimal_text(n).as_str());
            tail.append(" ctx free");
            proof {
                assert(tail@ =~= ", "@ + text::decimal(n as nat) + " ctx free"@);
            }
        },
        None => {},
    }
    out.append(tail.as_str());
    out.append("]");
    out
}

/// An agent as it is shown.
pub open spec fn agent_line(agent: JsonView) -> Seq<char> {
    known(agent, "alias"@) + led(agent, "title"@, " - "@) + led(agent, "cwd"@, " "@) + label(agent)
        + " ("@ + known(agent, "id"@) + ") "@ + known(agent, "addr"@)
}

/// An agent as it is shown.
fn agent_text(agent: &Json) -> (r: String)
    ensures
        r@ == agent_line(agent@),
{
    let mut out = known_text(agent, "alias").to_owned();
    out.append(led_text(agent, "title", " - ").as_str());
    out.append(led_text(agent, "cwd", " ").as_str());
    out.append(runtime_label(agent).as_str());
    out.append(" (");
    out.append(known_text(agent, "id"));
    out.append(") ");
    out.append(known_text(agent, "addr"));
    out
}

/// A text, or `none` in place of an empty one.
pub open spec fn or_none(s: Seq<char>) -> Seq<char> {
    if s.len() == 0 {
        "none"@
    } else {
        s
    }
}

/// The agents under a key of a list page, one a line.
pub open spec fn agents_text(page: JsonView, key: Seq<char>) -> Seq<char> {
    match page.get(key) {
        Some(v) => match v.as_list() {
            Some(agents) => or_none(
                text::join(agents.map_values(|a: JsonView| agent_line(a)), "\n  "@),
            ),
            None => "none"@,
        },
        None => "none"@,
    }
}

/// The agents under a key of a list page, one a line.
pub fn format_agents(list: &Json, key: &str) -> (r: String)
    ensures
        r@ == agents_text(list@, key@),
{
    let agents = match list.get(key) {
        Some(v) => match v.as_list() {
            Some(agents) => agents,
            None => {
                return "none".to_owned();
            },
        },
        None => {
            return "none".to_owned();
        },
    };
    let ghost expected = json::items_view(agents@).map_values(|a: JsonView| agent_line(a));
    let mut lines: Vec<String> = Vec::new();
    let mut i: usize = 0;
    while i < agents.len()
        invariant
            i <= agents@.len(),
            expected == json::items_view(agents@).map_values(|a: JsonView| agent_line(a)),
            text::texts(lines@) =~= expected.take(i as int),
        decreases agents@.len() - i,
    {
        let line = agent_text(&agents[i]);
        let ghost before = text::texts(lines@);
        lines.push(line);
        proof {
            assert(text::texts(lines@) =~= before.push(line@));
            assert(expected.take(i + 1) =~= before.push(expected[i as int]));
        }
        i = i + 1;
    }
    proof {
        assert(expected.take(i as int) =~= expected);
    }
    let out = join_strings(lines.as_slice(), "\n  ");
    if out.as_str().is_empty() {
        "none".to_owned()
    } else {
        out
    }
}

/// The texts among some values, in order.
pub open spec fn texts_among(items: Seq<JsonView>) -> Seq<Seq<char>>
    decreases items.len(),
{
    if items.len() == 0 {
        Seq::empty()
    } else {
        let front = texts_among(items.drop_last());
        match items.last().as_text() {
            Some(s) => front.push(s),
            None => front,
        }
    }
}

/// The peers of a list page, one a line.
pub open spec fn peers_text(page: JsonView) -> Seq<char> {
    match page.get("peers"@) {
        Some(v) => match v.as_list() {
            Some(items) => or_none(text::join(texts_among(items), "\n  "@)),
            None => "none"@,
        },
        None => "none"@,
    }
}

fn format_peers(list: &Json) -> (r: String)
    ensures
        r@ == peers_text(list@),
{
    let items = match list.get("peers") {
        Some(v) => match v.as_list() {
            Some(items) => items,
            None => {
                return "none".to_owned();
            },
        },
        None => {
            return "none".to_owned();
        },
    };
    let ghost all = json::items_view(items@);
    let mut names: Vec<String> = Vec::new();
    let mut i: usize = 0;
    proof {
        assert(all.take(0) =~= Seq::empty());
        assert(text::texts(names@) =~= Seq::empty());
    }
    while i < items.len()
        invariant
            all == json::items_view(items@),
            i <= all.len(),
            text::texts(names@) == texts_among(all.take(i as int)),
        decreases all.len() - i,
    {
        let ghost before = text::texts(names@);
        proof {
            assert(all.take(i + 1).drop_last() =~= all.take(i as int));
            assert(all.take(i + 1).last() == items@[i as int]@);
        }
        match items[i].as_text() {
            Some(s) => {
                names.push(s.to_owned());
                proof {
                    assert(text::texts(names@) =~= before.push(s@));
                }
            },
            None => {},
        }
        i = i + 1;
    }
    proof {
        assert(all.take(i as int) =~= all);
    }
    let out = join_strings(names.as_slice(), "\n  ");
    if out.as_str().is_empty() {
        "none".to_owned()
    } else {
        out
    }
}

/// A list page as it is shown.
pub open spec fn list_text(page: JsonView) -> Seq<char> {
    "service: "@ + known(page, "self"@) + "\nlocal:\n  "@ + agents_text(page, "local"@)
        + "\nremote:\n  "@ + agents_text(page, "remote"@) + "\npeers:\n  "@ + peers_text(page)
}

/// A list page as it is shown.
pub fn format_list(list: &Json) -> (r: String)
    ensures
        r@ == list_text(list@),
{
    let mut out = "service: ".to_owned();
    out.append(known_text(list, "self"));
    out.append("\nlocal:\n  ");
    out.append(format_agents(list, "local").as_str());
    out.append("\nremote:\n  ");
    out.append(format_agents(list, "remote").as_str());
    out.append("\npeers:\n  ");
    out.append(format_peers(list).as_str());
    out
}

/// The status of a running service as it is shown, given the text of its protocol version.
pub open spec fn status_text(health: JsonView, protocol: Seq<char>) -> Seq<char> {
    "pi-mesh: running\nversion: "@ + known(health, "version"@) + "\nprotocol: "@ + protocol
        + "\nmachine: "@ + known(health, "machine"@) + "\naddr: "@ + known(health, "advertise"@)
}

/// The status of a running service as it is shown, given the text of its protocol version.
pub fn format_status(health: &Json, protocol: &str) -> (r: String)
    ensures
        r@ == status_text(health@, protocol@),
{
    let mut out = "pi-mesh: running\nversion: ".to_owned();
    out.append(known_text(health, "version"));
    out.append("\nprotocol: ");
    out.append(protocol);
    out.append("\nmachine: ");
    out.append(known_text(health, "machine"));
    out.append("\naddr: ");
    out.append(known_text(health, "advertise"));
    out
}

/// The protocol version of a health page as it is written.
pub open spec fn protocol_text(health: JsonView) -> Seq<char> {
    match health.get("protocol"@) {
        Some(v) => jsontext::json_text(v),
        None => "null"@,
    }
}

/// The status that a health page tells, as it is shown.
pub fn status_page(health: &Value) -> (r: String)
    ensures
        r@ == status_text(
            jsontext::value_view(*health),
            protocol_text(jsontext::value_view(*health)),
        ),
{
    let protocol = match open_field(health, "protocol") {
        Some(v) => value_text(v),
        None => "null".to_owned(),
    };
    format_status(&json_of(health), protocol.as_str())
}

/// A body as it is shown: a text as it stands, any other value as JSON.
pub open spec fn body_text(body: JsonView) -> Seq<char> {
    match body.as_text() {
        Some(s) => s,
        None => jsontext::json_text(body),
    }
}

/// A body as it is shown.
pub fn format_body(body: &Value) -> (r: String)
    ensures
        r@ == body_text(jsontext::value_view(*body)),
{
    match text_of(body) {
        Some(s) => s,
        None => value_text(body),
    }
}

/// The body of an answer as it is shown. An answer without one is shown as null.
pub fn format_answer(answer: &Value) -> (r: String)
    ensures
        r@ == (match jsontext::value_view(*answer).get("body"@) {
            Some(body) => body_text(body),
            None => "null"@,
        }),
{
    match open_field(answer, "body") {
        Some(body) => format_body(body),
        None => "null".to_owned(),
    }
}

/// A connector as it is shown, with what it says of itself.
pub open spec fn connector_line(name: Seq<char>, metadata: Option<Seq<char>>) -> Seq<char> {
    match metadata {
        Some(m) => name + " "@ + m,
        None => name + " found"@,
    }
}

/// The connectors as they are shown: one a line, or `none`.
pub open spec fn connectors_text(connectors: Seq<(Seq<char>, Option<Seq<char>>)>) -> Seq<char> {
    if connectors.len() == 0 {
        "none"@
    } else {
        text::join(
            connectors.map_values(
                |c: (Seq<char>, Option<Seq<char>>)| connector_line(c.0, c.1),
            ),
            "\n"@,
        )
    }
}

/// Connectors, with the text of what they say of themselves, by views.
pub open spec fn connectors_view(connectors: Seq<(String, Option<String>)>) -> Seq<
    (Seq<char>, Option<Seq<char>>),
> {
    connectors.map_values(|c: (String, Option<String>)| (c.0@, text::opt_text(c.1)))
}

/// The connectors as they are shown, given the text of what they say of themselves.
pub fn format_connectors(connectors: &Vec<(String, Option<String>)>) -> (r: String)
    ensures
        r@ == connectors_text(connectors_view(connectors@)),
{
    if connectors.len() == 0 {
        return "none".to_owned();
    }
    let ghost expected = connectors_view(connectors@).map_values(
        |c: (Seq<char>, Option<Seq<char>>)| connector_line(c.0, c.1),
    );
    let mut lines: Vec<String> = Vec::new();
    let mut i: usize = 0;
    while i < connectors.len()
        invariant
            i <= connectors@.len(),
            expected == connectors_view(connectors@).map_values(
                |c: (Seq<char>, Option<Seq<char>>)| connector_line(c.0, c.1),
            ),
            text::texts(lines@) =~= expected.take(i as int),
        decreases connectors@.len() - i,
    {
        let mut line = connectors[i].0.clone();
        match &connectors[i].1 {
            Some(m) => {
                line.append(" ");
                line.append(m.as_str());
            },
            None => {
                line.append(" found");
            },
        }
        let ghost before = text::texts(lines@);
        lines.push(line);
        proof {
            assert(text::texts(lines@) =~= before.push(line@));
            assert(line@ == expected[i as int]);
            assert(expected.take(i + 1) =~= before.push(expected[i as int]));
        }
        i = i + 1;
    }
    proof {
        assert(expected.take(i as int) =~= expected);
    }
    join_strings(lines.as_slice(), "\n")
}

/// A connector that was found: its name, its file, and what it says of itself.
pub struct ConnectorInfo {
    pub name: String,
    pub path: String,
    pub metadata: Option<Value>,
}

/// What a connector says of itself, where it says something.
pub open spec fn metadata_view(metadata: Option<Value>) -> Option<JsonView> {
    match metadata {
        Some(v) => Some(jsontext::value_view(v)),
        None => None,
    }
}

/// A connector by its name and the JSON text of what it says of itself.
pub open spec fn named_metadata(c: ConnectorInfo) -> (Seq<char>, Option<Seq<char>>) {
    (
        c.name@,
        match metadata_view(c.metadata) {
            Some(m) => Some(jsontext::json_text(m)),
            None => None,
        },
    )
}

/// The connectors as they are shown.
pub fn connectors_page(connectors: &Vec<ConnectorInfo>) -> (r: String)
    ensures
        r@ == connectors_text(connectors@.map_values(|c: ConnectorInfo| named_metadata(c))),
{
    let ghost expected = connectors@.map_values(|c: ConnectorInfo| named_metadata(c));
    let mut lines: Vec<(String, Option<String>)> = Vec::new();
    let mut i: usize = 0;
    while i < connectors.len()
        invariant
            i <= connectors@.len(),
            expected == connectors@.map_values(|c: ConnectorInfo| named_metadata(c)),
            connectors_view(lines@) =~= expected.take(i as int),
        decreases connectors@.len() - i,
    {
        let metadata = match &connectors[i].metadata {
            Some(v) => Some(value_text(v)),
            None => None,
        };
        let ghost before = connectors_view(lines@);
        lines.push((connectors[i].name.clone(), metadata));
        proof {
            assert(connectors_view(lines@) =~= before.push(expected[i as int]));
            assert(expected.take(i + 1) =~= before.push(expected[i as int]));
        }
        i = i + 1;
    }
    proof {
        assert(expected.take(i as int) =~= expected);
    }
    format_connectors(&lines)
}

/// A connector in JSON.
pub open spec fn connector_json(c: ConnectorInfo) -> JsonView {
    JsonView::Object(
        seq![
            ("name"@, JsonView::Text(c.name@)),
            ("path"@, JsonView::Text(c.path@)),
            ("metadata"@, message::opt_value_json(metadata_view(c.metadata))),
        ],
    )
}

/// The connectors in JSON.
pub open spec fn connectors_json(connectors: Seq<ConnectorInfo>) -> JsonView {
    JsonView::Object(
        seq![
            (
                "connectors"@,
                JsonView::List(connectors.map_values(|c: ConnectorInfo| connector_json(c))),
            ),
        ],
    )
}

/// The connectors in JSON.
pub fn connectors_report(connectors: &Vec<ConnectorInfo>) -> (r: Json)
    ensures
        r@ == connectors_json(connectors@),
{
    broadcast use json::lemma_json_view;
    let ghost expected = connectors@.map_values(|c: ConnectorInfo| connector_json(c));
    let mut items: Vec<Json> = Vec::new();
    let mut i: usize = 0;
    while i < connectors.len()
        invariant
            i <= connectors@.len(),
            expected == connectors@.map_values(|c: ConnectorInfo| connector_json(c)),
            json::items_view(items@) =~= expected.take(i as int),
        decreases connectors@.len() - i,
    {
        let metadata = match &connectors[i].metadata {
            Some(v) => json_of(v),
            None => Json::Null,
        };
        let item = Json::Object(
            vec![
                json_field("name", Json::text(connectors[i].name.as_str())),
                json_field("path", Json::text(connectors[i].path.as_str())),
                json_field("metadata", metadata),
            ],
        );
        proof {
            assert(item@->Object_0 =~= connector_json(connectors@[i as int])->Object_0);
        }
        let ghost before = json::items_view(items@);
        items.push(item);
        proof {
            assert(json::items_view(items@) =~= before.push(expected[i as int]));
            assert(expected.take(i + 1) =~= before.push(expected[i as int]));
        }
        i = i + 1;
    }
    let r = Json::Object(vec![json_field("connectors", Json::List(items))]);
    proof {
        assert(expected.take(i as int) =~= expected);
        assert(r@->Object_0 =~= connectors_json(connectors@)->Object_0);
    }
    r
}

} // verus!
