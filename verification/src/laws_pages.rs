//! What the answers of a service carry, and what the user is shown of them.

use crate::address;
use crate::address::UrlParts;
use crate::cli;
use crate::cli::{Command, CommandView, MessageArgs, MessageArgsView};
use crate::errors;
use crate::errors::MeshError;
use crate::json;
use crate::json::{Json, JsonView};
use crate::jsontext;
use crate::mesh;
use crate::mesh::MeshView;
use crate::message;
use crate::message::{AgentInfo, AgentInfoView, MeshMessage, MessageView, RemoteAgent};
use crate::pages;
use crate::pages::ConnectorInfo;
use crate::reply;
use crate::reply::{Reply, ReplyBody, ReplyBodyView};
use crate::table;
use crate::text;
use vstd::prelude::*;

verus! {

/// Law: the view of a tree is the tree: each value, each item and each field, in order.
pub proof fn law_tree_is_seen_as_it_is(j: Json, i: int)
    ensures
        match j {
            Json::Null => j@ == JsonView::Null,
            Json::Bool(b) => j@ == JsonView::Bool(b),
            Json::Number(n) => j@ == JsonView::Number(n.unsigned, n.text@),
            Json::Text(s) => j@ == JsonView::Text(s@),
            Json::List(items) => j@.as_list() matches Some(list) && list.len() == items@.len() && (
            0 <= i < items@.len() ==> list[i] == items@[i]@),
            Json::Object(fields) => j@.as_object() matches Some(all) && all.len() == fields@.len()
                && (0 <= i < fields@.len() ==> all[i] == (fields@[i].0@, fields@[i].1@)),
        },
{
    json::lemma_json_view(j);
}

/// Law: a key of an object gives the value of its first field of that name, and nothing where
/// no field has that name; what is no object has no fields.
pub proof fn law_key_gives_its_first_field(
    fields: Seq<(Seq<char>, JsonView)>,
    key: Seq<char>,
    i: int,
)
    ensures
        0 <= i < fields.len() && fields[i].0 == key && (forall|j: int|
            0 <= j < i ==> (#[trigger] fields[j]).0 != key) ==> JsonView::Object(fields).get(key)
            == Some(fields[i].1),
        (forall|j: int| 0 <= j < fields.len() ==> (#[trigger] fields[j]).0 != key)
            ==> JsonView::Object(fields).get(key) is None,
        JsonView::Null.get(key) is None,
        JsonView::Object(fields).as_text() is None,
        JsonView::Object(fields).text_at(key) == (match JsonView::Object(fields).get(key) {
            Some(JsonView::Text(s)) => Some(s),
            _ => None,
        }),
{
    if 0 <= i < fields.len() && fields[i].0 == key && (forall|j: int|
        0 <= j < i ==> (#[trigger] fields[j]).0 != key) {
        json::lemma_field_at(fields, i);
    }
    if forall|j: int| 0 <= j < fields.len() ==> (#[trigger] fields[j]).0 != key {
        lemma_no_field(fields, key);
    }
}

proof fn lemma_no_field(fields: Seq<(Seq<char>, JsonView)>, key: Seq<char>)
    requires
        forall|j: int| 0 <= j < fields.len() ==> (#[trigger] fields[j]).0 != key,
    ensures
        json::field(fields, key) is None,
    decreases fields.len(),
{
    if fields.len() > 0 {
        let rest = fields.drop_first();
        assert forall|j: int| 0 <= j < rest.len() implies (#[trigger] rest[j]).0 != key by {
            assert(rest[j] == fields[j + 1]);
        }
        assert(fields[0].0 != key);
        lemma_no_field(rest, key);
    }
}

/// Law: the answer to a local request that came out with a body has status 200 and holds,
/// under `body`, exactly that body; one that failed says why with status 504.
pub proof fn law_request_is_answered_with_the_body(body: JsonView, why: Seq<char>)
    ensures
        reply::request_answer(Ok(body)).status == 200,
        reply::request_answer(Ok(body)).body matches ReplyBodyView::Json(page) && page.get(
            "body"@,
        ) == Some(body) && page.get("ok"@) == Some(JsonView::Bool(true)),
        !reply::request_answer(Ok(body)).wake,
        reply::request_answer(Err(why)).status == 504,
        reply::request_answer(Err(why)).body == ReplyBodyView::Text(why),
        !reply::request_answer(Err(why)).wake,
{
    lemma_ok_body(body);
}

/// Law: the answer to a peer that passed a message on has status 200 and holds, under `body`,
/// exactly what came of it; one that failed says why with status 502.
pub proof fn law_peer_is_answered_with_the_body(body: JsonView, why: Seq<char>)
    ensures
        reply::network_answer(Ok(body)).status == 200,
        reply::network_answer(Ok(body)).body matches ReplyBodyView::Json(page) && page.get(
            "body"@,
        ) == Some(body) && page.get("ok"@) == Some(JsonView::Bool(true)),
        !reply::network_answer(Ok(body)).wake,
        reply::network_answer(Err(why)).status == 502,
        reply::network_answer(Err(why)).body == ReplyBodyView::Text(why),
        !reply::network_answer(Err(why)).wake,
{
    lemma_ok_body(body);
}

/// Law: an agent that sent a message is told that all went well, with status 200, whatever
/// came of it, or why it did not, with status 502.
pub proof fn law_sender_is_told_how_it_went(body: JsonView, why: Seq<char>)
    ensures
        reply::send_answer(Ok(body)).status == 200,
        reply::send_answer(Ok(body)).body matches ReplyBodyView::Json(page) && page.get("ok"@)
            == Some(JsonView::Bool(true)) && page.get("body"@) is None,
        !reply::send_answer(Ok(body)).wake,
        reply::send_answer(Err(why)).status == 502,
        reply::send_answer(Err(why)).body == ReplyBodyView::Text(why),
        !reply::send_answer(Err(why)).wake,
{
    lemma_ok(false);
}

/// Law: an answer carries its status, its text or page, and whether agents are to look again,
/// as they were given.
pub proof fn law_answers_carry_what_they_are_given(
    status: u16,
    words: Seq<char>,
    page: JsonView,
    wake: bool,
    r: Reply,
)
    ensures
        reply::text_answer(status, words).status == status,
        reply::text_answer(status, words).body == ReplyBodyView::Text(words),
        !reply::text_answer(status, words).wake,
        reply::json_answer(page).status == 200,
        reply::json_answer(page).body == ReplyBodyView::Json(page),
        !reply::json_answer(page).wake,
        reply::ok_answer(wake).status == 200,
        reply::ok_answer(wake).body matches ReplyBodyView::Json(ok) && ok.get("ok"@) == Some(
            JsonView::Bool(true),
        ),
        reply::ok_answer(wake).wake == wake,
        r@.status == r.status,
        r@.wake == r.wake,
        match r.body {
            ReplyBody::Json(j) => r@.body == ReplyBodyView::Json(j@),
            ReplyBody::Text(s) => r@.body == ReplyBodyView::Text(s@),
        },
{
    lemma_ok(wake);
}

proof fn lemma_ok(wake: bool)
    ensures
        reply::ok_answer(wake).body matches ReplyBodyView::Json(page) && page.get("ok"@) == Some(
            JsonView::Bool(true),
        ) && page.get("body"@) is None,
{
    reveal_strlit("ok");
    reveal_strlit("body");
    assert("ok"@[0] == 'o' && "body"@[0] == 'b');
    let page = reply::ok_answer(wake).body->Json_0;
    json::lemma_field_at(page->Object_0, 0);
    lemma_no_field(page->Object_0, "body"@);
}

proof fn lemma_ok_body(body: JsonView)
    ensures
        reply::ok_body_json(body).get("body"@) == Some(body),
        reply::ok_body_json(body).get("ok"@) == Some(JsonView::Bool(true)),
{
    reveal_strlit("ok");
    reveal_strlit("body");
    assert("ok"@[0] == 'o' && "body"@[0] == 'b');
    let fields = reply::ok_body_json(body)->Object_0;
    json::lemma_field_at(fields, 0);
    json::lemma_field_at(fields, 1);
}

/// Whether a page shows an agent with exactly these particulars.
pub open spec fn shows_agent(
    page: JsonView,
    id: Seq<char>,
    alias: Seq<char>,
    title: Option<Seq<char>>,
    cwd: Seq<char>,
    runtime: Option<JsonView>,
    addr: Seq<char>,
) -> bool {
    &&& page.text_at("id"@) == Some(id)
    &&& page.text_at("alias"@) == Some(alias)
    &&& page.text_at("title"@) == title
    &&& page.text_at("cwd"@) == Some(cwd)
    &&& page.get("runtime"@) == Some(
        match runtime {
            Some(r) => r,
            None => JsonView::Null,
        },
    )
    &&& page.text_at("addr"@) == Some(addr)
}

/// Law: each particular of an agent can be read back from its JSON; a title that it does not
/// have is null.
pub proof fn law_agent_is_read_back(a: AgentInfoView)
    ensures
        shows_agent(message::info_json(a), a.id, a.alias, a.title, a.cwd, a.runtime, a.addr),
        a.title is None ==> message::info_json(a).get("title"@) == Some(JsonView::Null),
{
    let fields = message::info_json(a)->Object_0;
    reveal_strlit("id");
    reveal_strlit("alias");
    reveal_strlit("title");
    reveal_strlit("cwd");
    reveal_strlit("runtime");
    reveal_strlit("addr");
    assert("id"@[0] == 'i' && "alias"@[0] == 'a' && "alias"@[1] == 'l' && "title"@[0] == 't'
        && "cwd"@[0] == 'c' && "runtime"@[0] == 'r' && "addr"@[0] == 'a' && "addr"@[1] == 'd');
    json::lemma_field_at(fields, 0);
    json::lemma_field_at(fields, 1);
    json::lemma_field_at(fields, 2);
    json::lemma_field_at(fields, 3);
    json::lemma_field_at(fields, 4);
    json::lemma_field_at(fields, 5);
}

/// Law: the JSON of a message holds its sender, addressee, id, kind and body, and the
/// particulars of its sender.
pub proof fn law_message_is_read_back(m: MessageView)
    ensures
        message::message_json(m).text_at("from"@) == Some(m.from),
        message::message_json(m).text_at("to"@) == Some(m.to),
        message::message_json(m).text_at("id"@) == Some(m.id),
        message::message_json(m).text_at("kind"@) == Some(m.kind),
        message::message_json(m).get("body"@) == Some(m.body),
        message::message_json(m).get("from_agent"@) matches Some(a) && shows_agent(
            a,
            m.from_agent.id,
            m.from_agent.alias,
            m.from_agent.title,
            m.from_agent.cwd,
            m.from_agent.runtime,
            m.from_agent.addr,
        ),
{
    crate::laws::law_message_parts_are_read_back(m);
    law_agent_is_read_back(m.from_agent);
}

/// Law: a number in JSON is read back as that number, and written in decimal.
pub proof fn law_number_is_read_back(n: u64)
    ensures
        json::unsigned_json(n).as_unsigned() == Some(n),
        json::unsigned_json(n) == JsonView::Number(Some(n), text::decimal(n as nat)),
{
}

/// Whether `names` names each member of a set once.
pub open spec fn names_each(names: Seq<Seq<char>>, all: Set<Seq<char>>) -> bool {
    &&& forall|i: int, j: int|
        0 <= i < j < names.len() ==> #[trigger] names[i] != #[trigger] names[j]
    &&& forall|i: int| 0 <= i < names.len() ==> all.contains(#[trigger] names[i])
    &&& forall|n: Seq<char>| #[trigger]
        all.contains(n) ==> exists|i: int| 0 <= i < names.len() && #[trigger] names[i] == n
}

/// Whether a list shows the local agents of a service, one after the other, as `ids` names
/// them.
pub open spec fn shows_local<W>(items: Seq<JsonView>, s: MeshView<W>, ids: Seq<Seq<char>>) -> bool {
    &&& items.len() == ids.len()
    &&& forall|i: int|
        0 <= i < ids.len() ==> shows_agent(
            #[trigger] items[i],
            ids[i],
            s.local[ids[i]].alias,
            s.local[ids[i]].title,
            s.local[ids[i]].cwd,
            s.local[ids[i]].runtime,
            s.advertise,
        )
}

/// Whether a list shows the agents that a service knows from peers, one after the other, as
/// `ids` names them.
pub open spec fn shows_remote<W>(items: Seq<JsonView>, s: MeshView<W>, ids: Seq<Seq<char>>) -> bool {
    &&& items.len() == ids.len()
    &&& forall|i: int|
        0 <= i < ids.len() ==> shows_agent(
            #[trigger] items[i],
            ids[i],
            s.remote[ids[i]].alias,
            s.remote[ids[i]].title,
            s.remote[ids[i]].cwd,
            s.remote[ids[i]].runtime,
            s.remote[ids[i]].addr,
        )
}

/// Law: an enumeration of a set names each of its members once, and nothing else.
pub proof fn law_enumeration_names_each_once(names: Seq<Seq<char>>, all: Set<Seq<char>>)
    requires
        table::enumerates(names, all),
    ensures
        names_each(names, all),
{
    assert forall|i: int| 0 <= i < names.len() implies all.contains(#[trigger] names[i]) by {
        assert(names.contains(names[i]));
    }
    assert forall|n: Seq<char>| #[trigger] all.contains(n) implies exists|i: int|
        0 <= i < names.len() && #[trigger] names[i] == n by {
        assert(names.contains(n));
    }
}

proof fn lemma_local_shown<W>(s: MeshView<W>, agents: Seq<AgentInfoView>) -> (ids: Seq<Seq<char>>)
    requires
        s.tells_local(agents),
    ensures
        names_each(ids, s.local.dom()),
        shows_local(mesh::infos_json(agents), s, ids),
{
    let ids = choose|ids: Seq<Seq<char>>| #[trigger]
        table::enumerates(ids, s.local.dom()) && agents == ids.map_values(
            |id: Seq<char>| s.local_info(id),
        );
    law_enumeration_names_each_once(ids, s.local.dom());
    let items = mesh::infos_json(agents);
    assert forall|i: int| 0 <= i < ids.len() implies shows_agent(
        #[trigger] items[i],
        ids[i],
        s.local[ids[i]].alias,
        s.local[ids[i]].title,
        s.local[ids[i]].cwd,
        s.local[ids[i]].runtime,
        s.advertise,
    ) by {
        law_agent_is_read_back(agents[i]);
    }
    ids
}

proof fn lemma_remote_shown<W>(s: MeshView<W>, agents: Seq<AgentInfoView>) -> (ids: Seq<Seq<char>>)
    requires
        s.tells_remote(agents),
    ensures
        names_each(ids, s.remote.dom()),
        shows_remote(mesh::infos_json(agents), s, ids),
{
    let ids = choose|ids: Seq<Seq<char>>| #[trigger]
        table::enumerates(ids, s.remote.dom()) && agents == ids.map_values(
            |id: Seq<char>| s.remote_info(id),
        );
    law_enumeration_names_each_once(ids, s.remote.dom());
    let items = mesh::infos_json(agents);
    assert forall|i: int| 0 <= i < ids.len() implies shows_agent(
        #[trigger] items[i],
        ids[i],
        s.remote[ids[i]].alias,
        s.remote[ids[i]].title,
        s.remote[ids[i]].cwd,
        s.remote[ids[i]].runtime,
        s.remote[ids[i]].addr,
    ) by {
        law_agent_is_read_back(agents[i]);
    }
    ids
}

/// Whether a page holds, under two keys, the local agents of a service and those that it knows
/// from peers, each once.
pub open spec fn holds_agents<W>(
    page: JsonView,
    here: Seq<char>,
    there: Seq<char>,
    s: MeshView<W>,
) -> bool {
    &&& page.get(here) matches Some(JsonView::List(items)) && exists|ids: Seq<Seq<char>>|
        names_each(ids, s.local.dom()) && #[trigger] shows_local(items, s, ids)
    &&& page.get(there) matches Some(JsonView::List(items)) && exists|ids: Seq<Seq<char>>|
        names_each(ids, s.remote.dom()) && #[trigger] shows_remote(items, s, ids)
}

/// Law: the health page of a service bears its version, protocol, machine and address, its own
/// agents, and the agents that it knows from peers.
pub proof fn law_health_page_holds_the_service<W>(
    s: MeshView<W>,
    version: Seq<char>,
    page: JsonView,
)
    requires
        s.health_page(version, page),
    ensures
        page.get("ok"@) == Some(JsonView::Bool(true)),
        page.text_at("version"@) == Some(version),
        page.get("protocol"@) matches Some(p) && p.as_unsigned() == Some(3u64),
        page.text_at("machine"@) == Some(s.machine),
        page.text_at("advertise"@) == Some(s.advertise),
        holds_agents(page, "local_agents"@, "remote_agents"@, s),
{
    let (mine, theirs) = choose|mine: Seq<AgentInfoView>, theirs: Seq<AgentInfoView>| #[trigger]
        s.tells_local(mine) && #[trigger] s.tells_remote(theirs) && page == JsonView::Object(
            seq![
                ("ok"@, JsonView::Bool(true)),
                ("version"@, JsonView::Text(version)),
                ("protocol"@, json::unsigned_json(message::PROTOCOL_VERSION as u64)),
                ("machine"@, JsonView::Text(s.machine)),
                ("advertise"@, JsonView::Text(s.advertise)),
                ("local_agents"@, JsonView::List(mesh::infos_json(mine))),
                ("remote_agents"@, JsonView::List(mesh::infos_json(theirs))),
            ],
        );
    let fields = page->Object_0;
    reveal_strlit("ok");
    reveal_strlit("version");
    reveal_strlit("protocol");
    reveal_strlit("machine");
    reveal_strlit("advertise");
    reveal_strlit("local_agents");
    reveal_strlit("remote_agents");
    assert("ok"@[0] == 'o' && "version"@[0] == 'v' && "protocol"@[0] == 'p' && "machine"@[0]
        == 'm' && "advertise"@[0] == 'a' && "local_agents"@[0] == 'l' && "remote_agents"@[0]
        == 'r');
    json::lemma_field_at(fields, 0);
    json::lemma_field_at(fields, 1);
    json::lemma_field_at(fields, 2);
    json::lemma_field_at(fields, 3);
    json::lemma_field_at(fields, 4);
    json::lemma_field_at(fields, 5);
    json::lemma_field_at(fields, 6);
    let here = lemma_local_shown(s, mine);
    let there = lemma_remote_shown(s, theirs);
    assert(fields[5] == ("local_agents"@, JsonView::List(mesh::infos_json(mine))));
    assert(fields[6] == ("remote_agents"@, JsonView::List(mesh::infos_json(theirs))));
    assert(page.get("local_agents"@) == Some(JsonView::List(mesh::infos_json(mine))));
    assert(page.get("remote_agents"@) == Some(JsonView::List(mesh::infos_json(theirs))));
    assert(shows_local(page.get("local_agents"@)->0->List_0, s, here));
    assert(shows_remote(page.get("remote_agents"@)->0->List_0, s, there));
}

/// The parts of a list page.
proof fn lemma_list_page<W>(s: MeshView<W>, page: JsonView) -> (r: (
    Seq<Seq<char>>,
    Seq<Seq<char>>,
    Seq<Seq<char>>,
))
    requires
        s.list_page(page),
    ensures
        names_each(r.0, s.local.dom()),
        page.get("local"@) matches Some(JsonView::List(items)) && shows_local(items, s, r.0),
        names_each(r.1, s.remote.dom()),
        page.get("remote"@) matches Some(JsonView::List(items)) && shows_remote(items, s, r.1),
        names_each(r.2, s.peers),
        page.get("peers"@) matches Some(JsonView::List(items)) && items == r.2.map_values(
            |p: Seq<char>| JsonView::Text(p),
        ),
        page.text_at("self"@) == Some(s.advertise),
{
    let (mine, theirs, peers) = choose|
        mine: Seq<AgentInfoView>,
        theirs: Seq<AgentInfoView>,
        peers: Seq<Seq<char>>,
    | #[trigger]
        s.tells_local(mine) && #[trigger] s.tells_remote(theirs) && #[trigger] table::enumerates(
            peers,
            s.peers,
        ) && page == JsonView::Object(
            seq![
                ("local"@, JsonView::List(mesh::infos_json(mine))),
                ("remote"@, JsonView::List(mesh::infos_json(theirs))),
                ("peers"@, JsonView::List(mesh::texts_json(peers))),
                ("self"@, JsonView::Text(s.advertise)),
            ],
        );
    let fields = page->Object_0;
    reveal_strlit("local");
    reveal_strlit("remote");
    reveal_strlit("peers");
    reveal_strlit("self");
    assert("local"@[0] == 'l' && "remote"@[0] == 'r' && "peers"@[0] == 'p' && "self"@[0] == 's');
    json::lemma_field_at(fields, 0);
    json::lemma_field_at(fields, 1);
    json::lemma_field_at(fields, 2);
    json::lemma_field_at(fields, 3);
    let here = lemma_local_shown(s, mine);
    let there = lemma_remote_shown(s, theirs);
    law_enumeration_names_each_once(peers, s.peers);
    assert(mesh::texts_json(peers) =~= peers.map_values(|p: Seq<char>| JsonView::Text(p)));
    (here, there, peers)
}

/// Law: the list page of a service holds its own agents, the agents that it knows from peers,
/// its peers, each once, and its address.
pub proof fn law_list_page_holds_what_is_known<W>(s: MeshView<W>, page: JsonView)
    requires
        s.list_page(page),
    ensures
        holds_agents(page, "local"@, "remote"@, s),
        page.get("peers"@) matches Some(JsonView::List(items)) && exists|peers: Seq<Seq<char>>|
            #[trigger] names_each(peers, s.peers) && items == peers.map_values(
                |p: Seq<char>| JsonView::Text(p),
            ),
        page.text_at("self"@) == Some(s.advertise),
{
    let (here, there, peers) = lemma_list_page(s, page);
    assert(shows_local(page.get("local"@)->0->List_0, s, here));
    assert(shows_remote(page.get("remote"@)->0->List_0, s, there));
}

/// A runtime as a user reads it: model, provider and free context in brackets; nothing where
/// no model is known.
pub open spec fn shown_runtime(runtime: Option<JsonView>) -> Seq<char> {
    match runtime {
        Some(r) => match r.get("model"@) {
            Some(JsonView::Text(model)) => {
                let provider = match r.get("provider"@) {
                    Some(JsonView::Text(p)) => seq!['@'] + p,
                    _ => Seq::empty(),
                };
                let free = match r.get("context"@) {
                    Some(context) => match context.get("free"@) {
                        Some(JsonView::Number(Some(n), _)) => ", "@ + text::decimal(n as nat)
                            + " ctx free"@,
                        _ => Seq::empty(),
                    },
                    None => Seq::empty(),
                };
                " ["@ + model + provider + free + "]"@
            },
            _ => Seq::empty(),
        },
        None => Seq::empty(),
    }
}

/// The line of an agent: its alias, its title behind a dash, its directory, its runtime, its
/// id in brackets, and its address.
pub open spec fn line_of(
    id: Seq<char>,
    alias: Seq<char>,
    title: Option<Seq<char>>,
    cwd: Seq<char>,
    runtime: Option<JsonView>,
    addr: Seq<char>,
) -> Seq<char> {
    alias + (match title {
        Some(t) => " - "@ + t,
        None => Seq::empty(),
    }) + (" "@ + cwd) + shown_runtime(runtime) + " ("@ + id + ") "@ + addr
}

/// What is shown of the runtime that a page holds.
pub proof fn lemma_label(page: JsonView)
    ensures
        pages::label(page) == shown_runtime(page.get("runtime"@)),
{
    reveal_strlit("@");
    assert("@"@ =~= seq!['@']);
    assert(pages::label(page) =~= shown_runtime(page.get("runtime"@)));
}

/// Law: the line of an agent, shown of a page that holds its particulars, bears all of them.
pub proof fn law_agent_line_bears_its_particulars(
    page: JsonView,
    id: Seq<char>,
    alias: Seq<char>,
    title: Option<Seq<char>>,
    cwd: Seq<char>,
    runtime: Option<JsonView>,
    addr: Seq<char>,
)
    requires
        shows_agent(page, id, alias, title, cwd, runtime, addr),
    ensures
        pages::agent_line(page) == line_of(id, alias, title, cwd, runtime, addr),
{
    lemma_label(page);
    assert(shown_runtime(page.get("runtime"@)) == shown_runtime(runtime));
}

/// Law: in the line of any agent each particular is shown as its page holds it; what the page
/// does not hold is `unknown`, where it is the alias, the id or the address, and left out
/// otherwise.
pub proof fn law_missing_particulars_are_unknown(
    page: JsonView,
    alias: Seq<char>,
    id: Seq<char>,
    addr: Seq<char>,
)
    requires
        page.text_at("alias"@) == Some(alias) || (page.text_at("alias"@) is None && alias
            == "unknown"@),
        page.text_at("id"@) == Some(id) || (page.text_at("id"@) is None && id == "unknown"@),
        page.text_at("addr"@) == Some(addr) || (page.text_at("addr"@) is None && addr
            == "unknown"@),
    ensures
        pages::agent_line(page) == alias + (match page.text_at("title"@) {
            Some(t) => " - "@ + t,
            None => Seq::empty(),
        }) + (match page.text_at("cwd"@) {
            Some(c) => " "@ + c,
            None => Seq::empty(),
        }) + shown_runtime(page.get("runtime"@)) + " ("@ + id + ") "@ + addr,
{
    lemma_label(page);
}

/// Lines as a section of a list: each on its own line, or `none` where there is nothing to
/// show.
pub open spec fn section(lines: Seq<Seq<char>>) -> Seq<char> {
    if lines.len() == 0 || (lines.len() == 1 && lines[0].len() == 0) {
        "none"@
    } else {
        text::join(lines, "\n  "@)
    }
}

/// What is shown of the lines of a section.
pub proof fn lemma_section(lines: Seq<Seq<char>>)
    ensures
        pages::or_none(text::join(lines, "\n  "@)) == section(lines),
{
    reveal_strlit("\n  ");
    reveal_with_fuel(text::join, 2);
}

proof fn lemma_texts_among(names: Seq<Seq<char>>)
    ensures
        pages::texts_among(names.map_values(|p: Seq<char>| JsonView::Text(p))) == names,
    decreases names.len(),
{
    let items = names.map_values(|p: Seq<char>| JsonView::Text(p));
    if names.len() == 0 {
        assert(names =~= Seq::empty());
    } else {
        lemma_texts_among(names.drop_last());
        assert(items.drop_last() =~= names.drop_last().map_values(
            |p: Seq<char>| JsonView::Text(p),
        ));
        assert(names =~= names.drop_last().push(names.last()));
    }
}

/// Law: the shown list bears the address of the service, and has, in its sections, a line for
/// each local agent, for each agent that is known from a peer, and for each peer, and no
/// other line; a section says `none` only if there is nothing to show in it.
pub proof fn law_shown_list_has_a_line_for_each<W>(s: MeshView<W>, page: JsonView)
    requires
        s.list_page(page),
    ensures
        exists|here: Seq<Seq<char>>, there: Seq<Seq<char>>, peers: Seq<Seq<char>>|
            #[trigger] names_each(here, s.local.dom()) && #[trigger] names_each(
                there,
                s.remote.dom(),
            ) && #[trigger] names_each(peers, s.peers) && pages::list_text(page) == "service: "@
                + s.advertise + "\nlocal:\n  "@ + section(
                here.map_values(
                    |id: Seq<char>|
                        line_of(
                            id,
                            s.local[id].alias,
                            s.local[id].title,
                            s.local[id].cwd,
                            s.local[id].runtime,
                            s.advertise,
                        ),
                ),
            ) + "\nremote:\n  "@ + section(
                there.map_values(
                    |id: Seq<char>|
                        line_of(
                            id,
                            s.remote[id].alias,
                            s.remote[id].title,
                            s.remote[id].cwd,
                            s.remote[id].runtime,
                            s.remote[id].addr,
                        ),
                ),
            ) + "\npeers:\n  "@ + section(peers),
{
    let (here, there, peers) = lemma_list_page(s, page);
    let local = page.get("local"@)->0->List_0;
    let remote = page.get("remote"@)->0->List_0;
    let mine = here.map_values(
        |id: Seq<char>|
            line_of(
                id,
                s.local[id].alias,
                s.local[id].title,
                s.local[id].cwd,
                s.local[id].runtime,
                s.advertise,
            ),
    );
    let theirs = there.map_values(
        |id: Seq<char>|
            line_of(
                id,
                s.remote[id].alias,
                s.remote[id].title,
                s.remote[id].cwd,
                s.remote[id].runtime,
                s.remote[id].addr,
            ),
    );
    let shown_local = local.map_values(|a: JsonView| pages::agent_line(a));
    let shown_remote = remote.map_values(|a: JsonView| pages::agent_line(a));
    assert forall|i: int| 0 <= i < here.len() implies shown_local[i] == mine[i] by {
        let id = here[i];
        law_agent_line_bears_its_particulars(
            local[i],
            id,
            s.local[id].alias,
            s.local[id].title,
            s.local[id].cwd,
            s.local[id].runtime,
            s.advertise,
        );
    }
    assert forall|i: int| 0 <= i < there.len() implies shown_remote[i] == theirs[i] by {
        let id = there[i];
        law_agent_line_bears_its_particulars(
            remote[i],
            id,
            s.remote[id].alias,
            s.remote[id].title,
            s.remote[id].cwd,
            s.remote[id].runtime,
            s.remote[id].addr,
        );
    }
    assert(shown_local =~= mine);
    assert(shown_remote =~= theirs);
    lemma_section(mine);
    lemma_section(theirs);
    lemma_section(peers);
    lemma_texts_among(peers);
    assert(pages::agents_text(page, "local"@) == section(mine));
    assert(pages::agents_text(page, "remote"@) == section(theirs));
    assert(pages::peers_text(page) == section(peers));
}

/// Law: of any page the shown list bears the address that it names, or `unknown`, and under
/// `local`, `remote` and `peers` what the page lists there, in its order; what it does not
/// list, or not as a list, is shown as `none`.
pub proof fn law_shown_list_follows_its_page(page: JsonView, service: Seq<char>)
    requires
        page.text_at("self"@) == Some(service) || (page.text_at("self"@) is None && service
            == "unknown"@),
    ensures
        pages::list_text(page) == "service: "@ + service + "\nlocal:\n  "@ + (match page.get(
            "local"@,
        ) {
            Some(JsonView::List(items)) => section(
                items.map_values(|a: JsonView| pages::agent_line(a)),
            ),
            _ => "none"@,
        }) + "\nremote:\n  "@ + (match page.get("remote"@) {
            Some(JsonView::List(items)) => section(
                items.map_values(|a: JsonView| pages::agent_line(a)),
            ),
            _ => "none"@,
        }) + "\npeers:\n  "@ + (match page.get("peers"@) {
            Some(JsonView::List(items)) => section(pages::texts_among(items)),
            _ => "none"@,
        }),
{
    match page.get("local"@) {
        Some(JsonView::List(items)) => {
            lemma_section(items.map_values(|a: JsonView| pages::agent_line(a)));
        },
        _ => {},
    }
    match page.get("remote"@) {
        Some(JsonView::List(items)) => {
            lemma_section(items.map_values(|a: JsonView| pages::agent_line(a)));
        },
        _ => {},
    }
    match page.get("peers"@) {
        Some(JsonView::List(items)) => {
            lemma_section(pages::texts_among(items));
        },
        _ => {},
    }
}

/// Law: of the peers that a page lists, those that are texts are shown, in their order; one
/// more text at the end is shown behind them, and any other value is passed over.
pub proof fn law_only_texts_are_peers(items: Seq<JsonView>, item: JsonView)
    ensures
        pages::texts_among(items.push(item)) == (match item {
            JsonView::Text(s) => pages::texts_among(items).push(s),
            _ => pages::texts_among(items),
        }),
        pages::texts_among(Seq::empty()).len() == 0,
{
    assert(items.push(item).drop_last() =~= items);
}

/// Law: the status shows what the page says of version, machine and address, and `unknown` for
/// what it does not say.
pub proof fn law_status_shows_what_is_said(
    page: JsonView,
    version: Seq<char>,
    machine: Seq<char>,
    addr: Seq<char>,
    protocol: Seq<char>,
)
    requires
        page.text_at("version"@) == Some(version) || (page.text_at("version"@) is None && version
            == "unknown"@),
        page.text_at("machine"@) == Some(machine) || (page.text_at("machine"@) is None && machine
            == "unknown"@),
        page.text_at("advertise"@) == Some(addr) || (page.text_at("advertise"@) is None && addr
            == "unknown"@),
    ensures
        pages::status_text(page, protocol) == "pi-mesh: running\nversion: "@ + version
            + "\nprotocol: "@ + protocol + "\nmachine: "@ + machine + "\naddr: "@ + addr,
        page.get("protocol"@) is None ==> pages::protocol_text(page) == "null"@,
        page.get("protocol"@) matches Some(v) ==> pages::protocol_text(page)
            == jsontext::json_text(v),
{
}

/// Law: a body that is a text is shown as that text, and any other as its JSON.
pub proof fn law_body_is_shown_whole(words: Seq<char>, body: JsonView)
    ensures
        pages::body_text(JsonView::Text(words)) == words,
        !(body is Text) ==> pages::body_text(body) == jsontext::json_text(body),
{
}

/// A path without backslashes.
pub open spec fn plain(path: Seq<char>) -> bool {
    forall|i: int| 0 <= i < path.len() ==> #[trigger] path[i] != '\\'
}

proof fn lemma_plain(path: Seq<char>)
    requires
        plain(path),
    ensures
        text::replace_char(path, '\\', '/') == path,
{
    assert(text::replace_char(path, '\\', '/') =~= path);
}

/// Law: the home directory is shown as a tilde, and so is its path at the start of a directory
/// in it; any other directory is shown as it is.
pub proof fn law_home_is_shown_as_a_tilde(home: Seq<char>, inner: Seq<char>, cwd: Seq<char>)
    requires
        plain(home),
        plain(inner),
        plain(cwd),
        home.len() > 0,
    ensures
        pages::shown_directory(Some(home), home) == "~"@,
        pages::shown_directory(Some(home + seq!['/'] + inner), home) == "~/"@ + inner,
        cwd != home && !(exists|rest: Seq<char>| cwd == #[trigger] (home + seq!['/'] + rest))
            ==> pages::shown_directory(Some(cwd), home) == cwd,
        pages::shown_directory(Some(cwd), Seq::empty()) == cwd,
        home[0] == '/' ==> pages::shown_directory(None, home) == "."@,
{
    let path = home + seq!['/'] + inner;
    assert(plain(path));
    lemma_plain(home);
    lemma_plain(path);
    lemma_plain(cwd);
    lemma_plain(Seq::empty());
    assert(path.len() > home.len());
    assert(path.take(home.len() as int + 1) =~= home.push('/'));
    assert(path.skip(home.len() as int + 1) =~= inner);
    reveal_strlit(".");
    if home[0] == '/' {
        assert("."@[0] != home[0]);
        assert("."@.len() < home.push('/').len());
    }
    if text::has_prefix(cwd, home.push('/')) {
        let rest = cwd.skip(home.len() as int + 1);
        assert(cwd =~= home.push('/') + rest);
        assert(cwd =~= home + seq!['/'] + rest);
    }
}

/// Law: backslashes are shown as slashes, and nothing else is changed in a directory.
pub proof fn law_backslashes_are_shown_as_slashes(cwd: Seq<char>, i: int)
    ensures
        pages::shown_directory(Some(cwd), Seq::empty()).len() == cwd.len(),
        0 <= i < cwd.len() ==> pages::shown_directory(Some(cwd), Seq::empty())[i] == (if cwd[i]
            == '\\' {
            '/'
        } else {
            cwd[i]
        }),
{
    lemma_plain(Seq::empty());
}

/// Law: a directory is shown as if it and the home directory were written with slashes in
/// place of backslashes; an unknown directory is shown as a dot.
pub proof fn law_slashes_make_no_difference(
    cwd: Seq<char>,
    home: Seq<char>,
    cwd_slashed: Seq<char>,
    home_slashed: Seq<char>,
)
    requires
        cwd_slashed.len() == cwd.len(),
        home_slashed.len() == home.len(),
        forall|i: int|
            0 <= i < cwd.len() ==> #[trigger] cwd_slashed[i] == (if cwd[i] == '\\' {
                '/'
            } else {
                cwd[i]
            }),
        forall|i: int|
            0 <= i < home.len() ==> #[trigger] home_slashed[i] == (if home[i] == '\\' {
                '/'
            } else {
                home[i]
            }),
    ensures
        pages::shown_directory(Some(cwd), home) == pages::shown_directory(
            Some(cwd_slashed),
            home_slashed,
        ),
        pages::shown_directory(None, home) == pages::shown_directory(Some("."@), home),
{
    assert(text::replace_char(cwd, '\\', '/') =~= cwd_slashed);
    assert(text::replace_char(cwd_slashed, '\\', '/') =~= cwd_slashed);
    assert(text::replace_char(home, '\\', '/') =~= home_slashed);
    assert(text::replace_char(home_slashed, '\\', '/') =~= home_slashed);
    reveal_strlit(".");
    assert(text::replace_char("."@, '\\', '/') =~= "."@);
}

/// Law: each connector has a line of its own, in order, with what it says of itself in JSON, or
/// that it was found; one more connector adds one more line.
pub proof fn law_each_connector_has_a_line(
    before: Seq<(Seq<char>, Option<Seq<char>>)>,
    name: Seq<char>,
    metadata: Seq<char>,
)
    ensures
        pages::connectors_text(Seq::empty()) == "none"@,
        pages::connectors_text(seq![(name, Some(metadata))]) == name + " "@ + metadata,
        pages::connectors_text(seq![(name, None)]) == name + " found"@,
        before.len() > 0 ==> pages::connectors_text(before.push((name, Some(metadata))))
            == pages::connectors_text(before) + "\n"@ + (name + " "@ + metadata),
        before.len() > 0 ==> pages::connectors_text(before.push((name, None)))
            == pages::connectors_text(before) + "\n"@ + (name + " found"@),
{
    let line = |c: (Seq<char>, Option<Seq<char>>)| pages::connector_line(c.0, c.1);
    let some = before.push((name, Some(metadata)));
    let none = before.push((name, None));
    assert(some.map_values(line).drop_last() =~= before.map_values(line));
    assert(none.map_values(line).drop_last() =~= before.map_values(line));
}

/// Law: of each connector its name is shown, and the JSON text of what it says of itself, where
/// it says something.
pub proof fn law_connector_is_shown_with_what_it_says(c: ConnectorInfo)
    ensures
        pages::named_metadata(c).0 == c.name@,
        c.metadata is None ==> pages::named_metadata(c).1 is None,
        c.metadata matches Some(v) ==> pages::named_metadata(c).1 == Some(
            jsontext::json_text(jsontext::value_view(v)),
        ),
{
}

/// Law: the JSON report holds each connector, in order, with its name, its file, and what it
/// says of itself, or null.
pub proof fn law_report_holds_each_connector(connectors: Seq<ConnectorInfo>, i: int)
    requires
        0 <= i < connectors.len(),
    ensures
        pages::connectors_json(connectors).get("connectors"@) matches Some(JsonView::List(items))
            && items.len() == connectors.len() && {
            let c = connectors[i];
            &&& items[i].text_at("name"@) == Some(c.name@)
            &&& items[i].text_at("path"@) == Some(c.path@)
            &&& items[i].get("metadata"@) == Some(
                match c.metadata {
                    Some(v) => jsontext::value_view(v),
                    None => JsonView::Null,
                },
            )
        },
{
    json::lemma_field_at(pages::connectors_json(connectors)->Object_0, 0);
    let fields = pages::connector_json(connectors[i])->Object_0;
    reveal_strlit("name");
    reveal_strlit("path");
    reveal_strlit("metadata");
    assert("name"@[0] == 'n' && "path"@[0] == 'p' && "metadata"@[0] == 'm');
    json::lemma_field_at(fields, 0);
    json::lemma_field_at(fields, 1);
    json::lemma_field_at(fields, 2);
}

/// Law: what `start` reports holds the peer that was named, or null, and says whether the
/// service ran already or runs in this process.
pub proof fn law_start_report_is_read_back(already: bool, peer: Option<Seq<char>>)
    ensures
        cli::start_report_json(already, peer).get("ok"@) == Some(JsonView::Bool(true)),
        cli::start_report_json(already, peer).get("running"@) == Some(JsonView::Bool(true)),
        cli::start_report_json(true, peer).get("already_running"@) == Some(JsonView::Bool(true)),
        cli::start_report_json(true, peer).get("foreground"@) is None,
        cli::start_report_json(false, peer).get("foreground"@) == Some(JsonView::Bool(true)),
        cli::start_report_json(false, peer).get("already_running"@) is None,
        peer matches Some(p) ==> cli::start_report_json(already, peer).get("peer"@) == Some(
            JsonView::Text(p),
        ),
        peer is None ==> cli::start_report_json(already, peer).get("peer"@) == Some(
            JsonView::Null,
        ),
{
    reveal_strlit("ok");
    reveal_strlit("running");
    reveal_strlit("already_running");
    reveal_strlit("foreground");
    reveal_strlit("peer");
    assert("ok"@[0] == 'o' && "running"@[0] == 'r' && "already_running"@[0] == 'a'
        && "foreground"@[0] == 'f' && "peer"@[0] == 'p');
    assert forall|a: bool| true implies {
        let page = #[trigger] cli::start_report_json(a, peer);
        &&& page.get("ok"@) == Some(JsonView::Bool(true))
        &&& page.get("running"@) == Some(JsonView::Bool(true))
        &&& page.get(page->Object_0[2].0) == Some(JsonView::Bool(true))
        &&& page.get("peer"@) == Some(page->Object_0[3].1)
    } by {
        let fields = cli::start_report_json(a, peer)->Object_0;
        json::lemma_field_at(fields, 0);
        json::lemma_field_at(fields, 1);
        json::lemma_field_at(fields, 2);
        json::lemma_field_at(fields, 3);
    }
    lemma_no_field(cli::start_report_json(true, peer)->Object_0, "foreground"@);
    lemma_no_field(cli::start_report_json(false, peer)->Object_0, "already_running"@);
}

/// Law: sequences and options of values are seen value by value.
pub proof fn law_collections_are_seen_value_by_value(
    strings: Seq<String>,
    items: Seq<Json>,
    fields: Seq<(String, Json)>,
    agents: Seq<AgentInfo>,
    named: Seq<(String, Option<String>)>,
    word: Option<String>,
    slice: Option<&str>,
    value: Option<Json>,
    msg: Option<MeshMessage>,
    agent: Option<RemoteAgent>,
    i: int,
)
    ensures
        text::texts(strings).len() == strings.len(),
        0 <= i < strings.len() ==> text::texts(strings)[i] == strings[i]@,
        json::items_view(items).len() == items.len(),
        0 <= i < items.len() ==> json::items_view(items)[i] == items[i]@,
        json::fields_view(fields).len() == fields.len(),
        0 <= i < fields.len() ==> json::fields_view(fields)[i] == (fields[i].0@, fields[i].1@),
        message::infos_view(agents).len() == agents.len(),
        0 <= i < agents.len() ==> message::infos_view(agents)[i] == agents[i]@,
        pages::connectors_view(named).len() == named.len(),
        0 <= i < named.len() ==> pages::connectors_view(named)[i].0 == named[i].0@
            && pages::connectors_view(named)[i].1 == text::opt_text(named[i].1),
        word matches Some(s) ==> text::opt_text(word) == Some(s@),
        word is None ==> text::opt_text(word) is None,
        slice matches Some(s) ==> text::opt_str(slice) == Some(s@),
        slice is None ==> text::opt_str(slice) is None,
        value matches Some(j) ==> json::opt_json(value) == Some(j@),
        value is None ==> json::opt_json(value) is None,
        msg matches Some(m) ==> message::opt_message(msg) == Some(m@),
        msg is None ==> message::opt_message(msg) is None,
        agent matches Some(a) ==> message::opt_remote(agent) == Some(a@) && a@.alias == a.alias@
            && a@.title == text::opt_text(a.title) && a@.cwd == a.cwd@ && a@.runtime
            == json::opt_json(a.runtime) && a@.addr == a.addr@,
        agent is None ==> message::opt_remote(agent) is None,
{
}

/// Law: what came of a call is seen as it is: its value, or its error's message.
pub proof fn law_results_are_seen_as_they_are(
    outcome: Result<Json, String>,
    peer: Result<Option<String>, Box<MeshError>>,
    args: Result<MessageArgs, Box<MeshError>>,
    command: Result<Command, Box<MeshError>>,
    done: Result<(), Box<MeshError>>,
    parts: Result<UrlParts, String>,
)
    ensures
        match outcome {
            Ok(j) => reply::outcome_view(outcome) == Ok::<JsonView, Seq<char>>(j@),
            Err(e) => reply::outcome_view(outcome) == Err::<JsonView, Seq<char>>(e@),
        },
        match peer {
            Ok(p) => cli::optional_view(peer) == Ok::<Option<Seq<char>>, Seq<char>>(
                text::opt_text(p),
            ),
            Err(e) => cli::optional_view(peer) == Err::<Option<Seq<char>>, Seq<char>>(e.message@),
        },
        match args {
            Ok(a) => cli::message_args_view(args) == Ok::<MessageArgsView, Seq<char>>(a@),
            Err(e) => cli::message_args_view(args) == Err::<MessageArgsView, Seq<char>>(e.message@),
        },
        match command {
            Ok(c) => cli::command_view(command) == Ok::<CommandView, Seq<char>>(c@),
            Err(e) => cli::command_view(command) == Err::<CommandView, Seq<char>>(e.message@),
        },
        match done {
            Ok(_) => errors::error_text(done) is None,
            Err(e) => errors::error_text(done) == Some(e.message@),
        },
        match parts {
            Ok(p) => address::url_view(parts) == Ok::<(Option<Seq<char>>, Seq<char>), Seq<char>>(
                (text::opt_text(p.host), p.text@),
            ),
            Err(e) => address::url_view(parts) == Err::<
                (Option<Seq<char>>, Seq<char>),
                Seq<char>,
            >(e@),
        },
{
}

} // verus!
