use pi_mesh::json::Json;
use pi_mesh::jsontext::{json_of, open_field, parse_json, text_of};
use pi_mesh::pages::{
    connectors_page, connectors_report, display_cwd, format_agents, format_answer, format_body,
    format_connectors, format_list, format_status, runtime_label, status_page, ConnectorInfo,
};
use serde_json::Value;

fn value(text: &str) -> Value {
    serde_json::from_str(text).unwrap()
}

fn json(text: &str) -> Json {
    parse_json(text.as_bytes()).unwrap()
}

#[test]
fn directories_are_shown() {
    assert_eq!(display_cwd(Some("/home/a/x"), "/home/a"), "~/x");
    assert_eq!(display_cwd(Some("/home/a"), "/home/a"), "~");
    assert_eq!(display_cwd(Some("/home/ab"), "/home/a"), "/home/ab");
    assert_eq!(display_cwd(Some("C:\\u\\a\\x"), "C:\\u\\a"), "~/x");
    assert_eq!(display_cwd(Some("/x"), ""), "/x");
    assert_eq!(display_cwd(None, "/home/a"), ".");
}

#[test]
fn runtimes_are_labelled() {
    assert_eq!(runtime_label(&json("{}")), "");
    assert_eq!(runtime_label(&json(r#"{"runtime":{}}"#)), "");
    assert_eq!(runtime_label(&json(r#"{"runtime":{"model":"m"}}"#)), " [m]");
    assert_eq!(
        runtime_label(&json(
            r#"{"runtime":{"model":"m","provider":"p","context":{"free":12}}}"#
        )),
        " [m@p, 12 ctx free]"
    );
    assert_eq!(
        runtime_label(&json(r#"{"runtime":{"model":"m","context":{"free":-1}}}"#)),
        " [m]"
    );
}

#[test]
fn lists_are_shown() {
    let page = json(
        r#"{"self":"box:7373",
            "local":[{"id":"1","alias":"a","title":"t","cwd":"~","addr":"box:7373"},
                     {"alias":"b","runtime":{"model":"m"}}],
            "remote":[],
            "peers":["p:1",7,"q:2"]}"#,
    );
    assert_eq!(
        format_agents(&page, "local"),
        "a - t ~ (1) box:7373\n  b [m] (unknown) unknown"
    );
    assert_eq!(format_agents(&page, "remote"), "none");
    assert_eq!(format_agents(&page, "missing"), "none");
    assert_eq!(
        format_list(&page),
        "service: box:7373\nlocal:\n  a - t ~ (1) box:7373\n  b [m] (unknown) unknown\nremote:\n  none\npeers:\n  p:1\n  q:2"
    );
    assert_eq!(
        format_list(&json("{}")),
        "service: unknown\nlocal:\n  none\nremote:\n  none\npeers:\n  none"
    );
}

#[test]
fn status_is_shown() {
    assert_eq!(
        status_page(&value(r#"{"version":"1","protocol":3,"machine":"box","advertise":"a:1"}"#)),
        "pi-mesh: running\nversion: 1\nprotocol: 3\nmachine: box\naddr: a:1"
    );
    assert_eq!(
        status_page(&value(r#"{"protocol":[1, "x"]}"#)),
        "pi-mesh: running\nversion: unknown\nprotocol: [1,\"x\"]\nmachine: unknown\naddr: unknown"
    );
    assert_eq!(
        format_status(&json("{}"), "null"),
        "pi-mesh: running\nversion: unknown\nprotocol: null\nmachine: unknown\naddr: unknown"
    );
}

#[test]
fn bodies_are_shown() {
    assert_eq!(format_body(&value("\"hi\"")), "hi");
    assert_eq!(format_body(&value("{ \"a\" : 1 }")), "{\"a\":1}");
    assert_eq!(format_answer(&value(r#"{"ok":true,"body":"hi"}"#)), "hi");
    assert_eq!(format_answer(&value(r#"{"ok":true,"body":[ ]}"#)), "[]");
    assert_eq!(format_answer(&value(r#"{"ok":true}"#)), "null");
    let page = value(r#"{"body":"hi"}"#);
    assert_eq!(open_field(&page, "body").and_then(text_of), Some("hi".to_string()));
    assert!(open_field(&page, "ok").is_none());
}

#[test]
fn connectors_are_shown() {
    let found = vec![
        ConnectorInfo {
            name: "lan".to_string(),
            path: "/bin/pi-mesh-lan".to_string(),
            metadata: Some(value(r#"{ "up" : true }"#)),
        },
        ConnectorInfo {
            name: "wan".to_string(),
            path: "/bin/pi-mesh-wan".to_string(),
            metadata: None,
        },
    ];
    assert_eq!(connectors_page(&found), "lan {\"up\":true}\nwan found");
    assert_eq!(connectors_page(&vec![]), "none");
    assert_eq!(
        format_connectors(&vec![("lan".to_string(), None)]),
        "lan found"
    );
    assert_eq!(
        connectors_report(&found),
        Json::Object(vec![(
            "connectors".to_string(),
            Json::List(vec![
                Json::Object(vec![
                    ("name".to_string(), Json::text("lan")),
                    ("path".to_string(), Json::text("/bin/pi-mesh-lan")),
                    ("metadata".to_string(), json_of(&value(r#"{"up":true}"#))),
                ]),
                Json::Object(vec![
                    ("name".to_string(), Json::text("wan")),
                    ("path".to_string(), Json::text("/bin/pi-mesh-wan")),
                    ("metadata".to_string(), Json::Null),
                ]),
            ])
        )])
    );
}
