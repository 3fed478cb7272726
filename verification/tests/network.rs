use pi_mesh::address::{
    check_loopback, control_base, control_url, dotted_text, ensure_loopback_control_url,
    listen_ports, next_port, parse_ipv4, reachable_addr, Ip, PortStep, UrlParts, CONTROL_ADDR,
};
use pi_mesh::connector::{
    answer_allows, authorize, authorize_next, connector_allows, connector_metadata,
    connector_name, event_lines, find_connectors, is_connector, is_executable, AuthStep, Entry,
    ProgramOutput,
};
use pi_mesh::json::{json_field, Json};
use pi_mesh::jsontext::{json_of, parse_json};
use pi_mesh::paths::{path_comes_before, PathPart};
use pi_mesh::tailscale::{
    arg, auth_reply, discover, event, events, parse_mode, reached_at, Mode, USAGE,
};
use std::path::{Component, Path, PathBuf};

fn v4(a: u8, b: u8, c: u8, d: u8) -> Ip {
    Ip::V4 { octets: [a, b, c, d] }
}

fn v6(segments: [u16; 8], text: &str) -> Ip {
    Ip::V6 { segments, text: text.to_string() }
}

fn output(success: bool, stdout: &str) -> Option<ProgramOutput> {
    Some(ProgramOutput { success, stdout: stdout.as_bytes().to_vec() })
}

fn words(items: &[&str]) -> Vec<String> {
    items.iter().map(|s| s.to_string()).collect()
}

fn name_at(path: &Path) -> String {
    connector_name(path.file_name().and_then(|name| name.to_str()))
}

#[test]
fn names_connector() {
    assert_eq!(name_at(Path::new("/bin/pi-mesh-tailscale")), "tailscale");
    assert_eq!(name_at(Path::new("pi-mesh-tailscale.js")), "tailscale");
}

#[test]
fn connector_names_at_the_edges() {
    assert_eq!(connector_name(None), "unknown");
    assert_eq!(name_at(Path::new("/bin/..")), "unknown");
    assert_eq!(connector_name(Some("pi-mesh-lan.js.exe")), "lan");
    assert_eq!(connector_name(Some("pi-mesh-pi-mesh-lan.exe.js")), "lan.exe");
    assert_eq!(connector_name(Some("pi-mesh-")), "");
}

#[test]
fn connector_output_is_split_into_lines() {
    assert_eq!(event_lines(b""), Vec::<String>::new());
    assert_eq!(event_lines(b"a\r\n\nb\rc\nd\r"), words(&["a", "", "b\rc", "d\r"]));
    assert_eq!(event_lines(b"a\n"), words(&["a"]));
    assert_eq!(event_lines(b"\r\r\n\n"), words(&["\r", ""]));
    assert_eq!(event_lines("é\n✓".as_bytes()), words(&["é", "✓"]));
    assert_eq!(event_lines(b"x\xffy\n"), words(&["x\u{fffd}y"]));
    for text in ["", "\n", "\r\n", "a\n\rb\r\n", "\r", "a\n\nb"] {
        let expected: Vec<&str> = text.lines().collect();
        assert_eq!(event_lines(text.as_bytes()), expected);
    }
}

#[test]
fn connectors_are_told_from_other_files() {
    assert!(is_connector(Some("pi-mesh-lan"), true, true));
    assert!(!is_connector(Some("pi-mesh"), true, true));
    assert!(!is_connector(Some("pi-mesh-lan"), false, true));
    assert!(!is_connector(Some("pi-mesh-lan"), true, false));
    assert!(!is_connector(None, true, true));
    assert!(is_executable(Some(0o100755)));
    assert!(is_executable(Some(0o010)));
    assert!(!is_executable(Some(0o100644)));
    assert!(!is_executable(None));
}

fn parts(path: &Path) -> Vec<PathPart> {
    path.components()
        .map(|component| match component {
            Component::Prefix(_) => unreachable!(),
            Component::RootDir => PathPart::Root,
            Component::CurDir => PathPart::Current,
            Component::ParentDir => PathPart::Parent,
            Component::Normal(name) => PathPart::Name(name.as_encoded_bytes().to_vec()),
        })
        .collect()
}

fn entry(path: &str) -> Entry {
    Entry {
        file_name: Path::new(path).file_name().and_then(|n| n.to_str()).map(|n| n.to_string()),
        is_file: true,
        executable: true,
        path: parts(Path::new(path)),
    }
}

#[test]
fn connectors_are_listed_once_in_order() {
    let paths = [
        "/b/pi-mesh-x",
        "/a/other",
        "/a.d/pi-mesh-x",
        "/a/pi-mesh-y",
        "./pi-mesh-z",
        "/a//pi-mesh-y",
        "../pi-mesh-z",
        "/b/pi-mesh-x",
        "pi-mesh-z",
        "/a/pi-mesh-",
    ];
    let entries: Vec<Entry> = paths.iter().map(|path| entry(path)).collect();
    let listed: Vec<&str> = find_connectors(&entries).into_iter().map(|i| paths[i]).collect();
    let mut expected: Vec<PathBuf> = paths
        .iter()
        .map(PathBuf::from)
        .filter(|path| path.file_name().unwrap().to_str().unwrap().starts_with("pi-mesh-"))
        .collect();
    expected.sort();
    expected.dedup();
    let texts: Vec<&str> = expected.iter().map(|path| path.to_str().unwrap()).collect();
    assert_eq!(listed, texts);
    assert_eq!(
        listed,
        vec![
            "/a/pi-mesh-",
            "/a/pi-mesh-y",
            "/a.d/pi-mesh-x",
            "/b/pi-mesh-x",
            "./pi-mesh-z",
            "../pi-mesh-z",
            "pi-mesh-z",
        ]
    );
    assert_eq!(find_connectors(&vec![]), Vec::<usize>::new());
    let mut plain = entry("/a/pi-mesh-y");
    plain.executable = false;
    assert_eq!(find_connectors(&vec![plain, entry("/a/pi-mesh-y")]), vec![1]);
}

#[test]
fn paths_are_ordered_by_their_parts() {
    let disk = |letter: u8| PathPart::Prefix { sort: 5, first: vec![letter], second: vec![] };
    let share = |name: &str| PathPart::Prefix {
        sort: 4,
        first: b"host".to_vec(),
        second: name.as_bytes().to_vec(),
    };
    let ordered = vec![
        vec![],
        vec![share("a")],
        vec![share("b")],
        vec![disk(67)],
        vec![disk(67), PathPart::Root],
        vec![disk(68)],
        vec![PathPart::Root],
        vec![PathPart::Current],
        vec![PathPart::Parent],
        vec![PathPart::Name(b"a".to_vec())],
        vec![PathPart::Name(b"a".to_vec()), PathPart::Root],
        vec![PathPart::Name(b"ab".to_vec())],
        vec![PathPart::Name(b"b".to_vec())],
    ];
    for (i, a) in ordered.iter().enumerate() {
        for (j, b) in ordered.iter().enumerate() {
            assert_eq!(path_comes_before(a, b), i < j);
        }
    }
}

#[test]
fn connectors_answer() {
    assert!(connector_allows(&output(true, r#"{"allow":true,"source":"x"}"#)));
    assert!(!connector_allows(&output(true, r#"{"allow":false}"#)));
    assert!(!connector_allows(&output(true, r#"{"allow":"true"}"#)));
    assert!(!connector_allows(&output(true, "{}")));
    assert!(!connector_allows(&output(true, "yes")));
    assert!(!connector_allows(&output(false, r#"{"allow":true}"#)));
    assert!(!connector_allows(&None));
    assert!(answer_allows(&Json::Object(vec![json_field("allow", Json::Bool(true))])));
    assert!(!answer_allows(&Json::Bool(true)));
}

fn let_in(first: AuthStep, outputs: &[Option<ProgramOutput>]) -> bool {
    let mut step = first;
    loop {
        match step {
            AuthStep::Allow => return true,
            AuthStep::Deny => return false,
            AuthStep::Ask(i) => step = authorize_next(i, outputs.len(), &outputs[i]),
        }
    }
}

#[test]
fn callers_are_let_in() {
    let yes = || output(true, r#"{"allow":true}"#);
    let no = || output(true, r#"{"allow":false}"#);
    let far = v4(100, 64, 0, 8);
    assert_eq!(authorize(&v4(127, 0, 0, 9), None, 2), AuthStep::Allow);
    assert_eq!(authorize(&v6([0, 0, 0, 0, 0, 0, 0, 1], "::1"), None, 2), AuthStep::Allow);
    assert_eq!(authorize(&v6([0, 0, 0, 0, 0, 0, 0, 2], "::2"), None, 0), AuthStep::Deny);
    assert_eq!(authorize(&far, Some("1"), 0), AuthStep::Allow);
    assert_eq!(authorize(&far, Some("true"), 0), AuthStep::Deny);
    assert_eq!(authorize(&far, None, 2), AuthStep::Ask(0));
    assert!(let_in(authorize(&far, None, 3), &[no(), None, yes()]));
    assert!(let_in(authorize(&far, None, 2), &[yes(), no()]));
    assert!(!let_in(authorize(&far, None, 2), &[no(), None]));
    assert!(!let_in(authorize(&far, None, 0), &[]));
}

#[test]
fn connectors_tell_of_themselves() {
    let said = connector_metadata(&output(true, r#"{"up": [1, null]}"#)).unwrap();
    assert_eq!(said.to_string(), r#"{"up":[1,null]}"#);
    assert!(connector_metadata(&output(false, "{}")).is_none());
    assert!(connector_metadata(&output(true, "{")).is_none());
    assert!(connector_metadata(&None).is_none());
}

#[test]
fn json_is_read() {
    let page = parse_json(br#"{"b": [true, "x", 7, -1.5, null], "a": {"k": 1}}"#).unwrap();
    let items = page.get("b").unwrap().as_list().unwrap();
    assert_eq!(items[0], Json::Bool(true));
    assert_eq!(items[1].as_text(), Some("x"));
    assert_eq!(items[2].as_unsigned(), Some(7));
    assert_eq!(items[3].as_unsigned(), None);
    assert_eq!(items[4], Json::Null);
    assert_eq!(page.get("a").unwrap().get("k").unwrap().as_unsigned(), Some(1));
    assert_eq!(page.get("c"), None);
    assert_eq!(page.copy(), page);
    let value: serde_json::Value = serde_json::from_str(r#"{"k":18446744073709551615}"#).unwrap();
    assert_eq!(json_of(&value), Json::Object(vec![json_field("k", Json::unsigned(u64::MAX))]));
    assert_eq!(parse_json(b"{"), None);
    assert_eq!(parse_json(b""), None);
}

#[test]
fn peers_are_reached_where_they_call_from() {
    assert_eq!(reachable_addr("box:7380", &v4(10, 0, 0, 7)), "10.0.0.7:7380");
    assert_eq!(reachable_addr("box", &v4(10, 0, 0, 7)), "10.0.0.7:7373");
    assert_eq!(reachable_addr("box:", &v4(10, 0, 0, 7)), "10.0.0.7:7373");
    assert_eq!(reachable_addr("box:65536", &v4(10, 0, 0, 7)), "10.0.0.7:7373");
    assert_eq!(reachable_addr("a:1:2", &v4(10, 0, 0, 7)), "10.0.0.7:2");
    assert_eq!(
        reachable_addr("box:7380", &v6([0xfe80, 0, 0, 0, 0, 0, 0, 1], "fe80::1")),
        "[fe80::1]:7380"
    );
}

#[test]
fn ports_are_tried() {
    assert_eq!(listen_ports(None), (7373, 7399));
    assert_eq!(listen_ports(Some("7380")), (7380, 7399));
    assert_eq!(listen_ports(Some("9000")), (9000, 9000));
    assert_eq!(listen_ports(Some("none")), (7373, 7399));
    assert_eq!(next_port(7373, 7399), PortStep::Try(7374));
    assert_eq!(next_port(7399, 7399), PortStep::NoneFree);
    assert_eq!(next_port(65535, 65535), PortStep::NoneFree);
    let search = |first: u16, last: u16, free: &[u16]| {
        let mut port = first;
        loop {
            if free.contains(&port) {
                return Some(port);
            }
            match next_port(port, last) {
                PortStep::Try(next) => port = next,
                PortStep::NoneFree => return None,
            }
        }
    };
    assert_eq!(search(7373, 7399, &[7400, 7390, 7380, 7372]), Some(7380));
    assert_eq!(search(7373, 7399, &[7400, 7372]), None);
}

#[test]
fn control_urls_are_built() {
    assert_eq!(CONTROL_ADDR, "127.0.0.1:7372");
    assert_eq!(control_base(None), "http://127.0.0.1:7372");
    assert_eq!(control_base(Some("http://h".to_string())), "http://h");
    assert_eq!(control_url("http://h//", "/health"), "http://h/health");
    assert_eq!(control_url("http://h", "/health"), "http://h/health");
}

#[test]
fn addresses_are_written_and_read() {
    assert_eq!(dotted_text(&[127, 0, 0, 1]), "127.0.0.1");
    for octets in [[0, 0, 0, 0], [255, 255, 255, 255], [10, 20, 30, 40]] {
        assert_eq!(parse_ipv4(&dotted_text(&octets)), Some(octets));
    }
    for text in ["", "1.2.3", "1.2.3.4.5", "1.2.3.256", "1.2.3.04", "1.2.3.+4", "::1", "a.b.c.d"] {
        assert_eq!(parse_ipv4(text), None);
    }
    assert_eq!(v4(1, 2, 3, 4).to_text(), "1.2.3.4");
    assert_eq!(v6([0; 8], "::").to_text(), "::");
}

#[test]
fn only_this_machine_is_stopped() {
    let refusal = |base: &str| match ensure_loopback_control_url(base) {
        Ok(()) => String::new(),
        Err(e) => e.message,
    };
    assert_eq!(refusal("http://127.0.0.1:7372"), "");
    assert_eq!(refusal("http://127.9.9.9"), "");
    assert_eq!(refusal("http://LOCALHOST:1/x"), "");
    assert_eq!(
        refusal("http://Example.com:80"),
        "refusing to stop non-loopback control URL: http://example.com/"
    );
    assert_eq!(
        refusal("http://128.0.0.1"),
        "refusing to stop non-loopback control URL: http://128.0.0.1/"
    );
    assert_eq!(
        refusal("http://[::1]:7372"),
        "refusing to stop non-loopback control URL: http://[::1]:7372/"
    );
    assert_eq!(refusal("data:x"), "control URL has no host");
    assert_eq!(refusal("nowhere"), "relative URL without a base");
    let parts = UrlParts { host: Some("127.0.0.1".to_string()), text: "u".to_string() };
    assert!(check_loopback(&parts).is_ok());
    let parts = UrlParts { host: None, text: "u".to_string() };
    assert_eq!(check_loopback(&parts).unwrap_err().message, "control URL has no host");
}

#[test]
fn tailscale_reads_its_arguments() {
    let args = words(&["x", "run", "--port", "--port", "9"]);
    assert_eq!(arg(&args, "--port"), Some("--port"));
    assert_eq!(arg(&args, "9"), None);
    assert_eq!(arg(&[], "--port"), None);
    assert_eq!(parse_mode(&words(&["x", "run"])), Mode::Run("7373".to_string()));
    assert_eq!(
        parse_mode(&words(&["x", "run", "--port", "7380"])),
        Mode::Run("7380".to_string())
    );
    assert_eq!(
        parse_mode(&words(&["x", "auth", "--remote-ip", "100.64.0.8"])),
        Mode::Auth(Some("100.64.0.8".to_string()))
    );
    assert_eq!(parse_mode(&words(&["x", "auth"])), Mode::Auth(None));
    assert_eq!(parse_mode(&words(&["x"])), Mode::Usage);
    assert_eq!(parse_mode(&words(&["x", "fly"])), Mode::Usage);
    assert_eq!(
        USAGE,
        "usage: pi-mesh-tailscale run --port 7373 | auth --remote-ip 100.x.y.z"
    );
}

#[test]
fn tailscale_answers() {
    let said = auth_reply(Some(true));
    assert!(answer_allows(&said));
    assert_eq!(said.get("source").unwrap().as_text(), Some("tailscale"));
    assert!(!answer_allows(&auth_reply(Some(false))));
    let none = auth_reply(None);
    assert_eq!(none, Json::Object(vec![json_field("allow", Json::Bool(false))]));
}

#[test]
fn tailscale_tells_peers() {
    let status = r#"{
        "Self": {"TailscaleIPs": ["100.64.0.7"], "DNSName": "me.net."},
        "Peer": {
            "a": {"TailscaleIPs": ["100.64.0.8", "fd7a::8"], "DNSName": "a.net.", "Online": true},
            "b": {"TailscaleIPs": ["100.64.0.9"], "Online": false},
            "c": {"DNSName": "c.net.."},
            "d": {"TailscaleIPs": [], "DNSName": "."},
            "e": {}
        }
    }"#;
    assert_eq!(
        discover(&output(true, status), "7373"),
        vec![
            event("self", "100.64.0.7:7373"),
            event("peer", "100.64.0.8:7373"),
            event("peer", "c.net:7373"),
        ]
    );
    assert_eq!(discover(&output(false, status), "7373"), vec![]);
    assert_eq!(discover(&output(true, "{"), "7373"), vec![]);
    assert_eq!(discover(&None, "7373"), vec![]);
    assert_eq!(events(&Json::Object(vec![]), "7373"), vec![]);
    let said = event("peer", "100.64.0.8:7373");
    assert_eq!(said.get("type").unwrap().as_text(), Some("peer"));
    assert_eq!(said.get("addr").unwrap().as_text(), Some("100.64.0.8:7373"));
    assert_eq!(said.get("source").unwrap().as_text(), Some("tailscale"));
    let named = Json::Object(vec![json_field("DNSName", Json::text("d.net."))]);
    assert_eq!(reached_at(&named, "1"), Some("d.net:1".to_string()));
    assert_eq!(reached_at(&Json::Null, "1"), None);
}
