use pi_mesh::cli::{
    default_sender, optional_peer, parse_cli, parse_command, parse_message_args, peer_line,
    peer_report, peer_request, plan_start, request_request, request_timeouts, required_arg,
    send_request, sent_line, start_banner, start_report, stop_report, unknown_command, Command,
    MessageArgs, Report, StartPlan, USAGE,
};
use pi_mesh::errors::{
    boxed_error, control_failure, control_post_failure, control_send_error, NOT_RUNNING,
};
use pi_mesh::json::{json_field, Json};
use pi_mesh::machine::{choose_name, machine_name};

fn words(items: &[&str]) -> Vec<String> {
    items.iter().map(|s| s.to_string()).collect()
}

fn some(s: &str) -> Option<String> {
    Some(s.to_string())
}

#[test]
fn parses_optional_peer() {
    assert_eq!(optional_peer(&[]).unwrap(), None);
    assert_eq!(
        optional_peer(&["one:7373".to_string()]).unwrap(),
        Some("one:7373".into())
    );
    assert!(optional_peer(&["one:7373".to_string(), "two:7373".to_string()]).is_err());
}

#[test]
fn parses_global_flags() {
    let cli = parse_cli(&[
        "--json".to_string(),
        "status".to_string(),
        "--version".to_string(),
    ]);
    assert!(cli.json);
    assert_eq!(cli.args, vec!["version"]);

    let cli = parse_cli(&["list".to_string(), "--json".to_string()]);
    assert!(cli.json);
    assert_eq!(cli.args, vec!["list"]);
}

#[test]
fn parses_message_args() {
    let args = vec![
        "--from".to_string(),
        "ops@machine".to_string(),
        "target@machine".to_string(),
        "hello".to_string(),
        "there".to_string(),
    ];
    assert_eq!(
        parse_message_args(&args, false, "cli@machine".to_string()).unwrap(),
        MessageArgs {
            from: "ops@machine".into(),
            to: "target@machine".into(),
            message: "hello there".into(),
            timeout_seconds: None,
        }
    );

    let args = vec![
        "target@machine".to_string(),
        "status?".to_string(),
        "--timeout".to_string(),
        "60".to_string(),
    ];
    let parsed = parse_message_args(&args, true, "cli@machine".to_string()).unwrap();
    assert_eq!(parsed.to, "target@machine");
    assert_eq!(parsed.message, "status?");
    assert_eq!(parsed.timeout_seconds, Some(60));
}

#[test]
fn json_flag_stands_anywhere() {
    for place in 0..3 {
        let mut args = words(&["send", "bob"]);
        args.insert(place, "--json".to_string());
        let cli = parse_cli(&args);
        assert!(cli.json);
        assert_eq!(cli.args, words(&["send", "bob"]));
    }
    let cli = parse_cli(&words(&["send", "bob"]));
    assert!(!cli.json);
}

#[test]
fn short_version_flag_takes_every_command() {
    let cli = parse_cli(&words(&["stop", "-V", "now"]));
    assert!(!cli.json);
    assert_eq!(cli.args, words(&["version"]));
}

#[test]
fn default_sender_is_used() {
    assert_eq!(default_sender(some("ops"), "box"), "ops");
    assert_eq!(default_sender(None, "box"), "cli@box");
    let parsed = parse_message_args(&words(&["bob", "hi"]), false, "cli@box".to_string()).unwrap();
    assert_eq!(parsed.from, "cli@box");
}

#[test]
fn later_options_override_earlier_ones() {
    let args = words(&[
        "--from", "a", "bob", "--timeout", "1", "hi", "--from", "b", "--timeout", "+2",
    ]);
    let parsed = parse_message_args(&args, true, "x".to_string()).unwrap();
    assert_eq!(parsed.from, "b");
    assert_eq!(parsed.timeout_seconds, Some(2));
    assert_eq!(parsed.message, "hi");
}

#[test]
fn message_arguments_are_refused() {
    let read = |items: &[&str], allow: bool| {
        parse_message_args(&words(items), allow, "x".to_string())
            .unwrap_err()
            .message
    };
    assert_eq!(read(&["bob", "hi", "--from"], false), "--from requires a name");
    assert_eq!(
        read(&["bob", "hi", "--timeout", "3"], false),
        "--timeout is only supported for request"
    );
    assert_eq!(read(&["bob", "hi", "--timeout"], true), "--timeout requires seconds");
    assert_eq!(read(&["bob"], false), "usage: pi-mesh send <to> <message>");
    assert_eq!(read(&["bob"], true), "usage: pi-mesh request <to> <message>");
    assert_eq!(
        read(&["bob", "hi", "--timeout", "soon"], true),
        "soon".parse::<u64>().unwrap_err().to_string()
    );
    assert_eq!(
        read(&["bob", "hi", "--timeout", ""], true),
        "".parse::<u64>().unwrap_err().to_string()
    );
    assert_eq!(
        read(&["bob", "hi", "--timeout", "18446744073709551616"], true),
        "18446744073709551616".parse::<u64>().unwrap_err().to_string()
    );
    assert_eq!(
        read(&["bob", "hi", "--timeout", "-1"], true),
        "-1".parse::<u64>().unwrap_err().to_string()
    );
}

#[test]
fn one_argument_is_required() {
    assert_eq!(required_arg(&words(&["one:7373"]), "peer <addr>").unwrap(), "one:7373");
    assert_eq!(
        required_arg(&[], "peer <addr>").unwrap_err().message,
        "usage: pi-mesh peer <addr>"
    );
    assert_eq!(
        optional_peer(&words(&["a", "b"])).unwrap_err().message,
        "usage: pi-mesh start [peer]"
    );
}

#[test]
fn commands_are_read() {
    let read = |items: &[&str]| parse_command(&words(items), "me".to_string());
    assert_eq!(read(&[]).unwrap(), Command::Start(None));
    assert_eq!(read(&["start", "p:1"]).unwrap(), Command::Start(some("p:1")));
    assert_eq!(read(&["daemon", "p:1"]).unwrap(), Command::Daemon(some("p:1")));
    assert_eq!(read(&["stop", "x"]).unwrap(), Command::Stop);
    assert_eq!(read(&["status"]).unwrap(), Command::Status);
    assert_eq!(read(&["list"]).unwrap(), Command::List);
    assert_eq!(read(&["connectors"]).unwrap(), Command::Connectors);
    assert_eq!(read(&["peer", "p:1"]).unwrap(), Command::Peer("p:1".to_string()));
    assert_eq!(read(&["peer"]).unwrap_err().message, "usage: pi-mesh peer <addr>");
    let message = |timeout: Option<u64>| MessageArgs {
        from: "me".to_string(),
        to: "bob".to_string(),
        message: "hi".to_string(),
        timeout_seconds: timeout,
    };
    assert_eq!(read(&["send", "bob", "hi"]).unwrap(), Command::Send(message(None)));
    assert_eq!(
        read(&["request", "bob", "hi", "--timeout", "7"]).unwrap(),
        Command::Request(message(Some(7)))
    );
    assert!(read(&["send", "bob", "hi", "--timeout", "7"]).is_err());
    assert_eq!(read(&["version"]).unwrap(), Command::Version);
    assert_eq!(read(&["self-check"]).unwrap(), Command::SelfCheck);
    for help in ["help", "-h", "--help"] {
        assert_eq!(read(&[help]).unwrap(), Command::Help);
    }
    assert_eq!(read(&["fly"]).unwrap(), Command::Unknown("fly".to_string()));
    assert_eq!(unknown_command("fly").message, "unknown command: fly");
    assert!(USAGE.starts_with("Usage:\n  pi-mesh start [peer]\n"));
    assert!(USAGE.ends_with("\n  --timeout <seconds>"));
}

#[test]
fn request_times_are_bounded() {
    assert_eq!(request_timeouts(None), (30_000, 35));
    assert_eq!(request_timeouts(Some(0)), (1_000, 6));
    assert_eq!(request_timeouts(Some(60)), (60_000, 65));
    assert_eq!(request_timeouts(Some(u64::MAX)), (u64::MAX, u64::MAX));
}

#[test]
fn control_bodies_are_built() {
    let args = MessageArgs {
        from: "me".to_string(),
        to: "bob".to_string(),
        message: "hi".to_string(),
        timeout_seconds: Some(2),
    };
    assert_eq!(
        send_request(&args),
        Json::Object(vec![
            json_field("from", Json::text("me")),
            json_field("to", Json::text("bob")),
            json_field("body", Json::text("hi")),
        ])
    );
    let request = request_request(&args);
    assert_eq!(request.get("timeout_ms").unwrap().as_unsigned(), Some(2_000));
    assert_eq!(request.get("body").unwrap().as_text(), Some("hi"));
    assert_eq!(peer_request("p:1").get("addr").unwrap().as_text(), Some("p:1"));
}

#[test]
fn reports_are_built() {
    let already = start_report(true, &some("p:1"));
    assert_eq!(already.get("already_running").unwrap().as_bool(), Some(true));
    assert_eq!(already.get("foreground"), None);
    assert_eq!(already.get("peer").unwrap().as_text(), Some("p:1"));
    let fresh = start_report(false, &None);
    assert_eq!(fresh.get("foreground").unwrap().as_bool(), Some(true));
    assert_eq!(fresh.get("peer"), Some(&Json::Null));
    assert_eq!(stop_report().get("stopped").unwrap().as_bool(), Some(true));
    assert_eq!(peer_report("p:1").get("peer").unwrap().as_text(), Some("p:1"));
    assert_eq!(sent_line("bob"), "sent to bob");
    assert_eq!(peer_line("p:1"), "pi-mesh: peer added p:1");
    assert_eq!(
        start_banner("127.0.0.1:7372", 7373, "box:7373"),
        "pi-mesh: control http://127.0.0.1:7372\npi-mesh: listen  http://0.0.0.0:7373\npi-mesh: addr    box:7373"
    );
}

#[test]
fn start_is_planned() {
    assert_eq!(
        plan_start(true, some("p:1"), false),
        StartPlan::AlreadyRunning {
            peer: some("p:1"),
            report: Report::Line("pi-mesh: already running".to_string()),
        }
    );
    assert_eq!(
        plan_start(true, None, true),
        StartPlan::AlreadyRunning { peer: None, report: Report::Json(start_report(true, &None)) }
    );
    assert_eq!(
        plan_start(false, some("p:1"), true),
        StartPlan::Serve {
            announce: Some(start_report(false, &some("p:1"))),
            peers: words(&["p:1"]),
        }
    );
    assert_eq!(
        plan_start(false, None, false),
        StartPlan::Serve { announce: None, peers: words(&[]) }
    );
}

#[test]
fn control_errors_are_told() {
    assert_eq!(boxed_error("no".to_string()).message, "no");
    assert_eq!(
        control_failure("404 Not Found").message,
        "control request failed: 404 Not Found"
    );
    assert_eq!(
        control_post_failure(some("alias in use: x")).message,
        "control request failed: alias in use: x"
    );
    assert_eq!(
        control_post_failure(None).message,
        "control request failed: unknown error"
    );
    assert_eq!(control_send_error(true, "refused".to_string()).message, NOT_RUNNING);
    assert_eq!(control_send_error(false, "timed out".to_string()).message, "timed out");
}

#[test]
fn machine_has_a_name() {
    assert_eq!(choose_name(some("box"), some("one"), some("two")), "box");
    assert_eq!(choose_name(some(""), some("one"), some("two")), "one");
    assert_eq!(choose_name(None, None, some("two")), "two");
    assert_eq!(choose_name(None, None, None), "machine");
    let host = hostname::get().ok().and_then(|name| name.into_string().ok());
    assert_eq!(
        machine_name(some("one"), some("two")),
        choose_name(host, some("one"), some("two"))
    );
}
