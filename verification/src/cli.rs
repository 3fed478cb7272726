//! The command line: flags, commands and their arguments.

use crate::errors::{boxed_error, MeshError};
use crate::json;
use crate::json::{json_field, Json, JsonView};
use crate::text;
use crate::text::{decimal_text, join_strings, parse_u64, str_eq};
use vstd::prelude::*;
use vstd::slice::slice_subrange;
use vstd::string::*;

verus! {

/// How the program is used.
pub const USAGE: &'static str = "Usage:
  pi-mesh start [peer]
  pi-mesh stop
  pi-mesh status
  pi-mesh list
  pi-mesh connectors
  pi-mesh peer <addr>
  pi-mesh send <to> <message>
  pi-mesh request <to> <message>
  pi-mesh version

Options:
  --json
  --version
  --from <name>
  --timeout <seconds>";

/// A command line without its global flags.
#[derive(Debug, PartialEq)]
pub struct Cli {
    pub json: bool,
    pub args: Vec<String>,
}

/// The arguments of a command that sends a message.
#[derive(Debug, PartialEq)]
pub struct MessageArgs {
    pub from: String,
    pub to: String,
    pub message: String,
    pub timeout_seconds: Option<u64>,
}

pub struct MessageArgsView {
    pub from: Seq<char>,
    pub to: Seq<char>,
    pub message: Seq<char>,
    pub timeout_seconds: Option<u64>,
}

impl View for MessageArgs {
    type V = MessageArgsView;

    open spec fn view(&self) -> MessageArgsView {
        MessageArgsView {
            from: self.from@,
            to: self.to@,
            message: self.message@,
            timeout_seconds: self.timeout_seconds,
        }
    }
}

/// Whether an argument asks for the version.
pub open spec fn version_flag(arg: Seq<char>) -> bool {
    arg == "--version"@ || arg == "-V"@
}

/// Whether an argument is a global flag.
pub open spec fn global_flag(arg: Seq<char>) -> bool {
    arg == "--json"@ || version_flag(arg)
}

/// The arguments that are no global flags, in order.
pub open spec fn without_flags(args: Seq<Seq<char>>) -> Seq<Seq<char>>
    decreases args.len(),
{
    if args.len() == 0 {
        Seq::empty()
    } else {
        let front = without_flags(args.drop_last());
        if global_flag(args.last()) {
            front
        } else {
            front.push(args.last())
        }
    }
}

/// Whether one of the arguments asks for the version.
pub open spec fn asks_version(args: Seq<Seq<char>>) -> bool {
    exists|i: int| 0 <= i < args.len() && version_flag(#[trigger] args[i])
}

/// What is left of the arguments when the global flags are taken out. Asking for the version
/// takes the place of every command.
pub open spec fn command_args(args: Seq<Seq<char>>) -> Seq<Seq<char>> {
    if asks_version(args) {
        seq!["version"@]
    } else {
        without_flags(args)
    }
}

/// Takes the global flags out of the arguments, wherever they stand.
pub fn parse_cli(args: &[String]) -> (cli: Cli)
    ensures
        cli.json == text::texts(args@).contains("--json"@),
        text::texts(cli.args@) == command_args(text::texts(args@)),
{
    let ghost all = text::texts(args@);
    let mut json = false;
    let mut version = false;
    let mut out: Vec<String> = Vec::new();
    let mut i: usize = 0;
    proof {
        assert(all.take(0) =~= Seq::empty());
        assert(text::texts(out@) =~= Seq::empty());
    }
    while i < args.len()
        invariant
            all == text::texts(args@),
            i <= all.len(),
            json == all.take(i as int).contains("--json"@),
            version == asks_version(all.take(i as int)),
            text::texts(out@) == without_flags(all.take(i as int)),
        decreases all.len() - i,
    {
        let arg = args[i].as_str();
        let ghost done = all.take(i as int);
        let ghost next = all.take(i + 1);
        let ghost before = text::texts(out@);
        proof {
            assert(next.last() == arg@);
            assert(next.drop_last() =~= done);
            lemma_one_more(all, i as int);
        }
        if str_eq(arg, "--json") {
            proof {
                lemma_flags_differ();
            }
            json = true;
        } else if str_eq(arg, "--version") || str_eq(arg, "-V") {
            version = true;
        } else {
            out.push(args[i].clone());
            proof {
                assert(text::texts(out@) =~= before.push(arg@));
            }
        }
        i = i + 1;
    }
    proof {
        assert(all.take(i as int) =~= all);
    }
    if version {
        out.clear();
        out.push("version".to_owned());
        proof {
            assert(text::texts(out@) =~= seq!["version"@]);
        }
    }
    Cli { json, args: out }
}

/// No argument is two of the global flags.
proof fn lemma_flags_differ()
    ensures
        "--json"@ != "--version"@,
        "--json"@ != "-V"@,
{
    reveal_strlit("--json");
    reveal_strlit("--version");
    reveal_strlit("-V");
    assert("--json"@.len() == 6 && "--version"@.len() == 9 && "-V"@.len() == 2);
}

/// What the arguments hold, seen one further.
proof fn lemma_one_more(all: Seq<Seq<char>>, i: int)
    requires
        0 <= i < all.len(),
    ensures
        forall|x: Seq<char>| #[trigger]
            all.take(i + 1).contains(x) == (all.take(i).contains(x) || x == all[i]),
        asks_version(all.take(i + 1)) == (asks_version(all.take(i)) || version_flag(all[i])),
{
    let done = all.take(i);
    let next = all.take(i + 1);
    assert forall|x: Seq<char>| #[trigger]
        next.contains(x) == (done.contains(x) || x == all[i]) by {
        if done.contains(x) {
            let j = done.index_of(x);
            assert(next[j] == x);
        }
        if x == all[i] {
            assert(next[i] == x);
        }
        if next.contains(x) {
            let j = next.index_of(x);
            if j < i {
                assert(done[j] == x);
            }
        }
    }
    if asks_version(done) {
        let j = choose|j: int| 0 <= j < done.len() && version_flag(#[trigger] done[j]);
        assert(next[j] == done[j]);
    }
    if version_flag(all[i]) {
        assert(next[i] == all[i]);
    }
    if asks_version(next) {
        let j = choose|j: int| 0 <= j < next.len() && version_flag(#[trigger] next[j]);
        if j < i {
            assert(done[j] == next[j]);
        }
    }
}

proof fn lemma_without_flags(a: Seq<Seq<char>>, b: Seq<Seq<char>>)
    ensures
        without_flags(a + b) == without_flags(a) + without_flags(b),
    decreases b.len(),
{
    if b.len() == 0 {
        assert(a + b =~= a);
        assert(without_flags(a) + without_flags(b) =~= without_flags(a));
    } else {
        lemma_without_flags(a, b.drop_last());
        assert((a + b).drop_last() =~= a + b.drop_last());
        assert((a + b).last() == b.last());
        assert(without_flags(a + b) =~= without_flags(a) + without_flags(b));
    }
}

/// Law: a global flag does the same wherever it stands among the arguments: `--json` leaves
/// the command as it is without the flag, and a flag that asks for the version takes its
/// place.
pub proof fn law_global_flags_stand_anywhere(
    before: Seq<Seq<char>>,
    flag: Seq<char>,
    behind: Seq<Seq<char>>,
)
    requires
        flag == "--json"@ || flag == "--version"@ || flag == "-V"@,
    ensures
        (before + seq![flag] + behind).contains(flag),
        flag == "--json"@ ==> command_args(before + seq![flag] + behind) == command_args(
            before + behind,
        ),
        flag == "--version"@ || flag == "-V"@ ==> command_args(before + seq![flag] + behind)
            == seq!["version"@],
{
    let all = before + seq![flag] + behind;
    let rest = before + behind;
    let place = before.len() as int;
    assert(all[place] == flag);
    if flag == "--json"@ {
        lemma_flags_differ();
        reveal_with_fuel(without_flags, 2);
        assert(seq![flag].drop_last() =~= Seq::<Seq<char>>::empty());
        assert(without_flags(seq![flag]) =~= Seq::<Seq<char>>::empty());
        lemma_without_flags(before, seq![flag]);
        lemma_without_flags(before + seq![flag], behind);
        lemma_without_flags(before, behind);
        assert(without_flags(all) =~= without_flags(rest));
        if asks_version(all) {
            let j = choose|j: int| 0 <= j < all.len() && version_flag(#[trigger] all[j]);
            if j < place {
                assert(rest[j] == all[j]);
            } else {
                assert(rest[j - 1] == all[j]);
            }
        }
        if asks_version(rest) {
            let j = choose|j: int| 0 <= j < rest.len() && version_flag(#[trigger] rest[j]);
            if j < place {
                assert(all[j] == rest[j]);
            } else {
                assert(all[j + 1] == rest[j]);
            }
        }
    }
}

/// The name under which the command line sends: the configured one, or one made of the name
/// of the machine.
pub open spec fn sender_name(configured: Option<Seq<char>>, machine: Seq<char>) -> Seq<char> {
    match configured {
        Some(name) => name,
        None => "cli@"@ + machine,
    }
}

/// The name under which the command line sends.
pub fn default_sender(configured: Option<String>, machine: &str) -> (name: String)
    ensures
        name@ == sender_name(text::opt_text(configured), machine@),
{
    match configured {
        Some(name) => name,
        None => {
            let mut name = "cli@".to_owned();
            name.append(machine);
            name
        },
    }
}

/// The options of a message, and the arguments that are no options.
pub struct Options {
    pub from: Seq<char>,
    pub timeout: Option<u64>,
    pub words: Seq<Seq<char>>,
}

/// Reads options and words from the front of `args`: `--from` and a name, `--timeout` and a
/// number of seconds where it is allowed, and everything else as it stands. What comes later
/// overrides what came before.
pub open spec fn read_options(
    args: Seq<Seq<char>>,
    allow_timeout: bool,
    so_far: Options,
) -> Result<Options, Seq<char>>
    decreases args.len(),
{
    if args.len() == 0 {
        Ok(so_far)
    } else if args[0] == "--from"@ {
        if args.len() < 2 {
            Err("--from requires a name"@)
        } else {
            read_options(args.skip(2), allow_timeout, Options { from: args[1], ..so_far })
        }
    } else if args[0] == "--timeout"@ {
        if !allow_timeout {
            Err("--timeout is only supported for request"@)
        } else if args.len() < 2 {
            Err("--timeout requires seconds"@)
        } else {
            match text::unsigned_value(args[1], u64::MAX as nat) {
                Some(n) => read_options(
                    args.skip(2),
                    allow_timeout,
                    Options { timeout: Some(n as u64), ..so_far },
                ),
                None => Err(text::parse_error_text(args[1])),
            }
        }
    } else {
        read_options(
            args.skip(1),
            allow_timeout,
            Options { words: so_far.words.push(args[0]), ..so_far },
        )
    }
}

/// What the arguments of a command that sends a message say: the first word is the
/// addressee, the others are the message.
pub open spec fn message_args(
    args: Seq<Seq<char>>,
    allow_timeout: bool,
    default_from: Seq<char>,
) -> Result<MessageArgsView, Seq<char>> {
    match read_options(
        args,
        allow_timeout,
        Options { from: default_from, timeout: None, words: Seq::empty() },
    ) {
        Err(e) => Err(e),
        Ok(o) => if o.words.len() < 2 {
            Err(
                if allow_timeout {
                    "usage: pi-mesh request <to> <message>"@
                } else {
                    "usage: pi-mesh send <to> <message>"@
                },
            )
        } else {
            Ok(
                MessageArgsView {
                    from: o.from,
                    to: o.words[0],
                    message: text::join(o.words.skip(1), " "@),
                    timeout_seconds: o.timeout,
                },
            )
        },
    }
}

/// The result of reading message arguments, by views.
pub open spec fn message_args_view(r: Result<MessageArgs, Box<MeshError>>) -> Result<
    MessageArgsView,
    Seq<char>,
> {
    match r {
        Ok(args) => Ok(args@),
        Err(e) => Err(e.message@),
    }
}

/// Reads the arguments of a command that sends a message.
pub fn parse_message_args(args: &[String], allow_timeout: bool, default_from: String) -> (r:
    Result<MessageArgs, Box<MeshError>>)
    ensures
        message_args_view(r) == message_args(text::texts(args@), allow_timeout, default_from@),
{
    let ghost all = text::texts(args@);
    let mut from = default_from;
    let mut timeout_seconds: Option<u64> = None;
    let mut words: Vec<String> = Vec::new();
    let mut i: usize = 0;
    let ghost first = Options { from: from@, timeout: None, words: Seq::empty() };
    proof {
        assert(all.skip(0) =~= all);
        assert(text::texts(words@) =~= Seq::empty());
    }
    while i < args.len()
        invariant
            all == text::texts(args@),
            i <= all.len(),
            first == (Options { from: default_from@, timeout: None, words: Seq::empty() }),
            read_options(all, allow_timeout, first) == read_options(
                all.skip(i as int),
                allow_timeout,
                Options { from: from@, timeout: timeout_seconds, words: text::texts(words@) },
            ),
        decreases all.len() - i,
    {
        let arg = args[i].as_str();
        let ghost rest = all.skip(i as int);
        proof {
            assert(rest[0] == arg@);
            assert(rest.skip(1) =~= all.skip(i + 1));
            if rest.len() >= 2 {
                assert(rest[1] == all[i + 1]);
                assert(rest.skip(2) =~= all.skip(i + 2));
            }
        }
        if str_eq(arg, "--from") {
            if args.len() - i < 2 {
                return Err(boxed_error("--from requires a name".to_owned()));
            }
            from = args[i + 1].clone();
            i = i + 2;
        } else if str_eq(arg, "--timeout") {
            if !allow_timeout {
                return Err(boxed_error("--timeout is only supported for request".to_owned()));
            }
            if args.len() - i < 2 {
                return Err(boxed_error("--timeout requires seconds".to_owned()));
            }
            match parse_u64(args[i + 1].as_str()) {
                Ok(n) => {
                    timeout_seconds = Some(n);
                },
                Err(e) => {
                    return Err(boxed_error(e));
                },
            }
            i = i + 2;
        } else {
            let ghost before = text::texts(words@);
            words.push(args[i].clone());
            proof {
                assert(text::texts(words@) =~= before.push(arg@));
            }
            i = i + 1;
        }
    }
    proof {
        assert(all.skip(i as int) =~= Seq::empty());
    }
    if words.len() < 2 {
        return Err(
            boxed_error(
                if allow_timeout {
                    "usage: pi-mesh request <to> <message>".to_owned()
                } else {
                    "usage: pi-mesh send <to> <message>".to_owned()
                },
            ),
        );
    }
    let rest = slice_subrange(words.as_slice(), 1, words.len());
    proof {
        assert(text::texts(rest@) =~= text::texts(words@).skip(1));
    }
    Ok(
        MessageArgs {
            from,
            to: words[0].clone(),
            message: join_strings(rest, " "),
            timeout_seconds,
        },
    )
}

/// The result of reading an optional argument, by views.
pub open spec fn optional_view(r: Result<Option<String>, Box<MeshError>>) -> Result<
    Option<Seq<char>>,
    Seq<char>,
> {
    match r {
        Ok(peer) => Ok(text::opt_text(peer)),
        Err(e) => Err(e.message@),
    }
}

/// What the arguments of a command with an optional peer say.
pub open spec fn optional_arg(args: Seq<Seq<char>>) -> Result<Option<Seq<char>>, Seq<char>> {
    if args.len() == 0 {
        Ok(None)
    } else if args.len() == 1 {
        Ok(Some(args[0]))
    } else {
        Err("usage: pi-mesh start [peer]"@)
    }
}

/// Reads the arguments of a command with an optional peer.
pub fn optional_peer(args: &[String]) -> (r: Result<Option<String>, Box<MeshError>>)
    ensures
        optional_view(r) == optional_arg(text::texts(args@)),
{
    if args.len() == 0 {
        Ok(None)
    } else if args.len() == 1 {
        Ok(Some(args[0].clone()))
    } else {
        Err(boxed_error("usage: pi-mesh start [peer]".to_owned()))
    }
}

/// Reads the arguments of a command with exactly one.
pub fn required_arg<'a>(args: &'a [String], usage: &str) -> (r: Result<&'a str, Box<MeshError>>)
    ensures
        match r {
            Ok(value) => args@.len() == 1 && value@ == args@[0]@,
            Err(e) => args@.len() != 1 && e.message@ == "usage: pi-mesh "@ + usage@,
        },
{
    if args.len() == 1 {
        Ok(args[0].as_str())
    } else {
        let mut message = "usage: pi-mesh ".to_owned();
        message.append(usage);
        Err(boxed_error(message))
    }
}

/// A command.
#[derive(Debug, PartialEq)]
pub enum Command {
    Start(Option<String>),
    Daemon(Option<String>),
    Stop,
    Status,
    List,
    Connectors,
    Peer(String),
    Send(MessageArgs),
    Request(MessageArgs),
    Version,
    SelfCheck,
    Help,
    Unknown(String),
}

pub enum CommandView {
    Start(Option<Seq<char>>),
    Daemon(Option<Seq<char>>),
    Stop,
    Status,
    List,
    Connectors,
    Peer(Seq<char>),
    Send(MessageArgsView),
    Request(MessageArgsView),
    Version,
    SelfCheck,
    Help,
    Unknown(Seq<char>),
}

impl View for Command {
    type V = CommandView;

    open spec fn view(&self) -> CommandView {
        match self {
            Command::Start(peer) => CommandView::Start(text::opt_text(*peer)),
            Command::Daemon(peer) => CommandView::Daemon(text::opt_text(*peer)),
            Command::Stop => CommandView::Stop,
            Command::Status => CommandView::Status,
            Command::List => CommandView::List,
            Command::Connectors => CommandView::Connectors,
            Command::Peer(addr) => CommandView::Peer(addr@),
            Command::Send(args) => CommandView::Send(args@),
            Command::Request(args) => CommandView::Request(args@),
            Command::Version => CommandView::Version,
            Command::SelfCheck => CommandView::SelfCheck,
            Command::Help => CommandView::Help,
            Command::Unknown(name) => CommandView::Unknown(name@),
        }
    }
}

/// The command that the arguments name, with `default_from` as the sender of messages. No
/// argument at all means `start`.
pub open spec fn command(args: Seq<Seq<char>>, default_from: Seq<char>) -> Result<
    CommandView,
    Seq<char>,
> {
    let rest = args.skip(1);
    if args.len() == 0 || args[0] == "start"@ {
        match optional_arg(if args.len() == 0 { args } else { rest }) {
            Ok(peer) => Ok(CommandView::Start(peer)),
            Err(e) => Err(e),
        }
    } else if args[0] == "daemon"@ {
        match optional_arg(rest) {
            Ok(peer) => Ok(CommandView::Daemon(peer)),
            Err(e) => Err(e),
        }
    } else if args[0] == "stop"@ {
        Ok(CommandView::Stop)
    } else if args[0] == "status"@ {
        Ok(CommandView::Status)
    } else if args[0] == "list"@ {
        Ok(CommandView::List)
    } else if args[0] == "connectors"@ {
        Ok(CommandView::Connectors)
    } else if args[0] == "peer"@ {
        if rest.len() == 1 {
            Ok(CommandView::Peer(rest[0]))
        } else {
            Err("usage: pi-mesh "@ + "peer <addr>"@)
        }
    } else if args[0] == "send"@ {
        match message_args(rest, false, default_from) {
            Ok(m) => Ok(CommandView::Send(m)),
            Err(e) => Err(e),
        }
    } else if args[0] == "request"@ {
        match message_args(rest, true, default_from) {
            Ok(m) => Ok(CommandView::Request(m)),
            Err(e) => Err(e),
        }
    } else if args[0] == "version"@ {
        Ok(CommandView::Version)
    } else if args[0] == "self-check"@ {
        Ok(CommandView::SelfCheck)
    } else if args[0] == "help"@ || args[0] == "-h"@ || args[0] == "--help"@ {
        Ok(CommandView::Help)
    } else {
        Ok(CommandView::Unknown(args[0]))
    }
}

/// The result of reading a command, by views.
pub open spec fn command_view(r: Result<Command, Box<MeshError>>) -> Result<
    CommandView,
    Seq<char>,
> {
    match r {
        Ok(c) => Ok(c@),
        Err(e) => Err(e.message@),
    }
}

/// Reads the command that the arguments name.
pub fn parse_command(args: &[String], default_from: String) -> (r: Result<
    Command,
    Box<MeshError>,
>)
    ensures
        command_view(r) == command(text::texts(args@), default_from@),
{
    let ghost all = text::texts(args@);
    if args.len() == 0 {
        return Ok(Command::Start(None));
    }
    let name = args[0].as_str();
    let rest = slice_subrange(args, 1, args.len());
    proof {
        assert(text::texts(rest@) =~= all.skip(1));
        assert(all[0] == name@);
    }
    if str_eq(name, "start") {
        match optional_peer(rest) {
            Ok(peer) => Ok(Command::Start(peer)),
            Err(e) => Err(e),
        }
    } else if str_eq(name, "daemon") {
        match optional_peer(rest) {
            Ok(peer) => Ok(Command::Daemon(peer)),
            Err(e) => Err(e),
        }
    } else if str_eq(name, "stop") {
        Ok(Command::Stop)
    } else if str_eq(name, "status") {
        Ok(Command::Status)
    } else if str_eq(name, "list") {
        Ok(Command::List)
    } else if str_eq(name, "connectors") {
        Ok(Command::Connectors)
    } else if str_eq(name, "peer") {
        match required_arg(rest, "peer <addr>") {
            Ok(addr) => {
                proof {
                    assert(text::texts(rest@)[0] == addr@);
                }
                Ok(Command::Peer(addr.to_owned()))
            },
            Err(e) => Err(e),
        }
    } else if str_eq(name, "send") {
        match parse_message_args(rest, false, default_from) {
            Ok(m) => Ok(Command::Send(m)),
            Err(e) => Err(e),
        }
    } else if str_eq(name, "request") {
        match parse_message_args(rest, true, default_from) {
            Ok(m) => Ok(Command::Request(m)),
            Err(e) => Err(e),
        }
    } else if str_eq(name, "version") {
        Ok(Command::Version)
    } else if str_eq(name, "self-check") {
        Ok(Command::SelfCheck)
    } else if str_eq(name, "help") || str_eq(name, "-h") || str_eq(name, "--help") {
        Ok(Command::Help)
    } else {
        Ok(Command::Unknown(name.to_owned()))
    }
}

/// The error of a command that is not known.
pub fn unknown_command(name: &str) -> (e: Box<MeshError>)
    ensures
        e.message@ == "unknown command: "@ + name@,
{
    let mut message = "unknown command: ".to_owned();
    message.append(name);
    boxed_error(message)
}

/// How long a request may take: the seconds that were asked for, at least one, thirty if
/// none were asked for.
pub open spec fn request_seconds(asked: Option<u64>) -> u64 {
    match asked {
        Some(n) => if n < 1 {
            1
        } else {
            n
        },
        None => 30,
    }
}

/// A number, or the largest of 64 bits where it does not fit.
pub open spec fn capped(n: int) -> u64 {
    if n > u64::MAX {
        u64::MAX
    } else {
        n as u64
    }
}

/// The time that the service gives a request, in milliseconds, and the time that the command
/// line waits for the service, in seconds, which is a little longer.
pub fn request_timeouts(asked: Option<u64>) -> (r: (u64, u64))
    ensures
        r.0 == capped(request_seconds(asked) * 1000),
        r.1 == capped(request_seconds(asked) + 5),
        r.0 < r.1 * 1000,
{
    let seconds: u64 = match asked {
        Some(n) => if n < 1 {
            1
        } else {
            n
        },
        None => 30,
    };
    let ms: u64 = if seconds > u64::MAX / 1000 {
        u64::MAX
    } else {
        seconds * 1000
    };
    let wait: u64 = if seconds > u64::MAX - 5 {
        u64::MAX
    } else {
        seconds + 5
    };
    (ms, wait)
}

/// What the command line asks of the service to send a message.
pub fn send_request(args: &MessageArgs) -> (j: Json)
    ensures
        j@ == JsonView::Object(
            seq![
                ("from"@, JsonView::Text(args@.from)),
                ("to"@, JsonView::Text(args@.to)),
                ("body"@, JsonView::Text(args@.message)),
            ],
        ),
{
    broadcast use json::lemma_json_view;
    let mut fields: Vec<(String, Json)> = Vec::new();
    fields.push(json_field("from", Json::Text(args.from.clone())));
    fields.push(json_field("to", Json::Text(args.to.clone())));
    fields.push(json_field("body", Json::Text(args.message.clone())));
    let j = Json::Object(fields);
    proof {
        assert(j@->Object_0 =~= seq![
            ("from"@, JsonView::Text(args@.from)),
            ("to"@, JsonView::Text(args@.to)),
            ("body"@, JsonView::Text(args@.message)),
        ]);
    }
    j
}

/// What the command line asks of the service to send a request.
pub fn request_request(args: &MessageArgs) -> (j: Json)
    ensures
        j@ == JsonView::Object(
            seq![
                ("from"@, JsonView::Text(args@.from)),
                ("to"@, JsonView::Text(args@.to)),
                ("body"@, JsonView::Text(args@.message)),
                (
                    "timeout_ms"@,
                    json::unsigned_json(capped(request_seconds(args@.timeout_seconds) * 1000)),
                ),
            ],
        ),
{
    broadcast use json::lemma_json_view;
    let (ms, _) = request_timeouts(args.timeout_seconds);
    let mut fields: Vec<(String, Json)> = Vec::new();
    fields.push(json_field("from", Json::Text(args.from.clone())));
    fields.push(json_field("to", Json::Text(args.to.clone())));
    fields.push(json_field("body", Json::Text(args.message.clone())));
    fields.push(json_field("timeout_ms", Json::unsigned(ms)));
    let j = Json::Object(fields);
    proof {
        assert(j@->Object_0 =~= seq![
            ("from"@, JsonView::Text(args@.from)),
            ("to"@, JsonView::Text(args@.to)),
            ("body"@, JsonView::Text(args@.message)),
            ("timeout_ms"@, json::unsigned_json(ms)),
        ]);
    }
    j
}

/// What the command line asks of the service to name a peer.
pub fn peer_request(addr: &str) -> (j: Json)
    ensures
        j@ == JsonView::Object(seq![("addr"@, JsonView::Text(addr@))]),
{
    broadcast use json::lemma_json_view;
    let mut fields: Vec<(String, Json)> = Vec::new();
    fields.push(json_field("addr", Json::text(addr)));
    let j = Json::Object(fields);
    proof {
        assert(j@->Object_0 =~= seq![("addr"@, JsonView::Text(addr@))]);
    }
    j
}

/// What `start` reports in JSON: that the service runs, whether it ran already or runs in
/// this process, and the peer that was named.
pub open spec fn start_report_json(already: bool, peer: Option<Seq<char>>) -> JsonView {
    JsonView::Object(
        seq![
            ("ok"@, JsonView::Bool(true)),
            ("running"@, JsonView::Bool(true)),
            (
                if already {
                    "already_running"@
                } else {
                    "foreground"@
                },
                JsonView::Bool(true),
            ),
            ("peer"@, json::opt_text_json(peer)),
        ],
    )
}

/// What `start` reports in JSON.
pub fn start_report(already: bool, peer: &Option<String>) -> (j: Json)
    ensures
        j@ == start_report_json(already, text::opt_text(*peer)),
{
    broadcast use json::lemma_json_view;
    let how = if already {
        "already_running"
    } else {
        "foreground"
    };
    let mut fields: Vec<(String, Json)> = Vec::new();
    fields.push(json_field("ok", Json::Bool(true)));
    fields.push(json_field("running", Json::Bool(true)));
    fields.push(json_field(how, Json::Bool(true)));
    fields.push(json_field("peer", Json::optional_text(peer)));
    let j = Json::Object(fields);
    proof {
        assert(j@->Object_0 =~= start_report_json(already, text::opt_text(*peer))->Object_0);
    }
    j
}

/// What a command says: JSON, or a line of text.
#[derive(Debug, PartialEq)]
pub enum Report {
    Json(Json),
    Line(String),
}

/// What `start` does. Where the service runs already, the peer is named to it and that it runs
/// is reported; otherwise that it starts is announced, where that is asked for, and then the
/// service runs in this process, with the peer.
#[derive(Debug, PartialEq)]
pub enum StartPlan {
    AlreadyRunning { peer: Option<String>, report: Report },
    Serve { announce: Option<Json>, peers: Vec<String> },
}

/// What `start` does, given whether the service runs already, the peer that was named, and
/// whether JSON is asked for.
pub fn plan_start(running: bool, peer: Option<String>, json: bool) -> (r: StartPlan)
    ensures
        match r {
            StartPlan::AlreadyRunning { peer: p, report } => running && text::opt_text(p)
                == text::opt_text(peer) && match report {
                Report::Json(j) => json && j@ == start_report_json(true, text::opt_text(peer)),
                Report::Line(line) => !json && line@ == "pi-mesh: already running"@,
            },
            StartPlan::Serve { announce, peers } => !running && text::texts(peers@) == (match peer {
                Some(addr) => seq![addr@],
                None => seq![],
            }) && json::opt_json(announce) == (if json {
                Some(start_report_json(false, text::opt_text(peer)))
            } else {
                None
            }),
        },
{
    if running {
        let report = if json {
            Report::Json(start_report(true, &peer))
        } else {
            Report::Line("pi-mesh: already running".to_owned())
        };
        StartPlan::AlreadyRunning { peer, report }
    } else {
        let announce = if json {
            Some(start_report(false, &peer))
        } else {
            None
        };
        let mut peers: Vec<String> = Vec::new();
        proof {
            assert(text::texts(peers@) =~= Seq::<Seq<char>>::empty());
        }
        match peer {
            Some(addr) => {
                peers.push(addr);
                proof {
                    assert(text::texts(peers@) =~= seq![addr@]);
                }
            },
            None => {},
        }
        StartPlan::Serve { announce, peers }
    }
}

/// What `stop` reports in JSON.
pub fn stop_report() -> (j: Json)
    ensures
        j@ == JsonView::Object(
            seq![("ok"@, JsonView::Bool(true)), ("stopped"@, JsonView::Bool(true))],
        ),
{
    broadcast use json::lemma_json_view;
    let mut fields: Vec<(String, Json)> = Vec::new();
    fields.push(json_field("ok", Json::Bool(true)));
    fields.push(json_field("stopped", Json::Bool(true)));
    let j = Json::Object(fields);
    proof {
        assert(j@->Object_0 =~= seq![
            ("ok"@, JsonView::Bool(true)),
            ("stopped"@, JsonView::Bool(true)),
        ]);
    }
    j
}

/// What `peer` reports in JSON.
pub fn peer_report(addr: &str) -> (j: Json)
    ensures
        j@ == JsonView::Object(
            seq![("ok"@, JsonView::Bool(true)), ("peer"@, JsonView::Text(addr@))],
        ),
{
    broadcast use json::lemma_json_view;
    let mut fields: Vec<(String, Json)> = Vec::new();
    fields.push(json_field("ok", Json::Bool(true)));
    fields.push(json_field("peer", Json::text(addr)));
    let j = Json::Object(fields);
    proof {
        assert(j@->Object_0 =~= seq![
            ("ok"@, JsonView::Bool(true)),
            ("peer"@, JsonView::Text(addr@)),
        ]);
    }
    j
}

/// What a service tells when it starts: where it is controlled, where it listens, and the
/// address that it tells its peers.
pub fn start_banner(control: &str, port: u16, advertise: &str) -> (r: String)
    ensures
        r@ == "pi-mesh: control http://"@ + control@ + "\npi-mesh: listen  http://0.0.0.0:"@
            + text::decimal(port as nat) + "\npi-mesh: addr    "@ + advertise@,
{
    let mut out = "pi-mesh: control http://".to_owned();
    out.append(control);
    out.append("\npi-mesh: listen  http://0.0.0.0:");
    out.append(decimal_text(port as u64).as_str());
    out.append("\npi-mesh: addr    ");
    out.append(advertise);
    out
}

/// What `send` tells when the service took the message.
pub fn sent_line(to: &str) -> (r: String)
    ensures
        r@ == "sent to "@ + to@,
{
    let mut out = "sent to ".to_owned();
    out.append(to);
    out
}

/// What `peer` tells when the service took the peer.
pub fn peer_line(addr: &str) -> (r: String)
    ensures
        r@ == "pi-mesh: peer added "@ + addr@,
{
    let mut out = "pi-mesh: peer added ".to_owned();
    out.append(addr);
    out
}

} // verus!
