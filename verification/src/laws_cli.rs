//! What the command line means, said of arguments that are put together.

use crate::cli;
use crate::cli::{Command, CommandView, MessageArgs, MessageArgsView, Options};
use crate::laws_text;
use crate::text;
use vstd::prelude::*;

verus! {

/// Arguments that are all words: none names an option.
pub open spec fn words_only(args: Seq<Seq<char>>) -> bool {
    forall|i: int|
        0 <= i < args.len() ==> #[trigger] args[i] != "--from"@ && args[i] != "--timeout"@
}

proof fn lemma_option_names()
    ensures
        "--from"@ != "--timeout"@,
{
    reveal_strlit("--from");
    reveal_strlit("--timeout");
    assert("--from"@.len() == 6 && "--timeout"@.len() == 9);
}

/// Words in front are added to the words that were read, and reading goes on behind them.
proof fn lemma_words_in_front(
    front: Seq<Seq<char>>,
    rest: Seq<Seq<char>>,
    allow: bool,
    o: Options,
)
    requires
        words_only(front),
    ensures
        cli::read_options(front + rest, allow, o) == cli::read_options(
            rest,
            allow,
            Options { words: o.words + front, ..o },
        ),
    decreases front.len(),
{
    if front.len() == 0 {
        assert(front + rest =~= rest);
        assert(o.words + front =~= o.words);
    } else {
        let tail = front.skip(1);
        let all = front + rest;
        assert(all[0] == front[0]);
        assert forall|i: int| 0 <= i < tail.len() implies #[trigger] tail[i] != "--from"@ && tail[i]
            != "--timeout"@ by {
            assert(tail[i] == front[i + 1]);
        }
        assert(all.skip(1) =~= tail + rest);
        let next = Options { words: o.words.push(front[0]), ..o };
        lemma_words_in_front(tail, rest, allow, next);
        assert(o.words.push(front[0]) + tail =~= o.words + front);
    }
}

proof fn lemma_words(args: Seq<Seq<char>>, allow: bool, o: Options)
    requires
        words_only(args),
    ensures
        cli::read_options(args, allow, o) == Ok::<Options, Seq<char>>(
            Options { words: o.words + args, ..o },
        ),
{
    lemma_words_in_front(args, Seq::empty(), allow, o);
    assert(args + Seq::<Seq<char>>::empty() =~= args);
}

/// Law: of arguments that are all words the first is the addressee, and all the others, in
/// order, with one space between each two, are the message: one more word at the end makes the
/// message longer by a space and that word. The sender is the usual one, and no time is set.
pub proof fn law_words_make_the_message(
    args: Seq<Seq<char>>,
    word: Seq<char>,
    allow: bool,
    from: Seq<char>,
)
    requires
        words_only(args),
        args.len() >= 2,
        word != "--from"@,
        word != "--timeout"@,
    ensures
        cli::message_args(args, allow, from) matches Ok(m) && {
            &&& m.to == args[0]
            &&& m.from == from
            &&& m.timeout_seconds is None
            &&& args.len() == 2 ==> m.message == args[1]
            &&& cli::message_args(args.push(word), allow, from) == Ok::<MessageArgsView, Seq<char>>(
                MessageArgsView { message: m.message + " "@ + word, ..m },
            )
        },
{
    let o = Options { from, timeout: None, words: Seq::empty() };
    let more = args.push(word);
    assert forall|i: int| 0 <= i < more.len() implies #[trigger] more[i] != "--from"@ && more[i]
        != "--timeout"@ by {
        if i < args.len() {
            assert(more[i] == args[i]);
        }
    }
    lemma_words(args, allow, o);
    lemma_words(more, allow, o);
    assert(o.words + args =~= args);
    assert(o.words + more =~= more);
    laws_text::law_join_grows_by_separator_and_part(args.skip(1), word, " "@);
    assert(more.skip(1) =~= args.skip(1).push(word));
    if args.len() == 2 {
        assert(args.skip(1) =~= seq![args[1]]);
        laws_text::law_join_grows_by_separator_and_part(Seq::empty(), args[1], " "@);
    }
}

/// Law: fewer than two words are no message; the command is told how it is used.
pub proof fn law_too_few_words_are_refused(args: Seq<Seq<char>>, from: Seq<char>)
    requires
        words_only(args),
        args.len() < 2,
    ensures
        cli::message_args(args, true, from) == Err::<MessageArgsView, Seq<char>>(
            "usage: pi-mesh request <to> <message>"@,
        ),
        cli::message_args(args, false, from) == Err::<MessageArgsView, Seq<char>>(
            "usage: pi-mesh send <to> <message>"@,
        ),
{
    let o = Options { from, timeout: None, words: Seq::empty() };
    lemma_words(args, true, o);
    lemma_words(args, false, o);
    assert(o.words + args =~= args);
}

/// Law: `--from` and a name, behind any words, do nothing but make that name the sender, unless
/// a later one does.
pub proof fn law_from_names_the_sender(
    front: Seq<Seq<char>>,
    name: Seq<char>,
    rest: Seq<Seq<char>>,
    allow: bool,
    from: Seq<char>,
)
    requires
        words_only(front),
    ensures
        cli::message_args(front + (seq!["--from"@, name] + rest), allow, from) == cli::message_args(
            front + rest,
            allow,
            name,
        ),
        cli::message_args(front.push("--from"@), allow, from) == Err::<MessageArgsView, Seq<char>>(
            "--from requires a name"@,
        ),
{
    let o = Options { from, timeout: None, words: Seq::empty() };
    let named = Options { from: name, timeout: None, words: Seq::empty() };
    let option = seq!["--from"@, name] + rest;
    lemma_words_in_front(front, option, allow, o);
    lemma_words_in_front(front, rest, allow, named);
    assert(option[0] == "--from"@ && option[1] == name);
    assert(option.skip(2) =~= rest);
    lemma_words_in_front(front, seq!["--from"@], allow, o);
    assert(front + seq!["--from"@] =~= front.push("--from"@));
}

/// A time that was read before is kept unless another is read.
proof fn lemma_time_is_kept(args: Seq<Seq<char>>, allow: bool, o: Options, time: Option<u64>)
    requires
        o.timeout is None,
    ensures
        match cli::read_options(args, allow, o) {
            Ok(p) => cli::read_options(args, allow, Options { timeout: time, ..o }) == Ok::<
                Options,
                Seq<char>,
            >(
                Options {
                    timeout: if p.timeout is Some {
                        p.timeout
                    } else {
                        time
                    },
                    ..p
                },
            ),
            Err(e) => cli::read_options(args, allow, Options { timeout: time, ..o }) == Err::<
                Options,
                Seq<char>,
            >(e),
        },
    decreases args.len(),
{
    lemma_option_names();
    if args.len() == 0 {
    } else if args[0] == "--from"@ {
        if args.len() >= 2 {
            lemma_time_is_kept(args.skip(2), allow, Options { from: args[1], ..o }, time);
        }
    } else if args[0] == "--timeout"@ {
        if allow && args.len() >= 2 {
            match text::unsigned_value(args[1], u64::MAX as nat) {
                Some(n) => {
                    lemma_time_stays(args.skip(2), allow, Options { timeout: Some(n as u64), ..o });
                },
                None => {},
            }
        }
    } else {
        lemma_time_is_kept(
            args.skip(1),
            allow,
            Options { words: o.words.push(args[0]), ..o },
            time,
        );
    }
}

proof fn lemma_time_stays(args: Seq<Seq<char>>, allow: bool, o: Options)
    requires
        o.timeout is Some,
    ensures
        cli::read_options(args, allow, o) matches Ok(p) ==> p.timeout is Some,
    decreases args.len(),
{
    if args.len() == 0 {
    } else if args[0] == "--from"@ {
        if args.len() >= 2 {
            lemma_time_stays(args.skip(2), allow, Options { from: args[1], ..o });
        }
    } else if args[0] == "--timeout"@ {
        if allow && args.len() >= 2 {
            match text::unsigned_value(args[1], u64::MAX as nat) {
                Some(n) => {
                    lemma_time_stays(args.skip(2), allow, Options { timeout: Some(n as u64), ..o });
                },
                None => {},
            }
        }
    } else {
        lemma_time_stays(args.skip(1), allow, Options { words: o.words.push(args[0]), ..o });
    }
}

/// Law: `--timeout` and a number, behind any words of a request, do nothing but set that time
/// in seconds, unless a later one does. What is no number of sixty-four bits is refused, and
/// so is the option without a number, or of a command that waits for no answer.
pub proof fn law_timeout_sets_the_time(
    front: Seq<Seq<char>>,
    number: Seq<char>,
    rest: Seq<Seq<char>>,
    from: Seq<char>,
)
    requires
        words_only(front),
    ensures
        text::unsigned_value(number, u64::MAX as nat) matches Some(n) ==> {
            let plain = cli::message_args(front + rest, true, from);
            let timed = cli::message_args(
                front + (seq!["--timeout"@, number] + rest),
                true,
                from,
            );
            match plain {
                Ok(m) => timed == Ok::<MessageArgsView, Seq<char>>(
                    MessageArgsView {
                        timeout_seconds: if m.timeout_seconds is Some {
                            m.timeout_seconds
                        } else {
                            Some(n as u64)
                        },
                        ..m
                    },
                ),
                Err(e) => timed == Err::<MessageArgsView, Seq<char>>(e),
            }
        },
        text::unsigned_value(number, u64::MAX as nat) is None ==> cli::message_args(
            front + (seq!["--timeout"@, number] + rest),
            true,
            from,
        ) == Err::<MessageArgsView, Seq<char>>(text::parse_error_text(number)),
        cli::message_args(front + (seq!["--timeout"@] + rest), false, from) == Err::<
            MessageArgsView,
            Seq<char>,
        >("--timeout is only supported for request"@),
        cli::message_args(front.push("--timeout"@), true, from) == Err::<
            MessageArgsView,
            Seq<char>,
        >("--timeout requires seconds"@),
{
    lemma_option_names();
    let o = Options { from, timeout: None, words: Seq::empty() };
    let read = Options { words: o.words + front, ..o };
    let option = seq!["--timeout"@, number] + rest;
    lemma_words_in_front(front, option, true, o);
    lemma_words_in_front(front, rest, true, o);
    assert(option[0] == "--timeout"@ && option[1] == number);
    assert(option.skip(2) =~= rest);
    match text::unsigned_value(number, u64::MAX as nat) {
        Some(n) => {
            lemma_time_is_kept(rest, true, read, Some(n as u64));
        },
        None => {},
    }
    let bare = seq!["--timeout"@] + rest;
    lemma_words_in_front(front, bare, false, o);
    assert(bare[0] == "--timeout"@);
    lemma_words_in_front(front, seq!["--timeout"@], true, o);
    assert(front + seq!["--timeout"@] =~= front.push("--timeout"@));
}

/// Law: arguments without a global flag are all left for the command, as they stand.
pub proof fn law_other_arguments_are_left(args: Seq<Seq<char>>)
    requires
        forall|i: int|
            0 <= i < args.len() ==> #[trigger] args[i] != "--json"@ && args[i] != "--version"@
                && args[i] != "-V"@,
    ensures
        cli::command_args(args) == args,
{
    lemma_left(args);
}

proof fn lemma_left(args: Seq<Seq<char>>)
    requires
        forall|i: int|
            0 <= i < args.len() ==> #[trigger] args[i] != "--json"@ && args[i] != "--version"@
                && args[i] != "-V"@,
    ensures
        cli::without_flags(args) == args,
    decreases args.len(),
{
    if args.len() == 0 {
        assert(args =~= Seq::empty());
    } else {
        let front = args.drop_last();
        assert forall|i: int| 0 <= i < front.len() implies #[trigger] front[i] != "--json"@
            && front[i] != "--version"@ && front[i] != "-V"@ by {
            assert(front[i] == args[i]);
        }
        lemma_left(front);
        assert(args[args.len() - 1] != "--json"@);
        assert(front.push(args.last()) =~= args);
    }
}

/// Law: without a configured name the command line sends as `cli` at its machine.
pub proof fn law_sender_is_configured_or_the_machine(name: Seq<char>, machine: Seq<char>)
    ensures
        cli::sender_name(Some(name), machine) == name,
        cli::sender_name(None, machine) == "cli@"@ + machine,
{
}

/// Law: a request is given the seconds that were asked for, at least one, and thirty where none
/// were asked for; what does not fit in sixty-four bits is cut to the largest that does.
pub proof fn law_request_gets_its_time(seconds: u64, n: int)
    ensures
        cli::request_seconds(None) == 30,
        cli::request_seconds(Some(0)) == 1,
        seconds > 0 ==> cli::request_seconds(Some(seconds)) == seconds,
        0 <= n <= u64::MAX ==> cli::capped(n) == n,
        n > u64::MAX ==> cli::capped(n) == u64::MAX,
{
}

/// Law: a command with an optional peer takes none or one, as it stands, and refuses more.
pub proof fn law_start_takes_one_peer(args: Seq<Seq<char>>)
    ensures
        args.len() == 0 ==> cli::optional_arg(args) == Ok::<Option<Seq<char>>, Seq<char>>(None),
        args.len() == 1 ==> cli::optional_arg(args) == Ok::<Option<Seq<char>>, Seq<char>>(
            Some(args[0]),
        ),
        args.len() > 1 ==> cli::optional_arg(args) == Err::<Option<Seq<char>>, Seq<char>>(
            "usage: pi-mesh start [peer]"@,
        ),
{
}

/// The names of the commands.
proof fn lemma_command_names()
    ensures
        forall|i: int, j: int|
            0 <= i < j < command_names().len() ==> #[trigger] command_names()[i]
                != #[trigger] command_names()[j],
{
    reveal_strlit("start");
    reveal_strlit("daemon");
    reveal_strlit("stop");
    reveal_strlit("status");
    reveal_strlit("list");
    reveal_strlit("connectors");
    reveal_strlit("peer");
    reveal_strlit("send");
    reveal_strlit("request");
    reveal_strlit("version");
    reveal_strlit("self-check");
    reveal_strlit("help");
    reveal_strlit("-h");
    reveal_strlit("--help");
    let n = command_names();
    assert(n[0].len() == 5 && n[0][2] == 'a');
    assert(n[1].len() == 6 && n[1][0] == 'd');
    assert(n[2].len() == 4 && n[2][0] == 's' && n[2][1] == 't');
    assert(n[3].len() == 6 && n[3][0] == 's');
    assert(n[4].len() == 4 && n[4][0] == 'l');
    assert(n[5].len() == 10 && n[5][0] == 'c');
    assert(n[6].len() == 4 && n[6][0] == 'p');
    assert(n[7].len() == 4 && n[7][0] == 's' && n[7][1] == 'e');
    assert(n[8].len() == 7 && n[8][0] == 'r');
    assert(n[9].len() == 7 && n[9][0] == 'v');
    assert(n[10].len() == 10 && n[10][0] == 's');
    assert(n[11].len() == 4 && n[11][0] == 'h');
    assert(n[12].len() == 2);
    assert(n[13].len() == 6 && n[13][0] == '-');
}

/// The names of the commands.
pub open spec fn command_names() -> Seq<Seq<char>> {
    seq![
        "start"@,
        "daemon"@,
        "stop"@,
        "status"@,
        "list"@,
        "connectors"@,
        "peer"@,
        "send"@,
        "request"@,
        "version"@,
        "self-check"@,
        "help"@,
        "-h"@,
        "--help"@,
    ]
}

/// Law: the first argument names the command, and the others are its own; without arguments
/// the service starts; a name that is none of a command is an unknown command.
pub proof fn law_first_argument_names_the_command(
    name: Seq<char>,
    rest: Seq<Seq<char>>,
    from: Seq<char>,
)
    ensures
        cli::command(Seq::empty(), from) == Ok::<CommandView, Seq<char>>(CommandView::Start(None)),
        ({
            let c = cli::command(seq![name] + rest, from);
            &&& name == "start"@ && rest.len() == 0 ==> c == Ok::<CommandView, Seq<char>>(
                CommandView::Start(None),
            )
            &&& name == "start"@ && rest.len() == 1 ==> c == Ok::<CommandView, Seq<char>>(
                CommandView::Start(Some(rest[0])),
            )
            &&& name == "daemon"@ && rest.len() == 0 ==> c == Ok::<CommandView, Seq<char>>(
                CommandView::Daemon(None),
            )
            &&& name == "daemon"@ && rest.len() == 1 ==> c == Ok::<CommandView, Seq<char>>(
                CommandView::Daemon(Some(rest[0])),
            )
            &&& (name == "start"@ || name == "daemon"@) && rest.len() > 1 ==> c == Err::<
                CommandView,
                Seq<char>,
            >("usage: pi-mesh start [peer]"@)
            &&& name == "stop"@ ==> c == Ok::<CommandView, Seq<char>>(CommandView::Stop)
            &&& name == "status"@ ==> c == Ok::<CommandView, Seq<char>>(CommandView::Status)
            &&& name == "list"@ ==> c == Ok::<CommandView, Seq<char>>(CommandView::List)
            &&& name == "connectors"@ ==> c == Ok::<CommandView, Seq<char>>(
                CommandView::Connectors,
            )
            &&& name == "peer"@ && rest.len() == 1 ==> c == Ok::<CommandView, Seq<char>>(
                CommandView::Peer(rest[0]),
            )
            &&& name == "peer"@ && rest.len() != 1 ==> c == Err::<CommandView, Seq<char>>(
                "usage: pi-mesh peer <addr>"@,
            )
            &&& name == "version"@ ==> c == Ok::<CommandView, Seq<char>>(CommandView::Version)
            &&& name == "self-check"@ ==> c == Ok::<CommandView, Seq<char>>(CommandView::SelfCheck)
            &&& name == "help"@ || name == "-h"@ || name == "--help"@ ==> c == Ok::<
                CommandView,
                Seq<char>,
            >(CommandView::Help)
            &&& !command_names().contains(name) ==> c == Ok::<CommandView, Seq<char>>(
                CommandView::Unknown(name),
            )
        }),
{
    let n = command_names();
    let args = seq![name] + rest;
    assert(args[0] == name);
    assert(args.skip(1) =~= rest);
    lemma_names_differ();
    reveal_strlit("usage: pi-mesh ");
    reveal_strlit("peer <addr>");
    reveal_strlit("usage: pi-mesh peer <addr>");
    assert("usage: pi-mesh "@ + "peer <addr>"@ =~= "usage: pi-mesh peer <addr>"@);
    if !n.contains(name) {
        assert(n[0] == "start"@ && n[1] == "daemon"@ && n[2] == "stop"@ && n[3] == "status"@
            && n[4] == "list"@ && n[5] == "connectors"@ && n[6] == "peer"@ && n[7] == "send"@
            && n[8] == "request"@ && n[9] == "version"@ && n[10] == "self-check"@ && n[11]
            == "help"@ && n[12] == "-h"@ && n[13] == "--help"@);
    }
}

/// No name of a command is that of one before it.
proof fn lemma_names_differ()
    ensures
        forall|i: int, j: int|
            0 <= i < j < command_names().len() ==> #[trigger] command_names()[i]
                != #[trigger] command_names()[j],
        "start"@ == command_names()[0],
        "daemon"@ == command_names()[1],
        "stop"@ == command_names()[2],
        "status"@ == command_names()[3],
        "list"@ == command_names()[4],
        "connectors"@ == command_names()[5],
        "peer"@ == command_names()[6],
        "send"@ == command_names()[7],
        "request"@ == command_names()[8],
        "version"@ == command_names()[9],
        "self-check"@ == command_names()[10],
        "help"@ == command_names()[11],
        "-h"@ == command_names()[12],
        "--help"@ == command_names()[13],
{
    lemma_command_names();
}

/// Law: `send` and `request` read the arguments behind them as those of a message, and only
/// `request` lets a time be set.
pub proof fn law_messages_are_commands(rest: Seq<Seq<char>>, from: Seq<char>)
    ensures
        match cli::message_args(rest, false, from) {
            Ok(m) => cli::command(seq!["send"@] + rest, from) == Ok::<CommandView, Seq<char>>(
                CommandView::Send(m),
            ),
            Err(e) => cli::command(seq!["send"@] + rest, from) == Err::<CommandView, Seq<char>>(e),
        },
        match cli::message_args(rest, true, from) {
            Ok(m) => cli::command(seq!["request"@] + rest, from) == Ok::<CommandView, Seq<char>>(
                CommandView::Request(m),
            ),
            Err(e) => cli::command(seq!["request"@] + rest, from) == Err::<
                CommandView,
                Seq<char>,
            >(e),
        },
{
    lemma_names_differ();
    let send = seq!["send"@] + rest;
    let request = seq!["request"@] + rest;
    assert(send[0] == "send"@ && request[0] == "request"@);
    assert(send.skip(1) =~= rest);
    assert(request.skip(1) =~= rest);
}

/// Law: what a command was given is what it is given: each part as it stands.
pub proof fn law_commands_are_seen_as_they_are(c: Command, m: MessageArgs)
    ensures
        m@.from == m.from@,
        m@.to == m.to@,
        m@.message == m.message@,
        m@.timeout_seconds == m.timeout_seconds,
        match c {
            Command::Start(Some(p)) => c@ == CommandView::Start(Some(p@)),
            Command::Start(None) => c@ == CommandView::Start(None),
            Command::Daemon(Some(p)) => c@ == CommandView::Daemon(Some(p@)),
            Command::Daemon(None) => c@ == CommandView::Daemon(None),
            Command::Stop => c@ == CommandView::Stop,
            Command::Status => c@ == CommandView::Status,
            Command::List => c@ == CommandView::List,
            Command::Connectors => c@ == CommandView::Connectors,
            Command::Peer(p) => c@ == CommandView::Peer(p@),
            Command::Send(a) => c@ == CommandView::Send(a@),
            Command::Request(a) => c@ == CommandView::Request(a@),
            Command::Version => c@ == CommandView::Version,
            Command::SelfCheck => c@ == CommandView::SelfCheck,
            Command::Help => c@ == CommandView::Help,
            Command::Unknown(n) => c@ == CommandView::Unknown(n@),
        },
{
}

} // verus!
