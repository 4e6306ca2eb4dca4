//! The command line: `hunter <serve|daemon> [--root <path>] [--port <port>]`.

use vstd::prelude::*;
use crate::text;

verus! {

#[derive(Debug, Clone, Copy, PartialEq, Eq, Structural)]
pub enum Command {
    Serve,
    Daemon,
}

#[derive(Debug, Clone)]
pub struct Cli {
    pub command: Command,
    pub root: String,
    pub port: Option<u16>,
}

/// What was read of the arguments so far.
pub struct Partly {
    pub command: Option<Command>,
    pub root: Seq<char>,
    pub port: Option<u16>,
}

/// What the arguments from a position on come to: each flag takes the next
/// one, and only one command is taken.
pub open spec fn parsed(args: Seq<Seq<char>>, i: int, p: Partly) -> Result<Partly, Seq<char>>
    decreases args.len() - i,
{
    if i < 0 || i >= args.len() {
        if p.command is None {
            Err("missing subcommand (expected: serve or daemon)"@)
        } else {
            Ok(p)
        }
    } else if args[i] == "--root"@ {
        if i + 1 >= args.len() {
            Err("--root requires a value"@)
        } else {
            parsed(args, i + 2, Partly { root: args[i + 1], ..p })
        }
    } else if args[i] == "--port"@ {
        if i + 1 >= args.len() {
            Err("--port requires a value"@)
        } else {
            match text::parse_int(args[i + 1], 0, 65_535) {
                Some(n) => parsed(args, i + 2, Partly { port: Some(n as u16), ..p }),
                None => Err("invalid port "@ + text::debug_text(args[i + 1])),
            }
        }
    } else if args[i] == "serve"@ && p.command is None {
        parsed(args, i + 1, Partly { command: Some(Command::Serve), ..p })
    } else if args[i] == "daemon"@ && p.command is None {
        parsed(args, i + 1, Partly { command: Some(Command::Daemon), ..p })
    } else {
        Err("unknown argument "@ + text::debug_text(args[i]))
    }
}

/// What the arguments come to.
pub open spec fn command_line(args: Seq<Seq<char>>) -> Result<Partly, Seq<char>> {
    parsed(args, 0, Partly { command: None, root: "../hunter"@, port: None })
}

pub fn parse_args(args: &Vec<String>) -> (r: Result<Cli, String>)
    ensures
        match r {
            Ok(c) => command_line(text::texts(args@)) == Ok::<Partly, Seq<char>>(
                Partly { command: Some(c.command), root: c.root@, port: c.port },
            ),
            Err(e) => command_line(text::texts(args@)) == Err::<Partly, Seq<char>>(e@),
        },
{
    let ghost all = text::texts(args@);
    let mut root: String = "../hunter".to_owned();
    let mut port: Option<u16> = None;
    let mut command: Option<Command> = None;
    let mut i: usize = 0;
    while i < args.len()
        invariant
            i <= args@.len(),
            all == text::texts(args@),
            command_line(all) == parsed(all, i as int, Partly { command, root: root@, port }),
        decreases args@.len() - i,
    {
        assert(all[i as int] == args@[i as int]@);
        let arg = &args[i];
        if text::same(arg, "--root") {
            if i + 1 >= args.len() {
                return Err("--root requires a value".to_owned());
            }
            assert(all[i + 1] == args@[i + 1]@);
            root = args[i + 1].clone();
            i = i + 2;
        } else if text::same(arg, "--port") {
            if i + 1 >= args.len() {
                return Err("--port requires a value".to_owned());
            }
            assert(all[i + 1] == args@[i + 1]@);
            match text::read_u16(&args[i + 1]) {
                Some(n) => {
                    port = Some(n);
                },
                None => {
                    return Err("invalid port ".to_owned().concat(text::quoted(&args[i + 1]).as_str()));
                },
            }
            i = i + 2;
        } else if text::same(arg, "serve") && command.is_none() {
            command = Some(Command::Serve);
            i = i + 1;
        } else if text::same(arg, "daemon") && command.is_none() {
            command = Some(Command::Daemon);
            i = i + 1;
        } else {
            return Err("unknown argument ".to_owned().concat(text::quoted(arg).as_str()));
        }
    }
    match command {
        Some(c) => Ok(Cli { command: c, root, port }),
        None => Err("missing subcommand (expected: serve or daemon)".to_owned()),
    }
}

/// The word for a command.
pub open spec fn word_of(c: Command) -> Seq<char> {
    match c {
        Command::Serve => "serve"@,
        Command::Daemon => "daemon"@,
    }
}

/// A command line that is accepted has a command, which is one of its words.
pub proof fn law_accepted_line_names_its_command(args: Seq<Seq<char>>, p: Partly)
    requires
        command_line(args) == Ok::<Partly, Seq<char>>(p),
    ensures
        p.command is Some,
        exists|k: int| 0 <= k < args.len() && #[trigger] args[k] == word_of(p.command->0),
{
    lemma_named(args, 0, Partly { command: None, root: "../hunter"@, port: None }, p);
}

proof fn lemma_named(args: Seq<Seq<char>>, i: int, p: Partly, q: Partly)
    requires
        0 <= i,
        parsed(args, i, p) == Ok::<Partly, Seq<char>>(q),
    ensures
        q.command is Some,
        p.command is Some ==> q.command == p.command,
        p.command is None ==> exists|k: int|
            i <= k < args.len() && #[trigger] args[k] == word_of(q.command->0),
    decreases args.len() - i,
{
    if i < args.len() {
        if args[i] == "--root"@ {
            lemma_named(args, i + 2, Partly { root: args[i + 1], ..p }, q);
        } else if args[i] == "--port"@ {
            let n = text::parse_int(args[i + 1], 0, 65_535)->0;
            lemma_named(args, i + 2, Partly { port: Some(n as u16), ..p }, q);
        } else if args[i] == "serve"@ && p.command is None {
            lemma_named(args, i + 1, Partly { command: Some(Command::Serve), ..p }, q);
        } else if args[i] == "daemon"@ && p.command is None {
            lemma_named(args, i + 1, Partly { command: Some(Command::Daemon), ..p }, q);
        }
    }
}

/// What follows an accepted line is read as if it stood alone, from what the
/// line came to.
proof fn lemma_goes_on(args: Seq<Seq<char>>, more: Seq<Seq<char>>, i: int, p: Partly, q: Partly)
    requires
        0 <= i <= args.len(),
        parsed(args, i, p) == Ok::<Partly, Seq<char>>(q),
    ensures
        parsed(args + more, i, p) == parsed(args + more, args.len() as int, q),
    decreases args.len() - i,
{
    let all = args + more;
    if i < args.len() {
        assert(all[i] == args[i]);
        if args[i] == "--root"@ {
            assert(all[i + 1] == args[i + 1]);
            lemma_goes_on(args, more, i + 2, Partly { root: args[i + 1], ..p }, q);
        } else if args[i] == "--port"@ {
            assert(all[i + 1] == args[i + 1]);
            let n = text::parse_int(args[i + 1], 0, 65_535)->0;
            lemma_goes_on(args, more, i + 2, Partly { port: Some(n as u16), ..p }, q);
        } else if args[i] == "serve"@ && p.command is None {
            lemma_goes_on(args, more, i + 1, Partly { command: Some(Command::Serve), ..p }, q);
        } else {
            lemma_goes_on(args, more, i + 1, Partly { command: Some(Command::Daemon), ..p }, q);
        }
    }
}

/// The last value of a flag counts, and changes nothing else: a root takes any
/// text, a port a number below 65536. A second command is refused.
pub proof fn law_last_flag_counts(args: Seq<Seq<char>>, p: Partly, value: Seq<char>)
    requires
        command_line(args) == Ok::<Partly, Seq<char>>(p),
    ensures
        command_line(args + seq!["--root"@, value]) == Ok::<Partly, Seq<char>>(Partly { root: value, ..p }),
        text::parse_int(value, 0, 65_535) matches Some(n) ==> command_line(args + seq!["--port"@, value]) == Ok::<
            Partly,
            Seq<char>,
        >(Partly { port: Some(n as u16), ..p }),
        text::parse_int(value, 0, 65_535) is None ==> command_line(args + seq!["--port"@, value]) is Err,
        command_line(args + seq!["serve"@]) is Err,
        command_line(args + seq!["daemon"@]) is Err,
{
    reveal_strlit("--root");
    reveal_strlit("--port");
    reveal_strlit("serve");
    reveal_strlit("daemon");
    assert("--root"@[2] == 'r' && "--port"@[2] == 'p');
    assert("serve"@[0] == 's' && "daemon"@[0] == 'd' && "--root"@[0] == '-' && "--port"@[0] == '-');
    let start = Partly { command: None, root: "../hunter"@, port: None };
    let n = args.len() as int;
    lemma_named(args, 0, start, p);
    let a = args + seq!["--root"@, value];
    lemma_goes_on(args, seq!["--root"@, value], 0, start, p);
    assert(a[n] == "--root"@ && a[n + 1] == value);
    reveal_with_fuel(parsed, 3);
    let b = args + seq!["--port"@, value];
    lemma_goes_on(args, seq!["--port"@, value], 0, start, p);
    assert(b[n] == "--port"@ && b[n + 1] == value);
    let c = args + seq!["serve"@];
    lemma_goes_on(args, seq!["serve"@], 0, start, p);
    assert(c[n] == "serve"@);
    let d = args + seq!["daemon"@];
    lemma_goes_on(args, seq!["daemon"@], 0, start, p);
    assert(d[n] == "daemon"@);
}

/// A command alone is accepted, with the root beside the project and no port
/// of its own; without a command nothing is.
pub proof fn law_command_alone_is_enough(c: Command)
    ensures
        command_line(seq![word_of(c)]) == Ok::<Partly, Seq<char>>(
            Partly { command: Some(c), root: "../hunter"@, port: None },
        ),
        command_line(Seq::empty()) is Err,
{
    reveal_strlit("--root");
    reveal_strlit("--port");
    reveal_strlit("serve");
    reveal_strlit("daemon");
    assert("serve"@[0] == 's' && "daemon"@[0] == 'd' && "--root"@[0] == '-' && "--port"@[0] == '-');
    let v = seq![word_of(c)];
    assert(v[0] == word_of(c));
    reveal_with_fuel(parsed, 3);
}

} // verus!
