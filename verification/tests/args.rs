use elapsed::args::{ArgToken, Arguments, Decision, Flags, Opt, UsageError};
use lexopt::Parser;

fn run_of(args: Arguments) -> elapsed::spawn::Elapsed {
    match args {
        Arguments::Run(app) => app,
        other => panic!("not a run: {other:?}"),
    }
}

#[test]
fn command_only() {
    let parser = Parser::from_iter(["elapsed", "foo"]);
    let app = run_of(Arguments::from_parser(parser, true).unwrap());
    assert_eq!(app.cmd, b"foo");
    assert!(app.args.is_empty());
    assert!(!app.total);
}

#[test]
fn command_with_arg() {
    let parser = Parser::from_iter(["elapsed", "foo", "bar"]);
    let app = run_of(Arguments::from_parser(parser, true).unwrap());
    assert_eq!(app.cmd, b"foo");
    assert_eq!(app.args, [b"bar"]);
}

#[test]
fn command_with_opt() {
    let parser = Parser::from_iter(["elapsed", "foo", "--bar"]);
    let app = run_of(Arguments::from_parser(parser, true).unwrap());
    assert_eq!(app.cmd, b"foo");
    assert_eq!(app.args, [b"--bar"]);
}

#[test]
fn command_with_my_opt() {
    let parser = Parser::from_iter(["elapsed", "foo", "--help"]);
    let app = run_of(Arguments::from_parser(parser, true).unwrap());
    assert_eq!(app.cmd, b"foo");
    assert_eq!(app.args, [b"--help"]);
}

#[test]
fn help() {
    let parser = Parser::from_iter(["elapsed", "--help"]);
    assert_eq!(
        Arguments::from_parser(parser, true).unwrap(),
        Arguments::Help
    );
}

#[test]
fn version() {
    let parser = Parser::from_iter(["elapsed", "--version"]);
    assert_eq!(
        Arguments::from_parser(parser, true).unwrap(),
        Arguments::Version
    );
}

#[test]
fn help_and_command() {
    let parser = Parser::from_iter(["elapsed", "--help", "foo"]);
    assert_eq!(
        Arguments::from_parser(parser, true).unwrap(),
        Arguments::Help
    );
}

#[test]
fn total() {
    let parser = Parser::from_iter(["elapsed", "--total", "foo"]);
    let app = run_of(Arguments::from_parser(parser, true).unwrap());
    assert_eq!(app.cmd, b"foo");
    assert!(app.args.is_empty());
    assert!(app.total);
}

#[test]
fn double_dash_command() {
    let parser = Parser::from_iter(["elapsed", "--", "foo"]);
    let app = run_of(Arguments::from_parser(parser, true).unwrap());
    assert_eq!(app.cmd, b"foo");
    assert!(app.args.is_empty());
}

#[test]
fn double_dash_opt() {
    let parser = Parser::from_iter(["elapsed", "--", "--help"]);
    let app = run_of(Arguments::from_parser(parser, true).unwrap());
    assert_eq!(app.cmd, b"--help");
    assert!(app.args.is_empty());
}

#[test]
fn command_double_dash() {
    let parser = Parser::from_iter(["elapsed", "foo", "--", "bar"]);
    let app = run_of(Arguments::from_parser(parser, true).unwrap());
    assert_eq!(app.cmd, b"foo");
    assert_eq!(app.args, [b"--".to_vec(), b"bar".to_vec()]);
}

#[test]
fn short_options_in_a_cluster() {
    let parser = Parser::from_iter(["elapsed", "-tTS", "foo", "-t"]);
    let app = run_of(Arguments::from_parser(parser, true).unwrap());
    assert_eq!(app.cmd, b"foo");
    assert_eq!(app.args, [b"-t"]);
    assert!(app.total);
    assert!(app.tty);
    assert!(app.split_stderr);
}

#[test]
fn short_help_and_version() {
    let parser = Parser::from_iter(["elapsed", "-h"]);
    assert_eq!(
        Arguments::from_parser(parser, true).unwrap(),
        Arguments::Help
    );
    let parser = Parser::from_iter(["elapsed", "-tV"]);
    assert_eq!(
        Arguments::from_parser(parser, false).unwrap(),
        Arguments::Version
    );
}

#[test]
fn no_command_is_an_error() {
    let parser = Parser::from_iter(["elapsed"]);
    assert!(matches!(
        Arguments::from_parser(parser, true),
        Err(UsageError::NoCommand)
    ));
    let parser = Parser::from_iter(["elapsed", "--total", "--tty"]);
    assert!(matches!(
        Arguments::from_parser(parser, true),
        Err(UsageError::NoCommand)
    ));
}

#[test]
fn unknown_option_is_an_error() {
    let parser = Parser::from_iter(["elapsed", "--frobnicate", "foo"]);
    match Arguments::from_parser(parser, true) {
        Err(UsageError::UnexpectedOption(token)) => {
            assert_eq!(token, ArgToken::Long("frobnicate".into()))
        }
        other => panic!("not rejected: {other:?}"),
    }
    let parser = Parser::from_iter(["elapsed", "-x"]);
    match Arguments::from_parser(parser, true) {
        Err(UsageError::UnexpectedOption(token)) => assert_eq!(token, ArgToken::Short('x')),
        other => panic!("not rejected: {other:?}"),
    }
}

#[test]
fn option_with_value_is_an_error() {
    let parser = Parser::from_iter(["elapsed", "--total=yes", "foo"]);
    assert!(matches!(
        Arguments::from_parser(parser, true),
        Err(UsageError::Lexer(lexopt::Error::UnexpectedValue { .. }))
    ));
}

#[test]
fn unix_options_elsewhere_are_errors() {
    let parser = Parser::from_iter(["elapsed", "--tty", "foo"]);
    assert!(matches!(
        Arguments::from_parser(parser, false),
        Err(UsageError::Unsupported(Opt::Tty))
    ));
    let parser = Parser::from_iter(["elapsed", "-S", "foo"]);
    assert!(matches!(
        Arguments::from_parser(parser, false),
        Err(UsageError::Unsupported(Opt::SplitStderr))
    ));
    let parser = Parser::from_iter(["elapsed", "--total", "foo"]);
    let app = run_of(Arguments::from_parser(parser, false).unwrap());
    assert!(app.total && !app.tty && !app.split_stderr);
}

#[test]
fn decide_switches_options_on() {
    let none = Flags {
        total: false,
        tty: false,
        split_stderr: false,
    };
    match Arguments::decide(none, ArgToken::Long("tty".into()), true) {
        Decision::Options(f) => assert_eq!(f, Flags { tty: true, ..none }),
        other => panic!("{other:?}"),
    }
    match Arguments::decide(none, ArgToken::Short('S'), true) {
        Decision::Options(f) => assert_eq!(
            f,
            Flags {
                split_stderr: true,
                ..none
            }
        ),
        other => panic!("{other:?}"),
    }
    let all = Flags {
        total: true,
        tty: true,
        split_stderr: true,
    };
    match Arguments::decide(all, ArgToken::Short('t'), false) {
        Decision::Options(f) => assert_eq!(f, all),
        other => panic!("{other:?}"),
    }
    assert!(matches!(
        Arguments::decide(none, ArgToken::Value(b"ls".to_vec()), false),
        Decision::Command(cmd) if cmd == b"ls"
    ));
    assert!(matches!(
        Arguments::decide(none, ArgToken::Long("Total".into()), true),
        Decision::Reject(UsageError::UnexpectedOption(_))
    ));
}

#[test]
fn option_names() {
    assert_eq!(Arguments::short('S'), Some(Opt::SplitStderr));
    assert_eq!(Arguments::short('t'), Some(Opt::Total));
    assert_eq!(Arguments::short('T'), Some(Opt::Tty));
    assert_eq!(Arguments::short('h'), Some(Opt::Help));
    assert_eq!(Arguments::short('V'), Some(Opt::Version));
    assert_eq!(Arguments::short('v'), None);
    assert_eq!(
        Arguments::long(&"split-stderr".to_string()),
        Some(Opt::SplitStderr)
    );
    assert_eq!(Arguments::long(&"total".to_string()), Some(Opt::Total));
    assert_eq!(Arguments::long(&"tty".to_string()), Some(Opt::Tty));
    assert_eq!(Arguments::long(&"help".to_string()), Some(Opt::Help));
    assert_eq!(Arguments::long(&"version".to_string()), Some(Opt::Version));
    assert_eq!(Arguments::long(&"t".to_string()), None);
}
