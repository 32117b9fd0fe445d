//! The supervisor's command line: its own options, then the command to run
//! and that command's arguments, which are taken as they come.

use crate::spawn::Elapsed;
use vstd::prelude::*;
use vstd::string::StringExecFns;

verus! {

/// The command-line lexer of the `lexopt` crate. Nothing is known of what
/// it holds.
#[verifier::external_type_specification]
#[verifier::external_body]
pub struct ExParser(lexopt::Parser);

/// The error type of the `lexopt` crate. Nothing is known of what it holds.
#[verifier::external_type_specification]
#[verifier::external_body]
pub struct ExLexError(lexopt::Error);

/// What a call of `Parser::next` gives: an item of the command line, or a
/// refusal.
pub enum ItemView {
    /// A short option, without its dash.
    Short(char),
    /// A long option, without its dashes.
    Long(Seq<char>),
    /// An argument that is no option, as the bytes it came in, together
    /// with the arguments behind it, which the lexer has not looked at.
    Value { bytes: Seq<u8>, rest: Seq<Seq<u8>> },
    /// The lexer returned an error.
    Rejected,
}

/// What a lexer has yet to hand out: the results of the calls of
/// `Parser::next` from here on, one after the other, up to the call that
/// reports the end of the command line.
pub uninterp spec fn parser_items(parser: lexopt::Parser) -> Seq<ItemView>;

/// The arguments that a lexer has not looked at yet, each as its bytes.
pub uninterp spec fn parser_raw(parser: lexopt::Parser) -> Seq<Seq<u8>>;

/// The lexer is in the middle of an argument: behind an option that came
/// with a value, or inside a cluster of short options.
pub uninterp spec fn parser_has_pending(parser: lexopt::Parser) -> bool;

/// One item of a command line.
#[derive(Clone, Debug, PartialEq, Eq)]
pub enum ArgToken {
    /// A short option, without its dash.
    Short(char),
    /// A long option, without its dashes.
    Long(String),
    /// An argument that is no option, as the bytes it came in.
    Value(Vec<u8>),
}

/// The item that a token stands for where `rest` is what follows it.
pub open spec fn item_of(token: ArgToken, rest: Seq<Seq<u8>>) -> ItemView {
    match token {
        ArgToken::Short(c) => ItemView::Short(c),
        ArgToken::Long(name) => ItemView::Long(name@),
        ArgToken::Value(bytes) => ItemView::Value { bytes: bytes@, rest },
    }
}

/// The option that a token names, if it names one of the supervisor's.
pub open spec fn token_option(token: ArgToken) -> Option<Opt> {
    match token {
        ArgToken::Short(c) => short_option(c),
        ArgToken::Long(name) => long_option(name@),
        ArgToken::Value(_) => None,
    }
}

/// An option of the supervisor.
#[derive(Clone, Copy, Debug, PartialEq, Eq, Structural)]
pub enum Opt {
    /// `-S`, `--split-stderr`
    SplitStderr,
    /// `-t`, `--total`
    Total,
    /// `-T`, `--tty`
    Tty,
    /// `-h`, `--help`
    Help,
    /// `-V`, `--version`
    Version,
}

/// Why a command line was rejected.
#[derive(Debug)]
pub enum UsageError {
    /// It names no command.
    NoCommand,
    /// It asks for what this platform does not offer.
    Unsupported(Opt),
    /// It holds an option that the supervisor does not know.
    UnexpectedOption(ArgToken),
    /// The lexer rejected it.
    Lexer(lexopt::Error),
}

/// The options seen so far.
#[derive(Clone, Copy, Debug, PartialEq, Eq, Structural)]
pub struct Flags {
    pub total: bool,
    pub tty: bool,
    pub split_stderr: bool,
}

/// What one item of the command line leads to.
#[derive(Debug)]
pub enum Decision {
    /// Go on, with these options.
    Options(Flags),
    /// Show the help text and stop.
    Help,
    /// Show the version and stop.
    Version,
    /// This is the command; what follows are its arguments.
    Command(Vec<u8>),
    /// Stop with this error.
    Reject(UsageError),
}

/// What the supervisor is asked to do.
#[derive(Clone, Debug, PartialEq, Eq)]
pub enum Arguments {
    /// Run a command.
    Run(Elapsed),
    /// Show the help text.
    Help,
    /// Show the version.
    Version,
}

/// The option that a short name stands for.
pub open spec fn short_option(c: char) -> Option<Opt> {
    if c == 'S' {
        Some(Opt::SplitStderr)
    } else if c == 't' {
        Some(Opt::Total)
    } else if c == 'T' {
        Some(Opt::Tty)
    } else if c == 'h' {
        Some(Opt::Help)
    } else if c == 'V' {
        Some(Opt::Version)
    } else {
        None
    }
}

/// The option that a long name stands for.
pub open spec fn long_option(name: Seq<char>) -> Option<Opt> {
    if name == "split-stderr"@ {
        Some(Opt::SplitStderr)
    } else if name == "total"@ {
        Some(Opt::Total)
    } else if name == "tty"@ {
        Some(Opt::Tty)
    } else if name == "help"@ {
        Some(Opt::Help)
    } else if name == "version"@ {
        Some(Opt::Version)
    } else {
        None
    }
}

/// The option that an item of the command line names, if it names one of
/// the supervisor's.
pub open spec fn option_of(item: ItemView) -> Option<Opt> {
    match item {
        ItemView::Short(c) => short_option(c),
        ItemView::Long(name) => long_option(name),
        _ => None,
    }
}

/// The option is one that only a Unix system offers.
pub open spec fn unix_only(opt: Opt) -> bool {
    opt is SplitStderr || opt is Tty
}

/// `flags` with `opt` switched on.
pub open spec fn with_option(flags: Flags, opt: Opt) -> Flags {
    match opt {
        Opt::SplitStderr => Flags { split_stderr: true, ..flags },
        Opt::Total => Flags { total: true, ..flags },
        Opt::Tty => Flags { tty: true, ..flags },
        _ => flags,
    }
}

/// What a command line comes to.
pub enum Parsed {
    /// Run this command with these arguments and options.
    Run { cmd: Seq<u8>, args: Seq<Seq<u8>>, flags: Flags },
    /// Show the help text.
    Help,
    /// Show the version.
    Version,
    /// No command was named.
    NoCommand,
    /// An option was asked for that this platform does not offer.
    Unsupported(Opt),
    /// An option was given that the supervisor does not know.
    Unexpected(ItemView),
    /// The lexer refused an item.
    Refused,
}

/// No option switched on.
pub open spec fn no_flags() -> Flags {
    Flags { total: false, tty: false, split_stderr: false }
}

/// What the items of a command line come to, read from the left with
/// `flags` switched on already. The first item that is no plain option
/// decides, and nothing behind it is looked at.
pub open spec fn parse_items(items: Seq<ItemView>, flags: Flags, unix: bool) -> Parsed
    decreases items.len(),
{
    if items.len() == 0 {
        Parsed::NoCommand
    } else {
        match items[0] {
            ItemView::Rejected => Parsed::Refused,
            ItemView::Value { bytes, rest } => Parsed::Run { cmd: bytes, args: rest, flags },
            item => match option_of(item) {
                Some(Opt::Help) => Parsed::Help,
                Some(Opt::Version) => Parsed::Version,
                Some(opt) => if unix_only(opt) && !unix {
                    Parsed::Unsupported(opt)
                } else {
                    parse_items(items.drop_first(), with_option(flags, opt), unix)
                },
                None => Parsed::Unexpected(item),
            },
        }
    }
}

/// The next item of the command line: `Parser::next` of `lexopt`, with the
/// item it hands out copied into an [`ArgToken`].
///
/// The result is the first of what the lexer had yet to hand out, and the
/// rest is what it has yet to hand out afterwards. The end of the command
/// line is reported when nothing is left. After an argument that is no
/// option the lexer is not in the middle of anything, and what it has not
/// looked at is what follows that argument.
#[verifier::external_body]
fn next_arg(parser: &mut lexopt::Parser) -> (r: Result<Option<ArgToken>, lexopt::Error>)
    ensures
        match r {
            Ok(Some(token)) => parser_items(*old(parser)).len() > 0 && parser_items(
                *old(parser),
            )[0] == item_of(token, parser_raw(*final(parser))) && parser_items(*final(parser))
                == parser_items(*old(parser)).drop_first(),
            Ok(None) => parser_items(*old(parser)).len() == 0,
            Err(_) => parser_items(*old(parser)).len() > 0 && parser_items(*old(parser))[0]
                is Rejected && parser_items(*final(parser)) == parser_items(
                *old(parser),
            ).drop_first(),
        },
        r matches Ok(Some(ArgToken::Value(_))) ==> !parser_has_pending(*final(parser)),
{
    match parser.next()? {
        Some(lexopt::Arg::Short(c)) => Ok(Some(ArgToken::Short(c))),
        Some(lexopt::Arg::Long(name)) => Ok(Some(ArgToken::Long(name.to_owned()))),
        Some(lexopt::Arg::Value(v)) => Ok(Some(ArgToken::Value(v.into_encoded_bytes()))),
        None => Ok(None),
    }
}

/// All the arguments that the lexer has not looked at yet, as they are:
/// `Parser::raw_args` of `lexopt`, with each argument copied into its bytes.
///
/// The call succeeds unless the lexer is in the middle of an argument.
#[verifier::external_body]
fn rest_of_args(parser: &mut lexopt::Parser) -> (r: Result<Vec<Vec<u8>>, lexopt::Error>)
    ensures
        !parser_has_pending(*old(parser)) ==> r is Ok,
        r matches Ok(args) ==> args.deep_view() == parser_raw(*old(parser)),
{
    let mut args = Vec::new();
    for arg in parser.raw_args()? {
        args.push(arg.into_encoded_bytes());
    }
    Ok(args)
}

impl Arguments {
    /// What one item of the command line leads to, given the options seen
    /// before it and whether this is a Unix system.
    ///
    /// An option of the supervisor is switched on, or answered at once where
    /// it asks for help or the version; one that only Unix offers is
    /// rejected elsewhere. Any other option is rejected. The first item that
    /// is no option is the command.
    pub fn decide(flags: Flags, token: ArgToken, unix: bool) -> (d: Decision)
        ensures
            match token_option(token) {
                Some(Opt::Help) => d is Help,
                Some(Opt::Version) => d is Version,
                Some(opt) => if unix_only(opt) && !unix {
                    d matches Decision::Reject(UsageError::Unsupported(o)) && o == opt
                } else {
                    d matches Decision::Options(f) && f == with_option(flags, opt)
                },
                None => match token {
                    ArgToken::Value(cmd) => d matches Decision::Command(c) && c == cmd,
                    _ => d matches Decision::Reject(UsageError::UnexpectedOption(t)) && t
                        == token,
                },
            },
    {
        let opt = match &token {
            ArgToken::Short(c) => Arguments::short(*c),
            ArgToken::Long(name) => Arguments::long(name),
            ArgToken::Value(_) => None,
        };
        match opt {
            Some(Opt::Help) => Decision::Help,
            Some(Opt::Version) => Decision::Version,
            Some(Opt::Total) => Decision::Options(Flags { total: true, ..flags }),
            Some(Opt::Tty) => if unix {
                Decision::Options(Flags { tty: true, ..flags })
            } else {
                Decision::Reject(UsageError::Unsupported(Opt::Tty))
            },
            Some(Opt::SplitStderr) => if unix {
                Decision::Options(Flags { split_stderr: true, ..flags })
            } else {
                Decision::Reject(UsageError::Unsupported(Opt::SplitStderr))
            },
            None => match token {
                ArgToken::Value(cmd) => Decision::Command(cmd),
                other => Decision::Reject(UsageError::UnexpectedOption(other)),
            },
        }
    }

    /// The option that a short name stands for.
    pub fn short(c: char) -> (opt: Option<Opt>)
        ensures
            opt == short_option(c),
    {
        if c == 'S' {
            Some(Opt::SplitStderr)
        } else if c == 't' {
            Some(Opt::Total)
        } else if c == 'T' {
            Some(Opt::Tty)
        } else if c == 'h' {
            Some(Opt::Help)
        } else if c == 'V' {
            Some(Opt::Version)
        } else {
            None
        }
    }

    /// The option that a long name stands for.
    pub fn long(name: &String) -> (opt: Option<Opt>)
        ensures
            opt == long_option(name@),
    {
        if *name == String::from_str("split-stderr") {
            Some(Opt::SplitStderr)
        } else if *name == String::from_str("total") {
            Some(Opt::Total)
        } else if *name == String::from_str("tty") {
            Some(Opt::Tty)
        } else if *name == String::from_str("help") {
            Some(Opt::Help)
        } else if *name == String::from_str("version") {
            Some(Opt::Version)
        } else {
            None
        }
    }

    /// Reads a command line from a lexer.
    ///
    /// Items are taken until one decides: a request for help or the
    /// version, the command, or an error. Once the command is found,
    /// everything behind it is its arguments, options or not, and is taken
    /// as it is. A command line that ends before a command was found is
    /// rejected.
    pub fn from_parser(parser: lexopt::Parser, unix: bool) -> (r: Result<Arguments, UsageError>)
        ensures
            match parse_items(parser_items(parser), no_flags(), unix) {
                Parsed::Run { cmd, args, flags } => r matches Ok(Arguments::Run(app)) && app.cmd@
                    == cmd && app.args.deep_view() == args && app.total == flags.total && app.tty
                    == flags.tty && app.split_stderr == flags.split_stderr,
                Parsed::Help => r == Ok::<Arguments, UsageError>(Arguments::Help),
                Parsed::Version => r == Ok::<Arguments, UsageError>(Arguments::Version),
                Parsed::NoCommand => r matches Err(UsageError::NoCommand),
                Parsed::Unsupported(opt) => r matches Err(UsageError::Unsupported(o)) && o == opt,
                Parsed::Unexpected(item) => r matches Err(UsageError::UnexpectedOption(t))
                    && item_of(t, Seq::empty()) == item,
                Parsed::Refused => r matches Err(UsageError::Lexer(_)),
            },
            r matches Ok(Arguments::Run(app)) ==> (app.tty || app.split_stderr ==> unix),
    {
        let mut lexer = parser;
        let mut flags = Flags { total: false, tty: false, split_stderr: false };
        loop
            invariant
                flags.tty || flags.split_stderr ==> unix,
                parse_items(parser_items(lexer), flags, unix) == parse_items(
                    parser_items(parser),
                    no_flags(),
                    unix,
                ),
            decreases parser_items(lexer).len(),
        {
            let token = match next_arg(&mut lexer) {
                Ok(Some(token)) => token,
                Ok(None) => {
                    return Err(UsageError::NoCommand);
                },
                Err(e) => {
                    return Err(UsageError::Lexer(e));
                },
            };
            match Arguments::decide(flags, token, unix) {
                Decision::Options(f) => {
                    flags = f;
                },
                Decision::Help => {
                    return Ok(Arguments::Help);
                },
                Decision::Version => {
                    return Ok(Arguments::Version);
                },
                Decision::Command(cmd) => {
                    return match rest_of_args(&mut lexer) {
                        Ok(args) => Ok(
                            Arguments::Run(
                                Elapsed {
                                    cmd,
                                    args,
                                    total: flags.total,
                                    tty: flags.tty,
                                    split_stderr: flags.split_stderr,
                                },
                            ),
                        ),
                        Err(e) => Err(UsageError::Lexer(e)),
                    };
                },
                Decision::Reject(e) => {
                    return Err(e);
                },
            }
        }
    }
}

} // verus!
