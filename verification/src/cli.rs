//! The command line.

use crate::import_ssh::ImportSsh;
use crate::text::{chain, opt_text, same_text, texts};
use vstd::prelude::*;
use vstd::utf8::{
    decode_utf8, encode_utf8, encode_utf8_decode_utf8, encode_utf8_valid_utf8, is_ascii_chars,
    is_ascii_chars_encode_utf8, valid_utf8,
};

verus! {

/// `lexopt::Parser`: the arguments of a command line, taken one after the other.
#[verifier::external_type_specification]
#[verifier::external_body]
pub struct ExParser(lexopt::Parser);

/// The arguments that a `lexopt::Parser` has not taken yet, as bytes.
pub uninterp spec fn rest_of(parser: lexopt::Parser) -> Seq<Seq<u8>>;

/// The value that stands behind the last long option and its `=`, if nobody took it
/// yet, with that option and its dashes.
pub uninterp spec fn pending_of(parser: lexopt::Parser) -> Option<(Seq<char>, Seq<u8>)>;

/// Whether a `lexopt::Parser` has come to `--`: only values follow.
pub uninterp spec fn is_past_options(parser: lexopt::Parser) -> bool;

/// Whether a `lexopt::Parser` is inside an argument of short options.
pub uninterp spec fn is_inside_shorts(parser: lexopt::Parser) -> bool;

/// The name that `lexopt` gives to a long option whose name is not UTF-8, from its
/// bytes without the dashes and the value.
pub uninterp spec fn lossy_name_of(name: Seq<u8>) -> Seq<char>;

/// The first short option that `lexopt` finds in an argument.
pub uninterp spec fn short_name_of(arg: Seq<u8>) -> char;

/// Where a command line is being read.
#[verifier::ext_equal]
pub struct ArgsView {
    pub rest: Seq<Seq<u8>>,
    pub pending: Option<(Seq<char>, Seq<u8>)>,
    pub past_options: bool,
}

/// Where a parser is.
pub open spec fn args_of(parser: lexopt::Parser) -> ArgsView {
    ArgsView {
        rest: rest_of(parser),
        pending: pending_of(parser),
        past_options: is_past_options(parser),
    }
}

/// What comes next on a command line.
#[derive(Debug)]
pub enum NextArg {
    Done,
    Long(String),
    Short(char),
    Value(Vec<u8>),
    /// The option before has a value that it does not take.
    Unexpected(String, Vec<u8>),
}

/// What comes next on a command line.
pub enum NextView {
    Done,
    Long(Seq<char>),
    Short(char),
    Value(Seq<u8>),
    Unexpected(Seq<char>, Seq<u8>),
}

impl NextArg {
    /// What comes next, as texts and bytes.
    pub open spec fn view(&self) -> NextView {
        match self {
            NextArg::Done => NextView::Done,
            NextArg::Long(name) => NextView::Long(name@),
            NextArg::Short(c) => NextView::Short(*c),
            NextArg::Value(value) => NextView::Value(value@),
            NextArg::Unexpected(option, value) => NextView::Unexpected(option@, value@),
        }
    }
}

/// The bytes of a text.
pub open spec fn bytes_of(text: Seq<char>) -> Seq<u8> {
    encode_utf8(text)
}

/// The place of the first `=`, or the length where there is none.
pub open spec fn equals_sign(arg: Seq<u8>, from: int) -> int
    decreases arg.len() - from,
{
    if from < 0 || from >= arg.len() || arg[from] == 61 {
        from
    } else {
        equals_sign(arg, from + 1)
    }
}

/// Whether an argument is a long option: two dashes and more.
pub open spec fn is_long(arg: Seq<u8>) -> bool {
    arg.len() > 2 && arg[0] == 45 && arg[1] == 45
}

/// Whether an argument is one of short options: a dash and more.
pub open spec fn is_short(arg: Seq<u8>) -> bool {
    arg.len() > 1 && arg[0] == 45 && arg[1] != 45
}

/// The name that some bytes give to a long option: the text that they are, or a
/// name with replacement characters where they are no text.
pub open spec fn long_name(name: Seq<u8>) -> Seq<char> {
    if valid_utf8(name) {
        decode_utf8(name)
    } else {
        lossy_name_of(name)
    }
}

/// The name of a long option.
pub open spec fn long_option(arg: Seq<u8>) -> Seq<char> {
    long_name(arg.subrange(2, equals_sign(arg, 2)))
}

/// An option that is given as text is known by that text.
pub proof fn options_are_known_by_their_names(name: Seq<char>)
    ensures
        long_name(bytes_of(name)) == name,
{
    encode_utf8_valid_utf8(name);
    encode_utf8_decode_utf8(name);
}

/// What comes next, and where the command line is then.
pub open spec fn next_of(args: ArgsView) -> (NextView, ArgsView) {
    match args.pending {
        Some((option, value)) => (
            NextView::Unexpected(option, value),
            ArgsView { pending: None, ..args },
        ),
        None => if args.rest.len() == 0 {
            (NextView::Done, args)
        } else {
            let arg = args.rest[0];
            let after = ArgsView { rest: args.rest.skip(1), ..args };
            if args.past_options {
                (NextView::Value(arg), after)
            } else if arg == seq![45u8, 45u8] {
                let past = ArgsView { past_options: true, ..after };
                if past.rest.len() == 0 {
                    (NextView::Done, past)
                } else {
                    (
                        NextView::Value(past.rest[0]),
                        ArgsView { rest: past.rest.skip(1), ..past },
                    )
                }
            } else if is_long(arg) {
                let sign = equals_sign(arg, 2);
                let pending = if sign < arg.len() {
                    Some(("--"@ + long_option(arg), arg.skip(sign + 1)))
                } else {
                    None
                };
                (NextView::Long(long_option(arg)), ArgsView { pending, ..after })
            } else if is_short(arg) {
                (NextView::Short(short_name_of(arg)), after)
            } else {
                (NextView::Value(arg), after)
            }
        },
    }
}

/// Calls `lexopt::Parser::next`. The contract says what its documentation and its
/// source say of a Unix command line: a value that was left behind its option is
/// an error, `--` ends the options, `--name` and `--name=value` are long options,
/// an argument with one dash holds short options, and all else is a value. A name
/// that is UTF-8 is taken as it is, and any other holds a replacement character.
/// It says nothing of the parser after a short option.
#[verifier::external_body]
fn next_arg(parser: &mut lexopt::Parser) -> (next: NextArg)
    requires
        !is_inside_shorts(*old(parser)),
    ensures
        next@ == next_of(args_of(*old(parser))).0,
        !(next is Short) ==> rest_of(*final(parser)) == next_of(args_of(*old(parser))).1.rest
            && pending_of(*final(parser)) == next_of(args_of(*old(parser))).1.pending
            && is_past_options(*final(parser)) == next_of(
            args_of(*old(parser)),
        ).1.past_options && !is_inside_shorts(*final(parser)),
        next matches NextArg::Long(name) ==> ({
            let arg = rest_of(*old(parser))[0];
            let given = arg.subrange(2, equals_sign(arg, 2));
            &&& valid_utf8(given) ==> name@ == decode_utf8(given)
            &&& !valid_utf8(given) ==> name@ == lossy_name_of(given) && name@.contains('\u{FFFD}')
        }),
        next matches NextArg::Short(c) ==> c == short_name_of(rest_of(*old(parser))[0]),
{
    match parser.next() {
        Ok(None) => NextArg::Done,
        Ok(Some(lexopt::Arg::Long(name))) => NextArg::Long(name.to_string()),
        Ok(Some(lexopt::Arg::Short(c))) => NextArg::Short(c),
        Ok(Some(lexopt::Arg::Value(value))) => NextArg::Value(value.into_encoded_bytes()),
        Err(lexopt::Error::UnexpectedValue { option, value }) => NextArg::Unexpected(
            option,
            value.into_encoded_bytes(),
        ),
        Err(error) => NextArg::Unexpected(error.to_string(), Vec::new()),
    }
}

/// The value of an option, and where the command line is then: what stands behind
/// its `=`, or else the next argument.
pub open spec fn value_of(args: ArgsView) -> Option<(Seq<u8>, ArgsView)> {
    match args.pending {
        Some((_, value)) => Some((value, ArgsView { pending: None, ..args })),
        None => if args.rest.len() == 0 {
            None
        } else {
            Some((args.rest[0], ArgsView { rest: args.rest.skip(1), ..args }))
        },
    }
}

/// Calls `lexopt::Parser::value`. The contract says that it takes the value that is
/// attached to the option, or else the next argument, and fails where there is
/// none.
#[verifier::external_body]
fn next_value(parser: &mut lexopt::Parser) -> (value: Option<Vec<u8>>)
    requires
        !is_inside_shorts(*old(parser)),
    ensures
        match value_of(args_of(*old(parser))) {
            Some((expected, after)) => value matches Some(bytes) && bytes@ == expected && rest_of(
                *final(parser),
            ) == after.rest && pending_of(*final(parser)) == after.pending && is_past_options(
                *final(parser),
            ) == after.past_options,
            None => value is None,
        },
        !is_inside_shorts(*final(parser)),
{
    parser.value().ok().map(|value| value.into_encoded_bytes())
}

/// Calls `lexopt::Parser::from_args`. The contract says that the parser is before
/// the first of the arguments.
#[verifier::external_body]
fn parser_of(args: Vec<String>) -> (parser: lexopt::Parser)
    ensures
        rest_of(parser) == fresh_args(texts(args@)).rest,
        pending_of(parser) is None,
        !is_past_options(parser),
        !is_inside_shorts(parser),
{
    lexopt::Parser::from_args(args)
}

/// A command line before its first argument.
pub open spec fn fresh_args(args: Seq<Seq<char>>) -> ArgsView {
    ArgsView {
        rest: args.map_values(|arg: Seq<char>| bytes_of(arg)),
        pending: None,
        past_options: false,
    }
}

/// Calls `String::from_utf8`. The contract says what its documentation says: the
/// bytes as text where they are UTF-8, and the bytes again where they are not.
#[verifier::external_body]
fn text_of_utf8(bytes: Vec<u8>) -> (text: Result<String, Vec<u8>>)
    ensures
        match text {
            Ok(text) => valid_utf8(bytes@) && text@ == decode_utf8(bytes@),
            Err(same) => !valid_utf8(bytes@) && same@ == bytes@,
        },
{
    String::from_utf8(bytes).map_err(|error| error.into_bytes())
}

/// What is wrong with a command line.
#[derive(Debug)]
pub enum CliError {
    /// The option needs a value.
    MissingValue(String),
    /// There is no such option.
    UnexpectedOption(String),
    /// There is an argument too many.
    UnexpectedArgument(Vec<u8>),
    /// The option takes no value.
    UnexpectedValue(String, Vec<u8>),
    /// The value is not text.
    NonUnicodeValue(Vec<u8>),
    /// `import-ssh` needs a source.
    MissingSource,
}

/// What is wrong with a command line.
pub enum CliErrorView {
    MissingValue(Seq<char>),
    UnexpectedOption(Seq<char>),
    UnexpectedArgument(Seq<u8>),
    UnexpectedValue(Seq<char>, Seq<u8>),
    NonUnicodeValue(Seq<u8>),
    MissingSource,
}

impl CliError {
    /// The error, as texts and bytes.
    pub open spec fn view(&self) -> CliErrorView {
        match self {
            CliError::MissingValue(option) => CliErrorView::MissingValue(option@),
            CliError::UnexpectedOption(option) => CliErrorView::UnexpectedOption(option@),
            CliError::UnexpectedArgument(value) => CliErrorView::UnexpectedArgument(value@),
            CliError::UnexpectedValue(option, value) => CliErrorView::UnexpectedValue(
                option@,
                value@,
            ),
            CliError::NonUnicodeValue(value) => CliErrorView::NonUnicodeValue(value@),
            CliError::MissingSource => CliErrorView::MissingSource,
        }
    }
}

/// The options of the server.
#[derive(Debug)]
pub struct BridgeCli {
    pub bind: String,
    pub varlink_sockets_path: String,
    pub cert: Option<String>,
    pub key: Option<String>,
    pub trust: Option<String>,
    pub authorized_keys: Option<String>,
    pub insecure: bool,
}

/// The options of the server.
pub struct BridgeView {
    pub bind: Seq<char>,
    pub varlink_sockets_path: Seq<char>,
    pub cert: Option<Seq<char>>,
    pub key: Option<Seq<char>>,
    pub trust: Option<Seq<char>>,
    pub authorized_keys: Option<Seq<char>>,
    pub insecure: bool,
}

impl BridgeCli {
    /// The options as texts.
    pub open spec fn view(&self) -> BridgeView {
        BridgeView {
            bind: self.bind@,
            varlink_sockets_path: self.varlink_sockets_path@,
            cert: opt_text(self.cert),
            key: opt_text(self.key),
            trust: opt_text(self.trust),
            authorized_keys: opt_text(self.authorized_keys),
            insecure: self.insecure,
        }
    }
}

/// What to do.
#[derive(Debug)]
pub enum Command {
    Bridge(BridgeCli),
    ImportSsh(ImportSsh),
    /// Print the help.
    Help,
    /// Print the help of `import-ssh`.
    ImportSshHelp,
}

/// What to do.
pub enum CommandView {
    Bridge(BridgeView),
    ImportSsh(Seq<char>, Option<Seq<char>>),
    Help,
    ImportSshHelp,
}

impl Command {
    /// The command as texts.
    pub open spec fn view(&self) -> CommandView {
        match self {
            Command::Bridge(cli) => CommandView::Bridge(cli@),
            Command::ImportSsh(import) => CommandView::ImportSsh(
                import.source@,
                opt_text(import.output),
            ),
            Command::Help => CommandView::Help,
            Command::ImportSshHelp => CommandView::ImportSshHelp,
        }
    }
}

/// A command, or what is wrong with the command line.
pub open spec fn command_result(command: Result<Command, CliError>) -> Result<
    CommandView,
    CliErrorView,
> {
    match command {
        Ok(command) => Ok(command@),
        Err(error) => Err(error@),
    }
}

/// Some bytes as text.
pub open spec fn utf8_text(bytes: Seq<u8>) -> Result<Seq<char>, CliErrorView> {
    if valid_utf8(bytes) {
        Ok(decode_utf8(bytes))
    } else {
        Err(CliErrorView::NonUnicodeValue(bytes))
    }
}

/// Whether an option of the server takes a value.
pub open spec fn takes_value(name: Seq<char>) -> bool {
    name == "bind"@ || name == "cert"@ || name == "key"@ || name == "trust"@ || name
        == "authorized-keys"@
}

/// The options after one was given a value.
pub open spec fn with_value(cli: BridgeView, name: Seq<char>, text: Seq<char>) -> BridgeView {
    if name == "bind"@ {
        BridgeView { bind: text, ..cli }
    } else if name == "cert"@ {
        BridgeView { cert: Some(text), ..cli }
    } else if name == "key"@ {
        BridgeView { key: Some(text), ..cli }
    } else if name == "trust"@ {
        BridgeView { trust: Some(text), ..cli }
    } else {
        BridgeView { authorized_keys: Some(text), ..cli }
    }
}

/// How much of a command line is left.
pub open spec fn left(args: ArgsView) -> nat {
    if args.pending is Some {
        args.rest.len() * 2 + 1
    } else {
        args.rest.len() * 2
    }
}

/// What the rest of a command line of `import-ssh` asks for: first comes the
/// source, then the output.
pub open spec fn import_command(
    args: ArgsView,
    source: Option<Seq<char>>,
    output: Option<Seq<char>>,
) -> Result<CommandView, CliErrorView>
    decreases left(args),
{
    let (next, after) = next_of(args);
    match next {
        NextView::Unexpected(option, value) => Err(CliErrorView::UnexpectedValue(option, value)),
        NextView::Done => match source {
            Some(source) => Ok(CommandView::ImportSsh(source, output)),
            None => Err(CliErrorView::MissingSource),
        },
        NextView::Long(name) => if name == "help"@ {
            Ok(CommandView::ImportSshHelp)
        } else {
            Err(CliErrorView::UnexpectedOption("--"@ + name))
        },
        NextView::Short(c) => Err(CliErrorView::UnexpectedOption("-"@ + seq![c])),
        NextView::Value(value) => if source is Some && output is Some {
            Err(CliErrorView::UnexpectedArgument(value))
        } else {
            match utf8_text(value) {
                Err(error) => Err(error),
                Ok(text) => if source is None {
                    import_command(after, Some(text), output)
                } else {
                    import_command(after, source, Some(text))
                },
            }
        },
    }
}

/// What the rest of a command line asks for, after some options and, if
/// `positional`, the path of the sockets. A later option overrides an earlier one.
pub open spec fn bridge_command(args: ArgsView, cli: BridgeView, positional: bool) -> Result<
    CommandView,
    CliErrorView,
>
    decreases left(args),
{
    let (next, after) = next_of(args);
    match next {
        NextView::Unexpected(option, value) => Err(CliErrorView::UnexpectedValue(option, value)),
        NextView::Done => Ok(CommandView::Bridge(cli)),
        NextView::Long(name) => if takes_value(name) {
            match value_of(after) {
                None => Err(CliErrorView::MissingValue("--"@ + name)),
                Some((value, then)) => match utf8_text(value) {
                    Err(error) => Err(error),
                    Ok(text) => bridge_command(then, with_value(cli, name, text), positional),
                },
            }
        } else if name == "insecure"@ {
            bridge_command(after, BridgeView { insecure: true, ..cli }, positional)
        } else if name == "help"@ {
            Ok(CommandView::Help)
        } else {
            Err(CliErrorView::UnexpectedOption("--"@ + name))
        },
        NextView::Short(c) => Err(CliErrorView::UnexpectedOption("-"@ + seq![c])),
        NextView::Value(value) => if positional {
            Err(CliErrorView::UnexpectedArgument(value))
        } else if value == bytes_of("import-ssh"@) {
            import_command(after, None, None)
        } else if value == bytes_of("bridge"@) {
            bridge_command(after, cli, false)
        } else {
            match utf8_text(value) {
                Err(error) => Err(error),
                Ok(text) => bridge_command(
                    after,
                    BridgeView { varlink_sockets_path: text, ..cli },
                    true,
                ),
            }
        },
    }
}

/// The options that hold when none is given.
pub open spec fn default_options() -> BridgeView {
    BridgeView {
        bind: "0.0.0.0:1031"@,
        varlink_sockets_path: "/run/varlink/registry"@,
        cert: None,
        key: None,
        trust: None,
        authorized_keys: None,
        insecure: false,
    }
}

/// What a command line asks for.
pub open spec fn command_of(args: ArgsView) -> Result<CommandView, CliErrorView> {
    bridge_command(args, default_options(), false)
}

proof fn equals_sign_is_first(arg: Seq<u8>, from: int, at: int)
    requires
        0 <= from <= at <= arg.len(),
        forall|i: int| from <= i < at ==> #[trigger] arg[i] != 61,
        at < arg.len() ==> arg[at] == 61,
    ensures
        equals_sign(arg, from) == at,
    decreases at - from,
{
    if from < at {
        equals_sign_is_first(arg, from + 1, at);
    }
}

/// An option's value may stand behind it, with `=` between them or as an argument
/// of its own: `--name=value` and `--name value` ask for the same.
pub proof fn values_may_be_attached(
    name: Seq<u8>,
    value: Seq<u8>,
    rest: Seq<Seq<u8>>,
    cli: BridgeView,
    positional: bool,
)
    requires
        name.len() > 0,
        !name.contains(61u8),
        takes_value(long_name(name)),
    ensures
        ({
            let dashes = seq![45u8, 45u8];
            let attached = seq![dashes + name + seq![61u8] + value] + rest;
            let separate = seq![dashes + name, value] + rest;
            bridge_command(
                (ArgsView { rest: attached, pending: None, past_options: false }),
                cli,
                positional,
            ) == bridge_command(
                (ArgsView { rest: separate, pending: None, past_options: false }),
                cli,
                positional,
            )
        }),
{
    let dashes = seq![45u8, 45u8];
    let one = dashes + name + seq![61u8] + value;
    let two = dashes + name;
    let attached = seq![one] + rest;
    let separate = seq![two, value] + rest;
    let at = 2 + name.len() as int;
    assert forall|i: int| 2 <= i < at implies #[trigger] one[i] != 61 by {
        assert(one[i] == name[i - 2]);
    }
    assert forall|i: int| 2 <= i < at implies #[trigger] two[i] != 61 by {
        assert(two[i] == name[i - 2]);
    }
    equals_sign_is_first(one, 2, at);
    equals_sign_is_first(two, 2, at);
    assert(one.subrange(2, at) == name);
    assert(two.subrange(2, at) == name);
    assert(one.skip(at + 1) == value);
    assert(one.len() > 2 && two.len() > 2);
    assert(attached.skip(1) == rest);
    assert(separate.skip(1) == seq![value] + rest);
    assert((seq![value] + rest).skip(1) == rest);
    let first = ArgsView { rest: attached, pending: None, past_options: false };
    let second = ArgsView { rest: separate, pending: None, past_options: false };
    let then = ArgsView { rest, pending: None, past_options: false };
    assert(first.rest[0] == one && second.rest[0] == two);
    assert(value_of(next_of(first).1) == Some((value, then)));
    assert(value_of(next_of(second).1) == Some((value, then)));
}

fn same_bytes(a: &Vec<u8>, b: &[u8]) -> (same: bool)
    ensures
        same == (a@ == b@),
{
    if a.len() != b.len() {
        return false;
    }
    let mut i: usize = 0;
    while i < a.len()
        invariant
            i <= a@.len(),
            a@.len() == b@.len(),
            forall|j: int| 0 <= j < i ==> a@[j] == b@[j],
        decreases a@.len() - i,
    {
        if a[i] != b[i] {
            return false;
        }
        i = i + 1;
    }
    assert(a@ == b@);
    true
}

fn unicode_text(bytes: Vec<u8>) -> (text: Result<String, CliError>)
    ensures
        match utf8_text(bytes@) {
            Ok(expected) => text matches Ok(t) && t@ == expected,
            Err(expected) => text matches Err(e) && e@ == expected,
        },
{
    match text_of_utf8(bytes) {
        Ok(text) => Ok(text),
        Err(bytes) => Err(CliError::NonUnicodeValue(bytes)),
    }
}

/// Reads the rest of a command line of `import-ssh`.
pub fn parse_import_ssh_args(parser: &mut lexopt::Parser) -> (command: Result<Command, CliError>)
    requires
        !is_inside_shorts(*old(parser)),
    ensures
        command_result(command) == import_command(args_of(*old(parser)), None, None),
{
    let ghost expected = import_command(args_of(*parser), None, None);
    let mut source: Option<String> = None;
    let mut output: Option<String> = None;
    loop
        invariant
            !is_inside_shorts(*parser),
            import_command(args_of(*parser), opt_text(source), opt_text(output)) == expected,
            expected == import_command(args_of(*old(parser)), None, None),
        decreases left(args_of(*parser)),
    {
        match next_arg(parser) {
            NextArg::Unexpected(option, value) => {
                return Err(CliError::UnexpectedValue(option, value));
            },
            NextArg::Done => match source {
                Some(source) => {
                    return Ok(Command::ImportSsh(ImportSsh { source, output }));
                },
                None => {
                    return Err(CliError::MissingSource);
                },
            },
            NextArg::Long(name) => {
                if same_text(name.as_str(), "help") {
                    return Ok(Command::ImportSshHelp);
                }
                return Err(CliError::UnexpectedOption(chain("--", name.as_str())));
            },
            NextArg::Short(c) => {
                return Err(unexpected_short(c));
            },
            NextArg::Value(value) => {
                if source.is_some() && output.is_some() {
                    return Err(CliError::UnexpectedArgument(value));
                }
                match unicode_text(value) {
                    Err(error) => {
                        return Err(error);
                    },
                    Ok(text) => {
                        if source.is_none() {
                            source = Some(text);
                        } else {
                            output = Some(text);
                        }
                    },
                }
            },
        }
    }
}

fn unexpected_short(c: char) -> (error: CliError)
    ensures
        error@ == CliErrorView::UnexpectedOption("-"@ + seq![c]),
{
    let mut option = "-".to_owned();
    option.push(c);
    assert(option@ == "-"@ + seq![c]);
    CliError::UnexpectedOption(option)
}

/// Gives an option of the server its value.
fn set_option(cli: BridgeCli, name: &str, text: String) -> (changed: BridgeCli)
    requires
        takes_value(name@),
    ensures
        changed@ == with_value(cli@, name@, text@),
{
    let mut cli = cli;
    if same_text(name, "bind") {
        cli.bind = text;
    } else if same_text(name, "cert") {
        cli.cert = Some(text);
    } else if same_text(name, "key") {
        cli.key = Some(text);
    } else if same_text(name, "trust") {
        cli.trust = Some(text);
    } else {
        cli.authorized_keys = Some(text);
    }
    cli
}

fn is_value_option(name: &str) -> (takes: bool)
    ensures
        takes == takes_value(name@),
{
    same_text(name, "bind") || same_text(name, "cert") || same_text(name, "key") || same_text(
        name,
        "trust",
    ) || same_text(name, "authorized-keys")
}

/// Reads a command line.
pub fn parse_cli(parser: &mut lexopt::Parser) -> (command: Result<Command, CliError>)
    requires
        !is_inside_shorts(*old(parser)),
    ensures
        command_result(command) == command_of(args_of(*old(parser))),
{
    let mut cli = BridgeCli {
        bind: "0.0.0.0:1031".to_owned(),
        varlink_sockets_path: "/run/varlink/registry".to_owned(),
        cert: None,
        key: None,
        trust: None,
        authorized_keys: None,
        insecure: false,
    };
    let mut got_positional: bool = false;
    loop
        invariant
            !is_inside_shorts(*parser),
            bridge_command(args_of(*parser), cli@, got_positional) == command_of(
                args_of(*old(parser)),
            ),
        decreases left(args_of(*parser)),
    {
        match next_arg(parser) {
            NextArg::Unexpected(option, value) => {
                return Err(CliError::UnexpectedValue(option, value));
            },
            NextArg::Done => {
                return Ok(Command::Bridge(cli));
            },
            NextArg::Long(name) => {
                if is_value_option(name.as_str()) {
                    let value = match next_value(parser) {
                        Some(value) => value,
                        None => {
                            return Err(CliError::MissingValue(chain("--", name.as_str())));
                        },
                    };
                    match unicode_text(value) {
                        Err(error) => {
                            return Err(error);
                        },
                        Ok(text) => {
                            cli = set_option(cli, name.as_str(), text);
                        },
                    }
                } else if same_text(name.as_str(), "insecure") {
                    cli.insecure = true;
                } else if same_text(name.as_str(), "help") {
                    return Ok(Command::Help);
                } else {
                    return Err(CliError::UnexpectedOption(chain("--", name.as_str())));
                }
            },
            NextArg::Short(c) => {
                return Err(unexpected_short(c));
            },
            NextArg::Value(value) => {
                if got_positional {
                    return Err(CliError::UnexpectedArgument(value));
                }
                if same_bytes(&value, "import-ssh".as_bytes()) {
                    return parse_import_ssh_args(parser);
                }
                if !same_bytes(&value, "bridge".as_bytes()) {
                    match unicode_text(value) {
                        Err(error) => {
                            return Err(error);
                        },
                        Ok(text) => {
                            cli.varlink_sockets_path = text;
                            got_positional = true;
                        },
                    }
                }
            },
        }
    }
}

/// Reads a command line that is given as texts, without the name of the program.
pub fn parse_args(args: Vec<String>) -> (command: Result<Command, CliError>)
    ensures
        command_result(command) == command_of(fresh_args(texts(args@))),
{
    let mut parser = parser_of(args);
    parse_cli(&mut parser)
}

/// A command line of these arguments, before the first of them.
pub open spec fn line_of(rest: Seq<Seq<u8>>) -> ArgsView {
    ArgsView { rest, pending: None, past_options: false }
}

/// The argument that gives a long option.
pub open spec fn dashed(name: Seq<char>) -> Seq<u8> {
    seq![45u8, 45u8] + bytes_of(name)
}

/// Whether an argument is a value where options may still follow: it does not look like
/// an option.
pub open spec fn is_free(arg: Seq<u8>) -> bool {
    arg.len() == 0 || arg[0] != 45 || arg.len() == 1
}

proof fn dashed_is_long(name: Seq<char>, rest: Seq<Seq<u8>>)
    requires
        is_ascii_chars(name),
        name.len() > 0,
        !name.contains('='),
    ensures
        next_of(line_of(seq![dashed(name)] + rest)) == (NextView::Long(name), line_of(rest)),
{
    is_ascii_chars_encode_utf8(name);
    let arg = dashed(name);
    let all = seq![arg] + rest;
    assert forall|i: int| 2 <= i < arg.len() implies #[trigger] arg[i] != 61 by {
        assert(arg[i] == bytes_of(name)[i - 2]);
        assert(name[i - 2] as u8 == bytes_of(name)[i - 2]);
        assert(name.contains(name[i - 2]));
        assert(name[i - 2] != '=');
    }
    equals_sign_is_first(arg, 2, arg.len() as int);
    assert(arg.subrange(2, arg.len() as int) == bytes_of(name));
    options_are_known_by_their_names(name);
    assert(all[0] == arg);
    assert(all.skip(1) == rest);
    assert(arg.len() > 2);
}

proof fn free_is_a_value(arg: Seq<u8>, rest: Seq<Seq<u8>>)
    requires
        is_free(arg),
    ensures
        next_of(line_of(seq![arg] + rest)) == (NextView::Value(arg), line_of(rest)),
{
    let all = seq![arg] + rest;
    assert(all[0] == arg);
    assert(all.skip(1) == rest);
}

proof fn option_names_differ()
    ensures
        "insecure"@ != "help"@,
        !takes_value("insecure"@),
        !takes_value("help"@),
        "bind"@ != "cert"@ && "bind"@ != "key"@ && "bind"@ != "trust"@ && "bind"@
            != "authorized-keys"@,
        "cert"@ != "key"@ && "cert"@ != "trust"@ && "cert"@ != "authorized-keys"@,
        "key"@ != "trust"@ && "key"@ != "authorized-keys"@,
        "trust"@ != "authorized-keys"@,
        forall|name: Seq<char>| #![trigger is_ascii_chars(name)]
            takes_value(name) || name == "insecure"@ || name == "help"@ ==> is_ascii_chars(name)
                && name.len() > 0 && !name.contains('='),
{
    reveal_strlit("bind");
    reveal_strlit("cert");
    reveal_strlit("key");
    reveal_strlit("trust");
    reveal_strlit("authorized-keys");
    reveal_strlit("insecure");
    reveal_strlit("help");
    assert("bind"@[0] == 'b' && "cert"@[0] == 'c' && "help"@[0] == 'h');
    assert("bind"@.len() == 4 && "cert"@.len() == 4 && "help"@.len() == 4 && "key"@.len() == 3);
    assert("trust"@.len() == 5 && "authorized-keys"@.len() == 15 && "insecure"@.len() == 8);
}

/// The options that take a value are these five.
pub proof fn five_options_take_a_value(name: Seq<char>)
    ensures
        takes_value(name) <==> seq![
            "bind"@,
            "cert"@,
            "key"@,
            "trust"@,
            "authorized-keys"@,
        ].contains(name),
{
    let names = seq!["bind"@, "cert"@, "key"@, "trust"@, "authorized-keys"@];
    assert(names[0] == "bind"@ && names[1] == "cert"@ && names[2] == "key"@ && names[3]
        == "trust"@ && names[4] == "authorized-keys"@);
}

/// An option that is given a value sets its own part of the options to it and no other,
/// and one given twice counts as given last.
pub proof fn each_option_sets_its_own_part(
    cli: BridgeView,
    name: Seq<char>,
    text: Seq<char>,
    before: Seq<char>,
)
    requires
        takes_value(name),
    ensures
        with_value(cli, name, text).bind == if name == "bind"@ {
            text
        } else {
            cli.bind
        },
        with_value(cli, name, text).cert == if name == "cert"@ {
            Some(text)
        } else {
            cli.cert
        },
        with_value(cli, name, text).key == if name == "key"@ {
            Some(text)
        } else {
            cli.key
        },
        with_value(cli, name, text).trust == if name == "trust"@ {
            Some(text)
        } else {
            cli.trust
        },
        with_value(cli, name, text).authorized_keys == if name == "authorized-keys"@ {
            Some(text)
        } else {
            cli.authorized_keys
        },
        with_value(cli, name, text).insecure == cli.insecure,
        with_value(cli, name, text).varlink_sockets_path == cli.varlink_sockets_path,
        with_value(with_value(cli, name, before), name, text) == with_value(cli, name, text),
{
    option_names_differ();
}

/// A command line that gives nothing more asks for a server with the options so far.
pub proof fn a_line_ends_with_its_options(cli: BridgeView, positional: bool)
    ensures
        bridge_command(line_of(seq![]), cli, positional) == Ok::<CommandView, CliErrorView>(
            CommandView::Bridge(cli),
        ),
{
}

/// "--insecure" sets that option and nothing else, "--help" asks for the help whatever
/// follows, and the line goes on behind the first.
pub proof fn flags_are_read(rest: Seq<Seq<u8>>, cli: BridgeView, positional: bool)
    ensures
        bridge_command(line_of(seq![dashed("insecure"@)] + rest), cli, positional)
            == bridge_command(
            line_of(rest),
            (BridgeView {
                bind: cli.bind,
                varlink_sockets_path: cli.varlink_sockets_path,
                cert: cli.cert,
                key: cli.key,
                trust: cli.trust,
                authorized_keys: cli.authorized_keys,
                insecure: true,
            }),
            positional,
        ),
        bridge_command(line_of(seq![dashed("help"@)] + rest), cli, positional) == Ok::<
            CommandView,
            CliErrorView,
        >(CommandView::Help),
{
    option_names_differ();
    assert(is_ascii_chars("insecure"@) && is_ascii_chars("help"@));
    dashed_is_long("insecure"@, rest);
    dashed_is_long("help"@, rest);
}

/// An option with a value sets its own part to the value's text, and the line goes on
/// behind the value. A value that is not text and one that is not there are refused.
pub proof fn valued_options_are_read(
    name: Seq<char>,
    value: Seq<u8>,
    rest: Seq<Seq<u8>>,
    cli: BridgeView,
    positional: bool,
)
    requires
        takes_value(name),
    ensures
        valid_utf8(value) ==> bridge_command(
            line_of(seq![dashed(name), value] + rest),
            cli,
            positional,
        ) == bridge_command(
            line_of(rest),
            (BridgeView {
                bind: if name == "bind"@ {
                    decode_utf8(value)
                } else {
                    cli.bind
                },
                varlink_sockets_path: cli.varlink_sockets_path,
                cert: if name == "cert"@ {
                    Some(decode_utf8(value))
                } else {
                    cli.cert
                },
                key: if name == "key"@ {
                    Some(decode_utf8(value))
                } else {
                    cli.key
                },
                trust: if name == "trust"@ {
                    Some(decode_utf8(value))
                } else {
                    cli.trust
                },
                authorized_keys: if name == "authorized-keys"@ {
                    Some(decode_utf8(value))
                } else {
                    cli.authorized_keys
                },
                insecure: cli.insecure,
            }),
            positional,
        ),
        !valid_utf8(value) ==> bridge_command(
            line_of(seq![dashed(name), value] + rest),
            cli,
            positional,
        ) == Err::<CommandView, CliErrorView>(CliErrorView::NonUnicodeValue(value)),
        bridge_command(line_of(seq![dashed(name)]), cli, positional) == Err::<
            CommandView,
            CliErrorView,
        >(CliErrorView::MissingValue("--"@ + name)),
{
    option_names_differ();
    assert(is_ascii_chars(name));
    let behind = seq![value] + rest;
    dashed_is_long(name, behind);
    assert(seq![dashed(name)] + behind == seq![dashed(name), value] + rest);
    assert(behind[0] == value);
    assert(behind.skip(1) == rest);
    dashed_is_long(name, seq![]);
    assert(seq![dashed(name)] + Seq::<Seq<u8>>::empty() == seq![dashed(name)]);
}

/// An option that the server does not have is refused, whatever follows.
pub proof fn other_options_are_refused(
    name: Seq<char>,
    rest: Seq<Seq<u8>>,
    cli: BridgeView,
    positional: bool,
    source: Option<Seq<char>>,
    output: Option<Seq<char>>,
)
    requires
        is_ascii_chars(name),
        name.len() > 0,
        !name.contains('='),
    ensures
        !takes_value(name) && name != "insecure"@ && name != "help"@ ==> bridge_command(line_of(seq![dashed(name)] + rest), cli, positional) == Err::<
            CommandView,
            CliErrorView,
        >(CliErrorView::UnexpectedOption("--"@ + name)),
        name != "help"@ ==> import_command(line_of(seq![dashed(name)] + rest), source, output)
            == Err::<CommandView, CliErrorView>(CliErrorView::UnexpectedOption("--"@ + name)),
        name == "help"@ ==> import_command(line_of(seq![dashed(name)] + rest), source, output)
            == Ok::<CommandView, CliErrorView>(CommandView::ImportSshHelp),
{
    dashed_is_long(name, rest);
}

/// A path sets the path of the sockets and nothing else, and the line goes on behind it
/// without room for another. "bridge" before a path changes nothing, and "import-ssh"
/// there leaves the rest of the line to the import.
pub proof fn paths_are_read(arg: Seq<u8>, rest: Seq<Seq<u8>>, cli: BridgeView)
    requires
        is_free(arg),
    ensures
        arg == bytes_of("bridge"@) ==> bridge_command(line_of(seq![arg] + rest), cli, false)
            == bridge_command(line_of(rest), cli, false),
        arg == bytes_of("import-ssh"@) ==> bridge_command(line_of(seq![arg] + rest), cli, false)
            == import_command(line_of(rest), None, None),
        arg != bytes_of("bridge"@) && arg != bytes_of("import-ssh"@) && valid_utf8(arg)
            ==> bridge_command(line_of(seq![arg] + rest), cli, false) == bridge_command(
            line_of(rest),
            (BridgeView {
                bind: cli.bind,
                varlink_sockets_path: decode_utf8(arg),
                cert: cli.cert,
                key: cli.key,
                trust: cli.trust,
                authorized_keys: cli.authorized_keys,
                insecure: cli.insecure,
            }),
            true,
        ),
        !valid_utf8(arg) && arg != bytes_of("bridge"@) && arg != bytes_of("import-ssh"@)
            ==> bridge_command(line_of(seq![arg] + rest), cli, false) == Err::<
            CommandView,
            CliErrorView,
        >(CliErrorView::NonUnicodeValue(arg)),
        bridge_command(line_of(seq![arg] + rest), cli, true) == Err::<CommandView, CliErrorView>(
            CliErrorView::UnexpectedArgument(arg),
        ),
{
    reveal_strlit("bridge");
    reveal_strlit("import-ssh");
    is_ascii_chars_encode_utf8("bridge"@);
    is_ascii_chars_encode_utf8("import-ssh"@);
    free_is_a_value(arg, rest);
}

/// An option may stand before the path or behind it: either way the same is asked for.
pub proof fn paths_and_options_commute(
    path: Seq<u8>,
    name: Seq<char>,
    value: Seq<u8>,
    rest: Seq<Seq<u8>>,
    cli: BridgeView,
)
    requires
        is_free(path),
        valid_utf8(path),
        path != bytes_of("bridge"@),
        path != bytes_of("import-ssh"@),
        takes_value(name),
        valid_utf8(value),
    ensures
        bridge_command(line_of(seq![path, dashed("insecure"@)] + rest), cli, false)
            == bridge_command(line_of(seq![dashed("insecure"@), path] + rest), cli, false),
        bridge_command(line_of(seq![path, dashed(name), value] + rest), cli, false)
            == bridge_command(line_of(seq![dashed(name), value, path] + rest), cli, false),
{
    let flag = dashed("insecure"@);
    let option = dashed(name);
    let with_path = BridgeView { varlink_sockets_path: decode_utf8(path), ..cli };
    let with_flag = BridgeView { insecure: true, ..cli };
    let with_option = with_value(cli, name, decode_utf8(value));
    each_option_sets_its_own_part(cli, name, decode_utf8(value), decode_utf8(value));
    each_option_sets_its_own_part(with_path, name, decode_utf8(value), decode_utf8(value));

    paths_are_read(path, seq![flag] + rest, cli);
    flags_are_read(rest, with_path, true);
    flags_are_read(seq![path] + rest, cli, false);
    paths_are_read(path, rest, with_flag);
    assert(seq![path] + (seq![flag] + rest) == seq![path, flag] + rest);
    assert(seq![flag] + (seq![path] + rest) == seq![flag, path] + rest);

    paths_are_read(path, seq![option, value] + rest, cli);
    valued_options_are_read(name, value, rest, with_path, true);
    valued_options_are_read(name, value, seq![path] + rest, cli, false);
    paths_are_read(path, rest, with_option);
    assert(seq![path] + (seq![option, value] + rest) == seq![path, option, value] + rest);
    assert(seq![option, value] + (seq![path] + rest) == seq![option, value, path] + rest);
    assert(with_value(with_path, name, decode_utf8(value)) == BridgeView {
        varlink_sockets_path: decode_utf8(path),
        ..with_option
    });
}

/// Behind "--" every argument is a value, whatever it looks like: the first is the path,
/// and there is no room for another.
pub proof fn options_end_at_two_dashes(
    arg: Seq<u8>,
    rest: Seq<Seq<u8>>,
    cli: BridgeView,
    positional: bool,
)
    requires
        arg != bytes_of("bridge"@),
        arg != bytes_of("import-ssh"@),
    ensures
        bridge_command(line_of(seq![seq![45u8, 45u8], arg] + rest), cli, positional)
            == bridge_command(
            (ArgsView { rest: seq![arg] + rest, pending: None, past_options: true }),
            cli,
            positional,
        ),
        bridge_command(
            (ArgsView { rest: seq![arg] + rest, pending: None, past_options: true }),
            cli,
            true,
        ) == Err::<CommandView, CliErrorView>(CliErrorView::UnexpectedArgument(arg)),
        valid_utf8(arg) ==> bridge_command(
            (ArgsView { rest: seq![arg] + rest, pending: None, past_options: true }),
            cli,
            false,
        ) == bridge_command(
            (ArgsView { rest, pending: None, past_options: true }),
            (BridgeView {
                bind: cli.bind,
                varlink_sockets_path: decode_utf8(arg),
                cert: cli.cert,
                key: cli.key,
                trust: cli.trust,
                authorized_keys: cli.authorized_keys,
                insecure: cli.insecure,
            }),
            true,
        ),
        bridge_command(
            (ArgsView { rest: seq![], pending: None, past_options: true }),
            cli,
            positional,
        ) == Ok::<CommandView, CliErrorView>(CommandView::Bridge(cli)),
{
    let all = seq![seq![45u8, 45u8], arg] + rest;
    let behind = seq![arg] + rest;
    assert(all[0] == seq![45u8, 45u8]);
    assert(all.skip(1) == behind);
    assert(behind[0] == arg);
    assert(behind.skip(1) == rest);
    let past = ArgsView { rest: behind, pending: None, past_options: true };
    let then = ArgsView { rest, pending: None, past_options: true };
    assert(next_of(past) == (NextView::Value(arg), then));
    assert(next_of(line_of(all)) == (NextView::Value(arg), then));
}

/// A value behind an option that takes none, and an option of one dash, are refused.
pub proof fn stray_values_and_short_options_are_refused(
    value: Seq<u8>,
    short: Seq<u8>,
    rest: Seq<Seq<u8>>,
    cli: BridgeView,
    positional: bool,
    source: Option<Seq<char>>,
    output: Option<Seq<char>>,
)
    requires
        short.len() > 1,
        short[0] == 45,
        short[1] != 45,
    ensures
        bridge_command(
            line_of(seq![dashed("insecure"@) + seq![61u8] + value] + rest),
            cli,
            positional,
        ) == Err::<CommandView, CliErrorView>(
            CliErrorView::UnexpectedValue("--"@ + "insecure"@, value),
        ),
        bridge_command(line_of(seq![short] + rest), cli, positional) == Err::<
            CommandView,
            CliErrorView,
        >(CliErrorView::UnexpectedOption("-"@ + seq![short_name_of(short)])),
        import_command(line_of(seq![short] + rest), source, output) == Err::<
            CommandView,
            CliErrorView,
        >(CliErrorView::UnexpectedOption("-"@ + seq![short_name_of(short)])),
{
    option_names_differ();
    assert(is_ascii_chars("insecure"@));
    let name = bytes_of("insecure"@);
    is_ascii_chars_encode_utf8("insecure"@);
    let one = dashed("insecure"@) + seq![61u8] + value;
    let at = 2 + name.len() as int;
    assert forall|i: int| 2 <= i < at implies #[trigger] one[i] != 61 by {
        assert(one[i] == name[i - 2]);
        assert("insecure"@[i - 2] as u8 == name[i - 2]);
        assert("insecure"@.contains("insecure"@[i - 2]));
        assert("insecure"@[i - 2] != '=');
    }
    equals_sign_is_first(one, 2, at);
    assert(one.subrange(2, at) == name);
    options_are_known_by_their_names("insecure"@);
    assert(one.skip(at + 1) == value);
    let all = seq![one] + rest;
    assert(all[0] == one && all.skip(1) == rest);
    assert(one.len() > 2);
    let then = ArgsView {
        rest,
        pending: Some(("--"@ + "insecure"@, value)),
        past_options: false,
    };
    assert(next_of(line_of(all)) == (NextView::Long("insecure"@), then));
    assert(next_of(then).0 == NextView::Unexpected("--"@ + "insecure"@, value));
    let on = BridgeView { insecure: true, ..cli };
    assert(bridge_command(then, on, positional) == Err::<CommandView, CliErrorView>(
        CliErrorView::UnexpectedValue("--"@ + "insecure"@, value),
    ));
    let other = seq![short] + rest;
    assert(other[0] == short && other.skip(1) == rest);
    assert(next_of(line_of(other)).0 == NextView::Short(short_name_of(short)));
}

/// An import takes its source and then, where there is one, its output, each as it is
/// given; without a source it is refused, and so is what follows the output.
pub proof fn imports_are_read(
    source: Seq<u8>,
    output: Seq<u8>,
    extra: Seq<u8>,
    rest: Seq<Seq<u8>>,
)
    requires
        is_free(source),
        is_free(output),
        is_free(extra),
        valid_utf8(source),
        valid_utf8(output),
    ensures
        import_command(line_of(seq![]), None, None) == Err::<CommandView, CliErrorView>(
            CliErrorView::MissingSource,
        ),
        import_command(line_of(seq![source]), None, None) == Ok::<CommandView, CliErrorView>(
            CommandView::ImportSsh(decode_utf8(source), None),
        ),
        import_command(line_of(seq![source, output]), None, None) == Ok::<
            CommandView,
            CliErrorView,
        >(CommandView::ImportSsh(decode_utf8(source), Some(decode_utf8(output)))),
        import_command(line_of(seq![source, output, extra] + rest), None, None) == Err::<
            CommandView,
            CliErrorView,
        >(CliErrorView::UnexpectedArgument(extra)),
        !valid_utf8(extra) ==> import_command(line_of(seq![extra] + rest), None, None) == Err::<
            CommandView,
            CliErrorView,
        >(CliErrorView::NonUnicodeValue(extra)),
        !valid_utf8(extra) ==> import_command(line_of(seq![source, extra] + rest), None, None)
            == Err::<CommandView, CliErrorView>(CliErrorView::NonUnicodeValue(extra)),
{
    let none = Seq::<Seq<u8>>::empty();
    let s = Some(decode_utf8(source));
    let o = Some(decode_utf8(output));
    free_is_a_value(source, none);
    assert(seq![source] + none == seq![source]);
    assert(import_command(line_of(none), s, None) == Ok::<CommandView, CliErrorView>(
        CommandView::ImportSsh(decode_utf8(source), None),
    ));
    free_is_a_value(source, seq![output]);
    assert(seq![source] + seq![output] == seq![source, output]);
    free_is_a_value(output, none);
    assert(seq![output] + none == seq![output]);
    assert(import_command(line_of(none), s, o) == Ok::<CommandView, CliErrorView>(
        CommandView::ImportSsh(decode_utf8(source), o),
    ));
    assert(import_command(line_of(seq![output]), s, None) == import_command(line_of(none), s, o));
    free_is_a_value(source, seq![output, extra] + rest);
    assert(seq![source] + (seq![output, extra] + rest) == seq![source, output, extra] + rest);
    free_is_a_value(output, seq![extra] + rest);
    assert(seq![output] + (seq![extra] + rest) == seq![output, extra] + rest);
    free_is_a_value(extra, rest);
    assert(import_command(line_of(seq![output, extra] + rest), s, None) == import_command(
        line_of(seq![extra] + rest),
        s,
        o,
    ));
    free_is_a_value(source, seq![extra] + rest);
    assert(seq![source] + (seq![extra] + rest) == seq![source, extra] + rest);
    assert(import_command(line_of(seq![source, extra] + rest), None, None) == import_command(
        line_of(seq![extra] + rest),
        s,
        None,
    ));
}

/// A piece of a command line.
pub enum Piece {
    /// A long option without a value.
    Flag(Seq<char>),
    /// A long option with its value.
    Valued(Seq<char>, Seq<u8>),
    /// A value of its own.
    Free(Seq<u8>),
}

/// The pieces that a command line falls into, up to what is no piece of one.
pub open spec fn pieces_of(args: ArgsView) -> Seq<Piece>
    decreases left(args),
{
    let (next, after) = next_of(args);
    match next {
        NextView::Long(name) => if takes_value(name) {
            match value_of(after) {
                Some((value, then)) => seq![Piece::Valued(name, value)] + pieces_of(then),
                None => seq![],
            }
        } else {
            seq![Piece::Flag(name)] + pieces_of(after)
        },
        NextView::Value(value) => seq![Piece::Free(value)] + pieces_of(after),
        _ => seq![],
    }
}

/// Whether a flag is among the pieces.
pub open spec fn has_flag(pieces: Seq<Piece>, name: Seq<char>) -> bool {
    exists|i: int| 0 <= i < pieces.len() && #[trigger] pieces[i] == Piece::Flag(name)
}

/// The value that is the last to be given to an option among the pieces.
pub open spec fn last_given(pieces: Seq<Piece>, name: Seq<char>) -> Option<Seq<u8>>
    decreases pieces.len(),
{
    if pieces.len() == 0 {
        None
    } else {
        match (last_given(pieces.skip(1), name), pieces[0]) {
            (Some(value), _) => Some(value),
            (None, Piece::Valued(option, value)) => if option == name {
                Some(value)
            } else {
                None
            },
            (None, _) => None,
        }
    }
}

/// The first value of its own among the pieces that is not "bridge".
pub open spec fn path_given(pieces: Seq<Piece>) -> Option<Seq<u8>>
    decreases pieces.len(),
{
    if pieces.len() == 0 {
        None
    } else {
        match pieces[0] {
            Piece::Free(value) => if value == bytes_of("bridge"@) {
                path_given(pieces.skip(1))
            } else {
                Some(value)
            },
            _ => path_given(pieces.skip(1)),
        }
    }
}

/// The text that was given, or else the one that was there.
pub open spec fn given_or(given: Option<Seq<u8>>, there: Seq<char>) -> Seq<char> {
    match given {
        Some(value) => decode_utf8(value),
        None => there,
    }
}

/// The text that was given, or else the one that was there, if any.
pub open spec fn given_or_there(given: Option<Seq<u8>>, there: Option<Seq<char>>) -> Option<
    Seq<char>,
> {
    match given {
        Some(value) => Some(decode_utf8(value)),
        None => there,
    }
}

proof fn first_piece(piece: Piece, rest: Seq<Piece>, name: Seq<char>)
    ensures
        has_flag(seq![piece] + rest, name) <==> piece == Piece::Flag(name) || has_flag(rest, name),
        last_given(seq![piece] + rest, name) == match last_given(rest, name) {
            Some(value) => Some(value),
            None => match piece {
                Piece::Valued(option, value) => if option == name {
                    Some(value)
                } else {
                    None
                },
                _ => None,
            },
        },
        path_given(seq![piece] + rest) == match piece {
            Piece::Free(value) => if value == bytes_of("bridge"@) {
                path_given(rest)
            } else {
                Some(value)
            },
            _ => path_given(rest),
        },
{
    let all = seq![piece] + rest;
    assert(all[0] == piece);
    assert(all.skip(1) == rest);
    if has_flag(all, name) {
        let i = choose|i: int| 0 <= i < all.len() && #[trigger] all[i] == Piece::Flag(name);
        if i > 0 {
            assert(rest[i - 1] == all[i]);
        }
    }
    if has_flag(rest, name) {
        let i = choose|i: int| 0 <= i < rest.len() && #[trigger] rest[i] == Piece::Flag(name);
        assert(all[i + 1] == rest[i]);
    }
}

proof fn first_piece_of_all(piece: Piece, rest: Seq<Piece>)
    ensures
        forall|name: Seq<char>| #[trigger]
            has_flag(seq![piece] + rest, name) <==> piece == Piece::Flag(name) || has_flag(
                rest,
                name,
            ),
        forall|name: Seq<char>| #[trigger]
            last_given(seq![piece] + rest, name) == match last_given(rest, name) {
                Some(value) => Some(value),
                None => match piece {
                    Piece::Valued(option, value) => if option == name {
                        Some(value)
                    } else {
                        None
                    },
                    _ => None,
                },
            },
        path_given(seq![piece] + rest) == match piece {
            Piece::Free(value) => if value == bytes_of("bridge"@) {
                path_given(rest)
            } else {
                Some(value)
            },
            _ => path_given(rest),
        },
{
    first_piece(piece, rest, "bind"@);
    assert forall|name: Seq<char>| #[trigger]
        has_flag(seq![piece] + rest, name) <==> piece == Piece::Flag(name) || has_flag(
            rest,
            name,
        ) by {
        first_piece(piece, rest, name);
    }
    assert forall|name: Seq<char>| #[trigger]
        last_given(seq![piece] + rest, name) == match last_given(rest, name) {
            Some(value) => Some(value),
            None => match piece {
                Piece::Valued(option, value) => if option == name {
                    Some(value)
                } else {
                    None
                },
                _ => None,
            },
        } by {
        first_piece(piece, rest, name);
    }
}

/// Wherever an option stands on a command line that is accepted, before the path or
/// behind it, it counts: the server is insecure exactly when "--insecure" is among the
/// pieces or it was so before, every other option has the text that it was given last,
/// and the path is the one that was given. What was not given stays what it was.
pub proof fn options_count_wherever_they_stand(
    args: ArgsView,
    cli: BridgeView,
    positional: bool,
    result: BridgeView,
)
    requires
        bridge_command(args, cli, positional) == Ok::<CommandView, CliErrorView>(
            CommandView::Bridge(result),
        ),
    ensures
        ({
            let pieces = pieces_of(args);
            &&& result.insecure <==> cli.insecure || has_flag(pieces, "insecure"@)
            &&& result.bind == given_or(last_given(pieces, "bind"@), cli.bind)
            &&& result.cert == given_or_there(last_given(pieces, "cert"@), cli.cert)
            &&& result.key == given_or_there(last_given(pieces, "key"@), cli.key)
            &&& result.trust == given_or_there(last_given(pieces, "trust"@), cli.trust)
            &&& result.authorized_keys == given_or_there(
                last_given(pieces, "authorized-keys"@),
                cli.authorized_keys,
            )
            &&& result.varlink_sockets_path == given_or(
                path_given(pieces),
                cli.varlink_sockets_path,
            )
            &&& positional ==> path_given(pieces) is None
        }),
    decreases left(args),
{
    option_names_differ();
    let (next, after) = next_of(args);
    match next {
        NextView::Long(name) => {
            if takes_value(name) {
                let (value, then) = value_of(after).unwrap();
                let text = decode_utf8(value);
                options_count_wherever_they_stand(
                    then,
                    with_value(cli, name, text),
                    positional,
                    result,
                );
                each_option_sets_its_own_part(cli, name, text, text);
                first_piece_of_all(Piece::Valued(name, value), pieces_of(then));
            } else {
                let on = BridgeView { insecure: true, ..cli };
                options_count_wherever_they_stand(after, on, positional, result);
                first_piece_of_all(Piece::Flag(name), pieces_of(after));
            }
        },
        NextView::Value(value) => {
            first_piece_of_all(Piece::Free(value), pieces_of(after));
            if value == bytes_of("import-ssh"@) {
                imports_are_no_servers(after, None, None);
            } else if value == bytes_of("bridge"@) {
                options_count_wherever_they_stand(after, cli, false, result);
            } else {
                let at = BridgeView { varlink_sockets_path: decode_utf8(value), ..cli };
                options_count_wherever_they_stand(after, at, true, result);
            }
        },
        _ => {},
    }
}

/// A command line of the import never starts a server.
pub proof fn imports_are_no_servers(
    args: ArgsView,
    source: Option<Seq<char>>,
    output: Option<Seq<char>>,
)
    ensures
        !(import_command(args, source, output) matches Ok(CommandView::Bridge(_))),
        !(import_command(args, source, output) matches Ok(CommandView::Help)),
    decreases left(args),
{
    let (next, after) = next_of(args);
    if let NextView::Value(value) = next {
        if !(source is Some && output is Some) && valid_utf8(value) {
            if source is None {
                imports_are_no_servers(after, Some(decode_utf8(value)), output);
            } else {
                imports_are_no_servers(after, source, Some(decode_utf8(value)));
            }
        }
    }
}

/// What a command line asks for does not depend on the options that it starts from: only
/// the options of the server do.
pub proof fn earlier_options_decide_nothing(
    args: ArgsView,
    cli: BridgeView,
    other: BridgeView,
    positional: bool,
)
    ensures
        (bridge_command(args, cli, positional) matches Ok(CommandView::Bridge(_))) <==> (
        bridge_command(args, other, positional) matches Ok(CommandView::Bridge(_))),
        !(bridge_command(args, cli, positional) matches Ok(CommandView::Bridge(_)))
            ==> bridge_command(args, cli, positional) == bridge_command(args, other, positional),
    decreases left(args),
{
    let (next, after) = next_of(args);
    match next {
        NextView::Long(name) => {
            if takes_value(name) {
                if let Some((value, then)) = value_of(after) {
                    earlier_options_decide_nothing(
                        then,
                        with_value(cli, name, decode_utf8(value)),
                        with_value(other, name, decode_utf8(value)),
                        positional,
                    );
                }
            } else {
                earlier_options_decide_nothing(
                    after,
                    BridgeView { insecure: true, ..cli },
                    BridgeView { insecure: true, ..other },
                    positional,
                );
            }
        },
        NextView::Value(value) => {
            earlier_options_decide_nothing(after, cli, other, false);
            earlier_options_decide_nothing(
                after,
                BridgeView { varlink_sockets_path: decode_utf8(value), ..cli },
                BridgeView { varlink_sockets_path: decode_utf8(value), ..other },
                true,
            );
        },
        _ => {},
    }
}

/// A server is insecure exactly when "--insecure" stands on its command line, wherever it
/// stands there; every other option has the text that it was given last; and what is not
/// given is the usual.
pub proof fn servers_are_as_their_line_says(
    args: Vec<String>,
    command: Result<Command, CliError>,
    cli: BridgeCli,
)
    requires
        call_ensures(parse_args, (args,), command),
        command == Ok::<Command, CliError>(Command::Bridge(cli)),
    ensures
        ({
            let pieces = pieces_of(line_of(args@.map_values(|arg: String| encode_utf8(arg@))));
            &&& cli.insecure <==> has_flag(pieces, "insecure"@)
            &&& cli.bind@ == given_or(last_given(pieces, "bind"@), "0.0.0.0:1031"@)
            &&& cli.varlink_sockets_path@ == given_or(
                path_given(pieces),
                "/run/varlink/registry"@,
            )
            &&& opt_text(cli.cert) == given_or_there(last_given(pieces, "cert"@), None)
            &&& opt_text(cli.key) == given_or_there(last_given(pieces, "key"@), None)
            &&& opt_text(cli.trust) == given_or_there(last_given(pieces, "trust"@), None)
            &&& opt_text(cli.authorized_keys) == given_or_there(
                last_given(pieces, "authorized-keys"@),
                None,
            )
        }),
{
    let given = args@.map_values(|arg: String| encode_utf8(arg@));
    let line = fresh_args(texts(args@));
    assert(line.rest == given);
    assert(line == line_of(given));
    options_count_wherever_they_stand(line, default_options(), false, cli@);
}

/// Whatever a parser stands at, reading the line gives a server that is insecure exactly
/// when "--insecure" is among the pieces of the rest, has the text last given to every
/// option, and the usual where none is.
pub proof fn parsers_read_what_the_line_says(
    parser: &mut lexopt::Parser,
    command: Result<Command, CliError>,
    cli: BridgeCli,
)
    requires
        call_ensures(parse_cli, (parser,), command),
        command == Ok::<Command, CliError>(Command::Bridge(cli)),
    ensures
        ({
            let pieces = pieces_of(args_of(*old(parser)));
            &&& cli.insecure <==> has_flag(pieces, "insecure"@)
            &&& cli.bind@ == given_or(last_given(pieces, "bind"@), "0.0.0.0:1031"@)
            &&& cli.varlink_sockets_path@ == given_or(
                path_given(pieces),
                "/run/varlink/registry"@,
            )
            &&& opt_text(cli.cert) == given_or_there(last_given(pieces, "cert"@), None)
            &&& opt_text(cli.key) == given_or_there(last_given(pieces, "key"@), None)
            &&& opt_text(cli.trust) == given_or_there(last_given(pieces, "trust"@), None)
            &&& opt_text(cli.authorized_keys) == given_or_there(
                last_given(pieces, "authorized-keys"@),
                None,
            )
        }),
{
    options_count_wherever_they_stand(args_of(*old(parser)), default_options(), false, cli@);
}

/// An import that a line asks for has the first value of the line as its source and the
/// second, where there is one, as its output.
pub proof fn imports_are_as_their_line_says(
    parser: &mut lexopt::Parser,
    command: Result<Command, CliError>,
    source: Seq<u8>,
    output: Seq<u8>,
)
    requires
        call_ensures(parse_import_ssh_args, (parser,), command),
        is_free(source),
        is_free(output),
        valid_utf8(source),
        valid_utf8(output),
    ensures
        args_of(*old(parser)) == line_of(seq![source]) ==> (command matches Ok(
            Command::ImportSsh(import),
        ) && import.source@ == decode_utf8(source) && import.output is None),
        args_of(*old(parser)) == line_of(seq![source, output]) ==> (command matches Ok(
            Command::ImportSsh(import),
        ) && import.source@ == decode_utf8(source) && opt_text(import.output) == Some(
            decode_utf8(output),
        )),
        args_of(*old(parser)) == line_of(seq![]) ==> (command matches Err(
            CliError::MissingSource,
        )),
{
    imports_are_read(source, output, source, seq![]);
}

/// What a line asks for is told as it is: each kind of command and each kind of error is
/// its own, with the texts and the bytes that belong to it.
pub proof fn commands_and_errors_are_told_as_they_are(
    args: Vec<String>,
    command: Result<Command, CliError>,
)
    requires
        call_ensures(parse_args, (args,), command),
    ensures
        ({
            let line = line_of(args@.map_values(|arg: String| encode_utf8(arg@)));
            match bridge_command(line, default_options(), false) {
                Ok(CommandView::Bridge(_)) => command matches Ok(Command::Bridge(_)),
                Ok(CommandView::ImportSsh(source, output)) => command matches Ok(
                    Command::ImportSsh(import),
                ) && import.source@ == source && opt_text(import.output) == output,
                Ok(CommandView::Help) => command matches Ok(Command::Help),
                Ok(CommandView::ImportSshHelp) => command matches Ok(Command::ImportSshHelp),
                Err(CliErrorView::MissingValue(option)) => command matches Err(
                    CliError::MissingValue(told),
                ) && told@ == option,
                Err(CliErrorView::UnexpectedOption(option)) => command matches Err(
                    CliError::UnexpectedOption(told),
                ) && told@ == option,
                Err(CliErrorView::UnexpectedArgument(value)) => command matches Err(
                    CliError::UnexpectedArgument(told),
                ) && told@ == value,
                Err(CliErrorView::UnexpectedValue(option, value)) => command matches Err(
                    CliError::UnexpectedValue(of, told),
                ) && of@ == option && told@ == value,
                Err(CliErrorView::NonUnicodeValue(value)) => command matches Err(
                    CliError::NonUnicodeValue(told),
                ) && told@ == value,
                Err(CliErrorView::MissingSource) => command matches Err(CliError::MissingSource),
            }
        }),
{
    let given = args@.map_values(|arg: String| encode_utf8(arg@));
    let line = fresh_args(texts(args@));
    assert(line.rest == given);
    assert(line == line_of(given));
}

/// The values on a command line, up to the first option.
pub open spec fn values_of(args: ArgsView) -> Seq<Seq<u8>>
    decreases left(args),
{
    let (next, after) = next_of(args);
    match next {
        NextView::Value(value) => seq![value] + values_of(after),
        _ => seq![],
    }
}

/// An import that is accepted has been given one value or two, wherever "--" stands: the
/// first is its source, and the second, where there is one, its output. Either may be
/// there before.
pub proof fn imports_hold_what_was_given(
    args: ArgsView,
    source: Option<Seq<char>>,
    output: Option<Seq<char>>,
    from: Seq<char>,
    to: Option<Seq<char>>,
)
    requires
        import_command(args, source, output) == Ok::<CommandView, CliErrorView>(
            CommandView::ImportSsh(from, to),
        ),
        source is None ==> output is None,
    ensures
        ({
            let values = values_of(args);
            &&& source is None ==> {
                &&& 1 <= values.len() <= 2
                &&& from == decode_utf8(values[0])
                &&& to == if values.len() == 2 {
                    Some(decode_utf8(values[1]))
                } else {
                    None
                }
            }
            &&& source matches Some(text) ==> from == text
            &&& source is Some && output is None ==> {
                &&& values.len() <= 1
                &&& to == if values.len() == 1 {
                    Some(decode_utf8(values[0]))
                } else {
                    None
                }
            }
            &&& source is Some && output is Some ==> values.len() == 0 && to == output
        }),
    decreases left(args),
{
    let (next, after) = next_of(args);
    if let NextView::Value(value) = next {
        let rest = values_of(after);
        let values = seq![value] + rest;
        assert(values[0] == value);
        assert(rest.len() > 0 ==> values[1] == rest[0]);
        if source is None {
            imports_hold_what_was_given(after, Some(decode_utf8(value)), output, from, to);
        } else {
            imports_hold_what_was_given(after, source, Some(decode_utf8(value)), from, to);
        }
    }
}

/// Behind "--" too, "bridge" changes nothing, "import-ssh" leaves the rest to the import,
/// and what is not text is refused.
pub proof fn commands_may_follow_two_dashes(
    arg: Seq<u8>,
    rest: Seq<Seq<u8>>,
    cli: BridgeView,
    source: Option<Seq<char>>,
)
    ensures
        ({
            let line = ArgsView { rest: seq![arg] + rest, pending: None, past_options: true };
            let then = ArgsView { rest, pending: None, past_options: true };
            &&& arg == bytes_of("bridge"@) ==> bridge_command(line, cli, false) == bridge_command(
                then,
                cli,
                false,
            )
            &&& arg == bytes_of("import-ssh"@) ==> bridge_command(line, cli, false)
                == import_command(then, None, None)
            &&& arg != bytes_of("bridge"@) && arg != bytes_of("import-ssh"@) && !valid_utf8(arg)
                ==> bridge_command(line, cli, false) == Err::<CommandView, CliErrorView>(
                CliErrorView::NonUnicodeValue(arg),
            )
            &&& valid_utf8(arg) ==> import_command(line, None, None) == import_command(
                then,
                Some(decode_utf8(arg)),
                None,
            )
            &&& !valid_utf8(arg) ==> import_command(line, source, None) == Err::<
                CommandView,
                CliErrorView,
            >(CliErrorView::NonUnicodeValue(arg))
        }),
{
    reveal_strlit("bridge");
    reveal_strlit("import-ssh");
    is_ascii_chars_encode_utf8("bridge"@);
    is_ascii_chars_encode_utf8("import-ssh"@);
    let all = seq![arg] + rest;
    assert(all[0] == arg && all.skip(1) == rest);
    let line = ArgsView { rest: all, pending: None, past_options: true };
    let then = ArgsView { rest, pending: None, past_options: true };
    assert(next_of(line) == (NextView::Value(arg), then));
}

} // verus!
