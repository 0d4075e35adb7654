use varlink_httpd::cli::{parse_args, parse_cli, parse_import_ssh_args, BridgeCli, CliError, Command};

fn parse(args: &[&str]) -> Result<Command, CliError> {
    parse_args(args.iter().map(|a| a.to_string()).collect())
}

fn bridge(args: &[&str]) -> BridgeCli {
    match parse(args) {
        Ok(Command::Bridge(cli)) => cli,
        other => panic!("{other:?}"),
    }
}

#[test]
fn defaults_hold_without_arguments() {
    let cli = bridge(&[]);
    assert_eq!(cli.bind, "0.0.0.0:1031");
    assert_eq!(cli.varlink_sockets_path, "/run/varlink/registry");
    assert_eq!(cli.cert, None);
    assert_eq!(cli.key, None);
    assert_eq!(cli.trust, None);
    assert_eq!(cli.authorized_keys, None);
    assert!(!cli.insecure);
}

#[test]
fn options_are_taken() {
    let cli = bridge(&[
        "--bind=[::1]:80",
        "--cert",
        "/c",
        "--key=/k",
        "/sockets",
        "--trust",
        "--insecure",
        "--authorized-keys=a=b",
        "--insecure",
    ]);
    assert_eq!(cli.bind, "[::1]:80");
    assert_eq!(cli.cert.as_deref(), Some("/c"));
    assert_eq!(cli.key.as_deref(), Some("/k"));
    assert_eq!(cli.trust.as_deref(), Some("--insecure"));
    assert_eq!(cli.authorized_keys.as_deref(), Some("a=b"));
    assert_eq!(cli.varlink_sockets_path, "/sockets");
    assert!(cli.insecure);
    assert_eq!(bridge(&["--bind=a", "--bind", "b"]).bind, "b");
    assert_eq!(bridge(&["--cert="]).cert.as_deref(), Some(""));
}

#[test]
fn attached_and_separate_values_are_the_same() {
    for option in ["--bind", "--cert", "--key", "--trust", "--authorized-keys"] {
        let attached = bridge(&[&format!("{option}=v"), "/s"]);
        let separate = bridge(&[option, "v", "/s"]);
        assert_eq!(format!("{attached:?}"), format!("{separate:?}"));
    }
}

#[test]
fn the_subcommand_may_be_named() {
    assert_eq!(bridge(&["bridge"]).varlink_sockets_path, "/run/varlink/registry");
    assert_eq!(bridge(&["bridge", "/s"]).varlink_sockets_path, "/s");
    assert_eq!(bridge(&["bridge", "bridge", "/s"]).varlink_sockets_path, "/s");
    assert!(matches!(
        parse(&["/s", "bridge"]),
        Err(CliError::UnexpectedArgument(value)) if value == b"bridge"
    ));
    assert_eq!(bridge(&["--", "--insecure"]).varlink_sockets_path, "--insecure");
    assert_eq!(bridge(&["-"]).varlink_sockets_path, "-");
}

#[test]
fn wrong_command_lines_are_refused() {
    assert!(matches!(
        parse(&["--cert"]),
        Err(CliError::MissingValue(option)) if option == "--cert"
    ));
    assert!(matches!(
        parse(&["--nope"]),
        Err(CliError::UnexpectedOption(option)) if option == "--nope"
    ));
    assert!(matches!(
        parse(&["--nope=1"]),
        Err(CliError::UnexpectedOption(option)) if option == "--nope"
    ));
    assert!(matches!(
        parse(&["-x"]),
        Err(CliError::UnexpectedOption(option)) if option == "-x"
    ));
    assert!(matches!(
        parse(&["/a", "/b"]),
        Err(CliError::UnexpectedArgument(value)) if value == b"/b"
    ));
    assert!(matches!(
        parse(&["--insecure=yes"]),
        Err(CliError::UnexpectedValue(option, value)) if option == "--insecure" && value == b"yes"
    ));
    assert!(matches!(
        parse(&["import-ssh"]),
        Err(CliError::MissingSource)
    ));
    assert!(matches!(
        parse(&["import-ssh", "a", "b", "c"]),
        Err(CliError::UnexpectedArgument(value)) if value == b"c"
    ));
    assert!(matches!(
        parse(&["import-ssh", "--bind=x"]),
        Err(CliError::UnexpectedOption(option)) if option == "--bind"
    ));
}

#[test]
fn help_is_asked_for() {
    assert!(matches!(parse(&["--help"]), Ok(Command::Help)));
    assert!(matches!(parse(&["/a", "--help", "/b"]), Ok(Command::Help)));
    assert!(matches!(
        parse(&["import-ssh", "--help"]),
        Ok(Command::ImportSshHelp)
    ));
}

#[test]
fn imports_are_asked_for() {
    match parse(&["import-ssh", "gh:me"]) {
        Ok(Command::ImportSsh(import)) => {
            assert_eq!(import.source, "gh:me");
            assert_eq!(import.output, None);
        }
        other => panic!("{other:?}"),
    }
    match parse(&["--insecure", "import-ssh", "gh:me", "--", "--out"]) {
        Ok(Command::ImportSsh(import)) => {
            assert_eq!(import.source, "gh:me");
            assert_eq!(import.output.as_deref(), Some("--out"));
        }
        other => panic!("{other:?}"),
    }
    let mut parser = lexopt::Parser::from_args(["gh:me"]);
    assert!(matches!(
        parse_import_ssh_args(&mut parser),
        Ok(Command::ImportSsh(_))
    ));
}

#[test]
fn parsers_of_the_environment_are_taken() {
    let mut parser = lexopt::Parser::from_iter(["varlink-httpd", "--bind", "x", "/s"]);
    match parse_cli(&mut parser) {
        Ok(Command::Bridge(cli)) => {
            assert_eq!(cli.bind, "x");
            assert_eq!(cli.varlink_sockets_path, "/s");
        }
        other => panic!("{other:?}"),
    }
}

#[test]
fn values_may_be_any_text() {
    assert!(matches!(
        parse(&["--cert", "\u{e4}"]),
        Ok(Command::Bridge(cli)) if cli.cert.as_deref() == Some("\u{e4}")
    ));
}

/// Parses a command line that ends in an argument which is not UTF-8.
fn parse_with_bytes(args: &[&str], last: &[u8]) -> Result<Command, CliError> {
    // A file of that name, seen from its directory, has it as an argument would.
    let dir = tempfile::tempdir().unwrap();
    let mut path = dir.path().to_str().unwrap().as_bytes().to_vec();
    path.push(b'/');
    path.extend_from_slice(last);
    rustix::fs::mkdir(&path[..], rustix::fs::Mode::RWXU).unwrap();
    let name = dir.path().read_dir().unwrap().next().unwrap().unwrap().file_name();
    let mut all: Vec<_> = args.iter().map(|a| a.to_string().into()).collect();
    all.push(name);
    parse_cli(&mut lexopt::Parser::from_args(all))
}

#[test]
fn values_have_to_be_text() {
    for args in [&["--cert"][..], &[][..], &["import-ssh"][..], &["import-ssh", "a"][..]] {
        assert!(matches!(
            parse_with_bytes(args, b"a\xffb"),
            Err(CliError::NonUnicodeValue(value)) if value == b"a\xffb"
        ));
    }
    assert!(matches!(
        parse_with_bytes(&["x"], b"a\xffb"),
        Err(CliError::UnexpectedArgument(value)) if value == b"a\xffb"
    ));
    assert!(matches!(
        parse_with_bytes(&[], b"--bind=\xff"),
        Err(CliError::NonUnicodeValue(value)) if value == b"\xff"
    ));
    assert!(matches!(
        parse_with_bytes(&[], b"--bi\xffnd=x"),
        Err(CliError::UnexpectedOption(option)) if option == "--bi\u{fffd}nd"
    ));
    assert!(matches!(
        parse_with_bytes(&[], b"-\xff"),
        Err(CliError::UnexpectedOption(option)) if option == "-\u{fffd}"
    ));
}
