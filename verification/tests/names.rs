use varlink_httpd::interface_name::varlink_interface_name_is_valid;
use varlink_httpd::paths::join_path;
use varlink_httpd::sockets::{
    socket_of_call, sockets_kind, DirEntry, SocketsKind, VarlinkSockets,
};

#[test]
fn interface_names() {
    for name in ["io.systemd.Hostname", "a.b", "a.1", "a--b.c-d", "org.x.y.z", "A0.0"] {
        assert!(varlink_interface_name_is_valid(name), "{name}");
    }
    for name in [
        "", "a", ".", "a.", ".a", "a..b", "1.a", "-a.b", "a-.b", "a.-b", "a.b-", "a.b.", "a b.c",
        "a/b.c", "../x.y", "a.b\n", "\u{e4}.b", "a_b.c",
    ] {
        assert!(!varlink_interface_name_is_valid(name), "{name}");
    }
}

#[test]
fn interface_names_match_their_pattern() {
    let pattern =
        regex_lite::Regex::new(r"^[A-Za-z]([-]*[A-Za-z0-9])*(\.[A-Za-z0-9]([-]*[A-Za-z0-9])*)+$")
            .unwrap();
    let alphabet = ['a', 'Z', '0', '-', '.', '/', '\n'];
    let mut texts = vec![String::new()];
    let mut from = 0;
    for _ in 0..5 {
        let to = texts.len();
        for i in from..to {
            for c in alphabet {
                let mut text = texts[i].clone();
                text.push(c);
                texts.push(text);
            }
        }
        from = to;
    }
    for text in &texts {
        assert_eq!(
            varlink_interface_name_is_valid(text),
            pattern.is_match(text),
            "{text:?}"
        );
    }
}

fn entry(name: &str, is_socket: bool) -> DirEntry {
    DirEntry {
        name: Some(name.to_string()),
        is_socket,
    }
}

#[test]
fn test_error_bad_request_for_unclean_address() {
    let sockets = VarlinkSockets::SocketDir { dirfd: 3 };
    let error = sockets
        .resolve_call("com.missing.Call", Some("../io.systemd.Hostname"))
        .unwrap_err();
    assert_eq!(error.status.code(), 400);
    assert_eq!(
        error.message,
        "invalid socket name (must be a valid varlink interface name): ../io.systemd.Hostname"
    );
}

#[test]
fn test_error_bad_request_for_invalid_chars_in_address() {
    let sockets = VarlinkSockets::SocketDir { dirfd: 3 };
    let error = sockets
        .resolve_call("com.missing.Call", Some("io.systemd.Hostname\nbad-msg"))
        .unwrap_err();
    assert_eq!(error.status.code(), 400);
    assert_eq!(
        error.message,
        "invalid socket name (must be a valid varlink interface name): io.systemd.Hostname\nbad-msg"
    );
}

#[test]
fn test_error_bad_request_for_method_without_dots() {
    let sockets = VarlinkSockets::SocketDir { dirfd: 3 };
    let error = sockets.resolve_call("NoDots", None).unwrap_err();
    assert_eq!(error.status.code(), 400);
    assert_eq!(
        error.message,
        "cannot derive socket from method 'NoDots': no dots in name"
    );
}

#[test]
fn test_single_socket_rejects_wrong_name() {
    let sockets = VarlinkSockets::SingleSocket {
        dirfd: 3,
        name: "io.systemd.Hostname".to_string(),
    };
    let error = sockets
        .resolve_call("io.systemd.Wrong.Describe", None)
        .unwrap_err();
    assert_eq!(error.status.code(), 502);
    assert_eq!(
        error.message,
        "socket 'io.systemd.Wrong' not available (only 'io.systemd.Hostname' is available)"
    );
}

#[test]
fn a_single_socket_is_reached_by_its_name() {
    let sockets = VarlinkSockets::SingleSocket {
        dirfd: 7,
        name: "io.systemd.Hostname".to_string(),
    };
    assert_eq!(
        sockets
            .resolve_call("io.systemd.Hostname.Describe", None)
            .unwrap(),
        "/proc/self/fd/7/io.systemd.Hostname"
    );
}

#[test]
fn calls_may_name_their_socket() {
    let sockets = VarlinkSockets::SocketDir { dirfd: 11 };
    assert_eq!(
        sockets
            .resolve_call("org.varlink.service.GetInfo", Some("io.systemd.Hostname"))
            .unwrap(),
        "/proc/self/fd/11/io.systemd.Hostname"
    );
}

#[test]
fn sockets_are_listed() {
    let sockets = VarlinkSockets::SocketDir { dirfd: 3 };
    let names = sockets.list_sockets(&vec![entry("io.systemd.Hostname", true)]);
    assert_eq!(names, vec!["io.systemd.Hostname"]);
}

#[test]
fn entries_that_are_no_sockets_are_skipped() {
    let sockets = VarlinkSockets::SocketDir { dirfd: 3 };
    let names = sockets.list_sockets(&vec![
        entry("io.systemd.Hostname", true),
        entry("io.example.Bad", false),
    ]);
    assert_eq!(names, vec!["io.systemd.Hostname"]);
}

#[test]
fn listings_are_sorted_and_hold_interfaces_only() {
    let sockets = VarlinkSockets::SocketDir { dirfd: 3 };
    let entries = vec![
        entry("io.systemd.UserDatabase", true),
        entry("notes.txt", false),
        entry("private", true),
        DirEntry {
            name: None,
            is_socket: true,
        },
        entry("io.systemd.Hostname", true),
        entry("a.b", true),
        entry("Z.b", true),
    ];
    assert_eq!(
        sockets.list_sockets(&entries),
        vec!["Z.b", "a.b", "io.systemd.Hostname", "io.systemd.UserDatabase"]
    );
    let single = VarlinkSockets::SingleSocket {
        dirfd: 3,
        name: "anything".to_string(),
    };
    assert_eq!(single.list_sockets(&entries), vec!["anything"]);
}

#[test]
fn sockets_are_resolved_below_their_directory() {
    let sockets = VarlinkSockets::SocketDir { dirfd: -1 };
    assert_eq!(
        sockets.resolve_socket_with_validate("a.b").unwrap(),
        "/proc/self/fd/-1/a.b"
    );
    assert_eq!(
        sockets
            .resolve_socket_with_validate("nodots")
            .unwrap_err()
            .message,
        "invalid socket name (must be a valid varlink interface name): nodots"
    );
    assert_eq!(socket_of_call("a.b.Do", None).unwrap(), "a.b");
    assert_eq!(socket_of_call("a.b.Do", Some("x")).unwrap(), "x");
    assert_eq!(socket_of_call("NoDots", Some("x.y")).unwrap(), "x.y");
}

#[test]
fn single_sockets_are_split_into_directory_and_name() {
    let location = VarlinkSockets::from_socket("/run/systemd/io.systemd.Hostname").unwrap();
    assert_eq!(location.dir, "/run/systemd");
    assert_eq!(location.name, "io.systemd.Hostname");
    let location = VarlinkSockets::from_socket("io.systemd.Hostname").unwrap();
    assert_eq!(location.dir, "");
    assert_eq!(
        VarlinkSockets::from_socket("/run/..").unwrap_err(),
        "cannot extract socket name from /run/.."
    );
    assert_eq!(
        VarlinkSockets::location_of(Some("x".to_string()), None, "x").unwrap_err(),
        "cannot extract parent directory from x"
    );
    assert_eq!(
        VarlinkSockets::location_of(None, Some("x".to_string()), "/").unwrap_err(),
        "cannot extract socket name from /"
    );
}

#[test]
fn the_sockets_are_a_directory_or_a_socket() {
    assert_eq!(sockets_kind("/x", true, false), Ok(SocketsKind::Directory));
    assert_eq!(sockets_kind("/x", false, true), Ok(SocketsKind::Socket));
    assert_eq!(
        sockets_kind("/x", false, false),
        Err("path /x is neither a directory nor a socket".to_string())
    );
}

#[test]
fn paths_are_joined_as_on_unix() {
    for (dir, relative) in [
        ("/a", "b"),
        ("/a/", "b"),
        ("", "b"),
        ("/a", "/b"),
        ("a", ""),
        ("/", "etc/x"),
    ] {
        assert_eq!(
            join_path(dir, relative),
            std::path::Path::new(dir).join(relative).to_str().unwrap()
        );
    }
}

#[test]
fn listings_do_not_depend_on_the_order_of_entries() {
    let sockets = VarlinkSockets::SocketDir { dirfd: 3 };
    let one = sockets.list_sockets(&vec![entry("b.b", true), entry("a.a", true), entry("c.c", true)]);
    let two = sockets.list_sockets(&vec![entry("c.c", true), entry("b.b", true), entry("a.a", true)]);
    assert_eq!(one, two);
}

#[test]
fn listed_sockets_are_reachable() {
    let sockets = VarlinkSockets::SocketDir { dirfd: 3 };
    let entries = vec![entry("b.b", true), entry("nodots", true), entry("a.a-a.0", true)];
    let names = sockets.list_sockets(&entries);
    assert_eq!(names.len(), 2);
    for name in &names {
        assert!(sockets.resolve_socket_with_validate(name).is_ok());
    }
}
