use varlink_httpd::import_ssh::{
    default_authorized_keys_path, resolve_key_url, run, Fetched, ImportCommit, ImportEnv,
    ImportFetch, ImportSsh, ImportStage, ImportValidate, Staged, MAX_KEYS_BODY,
};

fn s(text: &str) -> Option<String> {
    Some(text.to_string())
}

fn env(creds: Option<&str>, is_root: bool, config: Option<&str>, home: Option<&str>) -> ImportEnv {
    ImportEnv {
        creds_dir: creds.map(String::from),
        is_root,
        config_home: config.map(String::from),
        home: home.map(String::from),
    }
}

#[test]
fn key_sources_are_resolved() {
    assert_eq!(
        resolve_key_url("gh:octocat").unwrap(),
        "https://github.com/octocat.keys"
    );
    assert_eq!(
        resolve_key_url("https://example.com/keys").unwrap(),
        "https://example.com/keys"
    );
    assert_eq!(resolve_key_url("gh:").unwrap(), "https://github.com/.keys");
    for source in ["http://example.com/keys", "octocat", "", "GH:x"] {
        assert_eq!(
            resolve_key_url(source).unwrap_err(),
            format!("unsupported source: {source} (use `gh:<user>` or an `https://` URL)")
        );
    }
}

#[test]
fn keys_go_where_the_environment_says() {
    assert_eq!(
        default_authorized_keys_path(&env(Some("/creds"), true, Some("/x"), Some("/h"))),
        "/creds/authorized_keys"
    );
    assert_eq!(
        default_authorized_keys_path(&env(None, true, Some("/x"), Some("/h"))),
        "/etc/varlink-httpd/authorized_keys"
    );
    assert_eq!(
        default_authorized_keys_path(&env(None, false, Some("/x"), Some("/h"))),
        "/x/varlink-httpd/authorized_keys"
    );
    assert_eq!(
        default_authorized_keys_path(&env(None, false, None, Some("/h"))),
        "/h/.config/varlink-httpd/authorized_keys"
    );
    assert_eq!(
        default_authorized_keys_path(&env(None, false, None, None)),
        "/root/.config/varlink-httpd/authorized_keys"
    );
}

#[test]
fn an_import_goes_through_its_steps() {
    let cmd = ImportSsh {
        source: "gh:me".to_string(),
        output: s("/o/keys"),
    };
    let fetch = run(cmd, &env(None, true, None, None)).unwrap();
    assert_eq!(fetch.url, "https://github.com/me.keys");
    assert_eq!(fetch.output, "/o/keys");
    let stage = fetch.fetched(Fetched::Body("ssh-ed25519 x".to_string())).unwrap();
    assert_eq!(stage.dir, "/o");
    assert_eq!(stage.body, "ssh-ed25519 x");
    let validate = stage.staged(Staged::Written).unwrap();
    let commit = validate.validated(Ok(2)).unwrap();
    assert_eq!(commit.key_count, 2);
    assert_eq!(
        commit.committed(Ok(()), false).unwrap(),
        vec![
            "Wrote 2 key(s) to /o/keys, run with:",
            "  varlink-httpd --authorized-keys=/o/keys"
        ]
    );
    let commit = ImportCommit {
        output: "/c/keys".to_string(),
        key_count: 1,
    };
    assert_eq!(
        commit.committed(Ok(()), true).unwrap(),
        vec!["Wrote 1 key(s) to /c/keys, run with:", "  varlink-httpd"]
    );
    let cmd = ImportSsh {
        source: "https://h/k".to_string(),
        output: None,
    };
    assert_eq!(
        run(cmd, &env(None, true, None, None)).unwrap().output,
        "/etc/varlink-httpd/authorized_keys"
    );
    assert_eq!(MAX_KEYS_BODY, 640 * 1024);
}

#[test]
fn an_import_can_fail_at_each_step() {
    let fetch = || ImportFetch {
        url: "U".to_string(),
        output: "/o/keys".to_string(),
    };
    assert_eq!(
        fetch().fetched(Fetched::CallFailed("c".to_string())).unwrap_err(),
        "failed to fetch keys from U: c"
    );
    assert_eq!(
        fetch().fetched(Fetched::BodyFailed("c".to_string())).unwrap_err(),
        "failed to read response body from U: c"
    );
    let root = ImportFetch {
        url: "U".to_string(),
        output: "/".to_string(),
    };
    assert_eq!(
        root.fetched(Fetched::Body(String::new())).unwrap_err(),
        "cannot determine parent directory of /"
    );
    assert_eq!(
        fetch().stage_in(String::new(), None).unwrap_err(),
        "cannot determine parent directory of /o/keys"
    );
    let stage = || ImportStage {
        url: "U".to_string(),
        output: "/o/keys".to_string(),
        dir: "/o".to_string(),
        body: String::new(),
    };
    assert_eq!(
        stage().staged(Staged::DirFailed("c".to_string())).unwrap_err(),
        "failed to create directory /o: c"
    );
    assert_eq!(
        stage().staged(Staged::CreateFailed("c".to_string())).unwrap_err(),
        "failed to create tempfile in /o: c"
    );
    assert_eq!(
        stage().staged(Staged::WriteFailed("c".to_string())).unwrap_err(),
        "failed to write tempfile in /o: c"
    );
    let validate = || ImportValidate {
        url: "U".to_string(),
        output: "/o/keys".to_string(),
    };
    assert_eq!(
        validate().validated(Err("c".to_string())).unwrap_err(),
        "response from U contains invalid SSH public keys: c"
    );
    assert_eq!(
        validate().validated(Ok(0)).unwrap_err(),
        "no valid SSH public keys found in response from U"
    );
    let commit = ImportCommit {
        output: "/o/keys".to_string(),
        key_count: 1,
    };
    assert_eq!(
        commit.committed(Err("c".to_string()), false).unwrap_err(),
        "failed to rename tempfile to /o/keys: c"
    );
}
