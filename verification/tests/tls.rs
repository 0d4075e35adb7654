use std::path::Path;
use varlink_httpd::tls::{
    build_ssl_connector, client_channel_binding, client_config_dir, client_config_dirs,
    client_file_places, has_nonzero, resolve_tls_acceptor, server_channel_binding, TLS_CHANNEL_BINDING_LABEL,
    TLS_CHANNEL_BINDING_LEN,
};

fn s(text: &str) -> Option<String> {
    Some(text.to_string())
}

fn list(paths: &[&str]) -> Vec<String> {
    paths.iter().map(|p| p.to_string()).collect()
}

/// The credential files of a directory that exist.
fn existing(dir: &Path) -> Vec<String> {
    ["cert", "key", "trust"]
        .iter()
        .map(|name| dir.join(name))
        .filter(|p| p.exists())
        .map(|p| p.to_str().unwrap().to_string())
        .collect()
}

#[test]
fn test_tls_credentials_directory_returns_none_without_creds() {
    let empty_dir = tempfile::tempdir().unwrap();
    let result = resolve_tls_acceptor(
        None,
        None,
        None,
        Some(empty_dir.path().to_str().unwrap()),
        &existing(empty_dir.path()),
    )
    .unwrap();
    assert!(
        result.is_none(),
        "empty credentials dir should yield no TLS"
    );
}

#[test]
fn credentials_stand_in_for_options() {
    let files = resolve_tls_acceptor(
        None,
        s("/cli/key"),
        None,
        Some("/creds"),
        &list(&["/creds/cert", "/creds/key", "/creds/trust"]),
    )
    .unwrap()
    .unwrap();
    assert_eq!(files.cert, "/creds/cert");
    assert_eq!(files.key, "/cli/key");
    assert_eq!(files.client_ca, s("/creds/trust"));

    let files = resolve_tls_acceptor(s("/c"), s("/k"), None, None, &list(&[]))
        .unwrap()
        .unwrap();
    assert_eq!(files.client_ca, None);
}

#[test]
fn incomplete_tls_options_are_refused() {
    for (cert, key) in [(s("/c"), None), (None, s("/k"))] {
        assert_eq!(
            resolve_tls_acceptor(cert, key, None, None, &list(&[])).unwrap_err(),
            "--cert and --key must be specified together"
        );
    }
    assert_eq!(
        resolve_tls_acceptor(None, None, s("/ca"), None, &list(&[])).unwrap_err(),
        "--trust requires --cert and --key"
    );
    assert_eq!(
        resolve_tls_acceptor(None, None, None, Some("/d"), &list(&["/d/trust"])).unwrap_err(),
        "--trust requires --cert and --key"
    );
}

#[test]
fn channels_are_known_by_base64() {
    let mut material = [0u8; 32];
    assert!(!has_nonzero(&material));
    assert_eq!(
        client_channel_binding(&material),
        "AAAAAAAAAAAAAAAAAAAAAAAAAAAAAAAAAAAAAAAAAAA="
    );
    material[31] = 1;
    assert!(has_nonzero(&material));
    assert_eq!(
        server_channel_binding(&material),
        "AAAAAAAAAAAAAAAAAAAAAAAAAAAAAAAAAAAAAAAAAAE="
    );
    assert_eq!(server_channel_binding(&material), client_channel_binding(&material));
    assert_eq!(TLS_CHANNEL_BINDING_LEN, material.len());
    assert_eq!(TLS_CHANNEL_BINDING_LABEL, "EXPORTER-Channel-Binding");
}

#[test]
fn clients_find_their_files() {
    assert_eq!(
        client_config_dirs(Some("/x"), Some("/h"), Some("/c")),
        list(&["/x/varlink-httpd", "/h/.config/varlink-httpd", "/c"])
    );
    assert_eq!(client_config_dirs(None, None, None), list(&[]));
    assert_eq!(
        client_config_dir(
            Some("/x"),
            Some("/h"),
            Some("/c"),
            &list(&["/c", "/h/.config/varlink-httpd"])
        ),
        s("/h/.config/varlink-httpd")
    );
    assert_eq!(
        client_config_dir(Some("/x"), None, Some("/c"), &list(&["/c"])),
        s("/c")
    );
    assert_eq!(client_config_dir(Some("/x"), None, None, &list(&[])), None);
}

#[test]
fn clients_use_a_certificate_only_with_its_key() {
    assert_eq!(
        client_file_places("/d"),
        list(&["/d/client-cert-file", "/d/client-key-file", "/d/server-ca-file"])
    );
    let files = build_ssl_connector(
        "/d",
        &list(&["/d/client-cert-file", "/d/client-key-file", "/d/server-ca-file"]),
    );
    let identity = files.identity.unwrap();
    assert_eq!(identity.cert, "/d/client-cert-file");
    assert_eq!(identity.key, "/d/client-key-file");
    assert_eq!(files.ca, s("/d/server-ca-file"));

    let files = build_ssl_connector("/d", &list(&["/d/client-cert-file"]));
    assert!(files.identity.is_none());
    assert_eq!(files.ca, None);
    let files = build_ssl_connector("/d", &list(&["/d/client-key-file", "/d/server-ca-file"]));
    assert!(files.identity.is_none());
    assert_eq!(files.ca, s("/d/server-ca-file"));
}

#[test]
fn a_required_client_certificate_is_held_to_a_ca() {
    for (cli, creds, present) in [
        (s("/ca"), None, list(&[])),
        (None, Some("/d"), list(&["/d/trust"])),
        (None, Some("/d"), list(&[])),
    ] {
        let required = varlink_httpd::config::has_mtls(&cli, creds, &present);
        let files = resolve_tls_acceptor(s("/c"), s("/k"), cli, creds, &present)
            .unwrap()
            .unwrap();
        assert_eq!(files.client_ca.is_some(), required);
    }
}
