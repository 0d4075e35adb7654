use ssh_key::private::{Ed25519Keypair, PrivateKey};
use std::io::Write;
use std::path::Path;
use varlink_httpd::auth_ssh::{
    authorized_keys_path, authorized_keys_places, collect_keys, load_keys,
    maybe_create_ssh_authenticator, AuthError, KeyFileReading, Mtime, SshKeyAuthenticator,
};
use varlink_httpd::nonce::{NonceError, NonceStore, NANOS_PER_SEC};
use varlink_httpd::ssh_keys::KeyInfo;

const RSA_KEY: &str = "ssh-rsa AAAAB3NzaC1yc2EAAAADAQABAAABgQCmjkeMm8k3JkNrf16eb5pG4bc77B6Mt3VN4saltsRV8vASpyWa/PlBgdaeldOaNJ5NK0gqU3KyiUNzHbdcc8572e7IUBDJS/rlaWARiSL4aos2VbNX0k56Z5zYp9m/bq5m9/mlb+PQkNBjIhimgpYNiq2TwBiYeA6tLb79cPtHA0cX5BLk/a5oUpLsiR4kI/f+Q98vVDKasKXXVh5YLkLobrruDB6er2A9fOcIUF0O4JCRLh/Dc161gE3fQrYTMQenbppZzfxrZfQ8YwLPvKjnqm+XRX+pbTtaJuj0EgTSzUK+EZxoSw8CNwiZpxrjwecTMVQ8w/srQmh4ABGuTqk0wP8HcI7hg+fpBv7kiejh5X/Oehxt+Puu85u9GVXb1a0av/vhJvUCBcuISvCA/z1wVJ0xdLhb1/ZiTDdTzyNbZQ0OQijzK+e1SlkNhp+3eGVZu3pNZvnTppwIXv3wg6kV1HodkWGgh1ayY7Buc52Z8okDYqvJat5CzOj5OaQNr/k= user@example.com";

fn block_on<F: std::future::Future>(future: F) -> F::Output {
    tokio::runtime::Builder::new_current_thread()
        .enable_all()
        .build()
        .unwrap()
        .block_on(future)
}

fn write_file(path: &Path, text: &str) {
    block_on(async {
        tokio::fs::create_dir_all(path.parent().unwrap()).await.unwrap();
        tokio::fs::write(path, text).await.unwrap();
    });
}

/// A directory that stands for the root, with authorized keys in its `etc`.
fn make_test_rootdir_with_keys(pubkeys: &[&str]) -> tempfile::TempDir {
    let root = tempfile::tempdir().unwrap();
    let mut text = String::new();
    for key in pubkeys {
        text.push_str(key);
        text.push('\n');
    }
    write_file(
        &root.path().join("etc/varlink-http-bridge/authorized_keys"),
        &text,
    );
    root
}

fn read_key_file(path: &str) -> KeyFileReading {
    let mtime = Path::new(path)
        .metadata()
        .and_then(|m| m.modified())
        .map(|t| {
            let since = t.duration_since(std::time::UNIX_EPOCH).unwrap();
            Mtime {
                secs: since.as_secs() as i64,
                nanos: since.subsec_nanos(),
            }
        })
        .map_err(|e| e.to_string());
    let keys = sshauth::keyfile::parse_authorized_keys(path, true)
        .map(|keys| keys.iter().map(|k| k.to_openssh().unwrap()).collect())
        .map_err(|e| e.to_string());
    KeyFileReading { mtime, keys }
}

fn find_authenticator(
    cli: Option<String>,
    creds_dir: Option<&Path>,
    root: &Path,
) -> Result<Option<SshKeyAuthenticator>, String> {
    let creds = creds_dir.map(|d| d.to_str().unwrap());
    let root = root.to_str().unwrap();
    let existing: Vec<String> = authorized_keys_places(creds, root)
        .into_iter()
        .filter(|p| Path::new(p).exists())
        .collect();
    let found = authorized_keys_path(cli, creds, root, &existing).map(|path| {
        let reading = read_key_file(&path);
        (path, reading)
    });
    maybe_create_ssh_authenticator(found)
}

fn generate_ed25519_keypair() -> (String, PrivateKey) {
    let mut seed = [0u8; 32];
    openssl::rand::rand_bytes(&mut seed).unwrap();
    let key = PrivateKey::from(Ed25519Keypair::from_seed(&seed));
    (key.public_key().to_openssh().unwrap(), key)
}

fn openssl_ed25519_line() -> String {
    let pkey = openssl::pkey::PKey::generate_ed25519().unwrap();
    let raw_pub = pkey.raw_public_key().unwrap();
    let mut blob = Vec::new();
    let algo = b"ssh-ed25519";
    blob.extend_from_slice(&(algo.len() as u32).to_be_bytes());
    blob.extend_from_slice(algo);
    blob.extend_from_slice(&(raw_pub.len() as u32).to_be_bytes());
    blob.extend_from_slice(&raw_pub);
    let b64_blob = openssl::base64::encode_block(&blob);
    format!("ssh-ed25519 {b64_blob} testkey@host")
}

fn bearer(key: &PrivateKey, actions: &[(&str, &str)]) -> String {
    let mut builder = sshauth::TokenSigner::using_private_key(key.clone()).unwrap();
    builder.include_fingerprint(true).magic_prefix(*b"vhbridge");
    let signer = builder.build().unwrap();
    let mut tb = signer.sign_for();
    for (k, v) in actions {
        tb.action(k, v);
    }
    let token = block_on(tb.sign()).unwrap();
    format!("Bearer {}", token.encode())
}

fn unchanged(auth: &SshKeyAuthenticator) -> KeyFileReading {
    read_key_file(auth.key_file())
}

fn check(
    auth: &mut SshKeyAuthenticator,
    header: &str,
    nonce: Option<&str>,
    binding: Option<&str>,
    now: u128,
) -> Result<(), AuthError> {
    let reading = unchanged(auth);
    auth.check_request(&reading, "GET", "/sockets", header, nonce, binding, now)
        .map(|_| ())
}

#[test]
fn test_ssh_auth_parse_authorized_keys_ed25519() {
    let line = openssl_ed25519_line();
    let root = make_test_rootdir_with_keys(&[&line]);
    let auth = find_authenticator(None, None, root.path()).unwrap().unwrap();
    assert_eq!(auth.key_count(), 1);
}

#[test]
fn test_ssh_auth_parse_authorized_keys_rsa() {
    let root = make_test_rootdir_with_keys(&[RSA_KEY]);
    let result = find_authenticator(None, None, root.path());
    assert!(result.is_err());
    assert!(
        result.unwrap_err().contains("RSA is not supported"),
        "RSA-only authorized_keys should fail with clear message"
    );
}

#[test]
fn test_ssh_auth_rejects_garbage() {
    let root = make_test_rootdir_with_keys(&["not-a-real-key line", "# comment"]);
    let result = find_authenticator(None, None, root.path());
    assert!(result.is_err());
    assert!(result.unwrap_err().contains("no supported SSH public keys"));
}

#[test]
fn test_ssh_auth_rejects_expired_timestamp() {
    let (pubkey_line, privkey) = generate_ed25519_keypair();
    let root = make_test_rootdir_with_keys(&[pubkey_line.trim()]);
    let mut auth = find_authenticator(None, None, root.path())
        .unwrap()
        .unwrap()
        .with_max_skew(0);
    assert_eq!(auth.skew_seconds(), 0);
    let nonce = "test-nonce-expired12345";
    let header = bearer(
        &privkey,
        &[("method", "GET"), ("path", "/sockets"), ("nonce", nonce)],
    );
    block_on(async { tokio::time::sleep(std::time::Duration::from_secs(2)).await });
    let result = check(&mut auth, &header, Some(nonce), None, 0);
    assert!(result.is_err(), "expired token should be rejected");
    assert_eq!(result, Err(AuthError::VerificationFailed));
}

#[test]
fn test_ssh_auth_rejects_unknown_fingerprint() {
    let (pubkey_a_line, _) = generate_ed25519_keypair();
    let root = make_test_rootdir_with_keys(&[pubkey_a_line.trim()]);
    let mut auth = find_authenticator(None, None, root.path()).unwrap().unwrap();
    let (_, privkey_b) = generate_ed25519_keypair();
    let nonce = "test-nonce-unknown-fp12345";
    let header = bearer(
        &privkey_b,
        &[("method", "GET"), ("path", "/sockets"), ("nonce", nonce)],
    );
    let result = check(&mut auth, &header, Some(nonce), None, 0);
    assert!(result.is_err());
    assert!(result
        .unwrap_err()
        .message()
        .contains("token verification failed"));
}

#[test]
fn test_ssh_auth_verify_ed25519() {
    let (pubkey_line, privkey) = generate_ed25519_keypair();
    let root = make_test_rootdir_with_keys(&[pubkey_line.trim()]);
    let mut auth = find_authenticator(None, None, root.path()).unwrap().unwrap();
    let nonce = "test-nonce-verify12345";
    let header = bearer(
        &privkey,
        &[("method", "GET"), ("path", "/sockets"), ("nonce", nonce)],
    );
    check(&mut auth, &header, Some(nonce), None, 0).expect("valid ed25519 token should pass");
}

#[test]
fn test_ssh_auth_rejects_replayed_nonce() {
    let (pubkey_line, privkey) = generate_ed25519_keypair();
    let root = make_test_rootdir_with_keys(&[pubkey_line.trim()]);
    let mut auth = find_authenticator(None, None, root.path()).unwrap().unwrap();
    let nonce = "replay-me12345678";
    let header = bearer(
        &privkey,
        &[("method", "GET"), ("path", "/sockets"), ("nonce", nonce)],
    );
    check(&mut auth, &header, Some(nonce), None, 0).expect("first use of nonce should pass");
    let result = check(&mut auth, &header, Some(nonce), None, NANOS_PER_SEC);
    assert!(result.is_err(), "replayed nonce should be rejected");
    assert!(
        result.unwrap_err().message().contains("nonce already used"),
        "error should mention nonce replay"
    );
}

#[test]
fn test_ssh_auth_rejects_missing_nonce() {
    let (pubkey_line, privkey) = generate_ed25519_keypair();
    let root = make_test_rootdir_with_keys(&[pubkey_line.trim()]);
    let mut auth = find_authenticator(None, None, root.path()).unwrap().unwrap();
    let header = bearer(&privkey, &[("method", "GET"), ("path", "/sockets")]);
    let result = check(&mut auth, &header, None, None, 0);
    assert!(result.is_err(), "request without nonce should be rejected");
    assert!(result.unwrap_err().message().contains("missing nonce"));
}

#[test]
fn test_ssh_auth_credential_discovery() {
    let (pubkey_a, _) = generate_ed25519_keypair();
    let (pubkey_b1, _) = generate_ed25519_keypair();
    let (pubkey_b2, _) = generate_ed25519_keypair();

    let empty_root = tempfile::tempdir().unwrap();
    let result = find_authenticator(None, None, empty_root.path()).unwrap();
    assert!(result.is_none(), "empty rootdir should yield None");

    let root = make_test_rootdir_with_keys(&[pubkey_a.trim()]);
    let auth = find_authenticator(None, None, root.path()).unwrap().unwrap();
    assert_eq!(auth.key_count(), 1, "should find key from /etc path");

    let root_run = tempfile::tempdir().unwrap();
    write_file(
        &root_run
            .path()
            .join("run/credentials/@system/ssh.authorized_keys.root"),
        &pubkey_a,
    );
    let auth = find_authenticator(None, None, root_run.path()).unwrap().unwrap();
    assert_eq!(auth.key_count(), 1, "should find key from /run path");

    let two_keys = format!("{}\n{}\n", pubkey_b1.trim(), pubkey_b2.trim());
    let root_both = tempfile::tempdir().unwrap();
    write_file(
        &root_both
            .path()
            .join("etc/varlink-http-bridge/authorized_keys"),
        &pubkey_a,
    );
    write_file(
        &root_both
            .path()
            .join("run/credentials/@system/ssh.authorized_keys.root"),
        &two_keys,
    );
    let auth = find_authenticator(None, None, root_both.path()).unwrap().unwrap();
    assert_eq!(
        auth.key_count(),
        1,
        "/etc (1 key) should take priority over /run (2 keys)"
    );

    let creds_dir = tempfile::tempdir().unwrap();
    write_file(&creds_dir.path().join("ssh.authorized_keys.root"), &pubkey_a);
    let root_with_run_only = tempfile::tempdir().unwrap();
    write_file(
        &root_with_run_only
            .path()
            .join("run/credentials/@system/ssh.authorized_keys.root"),
        &two_keys,
    );
    let auth = find_authenticator(None, Some(creds_dir.path()), root_with_run_only.path())
        .unwrap()
        .unwrap();
    assert_eq!(
        auth.key_count(),
        1,
        "creds_dir (1 key) should take priority over /run (2 keys)"
    );

    let cli_root = make_test_rootdir_with_keys(&[pubkey_a.trim()]);
    let mut cli_file = tempfile::NamedTempFile::new().unwrap();
    cli_file.write_all(b"not-a-real-key garbage\n").unwrap();
    let result = find_authenticator(
        Some(cli_file.path().to_str().unwrap().to_string()),
        Some(creds_dir.path()),
        cli_root.path(),
    );
    assert!(
        result.is_err(),
        "CLI path should be used, not /etc or credential"
    );
}

#[test]
fn tokens_are_bound_to_their_channel() {
    let (pubkey_line, privkey) = generate_ed25519_keypair();
    let root = make_test_rootdir_with_keys(&[pubkey_line.trim()]);
    let mut auth = find_authenticator(None, None, root.path()).unwrap().unwrap();
    let nonce = "bound-nonce-1234567";
    let request = [("method", "GET"), ("path", "/sockets"), ("nonce", nonce)];
    let unbound = bearer(&privkey, &request);
    assert_eq!(
        check(&mut auth, &unbound, Some(nonce), Some("channel"), 0),
        Err(AuthError::VerificationFailed)
    );
    let bound = bearer(
        &privkey,
        &[
            request[0],
            request[1],
            request[2],
            ("tls-channel-binding", "channel"),
        ],
    );
    assert_eq!(
        check(&mut auth, &bound, Some(nonce), Some("other"), 0),
        Err(AuthError::VerificationFailed)
    );
    assert_eq!(
        check(&mut auth, &bound, Some(nonce), None, 0),
        Err(AuthError::VerificationFailed)
    );
    assert_eq!(check(&mut auth, &bound, Some(nonce), Some("channel"), 0), Ok(()));
}

#[test]
fn tokens_are_for_one_request_only() {
    let (pubkey_line, privkey) = generate_ed25519_keypair();
    let root = make_test_rootdir_with_keys(&[pubkey_line.trim()]);
    let mut auth = find_authenticator(None, None, root.path()).unwrap().unwrap();
    let nonce = "one-request-nonce-1";
    let header = bearer(
        &privkey,
        &[("method", "POST"), ("path", "/sockets"), ("nonce", nonce)],
    );
    assert_eq!(
        check(&mut auth, &header, Some(nonce), None, 0),
        Err(AuthError::VerificationFailed)
    );
    let header = bearer(
        &privkey,
        &[("method", "GET"), ("path", "/sockets?x"), ("nonce", nonce)],
    );
    assert_eq!(
        check(&mut auth, &header, Some(nonce), None, 0),
        Err(AuthError::VerificationFailed)
    );
    let header = bearer(
        &privkey,
        &[("method", "GET"), ("path", "/sockets"), ("nonce", nonce)],
    );
    assert_eq!(
        check(&mut auth, &header, Some("another-nonce-12345"), None, 0),
        Err(AuthError::VerificationFailed)
    );
    assert_eq!(check(&mut auth, &header, Some(nonce), None, 0), Ok(()));
}

#[test]
fn refused_headers_have_their_errors() {
    let (pubkey_line, privkey) = generate_ed25519_keypair();
    let root = make_test_rootdir_with_keys(&[pubkey_line.trim()]);
    let mut auth = find_authenticator(None, None, root.path()).unwrap().unwrap();
    let nonce = Some("some-nonce-1234567");
    assert_eq!(
        check(&mut auth, "Basic abc", nonce, None, 0),
        Err(AuthError::NotBearer)
    );
    assert_eq!(
        check(&mut auth, "bearer abc", nonce, None, 0),
        Err(AuthError::NotBearer)
    );
    assert_eq!(
        check(&mut auth, "Bearer bogus-token", nonce, None, 0),
        Err(AuthError::InvalidToken)
    );
    assert_eq!(
        check(&mut auth, "Basic abc", None, None, 0),
        Err(AuthError::MissingNonce)
    );
    let short = bearer(
        &privkey,
        &[("method", "GET"), ("path", "/sockets"), ("nonce", "short")],
    );
    let refused = check(&mut auth, &short, Some("short"), None, 0);
    assert_eq!(refused, Err(AuthError::Nonce(NonceError::TooShort(5))));
    assert_eq!(
        refused.unwrap_err().message(),
        "nonce too short (5 bytes, minimum 16)"
    );
    assert_eq!(
        AuthError::MissingNonce.message(),
        "missing nonce header (x-auth-nonce)"
    );
    assert_eq!(
        AuthError::NotBearer.message(),
        "Authorization header must start with 'Bearer '"
    );
    assert_eq!(AuthError::InvalidToken.message(), "invalid token");
    assert_eq!(
        AuthError::VerificationFailed.message(),
        "token verification failed"
    );
}

#[test]
fn a_bad_signature_does_not_use_up_the_nonce() {
    let (pubkey_line, privkey) = generate_ed25519_keypair();
    let (_, stranger) = generate_ed25519_keypair();
    let root = make_test_rootdir_with_keys(&[pubkey_line.trim()]);
    let mut auth = find_authenticator(None, None, root.path()).unwrap().unwrap();
    let nonce = "kept-for-later-123";
    let actions = [("method", "GET"), ("path", "/sockets"), ("nonce", nonce)];
    let forged = bearer(&stranger, &actions);
    assert!(check(&mut auth, &forged, Some(nonce), None, 0).is_err());
    let header = bearer(&privkey, &actions);
    assert_eq!(check(&mut auth, &header, Some(nonce), None, 1), Ok(()));
}

#[test]
fn keys_are_reloaded_when_the_file_changes() {
    let (old_key, _) = generate_ed25519_keypair();
    let (new_key, new_private) = generate_ed25519_keypair();
    let at = |secs| Mtime { secs, nanos: 5 };
    let reading = |mtime: Result<Mtime, String>, keys: Result<Vec<String>, String>| {
        KeyFileReading { mtime, keys }
    };
    let mut auth =
        SshKeyAuthenticator::new("/keys", reading(Ok(at(1)), Ok(vec![old_key.clone()]))).unwrap();
    assert_eq!(auth.key_file(), "/keys");
    assert_eq!(auth.skew_seconds(), 60);
    assert_eq!(auth.fingerprints().len(), 1);

    assert!(!auth.needs_reload(&Ok(at(1))));
    auth.maybe_reload(&reading(Ok(at(1)), Ok(vec![])));
    assert_eq!(auth.key_count(), 1);

    assert!(!auth.needs_reload(&Err("gone".to_string())));
    auth.maybe_reload(&reading(Err("gone".to_string()), Err("gone".to_string())));
    assert_eq!(auth.key_count(), 1);

    assert!(auth.needs_reload(&Ok(at(2))));
    auth.maybe_reload(&reading(Ok(at(2)), Ok(vec![old_key.clone(), new_key.clone()])));
    assert_eq!(auth.key_count(), 2);
    assert!(!auth.needs_reload(&Ok(at(2))));

    let nonce = "reload-nonce-12345";
    let header = bearer(
        &new_private,
        &[("method", "GET"), ("path", "/sockets"), ("nonce", nonce)],
    );
    let broken = reading(Ok(at(3)), Err("unreadable".to_string()));
    let refused = auth.check_request(&broken, "GET", "/sockets", &header, Some(nonce), None, 0);
    assert_eq!(refused, Err(AuthError::VerificationFailed));
    assert_eq!(auth.key_count(), 0);
    let mended = reading(Ok(at(4)), Ok(vec![new_key]));
    let admitted = auth.check_request(&mended, "GET", "/sockets", &header, Some(nonce), None, 0);
    let fingerprint = new_private.fingerprint(ssh_key::HashAlg::Sha256);
    assert_eq!(admitted, Ok(fingerprint.to_string()));
    assert_eq!(auth.key_count(), 1);
}

#[test]
fn an_authenticator_needs_a_readable_file_with_keys() {
    let (key, _) = generate_ed25519_keypair();
    let at = Mtime { secs: 0, nanos: 0 };
    let error = SshKeyAuthenticator::new(
        "/keys",
        KeyFileReading {
            mtime: Ok(at),
            keys: Err("no such file".to_string()),
        },
    )
    .unwrap_err();
    assert_eq!(error, "failed to read authorized keys from /keys: no such file");
    let error = SshKeyAuthenticator::new(
        "/keys",
        KeyFileReading {
            mtime: Err("vanished".to_string()),
            keys: Ok(vec![key]),
        },
    )
    .unwrap_err();
    assert_eq!(error, "failed to stat /keys: vanished");
    let error = SshKeyAuthenticator::new(
        "/keys",
        KeyFileReading {
            mtime: Ok(at),
            keys: Ok(vec![RSA_KEY.to_string()]),
        },
    )
    .unwrap_err();
    assert_eq!(
        error,
        "no supported SSH public keys in /keys (note: RSA is not supported, use Ed25519 or ECDSA)"
    );
    assert!(maybe_create_ssh_authenticator(None).unwrap().is_none());
}

#[test]
fn one_key_per_fingerprint_is_kept() {
    let (first, private) = generate_ed25519_keypair();
    let (second, _) = generate_ed25519_keypair();
    let mut again = private.public_key().clone();
    again.set_comment("the same key");
    let keys = load_keys(&vec![
        first,
        RSA_KEY.to_string(),
        "garbage".to_string(),
        second,
        again.to_openssh().unwrap(),
    ]);
    assert_eq!(keys.len(), 2);
    assert_eq!(
        keys.entry(0).0,
        private.fingerprint(ssh_key::HashAlg::Sha256).to_string()
    );
    assert!(keys.entry(0).1.ends_with("the same key"));
}

#[test]
fn collected_keys_follow_what_was_decoded() {
    let info = |algorithm: &str, fingerprint: &str| {
        Ok(KeyInfo {
            algorithm: algorithm.to_string(),
            fingerprint: fingerprint.to_string(),
        })
    };
    let listed = vec!["a".to_string(), "b".to_string(), "c".to_string(), "d".to_string()];
    let decoded = vec![
        info("ssh-ed25519", "one"),
        info("rsa-sha2-512", "two"),
        Err("bad".to_string()),
        info("ecdsa-sha2-nistp256", "one"),
    ];
    let keys = collect_keys(&listed, &decoded);
    assert_eq!(keys.len(), 1);
    assert_eq!(keys.entry(0).0, "one");
    assert_eq!(keys.entry(0).1, "d");
}

#[test]
fn signers_are_admitted_once_per_nonce() {
    let (key, _) = generate_ed25519_keypair();
    let mut auth = SshKeyAuthenticator::new(
        "/keys",
        KeyFileReading {
            mtime: Ok(Mtime { secs: 0, nanos: 0 }),
            keys: Ok(vec![key]),
        },
    )
    .unwrap();
    let nonce = "0123456789abcdef";
    let signer = || Some("SHA256:x".to_string());
    let admitted: Result<String, AuthError> = Ok("SHA256:x".to_string());
    assert_eq!(
        auth.use_signer(None, nonce, 0),
        Err(AuthError::VerificationFailed)
    );
    assert_eq!(auth.use_signer(signer(), nonce, 0), admitted);
    let window = 120 * NANOS_PER_SEC;
    assert_eq!(
        auth.use_signer(signer(), "fedcba9876543210", window / 2),
        admitted
    );
    assert_eq!(
        auth.use_signer(signer(), nonce, window - 1),
        Err(AuthError::Nonce(NonceError::AlreadyUsed))
    );
    assert_eq!(auth.use_signer(signer(), nonce, 2 * window), admitted);
}

#[test]
fn nonces_are_remembered_for_twice_the_skew() {
    let mut store = NonceStore::new(2);
    let nonce = "abcdefghijklmnop";
    assert_eq!(store.check_and_insert_and_prune_old(nonce, 0), Ok(()));
    assert_eq!(
        store.check_and_insert_and_prune_old(nonce, 4 * NANOS_PER_SEC - 1),
        Err(NonceError::AlreadyUsed)
    );
    assert_eq!(
        store.check_and_insert_and_prune_old(nonce, 8 * NANOS_PER_SEC - 1),
        Ok(())
    );
    assert_eq!(
        store.check_and_insert_and_prune_old("abcdefghijklmno", 0),
        Err(NonceError::TooShort(15))
    );
    assert_eq!(
        store.check_and_insert_and_prune_old("\u{e4}\u{e4}\u{e4}\u{e4}\u{e4}\u{e4}\u{e4}\u{e4}", 0),
        Ok(())
    );
    assert_eq!(
        NonceError::AlreadyUsed.message(),
        "nonce already used (possible replay attack)"
    );
}

#[test]
fn nonces_are_accepted_once_per_window() {
    let mut store = NonceStore::new(1);
    let window = 2 * NANOS_PER_SEC;
    let (a, b) = ("aaaaaaaaaaaaaaaa", "bbbbbbbbbbbbbbbb");
    let mut at = |nonce, now| store.check_and_insert_and_prune_old(nonce, now);
    assert_eq!(at(a, 0), Ok(()));
    assert_eq!(at(b, window / 2), Ok(()));
    assert_eq!(at("short", window / 2), Err(NonceError::TooShort(5)));
    assert_eq!(at(b, window), Err(NonceError::AlreadyUsed));
    assert_eq!(at(a, window), Ok(()));
    // A refused nonce counts as presented.
    assert_eq!(at(b, 2 * window - 1), Err(NonceError::AlreadyUsed));
    assert_eq!(at(a, 2 * window), Ok(()));
    assert_eq!(at(b, 4 * window), Ok(()));
}
