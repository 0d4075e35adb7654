use ssh_key::private::{Ed25519Keypair, PrivateKey};
use ssh_key::LineEnding;
use varlink_httpd::signer::{
    begin_signer, read_agent_key, AgentStep, FileRead, KeyFileStep, SignerStep, SigningKey,
};
use varlink_httpd::ssh_keys::{
    ensure_supported_algorithm, list_rsa_keys, requires_agent, rsa_keys_of, KeyInfo,
};

const RSA_KEY: &str = "ssh-rsa AAAAB3NzaC1yc2EAAAADAQABAAABgQCmjkeMm8k3JkNrf16eb5pG4bc77B6Mt3VN4saltsRV8vASpyWa/PlBgdaeldOaNJ5NK0gqU3KyiUNzHbdcc8572e7IUBDJS/rlaWARiSL4aos2VbNX0k56Z5zYp9m/bq5m9/mlb+PQkNBjIhimgpYNiq2TwBiYeA6tLb79cPtHA0cX5BLk/a5oUpLsiR4kI/f+Q98vVDKasKXXVh5YLkLobrruDB6er2A9fOcIUF0O4JCRLh/Dc161gE3fQrYTMQenbppZzfxrZfQ8YwLPvKjnqm+XRX+pbTtaJuj0EgTSzUK+EZxoSw8CNwiZpxrjwecTMVQ8w/srQmh4ABGuTqk0wP8HcI7hg+fpBv7kiejh5X/Oehxt+Puu85u9GVXb1a0av/vhJvUCBcuISvCA/z1wVJ0xdLhb1/ZiTDdTzyNbZQ0OQijzK+e1SlkNhp+3eGVZu3pNZvnTppwIXv3wg6kV1HodkWGgh1ayY7Buc52Z8okDYqvJat5CzOj5OaQNr/k= user@example.com";
const SK_KEY: &str = "sk-ssh-ed25519@openssh.com AAAAGnNrLXNzaC1lZDI1NTE5QG9wZW5zc2guY29tAAAAICFo/k5LU8863u66YC9eUO2170QduohPURkQnbLa/dczAAAABHNzaDo= user@example.com";
const ED25519_KEY: &str =
    "ssh-ed25519 AAAAC3NzaC1lZDI1NTE5AAAAILM+rvN+ot98qgEN796jTiQfZfG1KaT0PtFDJ/XFSqti user@example.com";
const ECDSA_KEY: &str = "ecdsa-sha2-nistp256 AAAAE2VjZHNhLXNoYTItbmlzdHAyNTYAAAAIbmlzdHAyNTYAAABBBHwf2HMM5TRXvo2SQJjsNkiDD5KqiiNjrGVv3UUh+mMT5RHxiRtOnlqvjhQtBq0VpmpCV/PwUdhOig4vkbqAcEc= user@example.com";

fn text(s: &str) -> FileRead {
    FileRead::Text(s.to_string())
}

fn step(key_path: &str, auth_sock: Option<&str>) -> KeyFileStep {
    KeyFileStep {
        key_path: key_path.to_string(),
        auth_sock: auth_sock.map(String::from),
    }
}

fn info(algorithm: &str, fingerprint: &str) -> Result<KeyInfo, String> {
    Ok(KeyInfo {
        algorithm: algorithm.to_string(),
        fingerprint: fingerprint.to_string(),
    })
}

fn fingerprint_of(openssh: &str) -> String {
    ssh_key::PublicKey::from_openssh(openssh)
        .unwrap()
        .fingerprint(ssh_key::HashAlg::Sha256)
        .to_string()
}

#[test]
fn the_search_starts_with_what_there_is() {
    assert!(matches!(begin_signer(None, None), SignerStep::NoCredentials));
    match begin_signer(Some("/k".to_string()), Some("/s".to_string())) {
        SignerStep::ReadPrivateKey(step) => {
            assert_eq!(step.key_path, "/k");
            assert_eq!(step.auth_sock, Some("/s".to_string()));
        }
        other => panic!("{other:?}"),
    }
    match begin_signer(None, Some("/s".to_string())) {
        SignerStep::ListAgentKeys(step) => {
            assert_eq!(step.auth_sock, "/s");
            assert!(step.wanted.is_none());
        }
        other => panic!("{other:?}"),
    }
}

#[test]
fn both_key_files_have_one_path() {
    for path in ["/k/id", "/k/id.pub"] {
        assert_eq!(step(path, None).private_key_file(), "/k/id");
        assert_eq!(step(path, None).public_key_file(), "/k/id.pub");
    }
}

#[test]
fn private_keys_on_disk_sign() {
    let key = PrivateKey::from(Ed25519Keypair::from_seed(&[7; 32]));
    let pem = key.to_openssh(LineEnding::LF).unwrap().to_string();
    let file = format!("\n  {pem}\n\u{a0}");
    match step("/k", None).read_private_key(text(&file)).unwrap() {
        SignerStep::Sign(SigningKey::Private { pem: kept, info, source }) => {
            assert_eq!(kept, pem.trim());
            assert_eq!(info.algorithm, "ssh-ed25519");
            assert_eq!(
                info.fingerprint,
                key.fingerprint(ssh_key::HashAlg::Sha256).to_string()
            );
            assert_eq!(source, "/k");
        }
        other => panic!("{other:?}"),
    }
}

#[test]
fn private_keys_can_fail() {
    let missing = step("/k.pub", None)
        .read_private_key(FileRead::Missing("gone".to_string()))
        .unwrap();
    assert!(matches!(missing, SignerStep::ReadPublicKey(s) if s.key_path == "/k.pub"));
    assert_eq!(
        step("/k.pub", None)
            .read_private_key(FileRead::Failed("denied".to_string()))
            .unwrap_err(),
        "reading private key from /k: denied"
    );
    let error = step("/k", None).read_private_key(text("garbage")).unwrap_err();
    assert!(error.starts_with("parsing private key from /k: "), "{error}");
    assert_eq!(
        step("/k", None)
            .use_private_key("pem".to_string(), info("ssh-rsa", "f"))
            .unwrap_err(),
        "/k is an RSA key, which is not supported; use Ed25519 or ECDSA"
    );
    let token = step("/k", None)
        .use_private_key("pem".to_string(), info("sk-ssh-ed25519@openssh.com", "f"))
        .unwrap();
    assert!(matches!(token, SignerStep::ReadPublicKey(_)));
    assert_eq!(
        step("/k", None)
            .use_private_key("pem".to_string(), Err("bad".to_string()))
            .unwrap_err(),
        "parsing private key from /k: bad"
    );
}

#[test]
fn public_keys_need_the_agent() {
    match step("/k", Some("/s")).read_public_key(text(SK_KEY)).unwrap() {
        SignerStep::ListAgentKeys(step) => {
            let wanted = step.wanted.unwrap();
            assert_eq!(step.auth_sock, "/s");
            assert_eq!(wanted.openssh, SK_KEY);
            assert_eq!(wanted.info.algorithm, "sk-ssh-ed25519@openssh.com");
            assert_eq!(wanted.info.fingerprint, fingerprint_of(SK_KEY));
            assert_eq!(wanted.source, "/k");
        }
        other => panic!("{other:?}"),
    }
    assert_eq!(
        step("/k", None).read_public_key(text(ED25519_KEY)).unwrap_err(),
        "VARLINK_SSH_KEY requires agent-based signing (hardware token or public key only); set SSH_AUTH_SOCK"
    );
    assert_eq!(
        step("/k", None).read_public_key(text(RSA_KEY)).unwrap_err(),
        "/k is an RSA key, which is not supported; use Ed25519 or ECDSA"
    );
    assert_eq!(
        step("/k", None)
            .read_public_key(FileRead::Missing("gone".to_string()))
            .unwrap_err(),
        "reading public key from /k.pub: gone"
    );
    assert_eq!(
        step("/k", None)
            .read_public_key(FileRead::Failed("denied".to_string()))
            .unwrap_err(),
        "reading public key from /k.pub: denied"
    );
    let error = step("/k", None).read_public_key(text("garbage")).unwrap_err();
    assert!(error.starts_with("parsing public key from /k.pub: "), "{error}");
    assert_eq!(
        step("/k", None)
            .use_public_key("x".to_string(), Err("bad".to_string()))
            .unwrap_err(),
        "parsing public key from /k.pub: bad"
    );
}

#[test]
fn the_agent_must_hold_the_wanted_key() {
    let ask = || match step("/k", Some("/s")).read_public_key(text(ED25519_KEY)).unwrap() {
        SignerStep::ListAgentKeys(step) => step,
        other => panic!("{other:?}"),
    };
    let other_comment = ED25519_KEY.replace("user@example.com", "agent");
    match ask()
        .list_keys(Ok(vec![ECDSA_KEY.to_string(), other_comment]))
        .unwrap()
    {
        SigningKey::Agent { auth_sock, openssh, info, source } => {
            assert_eq!(auth_sock, "/s");
            assert_eq!(openssh, ED25519_KEY);
            assert_eq!(info.fingerprint, fingerprint_of(ED25519_KEY));
            assert_eq!(source, "/k");
        }
        other => panic!("{other:?}"),
    }
    assert_eq!(
        ask().list_keys(Ok(vec![ECDSA_KEY.to_string()])).unwrap_err(),
        format!(
            "VARLINK_SSH_KEY key {} not found in ssh-agent; add it with ssh-add or provide the private key",
            fingerprint_of(ED25519_KEY)
        )
    );
    assert_eq!(
        ask().list_keys(Err("refused".to_string())).unwrap_err(),
        "listing ssh-agent keys: refused"
    );
}

#[test]
fn the_first_supported_agent_key_is_taken() {
    let ask = || AgentStep {
        auth_sock: "/s".to_string(),
        wanted: None,
    };
    match ask()
        .list_keys(Ok(vec![
            RSA_KEY.to_string(),
            ECDSA_KEY.to_string(),
            ED25519_KEY.to_string(),
        ]))
        .unwrap()
    {
        SigningKey::Agent { auth_sock, openssh, info, source } => {
            assert_eq!(auth_sock, "/s");
            assert_eq!(openssh, ECDSA_KEY);
            assert_eq!(info.algorithm, "ecdsa-sha2-nistp256");
            assert_eq!(source, "/s");
        }
        other => panic!("{other:?}"),
    }
    assert_eq!(
        ask().list_keys(Ok(vec![RSA_KEY.to_string()])).unwrap_err(),
        "no supported key in ssh-agent"
    );
    assert_eq!(
        ask().list_keys(Ok(vec![])).unwrap_err(),
        "no supported key in ssh-agent"
    );
    assert_eq!(
        read_agent_key(&vec![
            info("rsa-sha2-256", "a"),
            Err("bad".to_string()),
            info("ssh-dss", "b"),
            info("ssh-ed25519", "c"),
        ]),
        Ok(2)
    );
    assert_eq!(
        ask()
            .use_agent_keys(vec!["x".to_string()], vec![info("ssh-rsa", "f")])
            .unwrap_err(),
        "no supported key in ssh-agent"
    );
}

#[test]
fn algorithms_are_told_apart() {
    for algorithm in ["ssh-rsa", "rsa-sha2-256", "rsa-sha2-512"] {
        assert_eq!(
            ensure_supported_algorithm(algorithm, "it").unwrap_err(),
            "it is an RSA key, which is not supported; use Ed25519 or ECDSA"
        );
    }
    for algorithm in ["ssh-ed25519", "ecdsa-sha2-nistp256", "ssh-dss", ""] {
        assert!(ensure_supported_algorithm(algorithm, "it").is_ok());
        assert!(!requires_agent(algorithm));
    }
    for algorithm in [
        ssh_key::Algorithm::SkEcdsaSha2NistP256,
        ssh_key::Algorithm::SkEd25519,
    ] {
        assert!(requires_agent(algorithm.as_str()));
    }
    let rsa = ssh_key::PublicKey::from_openssh(RSA_KEY).unwrap().algorithm();
    assert!(ensure_supported_algorithm(rsa.as_str(), "it").is_err());
}

#[test]
fn rsa_keys_are_told() {
    let listed = vec![
        RSA_KEY.to_string(),
        ED25519_KEY.to_string(),
        "garbage".to_string(),
        RSA_KEY.to_string(),
    ];
    let found: Vec<_> = list_rsa_keys(&listed)
        .into_iter()
        .map(|key| (key.at, key.fingerprint))
        .collect();
    let fingerprint = fingerprint_of(RSA_KEY);
    assert_eq!(found, vec![(0, fingerprint.clone()), (3, fingerprint)]);
    assert!(list_rsa_keys(&vec![ECDSA_KEY.to_string()]).is_empty());
    let found: Vec<_> = rsa_keys_of(&vec![
        info("ssh-ed25519", "a"),
        info("rsa-sha2-256", "b"),
        Err("bad".to_string()),
        info("ssh-rsa", "c"),
    ])
    .into_iter()
    .map(|key| (key.at, key.fingerprint))
    .collect();
    assert_eq!(found, vec![(1, "b".to_string()), (3, "c".to_string())]);
}
