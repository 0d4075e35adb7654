use std::cell::{Cell, RefCell};
use varlink_httpd::auth::{
    ask_authenticators, auth_middleware, authorization, decide, extract_nonce, Authenticator,
};
use varlink_httpd::auth_ssh::{KeyFileReading, Mtime, SshKeyAuthenticator};
use varlink_httpd::config::{check_authentication, has_mtls, scheme, started_message, Route, RouteMethod};
use varlink_httpd::error::{AppError, StatusCode, VarlinkFailure};
use varlink_httpd::headers::{find_header, text_of_value, Header};
use varlink_httpd::token::{
    actions_for, auth_headers, generate_nonce, maybe_add_auth_headers, nonce_from, nonce_of,
    AUTHORIZATION_HEADER, SSHAUTH_MAGIC_PREFIX, SSHAUTH_NONCE_HEADER,
};

struct RejectingAuthenticator(&'static str);

impl Authenticator for RejectingAuthenticator {
    fn check_request(
        &self,
        _method: &str,
        _path: &str,
        _auth_header: &str,
        _nonce: Option<&str>,
        _channel_binding: Option<&str>,
    ) -> Result<(), String> {
        Err(self.0.to_string())
    }
}

/// Admits requests from the given call on, and keeps what it was asked.
struct CountingAuthenticator {
    admits: bool,
    calls: Cell<usize>,
    asked: RefCell<Vec<String>>,
}

impl Authenticator for CountingAuthenticator {
    fn check_request(
        &self,
        method: &str,
        path: &str,
        auth_header: &str,
        nonce: Option<&str>,
        channel_binding: Option<&str>,
    ) -> Result<(), String> {
        self.calls.set(self.calls.get() + 1);
        self.asked.borrow_mut().push(format!(
            "{method} {path} {auth_header} {nonce:?} {channel_binding:?}"
        ));
        if self.admits {
            Ok(())
        } else {
            Err("no".to_string())
        }
    }
}

fn counting(admits: bool) -> CountingAuthenticator {
    CountingAuthenticator {
        admits,
        calls: Cell::new(0),
        asked: RefCell::new(Vec::new()),
    }
}

struct SshAuthenticator(RefCell<SshKeyAuthenticator>);

impl Authenticator for SshAuthenticator {
    fn check_request(
        &self,
        method: &str,
        path: &str,
        auth_header: &str,
        nonce: Option<&str>,
        channel_binding: Option<&str>,
    ) -> Result<(), String> {
        let unchanged = KeyFileReading {
            mtime: Ok(Mtime { secs: 0, nanos: 0 }),
            keys: Err("not read".to_string()),
        };
        self.0
            .borrow_mut()
            .check_request(&unchanged, method, path, auth_header, nonce, channel_binding, 0)
            .map(|_| ())
            .map_err(|e| e.message())
    }
}

fn ssh_authenticator() -> SshAuthenticator {
    let pkey = openssl::pkey::PKey::generate_ed25519().unwrap();
    let raw_pub = pkey.raw_public_key().unwrap();
    let mut blob = Vec::new();
    let algo = b"ssh-ed25519";
    blob.extend_from_slice(&(algo.len() as u32).to_be_bytes());
    blob.extend_from_slice(algo);
    blob.extend_from_slice(&(raw_pub.len() as u32).to_be_bytes());
    blob.extend_from_slice(&raw_pub);
    let b64_blob = openssl::base64::encode_block(&blob);
    let line = format!("ssh-ed25519 {b64_blob} testkey@host");
    let auth = SshKeyAuthenticator::new(
        "/keys",
        KeyFileReading {
            mtime: Ok(Mtime { secs: 0, nanos: 0 }),
            keys: Ok(vec![line]),
        },
    )
    .unwrap();
    SshAuthenticator(RefCell::new(auth))
}

fn header(name: &str, value: &[u8]) -> Header {
    Header {
        name: name.to_string(),
        value: value.to_vec(),
    }
}

#[test]
fn test_ssh_auth_rejects_without_header() {
    let error = auth_middleware(
        &vec![ssh_authenticator()],
        &Vec::new(),
        "GET",
        "/sockets",
        None,
    )
    .unwrap_err();
    assert_eq!(error.status, StatusCode::Unauthorized);
    assert_eq!(error.message, "missing Authorization header");
}

#[test]
fn test_ssh_auth_rejects_invalid_token() {
    let headers = vec![
        header("authorization", b"Bearer bogus-token"),
        header("x-auth-nonce", b"a-nonce-long-enough-1234"),
    ];
    let error = auth_middleware(&vec![ssh_authenticator()], &headers, "GET", "/sockets", None)
        .unwrap_err();
    assert_eq!(error.status, StatusCode::Unauthorized);
    assert!(
        error.message.contains("invalid token"),
        "expected 'invalid token' in error, got: {}",
        error.message
    );
}

#[test]
fn test_all_auth_rejected_errors_and_errors_are_joined() {
    let authenticators = vec![
        RejectingAuthenticator("error1"),
        RejectingAuthenticator("error2"),
    ];
    let headers = vec![header("authorization", b"Bearer dummy")];
    let error = auth_middleware(&authenticators, &headers, "GET", "/sockets", None).unwrap_err();
    assert_eq!(error.status, StatusCode::Unauthorized);
    assert_eq!(error.message, "error1; error2");
}

#[test]
fn test_ssh_auth_no_authenticators_allows_all() {
    let none: Vec<RejectingAuthenticator> = Vec::new();
    assert!(auth_middleware(&none, &Vec::new(), "GET", "/sockets", None).is_ok());
}

#[test]
fn the_first_that_admits_is_the_last_that_is_asked() {
    let authenticators = vec![counting(false), counting(true), counting(true)];
    let headers = vec![
        header("accept", b"*/*"),
        header("authorization", b"Bearer x"),
        header("authorization", b"Bearer y"),
        header("x-auth-nonce", b"n"),
    ];
    assert!(auth_middleware(&authenticators, &headers, "GET", "/a?b", Some("tls")).is_ok());
    assert_eq!(authenticators[0].calls.get(), 1);
    assert_eq!(authenticators[1].calls.get(), 1);
    assert_eq!(authenticators[2].calls.get(), 0);
    assert_eq!(
        authenticators[1].asked.borrow()[0],
        "GET /a?b Bearer x Some(\"n\") Some(\"tls\")"
    );
    let refused = ask_authenticators(&vec![counting(false)], "GET", "/", "h", None, None);
    assert_eq!(refused.unwrap_err().message, "no");
}

#[test]
fn headers_have_to_be_text() {
    let authenticators = vec![counting(true)];
    let bad = vec![header("authorization", b"Bearer \xff")];
    let error = auth_middleware(&authenticators, &bad, "GET", "/", None).unwrap_err();
    assert_eq!(error.status, StatusCode::BadRequest);
    assert_eq!(error.message, "invalid Authorization header encoding");
    assert_eq!(authenticators[0].calls.get(), 0);
    assert_eq!(extract_nonce(&vec![header("x-auth-nonce", b"a\nb")]), None);
    assert_eq!(extract_nonce(&Vec::new()), None);
    assert_eq!(
        extract_nonce(&vec![header("x-auth-nonce", b"a\tb ~")]),
        Some("a\tb ~".to_string())
    );
    assert_eq!(authorization(&vec![header("authorization", b"z")]).unwrap(), "z");
    assert_eq!(text_of_value(&vec![127]), None);
    assert!(find_header(&Vec::new(), "x").is_none());
}

#[test]
fn header_texts_agree_with_the_http_crate() {
    for b in 0u8..=255 {
        let value = axum::http::HeaderValue::from_bytes(&[b]);
        if let Ok(value) = value {
            assert_eq!(
                text_of_value(&vec![b]),
                value.to_str().ok().map(String::from),
                "{b}"
            );
        }
    }
}

#[test]
fn verdicts_are_decided() {
    assert!(decide(vec![Err("a".to_string()), Ok(())]).is_ok());
    let error = decide(vec![
        Err("a".to_string()),
        Err("b".to_string()),
        Err("c".to_string()),
    ])
    .unwrap_err();
    assert_eq!(error.status.code(), 401);
    assert_eq!(error.message, "a; b; c");
}

#[test]
fn credentials_travel_in_headers() {
    let headers = auth_headers("tok", "nonce-nonce-nonce");
    assert_eq!(headers[0].name, AUTHORIZATION_HEADER);
    assert_eq!(headers[0].value, b"Bearer tok");
    assert_eq!(authorization(&headers).unwrap(), "Bearer tok");
    assert_eq!(extract_nonce(&headers), Some("nonce-nonce-nonce".to_string()));
    assert_eq!(SSHAUTH_NONCE_HEADER, "x-auth-nonce");
    assert_eq!(&SSHAUTH_MAGIC_PREFIX, b"vhbridge");

    let built = Ok(Some(("tok".to_string(), "n".to_string())));
    assert_eq!(maybe_add_auth_headers(built).len(), 2);
    assert_eq!(maybe_add_auth_headers(Ok(None)).len(), 0);
    assert_eq!(maybe_add_auth_headers(Err("x".to_string())).len(), 0);
}

#[test]
fn tokens_cover_the_request() {
    let texts = |binding| {
        actions_for("GET", "/p?q", "n", binding)
            .into_iter()
            .map(|a| (a.key, a.value))
            .collect::<Vec<_>>()
    };
    let pair = |k: &str, v: &str| (k.to_string(), v.to_string());
    assert_eq!(
        texts(None),
        vec![pair("method", "GET"), pair("path", "/p?q"), pair("nonce", "n")]
    );
    assert_eq!(
        texts(Some("b")),
        vec![
            pair("method", "GET"),
            pair("path", "/p?q"),
            pair("nonce", "n"),
            pair("tls-channel-binding", "b")
        ]
    );
}

#[test]
fn nonces_are_base64() {
    assert_eq!(nonce_of(&[0; 16]), "AAAAAAAAAAAAAAAAAAAAAA==");
    assert_eq!(
        nonce_of(&[255, 254, 253, 0, 1, 2, 62, 63, 64, 128, 127, 126, 10, 20, 30, 40]),
        "//79AAECPj9AgH9+ChQeKA=="
    );
    assert_eq!(
        nonce_from(Some([0; 16])),
        Some("AAAAAAAAAAAAAAAAAAAAAA==".to_string())
    );
    assert_eq!(nonce_from(None), None);
    let a = generate_nonce().unwrap();
    let b = generate_nonce().unwrap();
    assert_eq!(a.len(), 24);
    assert_ne!(a, b);
}

#[test]
fn routes_have_their_paths() {
    let routes: Vec<_> = Route::all()
        .into_iter()
        .map(|r| (r.pattern(), r.method() == RouteMethod::Post, r.requires_auth()))
        .collect();
    assert_eq!(
        routes,
        vec![
            ("/health", false, false),
            ("/sockets", false, true),
            ("/sockets/{socket}", false, true),
            ("/sockets/{socket}/{interface}", false, true),
            ("/call/{method}", true, true),
            ("/ws/sockets/{socket}", false, true),
        ]
    );
}

#[test]
fn servers_do_not_start_unprotected_by_accident() {
    assert_eq!(check_authentication(true, false, false), Ok(None));
    assert_eq!(check_authentication(false, true, false), Ok(None));
    assert_eq!(check_authentication(true, false, true), Ok(None));
    assert_eq!(
        check_authentication(false, false, true),
        Ok(Some(
            "WARNING: running without authentication - all routes are open".to_string()
        ))
    );
    assert_eq!(
        check_authentication(false, false, false),
        Err(
            "no authentication configured: use --authorized-keys=, --trust=, or --insecure"
                .to_string()
        )
    );
    assert!(has_mtls(&Some("ca".to_string()), None, &Vec::new()));
    assert!(has_mtls(&None, Some("/c"), &vec!["/c/trust".to_string()]));
    assert!(!has_mtls(&None, Some("/c"), &vec!["/c/cert".to_string()]));
    assert!(!has_mtls(&None, None, &Vec::new()));
    assert_eq!(scheme(true), "HTTPS");
    assert_eq!(
        started_message(false, "0.0.0.0:1031", "/run/varlink/registry"),
        "Forwarding HTTP 0.0.0.0:1031 -> Varlink: /run/varlink/registry"
    );
}

#[test]
fn failures_have_their_status() {
    let status = |failure| AppError::from_varlink_failure(failure, String::new()).status.code();
    assert_eq!(status(VarlinkFailure::SocketRead), 502);
    assert_eq!(status(VarlinkFailure::SocketWrite), 502);
    assert_eq!(status(VarlinkFailure::UnexpectedEof), 502);
    assert_eq!(status(VarlinkFailure::Io), 502);
    assert_eq!(status(VarlinkFailure::InvalidParameter), 400);
    assert_eq!(status(VarlinkFailure::ExpectedMore), 400);
    assert_eq!(status(VarlinkFailure::MethodNotFound), 404);
    assert_eq!(status(VarlinkFailure::InterfaceNotFound), 404);
    assert_eq!(status(VarlinkFailure::MethodNotImplemented), 501);
    assert_eq!(status(VarlinkFailure::PermissionDenied), 403);
    assert_eq!(status(VarlinkFailure::Other), 500);
    assert_eq!(AppError::internal("x".to_string()).status.code(), 500);
    let error = AppError::from_error_reply("org.x.Failed", Some("{\"a\": 1}"));
    assert_eq!(error.status.code(), 500);
    assert_eq!(error.message, "org.x.Failed: {\"a\": 1}");
    assert_eq!(
        AppError::from_error_reply("org.x.Failed", None).message,
        "org.x.Failed"
    );
    assert_eq!(AppError::service_error("e").message, "service error: e");
    let error = AppError::cannot_connect("/p", "refused");
    assert_eq!(error.status.code(), 502);
    assert_eq!(error.message, "cannot connect to /p: refused");
}
