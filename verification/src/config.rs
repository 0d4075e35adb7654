//! How a server is set up: its routes, and whom it lets in.

use crate::paths::{is_listed, join_path, path_join};
use crate::text::{opt_str, opt_text, texts};
use crate::tls::{credential, is_tls_setup, TlsFiles};
use vstd::prelude::*;

verus! {

/// The largest request body that is accepted, in bytes.
pub const MAX_BODY: usize = 4_194_304;

/// The routes of the server.
#[derive(Debug, Clone, Copy, PartialEq, Eq, Structural)]
pub enum Route {
    Health,
    Sockets,
    Socket,
    SocketInterface,
    Call,
    WebSocket,
}

/// The method of a route's requests.
#[derive(Debug, Clone, Copy, PartialEq, Eq, Structural)]
pub enum RouteMethod {
    Get,
    Post,
}

impl Route {
    /// The path of the route, with the names of its parameters.
    pub open spec fn path(self) -> Seq<char> {
        match self {
            Route::Health => "/health"@,
            Route::Sockets => "/sockets"@,
            Route::Socket => "/sockets/{socket}"@,
            Route::SocketInterface => "/sockets/{socket}/{interface}"@,
            Route::Call => "/call/{method}"@,
            Route::WebSocket => "/ws/sockets/{socket}"@,
        }
    }

    /// The path of the route, with the names of its parameters.
    pub fn pattern(self) -> (pattern: &'static str)
        ensures
            pattern@ == self.path(),
    {
        match self {
            Route::Health => "/health",
            Route::Sockets => "/sockets",
            Route::Socket => "/sockets/{socket}",
            Route::SocketInterface => "/sockets/{socket}/{interface}",
            Route::Call => "/call/{method}",
            Route::WebSocket => "/ws/sockets/{socket}",
        }
    }

    /// The method of the route's requests: only calls are posted.
    pub fn method(self) -> (method: RouteMethod)
        ensures
            method == if self == Route::Call {
                RouteMethod::Post
            } else {
                RouteMethod::Get
            },
    {
        match self {
            Route::Call => RouteMethod::Post,
            _ => RouteMethod::Get,
        }
    }

    /// Whether requests on the route have to pass the authenticators. All do but
    /// those that ask for the server's health.
    pub fn requires_auth(self) -> (required: bool)
        ensures
            required == (self != Route::Health),
    {
        match self {
            Route::Health => false,
            _ => true,
        }
    }

    /// All routes.
    pub fn all() -> (routes: Vec<Route>)
        ensures
            forall|route: Route| routes@.contains(route),
            routes@.no_duplicates(),
    {
        let routes = vec![
            Route::Health,
            Route::Sockets,
            Route::Socket,
            Route::SocketInterface,
            Route::Call,
            Route::WebSocket,
        ];
        proof {
            assert(routes@[0] == Route::Health && routes@[1] == Route::Sockets && routes@[2]
                == Route::Socket && routes@[3] == Route::SocketInterface && routes@[4]
                == Route::Call && routes@[5] == Route::WebSocket);
            assert forall|route: Route| routes@.contains(route) by {
                let at: int = match route {
                    Route::Health => 0,
                    Route::Sockets => 1,
                    Route::Socket => 2,
                    Route::SocketInterface => 3,
                    Route::Call => 4,
                    Route::WebSocket => 5,
                };
                assert(routes@[at] == route);
            }
        }
        routes
    }
}

/// Whether clients have to show a certificate: a CA for them is given, or there is
/// one in the credentials directory.
pub fn has_mtls(
    cli_trust: &Option<String>,
    creds_dir: Option<&str>,
    existing: &Vec<String>,
) -> (required: bool)
    ensures
        required == credential(
            opt_text(*cli_trust),
            opt_str(creds_dir),
            "trust"@,
            texts(existing@),
        ) is Some,
{
    if cli_trust.is_some() {
        return true;
    }
    match creds_dir {
        Some(dir) => is_listed(existing, join_path(dir, "trust").as_str()),
        None => false,
    }
}

/// What is said when a server starts that lets everyone in.
pub open spec fn open_warning() -> Seq<char> {
    "WARNING: running without authentication - all routes are open"@
}

/// Whether the server may start: somebody has to check who its clients are, or it
/// has to be told that nobody does.
pub open spec fn may_start(has_authenticators: bool, has_mtls: bool, insecure: bool) -> bool {
    has_authenticators || has_mtls || insecure
}

/// Whether the server may start. Where it lets everyone in, there is a warning.
pub fn check_authentication(has_authenticators: bool, has_mtls: bool, insecure: bool) -> (answer:
    Result<Option<String>, String>)
    ensures
        answer is Ok <==> may_start(has_authenticators, has_mtls, insecure),
        answer matches Ok(warning) ==> opt_text(warning) == (if has_authenticators || has_mtls {
            None
        } else {
            Some(open_warning())
        }),
        answer matches Err(error) ==> error@
            == "no authentication configured: use --authorized-keys=, --trust=, or --insecure"@,
{
    if has_authenticators || has_mtls {
        Ok(None)
    } else if insecure {
        Ok(Some("WARNING: running without authentication - all routes are open".to_owned()))
    } else {
        Err(
            "no authentication configured: use --authorized-keys=, --trust=, or --insecure".to_owned(),
        )
    }
}

/// A server that is not told to be insecure and starts without authenticators
/// holds every client to a CA: its files name one.
pub proof fn a_secure_server_checks_its_clients(
    cert: Option<Seq<char>>,
    key: Option<Seq<char>>,
    ca: Option<Seq<char>>,
    files: Result<Option<TlsFiles>, String>,
)
    requires
        is_tls_setup(cert, key, ca, files),
        files is Ok,
        may_start(false, ca is Some, false),
    ensures
        files matches Ok(Some(tls)) && tls.client_ca is Some,
{
}

/// The protocol that is spoken.
pub fn scheme(tls: bool) -> (scheme: &'static str)
    ensures
        scheme@ == if tls {
            "HTTPS"@
        } else {
            "HTTP"@
        },
{
    if tls {
        "HTTPS"
    } else {
        "HTTP"
    }
}

/// What is said when the server has started.
pub fn started_message(tls: bool, local_addr: &str, sockets_path: &str) -> (message: String)
    ensures
        message@ == "Forwarding "@ + (if tls {
            "HTTPS"@
        } else {
            "HTTP"@
        }) + " "@ + local_addr@ + " -> Varlink: "@ + sockets_path@,
{
    let mut message = "Forwarding ".to_owned();
    message.append(scheme(tls));
    message.append(" ");
    message.append(local_addr);
    message.append(" -> Varlink: ");
    message.append(sockets_path);
    message
}

/// Each route has a path of its own, which tells it from all others, and all but the
/// server's health need to be let in; only calls are posted.
pub proof fn routes_are_told_apart(
    route: Route,
    pattern: &'static str,
    method: RouteMethod,
    required: bool,
)
    requires
        call_ensures(Route::pattern, (route,), pattern),
        call_ensures(Route::method, (route,), method),
        call_ensures(Route::requires_auth, (route,), required),
    ensures
        pattern@ == "/health"@ <==> route is Health,
        pattern@ == "/sockets"@ <==> route is Sockets,
        pattern@ == "/sockets/{socket}"@ <==> route is Socket,
        pattern@ == "/sockets/{socket}/{interface}"@ <==> route is SocketInterface,
        pattern@ == "/call/{method}"@ <==> route is Call,
        pattern@ == "/ws/sockets/{socket}"@ <==> route is WebSocket,
        method is Post <==> pattern@ == "/call/{method}"@,
        !required <==> pattern@ == "/health"@,
{
    reveal_strlit("/health");
    reveal_strlit("/sockets");
    reveal_strlit("/sockets/{socket}");
    reveal_strlit("/sockets/{socket}/{interface}");
    reveal_strlit("/call/{method}");
    reveal_strlit("/ws/sockets/{socket}");
    assert("/health"@.len() == 7 && "/sockets"@.len() == 8 && "/sockets/{socket}"@.len() == 17);
    assert("/sockets/{socket}/{interface}"@.len() == 29 && "/call/{method}"@.len() == 14);
    assert("/ws/sockets/{socket}"@.len() == 20);
}

/// Clients have to show a certificate exactly when a CA is given for them, or is found
/// under "trust" in the credentials directory.
pub proof fn a_ca_asks_for_certificates(
    cli_trust: &Option<String>,
    creds_dir: Option<&str>,
    existing: &Vec<String>,
    required: bool,
)
    requires
        call_ensures(has_mtls, (cli_trust, creds_dir, existing), required),
    ensures
        *cli_trust is Some ==> required,
        *cli_trust is None && creds_dir is None ==> !required,
        *cli_trust is None ==> (creds_dir matches Some(dir) ==> (required <==> texts(
            existing@,
        ).contains(path_join(dir@, "trust"@)))),
{
}

/// A server that nobody checks the clients of does not start unless it is told to, and is
/// warned of then; any other starts without a warning.
pub proof fn open_servers_are_refused_or_warned(
    has_authenticators: bool,
    has_mtls: bool,
    insecure: bool,
    answer: Result<Option<String>, String>,
)
    requires
        call_ensures(check_authentication, (has_authenticators, has_mtls, insecure), answer),
    ensures
        answer is Err <==> !has_authenticators && !has_mtls && !insecure,
        (answer matches Ok(Some(_))) <==> !has_authenticators && !has_mtls && insecure,
        (answer matches Ok(None)) <==> has_authenticators || has_mtls,
        answer matches Ok(Some(warning)) ==> warning@
            == "WARNING: running without authentication - all routes are open"@,
        answer matches Err(error) ==> error@
            == "no authentication configured: use --authorized-keys=, --trust=, or --insecure"@,
        answer is Ok <==> may_start(has_authenticators, has_mtls, insecure),
{
}

/// A server that has started tells its protocol, its address and where its sockets are, in
/// this order and as they are.
pub proof fn started_servers_tell_where_they_are(
    tls: bool,
    local_addr: &str,
    sockets_path: &str,
    message: String,
    spoken: &'static str,
)
    requires
        call_ensures(started_message, (tls, local_addr, sockets_path), message),
        call_ensures(scheme, (tls,), spoken),
    ensures
        message@ == "Forwarding "@ + spoken@ + " "@ + local_addr@ + " -> Varlink: "@
            + sockets_path@,
        spoken@ == "HTTPS"@ <==> tls,
        spoken@ == "HTTP"@ <==> !tls,
{
    reveal_strlit("HTTPS");
    reveal_strlit("HTTP");
    assert("HTTPS"@.len() == 5 && "HTTP"@.len() == 4);
}

/// A request's body may have 4 MiB.
pub proof fn bodies_are_limited()
    ensures
        MAX_BODY == 4 * 1024 * 1024,
{
}

} // verus!
