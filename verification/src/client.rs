//! The client: where it connects, and how it relays bytes between the service that
//! it stands for and the server's WebSocket.

use crate::text::{
    after_prefix, caused_by, chain, chars_of, decimal, decimal_text, opt_text, same_text,
    signed_decimal, signed_decimal_text, strip_prefix, with_cause,
};
use vstd::prelude::*;

verus! {

/// The WebSocket URL that stands for a bridge URL.
pub open spec fn ws_url(url: Seq<char>) -> Seq<char> {
    match (after_prefix(url, "https://"@), after_prefix(url, "http://"@)) {
        (Some(rest), _) => "wss://"@ + rest,
        (None, Some(rest)) => "ws://"@ + rest,
        (None, None) => url,
    }
}

/// A URL that asks for TLS stays one, and no other becomes one.
pub proof fn secure_urls_stay_secure(url: Seq<char>)
    ensures
        "wss://"@.is_prefix_of(ws_url(url)) <==> "https://"@.is_prefix_of(url)
            || "wss://"@.is_prefix_of(url),
{
    reveal_strlit("https://");
    reveal_strlit("http://");
    reveal_strlit("wss://");
    reveal_strlit("ws://");
    if "https://"@.is_prefix_of(url) {
        assert(ws_url(url).take(6) == "wss://"@);
    } else if "http://"@.is_prefix_of(url) {
        assert(ws_url(url)[2] == ':');
        assert("wss://"@[2] == 's');
        assert(!"wss://"@.is_prefix_of(ws_url(url))) by {
            if "wss://"@.is_prefix_of(ws_url(url)) {
                assert(ws_url(url).take(6)[2] == ws_url(url)[2]);
            }
        }
        assert(!"wss://"@.is_prefix_of(url)) by {
            if "wss://"@.is_prefix_of(url) {
                assert(url.take(7)[0] == 'h');
                assert(url.take(6)[0] == 'w');
            }
        }
    }
}

/// Only the scheme of a bridge URL is exchanged: what follows it stays as it is. A URL
/// with any other scheme stays as it is.
pub proof fn only_the_scheme_is_exchanged(rest: Seq<char>, other: Seq<char>)
    requires
        !"https://"@.is_prefix_of(other),
        !"http://"@.is_prefix_of(other),
    ensures
        ws_url("https://"@ + rest) == "wss://"@ + rest,
        ws_url("http://"@ + rest) == "ws://"@ + rest,
        ws_url(other) == other,
{
    reveal_strlit("https://");
    reveal_strlit("http://");
    let secure = "https://"@ + rest;
    let plain = "http://"@ + rest;
    assert(secure.take(8) == "https://"@);
    assert(secure.skip(8) == rest);
    assert(plain.take(7) == "http://"@);
    assert(plain.skip(7) == rest);
    assert(!"https://"@.is_prefix_of(plain)) by {
        assert(plain[4] == ':');
        if "https://"@.is_prefix_of(plain) {
            assert(plain.take(8)[4] == plain[4]);
        }
    }
}

/// The WebSocket URL that stands for a bridge URL.
pub fn websocket_url(url: &str) -> (ws: String)
    ensures
        ws@ == ws_url(url@),
{
    if let Some(rest) = strip_prefix(url, "https://") {
        chain("wss://", rest.as_str())
    } else if let Some(rest) = strip_prefix(url, "http://") {
        chain("ws://", rest.as_str())
    } else {
        url.to_owned()
    }
}

/// The parts of a URI.
#[derive(Debug)]
pub struct UriParts {
    pub scheme: Option<String>,
    pub host: Option<String>,
    pub port: Option<u16>,
    pub path_and_query: Option<String>,
    pub path: String,
}

/// The parts of a URI, in the order of the fields of `UriParts`.
pub type UriView = (
    Option<Seq<char>>,
    Option<Seq<char>>,
    Option<u16>,
    Option<Seq<char>>,
    Seq<char>,
);

impl UriParts {
    /// The parts as texts.
    pub open spec fn view(&self) -> UriView {
        (
            opt_text(self.scheme),
            opt_text(self.host),
            self.port,
            opt_text(self.path_and_query),
            self.path@,
        )
    }
}

/// The parts of a URI, or the text of the error.
pub open spec fn uri_result(parts: Result<UriParts, String>) -> Result<UriView, Seq<char>> {
    match parts {
        Ok(parts) => Ok(parts@),
        Err(error) => Err(error@),
    }
}

/// What `tungstenite::http::Uri` is parsed from a text: its scheme, host, port,
/// path with query, and path, or the text of the error.
pub uninterp spec fn uri_of(url: Seq<char>) -> Result<
    (Option<Seq<char>>, Option<Seq<char>>, Option<u16>, Option<Seq<char>>, Seq<char>),
    Seq<char>,
>;

/// Parses a `tungstenite::http::Uri` and takes `scheme_str`, `host`, `port_u16`,
/// `path_and_query` and `path` of it. The contract claims that the result depends
/// on the text alone.
#[verifier::external_body]
fn parse_uri(url: &str) -> (parts: Result<UriParts, String>)
    ensures
        uri_result(parts) == uri_of(url@),
{
    match url.parse::<tungstenite::http::Uri>() {
        Ok(uri) => Ok(
            UriParts {
                scheme: uri.scheme_str().map(String::from),
                host: uri.host().map(String::from),
                port: uri.port_u16(),
                path_and_query: uri.path_and_query().map(|p| p.to_string()),
                path: uri.path().to_string(),
            },
        ),
        Err(error) => Err(error.to_string()),
    }
}

/// Where a client connects, and the path that it requests there.
#[derive(Debug)]
pub struct Endpoint {
    pub use_tls: bool,
    pub host: String,
    pub port: u16,
    pub request_path: String,
}

/// Where a client connects whose URL has these parts.
pub open spec fn is_endpoint(
    parts: Result<UriView, Seq<char>>,
    endpoint: Result<Endpoint, String>,
) -> bool {
    match parts {
        Err(cause) => endpoint matches Err(error) && error@ == caused_by(
            "invalid WebSocket URL"@,
            cause,
        ),
        Ok((scheme, host, port, path_and_query, path)) => match host {
            None => endpoint matches Err(error) && error@ == "URL has no host"@,
            Some(name) => {
                let tls = scheme == Some("wss"@);
                endpoint matches Ok(e) && e.use_tls == tls && e.host@ == name && e.port == (
                match port {
                    Some(port) => port,
                    None => if tls {
                        443
                    } else {
                        80
                    },
                }) && e.request_path@ == (match path_and_query {
                    Some(text) => text,
                    None => path,
                })
            },
        },
    }
}

/// Where a client connects whose URL has these parts: to the port given, or to the
/// usual one of the scheme.
pub fn endpoint_of_parts(parts: Result<UriParts, String>) -> (endpoint: Result<Endpoint, String>)
    ensures
        is_endpoint(uri_result(parts), endpoint),
{
    match parts {
        Err(cause) => Err(with_cause("invalid WebSocket URL", cause.as_str())),
        Ok(parts) => {
            let use_tls = match &parts.scheme {
                Some(scheme) => same_text(scheme.as_str(), "wss"),
                None => false,
            };
            let host = match parts.host {
                Some(host) => host,
                None => return Err("URL has no host".to_owned()),
            };
            let port: u16 = match parts.port {
                Some(port) => port,
                None => if use_tls {
                    443
                } else {
                    80
                },
            };
            let request_path = match parts.path_and_query {
                Some(text) => text,
                None => parts.path,
            };
            Ok(Endpoint { use_tls, host, port, request_path })
        },
    }
}

/// Where a client connects that is given the bridge URL.
pub fn connect_ws(url: &str) -> (endpoint: Result<Endpoint, String>)
    ensures
        is_endpoint(uri_of(ws_url(url@)), endpoint),
{
    let ws = websocket_url(url);
    endpoint_of_parts(parse_uri(ws.as_str()))
}

/// A client connects to the host of its URL, over TLS exactly when the scheme says so,
/// at the port of the URL or else at the usual one, and requests the path with its query.
/// Each of these depends on its own part of the URL alone, and only a host is needed.
pub proof fn clients_connect_where_the_url_says(
    parts: UriParts,
    endpoint: Result<Endpoint, String>,
)
    requires
        call_ensures(endpoint_of_parts, (Ok::<UriParts, String>(parts),), endpoint),
    ensures
        endpoint is Ok <==> parts.host is Some,
        endpoint matches Err(error) ==> error@ == "URL has no host"@,
        endpoint matches Ok(e) ==> {
            &&& parts.host matches Some(host) && e.host@ == host@
            &&& e.use_tls <==> (parts.scheme matches Some(scheme) && scheme@ == "wss"@)
            &&& parts.port matches Some(port) ==> e.port == port
            &&& parts.port is None && e.use_tls ==> e.port == 443
            &&& parts.port is None && !e.use_tls ==> e.port == 80
            &&& parts.path_and_query matches Some(text) ==> e.request_path@ == text@
            &&& parts.path_and_query is None ==> e.request_path@ == parts.path@
        },
{
}

/// A client that is given a bridge URL connects where the URL with its scheme exchanged
/// says, and fails exactly when that is no URL or has no host.
pub proof fn bridge_urls_are_followed(url: &str, endpoint: Result<Endpoint, String>)
    requires
        call_ensures(connect_ws, (url,), endpoint),
    ensures
        match uri_of(ws_url(url@)) {
            Err(cause) => endpoint matches Err(error) && error@ == "invalid WebSocket URL"@ + ": "@
                + cause,
            Ok(parts) => {
                &&& endpoint is Ok <==> parts.1 is Some
                &&& endpoint matches Ok(e) ==> {
                    &&& parts.1 == Some(e.host@)
                    &&& e.use_tls <==> parts.0 == Some("wss"@)
                    &&& parts.2 matches Some(port) ==> e.port == port
                    &&& parts.2 is None ==> e.port == if e.use_tls {
                        443u16
                    } else {
                        80u16
                    }
                    &&& parts.3 matches Some(text) ==> e.request_path@ == text
                    &&& parts.3 is None ==> e.request_path@ == parts.4
                }
            },
        },
{
}

/// What is said when the server cannot be reached.
pub fn tcp_context(endpoint: &Endpoint) -> (context: String)
    ensures
        context@ == "TCP connect to "@ + endpoint.host@ + ":"@ + decimal(endpoint.port as nat)
            + " failed"@,
{
    let mut context = "TCP connect to ".to_owned();
    context.append(endpoint.host.as_str());
    context.append(":");
    context.append(decimal_text(endpoint.port as u64).as_str());
    context.append(" failed");
    context
}

/// What is said when the server does not accept the WebSocket.
pub fn ws_context(use_tls: bool) -> (context: &'static str)
    ensures
        context@ == if use_tls {
            "WebSocket handshake failed: check client cert if server requires mTLS"@
        } else {
            "WebSocket handshake failed"@
        },
{
    if use_tls {
        "WebSocket handshake failed: check client cert if server requires mTLS"
    } else {
        "WebSocket handshake failed"
    }
}

/// Whether a character is a decimal digit.
pub open spec fn is_digit(c: char) -> bool {
    '0' <= c <= '9'
}

/// The number that some digits stand for.
pub open spec fn digits_value(digits: Seq<char>) -> int
    decreases digits.len(),
{
    if digits.len() == 0 {
        0
    } else {
        digits_value(digits.drop_last()) * 10 + (digits.last() as int - '0' as int)
    }
}

/// Whether a text consists of decimal digits.
pub open spec fn are_digits(text: Seq<char>) -> bool {
    text.len() > 0 && forall|i: int| 0 <= i < text.len() ==> is_digit(#[trigger] text[i])
}

/// A number's text without its sign.
pub open spec fn without_sign(text: Seq<char>) -> Seq<char> {
    if text.len() > 0 && (text[0] == '-' || text[0] == '+') {
        text.skip(1)
    } else {
        text
    }
}

/// The number that a text stands for: decimal digits, with a sign or without one,
/// and nothing else. It has to be in the range of `i32`.
pub open spec fn i32_of(text: Seq<char>) -> Option<int> {
    let digits = without_sign(text);
    let value = if text.len() > 0 && text[0] == '-' {
        -digits_value(digits)
    } else {
        digits_value(digits)
    };
    if are_digits(digits) && i32::MIN <= value <= i32::MAX {
        Some(value)
    } else {
        None
    }
}

proof fn more_digits_are_more(digits: Seq<char>, len: int)
    requires
        0 <= len <= digits.len(),
        forall|i: int| 0 <= i < digits.len() ==> is_digit(#[trigger] digits[i]),
    ensures
        0 <= digits_value(digits.take(len)) <= digits_value(digits),
    decreases digits.len(),
{
    if len < digits.len() {
        let front = digits.drop_last();
        assert forall|i: int| 0 <= i < front.len() implies is_digit(#[trigger] front[i]) by {
            assert(front[i] == digits[i]);
        }
        more_digits_are_more(front, len);
        assert(front.take(len) == digits.take(len));
    } else {
        assert(digits.take(len) == digits);
        if digits.len() > 0 {
            let front = digits.drop_last();
            assert forall|i: int| 0 <= i < front.len() implies is_digit(#[trigger] front[i]) by {
                assert(front[i] == digits[i]);
            }
            more_digits_are_more(front, front.len() as int);
            assert(front.take(front.len() as int) == front);
        }
    }
}

/// The number that a text stands for.
pub fn parse_i32(text: &str) -> (number: Option<i32>)
    ensures
        match number {
            Some(n) => i32_of(text@) == Some(n as int),
            None => i32_of(text@) is None,
        },
{
    let chars = chars_of(text);
    let negative = chars.len() > 0 && chars[0] == '-';
    let start: usize = if chars.len() > 0 && (chars[0] == '-' || chars[0] == '+') {
        1
    } else {
        0
    };
    if chars.len() == start {
        return None;
    }
    let ghost digits = without_sign(text@);
    let mut value: i64 = 0;
    let mut i: usize = start;
    assert(digits.take(0) == Seq::<char>::empty());
    while i < chars.len()
        invariant
            chars@ == text@,
            start <= i <= chars@.len(),
            start <= 1,
            digits == without_sign(text@),
            digits.len() == chars@.len() - start,
            forall|j: int| start <= j < chars@.len() ==> digits[j - start] == #[trigger] chars@[j],
            0 <= value <= 2_147_483_648,
            value == digits_value(digits.take(i - start)),
            forall|j: int| 0 <= j < i - start ==> is_digit(#[trigger] digits[j]),
        decreases chars@.len() - i,
    {
        let c = chars[i];
        if !('0' <= c && c <= '9') {
            assert(!is_digit(digits[i - start]));
            return None;
        }
        assert(digits.take(i + 1 - start).drop_last() == digits.take(i - start));
        let d: i64 = c as u32 as i64 - 48;
        value = value * 10 + d;
        assert(value == digits_value(digits.take(i + 1 - start)));
        if value > 2_147_483_648 {
            proof {
                if are_digits(digits) {
                    more_digits_are_more(digits, i + 1 - start);
                }
            }
            return None;
        }
        i = i + 1;
    }
    assert(digits.take(digits.len() as int) == digits);
    if negative {
        Some((-value) as i32)
    } else if value > 2_147_483_647 {
        None
    } else {
        Some(value as i32)
    }
}

proof fn decimal_is_digits(n: nat)
    ensures
        are_digits(decimal(n)),
        digits_value(decimal(n)) == n,
    decreases n,
{
    let text = decimal(n);
    if n < 10 {
        assert(text.drop_last() == Seq::<char>::empty());
        assert(digits_value(text.drop_last()) == 0);
    } else {
        decimal_is_digits(n / 10);
        let front = decimal(n / 10);
        assert(text.drop_last() == front);
        assert forall|i: int| 0 <= i < text.len() implies is_digit(#[trigger] text[i]) by {
            if i < front.len() {
                assert(text[i] == front[i]);
            }
        }
    }
}

/// A number that is written out is read back, whatever its sign.
pub proof fn numbers_are_read_back(n: i32)
    ensures
        i32_of(signed_decimal(n as int)) == Some(n as int),
{
    let text = signed_decimal(n as int);
    if n < 0 {
        let digits = decimal((-(n as int)) as nat);
        decimal_is_digits((-(n as int)) as nat);
        assert(text[0] == '-');
        assert(text.skip(1) == digits);
    } else {
        decimal_is_digits(n as nat);
        assert(is_digit(text[0]));
    }
}

/// The number of a single digit is its place among the digits.
pub proof fn digits_count_from_zero(d: int)
    requires
        0 <= d < 10,
    ensures
        digits_value(seq!["0123456789"@[d]]) == d,
        is_digit("0123456789"@[d]),
{
    reveal_strlit("0123456789");
    assert(seq!["0123456789"@[d]].drop_last() == Seq::<char>::empty());
    assert(digits_value(Seq::<char>::empty()) == 0);
}

proof fn leading_zeros_count_nothing(digits: Seq<char>)
    ensures
        digits_value(seq!['0'] + digits) == digits_value(digits),
    decreases digits.len(),
{
    let longer = seq!['0'] + digits;
    if digits.len() == 0 {
        assert(longer.drop_last() == digits);
    } else {
        leading_zeros_count_nothing(digits.drop_last());
        assert(longer.drop_last() == seq!['0'] + digits.drop_last());
    }
}

/// A plus sign and leading zeros change nothing, a minus sign turns the number round, and
/// a number is refused for its size only.
pub proof fn signs_and_zeros_are_read(digits: Seq<char>)
    requires
        are_digits(digits),
    ensures
        i32_of(seq!['+'] + digits) == i32_of(digits),
        i32_of(seq!['0'] + digits) == i32_of(digits),
        i32_of(digits) == if digits_value(digits) <= 2_147_483_647 {
            Some(digits_value(digits))
        } else {
            None
        },
        i32_of(seq!['-'] + digits) == if digits_value(digits) <= 2_147_483_648 {
            Some(-digits_value(digits))
        } else {
            None
        },
{
    assert(is_digit(digits[0]));
    assert((seq!['+'] + digits).skip(1) == digits);
    assert((seq!['-'] + digits).skip(1) == digits);
    let longer = seq!['0'] + digits;
    assert forall|i: int| 0 <= i < longer.len() implies is_digit(#[trigger] longer[i]) by {
        if i > 0 {
            assert(longer[i] == digits[i - 1]);
        }
    }
    leading_zeros_count_nothing(digits);
    more_digits_are_more(digits, 0);
    assert(digits.take(0) == Seq::<char>::empty());
}

/// A text is no number when it is empty or a sign alone, or has anything but a digit
/// behind its first character, or anything but a digit or a sign there.
pub proof fn other_texts_are_no_numbers(text: Seq<char>, at: int)
    requires
        text.len() == 0 || text == seq!['-'] || text == seq!['+'] || (0 <= at < text.len()
            && !('0' <= text[at] <= '9') && (at == 0 ==> text[0] != '-' && text[0] != '+')),
    ensures
        i32_of(text) is None,
{
    let digits = without_sign(text);
    if text.len() > 0 && text != seq!['-'] && text != seq!['+'] {
        if text[0] == '-' || text[0] == '+' {
            assert(digits[at - 1] == text[at]);
        } else {
            assert(digits[at] == text[at]);
        }
    }
}

/// Checks that exactly one file descriptor is handed over.
pub fn check_listen_fds(listen_fds: Option<&str>) -> (answer: Result<(), String>)
    ensures
        match listen_fds {
            None => answer matches Err(error) && error@ == "LISTEN_FDS is not set"@,
            Some(text) => match i32_of(text@) {
                None => answer matches Err(error) && error@ == "LISTEN_FDS is not a valid integer"@,
                Some(n) => if n == 1 {
                    answer is Ok
                } else {
                    answer matches Err(error) && error@ == "LISTEN_FDS must be 1, got "@
                        + signed_decimal(n)
                },
            },
        },
{
    match listen_fds {
        None => Err("LISTEN_FDS is not set".to_owned()),
        Some(text) => match parse_i32(text) {
            None => Err("LISTEN_FDS is not a valid integer".to_owned()),
            Some(n) => if n == 1 {
                Ok(())
            } else {
                Err(chain("LISTEN_FDS must be 1, got ", signed_decimal_text(n).as_str()))
            },
        },
    }
}

/// Exactly one file descriptor is accepted: the check passes if and only if the variable
/// is set to a text for the number one.
pub proof fn one_descriptor_is_accepted(listen_fds: Option<&str>, answer: Result<(), String>)
    requires
        call_ensures(check_listen_fds, (listen_fds,), answer),
    ensures
        answer is Ok <==> (listen_fds matches Some(text) && i32_of(text@) == Some(1int)),
        listen_fds is None ==> (answer matches Err(error) && error@ == "LISTEN_FDS is not set"@),
        listen_fds matches Some(text) ==> (i32_of(text@) is None ==> (answer matches Err(error)
            && error@ == "LISTEN_FDS is not a valid integer"@)),
        listen_fds matches Some(text) ==> (i32_of(text@) matches Some(n) ==> (answer matches Err(
            error,
        ) ==> error@ == "LISTEN_FDS must be 1, got "@ + signed_decimal(n))),
{
}

/// The bridge URL: from the environment or from the command line, but not from
/// both.
pub fn choose_bridge_url(env_url: Option<String>, arg_url: Option<String>) -> (url: Result<
    String,
    String,
>)
    ensures
        match (env_url, arg_url) {
            (Some(_), Some(_)) => url matches Err(error) && error@
                == "cannot set both VARLINK_BRIDGE_URL and argv[1]"@,
            (None, None) => url matches Err(error) && error@
                == "bridge URL required via VARLINK_BRIDGE_URL or argv[1]"@,
            (Some(given), None) | (None, Some(given)) => url == Ok::<String, String>(given),
        },
{
    match (env_url, arg_url) {
        (Some(_), Some(_)) => Err("cannot set both VARLINK_BRIDGE_URL and argv[1]".to_owned()),
        (None, None) => Err("bridge URL required via VARLINK_BRIDGE_URL or argv[1]".to_owned()),
        (Some(given), None) => Ok(given),
        (None, Some(given)) => Ok(given),
    }
}

/// The bridge URL is the one that is given, and it is given in exactly one of two ways;
/// it does not matter in which.
pub proof fn one_url_is_chosen(
    env_url: Option<String>,
    arg_url: Option<String>,
    url: Result<String, String>,
    exchanged: Result<String, String>,
)
    requires
        call_ensures(choose_bridge_url, (env_url, arg_url), url),
        call_ensures(choose_bridge_url, (arg_url, env_url), exchanged),
    ensures
        url is Ok <==> (env_url is Some) != (arg_url is Some),
        url matches Ok(chosen) ==> Some(chosen) == env_url || Some(chosen) == arg_url,
        url is Ok ==> url == exchanged,
        url matches Err(error) ==> error@ == if env_url is Some {
            "cannot set both VARLINK_BRIDGE_URL and argv[1]"@
        } else {
            "bridge URL required via VARLINK_BRIDGE_URL or argv[1]"@
        },
{
}

/// What reading the WebSocket gave.
#[derive(Debug)]
pub enum WsRead {
    Binary(Vec<u8>),
    Text,
    Close,
    Other,
    /// There is nothing to read for now.
    WouldBlock,
    Failed(String),
}

/// What to do after reading the WebSocket.
#[derive(Debug)]
pub enum ForwardAction {
    /// Write the bytes to the service, then read on.
    Write(Vec<u8>),
    /// Read on.
    Continue,
    /// There is no more to read. Whether the peer has closed the connection.
    Done(bool),
}

/// Takes what was read from the WebSocket: binary frames go to the service until
/// there are none left or the peer closes the connection.
pub fn forward_ws_until_would_block(read: WsRead) -> (action: Result<ForwardAction, String>)
    ensures
        forward_view(action) == forward_step(read),
        read matches WsRead::Binary(data) ==> action == Ok::<ForwardAction, String>(
            ForwardAction::Write(data),
        ),
        read is Other ==> action == Ok::<ForwardAction, String>(ForwardAction::Continue),
        read is Close ==> action == Ok::<ForwardAction, String>(ForwardAction::Done(true)),
        read is WouldBlock ==> action == Ok::<ForwardAction, String>(ForwardAction::Done(false)),
        read is Text || read is Failed <==> action is Err,
{
    match read {
        WsRead::Binary(data) => Ok(ForwardAction::Write(data)),
        WsRead::Text => Err("unexpected text WebSocket frame".to_owned()),
        WsRead::Close => Ok(ForwardAction::Done(true)),
        WsRead::Other => Ok(ForwardAction::Continue),
        WsRead::WouldBlock => Ok(ForwardAction::Done(false)),
        WsRead::Failed(cause) => Err(with_cause("ws read", cause.as_str())),
    }
}

/// What became of a series of reads.
pub enum ForwardEnd {
    /// More can be read.
    Open,
    /// There is no more to read. Whether the peer has closed the connection.
    Done(bool),
    /// The relay failed, with this text.
    Failed(Seq<char>),
}

/// What to do after a read: write these bytes, read on, or end.
pub open spec fn forward_step(read: WsRead) -> (Option<Seq<u8>>, ForwardEnd) {
    match read {
        WsRead::Binary(data) => (Some(data@), ForwardEnd::Open),
        WsRead::Other => (None, ForwardEnd::Open),
        WsRead::Close => (None, ForwardEnd::Done(true)),
        WsRead::WouldBlock => (None, ForwardEnd::Done(false)),
        WsRead::Text => (None, ForwardEnd::Failed("unexpected text WebSocket frame"@)),
        WsRead::Failed(cause) => (None, ForwardEnd::Failed(caused_by("ws read"@, cause@))),
    }
}

/// What an action is, as `forward_step` says it.
pub open spec fn forward_view(action: Result<ForwardAction, String>) -> (
    Option<Seq<u8>>,
    ForwardEnd,
) {
    match action {
        Ok(ForwardAction::Write(data)) => (Some(data@), ForwardEnd::Open),
        Ok(ForwardAction::Continue) => (None, ForwardEnd::Open),
        Ok(ForwardAction::Done(closed)) => (None, ForwardEnd::Done(closed)),
        Err(error) => (None, ForwardEnd::Failed(error@)),
    }
}

/// What is written to the service for the reads, one after the other until one of
/// them ends it, and how it ends.
pub open spec fn forwarded_reads(reads: Seq<WsRead>) -> (Seq<Seq<u8>>, ForwardEnd)
    decreases reads.len(),
{
    if reads.len() == 0 {
        (seq![], ForwardEnd::Open)
    } else {
        let (data, end) = forward_step(reads[0]);
        if end is Open {
            let (rest, last) = forwarded_reads(reads.skip(1));
            match data {
                Some(data) => (seq![data] + rest, last),
                None => (rest, last),
            }
        } else {
            (seq![], end)
        }
    }
}

/// The binary frames among the reads.
pub open spec fn binary_frames(reads: Seq<WsRead>) -> Seq<Seq<u8>>
    decreases reads.len(),
{
    if reads.len() == 0 {
        seq![]
    } else {
        match reads[0] {
            WsRead::Binary(data) => seq![data@] + binary_frames(reads.skip(1)),
            _ => binary_frames(reads.skip(1)),
        }
    }
}

/// How the relay ends on a read that does not let it read on.
pub open spec fn is_end_of(read: WsRead, end: ForwardEnd) -> bool {
    match read {
        WsRead::Close => end == ForwardEnd::Done(true),
        WsRead::WouldBlock => end == ForwardEnd::Done(false),
        WsRead::Text => end matches ForwardEnd::Failed(text) && text
            == "unexpected text WebSocket frame"@,
        WsRead::Failed(cause) => end matches ForwardEnd::Failed(text) && text == "ws read"@ + ": "@
            + cause@,
        _ => false,
    }
}

/// What a read is answered depends on its kind alone: a binary frame is written as it
/// is, whatever its bytes are, and like a control frame it lets the relay read on.
/// Nothing else is written, and nothing else lets it read on.
pub proof fn only_binary_frames_are_written(read: WsRead)
    ensures
        forward_step(read).1 is Open <==> read is Binary || read is Other,
        forward_step(read).0 is Some <==> read is Binary,
        read matches WsRead::Binary(data) ==> forward_step(read).0 == Some(data@),
        !(read is Binary || read is Other) ==> is_end_of(read, forward_step(read).1),
{
}

/// Every call that takes a read answers it by its kind alone: the bytes of a binary
/// frame are handed on as they are, a control frame is passed over, and a close frame,
/// a read that would block, a text frame and a failure each end the relay in their own
/// way.
pub proof fn reads_are_answered_by_their_kind(read: WsRead, action: Result<ForwardAction, String>)
    requires
        call_ensures(forward_ws_until_would_block, (read,), action),
    ensures
        (action matches Ok(ForwardAction::Write(_))) <==> read is Binary,
        (action matches Ok(ForwardAction::Continue)) <==> read is Other,
        (action matches Ok(ForwardAction::Done(true))) <==> read is Close,
        (action matches Ok(ForwardAction::Done(false))) <==> read is WouldBlock,
        action is Err <==> read is Text || read is Failed,
        read matches WsRead::Binary(data) ==> (action matches Ok(ForwardAction::Write(written))
            && written@ == data@),
        read is Text ==> (action matches Err(error) && error@
            == "unexpected text WebSocket frame"@),
        read matches WsRead::Failed(cause) ==> (action matches Err(error) && error@ == "ws read"@
            + ": "@ + cause@),
{
}

/// Every binary frame reaches the service, as it is and in order, up to the read
/// that ends the forwarding, and nothing is written after that.
pub proof fn frames_reach_the_service(reads: Seq<WsRead>, end: WsRead, more: Seq<WsRead>)
    requires
        forall|i: int|
            0 <= i < reads.len() ==> (#[trigger] reads[i]) is Binary || reads[i] is Other,
        end is Close || end is WouldBlock || end is Text || end is Failed,
    ensures
        forwarded_reads(reads) == (binary_frames(reads), ForwardEnd::Open),
        forwarded_reads(reads.push(end) + more) == (binary_frames(reads), forward_step(end).1),
        is_end_of(end, forwarded_reads(reads.push(end) + more).1),
    decreases reads.len(),
{
    let all = reads.push(end) + more;
    if reads.len() > 0 {
        let rest = reads.skip(1);
        assert forall|i: int| 0 <= i < rest.len() implies (#[trigger] rest[i]) is Binary
            || rest[i] is Other by {
            assert(rest[i] == reads[i + 1]);
        }
        frames_reach_the_service(rest, end, more);
        assert(reads[0] is Binary || reads[0] is Other);
        assert(all[0] == reads[0]);
        assert(all.skip(1) == rest.push(end) + more);
    } else {
        assert(all[0] == end);
    }
}

/// One more binary frame is one more write, of its bytes and behind all others; one more
/// control frame changes nothing.
pub proof fn each_frame_is_written_once(reads: Seq<WsRead>, read: WsRead)
    requires
        forall|i: int|
            0 <= i < reads.len() ==> (#[trigger] reads[i]) is Binary || reads[i] is Other,
        read is Binary || read is Other,
    ensures
        forwarded_reads(reads.push(read)).1 is Open,
        read matches WsRead::Binary(data) ==> forwarded_reads(reads.push(read)).0
            == forwarded_reads(reads).0.push(data@),
        read is Other ==> forwarded_reads(reads.push(read)) == forwarded_reads(reads),
    decreases reads.len(),
{
    let all = reads.push(read);
    if reads.len() > 0 {
        let rest = reads.skip(1);
        assert forall|i: int| 0 <= i < rest.len() implies (#[trigger] rest[i]) is Binary
            || rest[i] is Other by {
            assert(rest[i] == reads[i + 1]);
        }
        each_frame_is_written_once(rest, read);
        assert(reads[0] is Binary || reads[0] is Other);
        assert(all[0] == reads[0]);
        assert(all.skip(1) == rest.push(read));
        if let WsRead::Binary(data) = read {
            let written = forwarded_reads(rest).0;
            if let WsRead::Binary(first) = reads[0] {
                assert(seq![first@] + written.push(data@) == (seq![first@] + written).push(data@));
            }
        }
    } else {
        assert(all[0] == read);
        assert(all.skip(1) == Seq::<WsRead>::empty());
        assert(forwarded_reads(all.skip(1)).0 == Seq::<Seq<u8>>::empty());
        assert(forwarded_reads(all.skip(1)).1 is Open);
        if let WsRead::Binary(data) = read {
            assert(seq![data@] + Seq::<Seq<u8>>::empty() == Seq::<Seq<u8>>::empty().push(data@));
        }
    }
}

/// Takes what was read while the connection is being closed: whether the peer has
/// answered. Other frames are passed over.
pub fn graceful_close(read: WsRead) -> (closed: Result<bool, String>)
    ensures
        match read {
            WsRead::Close => closed == Ok::<bool, String>(true),
            WsRead::Failed(cause) => closed matches Err(error) && error@ == caused_by(
                "waiting for close response"@,
                cause@,
            ),
            WsRead::WouldBlock => closed matches Err(error) && error@
                == "waiting for close response"@,
            _ => closed == Ok::<bool, String>(false),
        },
{
    match read {
        WsRead::Close => Ok(true),
        WsRead::Failed(cause) => Err(with_cause("waiting for close response", cause.as_str())),
        WsRead::WouldBlock => Err("waiting for close response".to_owned()),
        _ => Ok(false),
    }
}

/// The connection counts as closed once the peer's close frame is read. Every other frame
/// is passed over, whatever it holds, and a read that gives none is an error.
pub proof fn closing_waits_for_the_peer(read: WsRead, closed: Result<bool, String>)
    requires
        call_ensures(graceful_close, (read,), closed),
    ensures
        (closed matches Ok(true)) <==> read is Close,
        (closed matches Ok(false)) <==> read is Binary || read is Text || read is Other,
        closed is Err <==> read is WouldBlock || read is Failed,
        read is WouldBlock ==> (closed matches Err(error) && error@
            == "waiting for close response"@),
        read matches WsRead::Failed(cause) ==> (closed matches Err(error) && error@
            == "waiting for close response"@ + ": "@ + cause@),
{
}

/// What polling the service and the WebSocket found.
#[derive(Debug, Clone, Copy, PartialEq, Eq, Structural)]
pub struct Ready {
    /// The service has something to read.
    pub service_in: bool,
    /// The service has hung up.
    pub service_hup: bool,
    /// The WebSocket has something to read.
    pub ws_in: bool,
}

/// What the relay does next.
#[derive(Debug, Clone, Copy, PartialEq, Eq, Structural)]
pub enum RelayStep {
    /// Wait until there is something to read.
    Poll,
    /// Read the service.
    ReadService(Ready),
    /// Send what was read from the service to the WebSocket.
    SendWs(Ready),
    /// Forward what the WebSocket has.
    ForwardWs(Ready),
    /// Close the WebSocket.
    Stop,
}

/// What follows when the WebSocket was served.
pub open spec fn after_ws(ready: Ready) -> RelayStep {
    if ready.service_hup {
        RelayStep::Stop
    } else {
        RelayStep::Poll
    }
}

/// What follows when the service was served.
pub open spec fn after_service(ready: Ready) -> RelayStep {
    if ready.ws_in {
        RelayStep::ForwardWs(ready)
    } else {
        after_ws(ready)
    }
}

/// Goes on before polling: the relay stops when it is told to.
pub fn on_wakeup(shutdown: bool) -> (step: RelayStep)
    ensures
        step == if shutdown {
            RelayStep::Stop
        } else {
            RelayStep::Poll
        },
{
    if shutdown {
        RelayStep::Stop
    } else {
        RelayStep::Poll
    }
}

/// Goes on after polling: the service comes first, then the WebSocket, and a
/// service that has hung up is read before the relay stops.
pub fn on_poll(ready: Ready) -> (step: RelayStep)
    ensures
        step == if ready.service_in {
            RelayStep::ReadService(ready)
        } else {
            after_service(ready)
        },
{
    if ready.service_in {
        RelayStep::ReadService(ready)
    } else {
        on_service_served(ready)
    }
}

/// Goes on after reading so many bytes from the service. None mean that it is
/// closed.
pub fn on_service_read(ready: Ready, len: usize) -> (step: RelayStep)
    ensures
        step == if len == 0 {
            RelayStep::Stop
        } else {
            RelayStep::SendWs(ready)
        },
{
    if len == 0 {
        RelayStep::Stop
    } else {
        RelayStep::SendWs(ready)
    }
}

/// Goes on when what the service had to say was sent.
pub fn on_service_served(ready: Ready) -> (step: RelayStep)
    ensures
        step == after_service(ready),
{
    if ready.ws_in {
        RelayStep::ForwardWs(ready)
    } else {
        on_ws_served(ready, false)
    }
}

/// Goes on when what the WebSocket had was forwarded. The relay stops when the
/// peer has closed the connection or the service has hung up.
pub fn on_ws_served(ready: Ready, closed: bool) -> (step: RelayStep)
    ensures
        step == if closed {
            RelayStep::Stop
        } else {
            after_ws(ready)
        },
{
    if closed || ready.service_hup {
        RelayStep::Stop
    } else {
        RelayStep::Poll
    }
}

/// The relay stops before polling exactly when it is told to.
pub proof fn a_shutdown_is_heeded(shutdown: bool, step: RelayStep)
    requires
        call_ensures(on_wakeup, (shutdown,), step),
    ensures
        step is Stop <==> shutdown,
        step is Poll <==> !shutdown,
{
}

/// After polling, whatever is there to be read is read, the service first. The relay stops
/// only when there is nothing to read and the service has hung up.
pub proof fn what_is_ready_is_read(ready: Ready, step: RelayStep)
    requires
        call_ensures(on_poll, (ready,), step),
    ensures
        step == RelayStep::ReadService(ready) <==> ready.service_in,
        step == RelayStep::ForwardWs(ready) <==> !ready.service_in && ready.ws_in,
        step is Stop <==> !ready.service_in && !ready.ws_in && ready.service_hup,
        step is Poll <==> !ready.service_in && !ready.ws_in && !ready.service_hup,
{
}

/// What is read from the service is sent on, and an end of it stops the relay.
pub proof fn what_the_service_says_is_sent(ready: Ready, len: usize, step: RelayStep)
    requires
        call_ensures(on_service_read, (ready, len), step),
    ensures
        step is Stop <==> len == 0,
        step == RelayStep::SendWs(ready) <==> len > 0,
{
}

/// Once the service is served the WebSocket is, where it has something; then the relay
/// goes on as after polling.
pub proof fn the_websocket_is_served_next(ready: Ready, step: RelayStep)
    requires
        call_ensures(on_service_served, (ready,), step),
    ensures
        step == RelayStep::ForwardWs(ready) <==> ready.ws_in,
        step is Stop <==> !ready.ws_in && ready.service_hup,
        step is Poll <==> !ready.ws_in && !ready.service_hup,
{
}

/// Once both are served the relay polls again, until the peer has closed the connection or
/// the service has hung up.
pub proof fn the_relay_stops_at_either_end(ready: Ready, closed: bool, step: RelayStep)
    requires
        call_ensures(on_ws_served, (ready, closed), step),
    ensures
        step is Stop <==> closed || ready.service_hup,
        step is Poll <==> !closed && !ready.service_hup,
{
}

/// A server that cannot be reached is told by its host and its port, and a handshake that
/// fails mentions certificates exactly on TLS.
pub proof fn failures_to_connect_are_told(
    endpoint: &Endpoint,
    context: String,
    use_tls: bool,
    handshake: &'static str,
)
    requires
        call_ensures(tcp_context, (endpoint,), context),
        call_ensures(ws_context, (use_tls,), handshake),
    ensures
        context@ == "TCP connect to "@ + endpoint.host@ + ":"@ + decimal(endpoint.port as nat)
            + " failed"@,
        use_tls ==> handshake@
            == "WebSocket handshake failed: check client cert if server requires mTLS"@,
        !use_tls ==> handshake@ == "WebSocket handshake failed"@,
{
}

} // verus!
