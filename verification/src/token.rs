//! What a request's signed token covers, and how the token travels.

use crate::base64::{base64, base64_is_graphic, base64_is_injective, encode_base64};
use crate::headers::{
    header_text_is_read_back, header_value, is_header_text, value_text, Header,
};
use crate::nonce::is_long_enough;
use crate::text::{after_prefix, chain, opt_str, prefixes_are_taken_off};
use vstd::prelude::*;
use vstd::utf8::{encode_utf8, is_ascii_chars, is_ascii_chars_encode_utf8};

verus! {

/// The prefix that sets this program's tokens apart from those of others.
pub const SSHAUTH_MAGIC_PREFIX: [u8; 8] = [118, 104, 98, 114, 105, 100, 103, 101];

/// The header that the nonce travels in.
pub const SSHAUTH_NONCE_HEADER: &'static str = "x-auth-nonce";

/// The header that the token travels in.
pub const AUTHORIZATION_HEADER: &'static str = "authorization";

/// One thing that a token is signed for.
#[derive(Debug)]
pub struct TokenAction {
    pub key: String,
    pub value: String,
}

/// The keys and values of some actions.
pub open spec fn action_texts(actions: Seq<TokenAction>) -> Seq<(Seq<char>, Seq<char>)> {
    actions.map_values(|action: TokenAction| (action.key@, action.value@))
}

/// What the token of a request is signed for, in this order: the method, the
/// path with its query, the nonce, and on TLS the channel that it is sent on.
pub open spec fn token_actions(
    method: Seq<char>,
    path: Seq<char>,
    nonce: Seq<char>,
    channel_binding: Option<Seq<char>>,
) -> Seq<(Seq<char>, Seq<char>)> {
    let request = seq![("method"@, method), ("path"@, path), ("nonce"@, nonce)];
    match channel_binding {
        Some(binding) => request.push(("tls-channel-binding"@, binding)),
        None => request,
    }
}

/// A token is signed for one request on one channel: requests that differ in
/// method, path, nonce or channel differ in what is signed. A token that was
/// signed off TLS is not for a TLS channel.
pub proof fn tokens_are_for_one_request(
    method: Seq<char>,
    path: Seq<char>,
    nonce: Seq<char>,
    binding: Option<Seq<char>>,
    other_method: Seq<char>,
    other_path: Seq<char>,
    other_nonce: Seq<char>,
    other_binding: Option<Seq<char>>,
)
    requires
        token_actions(method, path, nonce, binding) == token_actions(
            other_method,
            other_path,
            other_nonce,
            other_binding,
        ),
    ensures
        method == other_method,
        path == other_path,
        nonce == other_nonce,
        binding == other_binding,
{
    let these = token_actions(method, path, nonce, binding);
    let others = token_actions(other_method, other_path, other_nonce, other_binding);
    assert(these[0] == others[0] && these[1] == others[1] && these[2] == others[2]);
    assert(these.len() == others.len());
    if binding is Some {
        assert(these[3] == others[3]);
    }
}

/// What is signed for a request is its method under "method", its path under "path",
/// its nonce under "nonce" and, on TLS only, its channel under "tls-channel-binding",
/// one after the other. The keys are these whatever the values are.
pub proof fn actions_say_what_they_are(
    method: Seq<char>,
    path: Seq<char>,
    nonce: Seq<char>,
    binding: Option<Seq<char>>,
)
    ensures
        ({
            let actions = token_actions(method, path, nonce, binding);
            &&& actions.len() == if binding is Some {
                4int
            } else {
                3int
            }
            &&& actions[0].0 == "method"@ && actions[0].1 == method
            &&& actions[1].0 == "path"@ && actions[1].1 == path
            &&& actions[2].0 == "nonce"@ && actions[2].1 == nonce
            &&& binding matches Some(text) ==> actions[3].0 == "tls-channel-binding"@
                && actions[3].1 == text
        }),
{
}

/// The actions of a request that is sent on a TLS channel are those of the same
/// request off TLS, and one more.
pub proof fn a_channel_adds_one_action(
    method: Seq<char>,
    path: Seq<char>,
    nonce: Seq<char>,
    binding: Seq<char>,
)
    ensures
        token_actions(method, path, nonce, Some(binding)) == token_actions(
            method,
            path,
            nonce,
            None,
        ).push(("tls-channel-binding"@, binding)),
{
}

/// Every call of `actions_for` gives the method, the path, the nonce and, on TLS only,
/// the channel, each under its own key and as it was handed in.
pub proof fn every_request_is_signed_in_full(
    method: &str,
    path: &str,
    nonce: &str,
    binding: Option<&str>,
    actions: Vec<TokenAction>,
)
    requires
        call_ensures(actions_for, (method, path, nonce, binding), actions),
    ensures
        actions@.len() == if binding is Some {
            4int
        } else {
            3int
        },
        actions@[0].key@ == "method"@ && actions@[0].value@ == method@,
        actions@[1].key@ == "path"@ && actions@[1].value@ == path@,
        actions@[2].key@ == "nonce"@ && actions@[2].value@ == nonce@,
        binding matches Some(text) ==> actions@[3].key@ == "tls-channel-binding"@
            && actions@[3].value@ == text@,
{
    let texts = action_texts(actions@);
    assert(texts == token_actions(method@, path@, nonce@, opt_str(binding)));
    assert forall|i: int| 0 <= i < actions@.len() implies #[trigger] texts[i] == (
        actions@[i].key@,
        actions@[i].value@,
    ) by {}
}

/// What the token of a request is signed for.
pub fn actions_for(
    method: &str,
    path: &str,
    nonce: &str,
    channel_binding: Option<&str>,
) -> (actions: Vec<TokenAction>)
    ensures
        action_texts(actions@) == token_actions(method@, path@, nonce@, opt_str(channel_binding)),
        actions@.len() == if channel_binding is Some {
            4int
        } else {
            3int
        },
        actions@[0].key@ == "method"@ && actions@[0].value@ == method@,
        actions@[1].key@ == "path"@ && actions@[1].value@ == path@,
        actions@[2].key@ == "nonce"@ && actions@[2].value@ == nonce@,
        channel_binding matches Some(binding) ==> actions@[3].key@ == "tls-channel-binding"@
            && actions@[3].value@ == binding@,
{
    let mut actions: Vec<TokenAction> = Vec::new();
    actions.push(TokenAction { key: "method".to_owned(), value: method.to_owned() });
    actions.push(TokenAction { key: "path".to_owned(), value: path.to_owned() });
    actions.push(TokenAction { key: "nonce".to_owned(), value: nonce.to_owned() });
    if let Some(binding) = channel_binding {
        actions.push(
            TokenAction { key: "tls-channel-binding".to_owned(), value: binding.to_owned() },
        );
    }
    assert(action_texts(actions@) == token_actions(
        method@,
        path@,
        nonce@,
        opt_str(channel_binding),
    ));
    actions
}

/// The token in an `Authorization` header.
pub open spec fn bearer_token(header: Seq<char>) -> Option<Seq<char>> {
    after_prefix(header, "Bearer "@)
}

/// Whether these are the headers of a signed request: the token and the nonce.
pub open spec fn are_auth_headers(
    headers: Seq<Header>,
    token: Seq<char>,
    nonce: Seq<char>,
) -> bool {
    &&& headers.len() == 2
    &&& headers[0].name@ == AUTHORIZATION_HEADER@
    &&& headers[0].value@ == encode_utf8("Bearer "@ + token)
    &&& headers[1].name@ == SSHAUTH_NONCE_HEADER@
    &&& headers[1].value@ == encode_utf8(nonce)
}

/// The headers of a signed request: the token and the nonce.
pub fn auth_headers(token: &str, nonce: &str) -> (headers: Vec<Header>)
    ensures
        are_auth_headers(headers@, token@, nonce@),
{
    let bearer = chain("Bearer ", token);
    let mut headers: Vec<Header> = Vec::new();
    headers.push(
        Header {
            name: AUTHORIZATION_HEADER.to_owned(),
            value: vstd::slice::slice_to_vec(bearer.as_str().as_bytes()),
        },
    );
    headers.push(
        Header {
            name: SSHAUTH_NONCE_HEADER.to_owned(),
            value: vstd::slice::slice_to_vec(nonce.as_bytes()),
        },
    );
    headers
}

/// The headers that a client adds to its request: those of the token, where one
/// could be made. Without a token the request goes out without them.
pub fn maybe_add_auth_headers(built: Result<Option<(String, String)>, String>) -> (headers: Vec<
    Header,
>)
    ensures
        match built {
            Ok(Some((token, nonce))) => are_auth_headers(headers@, token@, nonce@),
            _ => headers@.len() == 0,
        },
{
    match built {
        Ok(Some((token, nonce))) => auth_headers(token.as_str(), nonce.as_str()),
        _ => Vec::new(),
    }
}

/// The token and the nonce that a client puts into its headers are those that the
/// server takes out of them.
pub proof fn credentials_are_read_back(headers: Seq<Header>, token: Seq<char>, nonce: Seq<char>)
    requires
        are_auth_headers(headers, token, nonce),
        is_header_text(token),
        is_header_text(nonce),
    ensures
        header_value(headers, AUTHORIZATION_HEADER@) matches Some(value) && value_text(value)
            matches Some(text) && bearer_token(text) == Some(token),
        header_value(headers, SSHAUTH_NONCE_HEADER@) matches Some(value) && value_text(value)
            == Some(nonce),
{
    reveal_strlit("Bearer ");
    reveal_strlit("authorization");
    reveal_strlit("x-auth-nonce");
    let bearer = "Bearer "@ + token;
    header_text_is_read_back(bearer);
    header_text_is_read_back(nonce);
    assert(bearer_token(bearer) == Some(token)) by {
        assert("Bearer "@.is_prefix_of(bearer));
        assert(bearer.skip(7) == token);
    }
    assert(headers[0].name@.len() != headers[1].name@.len());
    reveal_with_fuel(header_value, 3);
}

/// Fills a buffer with `openssl::rand::rand_bytes`. Nothing is claimed of the
/// bytes; there are none where the generator fails.
#[verifier::external_body]
fn random_bytes() -> (bytes: Option<[u8; 16]>) {
    let mut bytes = [0u8; 16];
    openssl::rand::rand_bytes(&mut bytes).ok().map(|()| bytes)
}

/// The nonce made of some random bytes: their base64 text. It is long enough for
/// the server and can stand in a header.
pub fn nonce_of(bytes: &[u8; 16]) -> (nonce: String)
    ensures
        nonce@ == base64(bytes@),
        is_long_enough(nonce@),
        is_header_text(nonce@),
{
    let nonce = encode_base64(bytes);
    proof {
        base64_is_graphic(bytes@);
        assert(is_ascii_chars(nonce@));
        is_ascii_chars_encode_utf8(nonce@);
    }
    nonce
}

/// Whether `drawn` is what the random number generator gave when it was asked.
pub closed spec fn is_drawn(drawn: Option<[u8; 16]>) -> bool {
    call_ensures(random_bytes, (), drawn)
}

/// A fresh nonce, unless the random number generator fails: the base64 text of the
/// bytes that it gave.
pub fn generate_nonce() -> (nonce: Option<String>)
    ensures
        exists|drawn: Option<[u8; 16]>| #[trigger]
            is_drawn(drawn) && match drawn {
                Some(bytes) => nonce matches Some(text) && text@ == base64(bytes@),
                None => nonce is None,
            },
        nonce matches Some(text) ==> is_long_enough(text@) && is_header_text(text@),
{
    let drawn = random_bytes();
    assert(is_drawn(drawn));
    nonce_from(drawn)
}

/// The nonce made of what the random number generator gave: there is one exactly
/// when it gave bytes.
pub fn nonce_from(bytes: Option<[u8; 16]>) -> (nonce: Option<String>)
    ensures
        match bytes {
            Some(bytes) => nonce matches Some(text) && text@ == base64(bytes@) && is_long_enough(
                text@,
            ) && is_header_text(text@),
            None => nonce is None,
        },
{
    match bytes {
        Some(bytes) => Some(nonce_of(&bytes)),
        None => None,
    }
}

/// A header holds a token exactly when it starts with "Bearer ", and the token is all that
/// follows.
pub proof fn tokens_follow_their_scheme(header: Seq<char>, token: Seq<char>)
    ensures
        bearer_token(header) == Some(token) <==> header == "Bearer "@ + token,
{
    prefixes_are_taken_off(header, "Bearer "@, token);
}

/// A request with a token carries exactly two headers: the token under "authorization"
/// and the nonce under "x-auth-nonce". One without a token carries none.
pub proof fn headers_carry_token_and_nonce(
    built: Result<Option<(String, String)>, String>,
    headers: Vec<Header>,
)
    requires
        call_ensures(maybe_add_auth_headers, (built,), headers),
    ensures
        built matches Ok(Some((token, nonce))) ==> {
            &&& headers@.len() == 2
            &&& headers@[0].name@ == "authorization"@
            &&& headers@[0].value@ == encode_utf8("Bearer "@ + token@)
            &&& headers@[1].name@ == "x-auth-nonce"@
            &&& headers@[1].value@ == encode_utf8(nonce@)
        },
        !(built matches Ok(Some(_))) ==> headers@.len() == 0,
{
}

/// Every nonce is the base64 text of the bytes that were drawn: it has 24 characters, and
/// different bytes make different nonces.
pub proof fn nonces_say_what_was_drawn(
    drawn: [u8; 16],
    nonce: Option<String>,
    other_drawn: [u8; 16],
    other: Option<String>,
    none: Option<String>,
)
    requires
        call_ensures(nonce_from, (Some(drawn),), nonce),
        call_ensures(nonce_from, (Some(other_drawn),), other),
        call_ensures(nonce_from, (None::<[u8; 16]>,), none),
    ensures
        nonce matches Some(text) && text@ == base64(drawn@) && text@.len() == 24,
        nonce matches Some(text) && (other matches Some(other_text) && (text@ == other_text@
            ==> drawn@ == other_drawn@)),
        none is None,
{
    base64_is_graphic(drawn@);
    if base64(drawn@) == base64(other_drawn@) {
        base64_is_injective(drawn@, other_drawn@);
    }
}

/// The prefix of this program's tokens is the text "vhbridge".
pub proof fn tokens_have_this_prefix(i: int)
    requires
        0 <= i < 8,
    ensures
        SSHAUTH_MAGIC_PREFIX@.len() == 8,
        SSHAUTH_MAGIC_PREFIX@[i] == "vhbridge"@[i] as u8,
{
    reveal_strlit("vhbridge");
}

/// A nonce that is drawn is the base64 text of 16 random bytes: 24 characters, which can
/// stand in a header and are long enough for the server.
pub proof fn drawn_nonces_are_accepted(nonce: Option<String>)
    requires
        call_ensures(generate_nonce, (), nonce),
    ensures
        nonce matches Some(text) ==> text@.len() == 24 && encode_utf8(text@).len() >= 16
            && is_header_text(text@),
        nonce matches Some(text) ==> exists|bytes: [u8; 16]| #[trigger] base64(bytes@) == text@,
{
    if let Some(text) = nonce {
        let drawn = choose|drawn: Option<[u8; 16]>| #[trigger]
            is_drawn(drawn) && match drawn {
                Some(bytes) => nonce matches Some(text) && text@ == base64(bytes@),
                None => nonce is None,
            };
        base64_is_graphic(drawn.unwrap()@);
    }
}

} // verus!
