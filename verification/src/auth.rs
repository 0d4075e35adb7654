//! Who may use the API: every request is put to the authenticators.

use crate::error::{AppError, StatusCode};
use crate::headers::{
    find_header, header_value, text_of_value, the_first_header_counts, value_text, Header,
};
use crate::text::{join, joined, opt_str, opt_text, texts};
use crate::token::{AUTHORIZATION_HEADER, SSHAUTH_NONCE_HEADER};
use vstd::prelude::*;

verus! {

/// Something that admits requests by what their headers hold. A refusal has its
/// reason.
pub trait Authenticator {
    fn check_request(
        &self,
        method: &str,
        path: &str,
        auth_header: &str,
        nonce: Option<&str>,
        channel_binding: Option<&str>,
    ) -> Result<(), String>;
}

/// The nonce in a request's headers, unless there is none or it is not text.
pub open spec fn nonce_in(headers: Seq<Header>) -> Option<Seq<char>> {
    match header_value(headers, SSHAUTH_NONCE_HEADER@) {
        Some(value) => value_text(value),
        None => None,
    }
}

/// The nonce in a request's headers, unless there is none or it is not text.
pub fn extract_nonce(headers: &Vec<Header>) -> (nonce: Option<String>)
    ensures
        opt_text(nonce) == nonce_in(headers@),
{
    match find_header(headers, SSHAUTH_NONCE_HEADER) {
        Some(value) => text_of_value(value),
        None => None,
    }
}

/// The `Authorization` header as text, or the answer where there is none.
pub open spec fn is_authorization(headers: Seq<Header>, found: Result<String, AppError>) -> bool {
    match header_value(headers, AUTHORIZATION_HEADER@) {
        None => found matches Err(error) && error.status == StatusCode::Unauthorized
            && error.message@ == "missing Authorization header"@,
        Some(value) => match value_text(value) {
            None => found matches Err(error) && error.status == StatusCode::BadRequest
                && error.message@ == "invalid Authorization header encoding"@,
            Some(text) => found matches Ok(header) && header@ == text,
        },
    }
}

/// The `Authorization` header as text, or the answer where there is none.
pub fn authorization(headers: &Vec<Header>) -> (found: Result<String, AppError>)
    ensures
        is_authorization(headers@, found),
{
    match find_header(headers, AUTHORIZATION_HEADER) {
        None => Err(AppError::unauthorized("missing Authorization header".to_owned())),
        Some(value) => match text_of_value(value) {
            None => Err(AppError::bad_request("invalid Authorization header encoding".to_owned())),
            Some(text) => Ok(text),
        },
    }
}

/// The reasons of some refusals.
pub open spec fn reasons(verdicts: Seq<Result<(), String>>) -> Seq<Seq<char>> {
    verdicts.map_values(
        |verdict: Result<(), String>|
            match verdict {
                Ok(()) => Seq::<char>::empty(),
                Err(reason) => reason@,
            },
    )
}

/// What a request is answered after these verdicts: one authenticator that admits
/// it is enough; otherwise all reasons are given.
pub open spec fn is_decision(
    verdicts: Seq<Result<(), String>>,
    answer: Result<(), AppError>,
) -> bool {
    if exists|i: int| 0 <= i < verdicts.len() && (#[trigger] verdicts[i]) is Ok {
        answer is Ok
    } else {
        answer matches Err(error) && error.status == StatusCode::Unauthorized && error.message@
            == joined(reasons(verdicts), "; "@)
    }
}

/// Answers a request after the verdicts on it.
pub fn decide(verdicts: Vec<Result<(), String>>) -> (answer: Result<(), AppError>)
    ensures
        is_decision(verdicts@, answer),
{
    let mut errors: Vec<String> = Vec::new();
    let mut i: usize = 0;
    while i < verdicts.len()
        invariant
            i <= verdicts@.len(),
            texts(errors@) == reasons(verdicts@).take(i as int),
            forall|j: int| 0 <= j < i ==> (#[trigger] verdicts@[j]) is Err,
        decreases verdicts@.len() - i,
    {
        match &verdicts[i] {
            Ok(()) => {
                assert(verdicts@[i as int] is Ok);
                return Ok(());
            },
            Err(reason) => {
                let ghost listed = texts(errors@);
                errors.push(reason.clone());
                assert(texts(errors@) == listed.push(reason@));
                assert(reasons(verdicts@)[i as int] == reason@);
                assert(reasons(verdicts@).take(i + 1) == reasons(verdicts@).take(i as int).push(
                    reason@,
                ));
            },
        }
        i = i + 1;
    }
    assert(reasons(verdicts@).take(verdicts@.len() as int) == reasons(verdicts@));
    Err(AppError::unauthorized(join(&errors, "; ")))
}

/// Whether the verdicts are those of the first authenticators, asked one after
/// the other: each of them up to the first that admits the request.
pub open spec fn are_verdicts<A: Authenticator>(
    authenticators: Seq<A>,
    method: &str,
    path: &str,
    auth_header: &str,
    nonce: Option<&str>,
    channel_binding: Option<&str>,
    verdicts: Seq<Result<(), String>>,
) -> bool {
    &&& verdicts.len() <= authenticators.len()
    &&& forall|i: int|
        0 <= i < verdicts.len() ==> call_ensures(
            A::check_request,
            (&authenticators[i], method, path, auth_header, nonce, channel_binding),
            #[trigger] verdicts[i],
        )
    &&& forall|i: int| 0 <= i < verdicts.len() - 1 ==> (#[trigger] verdicts[i]) is Err
    &&& verdicts.len() < authenticators.len() ==> verdicts.len() > 0 && verdicts.last() is Ok
}

/// Puts a request to the authenticators, one after the other, until one admits it.
pub fn ask_authenticators<A: Authenticator>(
    authenticators: &Vec<A>,
    method: &str,
    path: &str,
    auth_header: &str,
    nonce: Option<&str>,
    channel_binding: Option<&str>,
) -> (answer: Result<(), AppError>)
    ensures
        exists|verdicts: Seq<Result<(), String>>|
            {
                &&& #[trigger] are_verdicts(
                    authenticators@,
                    method,
                    path,
                    auth_header,
                    nonce,
                    channel_binding,
                    verdicts,
                )
                &&& is_decision(verdicts, answer)
            },
{
    let mut verdicts: Vec<Result<(), String>> = Vec::new();
    let mut admitted: bool = false;
    while !admitted && verdicts.len() < authenticators.len()
        invariant
            verdicts@.len() <= authenticators@.len(),
            admitted ==> verdicts@.len() > 0 && verdicts@.last() is Ok,
            !admitted ==> (forall|j: int|
                0 <= j < verdicts@.len() ==> (#[trigger] verdicts@[j]) is Err),
            forall|j: int| 0 <= j < verdicts@.len() - 1 ==> (#[trigger] verdicts@[j]) is Err,
            forall|j: int|
                0 <= j < verdicts@.len() ==> call_ensures(
                    A::check_request,
                    (&authenticators@[j], method, path, auth_header, nonce, channel_binding),
                    #[trigger] verdicts@[j],
                ),
        decreases authenticators@.len() - verdicts@.len(),
    {
        let verdict = authenticators[verdicts.len()].check_request(
            method,
            path,
            auth_header,
            nonce,
            channel_binding,
        );
        admitted = verdict.is_ok();
        verdicts.push(verdict);
    }
    let ghost given = verdicts@;
    assert(are_verdicts(
        authenticators@,
        method,
        path,
        auth_header,
        nonce,
        channel_binding,
        given,
    ));
    decide(verdicts)
}

/// Whether a request may go on. Without authenticators every request may;
/// otherwise it needs an `Authorization` header that one of them accepts.
pub fn auth_middleware<A: Authenticator>(
    authenticators: &Vec<A>,
    headers: &Vec<Header>,
    method: &str,
    path: &str,
    channel_binding: Option<&str>,
) -> (answer: Result<(), AppError>)
    ensures
        authenticators@.len() == 0 ==> answer is Ok,
        authenticators@.len() > 0 ==> match header_value(headers@, AUTHORIZATION_HEADER@) {
            None => answer matches Err(error) && error.status == StatusCode::Unauthorized
                && error.message@ == "missing Authorization header"@,
            Some(value) => match value_text(value) {
                None => answer matches Err(error) && error.status == StatusCode::BadRequest
                    && error.message@ == "invalid Authorization header encoding"@,
                Some(text) => exists|
                    auth_header: &str,
                    nonce: Option<&str>,
                    verdicts: Seq<Result<(), String>>,
                |
                    {
                        &&& auth_header@ == text
                        &&& opt_str(nonce) == nonce_in(headers@)
                        &&& #[trigger] are_verdicts(
                            authenticators@,
                            method,
                            path,
                            auth_header,
                            nonce,
                            channel_binding,
                            verdicts,
                        )
                        &&& is_decision(verdicts, answer)
                    },
            },
        },
{
    if authenticators.len() == 0 {
        return Ok(());
    }
    let auth_header = match authorization(headers) {
        Ok(text) => text,
        Err(error) => return Err(error),
    };
    let nonce = extract_nonce(headers);
    let nonce: Option<&str> = match &nonce {
        Some(nonce) => Some(nonce.as_str()),
        None => None,
    };
    ask_authenticators(
        authenticators,
        method,
        path,
        auth_header.as_str(),
        nonce,
        channel_binding,
    )
}

/// The nonce of a request is the text of its first "x-auth-nonce" header, as it is. There
/// is none where no header has that name or where its value is not text.
pub proof fn nonces_come_from_their_header(headers: &Vec<Header>, nonce: Option<String>, at: int)
    requires
        call_ensures(extract_nonce, (headers,), nonce),
        0 <= at <= headers@.len(),
        forall|i: int| 0 <= i < at ==> (#[trigger] headers@[i]).name@ != "x-auth-nonce"@,
        at < headers@.len() ==> headers@[at].name@ == "x-auth-nonce"@,
    ensures
        at == headers@.len() ==> nonce is None,
        at < headers@.len() ==> opt_text(nonce) == value_text(headers@[at].value@),
{
    the_first_header_counts(headers@, "x-auth-nonce"@, at);
}

/// What a request is let in by is the text of its first "authorization" header, as it is.
/// A request without one is unauthorized, and one whose value is not text is bad.
pub proof fn authorizations_come_from_their_header(
    headers: &Vec<Header>,
    found: Result<String, AppError>,
    at: int,
)
    requires
        call_ensures(authorization, (headers,), found),
        0 <= at <= headers@.len(),
        forall|i: int| 0 <= i < at ==> (#[trigger] headers@[i]).name@ != "authorization"@,
        at < headers@.len() ==> headers@[at].name@ == "authorization"@,
    ensures
        at == headers@.len() ==> (found matches Err(error) && error.status is Unauthorized
            && error.message@ == "missing Authorization header"@),
        at < headers@.len() ==> (value_text(headers@[at].value@) is None ==> (found matches Err(
            error,
        ) && error.status is BadRequest && error.message@
            == "invalid Authorization header encoding"@)),
        at < headers@.len() ==> (value_text(headers@[at].value@) matches Some(text) ==> (
        found matches Ok(header) && header@ == text)),
{
    the_first_header_counts(headers@, "authorization"@, at);
}

/// One authenticator that admits a request is enough, whichever it is. A request that none
/// admits is unauthorized, and all their reasons are told, in order.
pub proof fn one_admission_is_enough(
    verdicts: Vec<Result<(), String>>,
    answer: Result<(), AppError>,
)
    requires
        call_ensures(decide, (verdicts,), answer),
    ensures
        answer is Ok <==> exists|i: int|
            0 <= i < verdicts@.len() && (#[trigger] verdicts@[i]) is Ok,
        answer matches Err(error) ==> error.status is Unauthorized && error.message@ == joined(
            Seq::new(verdicts@.len(), |i: int| (verdicts@[i]->Err_0)@),
            "; "@,
        ),
{
    if answer is Err {
        let told = Seq::new(verdicts@.len(), |i: int| (verdicts@[i]->Err_0)@);
        assert forall|i: int| 0 <= i < verdicts@.len() implies #[trigger] told[i] == reasons(
            verdicts@,
        )[i] by {
            assert(!(verdicts@[i] is Ok));
        }
        assert(told == reasons(verdicts@));
    }
}

/// Whether these are reasons for which the authenticators, each asked with this very
/// request, may refuse it: one from each, in order.
pub open spec fn are_refusals<A: Authenticator>(
    authenticators: Seq<A>,
    method: &str,
    path: &str,
    auth_header: &str,
    nonce: Option<&str>,
    channel_binding: Option<&str>,
    reasons: Seq<String>,
) -> bool {
    &&& reasons.len() == authenticators.len()
    &&& forall|i: int|
        0 <= i < reasons.len() ==> call_ensures(
            A::check_request,
            (&authenticators[i], method, path, auth_header, nonce, channel_binding),
            Err::<(), String>(#[trigger] reasons[i]),
        )
}

/// A request is only let in by an authenticator that admits this very request: its method,
/// its path, its authorization, its nonce and its channel. It is only refused when every
/// authenticator has refused it, and then all their reasons are told, in order.
pub proof fn somebody_admits_each_request<A: Authenticator>(
    authenticators: &Vec<A>,
    method: &str,
    path: &str,
    auth_header: &str,
    nonce: Option<&str>,
    channel_binding: Option<&str>,
    answer: Result<(), AppError>,
)
    requires
        call_ensures(
            ask_authenticators::<A>,
            (authenticators, method, path, auth_header, nonce, channel_binding),
            answer,
        ),
    ensures
        answer is Ok ==> exists|i: int, verdict: Result<(), String>|
            0 <= i < authenticators@.len() && verdict is Ok && #[trigger] call_ensures(
                A::check_request,
                (&authenticators@[i], method, path, auth_header, nonce, channel_binding),
                verdict,
            ),
        answer matches Err(error) ==> error.status is Unauthorized && exists|told: Seq<String>|
            #[trigger] are_refusals(
                authenticators@,
                method,
                path,
                auth_header,
                nonce,
                channel_binding,
                told,
            ) && error.message@ == joined(texts(told), "; "@),
{
    let verdicts = choose|verdicts: Seq<Result<(), String>>|
        {
            &&& #[trigger] are_verdicts(
                authenticators@,
                method,
                path,
                auth_header,
                nonce,
                channel_binding,
                verdicts,
            )
            &&& is_decision(verdicts, answer)
        };
    if answer is Ok {
        let i = choose|i: int| 0 <= i < verdicts.len() && (#[trigger] verdicts[i]) is Ok;
        assert(call_ensures(
            A::check_request,
            (&authenticators@[i], method, path, auth_header, nonce, channel_binding),
            verdicts[i],
        ));
    } else {
        assert(verdicts.len() == authenticators@.len()) by {
            if verdicts.len() < authenticators@.len() {
                assert(verdicts[verdicts.len() - 1] is Ok);
            }
        }
        let told = Seq::new(verdicts.len(), |i: int| verdicts[i]->Err_0);
        assert forall|i: int| 0 <= i < told.len() implies call_ensures(
            A::check_request,
            (&authenticators@[i], method, path, auth_header, nonce, channel_binding),
            Err::<(), String>(#[trigger] told[i]),
        ) by {
            assert(verdicts[i] is Err);
            assert(verdicts[i] == Err::<(), String>(told[i]));
        }
        assert(are_refusals(
            authenticators@,
            method,
            path,
            auth_header,
            nonce,
            channel_binding,
            told,
        ));
        assert forall|i: int| 0 <= i < told.len() implies #[trigger] texts(told)[i] == reasons(
            verdicts,
        )[i] by {
            assert(verdicts[i] is Err);
        }
        assert(texts(told) == reasons(verdicts));
    }
}

/// Whether an authenticator may answer such a request with a refusal, when it is asked with
/// the authorization and the nonce that the headers hold.
pub open spec fn may_refuse<A: Authenticator>(
    authenticator: A,
    headers: Seq<Header>,
    method: &str,
    path: &str,
    channel_binding: Option<&str>,
) -> bool {
    exists|auth_header: &str, nonce: Option<&str>, reason: String|
        header_value(headers, "authorization"@) is Some && value_text(
            header_value(headers, "authorization"@).unwrap(),
        ) == Some(auth_header@) && opt_str(nonce) == nonce_in(headers) && #[trigger] call_ensures(
            A::check_request,
            (&authenticator, method, path, auth_header, nonce, channel_binding),
            Err::<(), String>(reason),
        )
}

/// Without authenticators every request goes on. With them, none goes on without an
/// authorization that one of them admits, together with the request's own method, path,
/// nonce and channel.
pub proof fn requests_go_on_when_admitted<A: Authenticator>(
    authenticators: &Vec<A>,
    headers: &Vec<Header>,
    method: &str,
    path: &str,
    channel_binding: Option<&str>,
    answer: Result<(), AppError>,
)
    requires
        call_ensures(
            auth_middleware::<A>,
            (authenticators, headers, method, path, channel_binding),
            answer,
        ),
    ensures
        authenticators@.len() == 0 ==> answer is Ok,
        authenticators@.len() > 0 && answer is Ok ==> exists|
            i: int,
            auth_header: &str,
            nonce: Option<&str>,
            verdict: Result<(), String>,
        |
            0 <= i < authenticators@.len() && verdict is Ok && header_value(
                headers@,
                "authorization"@,
            ) is Some
                && value_text(header_value(headers@, "authorization"@).unwrap()) == Some(
                auth_header@,
            ) && opt_str(nonce) == nonce_in(headers@) && #[trigger] call_ensures(
                A::check_request,
                (&authenticators@[i], method, path, auth_header, nonce, channel_binding),
                verdict,
            ),
        answer is Err && header_value(headers@, "authorization"@) is Some && value_text(
            header_value(headers@, "authorization"@).unwrap(),
        ) is Some ==> forall|i: int|
            0 <= i < authenticators@.len() ==> #[trigger] may_refuse(
                authenticators@[i],
                headers@,
                method,
                path,
                channel_binding,
            ),
        authenticators@.len() > 0 && header_value(headers@, "authorization"@) is None ==> (
        answer matches Err(error) && error.status is Unauthorized && error.message@
            == "missing Authorization header"@),
        authenticators@.len() > 0 ==> (header_value(headers@, "authorization"@) matches Some(value)
            ==> (value_text(value) is None ==> (answer matches Err(error)
            && error.status is BadRequest && error.message@
            == "invalid Authorization header encoding"@))),
{
    if authenticators@.len() > 0 && header_value(headers@, "authorization"@) is Some && value_text(
        header_value(headers@, "authorization"@).unwrap(),
    ) is Some {
        let text = value_text(header_value(headers@, AUTHORIZATION_HEADER@).unwrap()).unwrap();
        let (auth_header, nonce, verdicts) = choose|
            auth_header: &str,
            nonce: Option<&str>,
            verdicts: Seq<Result<(), String>>,
        |
            {
                &&& auth_header@ == text
                &&& opt_str(nonce) == nonce_in(headers@)
                &&& #[trigger] are_verdicts(
                    authenticators@,
                    method,
                    path,
                    auth_header,
                    nonce,
                    channel_binding,
                    verdicts,
                )
                &&& is_decision(verdicts, answer)
            };
        if answer is Ok {
            let i = choose|i: int| 0 <= i < verdicts.len() && (#[trigger] verdicts[i]) is Ok;
            assert(call_ensures(
                A::check_request,
                (&authenticators@[i], method, path, auth_header, nonce, channel_binding),
                verdicts[i],
            ));
        } else {
            assert(verdicts.len() == authenticators@.len()) by {
                if verdicts.len() < authenticators@.len() {
                    assert(verdicts[verdicts.len() - 1] is Ok);
                }
            }
            assert forall|i: int| 0 <= i < authenticators@.len() implies #[trigger] may_refuse(
                authenticators@[i],
                headers@,
                method,
                path,
                channel_binding,
            ) by {
                assert(verdicts[i] is Err);
                let reason = verdicts[i]->Err_0;
                assert(verdicts[i] == Err::<(), String>(reason));
                assert(call_ensures(
                    A::check_request,
                    (&authenticators@[i], method, path, auth_header, nonce, channel_binding),
                    Err::<(), String>(reason),
                ));
            }
        }
    }
}

} // verus!
