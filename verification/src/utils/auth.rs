//! The shared-secret guard in front of the protected routes.

use vstd::prelude::*;
use vstd::utf8::encode_utf8;
use axum::http::{HeaderMap, HeaderValue};
use crate::config::AppConfig;
use crate::error::HttpError;

verus! {

/// Name of the request header that carries the shared secret.
pub const API_KEY_HEADER: &'static str = "x-api-key";

/// Outcome of checking a presented credential against the configured secret.
#[derive(Debug, Clone, Copy, PartialEq, Eq, Structural)]
pub enum AuthDecision {
    Allowed,
    Denied,
}

/// The bytes of the configured secret: its text in UTF-8.
pub open spec fn secret_bytes(config: &AppConfig) -> Seq<u8> {
    encode_utf8(config.api_secret@)
}

/// The decision on a request that presented `credential`: allowed if and
/// only if a credential is present and equals the secret byte for byte.
pub open spec fn decision_for(credential: Option<Seq<u8>>, config: &AppConfig) -> AuthDecision {
    if credential == Some(secret_bytes(config)) {
        AuthDecision::Allowed
    } else {
        AuthDecision::Denied
    }
}

/// What the guard does with a request that presented `credential`: lets it
/// pass, or turns it away as unauthorized.
pub open spec fn admission(credential: Option<Seq<u8>>, config: &AppConfig) -> Result<
    (),
    HttpError,
> {
    match decision_for(credential, config) {
        AuthDecision::Allowed => Ok(()),
        AuthDecision::Denied => Err(HttpError::Unauthorized),
    }
}

/// Whether two byte strings are equal.
fn same_bytes(left: &[u8], right: &[u8]) -> (same: bool)
    ensures
        same == (left@ == right@),
{
    if left.len() != right.len() {
        return false;
    }
    let mut i: usize = 0;
    while i < left.len()
        invariant
            left.len() == right.len(),
            i <= left.len(),
            forall|k: int| 0 <= k < i ==> left@[k] == right@[k],
        decreases left.len() - i,
    {
        if left[i] != right[i] {
            return false;
        }
        i = i + 1;
    }
    assert(left@ =~= right@);
    true
}

/// Decides on a request from the value of its credential header, `None` if
/// the request has no such header.
///
/// The comparison is exact: nothing is trimmed and case matters.
pub fn authorize(header_value: Option<&[u8]>, config: &AppConfig) -> (decision: AuthDecision)
    ensures
        decision == decision_for(
            match header_value {
                Some(value) => Some(value@),
                None => None,
            },
            config,
        ),
{
    match header_value {
        Some(value) => {
            if same_bytes(value, config.api_secret.as_str().as_bytes()) {
                AuthDecision::Allowed
            } else {
                AuthDecision::Denied
            }
        },
        None => AuthDecision::Denied,
    }
}

/// The three cases of the guard: a request without a credential and one
/// with a wrong credential are denied, one that presents the secret is
/// allowed.
pub proof fn lemma_only_the_secret_opens(config: &AppConfig, wrong: Seq<u8>)
    requires
        wrong != secret_bytes(config),
    ensures
        decision_for(None, config) == AuthDecision::Denied,
        decision_for(Some(wrong), config) == AuthDecision::Denied,
        decision_for(Some(secret_bytes(config)), config) == AuthDecision::Allowed,
{
}

/// A request passes the guard only with the secret; any other request is
/// answered with status 401, whether its credential was missing or wrong.
pub proof fn lemma_without_the_secret_unauthorized(
    credential: Option<Seq<u8>>,
    config: &AppConfig,
)
    ensures
        admission(credential, config) is Ok <==> credential == Some(secret_bytes(config)),
        admission(credential, config) matches Err(error) ==> error == HttpError::Unauthorized
            && error.code() == 401,
{
}

/// `http::HeaderMap`, the header fields of a request, which `axum` hands to
/// its middleware. Nothing is claimed of what is inside: the fields are
/// read through `first_header_value` alone.
#[verifier::external_type_specification]
#[verifier::external_body]
#[verifier::reject_recursive_types(T)]
pub struct ExHeaderMap<T>(HeaderMap<T>);

/// `http::HeaderValue`, the value of one header field. Nothing is claimed of
/// what is inside.
#[verifier::external_type_specification]
#[verifier::external_body]
pub struct ExHeaderValue(HeaderValue);

/// The header fields of a request as `HeaderMap::get` finds them: for each
/// name under which it finds a field, the bytes of the first value stored
/// for that name.
pub uninterp spec fn header_fields(headers: HeaderMap) -> Map<Seq<char>, Seq<u8>>;

/// The credential that a request with these headers presents.
pub open spec fn presented_credential(headers: HeaderMap) -> Option<Seq<u8>> {
    if header_fields(headers).contains_key(API_KEY_HEADER@) {
        Some(header_fields(headers)[API_KEY_HEADER@])
    } else {
        None
    }
}

/// Looks a header up with `http::HeaderMap::get` and copies the bytes of
/// the value found with `http::HeaderValue::as_bytes`.
///
/// Not verified. The contract claims that the lookup returns a value if and
/// only if the fields hold one under `name`, and that the bytes are those
/// of the first such value.
#[verifier::external_body]
fn first_header_value(headers: &HeaderMap, name: &str) -> (value: Option<Vec<u8>>)
    ensures
        value is Some <==> header_fields(*headers).contains_key(name@),
        value matches Some(bytes) ==> bytes@ == header_fields(*headers)[name@],
{
    headers.get(name).map(|found| found.as_bytes().to_vec())
}

/// The guard in front of a protected route: `Ok` if the request may go on to
/// its handler, the error to answer with if it may not.
///
/// A request passes if and only if its `x-api-key` header equals the
/// configured secret. A request without the header is turned away like one
/// with a wrong value.
pub fn auth_middleware(config: &AppConfig, headers: &HeaderMap) -> (outcome: Result<(), HttpError>)
    ensures
        outcome == admission(presented_credential(*headers), config),
{
    let presented = first_header_value(headers, API_KEY_HEADER);
    let decision = match &presented {
        Some(value) => authorize(Some(value.as_slice()), config),
        None => authorize(None, config),
    };
    match decision {
        AuthDecision::Allowed => Ok(()),
        AuthDecision::Denied => Err(HttpError::Unauthorized),
    }
}

} // verus!
