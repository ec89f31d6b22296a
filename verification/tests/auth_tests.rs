use axum::http::{HeaderMap, HeaderName, HeaderValue};

use sikap_file_storage::config::AppConfig;
use sikap_file_storage::error::HttpError;
use sikap_file_storage::utils::auth::{auth_middleware, authorize, AuthDecision, API_KEY_HEADER};

fn config(secret: &str) -> AppConfig {
    AppConfig {
        upload_dir: "./uploads".to_string(),
        api_secret: secret.to_string(),
        port: 0,
    }
}

fn headers_with_key(value: &[u8]) -> HeaderMap {
    let mut headers = HeaderMap::new();
    headers.insert(
        HeaderName::from_static("x-api-key"),
        HeaderValue::from_bytes(value).unwrap(),
    );
    headers
}

#[test]
fn missing_credential_is_denied() {
    assert_eq!(authorize(None, &config("secret")), AuthDecision::Denied);
}

#[test]
fn wrong_credential_is_denied() {
    let cfg = config("secret");
    assert_eq!(authorize(Some(b"wrong".as_slice()), &cfg), AuthDecision::Denied);
    assert_eq!(authorize(Some(b"".as_slice()), &cfg), AuthDecision::Denied);
    assert_eq!(authorize(Some(b"secre".as_slice()), &cfg), AuthDecision::Denied);
    assert_eq!(authorize(Some(b"secret ".as_slice()), &cfg), AuthDecision::Denied);
    assert_eq!(authorize(Some(b" secret".as_slice()), &cfg), AuthDecision::Denied);
    assert_eq!(authorize(Some(b"SECRET".as_slice()), &cfg), AuthDecision::Denied);
    assert_eq!(authorize(Some(b"secres".as_slice()), &cfg), AuthDecision::Denied);
    assert_eq!(authorize(Some(b"\xff\xfe".as_slice()), &cfg), AuthDecision::Denied);
}

#[test]
fn the_secret_is_allowed() {
    assert_eq!(
        authorize(Some(b"secret".as_slice()), &config("secret")),
        AuthDecision::Allowed
    );
}

#[test]
fn secrets_outside_ascii_are_compared_by_their_utf8_bytes() {
    let cfg = config("pässwörd-鍵");
    assert_eq!(authorize(Some("pässwörd-鍵".as_bytes()), &cfg), AuthDecision::Allowed);
    assert_eq!(authorize(Some("password-鍵".as_bytes()), &cfg), AuthDecision::Denied);
    assert_eq!(authorize(Some(b"p\xe4ssw\xf6rd".as_slice()), &cfg), AuthDecision::Denied);
}

#[test]
fn an_empty_secret_is_matched_by_an_empty_credential_only() {
    let cfg = config("");
    assert_eq!(authorize(Some(b"".as_slice()), &cfg), AuthDecision::Allowed);
    assert_eq!(authorize(Some(b"x".as_slice()), &cfg), AuthDecision::Denied);
    assert_eq!(authorize(None, &cfg), AuthDecision::Denied);
}

#[test]
fn header_name_is_x_api_key() {
    assert_eq!(API_KEY_HEADER, "x-api-key");
}

#[test]
fn guard_turns_away_a_request_without_the_header() {
    let outcome = auth_middleware(&config("secret"), &HeaderMap::new());
    assert_eq!(outcome, Err(HttpError::Unauthorized));
}

#[test]
fn guard_turns_away_a_wrong_key() {
    let outcome = auth_middleware(&config("secret"), &headers_with_key(b"guess"));
    assert_eq!(outcome, Err(HttpError::Unauthorized));
}

#[test]
fn guard_lets_the_right_key_pass() {
    let outcome = auth_middleware(&config("secret"), &headers_with_key(b"secret"));
    assert_eq!(outcome, Ok(()));
}

#[test]
fn guard_ignores_other_headers() {
    let mut headers = HeaderMap::new();
    headers.insert(
        HeaderName::from_static("authorization"),
        HeaderValue::from_static("secret"),
    );
    headers.insert(
        HeaderName::from_static("x-api-keys"),
        HeaderValue::from_static("secret"),
    );
    assert_eq!(
        auth_middleware(&config("secret"), &headers),
        Err(HttpError::Unauthorized)
    );
    headers.insert(
        HeaderName::from_static("x-api-key"),
        HeaderValue::from_static("secret"),
    );
    assert_eq!(auth_middleware(&config("secret"), &headers), Ok(()));
}

#[test]
fn guard_reads_the_first_of_several_keys() {
    let mut headers = HeaderMap::new();
    headers.append(
        HeaderName::from_static("x-api-key"),
        HeaderValue::from_static("secret"),
    );
    headers.append(
        HeaderName::from_static("x-api-key"),
        HeaderValue::from_static("other"),
    );
    assert_eq!(auth_middleware(&config("secret"), &headers), Ok(()));
    assert_eq!(
        auth_middleware(&config("other"), &headers),
        Err(HttpError::Unauthorized)
    );
}

#[test]
fn guard_compares_raw_bytes() {
    let headers = headers_with_key("pässwörd".as_bytes());
    assert_eq!(auth_middleware(&config("pässwörd"), &headers), Ok(()));
    assert_eq!(
        auth_middleware(&config("password"), &headers),
        Err(HttpError::Unauthorized)
    );
}

#[test]
fn decisions_report_whether_they_allow() {
    assert_ne!(AuthDecision::Allowed, AuthDecision::Denied);
}

#[test]
fn status_codes_of_errors() {
    assert_eq!(HttpError::BadRequest.status_code(), 400);
    assert_eq!(HttpError::Unauthorized.status_code(), 401);
    assert_eq!(HttpError::InternalError.status_code(), 500);
    assert_eq!(
        HttpError::Unauthorized.status_code(),
        axum::http::StatusCode::UNAUTHORIZED.as_u16()
    );
    assert_eq!(
        HttpError::BadRequest.status_code(),
        axum::http::StatusCode::BAD_REQUEST.as_u16()
    );
    assert_eq!(
        HttpError::InternalError.status_code(),
        axum::http::StatusCode::INTERNAL_SERVER_ERROR.as_u16()
    );
}
