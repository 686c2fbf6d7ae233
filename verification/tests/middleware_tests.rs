use shareoxide::claims::{merge_claims, verify_id_token, GroupClaims, IdClaims, VerifyError};
use shareoxide::codec::AuthCookie;
use shareoxide::jar::{Cookie, CookieJar};
use shareoxide::logout::logout;
use shareoxide::middleware::{
    middleware_after_refresh, middleware_after_verify, middleware_entry, reauth_message,
    reauth_response, MiddlewareStep, ReauthReason,
};
use shareoxide::request_url::{compose_request_url, login_redirect_url, RequestUrl};
use shareoxide::settings::{env_name, parse_environment_type, EnvironmentType};

fn session() -> AuthCookie {
    AuthCookie {
        id_token: String::from("old.id.token"),
        access_token: String::from("acc"),
        refresh_token: String::from("ref"),
        additional_claims: GroupClaims { groups: vec![String::from("admins")] },
    }
}

fn session_jar() -> CookieJar {
    let mut jar = session().add_to_jar(CookieJar::new());
    jar.add(Cookie {
        name: String::from("nonce"),
        value: String::from("N1"),
        root_path: true,
        max_age_days: 14,
    });
    jar
}

fn claims(nonce: &str, expiry: u64) -> IdClaims {
    IdClaims {
        subject: String::from("user-1"),
        issuer: String::from("https://idp.example"),
        audience: String::from("cid"),
        expiry,
        nonce: String::from(nonce),
        name: None,
        email: None,
    }
}

#[test]
fn entry_reads_session_and_nonce() {
    let jar = session_jar();
    let (decoded, nonce) = middleware_entry(&jar).expect("a full jar enters");
    assert_eq!(decoded.id_token, "old.id.token");
    assert_eq!(nonce, "N1");
}

#[test]
fn entry_requires_every_cookie() {
    match middleware_entry(&CookieJar::new()) {
        Err(ReauthReason::SessionCookies(_)) => {}
        _ => panic!("an empty jar must fail on the session cookies"),
    }
    let no_nonce = session().add_to_jar(CookieJar::new());
    match middleware_entry(&no_nonce) {
        Err(ReauthReason::MissingNonceCookie) => {}
        _ => panic!("a session without its nonce cookie must fail on the nonce"),
    }
}

#[test]
fn valid_session_passes_through_unchanged() {
    // A signature-valid, non-expired token with the session's nonce.
    let jar = session_jar();
    let (decoded, nonce) = middleware_entry(&jar).expect("enters");
    let verify = verify_id_token(Some(claims("N1", 2_000)), &nonce, 1_000);
    match middleware_after_verify(verify, true) {
        MiddlewareStep::Verified(c) => {
            let merged = merge_claims(c, &decoded.additional_claims);
            assert_eq!(merged.id.subject, "user-1");
            assert_eq!(merged.id.expiry, 2_000);
            assert_eq!(merged.groups, vec![String::from("admins")]);
        }
        _ => panic!("a verified token must pass through"),
    }
}

#[test]
fn nonce_mismatch_fails_even_when_signature_holds() {
    let verify = verify_id_token(Some(claims("other", 2_000)), "N1", 1_000);
    match verify {
        Err(VerifyError::NonceMismatch) => {}
        _ => panic!("a foreign nonce must fail verification"),
    }
}

#[test]
fn expired_token_with_endpoint_triggers_one_refresh() {
    let verify = verify_id_token(Some(claims("N1", 500)), "N1", 1_000);
    assert!(matches!(verify, Err(VerifyError::Expired)));
    let step = middleware_after_verify(verify, true);
    assert!(matches!(step, MiddlewareStep::NeedRefresh));

    // The refresh succeeded: the new session replaces the old cookies, and
    // its ID token differs from the incoming one.
    let jar = session_jar();
    let old_id = jar.get("id_token").unwrap().clone();
    let mut new_session = session();
    new_session.id_token = String::from("new.id.token");
    let (jar, step) = middleware_after_refresh(Some((new_session, claims("N1", 3_000))), jar);
    assert!(matches!(step, MiddlewareStep::Verified(_)));
    let fresh_id = jar.get("id_token").unwrap();
    assert_ne!(fresh_id, &old_id);
    assert_eq!(fresh_id, "new.id.token");
}

#[test]
fn failed_refresh_requires_login_and_keeps_jar() {
    let jar = session_jar();
    let before = jar.get("id_token").unwrap().clone();
    let (jar, step) = middleware_after_refresh(None, jar);
    assert!(matches!(step, MiddlewareStep::ReauthRequired));
    assert_eq!(jar.get("id_token").unwrap(), &before);
}

#[test]
fn expired_token_without_endpoint_redirects_get_to_login() {
    // An expired ID token and no token endpoint: a GET is sent to the login
    // endpoint with the original URL as the redirect target.
    let verify = verify_id_token(Some(claims("N1", 500)), "N1", 1_000);
    let step = middleware_after_verify(verify, false);
    assert!(matches!(step, MiddlewareStep::ReauthRequired));

    let url = RequestUrl {
        scheme: String::from("https"),
        authority: String::from("app.example"),
        path_and_query: String::from("/dash?tab=1"),
    };
    let reason = reauth_message(&ReauthReason::VerificationFailed);
    let response = reauth_response(true, &url, reason);
    assert_eq!(response.status, 303);
    assert_eq!(
        response.location.as_deref(),
        Some(
            "https://app.example/auth/login?redirect_to=\
             https%3A%2F%2Fapp.example%2Fdash%3Ftab%3D1"
        )
    );
    assert_eq!(response.auth_error.as_deref(), Some("ID token verification failed"));
}

#[test]
fn non_get_requests_get_the_raw_error() {
    let url = RequestUrl {
        scheme: String::from("https"),
        authority: String::from("app.example"),
        path_and_query: String::from("/api/link"),
    };
    let response = reauth_response(false, &url, String::from("Nonce cookie missing"));
    assert_eq!(response.status, 401);
    assert!(response.location.is_none());
    assert_eq!(response.body, "Nonce cookie missing");
}

#[test]
fn reauth_messages_name_the_cause() {
    assert_eq!(reauth_message(&ReauthReason::MissingNonceCookie), "Nonce cookie missing");
    assert_eq!(
        reauth_message(&ReauthReason::VerificationFailed),
        "ID token verification failed"
    );
}

#[test]
fn redirect_target_encoding_is_exact() {
    // The original URL inside `redirect_to` is percent-encoded byte for
    // byte: unreserved characters stay, everything else becomes upper-case
    // hex, UTF-8 bytes one by one.
    let url = RequestUrl {
        scheme: String::from("http"),
        authority: String::from("h"),
        path_and_query: String::from("/a b~\u{e9}"),
    };
    assert_eq!(
        login_redirect_url(&url),
        "http://h/auth/login?redirect_to=http%3A%2F%2Fh%2Fa%20b~%C3%A9"
    );
}

#[test]
fn request_url_composition_applies_defaults() {
    let url = compose_request_url(None, None, String::from("app.example"), None);
    assert_eq!(url.scheme, "http");
    assert_eq!(url.authority, "app.example");
    assert_eq!(url.path_and_query, "");
    assert_eq!(url.render(), "http://app.example");

    let full = compose_request_url(
        Some(String::from("https")),
        Some(String::from("host:8443")),
        String::from("ignored"),
        Some(String::from("/p?q=1")),
    );
    assert_eq!(full.render(), "https://host:8443/p?q=1");
    assert_eq!(
        login_redirect_url(&full),
        "https://host:8443/auth/login?redirect_to=https%3A%2F%2Fhost%3A8443%2Fp%3Fq%3D1"
    );
}

#[test]
fn env_names_carry_the_prefix() {
    assert_eq!(env_name("log"), "SHAREOXIDE_LOG");
    assert_eq!(env_name("ENVIRONMENT"), "SHAREOXIDE_ENVIRONMENT");
}

#[test]
fn environment_type_parsing_is_case_insensitive() {
    assert_eq!(parse_environment_type("DEV"), Some(EnvironmentType::Development));
    assert_eq!(parse_environment_type("development"), Some(EnvironmentType::Development));
    assert_eq!(parse_environment_type("d"), Some(EnvironmentType::Development));
    assert_eq!(parse_environment_type("Prod"), Some(EnvironmentType::Production));
    assert_eq!(parse_environment_type("PRODUCTION"), Some(EnvironmentType::Production));
    assert_eq!(parse_environment_type("p"), Some(EnvironmentType::Production));
    assert_eq!(parse_environment_type("staging"), None);
    assert_eq!(parse_environment_type(""), None);
}

#[test]
fn logout_clears_session_and_returns_tokens() {
    let jar = session_jar();
    let (jar, action) = logout(jar);
    assert!(jar.get("id_token").is_none());
    assert!(jar.get("access_token").is_none());
    assert!(jar.get("refresh_token").is_none());
    assert!(jar.get("additional_claims").is_none());
    assert_eq!(action.revoke_access_token.as_deref(), Some("acc"));
    assert_eq!(action.revoke_refresh_token.as_deref(), Some("ref"));
    for name in ["id_token", "access_token", "refresh_token", "additional_claims"] {
        assert!(jar.removals.iter().any(|n| n == name));
    }
}

#[test]
fn logout_of_empty_jar_revokes_nothing() {
    let (_, action) = logout(CookieJar::new());
    assert!(action.revoke_access_token.is_none());
    assert!(action.revoke_refresh_token.is_none());
}
