use shareoxide::callback::{
    callback_csrf_check, callback_finish, assemble_session, validate_token_response,
    callback_error_status, csrf_error_status, CsrfCheck, ProcessTokenResponseError, TokenResponse,
};
use shareoxide::claims::{merge_claims, verify_id_token, GroupClaims, IdClaims};
use shareoxide::codec::AuthCookie;
use shareoxide::discovery::{
    validate_provider_metadata, DiscoveryFailure, OidcClientConfig, ProviderMetadata,
};
use shareoxide::jar::{Cookie, CookieJar};
use shareoxide::login::login;

fn provider() -> ProviderMetadata {
    ProviderMetadata {
        issuer: String::from("https://idp.example"),
        authorization_endpoint: String::from("https://idp.example/auth"),
        token_endpoint: Some(String::from("https://idp.example/token")),
        userinfo_endpoint: Some(String::from("https://idp.example/userinfo")),
        revocation_endpoint: Some(String::from("https://idp.example/revoke")),
    }
}

fn client_config() -> OidcClientConfig {
    OidcClientConfig {
        client_id: String::from("cid"),
        client_secret: Some(String::from("SECRET-REDACTED")),
        redirect_uri: String::from("https://app.example/auth/callback"),
        scopes: vec![
            String::from("openid"),
            String::from("profile"),
            String::from("offline_access"),
        ],
        metadata: provider(),
    }
}

#[test]
fn discovery_requires_revocation_endpoint() {
    assert!(validate_provider_metadata(provider()).is_ok());
    let mut bare = provider();
    bare.revocation_endpoint = None;
    match validate_provider_metadata(bare) {
        Err(DiscoveryFailure::MissingRevocationEndpoint) => {}
        _ => panic!("metadata without a revocation endpoint must be rejected"),
    }
}

#[test]
fn authorization_url_is_exact() {
    let cfg = OidcClientConfig {
        client_id: String::from("cid"),
        client_secret: None,
        redirect_uri: String::from("https://app/cb"),
        scopes: vec![String::from("openid"), String::from("profile")],
        metadata: provider(),
    };
    let url = cfg.authorization_url("S1", "N1", None);
    assert_eq!(
        url,
        "https://idp.example/auth?response_type=code&client_id=cid\
         &redirect_uri=https%3A%2F%2Fapp%2Fcb&scope=openid%20profile&state=S1&nonce=N1"
    );
    let hint = String::from("old.token");
    let with_hint = cfg.authorization_url("S1", "N1", Some(&hint));
    assert!(with_hint.ends_with("&id_token_hint=old.token"));
}

#[test]
fn login_mints_tokens_and_remembers_redirect() {
    let cfg = client_config();
    let (jar, url) = login(&cfg, CookieJar::new(), Some(String::from("/dash")));
    let csrf = jar.get("csrf_state").expect("the CSRF cookie must be set").clone();
    let nonce = jar.get("nonce").expect("the nonce cookie must be set").clone();
    assert_eq!(csrf.len(), 32);
    assert_eq!(nonce.len(), 32);
    assert!(csrf.chars().all(|c| c.is_ascii_alphanumeric()));
    assert_eq!(jar.get("login_redirect_to").expect("target remembered"), "/dash");
    assert!(url.starts_with("https://idp.example/auth?response_type=code&client_id=cid"));
    assert!(url.contains(&format!("&state={}", csrf)));
    assert!(url.contains(&format!("&nonce={}", nonce)));
}

#[test]
fn login_without_target_clears_stale_redirect() {
    let cfg = client_config();
    let mut stale = CookieJar::new();
    stale.add(Cookie {
        name: String::from("login_redirect_to"),
        value: String::from("/old"),
        root_path: false,
        max_age_days: 0,
    });
    let (jar, _) = login(&cfg, stale, None);
    assert!(jar.get("login_redirect_to").is_none());
    assert!(jar.removals.iter().any(|n| n == "login_redirect_to"));
}

#[test]
fn login_passes_existing_id_token_as_hint() {
    let cfg = client_config();
    let mut jar = CookieJar::new();
    jar.add(Cookie {
        name: String::from("id_token"),
        value: String::from("prior.token"),
        root_path: true,
        max_age_days: 14,
    });
    let (_, url) = login(&cfg, jar, None);
    assert!(url.ends_with("&id_token_hint=prior.token"));
}

#[test]
fn csrf_gate_passes_only_the_minted_state() {
    let cfg = client_config();
    let (jar, _) = login(&cfg, CookieJar::new(), None);
    let csrf = jar.get("csrf_state").unwrap().clone();

    let (jar_after, outcome) = callback_csrf_check(jar, &csrf);
    assert!(matches!(outcome, CsrfCheck::Proceed));
    assert!(jar_after.get("csrf_state").is_none());
    assert!(jar_after.removals.iter().any(|n| n == "csrf_state"));
}

#[test]
fn csrf_gate_rejects_wrong_state() {
    let cfg = client_config();
    let (jar, _) = login(&cfg, CookieJar::new(), None);
    let (jar_after, outcome) = callback_csrf_check(jar, "wrong");
    assert!(matches!(outcome, CsrfCheck::Mismatch));
    assert_eq!(csrf_error_status(&outcome), 400);
    // The cookie is deleted once checked, whatever the outcome.
    assert!(jar_after.get("csrf_state").is_none());
}

#[test]
fn csrf_gate_rejects_missing_cookie() {
    let (_, outcome) = callback_csrf_check(CookieJar::new(), "anything");
    assert!(matches!(outcome, CsrfCheck::MissingState));
}

#[test]
fn token_response_checks_fields_in_order() {
    let mut jar = CookieJar::new();
    jar.add(Cookie {
        name: String::from("nonce"),
        value: String::from("N1"),
        root_path: true,
        max_age_days: 14,
    });

    let no_refresh = TokenResponse {
        access_token: String::from("acc"),
        refresh_token: None,
        id_token: Some(String::from("tok")),
    };
    match validate_token_response(no_refresh, &jar) {
        Err(ProcessTokenResponseError::MissingRefreshToken) => {}
        _ => panic!("a missing refresh token must be named first"),
    }

    let no_id = TokenResponse {
        access_token: String::from("acc"),
        refresh_token: Some(String::from("ref")),
        id_token: None,
    };
    match validate_token_response(no_id, &jar) {
        Err(ProcessTokenResponseError::MissingIdToken) => {}
        _ => panic!("a missing ID token must be named"),
    }

    let fine = TokenResponse {
        access_token: String::from("acc"),
        refresh_token: Some(String::from("ref")),
        id_token: Some(String::from("tok")),
    };
    let pending = validate_token_response(fine, &jar).expect("a full response passes");
    assert_eq!(pending.nonce, "N1");

    let bare_jar = CookieJar::new();
    let fine2 = TokenResponse {
        access_token: String::from("acc"),
        refresh_token: Some(String::from("ref")),
        id_token: Some(String::from("tok")),
    };
    match validate_token_response(fine2, &bare_jar) {
        Err(ProcessTokenResponseError::MissingNonce) => {}
        _ => panic!("a missing nonce cookie must be named"),
    }
}

#[test]
fn callback_error_statuses_follow_the_taxonomy() {
    assert_eq!(callback_error_status(&ProcessTokenResponseError::MissingNonce), 400);
    assert_eq!(callback_error_status(&ProcessTokenResponseError::MissingIdToken), 502);
    assert_eq!(callback_error_status(&ProcessTokenResponseError::MissingRefreshToken), 502);
}

#[test]
fn full_callback_redirects_to_remembered_target() {
    // A login with `redirect_to=/dash`, then a callback whose state and
    // nonce both match and whose exchange succeeded.
    let cfg = client_config();
    let (jar, _) = login(&cfg, CookieJar::new(), Some(String::from("/dash")));
    let csrf = jar.get("csrf_state").unwrap().clone();
    let nonce = jar.get("nonce").unwrap().clone();

    let (jar, outcome) = callback_csrf_check(jar, &csrf);
    assert!(matches!(outcome, CsrfCheck::Proceed));

    let response = TokenResponse {
        access_token: String::from("acc"),
        refresh_token: Some(String::from("ref")),
        id_token: Some(String::from("id.tok")),
    };
    let pending = validate_token_response(response, &jar).expect("response is complete");

    let decoded = IdClaims {
        subject: String::from("user-1"),
        issuer: String::from("https://idp.example"),
        audience: String::from("cid"),
        expiry: 2_000,
        nonce: nonce.clone(),
        name: Some(String::from("User One")),
        email: None,
    };
    let claims = verify_id_token(Some(decoded), &pending.nonce, 1_000)
        .expect("a matching nonce and future expiry verify");

    let groups = GroupClaims { groups: vec![String::from("admins")] };
    let session = assemble_session(pending, groups);
    let (jar, redirect) = callback_finish(&session, jar);

    assert_eq!(redirect, "/dash");
    assert!(jar.get("id_token").is_some());
    assert!(jar.get("access_token").is_some());
    assert!(jar.get("refresh_token").is_some());
    assert!(jar.get("additional_claims").is_some());
    assert!(jar.get("login_redirect_to").is_none());
    assert!(jar.removals.iter().any(|n| n == "login_redirect_to"));

    let merged = merge_claims(claims, &session.additional_claims);
    assert_eq!(merged.id.subject, "user-1");
    assert_eq!(merged.groups, vec![String::from("admins")]);
}

#[test]
fn callback_defaults_to_root_redirect() {
    let session = AuthCookie {
        id_token: String::from("t"),
        access_token: String::from("a"),
        refresh_token: String::from("r"),
        additional_claims: GroupClaims { groups: Vec::new() },
    };
    let (_, redirect) = callback_finish(&session, CookieJar::new());
    assert_eq!(redirect, "/");
}
