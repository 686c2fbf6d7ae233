//! The per-request authentication gate, as a state machine: read the session
//! from the cookies, verify it, refresh it once if verification fails, and
//! otherwise require a fresh login — by redirect for a GET, by a plain error
//! for anything else.

use vstd::prelude::*;

use crate::claims::{verify_spec, IdClaims, VerifyError};
use crate::codec::{AuthCookie, DecodeError, SessionField};
use crate::jar::{CookieData, CookieJar};
use crate::request_url::{login_redirect_url, login_redirect_url_of, RequestUrl};

verus! {

/// Why a request must authenticate afresh.
#[derive(Debug)]
pub enum ReauthReason {
    /// The session cookies are missing or unreadable.
    SessionCookies(DecodeError),
    /// The nonce cookie is absent, so no token could be checked against it.
    MissingNonceCookie,
    /// The ID token failed verification and no refresh mended it.
    VerificationFailed,
}

/// Where the middleware stands after the verification step.
#[derive(Debug)]
pub enum MiddlewareStep {
    /// The request is authenticated with these claims.
    Verified(IdClaims),
    /// Verification failed and the provider offers a token endpoint: attempt
    /// one refresh exchange.
    NeedRefresh,
    /// The request must authenticate afresh.
    ReauthRequired,
}

/// Read the session and the nonce out of the request's cookies. This is the
/// middleware's entry: a missing or malformed session, or a missing nonce
/// cookie, already means re-authentication.
pub fn middleware_entry(jar: &CookieJar) -> (r: Result<(AuthCookie, String), ReauthReason>)
    requires
        jar.wf(),
    ensures
        match r {
            Ok(p) => {
                &&& crate::codec::session_present(jar@)
                &&& crate::groups::is_groups_json(jar.value_of("additional_claims"@))
                &&& jar@.contains_key("nonce"@)
                &&& p.0.id_token@ == jar.value_of("id_token"@)
                &&& p.0.access_token@ == jar.value_of("access_token"@)
                &&& p.0.refresh_token@ == jar.value_of("refresh_token"@)
                &&& jar.value_of("additional_claims"@) == crate::groups::groups_json(
                    p.0.additional_claims.groups.deep_view(),
                )
                &&& p.1@ == jar.value_of("nonce"@)
            },
            Err(e) => match e {
                ReauthReason::SessionCookies(d) => !(crate::codec::session_present(jar@)
                    && crate::groups::is_groups_json(jar.value_of("additional_claims"@))),
                ReauthReason::MissingNonceCookie => crate::codec::session_present(jar@)
                    && crate::groups::is_groups_json(jar.value_of("additional_claims"@))
                    && !jar@.contains_key("nonce"@),
                ReauthReason::VerificationFailed => false,
            },
        },
        r is Ok <==> (crate::codec::session_present(jar@) && crate::groups::is_groups_json(
            jar.value_of("additional_claims"@),
        ) && jar@.contains_key("nonce"@)),
{
    let session = match AuthCookie::get_from_jar(jar) {
        Ok(s) => s,
        Err(e) => {
            return Err(ReauthReason::SessionCookies(e));
        },
    };
    let nonce = match jar.get("nonce") {
        Some(v) => v.clone(),
        None => {
            return Err(ReauthReason::MissingNonceCookie);
        },
    };
    Ok((session, nonce))
}

/// Where the middleware goes once the token checks are in: verified claims
/// pass through; a failure is retried by refresh exactly when the provider
/// has a token endpoint, and otherwise ends in re-authentication.
pub open spec fn after_verify_spec(
    verify: Result<IdClaims, VerifyError>,
    has_token_endpoint: bool,
) -> MiddlewareStep {
    match verify {
        Ok(c) => MiddlewareStep::Verified(c),
        Err(_) => {
            if has_token_endpoint {
                MiddlewareStep::NeedRefresh
            } else {
                MiddlewareStep::ReauthRequired
            }
        },
    }
}

/// Decide the step after verification.
pub fn middleware_after_verify(verify: Result<IdClaims, VerifyError>, has_token_endpoint: bool) -> (r:
    MiddlewareStep)
    ensures
        r == after_verify_spec(verify, has_token_endpoint),
{
    match verify {
        Ok(c) => MiddlewareStep::Verified(c),
        Err(_) => {
            if has_token_endpoint {
                MiddlewareStep::NeedRefresh
            } else {
                MiddlewareStep::ReauthRequired
            }
        },
    }
}

/// Where the middleware goes once the single refresh attempt is in: a fully
/// processed new session passes through on its claims; any failure ends in
/// re-authentication. No second refresh is ever asked for.
pub open spec fn after_refresh_spec(outcome: Option<(AuthCookie, IdClaims)>) -> MiddlewareStep {
    match outcome {
        Some(p) => MiddlewareStep::Verified(p.1),
        None => MiddlewareStep::ReauthRequired,
    }
}

/// Apply the refresh outcome: on success the new session overwrites the old
/// cookies and its claims stand; on failure the jar is left as it was.
pub fn middleware_after_refresh(outcome: Option<(AuthCookie, IdClaims)>, jar: CookieJar) -> (r: (
    CookieJar,
    MiddlewareStep,
))
    requires
        jar.wf(),
    ensures
        r.0.wf(),
        r.1 == after_refresh_spec(outcome),
        match outcome {
            Some(p) => r.0@ == p.0.encoded(jar@),
            None => r.0@ == jar@ && r.0.removals@ == jar.removals@,
        },
{
    match outcome {
        Some(p) => {
            let jar = p.0.add_to_jar(jar);
            (jar, MiddlewareStep::Verified(p.1))
        },
        None => (jar, MiddlewareStep::ReauthRequired),
    }
}

/// An HTTP response as this library shapes it: a status, an optional
/// redirect target, an optional diagnostic header, and a plain body.
pub struct HttpResponse {
    pub status: u16,
    pub location: Option<String>,
    pub auth_error: Option<String>,
    pub body: String,
}

/// Answer a request that must authenticate afresh. A GET is redirected to
/// the login endpoint with the original URL as the redirect target and the
/// reason in a diagnostic header; any other method gets the plain error, so
/// that no request body is silently dropped.
pub fn reauth_response(method_get: bool, url: &RequestUrl, reason: String) -> (r: HttpResponse)
    ensures
        method_get ==> {
            &&& r.status == 303u16
            &&& r.location matches Some(l) && l@ == login_redirect_url_of(*url)
            &&& r.auth_error matches Some(a) && a@ == reason@
            &&& r.body@ == Seq::<char>::empty()
        },
        !method_get ==> {
            &&& r.status == 401u16
            &&& r.location is None
            &&& r.auth_error is None
            &&& r.body@ == reason@
        },
{
    if method_get {
        let target = login_redirect_url(url);
        HttpResponse {
            status: 303,
            location: Some(target),
            auth_error: Some(reason),
            body: String::new(),
        }
    } else {
        HttpResponse { status: 401, location: None, auth_error: None, body: reason }
    }
}

/// The diagnostic text of a re-authentication reason.
pub open spec fn reauth_message_spec(r: ReauthReason) -> Seq<char> {
    match r {
        ReauthReason::SessionCookies(d) => match d {
            DecodeError::Missing(f) => match f {
                SessionField::IdToken => "ID token missing"@,
                SessionField::AccessToken => "Access token missing"@,
                SessionField::RefreshToken => "Refresh token missing"@,
                SessionField::AdditionalClaims => "Additional claims missing"@,
            },
            DecodeError::MalformedClaims => "Additional claims malformed"@,
        },
        ReauthReason::MissingNonceCookie => "Nonce cookie missing"@,
        ReauthReason::VerificationFailed => "ID token verification failed"@,
    }
}

/// Write a re-authentication reason out for the diagnostic header.
pub fn reauth_message(r: &ReauthReason) -> (m: String)
    ensures
        m@ == reauth_message_spec(*r),
{
    match r {
        ReauthReason::SessionCookies(d) => match d {
            DecodeError::Missing(f) => match f {
                SessionField::IdToken => crate::jar::string_copy("ID token missing"),
                SessionField::AccessToken => crate::jar::string_copy("Access token missing"),
                SessionField::RefreshToken => crate::jar::string_copy("Refresh token missing"),
                SessionField::AdditionalClaims => crate::jar::string_copy(
                    "Additional claims missing",
                ),
            },
            DecodeError::MalformedClaims => crate::jar::string_copy("Additional claims malformed"),
        },
        ReauthReason::MissingNonceCookie => crate::jar::string_copy("Nonce cookie missing"),
        ReauthReason::VerificationFailed => crate::jar::string_copy("ID token verification failed"),
    }
}

/// A request whose session decodes and whose ID token the verifier accepts,
/// with the session's nonce and an expiry still ahead, passes straight
/// through: the step after verification carries exactly the token's claims,
/// and no refresh is asked for.
pub proof fn lemma_verified_passthrough(
    decoded: Option<IdClaims>,
    nonce: Seq<char>,
    now: u64,
    has_token_endpoint: bool,
)
    requires
        decoded matches Some(c) && c.nonce@ == nonce && c.expiry > now,
    ensures
        after_verify_spec(verify_spec(decoded, nonce, now), has_token_endpoint)
            == MiddlewareStep::Verified(decoded->Some_0),
{
}

/// A session whose token fails verification, at a provider with a token
/// endpoint, is answered with a refresh attempt.
pub proof fn lemma_failed_verification_refreshes(verify: Result<IdClaims, VerifyError>)
    requires
        verify is Err,
    ensures
        after_verify_spec(verify, true) is NeedRefresh,
{
}

/// A refresh is never answered with another refresh: whatever its outcome,
/// the middleware either passes the request through or requires a login.
/// With the lemma above, within one request exactly one refresh attempt
/// occurs when verification fails and the provider has a token endpoint.
pub proof fn lemma_refresh_not_repeated(outcome: Option<(AuthCookie, IdClaims)>)
    ensures
        !(after_refresh_spec(outcome) is NeedRefresh),
{
}

/// When a refresh returns a new ID token differing from the one the request
/// carried, the outgoing cookies carry the new token: the response's ID
/// token cookie differs from the incoming one.
pub proof fn lemma_refresh_rotates_id_token(s: AuthCookie, j: Map<Seq<char>, CookieData>)
    requires
        j.contains_key("id_token"@),
        s.id_token@ != j["id_token"@].value,
    ensures
        s.encoded(j).contains_key("id_token"@),
        s.encoded(j)["id_token"@].value == s.id_token@,
        s.encoded(j)["id_token"@].value != j["id_token"@].value,
{
    crate::codec::lemma_session_names_distinct();
}

} // verus!
