//! The callback endpoint's decisions: validate the CSRF state, check the
//! provider's token response, establish the session cookies, and pick the
//! post-login redirect.

use vstd::prelude::*;

use crate::claims::GroupClaims;
use crate::codec::AuthCookie;
use crate::jar::{CookieData, CookieJar};

verus! {

/// The outcome of the CSRF comparison at the start of the callback.
#[derive(Debug)]
pub enum CsrfCheck {
    /// The `state` parameter equals the CSRF cookie: go on to the exchange.
    Proceed,
    /// No CSRF cookie is present.
    MissingState,
    /// The CSRF cookie and the `state` parameter differ.
    Mismatch,
}

/// Compare the callback's `state` parameter against the CSRF cookie. The
/// exchange may go ahead only on `Proceed`: exactly when the cookie is
/// present and equals the parameter. Once checked, the CSRF cookie is
/// deleted whatever the outcome.
pub fn callback_csrf_check(jar: CookieJar, state: &str) -> (r: (CookieJar, CsrfCheck))
    requires
        jar.wf(),
    ensures
        r.0.wf(),
        match r.1 {
            CsrfCheck::Proceed => jar@.contains_key("csrf_state"@) && jar.value_of("csrf_state"@)
                == state@,
            CsrfCheck::MissingState => !jar@.contains_key("csrf_state"@),
            CsrfCheck::Mismatch => jar@.contains_key("csrf_state"@) && jar.value_of("csrf_state"@)
                != state@,
        },
        r.1 is Proceed <==> jar@.contains_key("csrf_state"@) && jar.value_of("csrf_state"@)
            == state@,
        r.0@ == jar@.remove("csrf_state"@),
        jar@.contains_key("csrf_state"@) ==> r.0.removed_names() == jar.removed_names().insert(
            "csrf_state"@,
        ),
        !jar@.contains_key("csrf_state"@) ==> r.0.removals@ == jar.removals@,
{
    let outcome = match jar.get("csrf_state") {
        None => CsrfCheck::MissingState,
        Some(v) => {
            if crate::jar::string_eq_str(v, state) {
                CsrfCheck::Proceed
            } else {
                CsrfCheck::Mismatch
            }
        },
    };
    let mut jar = jar;
    match outcome {
        CsrfCheck::MissingState => {
            proof {
                assert(jar@ =~= jar@.remove("csrf_state"@));
            }
        },
        _ => {
            jar.remove("csrf_state");
        },
    }
    (jar, outcome)
}

/// The provider's answer to a code or refresh exchange, reduced to the
/// fields this library reads. The access token is always present; the others
/// the provider may omit.
pub struct TokenResponse {
    pub access_token: String,
    pub refresh_token: Option<String>,
    pub id_token: Option<String>,
}

/// Why a token response was rejected before any verification.
#[derive(Debug)]
pub enum ProcessTokenResponseError {
    MissingRefreshToken,
    MissingNonce,
    MissingIdToken,
}

/// What survives the checks on a token response: the three tokens and the
/// session's nonce, ready for the outside verifier.
pub struct PendingSession {
    pub id_token: String,
    pub access_token: String,
    pub refresh_token: String,
    pub nonce: String,
}

/// Check a token response as the callback and the refresh path both do:
/// the refresh token, the nonce cookie and the ID token must each be
/// present, tested in that order, the first absent one naming the error.
pub fn validate_token_response(resp: TokenResponse, jar: &CookieJar) -> (r: Result<
    PendingSession,
    ProcessTokenResponseError,
>)
    requires
        jar.wf(),
    ensures
        match r {
            Ok(p) => {
                &&& resp.refresh_token matches Some(t) && p.refresh_token@ == t@
                &&& jar@.contains_key("nonce"@) && p.nonce@ == jar.value_of("nonce"@)
                &&& resp.id_token matches Some(t) && p.id_token@ == t@
                &&& p.access_token@ == resp.access_token@
            },
            Err(e) => match e {
                ProcessTokenResponseError::MissingRefreshToken => resp.refresh_token is None,
                ProcessTokenResponseError::MissingNonce => resp.refresh_token is Some
                    && !jar@.contains_key("nonce"@),
                ProcessTokenResponseError::MissingIdToken => resp.refresh_token is Some
                    && jar@.contains_key("nonce"@) && resp.id_token is None,
            },
        },
        r is Ok <==> (resp.refresh_token is Some && jar@.contains_key("nonce"@)
            && resp.id_token is Some),
{
    let refresh_token = match resp.refresh_token {
        Some(t) => t,
        None => {
            return Err(ProcessTokenResponseError::MissingRefreshToken);
        },
    };
    let nonce = match jar.get("nonce") {
        Some(v) => v.clone(),
        None => {
            return Err(ProcessTokenResponseError::MissingNonce);
        },
    };
    let id_token = match resp.id_token {
        Some(t) => t,
        None => {
            return Err(ProcessTokenResponseError::MissingIdToken);
        },
    };
    Ok(
        PendingSession {
            id_token,
            access_token: resp.access_token,
            refresh_token,
            nonce,
        },
    )
}

/// Put the checked tokens and the supplemental claims together as the
/// session to be written.
pub fn assemble_session(pending: PendingSession, additional_claims: GroupClaims) -> (r: AuthCookie)
    ensures
        r.id_token == pending.id_token,
        r.access_token == pending.access_token,
        r.refresh_token == pending.refresh_token,
        r.additional_claims == additional_claims,
{
    AuthCookie {
        id_token: pending.id_token,
        access_token: pending.access_token,
        refresh_token: pending.refresh_token,
        additional_claims,
    }
}

/// Finish a successful callback: write the session cookies, read and clear
/// the remembered redirect target, and send the user there (to the root when
/// none was remembered).
pub fn callback_finish(session: &AuthCookie, jar: CookieJar) -> (r: (CookieJar, String))
    requires
        jar.wf(),
    ensures
        r.0.wf(),
        r.0@ == session.encoded(jar@).remove("login_redirect_to"@),
        r.1@ == (if jar@.contains_key("login_redirect_to"@) {
            jar.value_of("login_redirect_to"@)
        } else {
            "/"@
        }),
    {
    let ghost pre = jar@;
    let jar = session.add_to_jar(jar);
    let redirect_to = match jar.get("login_redirect_to") {
        Some(v) => v.clone(),
        None => crate::jar::string_copy("/"),
    };
    let mut jar = jar;
    jar.remove("login_redirect_to");
    proof {
        lemma_callback_names_distinct();
    }
    (jar, redirect_to)
}

/// The redirect-target cookie is none of the four session cookies.
pub proof fn lemma_callback_names_distinct()
    ensures
        "login_redirect_to"@ != "id_token"@,
        "login_redirect_to"@ != "access_token"@,
        "login_redirect_to"@ != "refresh_token"@,
        "login_redirect_to"@ != "additional_claims"@,
{
    reveal_strlit("login_redirect_to");
    reveal_strlit("id_token");
    reveal_strlit("access_token");
    reveal_strlit("refresh_token");
    reveal_strlit("additional_claims");
    assert("login_redirect_to"@.len() == 17);
    assert("id_token"@.len() == 8);
    assert("access_token"@.len() == 12);
    assert("refresh_token"@.len() == 13);
    assert("additional_claims"@.len() == 17);
    assert("login_redirect_to"@[0] == 'l');
    assert("additional_claims"@[0] == 'a');
}

/// A failed CSRF comparison, by absence or by mismatch, is the client's
/// fault: the callback answers with a Bad Request and never reaches the
/// token exchange.
pub fn csrf_error_status(c: &CsrfCheck) -> (r: u16)
    requires
        !(c is Proceed),
    ensures
        r == 400u16,
{
    match c {
        CsrfCheck::Proceed => 400,
        CsrfCheck::MissingState => 400,
        CsrfCheck::Mismatch => 400,
    }
}

/// The HTTP status a callback failure maps to: the CSRF and nonce checks
/// are the client's fault, everything at or behind the provider is a bad
/// gateway.
pub fn callback_error_status(e: &ProcessTokenResponseError) -> (r: u16)
    ensures
        r == (match e {
            ProcessTokenResponseError::MissingNonce => 400u16,
            ProcessTokenResponseError::MissingIdToken => 502u16,
            ProcessTokenResponseError::MissingRefreshToken => 502u16,
        }),
{
    match e {
        ProcessTokenResponseError::MissingNonce => 400,
        ProcessTokenResponseError::MissingIdToken => 502,
        ProcessTokenResponseError::MissingRefreshToken => 502,
    }
}

} // verus!
