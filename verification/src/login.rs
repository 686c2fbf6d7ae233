//! The login initiator: mint a CSRF token and a nonce, remember them and the
//! caller's redirect target in cookies, and send the user to the provider's
//! authorization endpoint.

use vstd::prelude::*;

use crate::codec::SESSION_MAX_AGE_DAYS;
use crate::discovery::{authorization_url_of, OidcClientConfig};
use crate::jar::{Cookie, CookieData, CookieJar};

verus! {

/// Whether a character is an ASCII letter or digit.
pub open spec fn is_ascii_alnum(c: char) -> bool {
    (48 <= c as u32 && c as u32 <= 57) || (65 <= c as u32 && c as u32 <= 90) || (97 <= c as u32
        && c as u32 <= 122)
}

/// How many characters the minted CSRF tokens and nonces have.
pub const LOGIN_TOKEN_LEN: usize = 32;

/// Mint a fresh random token.
///
/// Relies on rand's `Alphanumeric` distribution with `SampleString`: the
/// result has exactly the requested number of characters, each an ASCII
/// letter or digit. The choice is random, so nothing else is promised.
#[verifier::external_body]
fn random_token(len: usize) -> (r: String)
    ensures
        r@.len() == len,
        forall|i: int| 0 <= i < r@.len() ==> is_ascii_alnum(r@[i]),
{
    rand::distr::SampleString::sample_string(&rand::distr::Alphanumeric, &mut rand::rng(), len)
}

/// What the jar holds after a login: the CSRF cookie for the round-trip, the
/// nonce cookie for two weeks, and the redirect target kept or cleared.
pub open spec fn login_jar_spec(
    j: Map<Seq<char>, CookieData>,
    csrf: Seq<char>,
    nonce: Seq<char>,
    redirect_to: Option<Seq<char>>,
) -> Map<Seq<char>, CookieData> {
    let with_tokens = j.insert(
        "csrf_state"@,
        CookieData { value: csrf, root_path: false, max_age_days: 0 },
    ).insert(
        "nonce"@,
        CookieData { value: nonce, root_path: true, max_age_days: SESSION_MAX_AGE_DAYS },
    );
    match redirect_to {
        Some(target) => with_tokens.insert(
            "login_redirect_to"@,
            CookieData { value: target, root_path: false, max_age_days: 0 },
        ),
        None => with_tokens.remove("login_redirect_to"@),
    }
}

/// The deterministic body of the login endpoint, taking the minted tokens as
/// arguments: set the login cookies and build the authorization URL, passing
/// a still-present ID token as a hint to the provider.
pub fn login_with_tokens(
    cfg: &OidcClientConfig,
    jar: CookieJar,
    redirect_to: Option<String>,
    csrf: &String,
    nonce: &String,
) -> (r: (CookieJar, String))
    requires
        jar.wf(),
    ensures
        r.0.wf(),
        r.0@ == login_jar_spec(
            jar@,
            csrf@,
            nonce@,
            match redirect_to {
                Some(t) => Some(t@),
                None => None,
            },
        ),
        r.1@ == authorization_url_of(
            *cfg,
            csrf@,
            nonce@,
            if jar@.contains_key("id_token"@) {
                Some(jar.value_of("id_token"@))
            } else {
                None
            },
        ),
{
    let hint: Option<String> = match jar.get("id_token") {
        Some(v) => Some(v.clone()),
        None => None,
    };
    let url = cfg.authorization_url(csrf.as_str(), nonce.as_str(), hint.as_ref());
    let mut jar = jar;
    jar.add(
        Cookie {
            name: crate::jar::string_copy("csrf_state"),
            value: csrf.clone(),
            root_path: false,
            max_age_days: 0,
        },
    );
    jar.add(
        Cookie {
            name: crate::jar::string_copy("nonce"),
            value: nonce.clone(),
            root_path: true,
            max_age_days: SESSION_MAX_AGE_DAYS,
        },
    );
    match redirect_to {
        Some(target) => {
            jar.add(
                Cookie {
                    name: crate::jar::string_copy("login_redirect_to"),
                    value: target,
                    root_path: false,
                    max_age_days: 0,
                },
            );
        },
        None => {
            jar.remove("login_redirect_to");
        },
    }
    (jar, url)
}

/// The three login cookie names are pairwise distinct.
pub proof fn lemma_login_names_distinct()
    ensures
        "csrf_state"@ != "nonce"@,
        "csrf_state"@ != "login_redirect_to"@,
        "nonce"@ != "login_redirect_to"@,
        "csrf_state"@ != "id_token"@,
        "nonce"@ != "id_token"@,
{
    reveal_strlit("csrf_state");
    reveal_strlit("nonce");
    reveal_strlit("login_redirect_to");
    reveal_strlit("id_token");
    assert("csrf_state"@.len() == 10);
    assert("nonce"@.len() == 5);
    assert("login_redirect_to"@.len() == 17);
    assert("id_token"@.len() == 8);
}

/// The jar a login leaves behind carries the minted CSRF token in the CSRF
/// cookie and the minted nonce in the nonce cookie: together with the
/// callback's gate, which proceeds exactly when its `state` parameter equals
/// that cookie, a login's CSRF token must come back unchanged, and any
/// mutation of either value stops the exchange.
pub proof fn lemma_csrf_round_trip(
    pre: Map<Seq<char>, CookieData>,
    csrf: Seq<char>,
    nonce: Seq<char>,
    redirect_to: Option<Seq<char>>,
)
    ensures
        login_jar_spec(pre, csrf, nonce, redirect_to).contains_key("csrf_state"@),
        login_jar_spec(pre, csrf, nonce, redirect_to)["csrf_state"@].value == csrf,
        login_jar_spec(pre, csrf, nonce, redirect_to).contains_key("nonce"@),
        login_jar_spec(pre, csrf, nonce, redirect_to)["nonce"@].value == nonce,
{
    lemma_login_names_distinct();
}

/// The login endpoint: mint a fresh CSRF token and nonce and hand over to
/// the deterministic body. The values stored in the two cookies are the ones
/// named in the authorization URL's `state` and `nonce` parameters.
pub fn login(cfg: &OidcClientConfig, jar: CookieJar, redirect_to: Option<String>) -> (r: (
    CookieJar,
    String,
))
    requires
        jar.wf(),
    ensures
        r.0.wf(),
        r.0@.contains_key("csrf_state"@),
        r.0@.contains_key("nonce"@),
        r.0@["csrf_state"@].value.len() == LOGIN_TOKEN_LEN,
        r.0@["nonce"@].value.len() == LOGIN_TOKEN_LEN,
        r.0@ == login_jar_spec(
            jar@,
            r.0@["csrf_state"@].value,
            r.0@["nonce"@].value,
            match redirect_to {
                Some(t) => Some(t@),
                None => None,
            },
        ),
        r.1@ == authorization_url_of(
            *cfg,
            r.0@["csrf_state"@].value,
            r.0@["nonce"@].value,
            if jar@.contains_key("id_token"@) {
                Some(jar.value_of("id_token"@))
            } else {
                None
            },
        ),
{
    let csrf = random_token(LOGIN_TOKEN_LEN);
    let nonce = random_token(LOGIN_TOKEN_LEN);
    let r = login_with_tokens(cfg, jar, redirect_to, &csrf, &nonce);
    proof {
        lemma_login_names_distinct();
        assert(r.0@["csrf_state"@].value == csrf@);
        assert(r.0@["nonce"@].value == nonce@);
    }
    r
}

} // verus!
