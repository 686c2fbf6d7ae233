//! Logout: clear the whole session cookie set and hand back the bearer
//! tokens so the caller can revoke them at the provider.

use vstd::prelude::*;

use crate::jar::CookieJar;

verus! {

/// What a logout asks the caller to do at the provider: revoke each bearer
/// token that the session carried.
pub struct LogoutAction {
    pub revoke_access_token: Option<String>,
    pub revoke_refresh_token: Option<String>,
}

/// End the session: delete all four session cookies, whatever subset of them
/// is present, and return the bearer tokens to revoke.
pub fn logout(jar: CookieJar) -> (r: (CookieJar, LogoutAction))
    requires
        jar.wf(),
    ensures
        r.0.wf(),
        r.0@ == jar@.remove("id_token"@).remove("access_token"@).remove("refresh_token"@).remove(
            "additional_claims"@,
        ),
        r.0.removed_names() == jar.removed_names().insert("id_token"@).insert(
            "access_token"@,
        ).insert("refresh_token"@).insert("additional_claims"@),
        match r.1.revoke_access_token {
            Some(t) => jar@.contains_key("access_token"@) && t@ == jar.value_of("access_token"@),
            None => !jar@.contains_key("access_token"@),
        },
        match r.1.revoke_refresh_token {
            Some(t) => jar@.contains_key("refresh_token"@) && t@ == jar.value_of("refresh_token"@),
            None => !jar@.contains_key("refresh_token"@),
        },
{
    let revoke_access_token = match jar.get("access_token") {
        Some(v) => Some(v.clone()),
        None => None,
    };
    let revoke_refresh_token = match jar.get("refresh_token") {
        Some(v) => Some(v.clone()),
        None => None,
    };
    let mut jar = jar;
    jar.remove("id_token");
    jar.remove("access_token");
    jar.remove("refresh_token");
    jar.remove("additional_claims");
    (jar, LogoutAction { revoke_access_token, revoke_refresh_token })
}

} // verus!
