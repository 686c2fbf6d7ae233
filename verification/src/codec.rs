//! The session cookie codec: the authenticated session is carried entirely in
//! four cookies, written together and read back in a fixed order, the first
//! missing one naming the failure.

use vstd::prelude::*;

use crate::claims::GroupClaims;
use crate::groups::{
    decode_groups,
    encode_groups,
    groups_json,
    is_groups_json,
    lemma_groups_json_injective,
};
use crate::jar::{Cookie, CookieData, CookieJar};

verus! {

/// How many days the session cookies live.
pub const SESSION_MAX_AGE_DAYS: u32 = 14;

/// The authenticated session as carried by the client: the tokens are opaque
/// strings; the supplemental claims are typed.
pub struct AuthCookie {
    pub id_token: String,
    pub access_token: String,
    pub refresh_token: String,
    pub additional_claims: GroupClaims,
}

/// One of the four cookies the session consists of.
#[derive(Debug)]
pub enum SessionField {
    IdToken,
    AccessToken,
    RefreshToken,
    AdditionalClaims,
}

/// Why a session could not be read back from a jar.
#[derive(Debug)]
pub enum DecodeError {
    /// The named cookie is absent; every cookie before it in the fixed order
    /// is present.
    Missing(SessionField),
    /// All four cookies are present, but the supplemental-claims cookie does
    /// not parse.
    MalformedClaims,
}

/// All four session cookies are present.
pub open spec fn session_present(j: Map<Seq<char>, CookieData>) -> bool {
    &&& j.contains_key("id_token"@)
    &&& j.contains_key("access_token"@)
    &&& j.contains_key("refresh_token"@)
    &&& j.contains_key("additional_claims"@)
}

impl AuthCookie {
    /// Two sessions that carry the same tokens and the same group names.
    pub open spec fn eqv(self, other: AuthCookie) -> bool {
        &&& self.id_token@ == other.id_token@
        &&& self.access_token@ == other.access_token@
        &&& self.refresh_token@ == other.refresh_token@
        &&& self.additional_claims.groups.deep_view() == other.additional_claims.groups.deep_view()
    }

    /// What writing the session leaves in a jar: each token in its own
    /// root-path cookie with the session's max age, the supplemental claims
    /// in their JSON form.
    pub open spec fn encoded(self, j: Map<Seq<char>, CookieData>) -> Map<Seq<char>, CookieData> {
        j.insert(
            "id_token"@,
            CookieData { value: self.id_token@, root_path: true, max_age_days: SESSION_MAX_AGE_DAYS },
        ).insert(
            "access_token"@,
            CookieData {
                value: self.access_token@,
                root_path: true,
                max_age_days: SESSION_MAX_AGE_DAYS,
            },
        ).insert(
            "refresh_token"@,
            CookieData {
                value: self.refresh_token@,
                root_path: true,
                max_age_days: SESSION_MAX_AGE_DAYS,
            },
        ).insert(
            "additional_claims"@,
            CookieData {
                value: groups_json(self.additional_claims.groups.deep_view()),
                root_path: true,
                max_age_days: SESSION_MAX_AGE_DAYS,
            },
        )
    }

    /// Write the session into the jar, overwriting any cookies of the same
    /// names and touching nothing else.
    pub fn add_to_jar(&self, jar: CookieJar) -> (r: CookieJar)
        requires
            jar.wf(),
        ensures
            r.wf(),
            r@ == self.encoded(jar@),
            r.removals@ == jar.removals@,
    {
        let mut jar = jar;
        jar.add(
            Cookie {
                name: crate::jar::string_copy("id_token"),
                value: self.id_token.clone(),
                root_path: true,
                max_age_days: SESSION_MAX_AGE_DAYS,
            },
        );
        jar.add(
            Cookie {
                name: crate::jar::string_copy("access_token"),
                value: self.access_token.clone(),
                root_path: true,
                max_age_days: SESSION_MAX_AGE_DAYS,
            },
        );
        jar.add(
            Cookie {
                name: crate::jar::string_copy("refresh_token"),
                value: self.refresh_token.clone(),
                root_path: true,
                max_age_days: SESSION_MAX_AGE_DAYS,
            },
        );
        jar.add(
            Cookie {
                name: crate::jar::string_copy("additional_claims"),
                value: encode_groups(&self.additional_claims.groups),
                root_path: true,
                max_age_days: SESSION_MAX_AGE_DAYS,
            },
        );
        jar
    }

    /// Read the session back from a jar. Presence is checked in a fixed
    /// order — ID token, access token, refresh token, supplemental claims —
    /// and the first missing cookie names the failure. Reading succeeds
    /// exactly when all four are present and the claims cookie parses.
    pub fn get_from_jar(jar: &CookieJar) -> (r: Result<AuthCookie, DecodeError>)
        requires
            jar.wf(),
        ensures
            match r {
                Ok(c) => {
                    &&& session_present(jar@)
                    &&& c.id_token@ == jar.value_of("id_token"@)
                    &&& c.access_token@ == jar.value_of("access_token"@)
                    &&& c.refresh_token@ == jar.value_of("refresh_token"@)
                    &&& jar.value_of("additional_claims"@) == groups_json(
                        c.additional_claims.groups.deep_view(),
                    )
                },
                Err(e) => match e {
                    DecodeError::Missing(f) => match f {
                        SessionField::IdToken => !jar@.contains_key("id_token"@),
                        SessionField::AccessToken => jar@.contains_key("id_token"@)
                            && !jar@.contains_key("access_token"@),
                        SessionField::RefreshToken => jar@.contains_key("id_token"@)
                            && jar@.contains_key("access_token"@) && !jar@.contains_key(
                            "refresh_token"@,
                        ),
                        SessionField::AdditionalClaims => jar@.contains_key("id_token"@)
                            && jar@.contains_key("access_token"@) && jar@.contains_key(
                            "refresh_token"@,
                        ) && !jar@.contains_key("additional_claims"@),
                    },
                    DecodeError::MalformedClaims => session_present(jar@) && !is_groups_json(
                        jar.value_of("additional_claims"@),
                    ),
                },
            },
            r is Ok <==> session_present(jar@) && is_groups_json(
                jar.value_of("additional_claims"@),
            ),
    {
        let id_token = match jar.get("id_token") {
            Some(v) => v.clone(),
            None => {
                return Err(DecodeError::Missing(SessionField::IdToken));
            },
        };
        let access_token = match jar.get("access_token") {
            Some(v) => v.clone(),
            None => {
                return Err(DecodeError::Missing(SessionField::AccessToken));
            },
        };
        let refresh_token = match jar.get("refresh_token") {
            Some(v) => v.clone(),
            None => {
                return Err(DecodeError::Missing(SessionField::RefreshToken));
            },
        };
        let claims_value = match jar.get("additional_claims") {
            Some(v) => v,
            None => {
                return Err(DecodeError::Missing(SessionField::AdditionalClaims));
            },
        };
        let groups = match decode_groups(claims_value.as_str()) {
            Some(gs) => gs,
            None => {
                return Err(DecodeError::MalformedClaims);
            },
        };
        Ok(
            AuthCookie {
                id_token,
                access_token,
                refresh_token,
                additional_claims: GroupClaims { groups },
            },
        )
    }
}

/// The four session cookie names are pairwise distinct.
pub proof fn lemma_session_names_distinct()
    ensures
        "id_token"@ != "access_token"@,
        "id_token"@ != "refresh_token"@,
        "id_token"@ != "additional_claims"@,
        "access_token"@ != "refresh_token"@,
        "access_token"@ != "additional_claims"@,
        "refresh_token"@ != "additional_claims"@,
{
    reveal_strlit("id_token");
    reveal_strlit("access_token");
    reveal_strlit("refresh_token");
    reveal_strlit("additional_claims");
    assert("id_token"@.len() == 8);
    assert("access_token"@.len() == 12);
    assert("refresh_token"@.len() == 13);
    assert("additional_claims"@.len() == 17);
}

/// A session read back from a written session carries the same tokens and
/// the same group names as the session that was written.
pub proof fn lemma_decode_of_encode_exact(
    written: AuthCookie,
    read: AuthCookie,
    base: Map<Seq<char>, CookieData>,
)
    requires
        read.id_token@ == written.encoded(base)["id_token"@].value,
        read.access_token@ == written.encoded(base)["access_token"@].value,
        read.refresh_token@ == written.encoded(base)["refresh_token"@].value,
        written.encoded(base)["additional_claims"@].value == groups_json(
            read.additional_claims.groups.deep_view(),
        ),
    ensures
        read.eqv(written),
{
    lemma_session_names_distinct();
    lemma_groups_json_injective(
        read.additional_claims.groups.deep_view(),
        written.additional_claims.groups.deep_view(),
    );
}

/// Sessions carrying the same tokens and group names write byte-identical
/// cookie values into any jar: re-encoding a decoded, unmodified session
/// changes nothing.
pub proof fn lemma_eqv_encodes_identically(
    a: AuthCookie,
    b: AuthCookie,
    j: Map<Seq<char>, CookieData>,
)
    requires
        a.eqv(b),
    ensures
        a.encoded(j) == b.encoded(j),
{
    assert(a.encoded(j) =~= b.encoded(j));
}

} // verus!
