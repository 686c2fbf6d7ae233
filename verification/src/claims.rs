//! Typed identity claims: the fields this application reads from a verified
//! ID token, the supplemental claims fetched from the userinfo endpoint, and
//! the merge exposed to request handlers.

use vstd::prelude::*;

verus! {

/// Supplemental claims fetched from the userinfo endpoint (group memberships).
/// They never appear inside the signed ID token.
pub struct GroupClaims {
    pub groups: Vec<String>,
}

/// The claims this application reads out of a signature-checked ID token.
/// Times are seconds since the Unix epoch.
#[derive(Debug)]
pub struct IdClaims {
    pub subject: String,
    pub issuer: String,
    pub audience: String,
    pub expiry: u64,
    pub nonce: String,
    pub name: Option<String>,
    pub email: Option<String>,
}

/// ID-token claims with the supplemental group claims overlaid: the value
/// handlers see. Built fresh per request; never persisted.
pub struct GroupIdTokenClaims {
    pub id: IdClaims,
    pub groups: Vec<String>,
}

/// Why locally checkable ID-token validation failed.
#[derive(Debug)]
pub enum VerifyError {
    /// The outside verifier rejected the token (signature, issuer or audience).
    TokenRejected,
    /// The nonce inside the token differs from the nonce this session issued.
    NonceMismatch,
    /// The token's expiry is not in the future.
    Expired,
}

/// Overlay the supplemental group claims onto the verified ID-token claims.
/// Every field of the signed token is kept as it is; the groups are the
/// supplemental ones, exactly.
pub fn merge_claims(id_token_claims: IdClaims, group_claims: &GroupClaims) -> (r:
    GroupIdTokenClaims)
    ensures
        r.id == id_token_claims,
        r.groups.deep_view() == group_claims.groups.deep_view(),
{
    GroupIdTokenClaims { id: id_token_claims, groups: clone_groups(&group_claims.groups) }
}

/// Clone a list of group names, keeping each name's characters.
pub fn clone_groups(groups: &Vec<String>) -> (r: Vec<String>)
    ensures
        r.deep_view() == groups.deep_view(),
{
    let mut out: Vec<String> = Vec::new();
    let mut i: usize = 0;
    let n = groups.len();
    while i < n
        invariant
            n == groups@.len(),
            i <= n,
            out@.len() == i,
            forall|j: int| 0 <= j < i ==> out@[j] == groups@[j],
        decreases n - i,
    {
        out.push(groups[i].clone());
        i += 1;
    }
    proof {
        assert(out.deep_view() =~= groups.deep_view());
    }
    out
}

/// What the local token checks decide: the token must have been accepted by
/// the outside verifier, its embedded nonce must equal the nonce this
/// session issued, and its expiry must lie in the future.
pub open spec fn verify_spec(decoded: Option<IdClaims>, expected_nonce: Seq<char>, now: u64) -> Result<
    IdClaims,
    VerifyError,
> {
    match decoded {
        None => Err(VerifyError::TokenRejected),
        Some(c) => {
            if c.nonce@ != expected_nonce {
                Err(VerifyError::NonceMismatch)
            } else if c.expiry <= now {
                Err(VerifyError::Expired)
            } else {
                Ok(c)
            }
        },
    }
}

/// The checks this library makes itself on a token the outside verifier has
/// already signature-checked: the embedded nonce must equal the nonce this
/// session issued, and the token must not be expired. `decoded` is `None`
/// when the outside verifier rejected the token outright.
pub fn verify_id_token(decoded: Option<IdClaims>, expected_nonce: &str, now: u64) -> (r: Result<
    IdClaims,
    VerifyError,
>)
    ensures
        r == verify_spec(decoded, expected_nonce@, now),
        match r {
            Ok(c) => {
                &&& decoded matches Some(d) && c == d
                &&& c.nonce@ == expected_nonce@
                &&& c.expiry > now
            },
            Err(e) => match e {
                VerifyError::TokenRejected => decoded is None,
                VerifyError::NonceMismatch => decoded matches Some(d) && d.nonce@
                    != expected_nonce@,
                VerifyError::Expired => decoded matches Some(d) && d.nonce@ == expected_nonce@
                    && d.expiry <= now,
            },
        },
        r is Ok <==> (decoded matches Some(d) && d.nonce@ == expected_nonce@ && d.expiry > now),
{
    match decoded {
        None => Err(VerifyError::TokenRejected),
        Some(claims) => {
            if !crate::jar::string_eq_str(&claims.nonce, expected_nonce) {
                Err(VerifyError::NonceMismatch)
            } else if claims.expiry <= now {
                Err(VerifyError::Expired)
            } else {
                Ok(claims)
            }
        },
    }
}

/// A signature-valid ID token whose embedded nonce differs from the nonce
/// the session issued never verifies: the check fails as a nonce mismatch,
/// whatever the token's expiry.
pub proof fn lemma_nonce_mismatch_rejected(c: IdClaims, expected_nonce: Seq<char>, now: u64)
    requires
        c.nonce@ != expected_nonce,
    ensures
        verify_spec(Some(c), expected_nonce, now) == Err::<IdClaims, VerifyError>(
            VerifyError::NonceMismatch,
        ),
{
}

} // verus!
