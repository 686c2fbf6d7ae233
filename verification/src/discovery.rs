//! The provider's discovered metadata, the relying party's client
//! configuration, and the construction of the authorization URL.

use vstd::prelude::*;

use crate::urlenc::{url_encode, url_encoded};

verus! {

/// What discovery yields of the identity provider: its endpoints. The signing
/// keys stay with the outside verifier. Fetched once at startup; immutable.
pub struct ProviderMetadata {
    pub issuer: String,
    pub authorization_endpoint: String,
    pub token_endpoint: Option<String>,
    pub userinfo_endpoint: Option<String>,
    pub revocation_endpoint: Option<String>,
}

/// Why the discovered metadata is rejected. A failure here is fatal: the
/// process does not start serving traffic.
#[derive(Debug)]
pub enum DiscoveryFailure {
    /// This design requires the provider to offer a revocation endpoint.
    MissingRevocationEndpoint,
}

/// Accept discovered metadata only when the revocation endpoint is present.
pub fn validate_provider_metadata(m: ProviderMetadata) -> (r: Result<
    ProviderMetadata,
    DiscoveryFailure,
>)
    ensures
        match r {
            Ok(v) => m.revocation_endpoint is Some && v == m,
            Err(e) => m.revocation_endpoint is None && e == DiscoveryFailure::MissingRevocationEndpoint,
        },
{
    if m.revocation_endpoint.is_some() {
        Ok(m)
    } else {
        Err(DiscoveryFailure::MissingRevocationEndpoint)
    }
}

/// The relying party's identity at the provider. Immutable after
/// construction; shared read-only across requests.
pub struct OidcClientConfig {
    pub client_id: String,
    pub client_secret: Option<String>,
    pub redirect_uri: String,
    pub scopes: Vec<String>,
    pub metadata: ProviderMetadata,
}

/// The requested scopes joined by single spaces.
pub open spec fn scopes_joined(scopes: Seq<Seq<char>>) -> Seq<char>
    decreases scopes.len(),
{
    if scopes.len() == 0 {
        Seq::empty()
    } else if scopes.len() == 1 {
        scopes[0]
    } else {
        scopes[0] + seq![' '] + scopes_joined(scopes.drop_first())
    }
}

/// The authorization URL for one login attempt: the provider's authorization
/// endpoint with the OIDC query parameters, every value percent-encoded.
pub open spec fn authorization_url_of(
    cfg: OidcClientConfig,
    csrf: Seq<char>,
    nonce: Seq<char>,
    id_token_hint: Option<Seq<char>>,
) -> Seq<char> {
    cfg.metadata.authorization_endpoint@ + "?response_type=code&client_id="@ + url_encoded(
        cfg.client_id@,
    ) + "&redirect_uri="@ + url_encoded(cfg.redirect_uri@) + "&scope="@ + url_encoded(
        scopes_joined(cfg.scopes.deep_view()),
    ) + "&state="@ + url_encoded(csrf) + "&nonce="@ + url_encoded(nonce) + (match id_token_hint {
        Some(h) => "&id_token_hint="@ + url_encoded(h),
        None => Seq::empty(),
    })
}

impl OidcClientConfig {
    /// Join the configured scopes with spaces.
    fn join_scopes(&self) -> (r: String)
        ensures
            r@ == scopes_joined(self.scopes.deep_view()),
    {
        let mut out = String::new();
        let n = self.scopes.len();
        let mut i: usize = 0;
        while i < n
            invariant
                n == self.scopes@.len(),
                i <= n,
                out@ == scopes_joined(self.scopes.deep_view().take(i as int)),
            decreases n - i,
        {
            if i > 0 {
                out.append(" ");
            }
            out.append(self.scopes[i].as_str());
            proof {
                lemma_scopes_joined_push(self.scopes.deep_view().take(i as int), self.scopes.deep_view()[i as int]);
                assert(self.scopes.deep_view().take(i as int).push(self.scopes.deep_view()[i as int])
                    =~= self.scopes.deep_view().take(i + 1 as int));
                assert(" "@ =~= seq![' ']) by {
                    reveal_strlit(" ");
                }
            }
            i += 1;
        }
        proof {
            assert(self.scopes.deep_view().take(n as int) =~= self.scopes.deep_view());
        }
        out
    }

    /// Build the authorization URL, pure and deterministic in its inputs.
    pub fn authorization_url(&self, csrf: &str, nonce: &str, id_token_hint: Option<&String>) -> (r:
        String)
        ensures
            r@ == authorization_url_of(
                *self,
                csrf@,
                nonce@,
                match id_token_hint {
                    Some(h) => Some(h@),
                    None => None,
                },
            ),
    {
        let mut out = self.metadata.authorization_endpoint.clone();
        out.append("?response_type=code&client_id=");
        let enc_client = url_encode(self.client_id.as_str());
        out.append(enc_client.as_str());
        out.append("&redirect_uri=");
        let enc_redirect = url_encode(self.redirect_uri.as_str());
        out.append(enc_redirect.as_str());
        out.append("&scope=");
        let joined = self.join_scopes();
        let enc_scope = url_encode(joined.as_str());
        out.append(enc_scope.as_str());
        out.append("&state=");
        let enc_state = url_encode(csrf);
        out.append(enc_state.as_str());
        out.append("&nonce=");
        let enc_nonce = url_encode(nonce);
        out.append(enc_nonce.as_str());
        if let Some(hint) = id_token_hint {
            out.append("&id_token_hint=");
            let enc_hint = url_encode(hint.as_str());
            out.append(enc_hint.as_str());
        }
        out
    }
}

/// One more scope extends the joined text by a space and the scope.
proof fn lemma_scopes_joined_push(scopes: Seq<Seq<char>>, s: Seq<char>)
    ensures
        scopes.len() == 0 ==> scopes_joined(scopes.push(s)) == s,
        scopes.len() > 0 ==> scopes_joined(scopes.push(s)) == scopes_joined(scopes) + seq![' '] + s,
    decreases scopes.len(),
{
    if scopes.len() == 0 {
        assert(scopes.push(s)[0] == s);
    } else if scopes.len() == 1 {
        assert(scopes.push(s).drop_first() =~= seq![s]);
        assert(scopes_joined(seq![s]) == s);
        assert(scopes.push(s)[0] == scopes[0]);
    } else {
        assert(scopes.push(s).drop_first() =~= scopes.drop_first().push(s));
        lemma_scopes_joined_push(scopes.drop_first(), s);
        assert(scopes_joined(scopes.push(s)) =~= scopes_joined(scopes) + seq![' '] + s);
    }
}

} // verus!
