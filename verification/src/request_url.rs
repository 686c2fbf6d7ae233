//! The URL of the request being served, assembled from the parts the HTTP
//! layer hands over, and the login redirect built from it.

use vstd::prelude::*;

use crate::urlenc::{url_encode, url_encoded};

verus! {

/// A request's absolute URL, kept as its parts.
pub struct RequestUrl {
    pub scheme: String,
    pub authority: String,
    pub path_and_query: String,
}

impl RequestUrl {
    /// The URL as one text.
    pub open spec fn rendered(&self) -> Seq<char> {
        self.scheme@ + "://"@ + self.authority@ + self.path_and_query@
    }

    /// Write the URL as one string.
    pub fn render(&self) -> (r: String)
        ensures
            r@ == self.rendered(),
    {
        let mut out = self.scheme.clone();
        out.append("://");
        out.append(self.authority.as_str());
        out.append(self.path_and_query.as_str());
        out
    }
}

/// Assemble the request URL from what the HTTP layer gives: the scheme
/// (`http` when absent), the authority (the `Host` header when absent), and
/// the path with its query (empty when absent).
pub fn compose_request_url(
    scheme: Option<String>,
    authority: Option<String>,
    host: String,
    path_and_query: Option<String>,
) -> (r: RequestUrl)
    ensures
        r.scheme@ == (match scheme {
            Some(s) => s@,
            None => "http"@,
        }),
        r.authority@ == (match authority {
            Some(a) => a@,
            None => host@,
        }),
        r.path_and_query@ == (match path_and_query {
            Some(p) => p@,
            None => Seq::<char>::empty(),
        }),
{
    let scheme = match scheme {
        Some(s) => s,
        None => crate::jar::string_copy("http"),
    };
    let authority = match authority {
        Some(a) => a,
        None => host,
    };
    let path_and_query = match path_and_query {
        Some(p) => p,
        None => String::new(),
    };
    RequestUrl { scheme, authority, path_and_query }
}

/// The login URL a failed request is redirected to: the same scheme and
/// authority, the login path, and the full original URL carried in the
/// `redirect_to` parameter.
pub open spec fn login_redirect_url_of(u: RequestUrl) -> Seq<char> {
    u.scheme@ + "://"@ + u.authority@ + "/auth/login?redirect_to="@ + url_encoded(u.rendered())
}

/// Build the login redirect for a request.
pub fn login_redirect_url(u: &RequestUrl) -> (r: String)
    ensures
        r@ == login_redirect_url_of(*u),
{
    let mut out = u.scheme.clone();
    out.append("://");
    out.append(u.authority.as_str());
    out.append("/auth/login?redirect_to=");
    let rendered = u.render();
    let enc = url_encode(rendered.as_str());
    out.append(enc.as_str());
    out
}

} // verus!
