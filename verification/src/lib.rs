//! OpenID Connect relying-party core: session cookies, login/callback flow,
//! and the per-request authentication middleware, with verified contracts.

pub mod callback;
pub mod claims;
pub mod codec;
pub mod discovery;
pub mod groups;
pub mod jar;
pub mod login;
pub mod logout;
pub mod middleware;
pub mod request_url;
pub mod settings;
pub mod urlenc;
