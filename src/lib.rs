//! OAuth 2.0 authorization server core for a household-cleaning tracker:
//! scope model, token codec, authorization-code flow with PKCE, grant
//! dispatch, introspection, revocation and bearer authentication.
pub mod scopes;
pub mod tokens;
pub mod password;
pub mod error;
pub mod store;
pub mod server;
pub mod introspect;
pub mod middleware;
pub mod authorize;
pub mod clients;
pub mod models;
pub mod laws;
