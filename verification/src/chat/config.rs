//! Settings of the notification server.
use vstd::prelude::*;

verus! {

/// All settings.
#[derive(Debug)]
pub struct AppConfig {
    pub server: ServerConfig,
    pub auth: AuthConfig,
}

/// Where the server listens and which database it watches.
#[derive(Debug)]
pub struct ServerConfig {
    pub host: String,
    pub sse_port: u16,
    pub pg_url: String,
}

/// The key that checks users' tokens (PEM text).
#[derive(Debug)]
pub struct AuthConfig {
    pub verify_key: String,
}

} // verus!
