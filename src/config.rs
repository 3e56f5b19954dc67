use vstd::prelude::*;

verus! {

/// Configuration of the server, as read at boot.
#[derive(Clone, Debug)]
pub struct Config {
    /// Authentication services.
    pub auth_services: AuthConfigs,
    /// Address to listen on for HTTP requests (`host:port`).
    pub address: String,
    /// Whether or not to show the server version on the root page.
    pub show_version: bool,
    /// How often to send heartbeat pings, in milliseconds.
    pub ws_hb_interval: u64,
    /// How long before lack of client response causes a timeout, in milliseconds.
    pub ws_client_timeout: u64,
    /// How many messages are added to a search index before it is committed.
    pub tantivy_commit_threshold: u8,
}

/// Configuration for a generic OAuth service.
#[derive(Clone, Debug)]
pub struct AuthConfig {
    /// Whether or not this OAuth service should be used.
    pub enabled: bool,
    /// Client ID given by the OAuth service.
    pub client_id: String,
    /// Client secret given by the OAuth service.
    pub client_secret: String,
}

/// OAuth service configurations.
#[derive(Clone, Debug)]
pub struct AuthConfigs {
    /// GitHub OAuth config.
    pub github: Option<AuthConfig>,
}

} // verus!
