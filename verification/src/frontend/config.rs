//! The application's persistent configuration: the server to connect to and
//! the name to connect with.  Reading and writing the file is left to the
//! caller; this module holds the values and the rules on them.
use vstd::prelude::*;

verus! {

#[derive(Debug, Clone)]
pub struct AppConfig {
    pub server: ServerConfig,
}

#[derive(Debug, Clone)]
pub struct ServerConfig {
    pub address: String,
    pub username: String,
}

/// The value of a `ServerConfig`.
pub struct ServerConfigView {
    pub address: Seq<char>,
    pub username: Seq<char>,
}

/// The value of an `AppConfig`.
pub struct AppConfigView {
    pub server: ServerConfigView,
}

impl View for ServerConfig {
    type V = ServerConfigView;

    open spec fn view(&self) -> ServerConfigView {
        ServerConfigView { address: self.address@, username: self.username@ }
    }
}

impl View for AppConfig {
    type V = AppConfigView;

    open spec fn view(&self) -> AppConfigView {
        AppConfigView { server: self.server@ }
    }
}

/// The configuration written when there is none: no server and no name.
pub open spec fn default_config() -> AppConfigView {
    AppConfigView {
        server: ServerConfigView { address: Seq::empty(), username: Seq::empty() },
    }
}

/// Both the server address and the user name are given.
pub open spec fn credentials_filled(s: ServerConfigView) -> bool {
    s.address.len() > 0 && s.username.len() > 0
}

impl ServerConfig {
    pub fn is_credentials_filled(&self) -> (filled: bool)
        ensures
            filled == credentials_filled(self@),
    {
        !self.address.as_str().is_empty() && !self.username.as_str().is_empty()
    }

    /// A copy of the server settings.
    pub fn snapshot(&self) -> (c: Self)
        ensures
            c == *self,
    {
        ServerConfig { address: self.address.clone(), username: self.username.clone() }
    }
}

impl AppConfig {
    /// A copy of the configuration.
    pub fn snapshot(&self) -> (c: Self)
        ensures
            c == *self,
    {
        AppConfig { server: self.server.snapshot() }
    }

    /// Whether two configurations hold the same values.
    pub fn same_as(&self, other: &AppConfig) -> (same: bool)
        ensures
            same == (self@ == other@),
    {
        self.server.address == other.server.address && self.server.username
            == other.server.username
    }
}

impl Default for AppConfig {
    fn default() -> (c: Self)
        ensures
            c@ == default_config(),
    {
        AppConfig { server: ServerConfig { address: String::new(), username: String::new() } }
    }
}

} // verus!
