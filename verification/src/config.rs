//! The persisted configuration consumed by a search: the API token and the
//! API server base URL.
//!
//! The values and their rules live here; reading and writing the backing
//! store is the caller's affair, performed outside the library.

use vstd::prelude::*;
use vstd::string::StringExecFns;

verus! {

/// Why configuration handling failed.
#[derive(Debug, Clone, PartialEq, Eq)]
pub enum ConfigError {
    /// The backing store could not be read or written; carries the
    /// description.
    IoError(String),
    /// The backing store held malformed JSON; carries the description.
    JsonError(String),
    /// No API token has been set; searching requires one.
    TokenNotSet,
}

/// The configuration: an optional API token and an optional API server
/// base URL.
pub struct Config {
    /// The bearer credential presented to the service.
    pub api_token: Option<String>,
    /// The server base URL; a well-known default applies when unset.
    pub api_server: Option<String>,
}

impl Default for Config {
    /// A fresh configuration: no token, the well-known server.
    fn default() -> (c: Self)
        ensures
            c.api_token is None,
            c.api_server matches Some(s) && s@ == "https://api.namekit.app"@,
    {
        Config {
            api_token: None,
            api_server: Some(String::from_str("https://api.namekit.app")),
        }
    }
}

impl Config {
    /// Records the API token.  The caller persists the changed
    /// configuration afterwards.
    pub fn set_token(&mut self, token: String) -> (r: Result<(), ConfigError>)
        ensures
            r is Ok,
            final(self).api_token matches Some(t) && t@ == token@,
            final(self).api_server == old(self).api_server,
    {
        self.api_token = Some(token);
        Ok(())
    }

    /// The API token, owed exactly when one has been set; otherwise the
    /// caller is told to set one.
    pub fn get_token(&self) -> (r: Result<String, ConfigError>)
        ensures
            self.api_token matches Some(t) ==> (r matches Ok(rt) && rt@ == t@),
            self.api_token is None ==> r == Err::<String, ConfigError>(ConfigError::TokenNotSet),
    {
        match &self.api_token {
            Some(t) => Ok(t.clone()),
            None => Err(ConfigError::TokenNotSet),
        }
    }

    /// Records the API server base URL.  The caller persists the changed
    /// configuration afterwards.
    pub fn set_api_server(&mut self, server: String) -> (r: Result<(), ConfigError>)
        ensures
            r is Ok,
            final(self).api_server matches Some(s) && s@ == server@,
            final(self).api_token == old(self).api_token,
    {
        self.api_server = Some(server);
        Ok(())
    }

    /// The API server base URL, falling back to the fixed well-known URL
    /// when unset.
    pub fn get_api_server(&self) -> (r: String)
        ensures
            self.api_server matches Some(s) ==> r@ == s@,
            self.api_server is None ==> r@ == "https://api.namedrop.dev"@,
    {
        match &self.api_server {
            Some(s) => s.clone(),
            None => String::from_str("https://api.namedrop.dev"),
        }
    }
}

} // verus!
