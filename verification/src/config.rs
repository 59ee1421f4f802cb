//! The server's configuration, as read from its JSON configuration file.
use vstd::prelude::*;

use crate::text::{join, joined, strings_view};

verus! {

/// The OpenID Connect client settings for Google sign-in.
pub struct GoogleConfig {
    pub client_id: String,
    pub client_secret: String,
    pub issuer_uri: String,
    pub redirect_uri: String,
    pub scopes: Vec<String>,
}

impl GoogleConfig {
    /// The scope parameter of the authorization request: the scopes
    /// separated by single spaces.
    pub fn scope(&self) -> (r: String)
        ensures
            r@ == joined(strings_view(self.scopes@), seq![' ']),
    {
        proof {
            reveal_strlit(" ");
            assert(" "@ =~= seq![' ']);
        }
        join(self.scopes.as_slice(), " ")
    }
}

/// The settings of the public (no sign-in) provider.
pub struct PublicConfig {
    pub client_id: String,
    pub client_secret: String,
    pub issuer_uri: String,
    pub redirect_uri: String,
    pub scopes: Vec<String>,
}

/// The server's configuration file.
pub struct ServerConfig {
    pub port: u16,
    /// The directory the web client is served from.
    pub serve_dir: String,
    /// The directory documents are stored in.
    pub documents_dir: String,
    pub google: Option<GoogleConfig>,
}

impl ServerConfig {
    /// Whether Google sign-in is configured.
    pub fn google_configured(&self) -> (r: bool)
        ensures
            r == self.google is Some,
    {
        self.google.is_some()
    }
}

/// The query of the Google sign-in callback.
pub struct AuthRequest {
    pub code: String,
}

/// The query of the public sign-in.
pub struct DocId {
    pub doc_id: String,
}

} // verus!
