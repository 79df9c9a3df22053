//! The application's configuration, as loaded from files and the
//! environment.

use std::collections::HashMap;
use vstd::prelude::*;

verus! {

/// The configuration of one OpenID provider.
#[derive(Clone, Debug, PartialEq)]
pub struct ProviderConfig {
    /// Url used by the OpenID discovery step to get all necessary fields.
    pub issuer_url: String,
    /// Client ID, given by the provider.
    pub client_id: String,
    /// Client secret, given by the provider.
    pub client_secret: String,
}

/// The OpenID part of the configuration.
#[derive(Clone, Debug)]
pub struct OpenIdConfig {
    /// Url of the frontend.
    pub host_url: String,
    /// Each configured provider, by name.
    pub providers: HashMap<String, ProviderConfig>,
}

/// The whole configuration of the application.
#[derive(Clone, Debug)]
pub struct GdlkConfig {
    /// The hostname for the HTTP server to bind to.
    pub server_host: String,
    /// The secret key used for authorization-related cryptography.
    pub secret_key: String,
    /// All configuration related to OpenID.
    pub open_id: OpenIdConfig,
}

} // verus!
