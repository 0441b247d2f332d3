//! Typed, user-displayable errors of the authentication core. Each enum has a
//! `message` method whose exact text is pinned by its spec.

use vstd::prelude::*;
use vstd::string::StringExecFns;

verus! {

/// Builds `prefix` followed by `rest` in one new string.
pub fn concat_str(prefix: &str, rest: &str) -> (r: String)
    ensures
        r@ == prefix@ + rest@,
{
    let mut r = String::from_str(prefix);
    r.append(rest);
    r
}

/// Errors of the generic API request pass-through.
#[derive(Debug)]
pub enum ApiError {
    NotConfigured(String),
    RequestFailed(String),
}

impl ApiError {
    pub open spec fn message_spec(&self) -> Seq<char> {
        match self {
            ApiError::NotConfigured(s) => "Not configured: "@ + s@,
            ApiError::RequestFailed(s) => "Request failed: "@ + s@,
        }
    }

    pub fn message(&self) -> (r: String)
        ensures
            r@ == self.message_spec(),
    {
        match self {
            ApiError::NotConfigured(s) => concat_str("Not configured: ", s.as_str()),
            ApiError::RequestFailed(s) => concat_str("Request failed: ", s.as_str()),
        }
    }
}

/// Errors of the credential vault.
#[derive(Debug)]
pub enum AuthError {
    KeyringError(String),
    SerializationError(String),
    AccountNotFound(String),
    Internal(String),
}

impl AuthError {
    pub open spec fn message_spec(&self) -> Seq<char> {
        match self {
            AuthError::KeyringError(s) => "Keyring error: "@ + s@,
            AuthError::SerializationError(s) => "Serialization error: "@ + s@,
            AuthError::AccountNotFound(s) => "Account not found: "@ + s@,
            AuthError::Internal(s) => "Internal error: "@ + s@,
        }
    }

    pub fn message(&self) -> (r: String)
        ensures
            r@ == self.message_spec(),
    {
        match self {
            AuthError::KeyringError(s) => concat_str("Keyring error: ", s.as_str()),
            AuthError::SerializationError(s) => concat_str("Serialization error: ", s.as_str()),
            AuthError::AccountNotFound(s) => concat_str("Account not found: ", s.as_str()),
            AuthError::Internal(s) => concat_str("Internal error: ", s.as_str()),
        }
    }
}

/// Errors of discovery and of the authorization flow.
#[derive(Debug)]
pub enum OidcError {
    DiscoveryFailed(String),
    AuthFailed(String),
    TokenExchangeFailed(String),
    RequestFailed(String),
    Timeout,
}

impl OidcError {
    pub open spec fn message_spec(&self) -> Seq<char> {
        match self {
            OidcError::DiscoveryFailed(s) => "Discovery failed: "@ + s@,
            OidcError::AuthFailed(s) => "Authentication failed: "@ + s@,
            OidcError::TokenExchangeFailed(s) => "Token exchange failed: "@ + s@,
            OidcError::RequestFailed(s) => "Request failed: "@ + s@,
            OidcError::Timeout => "Timeout waiting for authentication"@,
        }
    }

    pub fn message(&self) -> (r: String)
        ensures
            r@ == self.message_spec(),
    {
        match self {
            OidcError::DiscoveryFailed(s) => concat_str("Discovery failed: ", s.as_str()),
            OidcError::AuthFailed(s) => concat_str("Authentication failed: ", s.as_str()),
            OidcError::TokenExchangeFailed(s) => concat_str("Token exchange failed: ", s.as_str()),
            OidcError::RequestFailed(s) => concat_str("Request failed: ", s.as_str()),
            OidcError::Timeout => String::from_str("Timeout waiting for authentication"),
        }
    }
}

/// Errors of settings persistence.
#[derive(Debug)]
pub enum SettingsError {
    IoError(String),
    SerializationError(String),
}

impl SettingsError {
    pub open spec fn message_spec(&self) -> Seq<char> {
        match self {
            SettingsError::IoError(s) => "IO error: "@ + s@,
            SettingsError::SerializationError(s) => "Serialization error: "@ + s@,
        }
    }

    pub fn message(&self) -> (r: String)
        ensures
            r@ == self.message_spec(),
    {
        match self {
            SettingsError::IoError(s) => concat_str("IO error: ", s.as_str()),
            SettingsError::SerializationError(s) => concat_str("Serialization error: ", s.as_str()),
        }
    }
}

} // verus!
