//! Extraction of the optional OIDC configuration out of a server's public
//! configuration document, and the exact wording of discovery errors. The
//! document itself is fetched and JSON-decoded at the edge; its relevant
//! fields arrive here as plain values, each recording whether the key was
//! absent, present with a non-string value, or a string.

use vstd::prelude::*;
use vstd::string::StringExecFns;
use crate::codec::dec_digits_spec;
use crate::codec::u64_to_dec;
use crate::errors::concat_str;
use crate::errors::OidcError;

verus! {

/// What a JSON lookup for a given key found.
pub enum JsonStringField {
    Absent,
    NonString,
    Str(String),
}

/// The OIDC settings a server advertises.
pub struct OidcConfig {
    pub authority: String,
    pub client_id: String,
    pub scopes: Option<String>,
}

/// The OIDC-related fields of a configuration document, each under its two
/// accepted key spellings.
pub struct ConfigDoc {
    pub oidc_authority: JsonStringField,
    pub oidc_authority_alt: JsonStringField,
    pub oidc_client_id: JsonStringField,
    pub oidc_client_id_alt: JsonStringField,
    pub oidc_scopes: JsonStringField,
    pub oidc_scopes_alt: JsonStringField,
}

/// The string a pair of key spellings resolves to: the first key wins when
/// it is present at all — a present non-string value yields nothing, even
/// when the second key holds a string.
pub open spec fn resolve_field_spec(f1: JsonStringField, f2: JsonStringField) -> Option<Seq<char>> {
    match f1 {
        JsonStringField::Str(s) => Some(s@),
        JsonStringField::NonString => None,
        JsonStringField::Absent => match f2 {
            JsonStringField::Str(s) => Some(s@),
            _ => None,
        },
    }
}

fn resolve_field(f1: JsonStringField, f2: JsonStringField) -> (r: Option<String>)
    ensures
        r.deep_view() == resolve_field_spec(f1, f2),
{
    match f1 {
        JsonStringField::Str(s) => Some(s),
        JsonStringField::NonString => None,
        JsonStringField::Absent => match f2 {
            JsonStringField::Str(s) => Some(s),
            _ => None,
        },
    }
}

/// Reads the OIDC configuration out of a configuration document: there is
/// one exactly when an authority and a client id resolve and the authority
/// is non-empty; any failure to resolve yields no configuration rather than
/// an error, since OIDC may simply not be configured.
pub fn extract_oidc_config(doc: ConfigDoc) -> (r: Option<OidcConfig>)
    ensures
        ({
            let a = resolve_field_spec(doc.oidc_authority, doc.oidc_authority_alt);
            let c = resolve_field_spec(doc.oidc_client_id, doc.oidc_client_id_alt);
            let sc = resolve_field_spec(doc.oidc_scopes, doc.oidc_scopes_alt);
            match (a, c) {
                (Some(av), Some(cv)) => if av.len() > 0 {
                    r matches Some(cfg) && cfg.authority@ == av && cfg.client_id@ == cv
                        && cfg.scopes.deep_view() == sc
                } else {
                    r is None
                },
                _ => r is None,
            }
        }),
{
    let authority = resolve_field(doc.oidc_authority, doc.oidc_authority_alt);
    let client_id = resolve_field(doc.oidc_client_id, doc.oidc_client_id_alt);
    let scopes = resolve_field(doc.oidc_scopes, doc.oidc_scopes_alt);
    match (authority, client_id) {
        (Some(authority), Some(client_id)) => {
            if authority.as_str().is_empty() {
                None
            } else {
                Some(OidcConfig { authority, client_id, scopes })
            }
        },
        _ => None,
    }
}

/// The error for a server that could not be reached at all.
pub fn discovery_unreachable_error(detail: &str) -> (r: OidcError)
    ensures
        r matches OidcError::DiscoveryFailed(s) && s@ == "Failed to reach server: "@ + detail@,
{
    OidcError::DiscoveryFailed(concat_str("Failed to reach server: ", detail))
}

/// The error for a discovery endpoint that answered with a non-success
/// status.
pub fn discovery_http_error(status: u16) -> (r: OidcError)
    ensures
        r matches OidcError::DiscoveryFailed(s) && s@ == "Server returned HTTP "@
            + dec_digits_spec(status as nat),
{
    let mut m = String::from_str("Server returned HTTP ");
    let digits = u64_to_dec(status as u64);
    m.append(digits.as_str());
    OidcError::DiscoveryFailed(m)
}

/// The error for a discovery document that was not valid JSON.
pub fn discovery_invalid_error(detail: &str) -> (r: OidcError)
    ensures
        r matches OidcError::DiscoveryFailed(s) && s@ == "Invalid discovery response: "@ + detail@,
{
    OidcError::DiscoveryFailed(concat_str("Invalid discovery response: ", detail))
}

} // verus!
