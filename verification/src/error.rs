//! The error type shared by every fallible operation of the crate.
//!
//! Configuration problems, local network problems, protocol failures and
//! session-selection failures all share one enum, so callers can tell the broad
//! failure category apart (configuration errors versus runtime errors).

use vstd::prelude::*;

use crate::interface::IpAddr;

verus! {

/// Declares `std::io::Error`, the error of operating-system I/O.
#[verifier::external_type_specification]
#[verifier::external_body]
pub struct ExIoError(std::io::Error);

/// Declares `toml::de::Error`, the error of reading the configuration model.
#[verifier::external_type_specification]
#[verifier::external_body]
pub struct ExTomlDeError(toml::de::Error);

/// Declares `reqwest::Error`, the error of the HTTP client.
#[verifier::external_type_specification]
#[verifier::external_body]
pub struct ExReqwestError(reqwest::Error);

/// Top-level error type for configuration, local network, HTTP, crypto and
/// portal protocol failures.
///
/// Variants carry the underlying error where there is one; HTTP statuses are
/// plain status numbers.
#[derive(Debug)]
pub enum PortalError {
    /// The configuration file could not be read.
    ConfigRead { path: String, source: std::io::Error },
    /// The configuration file was not valid TOML for the configuration model.
    ConfigParse { path: String, source: toml::de::Error },
    /// The configuration file could not be parsed as editable TOML.
    ConfigEdit { path: String, source: toml_edit::TomlError },
    /// The configuration file could not be written after an automatic update.
    ConfigWrite { path: String, source: std::io::Error },
    /// Configuration is syntactically valid but semantically unusable.
    InvalidConfig(String),
    /// Building the HTTP client failed.
    HttpClient(reqwest::Error),
    /// Sending an HTTP request or reading its body failed.
    Request(reqwest::Error),
    /// The portal returned a non-success status that could not be interpreted.
    PortalHttpStatus { status: u16, body: String },
    /// A redirect response did not include a `Location` header.
    MissingRedirect,
    /// The redirect probe returned a status outside the supported cases.
    UnsupportedNetworkStatus(u16),
    /// A configured or portal-provided URL could not be parsed.
    UrlParse { url: String, source: url::ParseError },
    /// JSON serialization or deserialization failed.
    Json(serde_json::Error),
    /// Hex decoding failed for an encrypted portal body.
    Hex(hex::FromHexError),
    /// AES-CBC decryption or UTF-8 conversion failed.
    Decrypt,
    /// AES-CBC encryption failed.
    Encrypt,
    /// An HTTP header value contained invalid bytes.
    InvalidHeaderValue(String),
    /// A named local interface did not have a usable IPv4 address.
    InterfaceAddressMissing { name: String },
    /// Inspecting local network interfaces failed.
    InterfaceInspect(std::io::Error),
    /// The portal rejected a login attempt.
    LoginRejected { code: Option<i64>, error: Option<i64>, description: String },
    /// Login reached the device limit and automatic logout was disabled.
    DeviceLimitReached,
    /// No valid session was available for automatic logout.
    NoLogoutCandidate,
    /// Login still reported device-limit after one automatic logout and retry.
    StillOverloaded(String),
    /// A login response did not include the token needed by session APIs.
    MissingToken,
    /// A MAC address could not be normalized.
    InvalidMac(String),
    /// A configured local IP is not a usable IPv4 address.
    InvalidLocalIp(IpAddr),
    /// The configured gateway could not be resolved for route probing.
    GatewayResolve(String),
    /// The current device could not be identified in the session list.
    CurrentSessionNotFound(String),
    /// No session matched a user-provided selector.
    SessionNotFound(String),
    /// A user-provided known-MAC name matched more than one configured MAC.
    AmbiguousSessionName(String),
    /// A spawned task failed to join.
    TaskJoin(String),
}

impl PortalError {
    /// Whether this error reports invalid configuration.
    pub fn is_invalid_config(&self) -> (r: bool)
        ensures
            r == (*self is InvalidConfig),
    {
        match self {
            PortalError::InvalidConfig(_) => true,
            _ => false,
        }
    }
}

} // verus!
