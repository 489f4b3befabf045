//! The error taxonomy of the resolution engine.
//!
//! Every failure aborts a single package's check; nothing here is retried.

use vstd::prelude::*;

verus! {

/// A problem with the configuration handed to a strategy; always fatal.
#[derive(Debug, Clone, PartialEq, Eq)]
pub enum ConfigError {
    /// A required key is absent: the key and a human description of it.
    MissingField(String, String),
    /// The `type` key named no known strategy.
    UnknownBackend(String),
    /// A field was present but malformed (for instance a non-numeric id).
    InvalidField(String),
    /// A regular-expression pattern did not compile.
    InvalidPattern(String),
    /// The strategy needs a credential and none was configured.
    MissingCredential,
}

/// A failure of the HTTP exchange itself.
#[derive(Debug, Clone, PartialEq, Eq)]
pub enum FetchError {
    /// The remote answered with a non-2xx status code.
    HttpStatus(u16),
    /// The declared body length exceeded the configured cap.
    BodyTooLarge,
    /// A transport-level failure (connection, DNS, TLS).
    Transport(String),
}

/// The response arrived but could not be understood.
#[derive(Debug, Clone, PartialEq, Eq)]
pub enum ProtocolError {
    /// The Git reference advertisement broke the pkt-line grammar.
    MalformedPktLine,
    /// A JSON or HTML payload did not have the expected shape.
    MalformedResponse(String),
}

/// Any failure of one package's version resolution.
#[derive(Debug, Clone, PartialEq, Eq)]
pub enum CheckError {
    Config(ConfigError),
    Fetch(FetchError),
    Protocol(ProtocolError),
    /// The strategy produced zero candidate versions after filtering;
    /// carries context such as the repository or instance looked at.
    EmptyResult(String),
    /// The aggregator returned data for a project id other than the one asked.
    Mismatch,
}

} // verus!
