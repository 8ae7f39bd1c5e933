//! The library's error type.
use vstd::prelude::*;

use serde_json::Error as JsonError;
use toml::de::Error as TomlDecodeError;
use toml::ser::Error as TomlEncodeError;

verus! {

/// `std::io::Error`, carried opaquely by [`Error::Io`].
#[verifier::external_type_specification]
#[verifier::external_body]
pub struct ExIoError(std::io::Error);

/// `serde_json::Error`, carried opaquely by [`Error::Json`].
#[verifier::external_type_specification]
#[verifier::external_body]
pub struct ExJsonError(JsonError);

/// `toml::de::Error`, carried opaquely by [`Error::Toml`].
#[verifier::external_type_specification]
#[verifier::external_body]
pub struct ExTomlDeError(TomlDecodeError);

/// `toml::ser::Error`, carried opaquely by [`Error::TomlSer`].
#[verifier::external_type_specification]
#[verifier::external_body]
pub struct ExTomlSerError(TomlEncodeError);

/// Everything that can go wrong in the library and around it.
#[derive(Debug)]
pub enum Error {
    /// Reading or writing a file or the IPC socket failed.
    Io(std::io::Error),
    /// JSON could not be read or written.
    Json(JsonError),
    /// The configuration file could not be decoded.
    Toml(TomlDecodeError),
    /// The configuration could not be encoded.
    TomlSer(TomlEncodeError),
    /// No application matches the query; the message is the query, or
    /// `empty query`.
    ApplicationNotFound(String),
    /// The Discord IPC exchange failed.
    Rpc(String),
    /// The configuration directories are unavailable.
    Config(String),
}

} // verus!
