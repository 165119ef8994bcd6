//! The error type shared by the resolver, the cache and the installer.

use vstd::prelude::*;

verus! {

/// Everything that can go wrong while resolving, caching or installing a
/// package. Variants that arise at an I/O boundary carry the underlying
/// failure as text.
#[derive(Debug)]
pub enum Error {
    /// A filesystem-level failure, as text.
    Io(String),
    /// A definition or configuration was malformed or incomplete.
    Config(String),
    /// A name lookup missed: no definition with that name is loaded.
    PackageNotFound(String),
    /// An installation strategy failed; carries a human-readable cause.
    InstallationFailed(String),
    /// A network transport or status failure, as text.
    Network(String),
    /// A structured-data (de)serialization failure, as text.
    Serialization(String),
    /// A markup-document (de)serialization failure, as text.
    Yaml(String),
    /// The batched system-dependency install command failed.
    CommandFailed { message: String },
    /// An operation was refused for lack of privileges.
    PermissionDenied { operation: String },
    /// A dependency-graph inconsistency, such as a cycle.
    Dependency(String),
}

/// Appends `suffix` to a fresh copy of `prefix`.
pub fn concat_str(prefix: &str, suffix: &str) -> (r: String)
    ensures
        r@ == prefix@ + suffix@,
{
    let mut s = prefix.to_owned();
    s.append(suffix);
    s
}

impl Error {
    /// A short description of the error, with its payload appended.
    pub fn message(&self) -> (r: String)
        ensures
            r@ == self.message_spec(),
    {
        match self {
            Error::Io(s) => concat_str("IO error: ", s.as_str()),
            Error::Config(s) => concat_str("Configuration error: ", s.as_str()),
            Error::PackageNotFound(s) => concat_str("Package not found: ", s.as_str()),
            Error::InstallationFailed(s) => concat_str("Installation failed: ", s.as_str()),
            Error::Network(s) => concat_str("Network error: ", s.as_str()),
            Error::Serialization(s) => concat_str("Serialization error: ", s.as_str()),
            Error::Yaml(s) => concat_str("YAML error: ", s.as_str()),
            Error::CommandFailed { message } => {
                concat_str("System command failed: ", message.as_str())
            },
            Error::PermissionDenied { operation } => {
                concat_str("Permission denied: ", operation.as_str())
            },
            Error::Dependency(s) => concat_str("Dependency error: ", s.as_str()),
        }
    }

    /// What `message` returns, variant by variant.
    pub open spec fn message_spec(&self) -> Seq<char> {
        match self {
            Error::Io(s) => "IO error: "@ + s@,
            Error::Config(s) => "Configuration error: "@ + s@,
            Error::PackageNotFound(s) => "Package not found: "@ + s@,
            Error::InstallationFailed(s) => "Installation failed: "@ + s@,
            Error::Network(s) => "Network error: "@ + s@,
            Error::Serialization(s) => "Serialization error: "@ + s@,
            Error::Yaml(s) => "YAML error: "@ + s@,
            Error::CommandFailed { message } => "System command failed: "@ + message@,
            Error::PermissionDenied { operation } => "Permission denied: "@ + operation@,
            Error::Dependency(s) => "Dependency error: "@ + s@,
        }
    }
}

} // verus!
