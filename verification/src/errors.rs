//! Error kinds surfaced by the library.

use vstd::prelude::*;

verus! {

/// Every failure that the library reports to its caller.
///
/// The directory loaders, the cache-freshness classifier and the HTTP layer
/// all share this one enum; each function states in its contract exactly
/// which variant it returns on which input.
#[derive(Debug, Clone)]
pub enum Error {
    /// The authority file is missing or malformed.
    Config,
    /// A file in the cache failed to parse, signature-check or hex-decode,
    /// or the cache is structurally inconsistent.  The payload names the
    /// reason.
    CacheCorruption(String),
    /// A document's validity interval does not cover the current time.
    UntimelyObject,
    /// The signers of the consensus are not all in the trusted set.
    UnrecognizedAuthorities,
    /// The assembled directory is insufficient; no circuits are possible.
    DirectoryNotPresent,
    /// Transport failure during refresh or an anonymized connect/read/write.
    NetworkError,
    /// The send retries were exhausted without an answer.
    NoResponse,
    /// The caller asked for a protocol version other than HTTP/1.0.
    UnsupportedVersion,
    /// The response read from the stream is truncated or malformed.
    InvalidResponse(String),
    /// Reconfiguration was requested for a field that cannot change.
    CannotChange(String),
}

impl Error {
    /// Render the error as a human-readable line, in the same style the
    /// directory manager uses ("Corrupt cache: <reason>").
    pub fn describe(&self) -> (s: String)
        ensures
            self is Config ==> s@ == "invalid authority configuration"@,
            self matches Error::CacheCorruption(r) ==> s@ == "Corrupt cache: "@ + r@,
            self is UntimelyObject ==> s@ == "Untimely object"@,
            self is UnrecognizedAuthorities ==> s@ == "Unrecognized authorities signed the consensus"@,
            self is DirectoryNotPresent ==> s@ == "No directory available"@,
            self is NetworkError ==> s@ == "Network failure"@,
            self is NoResponse ==> s@ == "No response after all retries"@,
            self is UnsupportedVersion ==> s@ == "only supports HTTP version 1.0"@,
            self matches Error::InvalidResponse(r) ==> s@ == "invalid HTTP response: "@ + r@,
            self matches Error::CannotChange(f) ==> s@ == "Cannot change field: "@ + f@,
    {
        match self {
            Error::Config => String::from_str("invalid authority configuration"),
            Error::CacheCorruption(r) => String::from_str("Corrupt cache: ").concat(r.as_str()),
            Error::UntimelyObject => String::from_str("Untimely object"),
            Error::UnrecognizedAuthorities => {
                String::from_str("Unrecognized authorities signed the consensus")
            },
            Error::DirectoryNotPresent => String::from_str("No directory available"),
            Error::NetworkError => String::from_str("Network failure"),
            Error::NoResponse => String::from_str("No response after all retries"),
            Error::UnsupportedVersion => String::from_str("only supports HTTP version 1.0"),
            Error::InvalidResponse(r) => {
                String::from_str("invalid HTTP response: ").concat(r.as_str())
            },
            Error::CannotChange(f) => String::from_str("Cannot change field: ").concat(f.as_str()),
        }
    }
}

} // verus!
