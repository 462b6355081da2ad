//! The library's error type.

use vstd::prelude::*;

verus! {

/// Why a step of a check could not produce a value.
#[derive(Debug)]
pub enum AppError {
    /// A repository call was rejected or failed.
    AtProtoError,
    /// The DNS transport failed; the message describes how.
    DNSError(String),
    /// No usable TXT record was found at the given DNS name.
    MissingTXTError(String),
    /// The given text is not an account identifier.
    DIDError(String),
    /// The given text is not an NSID.
    NsidError(String),
}

} // verus!
