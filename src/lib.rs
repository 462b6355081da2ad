//! Checks that the namespaced schema identifiers (NSIDs) of an AT Protocol
//! repository are authoritatively published: the NSID's domain authority
//! delegates, through a DNS TXT record, to an account whose repository holds a
//! schema record for exactly that NSID.
//!
//! The network work (the DNS query, the paginated listing of schema records,
//! the description of a repository) is performed by the caller; this library
//! decides what to ask for next and what the answers mean.

pub mod error;
pub mod text;
pub mod ident;
pub mod dns;
pub mod atproto;
pub mod verdicts;
pub mod engine;
pub mod laws;
