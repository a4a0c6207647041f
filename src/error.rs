//! Why the reconciliation of a domain, or a whole run, did not go through.

use vstd::prelude::*;

verus! {

/// A failure reported by the DNS provider: the HTTP status, when there was
/// one, and the provider's message.
#[derive(Debug, Clone, PartialEq, Eq)]
pub struct ProviderError {
    pub status: Option<u16>,
    pub message: String,
}

/// The failures of a run. `AddressLookup` and `ClientBuild` end the whole
/// run; the others end the processing of one domain only.
#[derive(Debug, Clone, PartialEq, Eq)]
pub enum ReconcileError {
    /// The name has fewer than two dot-separated labels.
    InvalidDomain,
    /// The provider holds no zone for the root domain carried here.
    ZoneNotFound(String),
    /// A call to the provider failed.
    Provider(ProviderError),
    /// The current public address could not be found.
    AddressLookup(String),
    /// A provider handle could not be built from a zone's credentials.
    ClientBuild(String),
}

} // verus!
