//! The store's refusals that carry no outside error inside them.

use vstd::prelude::*;

verus! {

/// Why the store refused an object or a request.
#[derive(Clone, Copy, Debug, PartialEq, Eq)]
pub enum Error {
    /// object already exists
    Duplicate,
    /// canonical payload does not match COSE embedded payload
    PayloadMismatch,
    /// content hash mismatch
    HashMismatch,
    /// invalid object UUID field
    InvalidUuid(&'static str),
    /// invalid ledger namespace
    InvalidNamespace,
    /// invalid JSON metadata
    Metadata,
    /// signing key dependency is unavailable
    MissingKey,
    /// invalid object signature
    InvalidSignature,
    /// required dependency is unavailable
    MissingDependency,
    /// dependency content hash does not match stored object
    DependencyHashMismatch,
    /// invalid dependency record
    InvalidDependency,
    /// object ledger is unavailable
    MissingLedger,
    /// typed projected does not match canonical object
    ProjectedMismatch,
    /// derived state projected is invalid
    StateProjected,
    /// public key must contain exactly 32 bytes
    InvalidPublicKey,
    /// object is unauthorized at its causal point
    Unauthorized,
    /// authority validity is time-uncertain
    TimeUncertain,
    /// object lineage cannot establish the required target
    InvalidLineage,
    /// object is rejected by local protocol storage policy
    PolicyRejected,
    /// search index failure
    SearchIndex(&'static str),
    /// indexed proposition state is stale
    IndexedPropositionStale,
}

impl Error {
    /// The message of the error, as the store reports it.
    pub fn message(&self) -> (r: String)
        ensures
            r@ == match self {
                Error::Duplicate => "object already exists"@,
                Error::PayloadMismatch => "canonical payload does not match COSE embedded payload"@,
                Error::HashMismatch => "content hash mismatch"@,
                Error::InvalidNamespace => "invalid ledger namespace"@,
                Error::Metadata => "invalid JSON metadata"@,
                Error::MissingKey => "signing key dependency is unavailable"@,
                Error::InvalidSignature => "invalid object signature"@,
                Error::MissingDependency => "required dependency is unavailable"@,
                Error::DependencyHashMismatch => "dependency content hash does not match stored object"@,
                Error::InvalidDependency => "invalid dependency record"@,
                Error::MissingLedger => "object ledger is unavailable"@,
                Error::ProjectedMismatch => "typed projected does not match canonical object"@,
                Error::StateProjected => "derived state projected is invalid"@,
                Error::InvalidPublicKey => "public key must contain exactly 32 bytes"@,
                Error::Unauthorized => "object is unauthorized at its causal point"@,
                Error::TimeUncertain => "authority validity is time-uncertain"@,
                Error::InvalidLineage => "object lineage cannot establish the required target"@,
                Error::PolicyRejected => "object is rejected by local protocol storage policy"@,
                Error::IndexedPropositionStale => "indexed proposition state is stale"@,
                Error::InvalidUuid(field) => "invalid object UUID field: "@ + field@,
                Error::SearchIndex(what) => "search index: "@ + what@,
            },
    {
        match self {
            Error::Duplicate => "object already exists".to_owned(),
            Error::PayloadMismatch => "canonical payload does not match COSE embedded payload".to_owned(),
            Error::HashMismatch => "content hash mismatch".to_owned(),
            Error::InvalidUuid(field) => {
                let mut m = "invalid object UUID field: ".to_owned();
                m.append(field);
                m
            },
            Error::InvalidNamespace => "invalid ledger namespace".to_owned(),
            Error::Metadata => "invalid JSON metadata".to_owned(),
            Error::MissingKey => "signing key dependency is unavailable".to_owned(),
            Error::InvalidSignature => "invalid object signature".to_owned(),
            Error::MissingDependency => "required dependency is unavailable".to_owned(),
            Error::DependencyHashMismatch => "dependency content hash does not match stored object".to_owned(),
            Error::InvalidDependency => "invalid dependency record".to_owned(),
            Error::MissingLedger => "object ledger is unavailable".to_owned(),
            Error::ProjectedMismatch => "typed projected does not match canonical object".to_owned(),
            Error::StateProjected => "derived state projected is invalid".to_owned(),
            Error::InvalidPublicKey => "public key must contain exactly 32 bytes".to_owned(),
            Error::Unauthorized => "object is unauthorized at its causal point".to_owned(),
            Error::TimeUncertain => "authority validity is time-uncertain".to_owned(),
            Error::InvalidLineage => "object lineage cannot establish the required target".to_owned(),
            Error::PolicyRejected => "object is rejected by local protocol storage policy".to_owned(),
            Error::SearchIndex(what) => {
                let mut m = "search index: ".to_owned();
                m.append(what);
                m
            },
            Error::IndexedPropositionStale => "indexed proposition state is stale".to_owned(),
        }
    }
}

} // verus!
