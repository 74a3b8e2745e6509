//! Verified core of a local fact ledger store: the codecs, identifier
//! ranges and short references, naming rules, search-token bookkeeping,
//! the reading of protocol documents (dependencies, extension events,
//! deliberation objects, lifecycle steps), the cross-object, lineage and
//! roster rules that validation applies, the dependency-closure walk, the
//! projection rows read from documents, and the projection rules that
//! decide effective proposition state and listings.

pub mod codec;
pub mod text;
pub mod names;
pub mod rules;
pub mod ids;
pub mod reference;
pub mod ancestry;
pub mod effective;
pub mod reconciliation;
pub mod lifecycle;
pub mod activity;
pub mod metrics;
pub mod modes;
pub mod tokens;
pub mod error;
pub mod json;
pub mod authority;
pub mod matching;
pub mod extensions;
pub mod objects;
pub mod propositions;
pub mod consensus;
pub mod admission;
pub mod lineage;
pub mod closure;
pub mod roster;
pub mod participation;
pub mod semantics;
pub mod projection;
