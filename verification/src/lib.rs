//! A verified ledger-state core combining crowdfunding campaigns,
//! peer-to-peer micro-lending, a verification/ban registry, and a
//! member-voting treasury.
//!
//! The host platform resolves caller identities, holds attached value,
//! supplies timestamps and carries out value transfers; every public
//! operation here therefore takes the caller, the attached value and the
//! current time as plain arguments, and reports requested transfers as
//! [`types::Transfer`] records in its result.

pub mod campaigns;
pub mod dao;
pub mod keyed;
pub mod kyc;
pub mod laws;
pub mod loans;
pub mod types;
pub mod users;
