//! A platform for issuing commemorative non-fungible tokens: a token ledger
//! with a modern and a legacy protocol, a registry of provisioned ledgers and
//! the rules by which groups and events hand one token to each participant.
//!
//! Everything here is a function of plain values. Clock readings, caller
//! identities and the replies of other services are handed in by the caller.

pub mod account;
pub mod aggregation;
pub mod archive;
pub mod approve;
pub mod burn;
pub mod cycles;
pub mod digest;
pub mod errors;
pub mod events;
pub mod ext_types;
pub mod factory;
pub mod groups;
pub mod icrc7_types;
pub mod identity;
pub mod issuance;
pub mod laws;
pub mod legacy;
pub mod legacy_queries;
pub mod memory;
pub mod mint;
pub mod queries;
pub mod state;
pub mod text_map;
pub mod token;
pub mod transfer;
pub mod types;
pub mod uuid;
