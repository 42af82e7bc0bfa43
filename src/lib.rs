//! Continuous payment streams: escrowed funds released from a sender to a
//! recipient over a time window, with pausing, delegation, top-up deposits and
//! two-party early termination; and a one-shot distributor that splits a
//! sender's tokens among many recipients.
//!
//! The library decides; the host acts. Operations take the principal whose
//! signature the host has checked and the ledger time, and hand back the token
//! transfers and events the host is to carry out.

pub mod types;
pub mod vesting;
pub mod auth;
pub mod contract;
pub mod laws;
pub mod distributor;
