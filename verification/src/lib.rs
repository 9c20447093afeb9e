//! Host-side arbitration layer for Bluetooth Generic Access Profile
//! operations.
//!
//! The crate models the component that owns the notion of "the active
//! adapter": it keeps a registry of connected adapters, designates at most
//! one of them as active, issues and revokes capability tokens for
//! long-lived sessions (discovery in progress, discoverable to others),
//! merges bonded-device records, and routes pairing-delegate registrations.
//! On top of the dispatcher sits a per-connection service state machine
//! that turns decoded requests into responses and ties session tokens to
//! the connection that requested them.

pub mod adapter;
pub mod bonder_service;
pub mod dispatcher;
pub mod types;
