//! Plain data carried between the dispatcher, the service layer and its
//! callers: session kinds, error codes, bond records and session tokens.

use vstd::prelude::*;

verus! {

/// The two kinds of long-lived session a caller can hold on one adapter.
#[derive(Clone, Copy, PartialEq, Eq, Structural, Debug)]
pub enum SessionKind {
    /// The adapter is scanning for nearby devices.
    Discovery,
    /// The adapter is visible to nearby devices.
    Discoverable,
}

/// Why a dispatcher or service operation failed.
#[derive(Clone, Copy, PartialEq, Eq, Structural, Debug)]
pub enum ErrorCode {
    /// No adapter with the requested identifier is registered, or the
    /// bounded wait for an adapter elapsed with none available.
    NotFound,
    /// A live session of the requested kind already exists on the adapter.
    AlreadyInProgress,
    /// The operation needs an active adapter and none is designated.
    NoActiveAdapter,
    /// The operation is deliberately unimplemented by this build.
    NotSupported,
}

/// One stored bond: the association between this host and one remote
/// device's long-term key material.
#[derive(Clone, Copy, PartialEq, Eq, Structural, Debug)]
pub struct BondRecord {
    /// Identifier of the remote device the bond is for.
    pub device_id: u64,
    /// Opaque handle to the stored key material for that device.
    pub key: u64,
}

/// A capability witnessing ownership of one live session on one adapter.
///
/// A token is created atomically with flipping the corresponding session
/// flag on, and the flag is flipped off exactly when the token is revoked.
/// The serial is unique over the lifetime of a dispatcher, so a revoked
/// token can never be mistaken for a later one.
#[derive(Clone, Copy, PartialEq, Eq, Structural, Debug)]
pub struct Token {
    /// The adapter the session runs on.
    pub adapter_id: u64,
    /// Which of the two session kinds the token owns.
    pub kind: SessionKind,
    /// Serial number, unique among all tokens a dispatcher ever issued.
    pub serial: u64,
}

} // verus!
