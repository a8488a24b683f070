//! The ways in which building, signing or verifying a transaction can fail.

use vstd::prelude::*;

verus! {

/// Why an operation on a transaction was abandoned.
#[derive(Debug, Clone, Copy, PartialEq, Eq, Structural)]
pub enum TxError {
    /// The sender's address is not in the wallet store.
    UnknownSender,
    /// The spendable outputs offered add up to less than the amount asked for.
    InsufficientFunds,
    /// An input names a prior transaction that the history does not hold.
    MissingPriorTransaction,
    /// An input names an output position that its prior transaction lacks.
    MissingPriorOutput,
    /// An address does not decode to a version byte, a locking hash and a
    /// four-byte checksum.
    InvalidAddress,
    /// No signature could be made for an input: the signature primitive did
    /// not take the private key document, it failed for a reason of its own
    /// (its random source among them), or the digest to sign was too long to
    /// be hashed.
    SigningFailed,
}

} // verus!
