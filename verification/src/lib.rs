//! Construction, canonical hashing, signing and verification of ledger
//! transactions in an unspent-output value-transfer model.

pub mod address;
pub mod bytes;
pub mod canonical;
pub mod codec;
pub mod crypto;
pub mod error;
pub mod hex;
pub mod history;
pub mod signing;
pub mod spend;
pub mod transaction;
pub mod tx_input;
pub mod tx_output;
pub mod wallets;

pub use error::TxError;
pub use history::TxHistory;
pub use spend::{OutputRef, SpendableOutputs};
pub use transaction::Transaction;
pub use tx_input::Txinput;
pub use tx_output::Txoutput;
pub use wallets::{Wallet, Wallets};
