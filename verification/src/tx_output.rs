//! Transaction outputs: amounts locked to the hash of a recipient's key.

use vstd::prelude::*;
use crate::address::{address_locking_hash, locking_hash_of_address};
use crate::bytes::copy_bytes;
use crate::error::TxError;

verus! {

/// One output of a transaction.
#[derive(Debug, Clone)]
pub struct Txoutput {
    pub(crate) value: i32,
    pub(crate) pub_key_hash: Vec<u8>,
}

/// What an output holds.
pub ghost struct TxoutputView {
    /// The amount.
    pub value: i32,
    /// The hash of the public key that may spend the amount.
    pub pub_key_hash: Seq<u8>,
}

impl View for Txoutput {
    type V = TxoutputView;

    open(crate) spec fn view(&self) -> TxoutputView {
        TxoutputView { value: self.value, pub_key_hash: self.pub_key_hash@ }
    }
}

impl Txoutput {
    /// An output of `value` locked to the recipient that `address` names.
    /// Fails with `InvalidAddress` exactly when the address names none.
    pub fn new(value: i32, address: &str) -> (output: Result<Txoutput, TxError>)
        ensures
            match address_locking_hash(address@) {
                Some(hash) => output.is_ok() && output.unwrap()@ == (TxoutputView {
                    value,
                    pub_key_hash: hash,
                }),
                None => output == Err::<Txoutput, TxError>(TxError::InvalidAddress),
            },
    {
        match locking_hash_of_address(address) {
            Some(pub_key_hash) => Ok(Txoutput { value, pub_key_hash }),
            None => Err(TxError::InvalidAddress),
        }
    }

    /// An output of `value` locked to `pub_key_hash`.
    pub fn from_parts(value: i32, pub_key_hash: Vec<u8>) -> (output: Txoutput)
        ensures
            output@ == (TxoutputView { value, pub_key_hash: pub_key_hash@ }),
    {
        Txoutput { value, pub_key_hash }
    }

    /// The amount.
    pub fn get_value(&self) -> (value: i32)
        ensures
            value == self@.value,
    {
        self.value
    }

    /// The locking hash.
    pub fn get_pub_key_hash(&self) -> (hash: &[u8])
        ensures
            hash@ == self@.pub_key_hash,
    {
        self.pub_key_hash.as_slice()
    }

    /// A copy of this output.
    pub fn duplicate(&self) -> (output: Txoutput)
        ensures
            output@ == self@,
    {
        Txoutput { value: self.value, pub_key_hash: copy_bytes(self.pub_key_hash.as_slice()) }
    }
}

} // verus!
