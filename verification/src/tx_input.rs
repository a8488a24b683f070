//! Transaction inputs: references to the prior outputs being spent.

use vstd::prelude::*;
use crate::bytes::copy_bytes;

verus! {

/// One input of a transaction.
#[derive(Debug, Clone)]
pub struct Txinput {
    pub(crate) txid: String,
    pub(crate) vout: usize,
    pub(crate) signature: Vec<u8>,
    pub(crate) pub_key: Vec<u8>,
}

/// What an input holds.
pub ghost struct TxinputView {
    /// The identifier of the transaction whose output is spent.
    pub txid: Seq<char>,
    /// The position of that output among the prior transaction's outputs.
    pub vout: usize,
    /// The authorization, empty until the input is signed.
    pub signature: Seq<u8>,
    /// The public key of the claimed spender; empty marks a reward input.
    pub pub_key: Seq<u8>,
}

impl View for Txinput {
    type V = TxinputView;

    open(crate) spec fn view(&self) -> TxinputView {
        TxinputView {
            txid: self.txid@,
            vout: self.vout,
            signature: self.signature@,
            pub_key: self.pub_key@,
        }
    }
}

impl TxinputView {
    /// The input of a reward transaction: no reference, no key, no signature.
    pub open spec fn reward() -> TxinputView {
        TxinputView { txid: Seq::empty(), vout: 0, signature: Seq::empty(), pub_key: Seq::empty() }
    }

    /// This input with its signature and key cleared.
    pub open spec fn trimmed(self) -> TxinputView {
        TxinputView {
            txid: self.txid,
            vout: self.vout,
            signature: Seq::empty(),
            pub_key: Seq::empty(),
        }
    }

    /// This input with another signature.
    pub open spec fn with_signature(self, signature: Seq<u8>) -> TxinputView {
        TxinputView { txid: self.txid, vout: self.vout, signature, pub_key: self.pub_key }
    }

    /// This input with another key.
    pub open spec fn with_pub_key(self, pub_key: Seq<u8>) -> TxinputView {
        TxinputView { txid: self.txid, vout: self.vout, signature: self.signature, pub_key }
    }
}

impl Default for Txinput {
    /// The input of a reward transaction.
    fn default() -> (input: Txinput)
        ensures
            input@ == TxinputView::reward(),
    {
        Txinput { txid: String::new(), vout: 0, signature: Vec::new(), pub_key: Vec::new() }
    }
}

impl Txinput {
    /// An unsigned input that spends output `vout` of transaction `txid` on
    /// behalf of `pub_key`.
    pub fn new(txid: String, vout: usize, pub_key: Vec<u8>) -> (input: Txinput)
        ensures
            input@ == (TxinputView { txid: txid@, vout, signature: Seq::empty(), pub_key: pub_key@ }),
    {
        Txinput { txid, vout, signature: Vec::new(), pub_key }
    }

    /// An input with every field given.
    pub fn from_parts(txid: String, vout: usize, signature: Vec<u8>, pub_key: Vec<u8>) -> (input:
        Txinput)
        ensures
            input@ == (TxinputView {
                txid: txid@,
                vout,
                signature: signature@,
                pub_key: pub_key@,
            }),
    {
        Txinput { txid, vout, signature, pub_key }
    }

    /// The identifier of the prior transaction.
    pub fn get_txid(&self) -> (txid: String)
        ensures
            txid@ == self@.txid,
    {
        self.txid.clone()
    }

    /// The position of the prior output.
    pub fn get_vout(&self) -> (vout: usize)
        ensures
            vout == self@.vout,
    {
        self.vout
    }

    /// The public key of the claimed spender.
    pub fn get_pub_key(&self) -> (pub_key: &[u8])
        ensures
            pub_key@ == self@.pub_key,
    {
        self.pub_key.as_slice()
    }

    /// The attached signature.
    pub fn get_signature(&self) -> (signature: &[u8])
        ensures
            signature@ == self@.signature,
    {
        self.signature.as_slice()
    }

    /// Replaces the signature.
    pub fn set_signature(&mut self, signature: Vec<u8>)
        ensures
            final(self)@ == old(self)@.with_signature(signature@),
    {
        self.signature = signature;
    }

    /// Replaces the public key.
    pub fn set_pub_key(&mut self, pub_key: &[u8])
        ensures
            final(self)@ == old(self)@.with_pub_key(pub_key@),
    {
        self.pub_key = copy_bytes(pub_key);
    }

    /// A copy of this input with signature and key cleared.
    pub fn trimmed(&self) -> (input: Txinput)
        ensures
            input@ == self@.trimmed(),
    {
        Txinput::new(self.txid.clone(), self.vout, Vec::new())
    }

    /// A copy of this input.
    pub fn duplicate(&self) -> (input: Txinput)
        ensures
            input@ == self@,
    {
        Txinput {
            txid: self.txid.clone(),
            vout: self.vout,
            signature: copy_bytes(self.signature.as_slice()),
            pub_key: copy_bytes(self.pub_key.as_slice()),
        }
    }
}

} // verus!
