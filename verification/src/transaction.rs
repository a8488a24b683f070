//! Transactions: their record, their identifier, and the reward variant.

use vstd::prelude::*;
use crate::address::address_locking_hash;
use vstd::bytes::{lemma_auto_spec_u32_to_from_le_bytes, lemma_auto_spec_u64_to_from_le_bytes};
use vstd::utf8::encode_utf8;
use crate::codec::{
    encodable_parts, encode, encode_input, encode_inputs, encode_output, encode_outputs,
    encode_text, encode_transaction, input_views, output_views,
};
use crate::crypto::{fits_digest, hashable, sha256, sha256_digest};
use crate::error::TxError;
use crate::hex::{hex_of, is_digest_text, lemma_hex_of_shape, to_hex};
use crate::tx_input::{Txinput, TxinputView};
use crate::tx_output::{Txoutput, TxoutputView};

verus! {

/// The amount that a reward transaction issues.
pub const SUBSIDY: i32 = 10;

/// The canonical bytes of a reward transaction without its identifier, not
/// counting the locking hash: the empty identifier (8), the input count (8),
/// the bare input (32), the output count (8), the amount (4) and the length
/// of the locking hash (8).
pub const REWARD_FRAME_LEN: u64 = 68;

/// A transfer of value: inputs that spend prior outputs, outputs that lock
/// the value anew, and an identifier derived from both.
#[derive(Debug, Clone)]
pub struct Transaction {
    pub(crate) id: String,
    pub(crate) vin: Vec<Txinput>,
    pub(crate) vout: Vec<Txoutput>,
}

/// What a transaction holds.
pub ghost struct TransactionView {
    /// The identifier.
    pub id: Seq<char>,
    /// The inputs, in order.
    pub vin: Seq<TxinputView>,
    /// The outputs, in order.
    pub vout: Seq<TxoutputView>,
}

impl View for Transaction {
    type V = TransactionView;

    open(crate) spec fn view(&self) -> TransactionView {
        TransactionView {
            id: self.id@,
            vin: input_views(self.vin@),
            vout: output_views(self.vout@),
        }
    }
}

impl TransactionView {
    /// The canonical bytes of the transaction, identifier included.
    pub open spec fn encoding(self) -> Seq<u8> {
        encode_transaction(self.id, self.vin, self.vout)
    }

    /// Whether every length in the transaction can be written in the
    /// canonical bytes. `set_hash` shows this of the transaction it is
    /// called on.
    pub open spec fn encodable(self) -> bool {
        encodable_parts(self.id, self.vin, self.vout)
    }

    /// The identifier that the transaction's content calls for: the digest of
    /// its canonical bytes in lowercase hexadecimal. The bytes include the
    /// identifier held so far. Bytes too many to be hashed leave the
    /// identifier as it is.
    pub open spec fn content_id(self) -> Seq<char> {
        if hashable(self.encoding().len()) {
            hex_of(sha256(self.encoding()))
        } else {
            self.id
        }
    }

    /// The transaction with another identifier.
    pub open spec fn with_id(self, id: Seq<char>) -> TransactionView {
        TransactionView { id, vin: self.vin, vout: self.vout }
    }

    /// The transaction with its identifier brought up to date.
    pub open spec fn rehashed(self) -> TransactionView {
        self.with_id(self.content_id())
    }

    /// Whether this is a reward transaction: exactly one input, and that
    /// input without a public key.
    pub open spec fn is_coinbase(self) -> bool {
        self.vin.len() == 1 && self.vin[0].pub_key.len() == 0
    }

    /// The copy from which signing digests are derived: every input without
    /// signature and key.
    pub open spec fn trimmed(self) -> TransactionView {
        TransactionView {
            id: self.id,
            vin: Seq::new(self.vin.len(), |i: int| self.vin[i].trimmed()),
            vout: self.vout,
        }
    }

    /// The reward transaction for `pub_key_hash` before it has its
    /// identifier: one bare input, one output of the subsidy.
    pub open spec fn reward_unhashed(pub_key_hash: Seq<u8>) -> TransactionView {
        TransactionView {
            id: Seq::empty(),
            vin: seq![TxinputView::reward()],
            vout: seq![TxoutputView { value: SUBSIDY, pub_key_hash }],
        }
    }

    /// The reward transaction for a recipient whose address names
    /// `pub_key_hash`: the identifier is computed last, over the finished
    /// input and output.
    pub open spec fn reward(pub_key_hash: Seq<u8>) -> TransactionView {
        TransactionView::reward_unhashed(pub_key_hash).rehashed()
    }
}

/// The canonical bytes of a reward transaction without its identifier are
/// the locking hash and `REWARD_FRAME_LEN` bytes around it.
pub proof fn lemma_reward_encoding_len(pub_key_hash: Seq<u8>)
    ensures
        TransactionView::reward_unhashed(pub_key_hash).encoding().len() == REWARD_FRAME_LEN
            + pub_key_hash.len(),
{
    lemma_auto_spec_u64_to_from_le_bytes();
    lemma_auto_spec_u32_to_from_le_bytes();
    let tx = TransactionView::reward_unhashed(pub_key_hash);
    let none = Seq::<char>::empty();
    assert(encode_utf8(none) =~= Seq::<u8>::empty());
    assert(encode_text(none).len() == 8);
    assert(tx.vin.drop_last() =~= Seq::<TxinputView>::empty());
    assert(encode_inputs(tx.vin.drop_last()) =~= Seq::<u8>::empty());
    assert(encode_input(tx.vin.last()).len() == 32);
    assert(encode_inputs(tx.vin).len() == 32);
    assert(tx.vout.drop_last() =~= Seq::<TxoutputView>::empty());
    assert(encode_outputs(tx.vout.drop_last()) =~= Seq::<u8>::empty());
    assert(encode_output(tx.vout.last()).len() == 12 + pub_key_hash.len());
    assert(encode_outputs(tx.vout).len() == 12 + pub_key_hash.len());
}

impl Default for Transaction {
    /// The transaction without identifier, inputs or outputs.
    fn default() -> (tx: Transaction)
        ensures
            tx@ == (TransactionView { id: Seq::empty(), vin: Seq::empty(), vout: Seq::empty() }),
    {
        let tx = Transaction { id: String::new(), vin: Vec::new(), vout: Vec::new() };
        proof {
            assert(tx@.vin =~= Seq::<TxinputView>::empty());
            assert(tx@.vout =~= Seq::<TxoutputView>::empty());
        }
        tx
    }
}

impl Transaction {
    /// A transaction with every field given.
    pub fn from_parts(id: String, vin: Vec<Txinput>, vout: Vec<Txoutput>) -> (tx: Transaction)
        ensures
            tx@ == (TransactionView {
                id: id@,
                vin: input_views(vin@),
                vout: output_views(vout@),
            }),
    {
        Transaction { id, vin, vout }
    }

    /// The reward transaction that issues the subsidy to `to`. Fails with
    /// `InvalidAddress` exactly when `to` names no locking hash. The
    /// identifier is the digest of the finished input and output, sixty-four
    /// lowercase hexadecimal digits, for every locking hash short enough to
    /// be hashed along with the `REWARD_FRAME_LEN` bytes around it.
    pub fn new_coinbase(to: &str) -> (tx: Result<Transaction, TxError>)
        ensures
            match address_locking_hash(to@) {
                Some(hash) => tx.is_ok() && tx.unwrap()@ == TransactionView::reward(hash),
                None => tx == Err::<Transaction, TxError>(TxError::InvalidAddress),
            },
            tx.is_ok() ==> tx.unwrap()@.is_coinbase(),
            tx.is_ok() ==> {
                let hash = address_locking_hash(to@).unwrap();
                &&& TransactionView::reward_unhashed(hash).encoding().len() == REWARD_FRAME_LEN
                    + hash.len()
                &&& hashable((REWARD_FRAME_LEN + hash.len()) as nat) ==> {
                    &&& is_digest_text(tx.unwrap()@.id)
                    &&& tx.unwrap()@.id == hex_of(
                        sha256(TransactionView::reward_unhashed(hash).encoding()),
                    )
                }
            },
    {
        let txin = Txinput::default();
        let txout = match Txoutput::new(SUBSIDY, to) {
            Ok(txout) => txout,
            Err(e) => {
                return Err(e);
            },
        };
        let mut vin: Vec<Txinput> = Vec::new();
        vin.push(txin);
        let mut vout: Vec<Txoutput> = Vec::new();
        vout.push(txout);
        let mut tx = Transaction { id: String::new(), vin, vout };
        proof {
            let hash = address_locking_hash(to@).unwrap();
            assert(tx@.vin =~= seq![TxinputView::reward()]);
            assert(tx@.vout =~= seq![TxoutputView { value: SUBSIDY, pub_key_hash: hash }]);
            lemma_reward_encoding_len(hash);
        }
        tx.set_hash();
        Ok(tx)
    }

    /// Brings the identifier up to date with the content: it becomes the
    /// digest of the canonical bytes, sixty-four lowercase hexadecimal
    /// digits. Bytes too many to be hashed leave it as it is.
    pub fn set_hash(&mut self)
        ensures
            final(self)@ == old(self)@.rehashed(),
            old(self)@.encodable(),
            hashable(old(self)@.encoding().len()) ==> is_digest_text(final(self)@.id),
    {
        let bytes = encode(self.id.as_str(), self.vin.as_slice(), self.vout.as_slice());
        if fits_digest(bytes.len()) {
            let digest = sha256_digest(bytes.as_slice());
            self.id = to_hex(digest.as_slice());
            proof {
                lemma_hex_of_shape(digest@);
            }
        }
    }

    /// Whether this is a reward transaction.
    pub fn is_coinbase(&self) -> (reward: bool)
        ensures
            reward == self@.is_coinbase(),
            reward <==> self@.vin.len() == 1 && self@.vin[0].pub_key.len() == 0,
    {
        self.vin.len() == 1 && self.vin[0].pub_key.len() == 0
    }

    /// The copy from which signing digests are derived.
    pub fn trimmed_copy(&self) -> (copy: Transaction)
        ensures
            copy@ == self@.trimmed(),
    {
        let mut inputs: Vec<Txinput> = Vec::new();
        let mut i: usize = 0;
        while i < self.vin.len()
            invariant
                i <= self.vin.len(),
                inputs.len() == i,
                forall|k: int| 0 <= k < i ==> inputs@[k]@ == self.vin@[k]@.trimmed(),
            decreases self.vin.len() - i,
        {
            inputs.push(self.vin[i].trimmed());
            i = i + 1;
        }
        let mut outputs: Vec<Txoutput> = Vec::new();
        let mut j: usize = 0;
        while j < self.vout.len()
            invariant
                j <= self.vout.len(),
                outputs.len() == j,
                forall|k: int| 0 <= k < j ==> outputs@[k]@ == self.vout@[k]@,
            decreases self.vout.len() - j,
        {
            outputs.push(self.vout[j].duplicate());
            j = j + 1;
        }
        let copy = Transaction { id: self.id.clone(), vin: inputs, vout: outputs };
        proof {
            assert(copy@.vin =~= self@.trimmed().vin);
            assert(copy@.vout =~= self@.trimmed().vout);
        }
        copy
    }

    /// The identifier.
    pub fn get_id(&self) -> (id: String)
        ensures
            id@ == self@.id,
    {
        self.id.clone()
    }

    /// The outputs, in order.
    pub fn get_vout(&self) -> (outputs: &[Txoutput])
        ensures
            output_views(outputs@) == self@.vout,
    {
        self.vout.as_slice()
    }

    /// The inputs, in order.
    pub fn get_vin(&self) -> (inputs: &[Txinput])
        ensures
            input_views(inputs@) == self@.vin,
    {
        self.vin.as_slice()
    }
}

} // verus!
