//! Spend construction: from the sender's wallet and the spendable outputs
//! that the index offers to a signed transaction with payment and change.

use vstd::prelude::*;
use crate::address::address_locking_hash;
use crate::bytes::copy_bytes;
use vstd::utf8::encode_utf8;
use crate::crypto::{
    hash_pub_key, hashable, pkcs8_public_key, pub_key_hash, signature_valid, SIGNATURE_LEN,
};
use crate::error::TxError;
use crate::hex::is_digest_text;
use crate::history::TxHistory;
use crate::signing::{
    correctly_signed, first_unresolved, lemma_digests_follow_trimmed_copy,
    lemma_signatures_leave_trimmed_copy, lemma_verify_accepts_exactly_the_signed,
    same_but_signatures, signing_digest, verify_outcome,
};
use crate::transaction::{Transaction, TransactionView};
use crate::tx_input::{Txinput, TxinputView};
use crate::tx_output::{Txoutput, TxoutputView};
use crate::wallets::{wallet_of, WalletEntryView, Wallets};

verus! {

/// A reference to one output of a recorded transaction.
#[derive(Debug, Clone)]
pub struct OutputRef {
    /// The identifier of the transaction.
    pub txid: String,
    /// The position of the output among the transaction's outputs.
    pub vout: usize,
}

/// What an output reference holds.
pub ghost struct OutputRefView {
    /// The identifier of the transaction.
    pub txid: Seq<char>,
    /// The position of the output.
    pub vout: usize,
}

impl View for OutputRef {
    type V = OutputRefView;

    open spec fn view(&self) -> OutputRefView {
        OutputRefView { txid: self.txid@, vout: self.vout }
    }
}

/// The answer of the spendable-output index to a request for funds: the
/// outputs it chose and the value they add up to.
#[derive(Debug, Clone)]
pub struct SpendableOutputs {
    /// The total value of the outputs chosen.
    pub accumulated: i32,
    /// The outputs chosen, in the order in which they become inputs.
    pub outputs: Vec<OutputRef>,
}

/// What an answer of the index holds.
pub ghost struct SpendableOutputsView {
    /// The total value of the outputs chosen.
    pub accumulated: i32,
    /// The outputs chosen.
    pub outputs: Seq<OutputRefView>,
}

impl View for SpendableOutputs {
    type V = SpendableOutputsView;

    open spec fn view(&self) -> SpendableOutputsView {
        SpendableOutputsView {
            accumulated: self.accumulated,
            outputs: Seq::new(self.outputs@.len(), |i: int| self.outputs@[i]@),
        }
    }
}

/// The sum of the values of a list of outputs.
pub open spec fn total_value(outputs: Seq<TxoutputView>) -> int
    decreases outputs.len(),
{
    if outputs.len() == 0 {
        0
    } else {
        total_value(outputs.drop_last()) + outputs.last().value
    }
}

/// One unsigned input for each output chosen, each with the sender's key.
pub open spec fn spend_inputs(chosen: Seq<OutputRefView>, public_key: Seq<u8>) -> Seq<TxinputView> {
    Seq::new(
        chosen.len(),
        |i: int|
            TxinputView {
                txid: chosen[i].txid,
                vout: chosen[i].vout,
                signature: Seq::empty(),
                pub_key: public_key,
            },
    )
}

/// The payment, followed by the change where the funds exceed the amount.
pub open spec fn spend_outputs(
    amount: i32,
    accumulated: i32,
    to_lock: Seq<u8>,
    from_lock: Seq<u8>,
) -> Seq<TxoutputView> {
    if accumulated > amount {
        seq![
            TxoutputView { value: amount, pub_key_hash: to_lock },
            TxoutputView { value: (accumulated - amount) as i32, pub_key_hash: from_lock },
        ]
    } else {
        seq![TxoutputView { value: amount, pub_key_hash: to_lock }]
    }
}

/// The locking hash of an address, empty where it names none.
pub open spec fn lock_bytes(address: Seq<char>) -> Seq<u8> {
    match address_locking_hash(address) {
        Some(lock) => lock,
        None => Seq::empty(),
    }
}

/// The spend before it has its identifier and its signatures: one input for
/// each output chosen, then the payment and the change.
pub open spec fn spend_unhashed(
    from: Seq<char>,
    to: Seq<char>,
    amount: i32,
    public_key: Seq<u8>,
    spendable: SpendableOutputsView,
) -> TransactionView {
    TransactionView {
        id: Seq::empty(),
        vin: spend_inputs(spendable.outputs, public_key),
        vout: spend_outputs(amount, spendable.accumulated, lock_bytes(to), lock_bytes(from)),
    }
}

/// The locking hash under which the outputs that `from` may spend are to
/// be looked up in the index, or `UnknownSender` where `from` has no
/// wallet.
pub open spec fn sender_lock_of(from: Seq<char>, wallets: Seq<WalletEntryView>) -> Result<
    Seq<u8>,
    TxError,
> {
    match wallet_of(wallets, from) {
        None => Err(TxError::UnknownSender),
        Some(wallet) => Ok(pub_key_hash(wallet.public_key)),
    }
}

/// Whether the wallet of `from`, if there is one, has a public key short
/// enough to be hashed.
pub open spec fn sender_key_hashable(from: Seq<char>, wallets: Seq<WalletEntryView>) -> bool {
    match wallet_of(wallets, from) {
        None => true,
        Some(wallet) => hashable(wallet.public_key.len()),
    }
}

/// Whether the wallet of `from`, if there is one, holds the public key of
/// its own private key document.
pub open spec fn sender_keys_match(from: Seq<char>, wallets: Seq<WalletEntryView>) -> bool {
    match wallet_of(wallets, from) {
        None => true,
        Some(wallet) => wallet.keys_match(),
    }
}

/// The unsigned transaction that pays `amount` from `from` to `to`, or why
/// there is none: the sender has no wallet; the funds fall short; the
/// recipient's address, or the sender's where change is due, names no
/// locking hash. The checks are made in this order.
pub open spec fn spend_draft(
    from: Seq<char>,
    to: Seq<char>,
    amount: i32,
    wallets: Seq<WalletEntryView>,
    spendable: SpendableOutputsView,
) -> Result<TransactionView, TxError> {
    match wallet_of(wallets, from) {
        None => Err(TxError::UnknownSender),
        Some(wallet) => if spendable.accumulated < amount {
            Err(TxError::InsufficientFunds)
        } else if address_locking_hash(to) is None {
            Err(TxError::InvalidAddress)
        } else if spendable.accumulated > amount && address_locking_hash(from) is None {
            Err(TxError::InvalidAddress)
        } else {
            Ok(spend_unhashed(from, to, amount, wallet.public_key, spendable).rehashed())
        },
    }
}

/// The outputs of a spend add up to the funds; change is there exactly when
/// the funds exceed the amount, and is their difference.
pub proof fn lemma_spend_conserves_funds(
    amount: i32,
    accumulated: i32,
    to_lock: Seq<u8>,
    from_lock: Seq<u8>,
)
    requires
        accumulated >= amount,
        accumulated - amount <= i32::MAX,
    ensures
        total_value(spend_outputs(amount, accumulated, to_lock, from_lock)) == accumulated,
        spend_outputs(amount, accumulated, to_lock, from_lock)[0].value == amount,
        spend_outputs(amount, accumulated, to_lock, from_lock).len() == (if accumulated > amount {
            2nat
        } else {
            1nat
        }),
        accumulated > amount ==> spend_outputs(amount, accumulated, to_lock, from_lock)[1].value
            == accumulated - amount,
{
    let outputs = spend_outputs(amount, accumulated, to_lock, from_lock);
    if accumulated > amount {
        let first = outputs.drop_last();
        assert(first.len() == 1);
        assert(first.drop_last().len() == 0);
        assert(total_value(first.drop_last()) == 0);
        assert(total_value(first) == amount);
        assert(total_value(outputs) == amount + (accumulated - amount));
    } else {
        assert(outputs.drop_last().len() == 0);
        assert(total_value(outputs.drop_last()) == 0);
        assert(total_value(outputs) == amount);
    }
}

/// Looks up the sender's wallet and computes the locking hash of its public
/// key: the hash to ask the spendable-output index with, before the spend
/// is built from the index's answer.
pub fn sender_lock(from: &str, wallets: &Wallets) -> (lock: Result<Vec<u8>, TxError>)
    requires
        sender_key_hashable(from@, wallets@),
    ensures
        match sender_lock_of(from@, wallets@) {
            Ok(hash) => lock.is_ok() && lock.unwrap()@ == hash,
            Err(e) => lock == Err::<Vec<u8>, TxError>(e),
        },
{
    match wallets.get_wallet(from) {
        Some(wallet) => Ok(hash_pub_key(wallet.get_public_key())),
        None => Err(TxError::UnknownSender),
    }
}

impl Transaction {
    /// Builds the unsigned transaction that pays `amount` from `from` to
    /// `to` out of the outputs that the index chose. The identifier is
    /// computed last, over the finished inputs and outputs.
    pub fn new_unsigned_utxo(
        from: &str,
        to: &str,
        amount: i32,
        wallets: &Wallets,
        spendable: &SpendableOutputs,
    ) -> (tx: Result<Transaction, TxError>)
        requires
            spendable@.accumulated - amount <= i32::MAX,
        ensures
            match spend_draft(from@, to@, amount, wallets@, spendable@) {
                Ok(draft) => tx.is_ok() && tx.unwrap()@ == draft,
                Err(e) => tx == Err::<Transaction, TxError>(e),
            },
            tx.is_ok() ==> {
                let unhashed = spend_unhashed(
                    from@,
                    to@,
                    amount,
                    wallet_of(wallets@, from@).unwrap().public_key,
                    spendable@,
                );
                hashable(unhashed.encoding().len()) ==> is_digest_text(tx.unwrap()@.id)
            },
    {
        let wallet = match wallets.get_wallet(from) {
            Some(wallet) => wallet,
            None => {
                return Err(TxError::UnknownSender);
            },
        };
        let accumulated = spendable.accumulated;
        if accumulated < amount {
            return Err(TxError::InsufficientFunds);
        }
        let mut inputs: Vec<Txinput> = Vec::new();
        let mut i: usize = 0;
        while i < spendable.outputs.len()
            invariant
                i <= spendable.outputs.len(),
                inputs@.len() == i,
                forall|k: int|
                    0 <= k < i ==> (#[trigger] inputs@[k])@ == spend_inputs(
                        spendable@.outputs,
                        wallet@.public_key,
                    )[k],
            decreases spendable.outputs.len() - i,
        {
            let chosen = &spendable.outputs[i];
            inputs.push(
                Txinput::new(chosen.txid.clone(), chosen.vout, copy_bytes(wallet.get_public_key())),
            );
            i = i + 1;
        }
        let mut outputs: Vec<Txoutput> = Vec::new();
        match Txoutput::new(amount, to) {
            Ok(payment) => {
                outputs.push(payment);
            },
            Err(e) => {
                return Err(e);
            },
        }
        if accumulated > amount {
            match Txoutput::new(accumulated - amount, from) {
                Ok(change) => {
                    outputs.push(change);
                },
                Err(e) => {
                    return Err(e);
                },
            }
        }
        let mut tx = Transaction { id: String::new(), vin: inputs, vout: outputs };
        proof {
            assert(tx@.vin =~= spend_inputs(spendable@.outputs, wallet@.public_key));
            assert(tx@.vout =~= spend_outputs(
                amount,
                accumulated,
                lock_bytes(to@),
                lock_bytes(from@),
            ));
        }
        tx.set_hash();
        Ok(tx)
    }

    /// Builds and signs the transaction that pays `amount` from `from` to
    /// `to` out of the outputs that the index chose.
    ///
    /// The draft is refused as `spend_draft` says. A draft whose inputs the
    /// history cannot resolve is refused with the error of the first such
    /// input. Otherwise the transaction is the draft with a signature on
    /// every input, unless the signature primitive fails. Where the index
    /// chose no output there is nothing to sign, and the transaction is the
    /// draft. Where the sender's wallet holds the public key of its own key
    /// document, the transaction is correctly signed and passes verification
    /// against the same history.
    pub fn new_utxo(
        from: &str,
        to: &str,
        amount: i32,
        wallets: &Wallets,
        spendable: &SpendableOutputs,
        history: &TxHistory,
    ) -> (tx: Result<Transaction, TxError>)
        requires
            spendable@.accumulated - amount <= i32::MAX,
        ensures
            match spend_draft(from@, to@, amount, wallets@, spendable@) {
                Err(e) => tx == Err::<Transaction, TxError>(e),
                Ok(draft) => match first_unresolved(draft, history@, 0) {
                    Some(e) => tx == Err::<Transaction, TxError>(e),
                    None => tx == Err::<Transaction, TxError>(TxError::SigningFailed) || (
                    tx.is_ok() && same_but_signatures(tx.unwrap()@, draft)),
                },
            },
            spend_draft(from@, to@, amount, wallets@, spendable@) is Ok
                && spendable@.outputs.len() == 0 ==> tx.is_ok() && tx.unwrap()@ == spend_draft(
                from@,
                to@,
                amount,
                wallets@,
                spendable@,
            ).unwrap(),
            tx.is_ok() ==> {
                let outputs = tx.unwrap()@.vout;
                &&& spendable@.accumulated >= amount
                &&& total_value(outputs) == spendable@.accumulated
                &&& outputs[0].value == amount
                &&& outputs.len() == (if spendable@.accumulated > amount {
                    2nat
                } else {
                    1nat
                })
                &&& spendable@.accumulated > amount ==> outputs[1].value == spendable@.accumulated
                    - amount
                &&& tx.unwrap()@.vin.len() == spendable@.outputs.len()
            },
            tx.is_ok() ==> {
                let unhashed = spend_unhashed(
                    from@,
                    to@,
                    amount,
                    wallet_of(wallets@, from@).unwrap().public_key,
                    spendable@,
                );
                hashable(unhashed.encoding().len()) ==> is_digest_text(tx.unwrap()@.id)
            },
            tx.is_ok() ==> forall|k: int|
                0 <= k < tx.unwrap()@.vin.len() ==> (#[trigger] tx.unwrap()@.vin[k]).signature.len()
                    == SIGNATURE_LEN && signature_valid(
                    pkcs8_public_key(wallet_of(wallets@, from@).unwrap().pkcs8),
                    encode_utf8(signing_digest(tx.unwrap()@, history@, k)),
                    tx.unwrap()@.vin[k].signature,
                ),
            tx.is_ok() && sender_keys_match(from@, wallets@) ==> correctly_signed(
                tx.unwrap()@,
                history@,
            ) && verify_outcome(tx.unwrap()@, history@) == Ok::<bool, TxError>(true),
    {
        let mut tx = match Transaction::new_unsigned_utxo(from, to, amount, wallets, spendable) {
            Ok(tx) => tx,
            Err(e) => {
                return Err(e);
            },
        };
        let wallet = match wallets.get_wallet(from) {
            Some(wallet) => wallet,
            None => {
                return Err(TxError::UnknownSender);
            },
        };
        let ghost draft = tx@;
        match tx.sign(history, wallet.get_pkcs8()) {
            Ok(()) => {
                proof {
                    lemma_signatures_leave_trimmed_copy(tx@, draft);
                    assert forall|k: int| 0 <= k < tx@.vin.len() implies signing_digest(
                        tx@,
                        history@,
                        k,
                    ) == signing_digest(draft, history@, k) by {
                        lemma_digests_follow_trimmed_copy(tx@, draft, history@, (k + 1) as nat);
                    }
                    lemma_spend_conserves_funds(
                        amount,
                        spendable@.accumulated,
                        lock_bytes(to@),
                        lock_bytes(from@),
                    );
                    lemma_verify_accepts_exactly_the_signed(tx@, history@);
                    if spendable@.outputs.len() == 0 {
                        assert(tx@.vin =~= draft.vin);
                    }
                }
                Ok(tx)
            },
            Err(e) => Err(e),
        }
    }
}

} // verus!
