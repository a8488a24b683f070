use ledger_tx::crypto::{check_signature, hash_pub_key, sign_message};
use ledger_tx::spend::sender_lock;
use ledger_tx::{
    OutputRef, SpendableOutputs, Transaction, TxError, TxHistory, Txinput, Txoutput, Wallet,
    Wallets,
};
use ring::rand::SystemRandom;
use ring::signature::{EcdsaKeyPair, KeyPair, ECDSA_P256_SHA256_FIXED_SIGNING};

const RECIPIENT: &str = "1M684nX5dTNQYi2ELSCazjyz5dgegJ3mVD";

const RECIPIENT_LOCK: [u8; 20] = [
    220, 90, 126, 70, 116, 133, 238, 6, 81, 181, 136, 47, 21, 166, 9, 98, 123, 72, 81, 138,
];

struct Owner {
    address: String,
    lock: Vec<u8>,
    pkcs8: Vec<u8>,
    public_key: Vec<u8>,
}

/// A fresh key pair under an address that carries the locking hash of its
/// public key.
fn new_owner() -> Owner {
    let rng = SystemRandom::new();
    let pkcs8 = EcdsaKeyPair::generate_pkcs8(&ECDSA_P256_SHA256_FIXED_SIGNING, &rng)
        .unwrap()
        .as_ref()
        .to_vec();
    let key_pair =
        EcdsaKeyPair::from_pkcs8(&ECDSA_P256_SHA256_FIXED_SIGNING, &pkcs8, &rng).unwrap();
    let public_key = key_pair.public_key().as_ref().to_vec();
    let lock = hash_pub_key(&public_key);
    let mut payload = vec![0u8];
    payload.extend_from_slice(&lock);
    payload.extend_from_slice(&[0, 0, 0, 0]);
    let address = bs58::encode(payload).into_string();
    Owner { address, lock, pkcs8, public_key }
}

fn store_of(owners: &[&Owner]) -> Wallets {
    let mut wallets = Wallets::new();
    for owner in owners {
        wallets.add_wallet(
            owner.address.clone(),
            Wallet::new(owner.pkcs8.clone(), owner.public_key.clone()),
        );
    }
    wallets
}

/// A recorded transaction with the given identifier whose outputs, each of
/// value five, are locked to `lock`.
fn funding(id: &str, lock: &[u8], outputs: usize) -> Transaction {
    let vout = (0..outputs).map(|_| Txoutput::from_parts(5, lock.to_vec())).collect();
    Transaction::from_parts(id.to_string(), vec![Txinput::default()], vout)
}

fn chosen(accumulated: i32, refs: &[(&str, usize)]) -> SpendableOutputs {
    SpendableOutputs {
        accumulated,
        outputs: refs
            .iter()
            .map(|(txid, vout)| OutputRef { txid: txid.to_string(), vout: *vout })
            .collect(),
    }
}

/// A sender with two unspent outputs of five each, in two recorded
/// transactions.
fn ten_in_two_outputs() -> (Owner, Wallets, TxHistory, SpendableOutputs) {
    let sender = new_owner();
    let wallets = store_of(&[&sender]);
    let mut history = TxHistory::new();
    history.record(funding("first", &sender.lock, 1));
    history.record(funding("second", &sender.lock, 2));
    let spendable = chosen(10, &[("first", 0), ("second", 1)]);
    (sender, wallets, history, spendable)
}

fn rebuilt(tx: &Transaction, vin: Vec<Txinput>, vout: Vec<Txoutput>) -> Transaction {
    Transaction::from_parts(tx.get_id(), vin, vout)
}

fn inputs_of(tx: &Transaction) -> Vec<Txinput> {
    tx.get_vin().iter().map(|input| input.duplicate()).collect()
}

fn outputs_of(tx: &Transaction) -> Vec<Txoutput> {
    tx.get_vout().iter().map(|output| output.duplicate()).collect()
}

#[test]
fn test_tx() {
    let justin = new_owner();
    let bob = new_owner();
    let bruce = new_owner();
    let wallets = store_of(&[&justin, &bob, &bruce]);

    let reward = Transaction::new_coinbase(&justin.address).unwrap();
    let reward_id = reward.get_id();
    let mut history = TxHistory::new();
    history.record(reward);

    let spendable = chosen(10, &[(reward_id.as_str(), 0)]);
    let tx_1 =
        Transaction::new_utxo(&justin.address, &bob.address, 4, &wallets, &spendable, &history)
            .unwrap();
    let tx_2 =
        Transaction::new_utxo(&justin.address, &bruce.address, 2, &wallets, &spendable, &history)
            .unwrap();

    assert_eq!(tx_1.verify(&history), Ok(true));
    assert_eq!(tx_2.verify(&history), Ok(true));
    assert_eq!(tx_1.get_vout()[0].get_value(), 4);
    assert_eq!(tx_1.get_vout()[0].get_pub_key_hash(), &bob.lock[..]);
    assert_eq!(tx_1.get_vout()[1].get_value(), 6);
    assert_eq!(tx_2.get_vout()[0].get_value(), 2);
    assert_eq!(tx_2.get_vout()[0].get_pub_key_hash(), &bruce.lock[..]);
    assert_eq!(tx_2.get_vout()[1].get_value(), 8);
    assert_ne!(tx_1.get_id(), tx_2.get_id());
}

#[test]
fn spend_of_four_out_of_ten_pays_four_and_returns_six() {
    let (sender, wallets, history, spendable) = ten_in_two_outputs();
    let tx = Transaction::new_utxo(&sender.address, RECIPIENT, 4, &wallets, &spendable, &history)
        .unwrap();

    assert_eq!(tx.get_vout().len(), 2);
    assert_eq!(tx.get_vout()[0].get_value(), 4);
    assert_eq!(tx.get_vout()[0].get_pub_key_hash(), &RECIPIENT_LOCK[..]);
    assert_eq!(tx.get_vout()[1].get_value(), 6);
    assert_eq!(tx.get_vout()[1].get_pub_key_hash(), &sender.lock[..]);

    assert_eq!(tx.get_vin().len(), 2);
    assert_eq!(tx.get_vin()[0].get_txid(), "first");
    assert_eq!(tx.get_vin()[0].get_vout(), 0);
    assert_eq!(tx.get_vin()[1].get_txid(), "second");
    assert_eq!(tx.get_vin()[1].get_vout(), 1);
    for input in tx.get_vin() {
        assert_eq!(input.get_pub_key(), &sender.public_key[..]);
        assert_eq!(input.get_signature().len(), 64);
    }
    assert_ne!(tx.get_vin()[0].get_signature(), tx.get_vin()[1].get_signature());

    assert!(!tx.is_coinbase());
    assert_eq!(tx.verify(&history), Ok(true));
}

#[test]
fn spend_outputs_add_up_to_the_funds() {
    let (sender, wallets, history, spendable) = ten_in_two_outputs();
    for amount in [0, 1, 4, 9, 10] {
        let tx = Transaction::new_utxo(
            &sender.address,
            RECIPIENT,
            amount,
            &wallets,
            &spendable,
            &history,
        )
        .unwrap();
        let total: i32 = tx.get_vout().iter().map(|output| output.get_value()).sum();
        assert_eq!(total, 10);
        assert_eq!(tx.get_vout()[0].get_value(), amount);
        assert_eq!(tx.get_vout().len() == 2, amount < 10);
    }
}

#[test]
fn spend_of_the_exact_funds_has_no_change() {
    let (sender, wallets, history, spendable) = ten_in_two_outputs();
    let tx = Transaction::new_utxo(&sender.address, RECIPIENT, 10, &wallets, &spendable, &history)
        .unwrap();
    assert_eq!(tx.get_vout().len(), 1);
    assert_eq!(tx.get_vout()[0].get_value(), 10);
    assert_eq!(tx.get_vout()[0].get_pub_key_hash(), &RECIPIENT_LOCK[..]);
    assert_eq!(tx.verify(&history), Ok(true));
}

#[test]
fn spend_of_eleven_out_of_ten_is_refused() {
    let (sender, wallets, history, spendable) = ten_in_two_outputs();
    let tx = Transaction::new_utxo(&sender.address, RECIPIENT, 11, &wallets, &spendable, &history);
    assert!(matches!(tx, Err(TxError::InsufficientFunds)));
    let draft =
        Transaction::new_unsigned_utxo(&sender.address, RECIPIENT, 11, &wallets, &spendable);
    assert!(matches!(draft, Err(TxError::InsufficientFunds)));
}

#[test]
fn spend_from_an_unknown_sender_is_refused() {
    let (_, wallets, history, spendable) = ten_in_two_outputs();
    let stranger = new_owner();
    let tx =
        Transaction::new_utxo(&stranger.address, RECIPIENT, 4, &wallets, &spendable, &history);
    assert!(matches!(tx, Err(TxError::UnknownSender)));
    // The sender is looked up before the funds are counted.
    let tx =
        Transaction::new_utxo(&stranger.address, RECIPIENT, 11, &wallets, &spendable, &history);
    assert!(matches!(tx, Err(TxError::UnknownSender)));
}

#[test]
fn spend_to_a_bad_address_is_refused() {
    let (sender, wallets, history, spendable) = ten_in_two_outputs();
    let tx = Transaction::new_utxo(&sender.address, "0", 4, &wallets, &spendable, &history);
    assert!(matches!(tx, Err(TxError::InvalidAddress)));
    // Funds are counted before the recipient is looked at.
    let tx = Transaction::new_utxo(&sender.address, "0", 11, &wallets, &spendable, &history);
    assert!(matches!(tx, Err(TxError::InsufficientFunds)));
}

#[test]
fn change_needs_an_address_of_the_sender_that_names_a_hash() {
    let owner = new_owner();
    let mut wallets = Wallets::new();
    wallets.add_wallet(
        "sender-0".to_string(),
        Wallet::new(owner.pkcs8.clone(), owner.public_key.clone()),
    );
    let mut history = TxHistory::new();
    history.record(funding("first", &owner.lock, 2));
    let spendable = chosen(10, &[("first", 0), ("first", 1)]);
    let with_change =
        Transaction::new_utxo("sender-0", RECIPIENT, 4, &wallets, &spendable, &history);
    assert!(matches!(with_change, Err(TxError::InvalidAddress)));
    let exact = Transaction::new_utxo("sender-0", RECIPIENT, 10, &wallets, &spendable, &history)
        .unwrap();
    assert_eq!(exact.get_vout().len(), 1);
    assert_eq!(exact.verify(&history), Ok(true));
}

#[test]
fn spend_of_outputs_of_an_unrecorded_transaction_is_refused() {
    let (sender, wallets, history, _) = ten_in_two_outputs();
    let spendable = chosen(10, &[("first", 0), ("third", 0)]);
    let tx = Transaction::new_utxo(&sender.address, RECIPIENT, 4, &wallets, &spendable, &history);
    assert!(matches!(tx, Err(TxError::MissingPriorTransaction)));
}

#[test]
fn spend_of_an_output_that_its_transaction_lacks_is_refused() {
    let (sender, wallets, history, _) = ten_in_two_outputs();
    let spendable = chosen(10, &[("first", 1), ("second", 1)]);
    let tx = Transaction::new_utxo(&sender.address, RECIPIENT, 4, &wallets, &spendable, &history);
    assert!(matches!(tx, Err(TxError::MissingPriorOutput)));
}

#[test]
fn spend_with_a_broken_key_is_refused() {
    let owner = new_owner();
    let mut wallets = Wallets::new();
    wallets.add_wallet(
        owner.address.clone(),
        Wallet::new(vec![1, 2, 3], owner.public_key.clone()),
    );
    let mut history = TxHistory::new();
    history.record(funding("first", &owner.lock, 2));
    let spendable = chosen(10, &[("first", 0), ("first", 1)]);
    let tx = Transaction::new_utxo(&owner.address, RECIPIENT, 4, &wallets, &spendable, &history);
    assert!(matches!(tx, Err(TxError::SigningFailed)));
}

#[test]
fn unsigned_spend_carries_keys_and_no_signatures() {
    let (sender, wallets, _, spendable) = ten_in_two_outputs();
    let draft =
        Transaction::new_unsigned_utxo(&sender.address, RECIPIENT, 4, &wallets, &spendable)
            .unwrap();
    assert_eq!(draft.get_vin().len(), 2);
    for input in draft.get_vin() {
        assert_eq!(input.get_pub_key(), &sender.public_key[..]);
        assert!(input.get_signature().is_empty());
    }
    let mut same = Transaction::from_parts(String::new(), inputs_of(&draft), outputs_of(&draft));
    same.set_hash();
    assert_eq!(draft.get_id(), same.get_id());
}

#[test]
fn signing_changes_nothing_but_signatures() {
    let (sender, wallets, history, spendable) = ten_in_two_outputs();
    let draft =
        Transaction::new_unsigned_utxo(&sender.address, RECIPIENT, 4, &wallets, &spendable)
            .unwrap();
    let mut signed = rebuilt(&draft, inputs_of(&draft), outputs_of(&draft));
    assert_eq!(signed.sign(&history, &sender.pkcs8), Ok(()));
    assert_eq!(signed.get_id(), draft.get_id());
    assert_eq!(signed.get_vin().len(), draft.get_vin().len());
    for (after, before) in signed.get_vin().iter().zip(draft.get_vin()) {
        assert_eq!(after.get_txid(), before.get_txid());
        assert_eq!(after.get_vout(), before.get_vout());
        assert_eq!(after.get_pub_key(), before.get_pub_key());
        assert!(!after.get_signature().is_empty());
    }
    for (after, before) in signed.get_vout().iter().zip(draft.get_vout()) {
        assert_eq!(after.get_value(), before.get_value());
        assert_eq!(after.get_pub_key_hash(), before.get_pub_key_hash());
    }
    assert_eq!(draft.verify(&history), Ok(false));
    assert_eq!(signed.verify(&history), Ok(true));
}

#[test]
fn failed_signing_leaves_the_transaction_as_it_was() {
    let (sender, wallets, history, spendable) = ten_in_two_outputs();
    let mut tx =
        Transaction::new_unsigned_utxo(&sender.address, RECIPIENT, 4, &wallets, &spendable)
            .unwrap();
    assert_eq!(tx.sign(&history, &[0x30, 0x00]), Err(TxError::SigningFailed));
    assert!(tx.get_vin().iter().all(|input| input.get_signature().is_empty()));
    assert_eq!(tx.sign(&TxHistory::new(), &sender.pkcs8), Err(TxError::MissingPriorTransaction));
    assert!(tx.get_vin().iter().all(|input| input.get_signature().is_empty()));
}

#[test]
fn each_signature_covers_the_digest_of_its_input() {
    let (sender, wallets, history, spendable) = ten_in_two_outputs();
    let tx = Transaction::new_utxo(&sender.address, RECIPIENT, 4, &wallets, &spendable, &history)
        .unwrap();
    let digests = tx.signing_digests(&history).unwrap();
    assert_eq!(digests.len(), 2);
    assert_ne!(digests[0], digests[1]);
    for (input, digest) in tx.get_vin().iter().zip(&digests) {
        assert!(check_signature(
            input.get_pub_key(),
            digest.as_bytes(),
            input.get_signature()
        ));
    }
    // A signature is of no use on another input.
    assert!(!check_signature(
        tx.get_vin()[0].get_pub_key(),
        digests[0].as_bytes(),
        tx.get_vin()[1].get_signature()
    ));
}

#[test]
fn digests_follow_the_scratch_copy() {
    let (sender, wallets, history, spendable) = ten_in_two_outputs();
    let tx = Transaction::new_utxo(&sender.address, RECIPIENT, 4, &wallets, &spendable, &history)
        .unwrap();
    let digests = tx.signing_digests(&history).unwrap();

    let bare = |k: usize, key: &[u8]| {
        let input = &tx.get_vin()[k];
        Txinput::from_parts(input.get_txid(), input.get_vout(), vec![], key.to_vec())
    };
    let mut first = Transaction::from_parts(
        tx.get_id(),
        vec![bare(0, &sender.lock), bare(1, &[])],
        outputs_of(&tx),
    );
    first.set_hash();
    assert_eq!(digests[0], first.get_id());
    let mut second = Transaction::from_parts(
        first.get_id(),
        vec![bare(0, &[]), bare(1, &sender.lock)],
        outputs_of(&tx),
    );
    second.set_hash();
    assert_eq!(digests[1], second.get_id());
}

#[test]
fn digests_need_every_prior_output() {
    let (sender, wallets, history, spendable) = ten_in_two_outputs();
    let tx = Transaction::new_utxo(&sender.address, RECIPIENT, 4, &wallets, &spendable, &history)
        .unwrap();
    assert!(matches!(
        tx.signing_digests(&TxHistory::new()),
        Err(TxError::MissingPriorTransaction)
    ));
    let mut shorter = TxHistory::new();
    shorter.record(funding("first", &sender.lock, 1));
    shorter.record(funding("second", &sender.lock, 1));
    assert!(matches!(tx.signing_digests(&shorter), Err(TxError::MissingPriorOutput)));
}

#[test]
fn verification_fails_outright_without_the_prior_transaction() {
    let (sender, wallets, history, spendable) = ten_in_two_outputs();
    let tx = Transaction::new_utxo(&sender.address, RECIPIENT, 4, &wallets, &spendable, &history)
        .unwrap();
    assert_eq!(tx.verify(&TxHistory::new()), Err(TxError::MissingPriorTransaction));
    let mut partial = TxHistory::new();
    partial.record(funding("first", &sender.lock, 1));
    assert_eq!(tx.verify(&partial), Err(TxError::MissingPriorTransaction));
}

#[test]
fn verification_fails_outright_without_the_prior_output() {
    let (sender, wallets, history, spendable) = ten_in_two_outputs();
    let tx = Transaction::new_utxo(&sender.address, RECIPIENT, 4, &wallets, &spendable, &history)
        .unwrap();
    let mut shorter = TxHistory::new();
    shorter.record(funding("first", &sender.lock, 1));
    shorter.record(funding("second", &sender.lock, 1));
    assert_eq!(tx.verify(&shorter), Err(TxError::MissingPriorOutput));
}

#[test]
fn verification_rejects_a_changed_output_value() {
    let (sender, wallets, history, spendable) = ten_in_two_outputs();
    let tx = Transaction::new_utxo(&sender.address, RECIPIENT, 4, &wallets, &spendable, &history)
        .unwrap();
    for position in 0..2 {
        let mut outputs = outputs_of(&tx);
        let lock = outputs[position].get_pub_key_hash().to_vec();
        outputs[position] = Txoutput::from_parts(outputs[position].get_value() + 1, lock);
        let tampered = rebuilt(&tx, inputs_of(&tx), outputs);
        assert_eq!(tampered.verify(&history), Ok(false));
    }
}

#[test]
fn verification_rejects_a_changed_locking_hash() {
    let (sender, wallets, history, spendable) = ten_in_two_outputs();
    let tx = Transaction::new_utxo(&sender.address, RECIPIENT, 4, &wallets, &spendable, &history)
        .unwrap();
    for position in 0..2 {
        let mut outputs = outputs_of(&tx);
        let mut lock = outputs[position].get_pub_key_hash().to_vec();
        lock[0] ^= 1;
        outputs[position] = Txoutput::from_parts(outputs[position].get_value(), lock);
        let tampered = rebuilt(&tx, inputs_of(&tx), outputs);
        assert_eq!(tampered.verify(&history), Ok(false));
    }
}

#[test]
fn verification_rejects_a_foreign_key() {
    let (sender, wallets, history, spendable) = ten_in_two_outputs();
    let tx = Transaction::new_utxo(&sender.address, RECIPIENT, 4, &wallets, &spendable, &history)
        .unwrap();
    let thief = new_owner();
    let mut inputs = inputs_of(&tx);
    inputs[1].set_pub_key(&thief.public_key);
    let forged = rebuilt(&tx, inputs, outputs_of(&tx));
    assert_eq!(forged.verify(&history), Ok(false));
}

#[test]
fn verification_rejects_swapped_signatures() {
    let (sender, wallets, history, spendable) = ten_in_two_outputs();
    let tx = Transaction::new_utxo(&sender.address, RECIPIENT, 4, &wallets, &spendable, &history)
        .unwrap();
    let mut inputs = inputs_of(&tx);
    let first = inputs[0].get_signature().to_vec();
    let second = inputs[1].get_signature().to_vec();
    inputs[0].set_signature(second);
    inputs[1].set_signature(first);
    let swapped = rebuilt(&tx, inputs, outputs_of(&tx));
    assert_eq!(swapped.verify(&history), Ok(false));
}

#[test]
fn verification_stops_at_the_first_input_that_fails() {
    let (sender, wallets, history, spendable) = ten_in_two_outputs();
    let tx = Transaction::new_utxo(&sender.address, RECIPIENT, 4, &wallets, &spendable, &history)
        .unwrap();
    let mut only_first = TxHistory::new();
    only_first.record(funding("first", &sender.lock, 1));

    // A bad signature on the first input is found before the second input
    // is looked up.
    let mut inputs = inputs_of(&tx);
    inputs[0].set_signature(vec![0; 64]);
    let bad_first = rebuilt(&tx, inputs, outputs_of(&tx));
    assert_eq!(bad_first.verify(&only_first), Ok(false));

    // With the first input in order the missing transaction of the second
    // is an error.
    assert_eq!(tx.verify(&only_first), Err(TxError::MissingPriorTransaction));
}

#[test]
fn attached_signatures_land_on_their_inputs() {
    let mut tx = Transaction::from_parts(
        "id".to_string(),
        vec![
            Txinput::new("a".to_string(), 0, vec![1]),
            Txinput::new("b".to_string(), 1, vec![2]),
            Txinput::new("c".to_string(), 2, vec![3]),
        ],
        vec![],
    );
    tx.attach_signatures(vec![vec![10], vec![20, 21], vec![]]);
    assert_eq!(tx.get_vin()[0].get_signature(), &[10]);
    assert_eq!(tx.get_vin()[1].get_signature(), &[20, 21]);
    assert!(tx.get_vin()[2].get_signature().is_empty());
    assert_eq!(tx.get_vin()[1].get_txid(), "b");
    assert_eq!(tx.get_vin()[1].get_pub_key(), &[2]);
    assert_eq!(tx.get_id(), "id");
}

#[test]
fn history_finds_the_first_transaction_of_an_identifier() {
    let mut history = TxHistory::new();
    assert!(history.find_transaction("a").is_none());
    history.record(funding("a", &[1], 1));
    history.record(funding("b", &[2], 1));
    history.record(funding("a", &[3], 1));
    assert_eq!(history.find_transaction("a").unwrap().get_vout()[0].get_pub_key_hash(), &[1]);
    assert_eq!(history.find_transaction("b").unwrap().get_vout()[0].get_pub_key_hash(), &[2]);
    assert!(history.find_transaction("c").is_none());
    assert!(history.find_transaction("").is_none());
}

#[test]
fn store_finds_the_first_wallet_of_an_address() {
    let mut wallets = Wallets::new();
    assert!(wallets.get_wallet("a").is_none());
    wallets.add_wallet("a".to_string(), Wallet::new(vec![1], vec![2]));
    wallets.add_wallet("b".to_string(), Wallet::new(vec![3], vec![4]));
    wallets.add_wallet("a".to_string(), Wallet::new(vec![5], vec![6]));
    let found = wallets.get_wallet("a").unwrap();
    assert_eq!(found.get_pkcs8(), &[1]);
    assert_eq!(found.get_public_key(), &[2]);
    assert_eq!(wallets.get_wallet("b").unwrap().get_public_key(), &[4]);
    assert!(wallets.get_wallet("c").is_none());
}

#[test]
fn signature_check_takes_key_message_and_signature_together() {
    let owner = new_owner();
    let rng = SystemRandom::new();
    let key_pair =
        EcdsaKeyPair::from_pkcs8(&ECDSA_P256_SHA256_FIXED_SIGNING, &owner.pkcs8, &rng).unwrap();
    let signature = key_pair.sign(&rng, b"message").unwrap().as_ref().to_vec();
    assert!(check_signature(&owner.public_key, b"message", &signature));
    assert!(!check_signature(&owner.public_key, b"massage", &signature));
    assert!(!check_signature(&new_owner().public_key, b"message", &signature));
    assert!(!check_signature(&owner.public_key, b"message", &[]));
    assert!(!check_signature(&[], b"message", &signature));
    // Handing back the key, the message or the signature would not do.
    assert!(!check_signature(b"message", b"message", b"message"));
}

#[test]
fn spend_without_inputs_carries_no_signature_to_check() {
    let sender = new_owner();
    let wallets = store_of(&[&sender]);
    let history = TxHistory::new();
    let nothing = chosen(0, &[]);
    let tx = Transaction::new_utxo(&sender.address, RECIPIENT, 0, &wallets, &nothing, &history)
        .unwrap();
    assert!(tx.get_vin().is_empty());
    assert_eq!(tx.get_vout().len(), 1);
    assert_eq!(tx.get_vout()[0].get_value(), 0);
    assert!(!tx.is_coinbase());
    assert_eq!(tx.verify(&history), Ok(true));
    let changed = rebuilt(&tx, vec![], vec![Txoutput::from_parts(1000, vec![1])]);
    assert_eq!(changed.verify(&history), Ok(true));
}

#[test]
fn default_transaction_is_empty() {
    let tx = Transaction::default();
    assert_eq!(tx.get_id(), "");
    assert!(tx.get_vin().is_empty());
    assert!(tx.get_vout().is_empty());
    assert!(!tx.is_coinbase());
    let input = Txinput::default();
    assert_eq!(input.get_txid(), "");
    assert_eq!(input.get_vout(), 0);
    assert!(input.get_signature().is_empty());
    assert!(input.get_pub_key().is_empty());
}

#[test]
fn wallet_of_a_key_document_holds_the_public_key_of_the_document() {
    let owner = new_owner();
    let wallet = Wallet::from_pkcs8(owner.pkcs8.clone()).unwrap();
    assert_eq!(wallet.get_pkcs8(), &owner.pkcs8[..]);
    assert_eq!(wallet.get_public_key(), &owner.public_key[..]);
    // An uncompressed point on the curve: a marker byte and two coordinates.
    assert_eq!(wallet.get_public_key().len(), 65);
    assert_eq!(wallet.get_public_key()[0], 4);
}

#[test]
fn wallet_of_a_broken_key_document_is_refused() {
    assert!(Wallet::from_pkcs8(vec![]).is_none());
    assert!(Wallet::from_pkcs8(vec![1, 2, 3]).is_none());
    let mut cut = new_owner().pkcs8;
    cut.pop();
    assert!(Wallet::from_pkcs8(cut).is_none());
}

#[test]
fn locking_hash_of_a_key_is_its_digest() {
    assert_eq!(
        ledger_tx::hex::to_hex(&hash_pub_key(b"abc")),
        "ba7816bf8f01cfea414140de5dae2223b00361a396177a9cb410ff61f20015ad"
    );
    assert_eq!(hash_pub_key(&[]).len(), 32);
}

#[test]
fn sender_lock_is_the_locking_hash_of_the_wallet_key() {
    let mut wallets = Wallets::new();
    wallets.add_wallet("a".to_string(), Wallet::new(vec![1], b"abc".to_vec()));
    wallets.add_wallet("b".to_string(), Wallet::new(vec![2], b"abd".to_vec()));
    let lock = sender_lock("a", &wallets).unwrap();
    assert_eq!(
        ledger_tx::hex::to_hex(&lock),
        "ba7816bf8f01cfea414140de5dae2223b00361a396177a9cb410ff61f20015ad"
    );
    assert_ne!(sender_lock("b", &wallets).unwrap(), lock);
    assert_eq!(sender_lock("c", &wallets), Err(TxError::UnknownSender));
}

#[test]
fn sender_lock_is_the_lock_of_the_outputs_that_the_sender_spends() {
    let (sender, wallets, history, spendable) = ten_in_two_outputs();
    let lock = sender_lock(&sender.address, &wallets).unwrap();
    assert_eq!(lock, sender.lock);
    assert_eq!(
        lock,
        ring::digest::digest(&ring::digest::SHA256, &sender.public_key).as_ref().to_vec()
    );
    let tx = Transaction::new_utxo(&sender.address, RECIPIENT, 4, &wallets, &spendable, &history)
        .unwrap();
    // The change comes back under the same lock.
    assert_eq!(tx.get_vout()[1].get_pub_key_hash(), &lock[..]);
    for input in tx.get_vin() {
        let prior = history.find_transaction(&input.get_txid()).unwrap();
        assert_eq!(prior.get_vout()[input.get_vout()].get_pub_key_hash(), &lock[..]);
    }
}

#[test]
fn signed_message_is_valid_under_the_key_of_the_document() {
    let owner = new_owner();
    let signature = sign_message(&owner.pkcs8, b"message").unwrap();
    assert_eq!(signature.len(), 64);
    assert!(check_signature(&owner.public_key, b"message", &signature));
    assert!(!check_signature(&owner.public_key, b"another", &signature));
    assert!(!check_signature(&new_owner().public_key, b"message", &signature));
    assert_ne!(&signature[..], &b"message"[..]);
    assert_ne!(signature, owner.pkcs8);
    assert!(sign_message(&[1, 2, 3], b"message").is_none());
}

#[test]
fn signing_without_inputs_asks_for_no_key() {
    let mut tx = Transaction::from_parts(
        "id".to_string(),
        vec![],
        vec![Txoutput::from_parts(3, vec![1])],
    );
    assert_eq!(tx.sign(&TxHistory::new(), &[1, 2, 3]), Ok(()));
    assert_eq!(tx.get_id(), "id");
    assert!(tx.get_vin().is_empty());
    assert_eq!(tx.get_vout().len(), 1);
}

#[test]
fn spend_identifier_is_sixty_four_lowercase_hex_digits() {
    let (sender, wallets, history, spendable) = ten_in_two_outputs();
    let tx = Transaction::new_utxo(&sender.address, RECIPIENT, 4, &wallets, &spendable, &history)
        .unwrap();
    let id = tx.get_id();
    assert_eq!(id.len(), 64);
    assert!(id.chars().all(|c| c.is_ascii_digit() || ('a'..='f').contains(&c)));
}

#[test]
fn spend_signed_with_a_key_that_is_not_the_wallets_does_not_verify() {
    let owner = new_owner();
    let other = new_owner();
    let mut wallets = Wallets::new();
    wallets.add_wallet(
        owner.address.clone(),
        Wallet::new(other.pkcs8.clone(), owner.public_key.clone()),
    );
    let mut history = TxHistory::new();
    history.record(funding("first", &owner.lock, 2));
    let spendable = chosen(10, &[("first", 0), ("first", 1)]);
    let tx = Transaction::new_utxo(&owner.address, RECIPIENT, 4, &wallets, &spendable, &history)
        .unwrap();
    let digests = tx.signing_digests(&history).unwrap();
    for (input, digest) in tx.get_vin().iter().zip(&digests) {
        assert_eq!(input.get_signature().len(), 64);
        assert!(check_signature(&other.public_key, digest.as_bytes(), input.get_signature()));
    }
    assert_eq!(tx.verify(&history), Ok(false));
}

#[test]
fn spend_without_inputs_is_the_draft_whatever_the_key() {
    let owner = new_owner();
    let mut wallets = Wallets::new();
    wallets.add_wallet(owner.address.clone(), Wallet::new(vec![1, 2, 3], vec![4, 5]));
    let history = TxHistory::new();
    let nothing = chosen(0, &[]);
    let draft =
        Transaction::new_unsigned_utxo(&owner.address, RECIPIENT, 0, &wallets, &nothing).unwrap();
    let tx = Transaction::new_utxo(&owner.address, RECIPIENT, 0, &wallets, &nothing, &history)
        .unwrap();
    assert_eq!(tx.get_id(), draft.get_id());
    assert!(tx.get_vin().is_empty());
    assert_eq!(tx.get_vout().len(), 1);
    assert_eq!(tx.get_vout()[0].get_value(), 0);
    assert_eq!(tx.get_vout()[0].get_pub_key_hash(), &RECIPIENT_LOCK[..]);
}
