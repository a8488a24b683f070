//! Signing and verifying: the digest that each input's signature covers, the
//! signer that attaches signatures, and the verifier that checks them.
//!
//! The digests come from one scratch copy of the transaction, whose inputs
//! carry neither signature nor key. For each input in turn the copy's input
//! receives the locking hash of the prior output it spends, the copy's
//! identifier is brought up to date, and the input is cleared again. The
//! identifier so obtained is the digest for that input. The copy keeps it,
//! so each digest also covers the one before.

use vstd::prelude::*;
use vstd::string::StringSliceAdditionalSpecFns;
use vstd::utf8::encode_utf8;
use crate::crypto::{check_signature, pkcs8_public_key, sign_message, signature_valid, SIGNATURE_LEN};
use crate::error::TxError;
use crate::history::{find_by_id, TxHistory};
use crate::transaction::{Transaction, TransactionView};

verus! {

/// The locking hash of the prior output that input `k` spends, or why there
/// is none.
pub open spec fn prior_lock(tx: TransactionView, history: Seq<TransactionView>, k: int) -> Result<
    Seq<u8>,
    TxError,
> {
    match find_by_id(history, tx.vin[k].txid) {
        None => Err(TxError::MissingPriorTransaction),
        Some(prior) => if tx.vin[k].vout < prior.vout.len() {
            Ok(prior.vout[tx.vin[k].vout as int].pub_key_hash)
        } else {
            Err(TxError::MissingPriorOutput)
        },
    }
}

/// The locking hash of `prior_lock`, empty where there is none.
pub open spec fn prior_lock_bytes(
    tx: TransactionView,
    history: Seq<TransactionView>,
    k: int,
) -> Seq<u8> {
    match prior_lock(tx, history, k) {
        Ok(lock) => lock,
        Err(_) => Seq::empty(),
    }
}

/// The first failure to resolve a prior output among inputs `k` and later.
pub open spec fn first_unresolved(
    tx: TransactionView,
    history: Seq<TransactionView>,
    k: int,
) -> Option<TxError>
    decreases tx.vin.len() - k,
{
    if k < 0 || k >= tx.vin.len() {
        None
    } else {
        match prior_lock(tx, history, k) {
            Err(e) => Some(e),
            Ok(_) => first_unresolved(tx, history, k + 1),
        }
    }
}

/// The scratch copy with input `k` carrying `lock` in place of a key.
pub open spec fn armed(scratch: TransactionView, k: int, lock: Seq<u8>) -> TransactionView {
    TransactionView {
        id: scratch.id,
        vin: scratch.vin.update(k, scratch.vin[k].with_pub_key(lock)),
        vout: scratch.vout,
    }
}

/// The identifier of the scratch copy once the first `n` inputs have been
/// gone through.
pub open spec fn scratch_id(tx: TransactionView, history: Seq<TransactionView>, n: nat) -> Seq<char>
    decreases n,
{
    if n == 0 {
        tx.id
    } else {
        let k = n - 1;
        armed(
            tx.trimmed().with_id(scratch_id(tx, history, k as nat)),
            k,
            prior_lock_bytes(tx, history, k),
        ).content_id()
    }
}

/// The digest that the signature of input `k` covers.
pub open spec fn signing_digest(tx: TransactionView, history: Seq<TransactionView>, k: int) -> Seq<
    char,
> {
    scratch_id(tx, history, (k + 1) as nat)
}

/// Whether the signature of input `k` authorizes its digest under the
/// input's own public key.
pub open spec fn input_authorized(
    tx: TransactionView,
    history: Seq<TransactionView>,
    k: int,
) -> bool {
    signature_valid(
        tx.vin[k].pub_key,
        encode_utf8(signing_digest(tx, history, k)),
        tx.vin[k].signature,
    )
}

/// What verification makes of inputs `k` and later, the earlier ones having
/// passed: the first input that does not resolve is an error, the first that
/// is not authorized gives `false`, whichever comes first.
pub open spec fn verify_from(tx: TransactionView, history: Seq<TransactionView>, k: int) -> Result<
    bool,
    TxError,
>
    decreases tx.vin.len() - k,
{
    if k < 0 || k >= tx.vin.len() {
        Ok(true)
    } else {
        match prior_lock(tx, history, k) {
            Err(e) => Err(e),
            Ok(_) => if input_authorized(tx, history, k) {
                verify_from(tx, history, k + 1)
            } else {
                Ok(false)
            },
        }
    }
}

/// What verification makes of a transaction: a reward transaction passes as
/// it is, any other by its inputs.
pub open spec fn verify_outcome(tx: TransactionView, history: Seq<TransactionView>) -> Result<
    bool,
    TxError,
> {
    if tx.is_coinbase() {
        Ok(true)
    } else {
        verify_from(tx, history, 0)
    }
}

/// Whether every input resolves to a prior output and carries a signature
/// that authorizes its digest.
pub open spec fn correctly_signed(tx: TransactionView, history: Seq<TransactionView>) -> bool {
    forall|k: int|
        0 <= k < tx.vin.len() ==> (#[trigger] prior_lock(tx, history, k)) is Ok && input_authorized(
            tx,
            history,
            k,
        )
}

/// Verification of inputs `k` and later gives `true` exactly when each of
/// them resolves and is authorized.
pub proof fn lemma_verify_from_accepts(tx: TransactionView, history: Seq<TransactionView>, k: int)
    requires
        0 <= k,
    ensures
        verify_from(tx, history, k) == Ok::<bool, TxError>(true) <==> forall|j: int|
            k <= j < tx.vin.len() ==> (#[trigger] prior_lock(tx, history, j)) is Ok
                && input_authorized(tx, history, j),
    decreases tx.vin.len() - k,
{
    if k < tx.vin.len() {
        lemma_verify_from_accepts(tx, history, k + 1);
        if prior_lock(tx, history, k) is Ok && input_authorized(tx, history, k) {
            assert(verify_from(tx, history, k) == verify_from(tx, history, k + 1));
            if verify_from(tx, history, k + 1) == Ok::<bool, TxError>(true) {
                assert forall|j: int| k <= j < tx.vin.len() implies (#[trigger] prior_lock(
                    tx,
                    history,
                    j,
                )) is Ok && input_authorized(tx, history, j) by {
                    if j > k {
                        assert(k + 1 <= j);
                    }
                }
            }
        } else {
            assert(verify_from(tx, history, k) != Ok::<bool, TxError>(true));
        }
    }
}

/// A correctly signed transaction whose prior outputs the history holds
/// verifies, and nothing else does but a reward transaction: the outcome of
/// verification is `true` exactly for a reward transaction and for one whose
/// every input resolves and is authorized.
pub proof fn lemma_verify_accepts_exactly_the_signed(
    tx: TransactionView,
    history: Seq<TransactionView>,
)
    ensures
        verify_outcome(tx, history) == Ok::<bool, TxError>(true) <==> tx.is_coinbase()
            || correctly_signed(tx, history),
        correctly_signed(tx, history) ==> verify_outcome(tx, history) == Ok::<bool, TxError>(true),
{
    lemma_verify_from_accepts(tx, history, 0);
}

/// Verification of inputs `from` and later gives `false` once one of them
/// is not authorized and every input up to it resolves.
pub proof fn lemma_verify_from_rejects(
    tx: TransactionView,
    history: Seq<TransactionView>,
    from: int,
    k: int,
)
    requires
        0 <= from <= k < tx.vin.len(),
        forall|j: int| from <= j <= k ==> (#[trigger] prior_lock(tx, history, j)) is Ok,
        !input_authorized(tx, history, k),
    ensures
        verify_from(tx, history, from) == Ok::<bool, TxError>(false),
    decreases k - from,
{
    assert(prior_lock(tx, history, from) is Ok);
    if from < k && input_authorized(tx, history, from) {
        lemma_verify_from_rejects(tx, history, from + 1, k);
    }
}

/// A spend transaction is rejected with `false` as soon as one of its
/// signatures does not hold, provided that the history holds the prior
/// output of that input and of those before it. A signature stops holding
/// when the digest it covers changes, and the digest follows the canonical
/// bytes, which any change to an output changes.
pub proof fn lemma_unauthorized_input_rejects(
    tx: TransactionView,
    history: Seq<TransactionView>,
    k: int,
)
    requires
        !tx.is_coinbase(),
        0 <= k < tx.vin.len(),
        forall|j: int| 0 <= j <= k ==> (#[trigger] prior_lock(tx, history, j)) is Ok,
        !input_authorized(tx, history, k),
    ensures
        verify_outcome(tx, history) == Ok::<bool, TxError>(false),
{
    lemma_verify_from_rejects(tx, history, 0, k);
}

/// A reward transaction verifies whatever its input holds and whatever the
/// history holds.
pub proof fn lemma_reward_always_verifies(tx: TransactionView, history: Seq<TransactionView>)
    requires
        tx.is_coinbase(),
    ensures
        verify_outcome(tx, history) == Ok::<bool, TxError>(true),
{
}

/// The digests depend on the trimmed copy alone: transactions with the
/// same trimmed copy have the same prior outputs to resolve and the same
/// digest for each of their first `n` inputs, whatever their signatures and
/// keys.
pub proof fn lemma_digests_follow_trimmed_copy(
    a: TransactionView,
    b: TransactionView,
    history: Seq<TransactionView>,
    n: nat,
)
    requires
        a.trimmed() == b.trimmed(),
        n <= a.vin.len(),
    ensures
        a.vin.len() == b.vin.len(),
        forall|k: int|
            0 <= k < a.vin.len() ==> #[trigger] prior_lock(a, history, k) == prior_lock(
                b,
                history,
                k,
            ),
        scratch_id(a, history, n) == scratch_id(b, history, n),
    decreases n,
{
    assert(a.trimmed().vin.len() == a.vin.len());
    assert(b.trimmed().vin.len() == b.vin.len());
    assert forall|k: int| 0 <= k < a.vin.len() implies #[trigger] prior_lock(a, history, k)
        == prior_lock(b, history, k) by {
        assert(a.trimmed().vin[k] == a.vin[k].trimmed());
        assert(b.trimmed().vin[k] == b.vin[k].trimmed());
    }
    if n > 0 {
        lemma_digests_follow_trimmed_copy(a, b, history, (n - 1) as nat);
        let k = n - 1;
        assert(prior_lock(a, history, k) == prior_lock(b, history, k));
    }
}

/// Signatures do not enter the trimmed copy.
pub proof fn lemma_signatures_leave_trimmed_copy(a: TransactionView, b: TransactionView)
    requires
        same_but_signatures(a, b),
    ensures
        a.trimmed() == b.trimmed(),
{
    assert forall|k: int| 0 <= k < a.vin.len() implies a.vin[k].trimmed() == b.vin[k].trimmed() by {
        assert(a.vin[k].with_signature(b.vin[k].signature) == b.vin[k]);
    }
    assert(a.trimmed().vin =~= b.trimmed().vin);
}

/// Where no input from `k` on fails to resolve, each of them resolves.
pub proof fn lemma_resolved_everywhere(tx: TransactionView, history: Seq<TransactionView>, k: int)
    requires
        0 <= k,
        first_unresolved(tx, history, k) is None,
    ensures
        forall|j: int| k <= j < tx.vin.len() ==> (#[trigger] prior_lock(tx, history, j)) is Ok,
    decreases tx.vin.len() - k,
{
    if k < tx.vin.len() {
        lemma_resolved_everywhere(tx, history, k + 1);
        assert forall|j: int| k <= j < tx.vin.len() implies (#[trigger] prior_lock(
            tx,
            history,
            j,
        )) is Ok by {
            if j > k {
                assert(k + 1 <= j);
            }
        }
    }
}

/// Whether two transactions differ in nothing but the signatures of their
/// inputs.
pub open spec fn same_but_signatures(a: TransactionView, b: TransactionView) -> bool {
    &&& a.id == b.id
    &&& a.vout == b.vout
    &&& a.vin.len() == b.vin.len()
    &&& forall|k: int|
        0 <= k < a.vin.len() ==> (#[trigger] a.vin[k]).with_signature(b.vin[k].signature)
            == b.vin[k]
}

/// The transaction with the signatures given, one for each input.
pub open spec fn with_signatures(tx: TransactionView, signatures: Seq<Seq<u8>>) -> TransactionView {
    TransactionView {
        id: tx.id,
        vin: Seq::new(tx.vin.len(), |k: int| tx.vin[k].with_signature(signatures[k])),
        vout: tx.vout,
    }
}

/// The byte strings of a list of signatures.
pub open spec fn signature_views(signatures: Seq<Vec<u8>>) -> Seq<Seq<u8>> {
    Seq::new(signatures.len(), |k: int| signatures[k]@)
}

impl Transaction {
    /// Goes through input `k` on a scratch copy: the input carries `lock`
    /// while the identifier is brought up to date, and is cleared after.
    fn digest_step(&mut self, k: usize, lock: &[u8])
        requires
            k < old(self)@.vin.len(),
            old(self)@.vin[k as int].pub_key.len() == 0,
        ensures
            final(self)@ == old(self)@.with_id(armed(old(self)@, k as int, lock@).content_id()),
    {
        self.vin[k].set_pub_key(lock);
        proof {
            assert(self@.vin =~= armed(old(self)@, k as int, lock@).vin);
        }
        self.set_hash();
        let ghost hashed = self@;
        let cleared: Vec<u8> = Vec::new();
        self.vin[k].set_pub_key(cleared.as_slice());
        proof {
            assert(old(self)@.vin[k as int].pub_key =~= cleared@);
            assert(self@.vin[k as int] == hashed.vin[k as int].with_pub_key(cleared@));
            assert(self@.vin[k as int] == old(self)@.vin[k as int]);
            assert forall|j: int| 0 <= j < self@.vin.len() implies self@.vin[j] == old(
                self,
            )@.vin[j] by {
                if j != k {
                    assert(self@.vin[j] == hashed.vin[j]);
                }
            }
            assert(self@.vin =~= old(self)@.vin);
        }
    }

    /// Checks that every input was authorized by its claimed owner. A reward
    /// transaction passes as it is. Otherwise the inputs are taken in order:
    /// one whose prior output the history does not hold ends the check with
    /// an error, one whose signature does not hold ends it with `false`.
    pub fn verify(&self, history: &TxHistory) -> (outcome: Result<bool, TxError>)
        ensures
            outcome == verify_outcome(self@, history@),
            self@.is_coinbase() ==> outcome == Ok::<bool, TxError>(true),
    {
        if self.is_coinbase() {
            return Ok(true);
        }
        let mut scratch = self.trimmed_copy();
        let mut i: usize = 0;
        while i < self.vin.len()
            invariant
                i <= self.vin.len(),
                !self@.is_coinbase(),
                scratch@ == self@.trimmed().with_id(scratch_id(self@, history@, i as nat)),
                verify_from(self@, history@, 0) == verify_from(self@, history@, i as int),
            decreases self.vin.len() - i,
        {
            let input = &self.vin[i];
            let prior = match history.find_transaction(input.txid.as_str()) {
                Some(prior) => prior,
                None => {
                    return Err(TxError::MissingPriorTransaction);
                },
            };
            if input.vout >= prior.vout.len() {
                return Err(TxError::MissingPriorOutput);
            }
            let lock = prior.vout[input.vout].pub_key_hash.as_slice();
            proof {
                assert(prior_lock(self@, history@, i as int) == Ok::<Seq<u8>, TxError>(lock@));
            }
            scratch.digest_step(i, lock);
            proof {
                assert(scratch@.id == signing_digest(self@, history@, i as int));
            }
            let valid = check_signature(
                input.pub_key.as_slice(),
                scratch.id.as_str().as_bytes(),
                input.signature.as_slice(),
            );
            if !valid {
                return Ok(false);
            }
            i = i + 1;
        }
        Ok(true)
    }

    /// The digests that the signatures of the inputs cover, in the order of
    /// the inputs. Fails with the error of the first input whose prior output
    /// the history does not hold, and only then.
    pub fn signing_digests(&self, history: &TxHistory) -> (digests: Result<Vec<String>, TxError>)
        ensures
            match first_unresolved(self@, history@, 0) {
                Some(e) => digests == Err::<Vec<String>, TxError>(e),
                None => digests.is_ok() && digests.unwrap()@.len() == self@.vin.len() && forall|
                    k: int,
                |
                    0 <= k < self@.vin.len() ==> (#[trigger] digests.unwrap()@[k])@
                        == signing_digest(self@, history@, k),
            },
    {
        let mut scratch = self.trimmed_copy();
        let mut digests: Vec<String> = Vec::new();
        let mut i: usize = 0;
        while i < self.vin.len()
            invariant
                i <= self.vin.len(),
                scratch@ == self@.trimmed().with_id(scratch_id(self@, history@, i as nat)),
                first_unresolved(self@, history@, 0) == first_unresolved(self@, history@, i as int),
                digests@.len() == i,
                forall|k: int|
                    0 <= k < i ==> (#[trigger] digests@[k])@ == signing_digest(
                        self@,
                        history@,
                        k,
                    ),
            decreases self.vin.len() - i,
        {
            let input = &self.vin[i];
            let prior = match history.find_transaction(input.txid.as_str()) {
                Some(prior) => prior,
                None => {
                    return Err(TxError::MissingPriorTransaction);
                },
            };
            if input.vout >= prior.vout.len() {
                return Err(TxError::MissingPriorOutput);
            }
            let lock = prior.vout[input.vout].pub_key_hash.as_slice();
            proof {
                assert(prior_lock(self@, history@, i as int) == Ok::<Seq<u8>, TxError>(lock@));
            }
            scratch.digest_step(i, lock);
            digests.push(scratch.id.clone());
            i = i + 1;
        }
        Ok(digests)
    }

    /// Attaches one signature to each input, in order.
    pub fn attach_signatures(&mut self, signatures: Vec<Vec<u8>>)
        requires
            signatures@.len() == old(self)@.vin.len(),
        ensures
            final(self)@ == with_signatures(old(self)@, signature_views(signatures@)),
    {
        let mut signatures = signatures;
        let ghost given = signature_views(signatures@);
        let mut i: usize = self.vin.len();
        while i > 0
            invariant
                i <= self.vin.len(),
                signatures@.len() == i,
                self@.id == old(self)@.id,
                self@.vout == old(self)@.vout,
                self@.vin.len() == old(self)@.vin.len(),
                given.len() == self@.vin.len(),
                forall|k: int| 0 <= k < i ==> #[trigger] signatures@[k]@ == given[k],
                forall|k: int| 0 <= k < i ==> #[trigger] self@.vin[k] == old(self)@.vin[k],
                forall|k: int|
                    i <= k < self@.vin.len() ==> #[trigger] self@.vin[k] == old(
                        self,
                    )@.vin[k].with_signature(given[k]),
            decreases i,
        {
            i = i - 1;
            let ghost before = self@;
            let ghost last = signatures@[i as int]@;
            let signature = signatures.pop().unwrap();
            self.vin[i].set_signature(signature);
            proof {
                assert(self@.vin =~= before.vin.update(
                    i as int,
                    before.vin[i as int].with_signature(last),
                ));
            }
        }
        proof {
            assert(self@.vin =~= with_signatures(old(self)@, given).vin);
        }
    }

    /// Signs every input with the key of `pkcs8`: each input receives a
    /// signature of its own digest, valid under the public key that the
    /// document holds.
    ///
    /// A prior output that the history does not hold ends the signing with
    /// the error of the first such input; a failure of the signature
    /// primitive ends it with `SigningFailed`. A transaction without inputs
    /// needs no signature and is signed as it is. On an error the
    /// transaction is left as it was; on success only the signatures of its
    /// inputs have changed, and where the inputs carry the document's public
    /// key the transaction is correctly signed.
    pub fn sign(&mut self, history: &TxHistory, pkcs8: &[u8]) -> (outcome: Result<(), TxError>)
        ensures
            outcome.is_err() ==> final(self)@ == old(self)@,
            outcome.is_ok() ==> same_but_signatures(final(self)@, old(self)@),
            match first_unresolved(old(self)@, history@, 0) {
                Some(e) => outcome == Err::<(), TxError>(e),
                None => outcome.is_ok() || outcome == Err::<(), TxError>(TxError::SigningFailed),
            },
            old(self)@.vin.len() == 0 ==> outcome.is_ok() && final(self)@ == old(self)@,
            outcome.is_ok() ==> forall|k: int|
                0 <= k < old(self)@.vin.len() ==> (#[trigger] final(self)@.vin[k]).signature.len()
                    == SIGNATURE_LEN && signature_valid(
                    pkcs8_public_key(pkcs8@),
                    encode_utf8(signing_digest(old(self)@, history@, k)),
                    final(self)@.vin[k].signature,
                ),
            outcome.is_ok() && (forall|k: int|
                0 <= k < old(self)@.vin.len() ==> (#[trigger] old(self)@.vin[k]).pub_key
                    == pkcs8_public_key(pkcs8@)) ==> correctly_signed(final(self)@, history@),
    {
        let digests = match self.signing_digests(history) {
            Ok(digests) => digests,
            Err(e) => {
                return Err(e);
            },
        };
        let ghost key = pkcs8_public_key(pkcs8@);
        let mut signatures: Vec<Vec<u8>> = Vec::new();
        let mut i: usize = 0;
        while i < digests.len()
            invariant
                i <= digests.len(),
                signatures@.len() == i,
                digests@.len() == self@.vin.len(),
                self@ == old(self)@,
                key == pkcs8_public_key(pkcs8@),
                first_unresolved(old(self)@, history@, 0) is None,
                forall|k: int|
                    0 <= k < digests@.len() ==> (#[trigger] digests@[k])@ == signing_digest(
                        old(self)@,
                        history@,
                        k,
                    ),
                forall|k: int|
                    0 <= k < i ==> (#[trigger] signatures@[k])@.len() == SIGNATURE_LEN
                        && signature_valid(
                        key,
                        encode_utf8(signing_digest(old(self)@, history@, k)),
                        signatures@[k]@,
                    ),
            decreases digests.len() - i,
        {
            match sign_message(pkcs8, digests[i].as_str().as_bytes()) {
                Some(signature) => {
                    signatures.push(signature);
                },
                None => {
                    return Err(TxError::SigningFailed);
                },
            }
            i = i + 1;
        }
        let ghost attached = signature_views(signatures@);
        self.attach_signatures(signatures);
        proof {
            let signed = self@;
            let unsigned = old(self)@;
            if unsigned.vin.len() == 0 {
                assert(signed.vin =~= unsigned.vin);
            }
            assert forall|k: int| 0 <= k < signed.vin.len() implies (#[trigger] signed.vin[k])
                .with_signature(unsigned.vin[k].signature) == unsigned.vin[k] by {
                assert(signed.vin[k] == unsigned.vin[k].with_signature(attached[k]));
            }
            assert forall|k: int| 0 <= k < unsigned.vin.len() implies (#[trigger] signed.vin[k])
                .signature.len() == SIGNATURE_LEN && signature_valid(
                key,
                encode_utf8(signing_digest(unsigned, history@, k)),
                signed.vin[k].signature,
            ) by {
                assert(signed.vin[k] == unsigned.vin[k].with_signature(attached[k]));
            }
            if forall|k: int|
                0 <= k < unsigned.vin.len() ==> (#[trigger] unsigned.vin[k]).pub_key == key {
                lemma_signatures_leave_trimmed_copy(signed, unsigned);
                lemma_resolved_everywhere(unsigned, history@, 0);
                assert forall|k: int| 0 <= k < signed.vin.len() implies (#[trigger] prior_lock(
                    signed,
                    history@,
                    k,
                )) is Ok && input_authorized(signed, history@, k) by {
                    lemma_digests_follow_trimmed_copy(signed, unsigned, history@, (k + 1) as nat);
                    assert(signed.vin[k] == unsigned.vin[k].with_signature(attached[k]));
                    assert(prior_lock(unsigned, history@, k) is Ok);
                }
            }
        }
        Ok(())
    }
}

} // verus!
