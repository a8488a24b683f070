//! The canonical encoding is injective: transactions that differ in any
//! field differ in their bytes.
//!
//! Each piece of the encoding can be read off the front of a byte string in
//! one way only. The proofs follow the layout of the encoding, piece by
//! piece.

use vstd::prelude::*;
use vstd::bytes::{
    lemma_auto_spec_u32_to_from_le_bytes, lemma_auto_spec_u64_to_from_le_bytes,
    spec_u32_from_le_bytes, spec_u32_to_le_bytes, spec_u64_from_le_bytes, spec_u64_to_le_bytes,
};
use vstd::utf8::{decode_utf8, encode_utf8, encode_utf8_decode_utf8};
use crate::codec::{
    encodable_input, encodable_output, encode_bytes, encode_input, encode_inputs, encode_len,
    encode_output, encode_outputs, encode_text, encode_value, fits_len, value_bits,
};
use crate::signing::armed;
use crate::transaction::TransactionView;
use crate::tx_input::TxinputView;
use crate::tx_output::TxoutputView;

verus! {

proof fn lemma_split(a: Seq<u8>, r: Seq<u8>, b: Seq<u8>, s: Seq<u8>)
    requires
        a + r == b + s,
        a.len() == b.len(),
    ensures
        a == b,
        r == s,
{
    assert(a =~= (a + r).subrange(0, a.len() as int));
    assert(b =~= (b + s).subrange(0, b.len() as int));
    assert(r =~= (a + r).subrange(a.len() as int, (a + r).len() as int));
    assert(s =~= (b + s).subrange(b.len() as int, (b + s).len() as int));
}

proof fn lemma_len_front(n: nat, r: Seq<u8>, m: nat, s: Seq<u8>)
    requires
        fits_len(n),
        fits_len(m),
        encode_len(n) + r == encode_len(m) + s,
    ensures
        n == m,
        r == s,
{
    lemma_auto_spec_u64_to_from_le_bytes();
    lemma_split(encode_len(n), r, encode_len(m), s);
    assert(spec_u64_from_le_bytes(spec_u64_to_le_bytes(n as u64)) == n as u64);
    assert(spec_u64_from_le_bytes(spec_u64_to_le_bytes(m as u64)) == m as u64);
}

proof fn lemma_bytes_front(a: Seq<u8>, r: Seq<u8>, b: Seq<u8>, s: Seq<u8>)
    requires
        fits_len(a.len()),
        fits_len(b.len()),
        encode_bytes(a) + r == encode_bytes(b) + s,
    ensures
        a == b,
        r == s,
{
    assert(encode_bytes(a) + r =~= encode_len(a.len()) + (a + r));
    assert(encode_bytes(b) + s =~= encode_len(b.len()) + (b + s));
    lemma_len_front(a.len(), a + r, b.len(), b + s);
    lemma_split(a, r, b, s);
}

proof fn lemma_text_front(a: Seq<char>, r: Seq<u8>, b: Seq<char>, s: Seq<u8>)
    requires
        fits_len(encode_utf8(a).len()),
        fits_len(encode_utf8(b).len()),
        encode_text(a) + r == encode_text(b) + s,
    ensures
        a == b,
        r == s,
{
    lemma_bytes_front(encode_utf8(a), r, encode_utf8(b), s);
    encode_utf8_decode_utf8(a);
    encode_utf8_decode_utf8(b);
    assert(decode_utf8(encode_utf8(a)) == decode_utf8(encode_utf8(b)));
}

proof fn lemma_value_front(a: i32, r: Seq<u8>, b: i32, s: Seq<u8>)
    requires
        encode_value(a) + r == encode_value(b) + s,
    ensures
        a == b,
        r == s,
{
    lemma_auto_spec_u32_to_from_le_bytes();
    lemma_split(encode_value(a), r, encode_value(b), s);
    assert(spec_u32_from_le_bytes(spec_u32_to_le_bytes(value_bits(a))) == value_bits(a));
    assert(spec_u32_from_le_bytes(spec_u32_to_le_bytes(value_bits(b))) == value_bits(b));
    assert(value_bits(a) == value_bits(b));
}

proof fn lemma_input_front(a: TxinputView, r: Seq<u8>, b: TxinputView, s: Seq<u8>)
    requires
        encodable_input(a),
        encodable_input(b),
        encode_input(a) + r == encode_input(b) + s,
    ensures
        a == b,
        r == s,
{
    let a3 = encode_bytes(a.pub_key) + r;
    let a2 = encode_bytes(a.signature) + a3;
    let a1 = encode_len(a.vout as nat) + a2;
    let b3 = encode_bytes(b.pub_key) + s;
    let b2 = encode_bytes(b.signature) + b3;
    let b1 = encode_len(b.vout as nat) + b2;
    assert(encode_input(a) + r =~= encode_text(a.txid) + a1);
    assert(encode_input(b) + s =~= encode_text(b.txid) + b1);
    lemma_text_front(a.txid, a1, b.txid, b1);
    lemma_len_front(a.vout as nat, a2, b.vout as nat, b2);
    lemma_bytes_front(a.signature, a3, b.signature, b3);
    lemma_bytes_front(a.pub_key, r, b.pub_key, s);
}

proof fn lemma_output_front(a: TxoutputView, r: Seq<u8>, b: TxoutputView, s: Seq<u8>)
    requires
        encodable_output(a),
        encodable_output(b),
        encode_output(a) + r == encode_output(b) + s,
    ensures
        a == b,
        r == s,
{
    let a1 = encode_bytes(a.pub_key_hash) + r;
    let b1 = encode_bytes(b.pub_key_hash) + s;
    assert(encode_output(a) + r =~= encode_value(a.value) + a1);
    assert(encode_output(b) + s =~= encode_value(b.value) + b1);
    lemma_value_front(a.value, a1, b.value, b1);
    lemma_bytes_front(a.pub_key_hash, r, b.pub_key_hash, s);
}

proof fn lemma_inputs_unfold_front(inputs: Seq<TxinputView>)
    requires
        inputs.len() > 0,
    ensures
        encode_inputs(inputs) == encode_input(inputs.first()) + encode_inputs(inputs.drop_first()),
    decreases inputs.len(),
{
    if inputs.len() == 1 {
        assert(inputs.drop_last() =~= Seq::<TxinputView>::empty());
        assert(inputs.drop_first() =~= Seq::<TxinputView>::empty());
        assert(encode_inputs(inputs.drop_last()) =~= Seq::<u8>::empty());
        assert(encode_inputs(inputs) =~= encode_input(inputs.first()) + Seq::<u8>::empty());
    } else {
        let shorter = inputs.drop_last();
        lemma_inputs_unfold_front(shorter);
        assert(shorter.first() == inputs.first());
        assert(shorter.drop_first() =~= inputs.drop_first().drop_last());
        assert(inputs.drop_first().last() == inputs.last());
        assert(encode_inputs(inputs) =~= encode_input(inputs.first()) + encode_inputs(
            inputs.drop_first(),
        ));
    }
}

proof fn lemma_outputs_unfold_front(outputs: Seq<TxoutputView>)
    requires
        outputs.len() > 0,
    ensures
        encode_outputs(outputs) == encode_output(outputs.first()) + encode_outputs(
            outputs.drop_first(),
        ),
    decreases outputs.len(),
{
    if outputs.len() == 1 {
        assert(outputs.drop_last() =~= Seq::<TxoutputView>::empty());
        assert(outputs.drop_first() =~= Seq::<TxoutputView>::empty());
        assert(encode_outputs(outputs.drop_last()) =~= Seq::<u8>::empty());
        assert(encode_outputs(outputs) =~= encode_output(outputs.first()) + Seq::<u8>::empty());
    } else {
        let shorter = outputs.drop_last();
        lemma_outputs_unfold_front(shorter);
        assert(shorter.first() == outputs.first());
        assert(shorter.drop_first() =~= outputs.drop_first().drop_last());
        assert(outputs.drop_first().last() == outputs.last());
        assert(encode_outputs(outputs) =~= encode_output(outputs.first()) + encode_outputs(
            outputs.drop_first(),
        ));
    }
}

proof fn lemma_inputs_front(a: Seq<TxinputView>, r: Seq<u8>, b: Seq<TxinputView>, s: Seq<u8>)
    requires
        a.len() == b.len(),
        forall|i: int| 0 <= i < a.len() ==> encodable_input(#[trigger] a[i]),
        forall|i: int| 0 <= i < b.len() ==> encodable_input(#[trigger] b[i]),
        encode_inputs(a) + r == encode_inputs(b) + s,
    ensures
        a == b,
        r == s,
    decreases a.len(),
{
    if a.len() == 0 {
        assert(a =~= b);
        assert(encode_inputs(a) + r =~= r);
        assert(encode_inputs(b) + s =~= s);
    } else {
        lemma_inputs_unfold_front(a);
        lemma_inputs_unfold_front(b);
        let ra = encode_inputs(a.drop_first()) + r;
        let rb = encode_inputs(b.drop_first()) + s;
        assert(encode_inputs(a) + r =~= encode_input(a.first()) + ra);
        assert(encode_inputs(b) + s =~= encode_input(b.first()) + rb);
        assert(encodable_input(a[0]) && encodable_input(b[0]));
        lemma_input_front(a.first(), ra, b.first(), rb);
        assert forall|i: int| 0 <= i < a.drop_first().len() implies encodable_input(
            #[trigger] a.drop_first()[i],
        ) by {
            assert(a.drop_first()[i] == a[i + 1]);
        }
        assert forall|i: int| 0 <= i < b.drop_first().len() implies encodable_input(
            #[trigger] b.drop_first()[i],
        ) by {
            assert(b.drop_first()[i] == b[i + 1]);
        }
        lemma_inputs_front(a.drop_first(), r, b.drop_first(), s);
        assert(a =~= seq![a.first()] + a.drop_first());
        assert(b =~= seq![b.first()] + b.drop_first());
    }
}

proof fn lemma_outputs_front(a: Seq<TxoutputView>, r: Seq<u8>, b: Seq<TxoutputView>, s: Seq<u8>)
    requires
        a.len() == b.len(),
        forall|i: int| 0 <= i < a.len() ==> encodable_output(#[trigger] a[i]),
        forall|i: int| 0 <= i < b.len() ==> encodable_output(#[trigger] b[i]),
        encode_outputs(a) + r == encode_outputs(b) + s,
    ensures
        a == b,
        r == s,
    decreases a.len(),
{
    if a.len() == 0 {
        assert(a =~= b);
        assert(encode_outputs(a) + r =~= r);
        assert(encode_outputs(b) + s =~= s);
    } else {
        lemma_outputs_unfold_front(a);
        lemma_outputs_unfold_front(b);
        let ra = encode_outputs(a.drop_first()) + r;
        let rb = encode_outputs(b.drop_first()) + s;
        assert(encode_outputs(a) + r =~= encode_output(a.first()) + ra);
        assert(encode_outputs(b) + s =~= encode_output(b.first()) + rb);
        assert(encodable_output(a[0]) && encodable_output(b[0]));
        lemma_output_front(a.first(), ra, b.first(), rb);
        assert forall|i: int| 0 <= i < a.drop_first().len() implies encodable_output(
            #[trigger] a.drop_first()[i],
        ) by {
            assert(a.drop_first()[i] == a[i + 1]);
        }
        assert forall|i: int| 0 <= i < b.drop_first().len() implies encodable_output(
            #[trigger] b.drop_first()[i],
        ) by {
            assert(b.drop_first()[i] == b[i + 1]);
        }
        lemma_outputs_front(a.drop_first(), r, b.drop_first(), s);
        assert(a =~= seq![a.first()] + a.drop_first());
        assert(b =~= seq![b.first()] + b.drop_first());
    }
}

/// Two transactions with the same canonical bytes are the same transaction:
/// same identifier, same inputs, same outputs.
pub proof fn lemma_encoding_injective(a: TransactionView, b: TransactionView)
    requires
        a.encodable(),
        b.encodable(),
        a.encoding() == b.encoding(),
    ensures
        a == b,
{
    let none = Seq::<u8>::empty();
    let a4 = encode_outputs(a.vout) + none;
    let a3 = encode_len(a.vout.len()) + a4;
    let a2 = encode_inputs(a.vin) + a3;
    let a1 = encode_len(a.vin.len()) + a2;
    let b4 = encode_outputs(b.vout) + none;
    let b3 = encode_len(b.vout.len()) + b4;
    let b2 = encode_inputs(b.vin) + b3;
    let b1 = encode_len(b.vin.len()) + b2;
    assert(a.encoding() =~= encode_text(a.id) + a1);
    assert(b.encoding() =~= encode_text(b.id) + b1);
    lemma_text_front(a.id, a1, b.id, b1);
    lemma_len_front(a.vin.len(), a2, b.vin.len(), b2);
    lemma_inputs_front(a.vin, a3, b.vin, b3);
    lemma_len_front(a.vout.len(), a4, b.vout.len(), b4);
    lemma_outputs_front(a.vout, none, b.vout, none);
}

/// After any change to an output, its amount or its locking hash, the bytes
/// that are hashed for the digest of an input are no longer the same,
/// whichever input it is and whatever it is armed with. (That the digest
/// and the standing of a signature change with the bytes rests on the
/// digest and signature primitives.)
pub proof fn lemma_changed_outputs_change_signed_bytes(
    signed: TransactionView,
    tampered: TransactionView,
    k: int,
    lock: Seq<u8>,
    other_lock: Seq<u8>,
)
    requires
        0 <= k < signed.vin.len(),
        0 <= k < tampered.vin.len(),
        armed(signed, k, lock).encodable(),
        armed(tampered, k, other_lock).encodable(),
        signed.vout != tampered.vout,
    ensures
        armed(signed, k, lock).encoding() != armed(tampered, k, other_lock).encoding(),
{
    if armed(signed, k, lock).encoding() == armed(tampered, k, other_lock).encoding() {
        lemma_encoding_injective(armed(signed, k, lock), armed(tampered, k, other_lock));
    }
}

/// Each input has bytes of its own to be hashed: for two inputs of one
/// scratch copy, armed in turn with the locking hashes of their prior
/// outputs, the canonical bytes differ as soon as one of the two locking
/// hashes is not empty, whatever identifier the copy holds at either turn.
/// (That the two digests then differ rests on the digest primitive.)
pub proof fn lemma_inputs_have_bytes_of_their_own(
    scratch: TransactionView,
    i: int,
    lock_i: Seq<u8>,
    id_i: Seq<char>,
    j: int,
    lock_j: Seq<u8>,
    id_j: Seq<char>,
)
    requires
        0 <= i < scratch.vin.len(),
        0 <= j < scratch.vin.len(),
        i != j,
        scratch == scratch.trimmed(),
        lock_i.len() > 0 || lock_j.len() > 0,
        armed(scratch.with_id(id_i), i, lock_i).encodable(),
        armed(scratch.with_id(id_j), j, lock_j).encodable(),
    ensures
        armed(scratch.with_id(id_i), i, lock_i).encoding() != armed(
            scratch.with_id(id_j),
            j,
            lock_j,
        ).encoding(),
{
    let a = armed(scratch.with_id(id_i), i, lock_i);
    let b = armed(scratch.with_id(id_j), j, lock_j);
    if a.encoding() == b.encoding() {
        lemma_encoding_injective(a, b);
        assert(scratch.vin[i] == scratch.trimmed().vin[i]);
        assert(scratch.vin[j] == scratch.trimmed().vin[j]);
        assert(a.vin[i].pub_key == lock_i);
        assert(b.vin[i].pub_key =~= Seq::<u8>::empty());
        assert(b.vin[j].pub_key == lock_j);
        assert(a.vin[j].pub_key =~= Seq::<u8>::empty());
    }
}

} // verus!
