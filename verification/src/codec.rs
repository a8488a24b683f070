//! The canonical byte encoding of a transaction, from which its identifier
//! and the per-input signing digests are derived.
//!
//! Integers are little-endian and of fixed width; texts, byte strings and
//! lists are preceded by their length in eight bytes. Fields follow one
//! another in the order of their declaration.

use vstd::prelude::*;
use vstd::bytes::{spec_u32_to_le_bytes, spec_u64_to_le_bytes, u32_to_le_bytes, u64_to_le_bytes};
use vstd::utf8::encode_utf8;
use vstd::string::StringSliceAdditionalSpecFns;
use crate::bytes::copy_bytes;
use crate::tx_input::{Txinput, TxinputView};
use crate::tx_output::{Txoutput, TxoutputView};

verus! {

/// The views of a list of inputs.
pub open spec fn input_views(inputs: Seq<Txinput>) -> Seq<TxinputView> {
    Seq::new(inputs.len(), |i: int| inputs[i]@)
}

/// The views of a list of outputs.
pub open spec fn output_views(outputs: Seq<Txoutput>) -> Seq<TxoutputView> {
    Seq::new(outputs.len(), |i: int| outputs[i]@)
}

/// Whether a length can be written in eight bytes.
pub open spec fn fits_len(n: nat) -> bool {
    n <= u64::MAX
}

/// Whether every length in an input can be written.
pub open spec fn encodable_input(input: TxinputView) -> bool {
    &&& fits_len(encode_utf8(input.txid).len())
    &&& fits_len(input.signature.len())
    &&& fits_len(input.pub_key.len())
}

/// Whether every length in an output can be written.
pub open spec fn encodable_output(output: TxoutputView) -> bool {
    fits_len(output.pub_key_hash.len())
}

/// Whether every length in a transaction can be written. `encode` shows
/// this of whatever it is given.
pub open spec fn encodable_parts(
    id: Seq<char>,
    inputs: Seq<TxinputView>,
    outputs: Seq<TxoutputView>,
) -> bool {
    &&& fits_len(encode_utf8(id).len())
    &&& fits_len(inputs.len())
    &&& fits_len(outputs.len())
    &&& forall|i: int| 0 <= i < inputs.len() ==> encodable_input(#[trigger] inputs[i])
    &&& forall|i: int| 0 <= i < outputs.len() ==> encodable_output(#[trigger] outputs[i])
}

/// A length or position, in eight bytes.
pub open spec fn encode_len(n: nat) -> Seq<u8> {
    spec_u64_to_le_bytes(n as u64)
}

/// A byte string: its length, then its bytes.
pub open spec fn encode_bytes(bytes: Seq<u8>) -> Seq<u8> {
    encode_len(bytes.len()) + bytes
}

/// A text: its UTF-8 bytes as a byte string.
pub open spec fn encode_text(text: Seq<char>) -> Seq<u8> {
    encode_bytes(encode_utf8(text))
}

/// The 32-bit two's complement pattern of an amount.
pub open spec fn value_bits(value: i32) -> u32 {
    if value >= 0 {
        value as u32
    } else {
        (value + 0x1_0000_0000) as u32
    }
}

/// An amount, in four bytes.
pub open spec fn encode_value(value: i32) -> Seq<u8> {
    spec_u32_to_le_bytes(value_bits(value))
}

/// An input: prior identifier, output position, signature, public key.
pub open spec fn encode_input(input: TxinputView) -> Seq<u8> {
    encode_text(input.txid) + encode_len(input.vout as nat) + encode_bytes(input.signature)
        + encode_bytes(input.pub_key)
}

/// An output: amount, locking hash.
pub open spec fn encode_output(output: TxoutputView) -> Seq<u8> {
    encode_value(output.value) + encode_bytes(output.pub_key_hash)
}

/// The inputs, one after another.
pub open spec fn encode_inputs(inputs: Seq<TxinputView>) -> Seq<u8>
    decreases inputs.len(),
{
    if inputs.len() == 0 {
        Seq::empty()
    } else {
        encode_inputs(inputs.drop_last()) + encode_input(inputs.last())
    }
}

/// The outputs, one after another.
pub open spec fn encode_outputs(outputs: Seq<TxoutputView>) -> Seq<u8>
    decreases outputs.len(),
{
    if outputs.len() == 0 {
        Seq::empty()
    } else {
        encode_outputs(outputs.drop_last()) + encode_output(outputs.last())
    }
}

/// A whole transaction: identifier, counted inputs, counted outputs.
pub open spec fn encode_transaction(
    id: Seq<char>,
    inputs: Seq<TxinputView>,
    outputs: Seq<TxoutputView>,
) -> Seq<u8> {
    encode_text(id) + encode_len(inputs.len()) + encode_inputs(inputs) + encode_len(outputs.len())
        + encode_outputs(outputs)
}

fn write_len(out: &mut Vec<u8>, n: usize)
    ensures
        final(out)@ == old(out)@ + encode_len(n as nat),
{
    let mut bytes = u64_to_le_bytes(n as u64);
    out.append(&mut bytes);
}

fn write_bytes(out: &mut Vec<u8>, bytes: &[u8])
    ensures
        final(out)@ == old(out)@ + encode_bytes(bytes@),
        fits_len(bytes@.len()),
{
    write_len(out, bytes.len());
    let mut copy = copy_bytes(bytes);
    out.append(&mut copy);
    proof {
        assert(out@ =~= old(out)@ + encode_bytes(bytes@));
    }
}

fn write_text(out: &mut Vec<u8>, text: &str)
    ensures
        final(out)@ == old(out)@ + encode_text(text@),
        fits_len(encode_utf8(text@).len()),
{
    write_bytes(out, text.as_bytes());
}

fn write_value(out: &mut Vec<u8>, value: i32)
    ensures
        final(out)@ == old(out)@ + encode_value(value),
{
    let bits: u32 = if value >= 0 {
        value as u32
    } else {
        (value as i64 + 0x1_0000_0000i64) as u32
    };
    let mut bytes = u32_to_le_bytes(bits);
    out.append(&mut bytes);
}

fn write_input(out: &mut Vec<u8>, input: &Txinput)
    ensures
        final(out)@ == old(out)@ + encode_input(input@),
        encodable_input(input@),
{
    write_text(out, input.txid.as_str());
    write_len(out, input.vout);
    write_bytes(out, input.signature.as_slice());
    write_bytes(out, input.pub_key.as_slice());
    proof {
        assert(out@ =~= old(out)@ + encode_input(input@));
    }
}

fn write_output(out: &mut Vec<u8>, output: &Txoutput)
    ensures
        final(out)@ == old(out)@ + encode_output(output@),
        encodable_output(output@),
{
    write_value(out, output.value);
    write_bytes(out, output.pub_key_hash.as_slice());
    proof {
        assert(out@ =~= old(out)@ + encode_output(output@));
    }
}

/// Encodes a transaction's identifier, inputs and outputs canonically.
pub fn encode(id: &str, inputs: &[Txinput], outputs: &[Txoutput]) -> (bytes: Vec<u8>)
    ensures
        bytes@ == encode_transaction(id@, input_views(inputs@), output_views(outputs@)),
        encodable_parts(id@, input_views(inputs@), output_views(outputs@)),
{
    let ghost vin = input_views(inputs@);
    let ghost vout = output_views(outputs@);
    let mut out: Vec<u8> = Vec::new();
    write_text(&mut out, id);
    write_len(&mut out, inputs.len());
    let ghost head = out@;
    let mut i: usize = 0;
    while i < inputs.len()
        invariant
            i <= inputs.len(),
            vin == input_views(inputs@),
            out@ == head + encode_inputs(vin.take(i as int)),
            forall|k: int| 0 <= k < i ==> encodable_input(#[trigger] vin[k]),
        decreases inputs.len() - i,
    {
        write_input(&mut out, &inputs[i]);
        proof {
            let next = vin.take(i + 1);
            assert(next.drop_last() =~= vin.take(i as int));
            assert(next.last() == inputs@[i as int]@);
            assert(out@ =~= head + encode_inputs(next));
        }
        i = i + 1;
    }
    proof {
        assert(vin.take(inputs@.len() as int) =~= vin);
    }
    write_len(&mut out, outputs.len());
    let ghost middle = out@;
    let mut j: usize = 0;
    while j < outputs.len()
        invariant
            j <= outputs.len(),
            vout == output_views(outputs@),
            out@ == middle + encode_outputs(vout.take(j as int)),
            forall|k: int| 0 <= k < j ==> encodable_output(#[trigger] vout[k]),
        decreases outputs.len() - j,
    {
        write_output(&mut out, &outputs[j]);
        proof {
            let next = vout.take(j + 1);
            assert(next.drop_last() =~= vout.take(j as int));
            assert(next.last() == outputs@[j as int]@);
            assert(out@ =~= middle + encode_outputs(next));
        }
        j = j + 1;
    }
    proof {
        assert(vout.take(outputs@.len() as int) =~= vout);
        assert(out@ =~= encode_transaction(id@, vin, vout));
    }
    out
}

} // verus!
