//! Deterministic byte codec for headers, transactions and blocks.
//!
//! The serialization is order-stable and length-stable: fields are
//! concatenated in declaration order, fixed-width integers are encoded
//! little-endian, and variable-length byte strings and lists carry an
//! 8-byte little-endian count.  The same bytes feed both the proof-of-work
//! hash and the storage blob, so the layout must be reproduced bit for bit.

use vstd::prelude::*;
use vstd::bytes::{
    spec_u32_to_le_bytes, spec_u64_to_le_bytes, spec_u32_from_le_bytes, spec_u64_from_le_bytes,
    u32_to_le_bytes, u64_to_le_bytes,
};
use crate::block::{Block, BlockHeader, BlockView, HeaderView};
use crate::hash::Hash256;
use crate::transaction::{
    InputView, OutputView, Transaction, TransactionInput, TransactionOutput, TransactionView,
};

verus! {

// ---------------------------------------------------------------------
// Serialization, at the specification level.
// ---------------------------------------------------------------------

/// Serialized header: version, previous digest, Merkle root, timestamp,
/// bits, nonce — 88 bytes.
pub open spec fn spec_serialize_header(h: HeaderView) -> Seq<u8> {
    spec_u32_to_le_bytes(h.version) + h.previous_block + h.merkle_root + spec_u64_to_le_bytes(
        h.timestamp,
    ) + spec_u32_to_le_bytes(h.bits) + spec_u64_to_le_bytes(h.nonce)
}

/// Serialized input: previous-output digest, output index, then the
/// length-prefixed signature and public key.
pub open spec fn spec_serialize_input(i: InputView) -> Seq<u8> {
    i.previous_output + spec_u32_to_le_bytes(i.output_index) + spec_u64_to_le_bytes(
        i.signature.len() as u64,
    ) + i.signature + spec_u64_to_le_bytes(i.public_key.len() as u64) + i.public_key
}

/// Serialized output: amount, then the length-prefixed recipient.
pub open spec fn spec_serialize_output(o: OutputView) -> Seq<u8> {
    spec_u64_to_le_bytes(o.amount) + spec_u64_to_le_bytes(o.recipient.len() as u64) + o.recipient
}

/// Concatenation of serialized inputs, in order.
pub open spec fn spec_serialize_inputs(s: Seq<InputView>) -> Seq<u8>
    decreases s.len(),
{
    if s.len() == 0 {
        Seq::empty()
    } else {
        spec_serialize_input(s[0]) + spec_serialize_inputs(s.drop_first())
    }
}

/// Concatenation of serialized outputs, in order.
pub open spec fn spec_serialize_outputs(s: Seq<OutputView>) -> Seq<u8>
    decreases s.len(),
{
    if s.len() == 0 {
        Seq::empty()
    } else {
        spec_serialize_output(s[0]) + spec_serialize_outputs(s.drop_first())
    }
}

/// Serialized transaction: version, the counted input list, the counted
/// output list, locktime.
pub open spec fn spec_serialize_tx(t: TransactionView) -> Seq<u8> {
    spec_u32_to_le_bytes(t.version) + spec_u64_to_le_bytes(t.inputs.len() as u64)
        + spec_serialize_inputs(t.inputs) + spec_u64_to_le_bytes(t.outputs.len() as u64)
        + spec_serialize_outputs(t.outputs) + spec_u64_to_le_bytes(t.locktime)
}

/// Concatenation of serialized transactions, in order.
pub open spec fn spec_serialize_txs(s: Seq<TransactionView>) -> Seq<u8>
    decreases s.len(),
{
    if s.len() == 0 {
        Seq::empty()
    } else {
        spec_serialize_tx(s[0]) + spec_serialize_txs(s.drop_first())
    }
}

/// Serialized block: the header, then the counted transaction list.
pub open spec fn spec_serialize_block(b: BlockView) -> Seq<u8> {
    spec_serialize_header(b.header) + spec_u64_to_le_bytes(b.transactions.len() as u64)
        + spec_serialize_txs(b.transactions)
}

/// A well-formed header serializes to exactly 88 bytes: 4 for the
/// version, 32 for each digest, 8 for the timestamp, 4 for the bits and
/// 8 for the nonce.
pub proof fn lemma_serialize_header_len(h: HeaderView)
    requires
        spec_header_codec_wf(h),
    ensures
        spec_serialize_header(h).len() == 88,
{
    vstd::bytes::lemma_auto_spec_u32_to_from_le_bytes();
    vstd::bytes::lemma_auto_spec_u64_to_from_le_bytes();
}

// ---------------------------------------------------------------------
// Appending one element to a serialized list.
// ---------------------------------------------------------------------

/// Serializing a list with one more input appends that input's bytes.
pub proof fn lemma_serialize_inputs_snoc(s: Seq<InputView>, x: InputView)
    ensures
        spec_serialize_inputs(s.push(x)) == spec_serialize_inputs(s) + spec_serialize_input(x),
    decreases s.len(),
{
    let t = s.push(x);
    if s.len() == 0 {
        assert(t[0] == x);
        assert(t.drop_first() =~= Seq::<InputView>::empty());
        assert(spec_serialize_inputs(t.drop_first()) == Seq::<u8>::empty());
        assert(spec_serialize_inputs(t) == spec_serialize_input(x) + Seq::<u8>::empty());
        assert(spec_serialize_input(x) + Seq::<u8>::empty() =~= Seq::<u8>::empty()
            + spec_serialize_input(x));
        assert(spec_serialize_inputs(s) == Seq::<u8>::empty());
    } else {
        assert(t.drop_first() =~= s.drop_first().push(x));
        lemma_serialize_inputs_snoc(s.drop_first(), x);
        assert(t[0] == s[0]);
        assert(spec_serialize_inputs(t) == spec_serialize_input(t[0]) + spec_serialize_inputs(
            t.drop_first(),
        ));
        assert(spec_serialize_input(s[0]) + (spec_serialize_inputs(s.drop_first())
            + spec_serialize_input(x)) =~= (spec_serialize_input(s[0]) + spec_serialize_inputs(
            s.drop_first(),
        )) + spec_serialize_input(x));
        assert(spec_serialize_inputs(s) == spec_serialize_input(s[0]) + spec_serialize_inputs(
            s.drop_first(),
        ));
    }
}

/// Serializing a list with one more output appends that output's bytes.
pub proof fn lemma_serialize_outputs_snoc(s: Seq<OutputView>, x: OutputView)
    ensures
        spec_serialize_outputs(s.push(x)) == spec_serialize_outputs(s) + spec_serialize_output(x),
    decreases s.len(),
{
    let t = s.push(x);
    if s.len() == 0 {
        assert(t[0] == x);
        assert(t.drop_first() =~= Seq::<OutputView>::empty());
        assert(spec_serialize_outputs(t.drop_first()) == Seq::<u8>::empty());
        assert(spec_serialize_outputs(t) == spec_serialize_output(x) + Seq::<u8>::empty());
        assert(spec_serialize_output(x) + Seq::<u8>::empty() =~= Seq::<u8>::empty()
            + spec_serialize_output(x));
        assert(spec_serialize_outputs(s) == Seq::<u8>::empty());
    } else {
        assert(t.drop_first() =~= s.drop_first().push(x));
        lemma_serialize_outputs_snoc(s.drop_first(), x);
        assert(t[0] == s[0]);
        assert(spec_serialize_outputs(t) == spec_serialize_output(t[0]) + spec_serialize_outputs(
            t.drop_first(),
        ));
        assert(spec_serialize_output(s[0]) + (spec_serialize_outputs(s.drop_first())
            + spec_serialize_output(x)) =~= (spec_serialize_output(s[0]) + spec_serialize_outputs(
            s.drop_first(),
        )) + spec_serialize_output(x));
        assert(spec_serialize_outputs(s) == spec_serialize_output(s[0]) + spec_serialize_outputs(
            s.drop_first(),
        ));
    }
}

/// Serializing a list with one more transaction appends its bytes.
pub proof fn lemma_serialize_txs_snoc(s: Seq<TransactionView>, x: TransactionView)
    ensures
        spec_serialize_txs(s.push(x)) == spec_serialize_txs(s) + spec_serialize_tx(x),
    decreases s.len(),
{
    let t = s.push(x);
    if s.len() == 0 {
        assert(t[0] == x);
        assert(t.drop_first() =~= Seq::<TransactionView>::empty());
        assert(spec_serialize_txs(t.drop_first()) == Seq::<u8>::empty());
        assert(spec_serialize_txs(t) == spec_serialize_tx(x) + Seq::<u8>::empty());
        assert(spec_serialize_tx(x) + Seq::<u8>::empty() =~= Seq::<u8>::empty()
            + spec_serialize_tx(x));
        assert(spec_serialize_txs(s) == Seq::<u8>::empty());
    } else {
        assert(t.drop_first() =~= s.drop_first().push(x));
        lemma_serialize_txs_snoc(s.drop_first(), x);
        assert(t[0] == s[0]);
        assert(spec_serialize_txs(t) == spec_serialize_tx(t[0]) + spec_serialize_txs(
            t.drop_first(),
        ));
        assert(spec_serialize_tx(s[0]) + (spec_serialize_txs(s.drop_first())
            + spec_serialize_tx(x)) =~= (spec_serialize_tx(s[0]) + spec_serialize_txs(
            s.drop_first(),
        )) + spec_serialize_tx(x));
        assert(spec_serialize_txs(s) == spec_serialize_tx(s[0]) + spec_serialize_txs(
            s.drop_first(),
        ));
    }
}

// ---------------------------------------------------------------------
// Encoders.
// ---------------------------------------------------------------------

/// Append the bytes of a vector.
fn push_vec(out: &mut Vec<u8>, s: &Vec<u8>)
    ensures
        final(out)@ == old(out)@ + s@,
{
    let mut i: usize = 0;
    while i < s.len()
        invariant
            i <= s@.len(),
            out@ == old(out)@ + s@.take(i as int),
        decreases s@.len() - i,
    {
        out.push(s[i]);
        proof {
            assert(old(out)@ + s@.take(i + 1) =~= (old(out)@ + s@.take(i as int)).push(
                s@[i as int],
            ));
        }
        i = i + 1;
    }
    proof {
        assert(s@.take(s@.len() as int) =~= s@);
    }
}

/// Append the 32 bytes of a digest.
fn push_digest(out: &mut Vec<u8>, h: &Hash256)
    ensures
        final(out)@ == old(out)@ + h@,
{
    let bytes = h.as_bytes();
    let mut i: usize = 0;
    while i < 32
        invariant
            i <= 32,
            bytes@ == h@,
            h@.len() == 32,
            out@ == old(out)@ + h@.take(i as int),
        decreases 32 - i,
    {
        out.push(bytes[i]);
        proof {
            assert(old(out)@ + h@.take(i + 1) =~= (old(out)@ + h@.take(i as int)).push(
                h@[i as int],
            ));
        }
        i = i + 1;
    }
    proof {
        assert(h@.take(h@.len() as int) =~= h@);
    }
}

/// Append a little-endian 32-bit integer.
fn push_u32(out: &mut Vec<u8>, v: u32)
    ensures
        final(out)@ == old(out)@ + spec_u32_to_le_bytes(v),
{
    let bytes = u32_to_le_bytes(v);
    push_vec(out, &bytes);
}

/// Append a little-endian 64-bit integer.
fn push_u64(out: &mut Vec<u8>, v: u64)
    ensures
        final(out)@ == old(out)@ + spec_u64_to_le_bytes(v),
{
    let bytes = u64_to_le_bytes(v);
    push_vec(out, &bytes);
}

/// Append a serialized header.
fn encode_header_into(out: &mut Vec<u8>, h: &BlockHeader)
    ensures
        final(out)@ == old(out)@ + spec_serialize_header(h@),
{
    push_u32(out, h.version);
    push_digest(out, &h.previous_block);
    push_digest(out, &h.merkle_root);
    push_u64(out, h.timestamp);
    push_u32(out, h.bits);
    push_u64(out, h.nonce);
    proof {
        assert(out@ =~= old(out)@ + spec_serialize_header(h@));
    }
}

/// Serialize a block header to its 88-byte form.
pub fn encode_header(h: &BlockHeader) -> (r: Vec<u8>)
    ensures
        r@ == spec_serialize_header(h@),
{
    let mut out: Vec<u8> = Vec::new();
    encode_header_into(&mut out, h);
    proof {
        assert(Seq::<u8>::empty() + spec_serialize_header(h@) =~= spec_serialize_header(h@));
    }
    out
}

/// Append a serialized transaction input.
fn encode_input_into(out: &mut Vec<u8>, input: &TransactionInput)
    ensures
        final(out)@ == old(out)@ + spec_serialize_input(input@),
{
    push_digest(out, &input.previous_output);
    push_u32(out, input.output_index);
    push_u64(out, input.signature.len() as u64);
    push_vec(out, &input.signature);
    push_u64(out, input.public_key.len() as u64);
    push_vec(out, &input.public_key);
    proof {
        assert(out@ =~= old(out)@ + spec_serialize_input(input@));
    }
}

/// Append a serialized transaction output.
fn encode_output_into(out: &mut Vec<u8>, output: &TransactionOutput)
    ensures
        final(out)@ == old(out)@ + spec_serialize_output(output@),
{
    push_u64(out, output.amount);
    push_u64(out, output.recipient.len() as u64);
    push_vec(out, &output.recipient);
    proof {
        assert(out@ =~= old(out)@ + spec_serialize_output(output@));
    }
}

/// Serialize a transaction output, as stored in the spendable-output set.
pub fn encode_output(output: &TransactionOutput) -> (r: Vec<u8>)
    ensures
        r@ == spec_serialize_output(output@),
{
    let mut out: Vec<u8> = Vec::new();
    encode_output_into(&mut out, output);
    proof {
        assert(Seq::<u8>::empty() + spec_serialize_output(output@) =~= spec_serialize_output(
            output@,
        ));
    }
    out
}

/// Append a serialized transaction.
fn encode_tx_into(out: &mut Vec<u8>, t: &Transaction)
    ensures
        final(out)@ == old(out)@ + spec_serialize_tx(t@),
{
    push_u32(out, t.version);
    push_u64(out, t.inputs.len() as u64);
    let ghost base = out@;
    let mut k: usize = 0;
    while k < t.inputs.len()
        invariant
            k <= t.inputs@.len(),
            t@.inputs.len() == t.inputs@.len(),
            out@ == base + spec_serialize_inputs(t@.inputs.take(k as int)),
        decreases t.inputs@.len() - k,
    {
        encode_input_into(out, &t.inputs[k]);
        proof {
            assert(t@.inputs.take(k + 1) =~= t@.inputs.take(k as int).push(t@.inputs[k as int]));
            lemma_serialize_inputs_snoc(t@.inputs.take(k as int), t@.inputs[k as int]);
            assert(t@.inputs[k as int] == t.inputs@[k as int]@);
            assert(base + spec_serialize_inputs(t@.inputs.take(k + 1)) =~= (base
                + spec_serialize_inputs(t@.inputs.take(k as int))) + spec_serialize_input(
                t@.inputs[k as int],
            ));
        }
        k = k + 1;
    }
    proof {
        assert(t@.inputs.take(t@.inputs.len() as int) =~= t@.inputs);
    }
    push_u64(out, t.outputs.len() as u64);
    let ghost base2 = out@;
    let mut k: usize = 0;
    while k < t.outputs.len()
        invariant
            k <= t.outputs@.len(),
            t@.outputs.len() == t.outputs@.len(),
            out@ == base2 + spec_serialize_outputs(t@.outputs.take(k as int)),
        decreases t.outputs@.len() - k,
    {
        encode_output_into(out, &t.outputs[k]);
        proof {
            assert(t@.outputs.take(k + 1) =~= t@.outputs.take(k as int).push(
                t@.outputs[k as int],
            ));
            lemma_serialize_outputs_snoc(t@.outputs.take(k as int), t@.outputs[k as int]);
            assert(t@.outputs[k as int] == t.outputs@[k as int]@);
            assert(base2 + spec_serialize_outputs(t@.outputs.take(k + 1)) =~= (base2
                + spec_serialize_outputs(t@.outputs.take(k as int))) + spec_serialize_output(
                t@.outputs[k as int],
            ));
        }
        k = k + 1;
    }
    proof {
        assert(t@.outputs.take(t@.outputs.len() as int) =~= t@.outputs);
    }
    push_u64(out, t.locktime);
    proof {
        assert(out@ =~= old(out)@ + spec_serialize_tx(t@));
    }
}

/// Serialize a transaction.
pub fn encode_tx(t: &Transaction) -> (r: Vec<u8>)
    ensures
        r@ == spec_serialize_tx(t@),
{
    let mut out: Vec<u8> = Vec::new();
    encode_tx_into(&mut out, t);
    proof {
        assert(Seq::<u8>::empty() + spec_serialize_tx(t@) =~= spec_serialize_tx(t@));
    }
    out
}

/// Serialize a block to the opaque byte blob the storage layer keeps.
pub fn encode_block(b: &Block) -> (r: Vec<u8>)
    ensures
        r@ == spec_serialize_block(b@),
{
    let mut out: Vec<u8> = Vec::new();
    encode_header_into(&mut out, &b.header);
    push_u64(&mut out, b.transactions.len() as u64);
    let ghost base = out@;
    let mut k: usize = 0;
    while k < b.transactions.len()
        invariant
            k <= b.transactions@.len(),
            b@.transactions.len() == b.transactions@.len(),
            out@ == base + spec_serialize_txs(b@.transactions.take(k as int)),
        decreases b.transactions@.len() - k,
    {
        encode_tx_into(&mut out, &b.transactions[k]);
        proof {
            assert(b@.transactions.take(k + 1) =~= b@.transactions.take(k as int).push(
                b@.transactions[k as int],
            ));
            lemma_serialize_txs_snoc(b@.transactions.take(k as int), b@.transactions[k as int]);
            assert(b@.transactions[k as int] == b.transactions@[k as int]@);
            assert(base + spec_serialize_txs(b@.transactions.take(k + 1)) =~= (base
                + spec_serialize_txs(b@.transactions.take(k as int))) + spec_serialize_tx(
                b@.transactions[k as int],
            ));
        }
        k = k + 1;
    }
    proof {
        assert(b@.transactions.take(b@.transactions.len() as int) =~= b@.transactions);
        assert(out@ =~= spec_serialize_block(b@));
    }
    out
}

// ---------------------------------------------------------------------
// The decoder, at the specification level.
// ---------------------------------------------------------------------

/// Codec-relevant well-formedness of an input model: a 32-byte digest and
/// byte strings whose lengths fit the 64-bit count field.
pub open spec fn spec_input_codec_wf(i: InputView) -> bool {
    &&& i.previous_output.len() == 32
    &&& i.signature.len() <= u64::MAX
    &&& i.public_key.len() <= u64::MAX
}

/// Codec-relevant well-formedness of an output model.
pub open spec fn spec_output_codec_wf(o: OutputView) -> bool {
    o.recipient.len() <= u64::MAX
}

/// Codec-relevant well-formedness of a transaction model.
pub open spec fn spec_tx_codec_wf(t: TransactionView) -> bool {
    &&& t.inputs.len() <= u64::MAX
    &&& t.outputs.len() <= u64::MAX
    &&& forall|k: int| 0 <= k < t.inputs.len() ==> spec_input_codec_wf(#[trigger] t.inputs[k])
    &&& forall|k: int| 0 <= k < t.outputs.len() ==> spec_output_codec_wf(#[trigger] t.outputs[k])
}

/// Codec-relevant well-formedness of a header model: 32-byte digests.
pub open spec fn spec_header_codec_wf(h: HeaderView) -> bool {
    h.previous_block.len() == 32 && h.merkle_root.len() == 32
}

/// Codec-relevant well-formedness of a block model.
pub open spec fn spec_block_codec_wf(b: BlockView) -> bool {
    &&& spec_header_codec_wf(b.header)
    &&& b.transactions.len() <= u64::MAX
    &&& forall|k: int|
        0 <= k < b.transactions.len() ==> spec_tx_codec_wf(#[trigger] b.transactions[k])
}

/// Read a little-endian 32-bit integer at a position.
pub open spec fn spec_read_u32(bytes: Seq<u8>, pos: int) -> Option<(u32, int)> {
    if 0 <= pos && pos + 4 <= bytes.len() {
        Some((spec_u32_from_le_bytes(bytes.subrange(pos, pos + 4)), pos + 4))
    } else {
        None
    }
}

/// Read a little-endian 64-bit integer at a position.
pub open spec fn spec_read_u64(bytes: Seq<u8>, pos: int) -> Option<(u64, int)> {
    if 0 <= pos && pos + 8 <= bytes.len() {
        Some((spec_u64_from_le_bytes(bytes.subrange(pos, pos + 8)), pos + 8))
    } else {
        None
    }
}

/// Read a byte string of a given length at a position.
pub open spec fn spec_read_bytes(bytes: Seq<u8>, pos: int, n: int) -> Option<(Seq<u8>, int)> {
    if 0 <= pos && 0 <= n && pos + n <= bytes.len() {
        Some((bytes.subrange(pos, pos + n), pos + n))
    } else {
        None
    }
}

/// Decode one transaction input at a position.
pub open spec fn spec_decode_input(bytes: Seq<u8>, pos: int) -> Option<(InputView, int)> {
    match spec_read_bytes(bytes, pos, 32) {
        None => None,
        Some((prev, p1)) => match spec_read_u32(bytes, p1) {
            None => None,
            Some((idx, p2)) => match spec_read_u64(bytes, p2) {
                None => None,
                Some((siglen, p3)) => match spec_read_bytes(bytes, p3, siglen as int) {
                    None => None,
                    Some((sig, p4)) => match spec_read_u64(bytes, p4) {
                        None => None,
                        Some((pklen, p5)) => match spec_read_bytes(bytes, p5, pklen as int) {
                            None => None,
                            Some((pk, p6)) => Some(
                                (
                                    InputView {
                                        previous_output: prev,
                                        output_index: idx,
                                        signature: sig,
                                        public_key: pk,
                                    },
                                    p6,
                                ),
                            ),
                        },
                    },
                },
            },
        },
    }
}

/// Decode one transaction output at a position.
pub open spec fn spec_decode_output(bytes: Seq<u8>, pos: int) -> Option<(OutputView, int)> {
    match spec_read_u64(bytes, pos) {
        None => None,
        Some((amount, p1)) => match spec_read_u64(bytes, p1) {
            None => None,
            Some((rlen, p2)) => match spec_read_bytes(bytes, p2, rlen as int) {
                None => None,
                Some((recipient, p3)) => Some((OutputView { amount, recipient }, p3)),
            },
        },
    }
}

/// Decode a run of transaction inputs.
pub open spec fn spec_decode_inputs(bytes: Seq<u8>, pos: int, count: int) -> Option<
    (Seq<InputView>, int),
>
    decreases count,
{
    if count <= 0 {
        Some((Seq::empty(), pos))
    } else {
        match spec_decode_input(bytes, pos) {
            None => None,
            Some((x, p1)) => match spec_decode_inputs(bytes, p1, count - 1) {
                None => None,
                Some((s, p2)) => Some((seq![x] + s, p2)),
            },
        }
    }
}

/// Decode a run of transaction outputs.
pub open spec fn spec_decode_outputs(bytes: Seq<u8>, pos: int, count: int) -> Option<
    (Seq<OutputView>, int),
>
    decreases count,
{
    if count <= 0 {
        Some((Seq::empty(), pos))
    } else {
        match spec_decode_output(bytes, pos) {
            None => None,
            Some((x, p1)) => match spec_decode_outputs(bytes, p1, count - 1) {
                None => None,
                Some((s, p2)) => Some((seq![x] + s, p2)),
            },
        }
    }
}

/// Decode one transaction at a position.
pub open spec fn spec_decode_tx(bytes: Seq<u8>, pos: int) -> Option<(TransactionView, int)> {
    match spec_read_u32(bytes, pos) {
        None => None,
        Some((version, p1)) => match spec_read_u64(bytes, p1) {
            None => None,
            Some((nin, p2)) => match spec_decode_inputs(bytes, p2, nin as int) {
                None => None,
                Some((inputs, p3)) => match spec_read_u64(bytes, p3) {
                    None => None,
                    Some((nout, p4)) => match spec_decode_outputs(bytes, p4, nout as int) {
                        None => None,
                        Some((outputs, p5)) => match spec_read_u64(bytes, p5) {
                            None => None,
                            Some((locktime, p6)) => Some(
                                (TransactionView { version, inputs, outputs, locktime }, p6),
                            ),
                        },
                    },
                },
            },
        },
    }
}

/// Decode a run of transactions.
pub open spec fn spec_decode_txs(bytes: Seq<u8>, pos: int, count: int) -> Option<
    (Seq<TransactionView>, int),
>
    decreases count,
{
    if count <= 0 {
        Some((Seq::empty(), pos))
    } else {
        match spec_decode_tx(bytes, pos) {
            None => None,
            Some((x, p1)) => match spec_decode_txs(bytes, p1, count - 1) {
                None => None,
                Some((s, p2)) => Some((seq![x] + s, p2)),
            },
        }
    }
}

/// Decode a block header at a position.
pub open spec fn spec_decode_header(bytes: Seq<u8>, pos: int) -> Option<(HeaderView, int)> {
    match spec_read_u32(bytes, pos) {
        None => None,
        Some((version, p1)) => match spec_read_bytes(bytes, p1, 32) {
            None => None,
            Some((prev, p2)) => match spec_read_bytes(bytes, p2, 32) {
                None => None,
                Some((root, p3)) => match spec_read_u64(bytes, p3) {
                    None => None,
                    Some((timestamp, p4)) => match spec_read_u32(bytes, p4) {
                        None => None,
                        Some((bits, p5)) => match spec_read_u64(bytes, p5) {
                            None => None,
                            Some((nonce, p6)) => Some(
                                (
                                    HeaderView {
                                        version,
                                        previous_block: prev,
                                        merkle_root: root,
                                        timestamp,
                                        bits,
                                        nonce,
                                    },
                                    p6,
                                ),
                            ),
                        },
                    },
                },
            },
        },
    }
}

/// Decode a block from a complete byte blob.  Every byte must be
/// consumed: trailing data makes the blob malformed.
pub open spec fn spec_decode_block(bytes: Seq<u8>) -> Option<BlockView> {
    match spec_decode_header(bytes, 0) {
        None => None,
        Some((h, p1)) => match spec_read_u64(bytes, p1) {
            None => None,
            Some((n, p2)) => match spec_decode_txs(bytes, p2, n as int) {
                None => None,
                Some((txs, p3)) => if p3 == bytes.len() {
                    Some(BlockView { header: h, transactions: txs })
                } else {
                    None
                },
            },
        },
    }
}

// ---------------------------------------------------------------------
// Decoding inverts serialization.
// ---------------------------------------------------------------------

/// Reading a 32-bit integer where its encoding was written recovers it.
pub proof fn lemma_read_u32_at(prefix: Seq<u8>, x: u32, suffix: Seq<u8>)
    ensures
        spec_read_u32(prefix + spec_u32_to_le_bytes(x) + suffix, prefix.len() as int) == Some(
            (x, prefix.len() as int + 4),
        ),
{
    vstd::bytes::lemma_auto_spec_u32_to_from_le_bytes();
    let bytes = prefix + spec_u32_to_le_bytes(x) + suffix;
    let p = prefix.len() as int;
    assert(bytes.subrange(p, p + 4) =~= spec_u32_to_le_bytes(x));
}

/// Reading a 64-bit integer where its encoding was written recovers it.
pub proof fn lemma_read_u64_at(prefix: Seq<u8>, x: u64, suffix: Seq<u8>)
    ensures
        spec_read_u64(prefix + spec_u64_to_le_bytes(x) + suffix, prefix.len() as int) == Some(
            (x, prefix.len() as int + 8),
        ),
{
    vstd::bytes::lemma_auto_spec_u64_to_from_le_bytes();
    let bytes = prefix + spec_u64_to_le_bytes(x) + suffix;
    let p = prefix.len() as int;
    assert(bytes.subrange(p, p + 8) =~= spec_u64_to_le_bytes(x));
}

/// Reading a byte string where it was written recovers it.
pub proof fn lemma_read_bytes_at(prefix: Seq<u8>, data: Seq<u8>, suffix: Seq<u8>)
    ensures
        spec_read_bytes(prefix + data + suffix, prefix.len() as int, data.len() as int) == Some(
            (data, prefix.len() as int + data.len()),
        ),
{
    let bytes = prefix + data + suffix;
    let p = prefix.len() as int;
    assert(bytes.subrange(p, p + data.len()) =~= data);
}

/// Decoding where an input was serialized recovers that input.
pub proof fn lemma_decode_input_at(prefix: Seq<u8>, i: InputView, suffix: Seq<u8>)
    requires
        spec_input_codec_wf(i),
    ensures
        spec_decode_input(prefix + spec_serialize_input(i) + suffix, prefix.len() as int) == Some(
            (i, prefix.len() as int + spec_serialize_input(i).len()),
        ),
{
    let d = i.previous_output;
    let f1 = spec_u32_to_le_bytes(i.output_index);
    let f2 = spec_u64_to_le_bytes(i.signature.len() as u64);
    let f3 = i.signature;
    let f4 = spec_u64_to_le_bytes(i.public_key.len() as u64);
    let f5 = i.public_key;
    vstd::bytes::lemma_auto_spec_u32_to_from_le_bytes();
    vstd::bytes::lemma_auto_spec_u64_to_from_le_bytes();
    let bytes = prefix + spec_serialize_input(i) + suffix;

    assert(bytes =~= prefix + d + (f1 + f2 + f3 + f4 + f5 + suffix));
    lemma_read_bytes_at(prefix, d, f1 + f2 + f3 + f4 + f5 + suffix);
    assert(bytes =~= (prefix + d) + f1 + (f2 + f3 + f4 + f5 + suffix));
    lemma_read_u32_at(prefix + d, i.output_index, f2 + f3 + f4 + f5 + suffix);
    assert(bytes =~= (prefix + d + f1) + f2 + (f3 + f4 + f5 + suffix));
    lemma_read_u64_at(prefix + d + f1, i.signature.len() as u64, f3 + f4 + f5 + suffix);
    assert(bytes =~= (prefix + d + f1 + f2) + f3 + (f4 + f5 + suffix));
    lemma_read_bytes_at(prefix + d + f1 + f2, f3, f4 + f5 + suffix);
    assert(bytes =~= (prefix + d + f1 + f2 + f3) + f4 + (f5 + suffix));
    lemma_read_u64_at(prefix + d + f1 + f2 + f3, i.public_key.len() as u64, f5 + suffix);
    assert(bytes =~= (prefix + d + f1 + f2 + f3 + f4) + f5 + suffix);
    lemma_read_bytes_at(prefix + d + f1 + f2 + f3 + f4, f5, suffix);

    let decoded = InputView {
        previous_output: d,
        output_index: i.output_index,
        signature: f3,
        public_key: f5,
    };
    assert(decoded =~= i);
}

/// Decoding where an output was serialized recovers that output.
pub proof fn lemma_decode_output_at(prefix: Seq<u8>, o: OutputView, suffix: Seq<u8>)
    requires
        spec_output_codec_wf(o),
    ensures
        spec_decode_output(prefix + spec_serialize_output(o) + suffix, prefix.len() as int)
            == Some((o, prefix.len() as int + spec_serialize_output(o).len())),
{
    let f1 = spec_u64_to_le_bytes(o.amount);
    let f2 = spec_u64_to_le_bytes(o.recipient.len() as u64);
    let f3 = o.recipient;
    vstd::bytes::lemma_auto_spec_u64_to_from_le_bytes();
    let bytes = prefix + spec_serialize_output(o) + suffix;

    assert(bytes =~= prefix + f1 + (f2 + f3 + suffix));
    lemma_read_u64_at(prefix, o.amount, f2 + f3 + suffix);
    assert(bytes =~= (prefix + f1) + f2 + (f3 + suffix));
    lemma_read_u64_at(prefix + f1, o.recipient.len() as u64, f3 + suffix);
    assert(bytes =~= (prefix + f1 + f2) + f3 + suffix);
    lemma_read_bytes_at(prefix + f1 + f2, f3, suffix);

    let decoded = OutputView { amount: o.amount, recipient: f3 };
    assert(decoded =~= o);
}

/// Decoding where a run of inputs was serialized recovers the run.
pub proof fn lemma_decode_inputs_at(prefix: Seq<u8>, s: Seq<InputView>, suffix: Seq<u8>)
    requires
        forall|k: int| 0 <= k < s.len() ==> spec_input_codec_wf(#[trigger] s[k]),
    ensures
        spec_decode_inputs(
            prefix + spec_serialize_inputs(s) + suffix,
            prefix.len() as int,
            s.len() as int,
        ) == Some((s, prefix.len() as int + spec_serialize_inputs(s).len())),
    decreases s.len(),
{
    let bytes = prefix + spec_serialize_inputs(s) + suffix;
    if s.len() == 0 {
        assert(spec_serialize_inputs(s) == Seq::<u8>::empty());
        assert(s =~= Seq::<InputView>::empty());
    } else {
        let head = s[0];
        let rest = s.drop_first();
        assert(forall|k: int|
            0 <= k < rest.len() ==> spec_input_codec_wf(#[trigger] rest[k])) by {
            assert(forall|k: int| 0 <= k < rest.len() ==> rest[k] == s[k + 1]);
        }
        assert(spec_serialize_inputs(s) == spec_serialize_input(head) + spec_serialize_inputs(
            rest,
        ));
        assert(bytes =~= prefix + spec_serialize_input(head) + (spec_serialize_inputs(rest)
            + suffix));
        lemma_decode_input_at(prefix, head, spec_serialize_inputs(rest) + suffix);
        assert(bytes =~= (prefix + spec_serialize_input(head)) + spec_serialize_inputs(rest)
            + suffix);
        lemma_decode_inputs_at(prefix + spec_serialize_input(head), rest, suffix);
        assert(seq![head] + rest =~= s);
    }
}

/// Decoding where a run of outputs was serialized recovers the run.
pub proof fn lemma_decode_outputs_at(prefix: Seq<u8>, s: Seq<OutputView>, suffix: Seq<u8>)
    requires
        forall|k: int| 0 <= k < s.len() ==> spec_output_codec_wf(#[trigger] s[k]),
    ensures
        spec_decode_outputs(
            prefix + spec_serialize_outputs(s) + suffix,
            prefix.len() as int,
            s.len() as int,
        ) == Some((s, prefix.len() as int + spec_serialize_outputs(s).len())),
    decreases s.len(),
{
    let bytes = prefix + spec_serialize_outputs(s) + suffix;
    if s.len() == 0 {
        assert(spec_serialize_outputs(s) == Seq::<u8>::empty());
        assert(s =~= Seq::<OutputView>::empty());
    } else {
        let head = s[0];
        let rest = s.drop_first();
        assert(forall|k: int|
            0 <= k < rest.len() ==> spec_output_codec_wf(#[trigger] rest[k])) by {
            assert(forall|k: int| 0 <= k < rest.len() ==> rest[k] == s[k + 1]);
        }
        assert(spec_serialize_outputs(s) == spec_serialize_output(head) + spec_serialize_outputs(
            rest,
        ));
        assert(bytes =~= prefix + spec_serialize_output(head) + (spec_serialize_outputs(rest)
            + suffix));
        lemma_decode_output_at(prefix, head, spec_serialize_outputs(rest) + suffix);
        assert(bytes =~= (prefix + spec_serialize_output(head)) + spec_serialize_outputs(rest)
            + suffix);
        lemma_decode_outputs_at(prefix + spec_serialize_output(head), rest, suffix);
        assert(seq![head] + rest =~= s);
    }
}

/// Decoding where a transaction was serialized recovers that transaction.
pub proof fn lemma_decode_tx_at(prefix: Seq<u8>, t: TransactionView, suffix: Seq<u8>)
    requires
        spec_tx_codec_wf(t),
    ensures
        spec_decode_tx(prefix + spec_serialize_tx(t) + suffix, prefix.len() as int) == Some(
            (t, prefix.len() as int + spec_serialize_tx(t).len()),
        ),
{
    let g1 = spec_u32_to_le_bytes(t.version);
    let g2 = spec_u64_to_le_bytes(t.inputs.len() as u64);
    let gi = spec_serialize_inputs(t.inputs);
    let g3 = spec_u64_to_le_bytes(t.outputs.len() as u64);
    let go = spec_serialize_outputs(t.outputs);
    let g4 = spec_u64_to_le_bytes(t.locktime);
    vstd::bytes::lemma_auto_spec_u32_to_from_le_bytes();
    vstd::bytes::lemma_auto_spec_u64_to_from_le_bytes();
    let bytes = prefix + spec_serialize_tx(t) + suffix;

    assert(bytes =~= prefix + g1 + (g2 + gi + g3 + go + g4 + suffix));
    lemma_read_u32_at(prefix, t.version, g2 + gi + g3 + go + g4 + suffix);
    assert(bytes =~= (prefix + g1) + g2 + (gi + g3 + go + g4 + suffix));
    lemma_read_u64_at(prefix + g1, t.inputs.len() as u64, gi + g3 + go + g4 + suffix);
    assert(bytes =~= (prefix + g1 + g2) + gi + (g3 + go + g4 + suffix));
    lemma_decode_inputs_at(prefix + g1 + g2, t.inputs, g3 + go + g4 + suffix);
    assert(bytes =~= (prefix + g1 + g2 + gi) + g3 + (go + g4 + suffix));
    lemma_read_u64_at(prefix + g1 + g2 + gi, t.outputs.len() as u64, go + g4 + suffix);
    assert(bytes =~= (prefix + g1 + g2 + gi + g3) + go + (g4 + suffix));
    lemma_decode_outputs_at(prefix + g1 + g2 + gi + g3, t.outputs, g4 + suffix);
    assert(bytes =~= (prefix + g1 + g2 + gi + g3 + go) + g4 + suffix);
    lemma_read_u64_at(prefix + g1 + g2 + gi + g3 + go, t.locktime, suffix);

    let decoded = TransactionView {
        version: t.version,
        inputs: t.inputs,
        outputs: t.outputs,
        locktime: t.locktime,
    };
    assert(decoded =~= t);
}

/// Decoding where a run of transactions was serialized recovers the run.
pub proof fn lemma_decode_txs_at(prefix: Seq<u8>, s: Seq<TransactionView>, suffix: Seq<u8>)
    requires
        forall|k: int| 0 <= k < s.len() ==> spec_tx_codec_wf(#[trigger] s[k]),
    ensures
        spec_decode_txs(
            prefix + spec_serialize_txs(s) + suffix,
            prefix.len() as int,
            s.len() as int,
        ) == Some((s, prefix.len() as int + spec_serialize_txs(s).len())),
    decreases s.len(),
{
    let bytes = prefix + spec_serialize_txs(s) + suffix;
    if s.len() == 0 {
        assert(spec_serialize_txs(s) == Seq::<u8>::empty());
        assert(s =~= Seq::<TransactionView>::empty());
    } else {
        let head = s[0];
        let rest = s.drop_first();
        assert(forall|k: int| 0 <= k < rest.len() ==> spec_tx_codec_wf(#[trigger] rest[k])) by {
            assert(forall|k: int| 0 <= k < rest.len() ==> rest[k] == s[k + 1]);
        }
        assert(spec_serialize_txs(s) == spec_serialize_tx(head) + spec_serialize_txs(rest));
        assert(bytes =~= prefix + spec_serialize_tx(head) + (spec_serialize_txs(rest) + suffix));
        lemma_decode_tx_at(prefix, head, spec_serialize_txs(rest) + suffix);
        assert(bytes =~= (prefix + spec_serialize_tx(head)) + spec_serialize_txs(rest) + suffix);
        lemma_decode_txs_at(prefix + spec_serialize_tx(head), rest, suffix);
        assert(seq![head] + rest =~= s);
    }
}

/// Decoding where a header was serialized recovers that header.
pub proof fn lemma_decode_header_at(prefix: Seq<u8>, h: HeaderView, suffix: Seq<u8>)
    requires
        spec_header_codec_wf(h),
    ensures
        spec_decode_header(prefix + spec_serialize_header(h) + suffix, prefix.len() as int)
            == Some((h, prefix.len() as int + spec_serialize_header(h).len())),
{
    let f1 = spec_u32_to_le_bytes(h.version);
    let d1 = h.previous_block;
    let d2 = h.merkle_root;
    let f2 = spec_u64_to_le_bytes(h.timestamp);
    let f3 = spec_u32_to_le_bytes(h.bits);
    let f4 = spec_u64_to_le_bytes(h.nonce);
    vstd::bytes::lemma_auto_spec_u32_to_from_le_bytes();
    vstd::bytes::lemma_auto_spec_u64_to_from_le_bytes();
    let bytes = prefix + spec_serialize_header(h) + suffix;

    assert(bytes =~= prefix + f1 + (d1 + d2 + f2 + f3 + f4 + suffix));
    lemma_read_u32_at(prefix, h.version, d1 + d2 + f2 + f3 + f4 + suffix);
    assert(bytes =~= (prefix + f1) + d1 + (d2 + f2 + f3 + f4 + suffix));
    lemma_read_bytes_at(prefix + f1, d1, d2 + f2 + f3 + f4 + suffix);
    assert(bytes =~= (prefix + f1 + d1) + d2 + (f2 + f3 + f4 + suffix));
    lemma_read_bytes_at(prefix + f1 + d1, d2, f2 + f3 + f4 + suffix);
    assert(bytes =~= (prefix + f1 + d1 + d2) + f2 + (f3 + f4 + suffix));
    lemma_read_u64_at(prefix + f1 + d1 + d2, h.timestamp, f3 + f4 + suffix);
    assert(bytes =~= (prefix + f1 + d1 + d2 + f2) + f3 + (f4 + suffix));
    lemma_read_u32_at(prefix + f1 + d1 + d2 + f2, h.bits, f4 + suffix);
    assert(bytes =~= (prefix + f1 + d1 + d2 + f2 + f3) + f4 + suffix);
    lemma_read_u64_at(prefix + f1 + d1 + d2 + f2 + f3, h.nonce, suffix);

    let decoded = HeaderView {
        version: h.version,
        previous_block: d1,
        merkle_root: d2,
        timestamp: h.timestamp,
        bits: h.bits,
        nonce: h.nonce,
    };
    assert(decoded =~= h);
}

/// The storage codec round trip: decoding a serialized block recovers
/// exactly that block.
pub proof fn lemma_block_codec_round_trip(b: BlockView)
    requires
        spec_block_codec_wf(b),
    ensures
        spec_decode_block(spec_serialize_block(b)) == Some(b),
{
    let hd = spec_serialize_header(b.header);
    let cnt = spec_u64_to_le_bytes(b.transactions.len() as u64);
    let body = spec_serialize_txs(b.transactions);
    vstd::bytes::lemma_auto_spec_u64_to_from_le_bytes();
    let bytes = spec_serialize_block(b);

    assert(bytes =~= Seq::<u8>::empty() + hd + (cnt + body));
    lemma_decode_header_at(Seq::<u8>::empty(), b.header, cnt + body);
    assert(bytes =~= (Seq::<u8>::empty() + hd) + cnt + body);
    lemma_read_u64_at(Seq::<u8>::empty() + hd, b.transactions.len() as u64, body);
    assert(bytes =~= (Seq::<u8>::empty() + hd + cnt) + body + Seq::<u8>::empty());
    lemma_decode_txs_at(Seq::<u8>::empty() + hd + cnt, b.transactions, Seq::<u8>::empty());

    let decoded = BlockView { header: b.header, transactions: b.transactions };
    assert(decoded =~= b);
}

/// Every value of the executable block type satisfies the codec's
/// well-formedness conditions: its digests are 32 bytes and its lists and
/// byte strings fit the 64-bit count fields.
pub proof fn lemma_block_view_codec_wf(b: &Block)
    ensures
        spec_block_codec_wf(b@),
{
    broadcast use crate::hash::lemma_digest_len;

    vstd::std_specs::vec::axiom_spec_len(&b.transactions);
    assert forall|k: int| 0 <= k < b@.transactions.len() implies spec_tx_codec_wf(
        #[trigger] b@.transactions[k],
    ) by {
        let tx = b.transactions@[k];
        assert(b@.transactions[k] == tx@);
        vstd::std_specs::vec::axiom_spec_len(&tx.inputs);
        vstd::std_specs::vec::axiom_spec_len(&tx.outputs);
        assert forall|j: int| 0 <= j < tx@.inputs.len() implies spec_input_codec_wf(
            #[trigger] tx@.inputs[j],
        ) by {
            let input = tx.inputs@[j];
            assert(tx@.inputs[j] == input@);
            vstd::std_specs::vec::axiom_spec_len(&input.signature);
            vstd::std_specs::vec::axiom_spec_len(&input.public_key);
            assert(input@.previous_output.len() == 32);
        }
        assert forall|j: int| 0 <= j < tx@.outputs.len() implies spec_output_codec_wf(
            #[trigger] tx@.outputs[j],
        ) by {
            let output = tx.outputs@[j];
            assert(tx@.outputs[j] == output@);
            vstd::std_specs::vec::axiom_spec_len(&output.recipient);
        }
    }
}

// ---------------------------------------------------------------------
// The executable decoder.
// ---------------------------------------------------------------------

/// The models of a vector of inputs.
spec fn inputs_view(s: Seq<TransactionInput>) -> Seq<InputView> {
    s.map_values(|i: TransactionInput| i@)
}

/// The models of a vector of outputs.
spec fn outputs_view(s: Seq<TransactionOutput>) -> Seq<OutputView> {
    s.map_values(|o: TransactionOutput| o@)
}

/// The models of a vector of transactions.
spec fn txs_view(s: Seq<Transaction>) -> Seq<TransactionView> {
    s.map_values(|t: Transaction| t@)
}

/// Read a little-endian 32-bit integer.
fn read_u32(bytes: &[u8], pos: usize) -> (r: Option<(u32, usize)>)
    ensures
        match r {
            Some(v) => spec_read_u32(bytes@, pos as int) == Some((v.0, v.1 as int)) && v.1
                <= bytes@.len(),
            None => spec_read_u32(bytes@, pos as int) is None,
        },
{
    if bytes.len() >= 4 && pos <= bytes.len() - 4 {
        let s = vstd::slice::slice_subrange(bytes, pos, pos + 4);
        let x = vstd::bytes::u32_from_le_bytes(s);
        Some((x, pos + 4))
    } else {
        None
    }
}

/// Read a little-endian 64-bit integer.
fn read_u64(bytes: &[u8], pos: usize) -> (r: Option<(u64, usize)>)
    ensures
        match r {
            Some(v) => spec_read_u64(bytes@, pos as int) == Some((v.0, v.1 as int)) && v.1
                <= bytes@.len(),
            None => spec_read_u64(bytes@, pos as int) is None,
        },
{
    if bytes.len() >= 8 && pos <= bytes.len() - 8 {
        let s = vstd::slice::slice_subrange(bytes, pos, pos + 8);
        let x = vstd::bytes::u64_from_le_bytes(s);
        Some((x, pos + 8))
    } else {
        None
    }
}

/// Read a 32-byte digest.
fn read_digest(bytes: &[u8], pos: usize) -> (r: Option<(Hash256, usize)>)
    ensures
        match r {
            Some(v) => spec_read_bytes(bytes@, pos as int, 32) == Some((v.0@, v.1 as int)) && v.1
                <= bytes@.len(),
            None => spec_read_bytes(bytes@, pos as int, 32) is None,
        },
{
    if bytes.len() >= 32 && pos <= bytes.len() - 32 {
        let s = vstd::slice::slice_subrange(bytes, pos, pos + 32);
        let mut arr = [0u8; 32];
        let mut i: usize = 0;
        while i < 32
            invariant
                i <= 32,
                s@.len() == 32,
                s@ == bytes@.subrange(pos as int, pos as int + 32),
                forall|j: int| 0 <= j < i ==> arr@[j] == s@[j],
            decreases 32 - i,
        {
            let b = *vstd::slice::slice_index_get(s, i);
            arr[i] = b;
            i = i + 1;
        }
        proof {
            assert(arr@ =~= bytes@.subrange(pos as int, pos as int + 32));
        }
        Some((Hash256::from_bytes(arr), pos + 32))
    } else {
        None
    }
}

/// Read a length-counted byte string.
fn read_byte_string(bytes: &[u8], pos: usize, n: u64) -> (r: Option<(Vec<u8>, usize)>)
    ensures
        match r {
            Some(v) => spec_read_bytes(bytes@, pos as int, n as int) == Some((v.0@, v.1 as int))
                && v.1 <= bytes@.len(),
            None => spec_read_bytes(bytes@, pos as int, n as int) is None,
        },
{
    if pos <= bytes.len() && n <= (bytes.len() - pos) as u64 {
        let nn = n as usize;
        let s = vstd::slice::slice_subrange(bytes, pos, pos + nn);
        Some((vstd::slice::slice_to_vec(s), pos + nn))
    } else {
        None
    }
}

/// Decode one transaction input.
fn decode_input(bytes: &[u8], pos: usize) -> (r: Option<(TransactionInput, usize)>)
    ensures
        match r {
            Some(v) => spec_decode_input(bytes@, pos as int) == Some((v.0@, v.1 as int)) && v.1
                <= bytes@.len(),
            None => spec_decode_input(bytes@, pos as int) is None,
        },
{
    let (prev, p1) = match read_digest(bytes, pos) {
        Some(v) => v,
        None => {
            return None;
        },
    };
    let (idx, p2) = match read_u32(bytes, p1) {
        Some(v) => v,
        None => {
            return None;
        },
    };
    let (siglen, p3) = match read_u64(bytes, p2) {
        Some(v) => v,
        None => {
            return None;
        },
    };
    let (sig, p4) = match read_byte_string(bytes, p3, siglen) {
        Some(v) => v,
        None => {
            return None;
        },
    };
    let (pklen, p5) = match read_u64(bytes, p4) {
        Some(v) => v,
        None => {
            return None;
        },
    };
    let (pk, p6) = match read_byte_string(bytes, p5, pklen) {
        Some(v) => v,
        None => {
            return None;
        },
    };
    Some(
        (
            TransactionInput {
                previous_output: prev,
                output_index: idx,
                signature: sig,
                public_key: pk,
            },
            p6,
        ),
    )
}

/// Decode one transaction output.
fn decode_output_at(bytes: &[u8], pos: usize) -> (r: Option<(TransactionOutput, usize)>)
    ensures
        match r {
            Some(v) => spec_decode_output(bytes@, pos as int) == Some((v.0@, v.1 as int)) && v.1
                <= bytes@.len(),
            None => spec_decode_output(bytes@, pos as int) is None,
        },
{
    let (amount, p1) = match read_u64(bytes, pos) {
        Some(v) => v,
        None => {
            return None;
        },
    };
    let (rlen, p2) = match read_u64(bytes, p1) {
        Some(v) => v,
        None => {
            return None;
        },
    };
    let (recipient, p3) = match read_byte_string(bytes, p2, rlen) {
        Some(v) => v,
        None => {
            return None;
        },
    };
    Some((TransactionOutput { amount, recipient }, p3))
}

/// Decode a run of transaction inputs.
#[verifier::loop_isolation(false)]
fn decode_inputs(bytes: &[u8], pos: usize, count: u64) -> (r: Option<(Vec<TransactionInput>, usize)>)
    requires
        pos <= bytes@.len(),
    ensures
        match r {
            Some(v) => spec_decode_inputs(bytes@, pos as int, count as int) == Some(
                (inputs_view(v.0@), v.1 as int),
            ) && v.1 <= bytes@.len(),
            None => spec_decode_inputs(bytes@, pos as int, count as int) is None,
        },
{
    let mut acc: Vec<TransactionInput> = Vec::new();
    let mut p = pos;
    let mut k: u64 = 0;
    while k < count
        invariant
            k <= count,
            p <= bytes@.len(),
            spec_decode_inputs(bytes@, pos as int, count as int) == (match spec_decode_inputs(
                bytes@,
                p as int,
                count - k,
            ) {
                None => None::<(Seq<InputView>, int)>,
                Some(t) => Some((inputs_view(acc@) + t.0, t.1)),
            }),
        decreases count - k,
    {
        let ghost accv = inputs_view(acc@);
        let res = decode_input(bytes, p);
        if res.is_none() {
            return None;
        }
        let (x, p1) = res.unwrap();
        proof {
            let rec = spec_decode_inputs(bytes@, p1 as int, count - k - 1);
            assert(spec_decode_inputs(bytes@, p as int, count - k) == (match rec {
                None => None::<(Seq<InputView>, int)>,
                Some(t) => Some((seq![x@] + t.0, t.1)),
            }));
            assert(rec matches Some(t) ==> accv + (seq![x@] + t.0) =~= accv.push(x@) + t.0);
        }
        acc.push(x);
        proof {
            assert(inputs_view(acc@) =~= accv.push(x@));
        }
        p = p1;
        k = k + 1;
    }
    proof {
        assert(spec_decode_inputs(bytes@, p as int, 0) == Some(
            (Seq::<InputView>::empty(), p as int),
        ));
        assert(inputs_view(acc@) + Seq::<InputView>::empty() =~= inputs_view(acc@));
    }
    Some((acc, p))
}

/// Decode a run of transaction outputs.
#[verifier::loop_isolation(false)]
fn decode_outputs(bytes: &[u8], pos: usize, count: u64) -> (r: Option<
    (Vec<TransactionOutput>, usize),
>)
    requires
        pos <= bytes@.len(),
    ensures
        match r {
            Some(v) => spec_decode_outputs(bytes@, pos as int, count as int) == Some(
                (outputs_view(v.0@), v.1 as int),
            ) && v.1 <= bytes@.len(),
            None => spec_decode_outputs(bytes@, pos as int, count as int) is None,
        },
{
    let mut acc: Vec<TransactionOutput> = Vec::new();
    let mut p = pos;
    let mut k: u64 = 0;
    while k < count
        invariant
            k <= count,
            p <= bytes@.len(),
            spec_decode_outputs(bytes@, pos as int, count as int) == (match spec_decode_outputs(
                bytes@,
                p as int,
                count - k,
            ) {
                None => None::<(Seq<OutputView>, int)>,
                Some(t) => Some((outputs_view(acc@) + t.0, t.1)),
            }),
        decreases count - k,
    {
        let ghost accv = outputs_view(acc@);
        let res = decode_output_at(bytes, p);
        if res.is_none() {
            return None;
        }
        let (x, p1) = res.unwrap();
        proof {
            let rec = spec_decode_outputs(bytes@, p1 as int, count - k - 1);
            assert(spec_decode_outputs(bytes@, p as int, count - k) == (match rec {
                None => None::<(Seq<OutputView>, int)>,
                Some(t) => Some((seq![x@] + t.0, t.1)),
            }));
            assert(rec matches Some(t) ==> accv + (seq![x@] + t.0) =~= accv.push(x@) + t.0);
        }
        acc.push(x);
        proof {
            assert(outputs_view(acc@) =~= accv.push(x@));
        }
        p = p1;
        k = k + 1;
    }
    proof {
        assert(spec_decode_outputs(bytes@, p as int, 0) == Some(
            (Seq::<OutputView>::empty(), p as int),
        ));
        assert(outputs_view(acc@) + Seq::<OutputView>::empty() =~= outputs_view(acc@));
    }
    Some((acc, p))
}

/// Decode one transaction.
fn decode_tx(bytes: &[u8], pos: usize) -> (r: Option<(Transaction, usize)>)
    ensures
        match r {
            Some(v) => spec_decode_tx(bytes@, pos as int) == Some((v.0@, v.1 as int)) && v.1
                <= bytes@.len(),
            None => spec_decode_tx(bytes@, pos as int) is None,
        },
{
    let (version, p1) = match read_u32(bytes, pos) {
        Some(v) => v,
        None => {
            return None;
        },
    };
    let (nin, p2) = match read_u64(bytes, p1) {
        Some(v) => v,
        None => {
            return None;
        },
    };
    let (inputs, p3) = match decode_inputs(bytes, p2, nin) {
        Some(v) => v,
        None => {
            return None;
        },
    };
    let (nout, p4) = match read_u64(bytes, p3) {
        Some(v) => v,
        None => {
            return None;
        },
    };
    let (outputs, p5) = match decode_outputs(bytes, p4, nout) {
        Some(v) => v,
        None => {
            return None;
        },
    };
    let (locktime, p6) = match read_u64(bytes, p5) {
        Some(v) => v,
        None => {
            return None;
        },
    };
    let t = Transaction { version, inputs, outputs, locktime };
    proof {
        assert(t@.inputs =~= inputs_view(t.inputs@));
        assert(t@.outputs =~= outputs_view(t.outputs@));
    }
    Some((t, p6))
}

/// Decode a run of transactions.
#[verifier::loop_isolation(false)]
fn decode_txs(bytes: &[u8], pos: usize, count: u64) -> (r: Option<(Vec<Transaction>, usize)>)
    requires
        pos <= bytes@.len(),
    ensures
        match r {
            Some(v) => spec_decode_txs(bytes@, pos as int, count as int) == Some(
                (txs_view(v.0@), v.1 as int),
            ) && v.1 <= bytes@.len(),
            None => spec_decode_txs(bytes@, pos as int, count as int) is None,
        },
{
    let mut acc: Vec<Transaction> = Vec::new();
    let mut p = pos;
    let mut k: u64 = 0;
    while k < count
        invariant
            k <= count,
            p <= bytes@.len(),
            spec_decode_txs(bytes@, pos as int, count as int) == (match spec_decode_txs(
                bytes@,
                p as int,
                count - k,
            ) {
                None => None::<(Seq<TransactionView>, int)>,
                Some(t) => Some((txs_view(acc@) + t.0, t.1)),
            }),
        decreases count - k,
    {
        let ghost accv = txs_view(acc@);
        let res = decode_tx(bytes, p);
        if res.is_none() {
            return None;
        }
        let (x, p1) = res.unwrap();
        proof {
            let rec = spec_decode_txs(bytes@, p1 as int, count - k - 1);
            assert(spec_decode_txs(bytes@, p as int, count - k) == (match rec {
                None => None::<(Seq<TransactionView>, int)>,
                Some(t) => Some((seq![x@] + t.0, t.1)),
            }));
            assert(rec matches Some(t) ==> accv + (seq![x@] + t.0) =~= accv.push(x@) + t.0);
        }
        acc.push(x);
        proof {
            assert(txs_view(acc@) =~= accv.push(x@));
        }
        p = p1;
        k = k + 1;
    }
    proof {
        assert(spec_decode_txs(bytes@, p as int, 0) == Some(
            (Seq::<TransactionView>::empty(), p as int),
        ));
        assert(txs_view(acc@) + Seq::<TransactionView>::empty() =~= txs_view(acc@));
    }
    Some((acc, p))
}

/// Decode a block header.
fn decode_header(bytes: &[u8], pos: usize) -> (r: Option<(BlockHeader, usize)>)
    ensures
        match r {
            Some(v) => spec_decode_header(bytes@, pos as int) == Some((v.0@, v.1 as int)) && v.1
                <= bytes@.len(),
            None => spec_decode_header(bytes@, pos as int) is None,
        },
{
    let (version, p1) = match read_u32(bytes, pos) {
        Some(v) => v,
        None => {
            return None;
        },
    };
    let (prev, p2) = match read_digest(bytes, p1) {
        Some(v) => v,
        None => {
            return None;
        },
    };
    let (root, p3) = match read_digest(bytes, p2) {
        Some(v) => v,
        None => {
            return None;
        },
    };
    let (timestamp, p4) = match read_u64(bytes, p3) {
        Some(v) => v,
        None => {
            return None;
        },
    };
    let (bits, p5) = match read_u32(bytes, p4) {
        Some(v) => v,
        None => {
            return None;
        },
    };
    let (nonce, p6) = match read_u64(bytes, p5) {
        Some(v) => v,
        None => {
            return None;
        },
    };
    Some(
        (
            BlockHeader { version, previous_block: prev, merkle_root: root, timestamp, bits, nonce },
            p6,
        ),
    )
}

/// Decode a block from a storage blob.  Absence means the blob is
/// malformed: it is not the serialization of any block, or carries
/// trailing bytes.
pub fn decode_block(bytes: &[u8]) -> (r: Option<Block>)
    ensures
        match r {
            Some(b) => spec_decode_block(bytes@) == Some(b@),
            None => spec_decode_block(bytes@) is None,
        },
{
    let (header, p1) = match decode_header(bytes, 0) {
        Some(v) => v,
        None => {
            return None;
        },
    };
    let (ntx, p2) = match read_u64(bytes, p1) {
        Some(v) => v,
        None => {
            return None;
        },
    };
    let (transactions, p3) = match decode_txs(bytes, p2, ntx) {
        Some(v) => v,
        None => {
            return None;
        },
    };
    if p3 != bytes.len() {
        return None;
    }
    let b = Block { header, transactions };
    proof {
        assert(b@.transactions =~= txs_view(b.transactions@));
    }
    Some(b)
}

/// Decode a stored transaction output from a complete blob; every byte
/// must be consumed.
pub open spec fn spec_decode_output_blob(bytes: Seq<u8>) -> Option<OutputView> {
    match spec_decode_output(bytes, 0) {
        None => None,
        Some((o, p)) => if p == bytes.len() {
            Some(o)
        } else {
            None
        },
    }
}

/// Decode a transaction output from a storage blob.
pub fn decode_output(bytes: &[u8]) -> (r: Option<TransactionOutput>)
    ensures
        match r {
            Some(o) => spec_decode_output_blob(bytes@) == Some(o@),
            None => spec_decode_output_blob(bytes@) is None,
        },
{
    let (output, p) = match decode_output_at(bytes, 0) {
        Some(v) => v,
        None => {
            return None;
        },
    };
    if p != bytes.len() {
        return None;
    }
    Some(output)
}

/// The output codec round trip: decoding a serialized output recovers
/// exactly that output.
pub proof fn lemma_output_codec_round_trip(o: OutputView)
    requires
        spec_output_codec_wf(o),
    ensures
        spec_decode_output_blob(spec_serialize_output(o)) == Some(o),
{
    let bytes = spec_serialize_output(o);
    assert(bytes =~= Seq::<u8>::empty() + spec_serialize_output(o) + Seq::<u8>::empty());
    lemma_decode_output_at(Seq::<u8>::empty(), o, Seq::<u8>::empty());
}

} // verus!
