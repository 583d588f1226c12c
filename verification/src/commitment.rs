//! What a template commits to, as bytes and as a digest.
//!
//! The committed bytes are the version, the lock time, the number of inputs,
//! every sequence number, the number of outputs, every output as value and
//! script, and the index of the spending input. The commitment hash is the
//! SHA-256 digest of those bytes.

use vstd::prelude::*;
use crate::encode::{
    i32_le, lemma_fits, lemma_le_bytes_len, lemma_le_injective, lemma_split,
    lemma_var_int_prefix, twos_complement, u32_le, u64_le, var_int,
};
use crate::hash::sha256_of;

verus! {

/// What an output contributes to a commitment: its value and its script.
pub type Payment = (u64, Seq<u8>);

/// The parts one after the other.
pub open spec fn concat(parts: Seq<Seq<u8>>) -> Seq<u8>
    decreases parts.len(),
{
    if parts.len() == 0 {
        Seq::empty()
    } else {
        concat(parts.drop_last()) + parts.last()
    }
}

/// Every sequence number as four bytes, in order.
pub open spec fn sequences_bytes(sequences: Seq<u32>) -> Seq<u8> {
    concat(sequences.map_values(|s: u32| u32_le(s)))
}

/// One output: the value as eight bytes, the script's length, the script.
pub open spec fn output_bytes(payment: Payment) -> Seq<u8> {
    u64_le(payment.0) + var_int(payment.1.len()) + payment.1
}

/// Every output, in order.
pub open spec fn outputs_bytes(payments: Seq<Payment>) -> Seq<u8> {
    concat(payments.map_values(|p: Payment| output_bytes(p)))
}

/// A count as the 32 bits that are written for it.
pub open spec fn count32(n: nat) -> u32 {
    (n % 0x1_0000_0000) as u32
}

/// The bytes that are hashed.
pub open spec fn commitment_preimage(
    version: i32,
    lock_time: u32,
    sequences: Seq<u32>,
    payments: Seq<Payment>,
    input_index: u32,
) -> Seq<u8> {
    i32_le(version) + u32_le(lock_time) + u32_le(count32(sequences.len())) + sequences_bytes(
        sequences,
    ) + u32_le(count32(payments.len())) + outputs_bytes(payments) + u32_le(input_index)
}

/// The commitment hash: SHA-256 of the committed bytes.
pub open spec fn commitment_hash(
    version: i32,
    lock_time: u32,
    sequences: Seq<u32>,
    payments: Seq<Payment>,
    input_index: u32,
) -> Seq<u8> {
    sha256_of(commitment_preimage(version, lock_time, sequences, payments, input_index))
}

/// The sum of the outputs' values.
pub open spec fn total_value(payments: Seq<Payment>) -> nat
    decreases payments.len(),
{
    if payments.len() == 0 {
        0
    } else {
        total_value(payments.drop_last()) + payments.last().0 as nat
    }
}

/// Adding a part at the end adds its bytes at the end.
pub proof fn lemma_concat_push(parts: Seq<Seq<u8>>, part: Seq<u8>)
    ensures
        concat(parts.push(part)) == concat(parts) + part,
{
    assert(parts.push(part).drop_last() =~= parts);
}

/// The bytes start with the first part.
pub proof fn lemma_concat_head(parts: Seq<Seq<u8>>)
    requires
        parts.len() > 0,
    ensures
        concat(parts) == parts[0] + concat(parts.drop_first()),
    decreases parts.len(),
{
    if parts.len() == 1 {
        assert(parts.drop_last() =~= Seq::<Seq<u8>>::empty());
        assert(parts.drop_first() =~= Seq::<Seq<u8>>::empty());
        assert(concat(parts) =~= parts[0] + concat(parts.drop_first()));
    } else {
        lemma_concat_head(parts.drop_last());
        assert(parts.drop_last().drop_first() =~= parts.drop_first().drop_last());
        assert(parts.drop_first().last() == parts.last());
        assert(concat(parts) =~= parts[0] + concat(parts.drop_first()));
    }
}

/// One more sequence number adds its four bytes at the end.
pub proof fn lemma_sequences_push(sequences: Seq<u32>, sequence: u32)
    ensures
        sequences_bytes(sequences.push(sequence)) == sequences_bytes(sequences) + u32_le(sequence),
{
    let parts = sequences.map_values(|s: u32| u32_le(s));
    lemma_concat_push(parts, u32_le(sequence));
    assert(sequences.push(sequence).map_values(|s: u32| u32_le(s)) =~= parts.push(u32_le(sequence)));
}

/// One more output adds its bytes at the end.
pub proof fn lemma_outputs_push(payments: Seq<Payment>, payment: Payment)
    ensures
        outputs_bytes(payments.push(payment)) == outputs_bytes(payments) + output_bytes(payment),
{
    let parts = payments.map_values(|p: Payment| output_bytes(p));
    lemma_concat_push(parts, output_bytes(payment));
    assert(payments.push(payment).map_values(|p: Payment| output_bytes(p)) =~= parts.push(
        output_bytes(payment),
    ));
}

/// The bytes of a list of sequence numbers start with those of the first.
proof fn lemma_sequences_head(sequences: Seq<u32>)
    requires
        sequences.len() > 0,
    ensures
        sequences_bytes(sequences) == u32_le(sequences[0]) + sequences_bytes(
            sequences.drop_first(),
        ),
{
    let parts = sequences.map_values(|s: u32| u32_le(s));
    lemma_concat_head(parts);
    assert(parts.drop_first() =~= sequences.drop_first().map_values(|s: u32| u32_le(s)));
}

/// The bytes of a list of outputs start with those of the first.
proof fn lemma_outputs_head(payments: Seq<Payment>)
    requires
        payments.len() > 0,
    ensures
        outputs_bytes(payments) == output_bytes(payments[0]) + outputs_bytes(
            payments.drop_first(),
        ),
{
    let parts = payments.map_values(|p: Payment| output_bytes(p));
    lemma_concat_head(parts);
    assert(parts.drop_first() =~= payments.drop_first().map_values(|p: Payment| output_bytes(p)));
}

/// A `u32` is read back from its four bytes, also when other bytes follow.
pub proof fn lemma_u32_prefix(a: u32, x: Seq<u8>, b: u32, y: Seq<u8>)
    requires
        u32_le(a) + x =~= u32_le(b) + y,
    ensures
        a == b,
        x == y,
{
    lemma_le_bytes_len(a as nat, 4);
    lemma_le_bytes_len(b as nat, 4);
    lemma_split(u32_le(a), x, u32_le(b), y);
    lemma_fits(a as nat);
    lemma_fits(b as nat);
    lemma_le_injective(a as nat, b as nat, 4);
}

/// An `i32` is read back from its four bytes, also when other bytes follow.
pub proof fn lemma_i32_prefix(a: i32, x: Seq<u8>, b: i32, y: Seq<u8>)
    requires
        i32_le(a) + x =~= i32_le(b) + y,
    ensures
        a == b,
        x == y,
{
    lemma_le_bytes_len(twos_complement(a), 4);
    lemma_le_bytes_len(twos_complement(b), 4);
    lemma_split(i32_le(a), x, i32_le(b), y);
    lemma_fits(twos_complement(a));
    lemma_fits(twos_complement(b));
    lemma_le_injective(twos_complement(a), twos_complement(b), 4);
}

/// A `u64` is read back from its eight bytes, also when other bytes follow.
pub proof fn lemma_u64_prefix(a: u64, x: Seq<u8>, b: u64, y: Seq<u8>)
    requires
        u64_le(a) + x =~= u64_le(b) + y,
    ensures
        a == b,
        x == y,
{
    lemma_le_bytes_len(a as nat, 8);
    lemma_le_bytes_len(b as nat, 8);
    lemma_split(u64_le(a), x, u64_le(b), y);
    lemma_fits(a as nat);
    lemma_fits(b as nat);
    lemma_le_injective(a as nat, b as nat, 8);
}

/// Sequence numbers are read back from their bytes, also when other bytes
/// follow, once their number is known.
pub proof fn lemma_sequences_prefix(a: Seq<u32>, x: Seq<u8>, b: Seq<u32>, y: Seq<u8>)
    requires
        a.len() == b.len(),
        sequences_bytes(a) + x == sequences_bytes(b) + y,
    ensures
        a == b,
        x == y,
    decreases a.len(),
{
    if a.len() == 0 {
        assert(a =~= b);
        assert(sequences_bytes(a) + x =~= x);
        assert(sequences_bytes(b) + y =~= y);
    } else {
        lemma_sequences_head(a);
        lemma_sequences_head(b);
        let rest_a = sequences_bytes(a.drop_first()) + x;
        let rest_b = sequences_bytes(b.drop_first()) + y;
        assert(sequences_bytes(a) + x =~= u32_le(a[0]) + rest_a);
        assert(sequences_bytes(b) + y =~= u32_le(b[0]) + rest_b);
        lemma_u32_prefix(a[0], rest_a, b[0], rest_b);
        lemma_sequences_prefix(a.drop_first(), x, b.drop_first(), y);
        assert(a =~= seq![a[0]] + a.drop_first());
        assert(b =~= seq![b[0]] + b.drop_first());
    }
}

/// One output is read back from its bytes, also when other bytes follow.
pub proof fn lemma_output_prefix(a: Payment, x: Seq<u8>, b: Payment, y: Seq<u8>)
    requires
        a.1.len() <= u64::MAX,
        b.1.len() <= u64::MAX,
        output_bytes(a) + x == output_bytes(b) + y,
    ensures
        a == b,
        x == y,
{
    let after_value_a = var_int(a.1.len()) + (a.1 + x);
    let after_value_b = var_int(b.1.len()) + (b.1 + y);
    assert(output_bytes(a) + x =~= u64_le(a.0) + after_value_a);
    assert(output_bytes(b) + y =~= u64_le(b.0) + after_value_b);
    lemma_u64_prefix(a.0, after_value_a, b.0, after_value_b);
    lemma_var_int_prefix(a.1.len(), a.1 + x, b.1.len(), b.1 + y);
    lemma_split(a.1, x, b.1, y);
}

/// Outputs are read back from their bytes, also when other bytes follow,
/// once their number is known.
pub proof fn lemma_outputs_prefix(a: Seq<Payment>, x: Seq<u8>, b: Seq<Payment>, y: Seq<u8>)
    requires
        a.len() == b.len(),
        forall|i: int| 0 <= i < a.len() ==> (#[trigger] a[i]).1.len() <= u64::MAX,
        forall|i: int| 0 <= i < b.len() ==> (#[trigger] b[i]).1.len() <= u64::MAX,
        outputs_bytes(a) + x == outputs_bytes(b) + y,
    ensures
        a == b,
        x == y,
    decreases a.len(),
{
    if a.len() == 0 {
        assert(a =~= b);
        assert(outputs_bytes(a) + x =~= x);
        assert(outputs_bytes(b) + y =~= y);
    } else {
        lemma_outputs_head(a);
        lemma_outputs_head(b);
        let rest_a = outputs_bytes(a.drop_first()) + x;
        let rest_b = outputs_bytes(b.drop_first()) + y;
        assert(outputs_bytes(a) + x =~= output_bytes(a[0]) + rest_a);
        assert(outputs_bytes(b) + y =~= output_bytes(b[0]) + rest_b);
        lemma_output_prefix(a[0], rest_a, b[0], rest_b);
        assert forall|i: int| 0 <= i < a.drop_first().len() implies (#[trigger] a.drop_first()[i]).1.len()
            <= u64::MAX by {
            assert(a.drop_first()[i] == a[i + 1]);
        }
        assert forall|i: int| 0 <= i < b.drop_first().len() implies (#[trigger] b.drop_first()[i]).1.len()
            <= u64::MAX by {
            assert(b.drop_first()[i] == b[i + 1]);
        }
        lemma_outputs_prefix(a.drop_first(), x, b.drop_first(), y);
        assert(a =~= seq![a[0]] + a.drop_first());
        assert(b =~= seq![b[0]] + b.drop_first());
    }
}

/// Whether the numbers of inputs and outputs are written in full, and every
/// script's length too.
pub open spec fn encodable(sequences: Seq<u32>, payments: Seq<Payment>) -> bool {
    &&& sequences.len() <= u32::MAX
    &&& payments.len() <= u32::MAX
    &&& forall|i: int| 0 <= i < payments.len() ==> (#[trigger] payments[i]).1.len() <= u64::MAX
}

/// The committed bytes determine what was committed to: two commitments with
/// the same bytes have the same version, lock time, sequence numbers,
/// outputs and input index.
pub proof fn lemma_preimage_injective(
    version_a: i32,
    lock_time_a: u32,
    sequences_a: Seq<u32>,
    payments_a: Seq<Payment>,
    index_a: u32,
    version_b: i32,
    lock_time_b: u32,
    sequences_b: Seq<u32>,
    payments_b: Seq<Payment>,
    index_b: u32,
)
    requires
        encodable(sequences_a, payments_a),
        encodable(sequences_b, payments_b),
        commitment_preimage(version_a, lock_time_a, sequences_a, payments_a, index_a)
            == commitment_preimage(version_b, lock_time_b, sequences_b, payments_b, index_b),
    ensures
        version_a == version_b,
        lock_time_a == lock_time_b,
        sequences_a == sequences_b,
        payments_a == payments_b,
        index_a == index_b,
{
    let n_in_a = count32(sequences_a.len());
    let n_in_b = count32(sequences_b.len());
    let n_out_a = count32(payments_a.len());
    let n_out_b = count32(payments_b.len());
    let tail5_a = u32_le(index_a);
    let tail5_b = u32_le(index_b);
    let tail4_a = u32_le(n_out_a) + (outputs_bytes(payments_a) + tail5_a);
    let tail4_b = u32_le(n_out_b) + (outputs_bytes(payments_b) + tail5_b);
    let tail3_a = u32_le(n_in_a) + (sequences_bytes(sequences_a) + tail4_a);
    let tail3_b = u32_le(n_in_b) + (sequences_bytes(sequences_b) + tail4_b);
    let tail2_a = u32_le(lock_time_a) + tail3_a;
    let tail2_b = u32_le(lock_time_b) + tail3_b;
    lemma_nest(
        i32_le(version_a),
        u32_le(lock_time_a),
        u32_le(n_in_a),
        sequences_bytes(sequences_a),
        u32_le(n_out_a),
        outputs_bytes(payments_a),
        u32_le(index_a),
    );
    lemma_nest(
        i32_le(version_b),
        u32_le(lock_time_b),
        u32_le(n_in_b),
        sequences_bytes(sequences_b),
        u32_le(n_out_b),
        outputs_bytes(payments_b),
        u32_le(index_b),
    );
    lemma_i32_prefix(version_a, tail2_a, version_b, tail2_b);
    lemma_u32_prefix(lock_time_a, tail3_a, lock_time_b, tail3_b);
    lemma_u32_prefix(
        n_in_a,
        sequences_bytes(sequences_a) + tail4_a,
        n_in_b,
        sequences_bytes(sequences_b) + tail4_b,
    );
    assert(sequences_a.len() == sequences_b.len());
    lemma_sequences_prefix(sequences_a, tail4_a, sequences_b, tail4_b);
    lemma_u32_prefix(
        n_out_a,
        outputs_bytes(payments_a) + tail5_a,
        n_out_b,
        outputs_bytes(payments_b) + tail5_b,
    );
    assert(payments_a.len() == payments_b.len());
    lemma_outputs_prefix(payments_a, tail5_a, payments_b, tail5_b);
    lemma_u32_prefix(index_a, Seq::empty(), index_b, Seq::empty());
}

/// Seven parts in a row are the first part followed by the row of the others.
proof fn lemma_nest(
    a: Seq<u8>,
    b: Seq<u8>,
    c: Seq<u8>,
    d: Seq<u8>,
    e: Seq<u8>,
    f: Seq<u8>,
    g: Seq<u8>,
)
    ensures
        a + b + c + d + e + f + g == a + (b + (c + (d + (e + (f + g))))),
{
    assert(a + b + c + d + e + f + g =~= a + (b + (c + (d + (e + (f + g))))));
}

} // verus!
