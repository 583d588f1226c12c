//! The transaction skeleton that a template freezes, and its commitment.

use vstd::prelude::*;
use crate::commitment::{
    commitment_hash, commitment_preimage, count32, lemma_outputs_push, lemma_sequences_push,
    output_bytes, outputs_bytes, sequences_bytes, total_value, Payment,
};
use crate::encode::{put_bytes, put_i32, put_u32, put_u64, put_var_int};
use crate::hash::sha256_digest;

verus! {

/// A reference to an output of an earlier transaction.
#[derive(Debug, PartialEq, Eq)]
pub struct OutPoint {
    pub txid: [u8; 32],
    pub vout: u32,
}

impl OutPoint {
    /// Whether this is the placeholder that stands where no earlier output
    /// is known yet.
    pub open spec fn is_null(self) -> bool {
        &&& self.vout == u32::MAX
        &&& forall|i: int| 0 <= i < 32 ==> self.txid@[i] == 0
    }

    /// Whether this is the placeholder.
    pub fn check_null(&self) -> (ok: bool)
        ensures
            ok == self.is_null(),
    {
        if self.vout != u32::MAX {
            return false;
        }
        let mut i: usize = 0;
        while i < 32
            invariant
                i <= 32,
                forall|k: int| 0 <= k < i ==> self.txid@[k] == 0,
            decreases 32 - i,
        {
            if self.txid[i] != 0 {
                return false;
            }
            i += 1;
        }
        true
    }

    /// The placeholder: an all-zero transaction id and the largest index.
    pub fn null() -> (r: OutPoint)
        ensures
            r.is_null(),
    {
        OutPoint { txid: [0u8; 32], vout: u32::MAX }
    }
}

/// An input of a transaction.
#[derive(Debug, PartialEq, Eq)]
pub struct TxIn {
    pub previous_output: OutPoint,
    pub script_sig: Vec<u8>,
    pub sequence: u32,
    pub witness: Vec<Vec<u8>>,
}

impl TxIn {
    /// An input that only carries a sequence number: its earlier output is
    /// the placeholder, and it holds no script and no witness.
    pub open spec fn is_placeholder(self) -> bool {
        &&& self.previous_output.is_null()
        &&& self.script_sig@.len() == 0
        &&& self.witness@.len() == 0
    }
}

/// An output of a transaction: a value in satoshi and the script that locks it.
#[derive(Debug, PartialEq, Eq)]
pub struct TxOut {
    pub value: u64,
    pub script_pubkey: Vec<u8>,
}

/// A transaction.
#[derive(Debug, PartialEq, Eq)]
pub struct Transaction {
    pub version: i32,
    pub lock_time: u32,
    pub input: Vec<TxIn>,
    pub output: Vec<TxOut>,
}

impl Transaction {
    /// The inputs' sequence numbers, in order.
    pub open spec fn sequences(self) -> Seq<u32> {
        self.input@.map_values(|input: TxIn| input.sequence)
    }

    /// The outputs as value and script, in order.
    pub open spec fn payments(self) -> Seq<Payment> {
        self.output@.map_values(|output: TxOut| (output.value, output.script_pubkey@))
    }

    /// Whether every input is a placeholder.
    pub open spec fn is_skeleton(self) -> bool {
        forall|i: int| 0 <= i < self.input@.len() ==> (#[trigger] self.input@[i]).is_placeholder()
    }

    /// Whether every input is a placeholder.
    pub fn check_skeleton(&self) -> (ok: bool)
        ensures
            ok == self.is_skeleton(),
    {
        let mut i: usize = 0;
        while i < self.input.len()
            invariant
                i <= self.input.len(),
                forall|k: int| 0 <= k < i ==> (#[trigger] self.input@[k]).is_placeholder(),
            decreases self.input.len() - i,
        {
            let input = &self.input[i];
            let placeholder = input.previous_output.check_null() && input.script_sig.len() == 0
                && input.witness.len() == 0;
            if !placeholder {
                assert(!self.input@[i as int].is_placeholder());
                return false;
            }
            i += 1;
        }
        true
    }

    /// The bytes that the commitment for the input at `input_index` hashes.
    pub fn commitment_bytes(&self, input_index: u32) -> (bytes: Vec<u8>)
        ensures
            bytes@ == commitment_preimage(
                self.version,
                self.lock_time,
                self.sequences(),
                self.payments(),
                input_index,
            ),
    {
        let mut buf: Vec<u8> = Vec::new();
        put_i32(&mut buf, self.version);
        put_u32(&mut buf, self.lock_time);
        put_u32(&mut buf, ((self.input.len() as u64) % 0x1_0000_0000) as u32);
        let ghost head = buf@;
        let ghost sequences = self.sequences();
        let mut i: usize = 0;
        assert(sequences.subrange(0, 0) =~= Seq::<u32>::empty());
        assert(buf@ =~= head + sequences_bytes(sequences.subrange(0, 0)));
        while i < self.input.len()
            invariant
                i <= self.input.len(),
                sequences == self.sequences(),
                buf@ == head + sequences_bytes(sequences.subrange(0, i as int)),
            decreases self.input.len() - i,
        {
            put_u32(&mut buf, self.input[i].sequence);
            proof {
                lemma_sequences_push(sequences.subrange(0, i as int), sequences[i as int]);
                assert(sequences.subrange(0, i as int).push(sequences[i as int])
                    =~= sequences.subrange(0, i + 1));
            }
            i += 1;
        }
        assert(sequences.subrange(0, i as int) =~= sequences);
        put_u32(&mut buf, ((self.output.len() as u64) % 0x1_0000_0000) as u32);
        let ghost head = buf@;
        let ghost payments = self.payments();
        let mut j: usize = 0;
        assert(payments.subrange(0, 0) =~= Seq::<Payment>::empty());
        assert(buf@ =~= head + outputs_bytes(payments.subrange(0, 0)));
        while j < self.output.len()
            invariant
                j <= self.output.len(),
                payments == self.payments(),
                buf@ == head + outputs_bytes(payments.subrange(0, j as int)),
            decreases self.output.len() - j,
        {
            let ghost before = buf@;
            put_u64(&mut buf, self.output[j].value);
            put_var_int(&mut buf, self.output[j].script_pubkey.len() as u64);
            put_bytes(&mut buf, &self.output[j].script_pubkey);
            proof {
                assert(buf@ =~= before + output_bytes(payments[j as int]));
                lemma_outputs_push(payments.subrange(0, j as int), payments[j as int]);
                assert(payments.subrange(0, j as int).push(payments[j as int])
                    =~= payments.subrange(0, j + 1));
            }
            j += 1;
        }
        assert(payments.subrange(0, j as int) =~= payments);
        put_u32(&mut buf, input_index);
        buf
    }

    /// The commitment hash for the input at `input_index`: SHA-256 of the
    /// committed bytes.
    pub fn get_ctv_hash(&self, input_index: u32) -> (digest: [u8; 32])
        ensures
            digest@ == commitment_hash(
                self.version,
                self.lock_time,
                self.sequences(),
                self.payments(),
                input_index,
            ),
    {
        let bytes = self.commitment_bytes(input_index);
        sha256_digest(&bytes)
    }

    /// The sum of the outputs' values, unless it is more than a `u64` holds.
    pub fn total_amount(&self) -> (total: Option<u64>)
        ensures
            total_value(self.payments()) <= u64::MAX ==> total == Some(
                total_value(self.payments()) as u64,
            ),
            total_value(self.payments()) > u64::MAX ==> total is None,
    {
        let ghost payments = self.payments();
        let mut sum: u64 = 0;
        let mut i: usize = 0;
        assert(payments.subrange(0, 0) =~= Seq::<Payment>::empty());
        while i < self.output.len()
            invariant
                i <= self.output.len(),
                payments == self.payments(),
                sum == total_value(payments.subrange(0, i as int)),
            decreases self.output.len() - i,
        {
            let value = self.output[i].value;
            proof {
                assert(payments.subrange(0, i + 1).drop_last() =~= payments.subrange(0, i as int));
                lemma_total_value_grows(payments, i + 1);
            }
            if value > u64::MAX - sum {
                return None;
            }
            sum = sum + value;
            i += 1;
        }
        assert(payments.subrange(0, i as int) =~= payments);
        Some(sum)
    }
}

/// The sum over the first outputs is no more than the sum over all.
pub proof fn lemma_total_value_grows(payments: Seq<Payment>, n: int)
    requires
        0 <= n <= payments.len(),
    ensures
        total_value(payments.subrange(0, n)) <= total_value(payments),
    decreases payments.len() - n,
{
    if n == payments.len() {
        assert(payments.subrange(0, n) =~= payments);
    } else {
        lemma_total_value_grows(payments, n + 1);
        assert(payments.subrange(0, n + 1).drop_last() =~= payments.subrange(0, n));
    }
}

} // verus!
