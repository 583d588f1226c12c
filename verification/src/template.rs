//! Transaction templates and the builder that puts one together.

use vstd::prelude::*;
use crate::commitment::{
    commitment_hash, commitment_preimage, encodable, lemma_preimage_injective, total_value,
};
use crate::contract::{same_digest, CompilationError};
use crate::encode::{copy_bytes, same_bytes};
use crate::hash::sha256_collision;
use crate::template::output::{payments_of, Output};
use crate::transaction::{OutPoint, Transaction, TxIn, TxOut};

pub mod output;

verus! {

/// What a [`Builder`] holds.
pub struct BuilderView {
    pub sequences: Seq<u32>,
    pub outputs: Seq<Output>,
    pub version: i32,
    pub lock_time: u32,
    pub label: Seq<char>,
    pub amount: u64,
}

impl BuilderView {
    /// The bytes that freezing hashes: those for the first input.
    pub open spec fn preimage(self) -> Seq<u8> {
        commitment_preimage(
            self.version,
            self.lock_time,
            self.sequences,
            payments_of(self.outputs),
            0,
        )
    }

    /// The hash that freezing commits to: that of the first input.
    pub open spec fn commitment(self) -> Seq<u8> {
        commitment_hash(
            self.version,
            self.lock_time,
            self.sequences,
            payments_of(self.outputs),
            0,
        )
    }

    /// Whether the two commit to the same: version, lock time, sequence
    /// numbers, and the outputs' amounts and scripts.
    pub open spec fn commits_like(self, other: BuilderView) -> bool {
        &&& self.version == other.version
        &&& self.lock_time == other.lock_time
        &&& self.sequences == other.sequences
        &&& payments_of(self.outputs) == payments_of(other.outputs)
    }

    /// Whether the numbers of inputs and outputs fit the 32 bits that are
    /// written for them.
    pub open spec fn encodable(self) -> bool {
        encodable(self.sequences, payments_of(self.outputs))
    }
}

/// Puts a transaction template together step by step. Every step hands back
/// the updated builder; freezing consumes it.
pub struct Builder {
    sequences: Vec<u32>,
    outputs: Vec<Output>,
    version: i32,
    lock_time: u32,
    label: String,
    amount: u64,
}

impl View for Builder {
    type V = BuilderView;

    closed spec fn view(&self) -> BuilderView {
        BuilderView {
            sequences: self.sequences@,
            outputs: self.outputs@,
            version: self.version,
            lock_time: self.lock_time,
            label: self.label@,
            amount: self.amount,
        }
    }
}

impl Builder {
    /// A builder always has at least one input.
    #[verifier::type_invariant]
    spec fn has_input(self) -> bool {
        self.sequences@.len() >= 1
    }

    /// A template with one input of sequence 0, no output, version 2 and
    /// lock time 0.
    pub fn new() -> (b: Builder)
        ensures
            b@.sequences == seq![0u32],
            b@.outputs == Seq::<Output>::empty(),
            b@.version == 2,
            b@.lock_time == 0,
            b@.label == Seq::<char>::empty(),
            b@.amount == 0,
    {
        let mut sequences: Vec<u32> = Vec::new();
        sequences.push(0);
        let b = Builder {
            sequences,
            outputs: Vec::new(),
            version: 2,
            lock_time: 0,
            label: String::new(),
            amount: 0,
        };
        assert(b@.sequences =~= seq![0u32]);
        b
    }

    /// Adds an output after those that are there.
    pub fn add_output(self, o: Output) -> (b: Builder)
        ensures
            b@ == (BuilderView { outputs: self@.outputs.push(o), ..self@ }),
    {
        proof {
            use_type_invariant(&self);
        }
        let Builder { sequences, mut outputs, version, lock_time, label, amount } = self;
        outputs.push(o);
        Builder { sequences, outputs, version, lock_time, label, amount }
    }

    /// Adds to the running amount, which no output changes.
    pub fn add_amount(self, a: u64) -> (r: Result<Builder, CompilationError>)
        ensures
            self@.amount + a <= u64::MAX ==> (r matches Ok(b) && b@ == (BuilderView {
                amount: (self@.amount + a) as u64,
                ..self@
            })),
            self@.amount + a > u64::MAX ==> r == Err::<Builder, CompilationError>(
                CompilationError::AmountOverflow,
            ),
    {
        proof {
            use_type_invariant(&self);
        }
        if a > u64::MAX - self.amount {
            return Err(CompilationError::AmountOverflow);
        }
        let Builder { sequences, outputs, version, lock_time, label, amount } = self;
        Ok(Builder { sequences, outputs, version, lock_time, label, amount: amount + a })
    }

    /// Adds an input with this sequence number after those that are there.
    pub fn add_sequence(self, s: u32) -> (b: Builder)
        ensures
            b@ == (BuilderView { sequences: self@.sequences.push(s), ..self@ }),
    {
        proof {
            use_type_invariant(&self);
        }
        let Builder { mut sequences, outputs, version, lock_time, label, amount } = self;
        sequences.push(s);
        Builder { sequences, outputs, version, lock_time, label, amount }
    }

    /// Replaces the sequence number of the input at `i`.
    pub fn set_sequence(self, i: usize, s: u32) -> (r: Result<Builder, CompilationError>)
        ensures
            i < self@.sequences.len() ==> (r matches Ok(b) && b@ == (BuilderView {
                sequences: self@.sequences.update(i as int, s),
                ..self@
            })),
            i >= self@.sequences.len() ==> r == Err::<Builder, CompilationError>(
                CompilationError::IndexError,
            ),
    {
        proof {
            use_type_invariant(&self);
        }
        if i >= self.sequences.len() {
            return Err(CompilationError::IndexError);
        }
        let Builder { mut sequences, outputs, version, lock_time, label, amount } = self;
        sequences.set(i, s);
        Ok(Builder { sequences, outputs, version, lock_time, label, amount })
    }

    /// Replaces the lock time.
    pub fn set_lock_time(self, lt: u32) -> (b: Builder)
        ensures
            b@ == (BuilderView { lock_time: lt, ..self@ }),
    {
        proof {
            use_type_invariant(&self);
        }
        let Builder { sequences, outputs, version, lock_time: _, label, amount } = self;
        Builder { sequences, outputs, version, lock_time: lt, label, amount }
    }

    /// Replaces the label.
    pub fn set_label(self, label: String) -> (b: Builder)
        ensures
            b@ == (BuilderView { label: label@, ..self@ }),
    {
        proof {
            use_type_invariant(&self);
        }
        let Builder { sequences, outputs, version, lock_time, label: _, amount } = self;
        Builder { sequences, outputs, version, lock_time, label, amount }
    }

    /// The running amount.
    pub fn amount(&self) -> (a: u64)
        ensures
            a == self@.amount,
    {
        self.amount
    }

    /// The transaction skeleton: one placeholder input per sequence number
    /// and one output per recorded output, each in order.
    pub fn get_tx(&self) -> (tx: Transaction)
        ensures
            tx.version == self@.version,
            tx.lock_time == self@.lock_time,
            tx.sequences() == self@.sequences,
            tx.payments() == payments_of(self@.outputs),
            tx.is_skeleton(),
            tx.input@.len() >= 1,
    {
        proof {
            use_type_invariant(self);
        }
        let mut input: Vec<TxIn> = Vec::new();
        let mut i: usize = 0;
        while i < self.sequences.len()
            invariant
                i <= self.sequences.len(),
                input@.len() == i,
                forall|k: int|
                    0 <= k < i ==> (#[trigger] input@[k]).sequence == self.sequences@[k]
                        && input@[k].is_placeholder(),
            decreases self.sequences.len() - i,
        {
            input.push(
                TxIn {
                    previous_output: OutPoint::null(),
                    script_sig: Vec::new(),
                    sequence: self.sequences[i],
                    witness: Vec::new(),
                },
            );
            i += 1;
        }
        let mut output: Vec<TxOut> = Vec::new();
        let mut j: usize = 0;
        while j < self.outputs.len()
            invariant
                j <= self.outputs.len(),
                output@.len() == j,
                forall|k: int|
                    0 <= k < j ==> (#[trigger] output@[k]).value == self.outputs@[k].amount
                        && output@[k].script_pubkey@ == self.outputs@[k].contract.address@,
            decreases self.outputs.len() - j,
        {
            let script_pubkey = copy_bytes(&self.outputs[j].contract.address);
            output.push(TxOut { value: self.outputs[j].amount, script_pubkey });
            j += 1;
        }
        let tx = Transaction { version: self.version, lock_time: self.lock_time, input, output };
        assert(tx.sequences() =~= self@.sequences);
        assert(tx.payments() =~= payments_of(self@.outputs));
        tx
    }

    /// Freezes the builder into a template: the skeleton, its commitment
    /// hash, and the sum of the outputs as the most the template pays out.
    /// Fails if that sum cannot be represented.
    pub fn freeze(self) -> (r: Result<Template, CompilationError>)
        ensures
            total_value(payments_of(self@.outputs)) <= u64::MAX ==> (r matches Ok(t)
                && t.frozen_from(self@) && t.well_formed()),
            total_value(payments_of(self@.outputs)) > u64::MAX ==> r == Err::<
                Template,
                CompilationError,
            >(CompilationError::AmountOverflow),
    {
        let tx = self.get_tx();
        let max = match tx.total_amount() {
            Some(total) => total,
            None => {
                return Err(CompilationError::AmountOverflow);
            },
        };
        let ctv = tx.get_ctv_hash(0);
        let Builder { sequences: _, outputs, version: _, lock_time: _, label, amount: _ } = self;
        Ok(Template { outputs, tx, ctv, max, label })
    }
}

/// A frozen transaction template. Its commitment hash is its identity.
#[derive(Debug, PartialEq, Eq)]
pub struct Template {
    /// What the template pays out, in order.
    pub outputs: Vec<Output>,
    /// The transaction skeleton.
    pub tx: Transaction,
    /// The commitment hash.
    pub ctv: [u8; 32],
    /// The most the template pays out: the sum of its outputs.
    pub max: u64,
    pub label: String,
}

impl Template {
    /// Whether this is what freezing a builder with these contents gives.
    pub open spec fn frozen_from(self, b: BuilderView) -> bool {
        &&& self.outputs@ == b.outputs
        &&& self.tx.version == b.version
        &&& self.tx.lock_time == b.lock_time
        &&& self.tx.sequences() == b.sequences
        &&& self.tx.payments() == payments_of(b.outputs)
        &&& self.tx.is_skeleton()
        &&& self.ctv@ == b.commitment()
        &&& self.max == total_value(payments_of(b.outputs))
        &&& self.label@ == b.label
    }

    /// Whether the template is consistent in itself: its transaction is a
    /// skeleton that pays what the outputs say, the hash commits to that
    /// transaction, and `max` is the sum of the outputs.
    pub open spec fn well_formed(self) -> bool {
        &&& self.tx.payments() == payments_of(self.outputs@)
        &&& self.tx.is_skeleton()
        &&& self.tx.input@.len() >= 1
        &&& self.ctv@ == commitment_hash(
            self.tx.version,
            self.tx.lock_time,
            self.tx.sequences(),
            self.tx.payments(),
            0,
        )
        &&& self.max == total_value(payments_of(self.outputs@))
    }

    /// Whether the outputs of the transaction pay what the template's
    /// outputs say.
    fn pays_outputs(&self) -> (ok: bool)
        ensures
            ok == (self.tx.payments() == payments_of(self.outputs@)),
    {
        if self.tx.output.len() != self.outputs.len() {
            assert(self.tx.payments().len() != payments_of(self.outputs@).len());
            return false;
        }
        let mut i: usize = 0;
        while i < self.outputs.len()
            invariant
                i <= self.outputs.len(),
                self.tx.output@.len() == self.outputs@.len(),
                forall|k: int|
                    0 <= k < i ==> self.tx.payments()[k] == #[trigger] payments_of(self.outputs@)[k],
            decreases self.outputs.len() - i,
        {
            let same = self.tx.output[i].value == self.outputs[i].amount && same_bytes(
                &self.tx.output[i].script_pubkey,
                &self.outputs[i].contract.address,
            );
            if !same {
                assert(self.tx.payments()[i as int] != payments_of(self.outputs@)[i as int]);
                return false;
            }
            i += 1;
        }
        assert(self.tx.payments() =~= payments_of(self.outputs@));
        true
    }

    /// Whether the template is consistent in itself.
    pub fn is_well_formed(&self) -> (ok: bool)
        ensures
            ok == self.well_formed(),
    {
        if !self.pays_outputs() {
            return false;
        }
        if !self.tx.check_skeleton() || self.tx.input.len() == 0 {
            return false;
        }
        let committed = self.tx.get_ctv_hash(0);
        if !same_digest(&committed, &self.ctv) {
            return false;
        }
        match self.tx.total_amount() {
            Some(total) => total == self.max,
            None => false,
        }
    }

    /// The commitment hash.
    pub fn hash(&self) -> (h: [u8; 32])
        ensures
            h == self.ctv,
    {
        self.ctv
    }

    /// A fresh builder, as [`Builder::new`] gives it.
    pub fn new() -> (b: Builder)
        ensures
            b@.sequences == seq![0u32],
            b@.outputs == Seq::<Output>::empty(),
            b@.version == 2,
            b@.lock_time == 0,
            b@.label == Seq::<char>::empty(),
            b@.amount == 0,
    {
        Builder::new()
    }

    /// The amount attributed to the template itself, which is always zero.
    /// What its outputs carry is `max`.
    pub fn total_amount(&self) -> (a: u64)
        ensures
            a == 0,
    {
        0
    }
}

impl From<Builder> for Result<Template, CompilationError> {
    /// Freezes the builder, as [`Builder::freeze`] does.
    fn from(t: Builder) -> (r: Self)
        ensures
            total_value(payments_of(t@.outputs)) <= u64::MAX ==> (r matches Ok(template)
                && template.frozen_from(t@) && template.well_formed()),
            total_value(payments_of(t@.outputs)) > u64::MAX ==> r == Err::<
                Template,
                CompilationError,
            >(CompilationError::AmountOverflow),
    {
        t.freeze()
    }
}

impl vstd::std_specs::convert::FromSpecImpl<Builder> for Result<Template, CompilationError> {
    /// No spec function can name the frozen template, so none is claimed
    /// to: what `from` gives is stated on `from` itself.
    open spec fn obeys_from_spec() -> bool {
        false
    }

    open spec fn from_spec(t: Builder) -> Self {
        arbitrary()
    }
}

/// Hash determinism: builders with the same version, lock time, sequence
/// numbers and outputs freeze to templates with the same commitment hash.
pub proof fn law_hash_determinism(a: BuilderView, b: BuilderView, ta: Template, tb: Template)
    requires
        a.commits_like(b),
        ta.frozen_from(a),
        tb.frozen_from(b),
    ensures
        a.commitment() == b.commitment(),
        ta.ctv@ == tb.ctv@,
{
}

/// The commitment binds: two builders with the same commitment hash commit
/// to the same version, lock time, sequence numbers and outputs, unless the
/// bytes that they hash are a collision of SHA-256.
pub proof fn law_commitment_binds(a: BuilderView, b: BuilderView)
    requires
        a.encodable(),
        b.encodable(),
    ensures
        a.commitment() == b.commitment() ==> a.commits_like(b) || sha256_collision(
            a.preimage(),
            b.preimage(),
        ),
{
    if a.preimage() == b.preimage() {
        lemma_preimage_injective(
            a.version,
            a.lock_time,
            a.sequences,
            payments_of(a.outputs),
            0,
            b.version,
            b.lock_time,
            b.sequences,
            payments_of(b.outputs),
            0,
        );
    }
}

/// A changed amount changes the hash: two builders that differ in the
/// amount of the output at `i` have different commitment hashes, unless
/// the bytes that they hash are a collision of SHA-256.
pub proof fn law_amount_changes_hash(a: BuilderView, b: BuilderView, i: int)
    requires
        a.encodable(),
        b.encodable(),
        a.outputs.len() == b.outputs.len(),
        0 <= i < a.outputs.len(),
        a.outputs[i].amount != b.outputs[i].amount,
    ensures
        a.commitment() != b.commitment() || sha256_collision(a.preimage(), b.preimage()),
{
    law_commitment_binds(a, b);
    assert(payments_of(a.outputs)[i].0 != payments_of(b.outputs)[i].0);
}

/// Order matters: the same two outputs added in reversed order give
/// different commitment hashes, unless the two outputs pay the same amount
/// to the same script or the bytes that are hashed are a collision of
/// SHA-256.
pub proof fn law_order_changes_hash(a: BuilderView, b: BuilderView, x: Output, y: Output)
    requires
        a.encodable(),
        b.encodable(),
        a.outputs == seq![x, y],
        b.outputs == seq![y, x],
        x.payment() != y.payment(),
    ensures
        a.commitment() != b.commitment() || sha256_collision(a.preimage(), b.preimage()),
{
    law_commitment_binds(a, b);
    assert(payments_of(a.outputs)[0] == x.payment());
    assert(payments_of(b.outputs)[0] == y.payment());
}

/// One more input changes the hash: a builder and the same builder with a
/// sequence number added have different commitment hashes, unless the
/// bytes that they hash are a collision of SHA-256.
pub proof fn law_sequence_changes_hash(a: BuilderView, b: BuilderView, s: u32)
    requires
        a.encodable(),
        b.encodable(),
        b.sequences == a.sequences.push(s),
    ensures
        a.commitment() != b.commitment() || sha256_collision(a.preimage(), b.preimage()),
{
    law_commitment_binds(a, b);
    assert(a.sequences.len() != b.sequences.len());
}

} // verus!
