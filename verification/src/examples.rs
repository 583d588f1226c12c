//! Small contracts that show what a declaration looks like: two finish
//! policies, a contract in two phases, and a branch under conditions.

use vstd::prelude::*;
use std::marker::PhantomData;
use crate::clause::{policies, Clause, Policy};
use crate::conditional::ConditionalCompileType;
use crate::contract::{CompilationError, Compiled, Contract, ThenBranch};
use crate::encode::copy_bytes;
use crate::template::output::Output;
use crate::template::{Builder, BuilderView};

verus! {

/// Two parties who spend together, or anyone after a timeout.
pub struct ExampleA {
    pub alice: Vec<u8>,
    pub bob: Vec<u8>,
    pub amount: u64,
    pub resolution: Compiled,
}

impl ExampleA {
    /// The output is at least 100 blocks old.
    pub fn timeout(&self) -> (c: Clause)
        ensures
            c@ == Policy::RelativeTimelock(100),
    {
        Clause::RelativeTimelock(100)
    }

    /// Both parties sign.
    pub fn signed(&self) -> (c: Clause)
        ensures
            c@ == Policy::And(seq![Policy::Key(self.alice@), Policy::Key(self.bob@)]),
    {
        both_sign(&self.alice, &self.bob)
    }

    /// The declaration: both finish policies, no then-branch, not updatable.
    pub fn declaration(&self) -> (c: Contract)
        ensures
            policies(c.finish@) == seq![
                Policy::And(seq![Policy::Key(self.alice@), Policy::Key(self.bob@)]),
                Policy::RelativeTimelock(100),
            ],
            c.then_branches@.len() == 0,
            !c.updatable,
    {
        let mut finish: Vec<Clause> = Vec::new();
        finish.push(self.signed());
        finish.push(self.timeout());
        assert(policies(finish@) =~= seq![
            Policy::And(seq![Policy::Key(self.alice@), Policy::Key(self.bob@)]),
            Policy::RelativeTimelock(100),
        ]);
        Contract { finish, then_branches: Vec::new(), updatable: false }
    }
}

/// The policy under which the holders of both keys sign.
fn both_sign(first: &Vec<u8>, second: &Vec<u8>) -> (c: Clause)
    ensures
        c@ == Policy::And(seq![Policy::Key(first@), Policy::Key(second@)]),
{
    let mut keys: Vec<Clause> = Vec::new();
    keys.push(Clause::Key(copy_bytes(first)));
    keys.push(Clause::Key(copy_bytes(second)));
    assert(policies(keys@) =~= seq![Policy::Key(first@), Policy::Key(second@)]);
    Clause::And(keys)
}

/// The phase of a contract that runs in two phases. The phase decides how
/// many participants have to sign.
pub trait BState {
    /// The number that have to sign, of `max` participants with a declared
    /// threshold of `n`.
    spec fn signers(n: u8, max: u8) -> u8;

    fn get_n(n: u8, max: u8) -> (r: u8)
        ensures
            r == Self::signers(n, max),
    ;
}

/// The first phase: everyone has to sign.
pub struct Start;

/// The second phase: the declared threshold is enough.
pub struct Finish;

impl BState for Start {
    open spec fn signers(n: u8, max: u8) -> u8 {
        max
    }

    fn get_n(_n: u8, max: u8) -> (r: u8) {
        max
    }
}

impl BState for Finish {
    open spec fn signers(n: u8, max: u8) -> u8 {
        n
    }

    fn get_n(n: u8, _max: u8) -> (r: u8) {
        n
    }
}

/// A contract among participants that starts in one phase and is contested
/// into the next.
pub struct ExampleB<T: BState> {
    pub participants: Vec<Vec<u8>>,
    pub threshold: u8,
    pub amount: u64,
    pub pd: PhantomData<T>,
}

/// One key policy per participant, in order.
pub open spec fn key_policies(participants: Seq<Vec<u8>>) -> Seq<Policy> {
    Seq::new(participants.len(), |i: int| Policy::Key(participants[i]@))
}

/// The number of participants as the eight bits that are kept of it.
pub open spec fn count8(n: nat) -> u8 {
    (n % 256) as u8
}

impl<T: BState> ExampleB<T> {
    /// As many participants sign as the phase asks for.
    pub fn all_signed(&self) -> (c: Clause)
        ensures
            c@ == Policy::Threshold(
                T::signers(self.threshold, count8(self.participants@.len())) as nat,
                key_policies(self.participants@),
            ),
    {
        let max = (self.participants.len() % 256) as u8;
        let mut keys: Vec<Clause> = Vec::new();
        let mut i: usize = 0;
        while i < self.participants.len()
            invariant
                i <= self.participants.len(),
                keys@.len() == i,
                forall|k: int| 0 <= k < i ==> (#[trigger] keys@[k])@ == Policy::Key(self.participants@[k]@),
            decreases self.participants.len() - i,
        {
            keys.push(Clause::Key(copy_bytes(&self.participants[i])));
            i += 1;
        }
        assert(policies(keys@) =~= key_policies(self.participants@));
        Clause::Threshold(T::get_n(self.threshold, max) as usize, keys)
    }
}

impl ExampleB<Start> {
    /// Whether a builder holds the template that begins the contest.
    pub open spec fn is_contest(&self, b: BuilderView, next: Compiled) -> bool {
        &&& b.sequences == seq![0u32]
        &&& b.outputs == seq![(Output { amount: self.amount, contract: next, label: None })]
        &&& b.version == 2
        &&& b.lock_time == 0
        &&& b.label.len() == 0
        &&& b.amount == 0
    }

    /// The one template of the first phase: the whole amount goes to the
    /// contract of the second phase, given here as compiled.
    pub fn begin_contest(&self, next: Compiled) -> (b: Builder)
        ensures
            self.is_contest(b@, next),
    {
        let b = Builder::new().add_output(Output { amount: self.amount, contract: next, label: None });
        assert(b@.outputs =~= seq![(Output { amount: self.amount, contract: next, label: None })]);
        b
    }

    /// The declaration of the first phase: everyone signs, or the contest
    /// begins.
    pub fn declaration(&self, next: Compiled) -> (c: Contract)
        ensures
            policies(c.finish@) == seq![
                Policy::Threshold(
                    count8(self.participants@.len()) as nat,
                    key_policies(self.participants@),
                ),
            ],
            c.then_branches@.len() == 1,
            c.then_branches@[0].conditions@.len() == 0,
            c.then_branches@[0].templates@.len() == 1,
            self.is_contest(c.then_branches@[0].templates@[0]@, next),
            !c.updatable,
    {
        let mut finish: Vec<Clause> = Vec::new();
        finish.push(self.all_signed());
        assert(policies(finish@) =~= seq![
            Policy::Threshold(
                count8(self.participants@.len()) as nat,
                key_policies(self.participants@),
            ),
        ]);
        let mut templates: Vec<Builder> = Vec::new();
        templates.push(self.begin_contest(next));
        let mut then_branches: Vec<ThenBranch> = Vec::new();
        then_branches.push(ThenBranch { conditions: Vec::new(), templates });
        Contract { finish, then_branches, updatable: false }
    }
}

impl ExampleB<Finish> {
    /// The declaration of the second phase: the threshold signs. Its one
    /// then-branch builds nothing.
    pub fn declaration(&self) -> (c: Contract)
        ensures
            policies(c.finish@) == seq![
                Policy::Threshold(self.threshold as nat, key_policies(self.participants@)),
            ],
            c.then_branches@.len() == 1,
            c.then_branches@[0].conditions@.len() == 0,
            c.then_branches@[0].templates@.len() == 0,
            !c.updatable,
    {
        let mut finish: Vec<Clause> = Vec::new();
        finish.push(self.all_signed());
        assert(policies(finish@) =~= seq![
            Policy::Threshold(self.threshold as nat, key_policies(self.participants@)),
        ]);
        let mut then_branches: Vec<ThenBranch> = Vec::new();
        then_branches.push(ThenBranch { conditions: Vec::new(), templates: Vec::new() });
        Contract { finish, then_branches, updatable: false }
    }
}

/// How long funds in escrow wait: ten days, in seconds.
pub const ESCROW_DELAY_SECONDS: u32 = 10 * 24 * 60 * 60;

/// The sequence number that locks an input for the escrow delay.
pub const ESCROW_SEQUENCE: u32 = 0x0040_0000 + 1688;

/// The sequence number of a relative lock by time: the flag that marks the
/// lock as one by time, and the delay in units of 512 seconds, rounded up so
/// that the lock lasts no less than the delay.
pub open spec fn relative_time_lock(seconds: nat) -> nat {
    0x0040_0000 + (seconds + 511) / 512
}

/// The escrow's sequence number is the relative lock for the escrow delay.
pub proof fn law_escrow_delay()
    ensures
        ESCROW_SEQUENCE == relative_time_lock(ESCROW_DELAY_SECONDS as nat),
        (ESCROW_SEQUENCE - 0x0040_0000) * 512 >= ESCROW_DELAY_SECONDS,
{
}

/// Trustless escrow: two parties who spend together, or move their funds
/// into escrow, under conditions that the contract's own settings decide.
pub struct ExampleCompileIf {
    pub alice: Vec<u8>,
    pub bob: Vec<u8>,
    /// Alice's amount and the script of the address that receives it.
    pub alice_escrow: (u64, Vec<u8>),
    /// Bob's amount and the script of the address that receives it.
    pub bob_escrow: (u64, Vec<u8>),
    pub escrow_disable: bool,
    pub escrow_required_no_conflict_disabled: bool,
    pub escrow_required_conflict_disabled: bool,
    pub escrow_nullable: bool,
    pub escrow_error: Option<String>,
}

impl ExampleCompileIf {
    /// What `should_escrow` says.
    pub open spec fn should_escrow_says(&self) -> ConditionalCompileType {
        if self.escrow_disable {
            ConditionalCompileType::Never
        } else if self.escrow_required_no_conflict_disabled {
            ConditionalCompileType::Required
        } else {
            ConditionalCompileType::Skippable
        }
    }

    /// What `must_escrow` says.
    pub open spec fn must_escrow_says(&self) -> ConditionalCompileType {
        if self.escrow_required_conflict_disabled {
            ConditionalCompileType::Required
        } else {
            ConditionalCompileType::NoConstraint
        }
    }

    /// What `escrow_nullable_ok` says.
    pub open spec fn escrow_nullable_ok_says(&self) -> ConditionalCompileType {
        if self.escrow_nullable {
            ConditionalCompileType::Nullable
        } else {
            ConditionalCompileType::NoConstraint
        }
    }

    /// Whether this is what `escrow_error_chk` says.
    pub open spec fn escrow_error_chk_says(&self, v: ConditionalCompileType) -> bool {
        match self.escrow_error {
            Some(e) => v matches ConditionalCompileType::Fail(messages) && messages@ == seq![e],
            None => v is NoConstraint,
        }
    }

    /// Whether a builder holds the escrow template.
    pub open spec fn is_escrow(&self, b: BuilderView) -> bool {
        &&& b.sequences == seq![ESCROW_SEQUENCE]
        &&& b.outputs.len() == 2
        &&& b.outputs[0].amount == self.alice_escrow.0
        &&& b.outputs[0].contract.address@ == self.alice_escrow.1@
        &&& b.outputs[0].contract.policy@ == Policy::Or(Seq::empty())
        &&& b.outputs[0].contract.templates@.len() == 0
        &&& b.outputs[0].label is None
        &&& b.outputs[1].amount == self.bob_escrow.0
        &&& b.outputs[1].contract.address@ == self.bob_escrow.1@
        &&& b.outputs[1].contract.policy@ == Policy::Or(Seq::empty())
        &&& b.outputs[1].contract.templates@.len() == 0
        &&& b.outputs[1].label is None
        &&& b.version == 2
        &&& b.lock_time == 0
        &&& b.label.len() == 0
        &&& b.amount == 0
    }

    /// Both parties sign.
    pub fn cooperate(&self) -> (c: Clause)
        ensures
            c@ == Policy::And(seq![Policy::Key(self.alice@), Policy::Key(self.bob@)]),
    {
        both_sign(&self.alice, &self.bob)
    }

    /// Forbids the escrow where it is disabled. Otherwise requires it where
    /// that is asked for without conflict, and else lets it be skipped.
    pub fn should_escrow(&self) -> (v: ConditionalCompileType)
        ensures
            v == self.should_escrow_says(),
    {
        if self.escrow_disable {
            ConditionalCompileType::Never
        } else if self.escrow_required_no_conflict_disabled {
            ConditionalCompileType::Required
        } else {
            ConditionalCompileType::Skippable
        }
    }

    /// Requires the escrow where that is asked for, also against
    /// `should_escrow`: with both set the contract does not compile.
    pub fn must_escrow(&self) -> (v: ConditionalCompileType)
        ensures
            v == self.must_escrow_says(),
    {
        if self.escrow_required_conflict_disabled {
            ConditionalCompileType::Required
        } else {
            ConditionalCompileType::NoConstraint
        }
    }

    /// Lets the escrow be empty where that is allowed.
    pub fn escrow_nullable_ok(&self) -> (v: ConditionalCompileType)
        ensures
            v == self.escrow_nullable_ok_says(),
    {
        if self.escrow_nullable {
            ConditionalCompileType::Nullable
        } else {
            ConditionalCompileType::NoConstraint
        }
    }

    /// Fails with the error that was set, if one was.
    pub fn escrow_error_chk(&self) -> (v: ConditionalCompileType)
        ensures
            self.escrow_error_chk_says(v),
    {
        match &self.escrow_error {
            Some(e) => {
                let mut messages: Vec<String> = Vec::new();
                messages.push(e.clone());
                assert(messages@ =~= seq![*e]);
                ConditionalCompileType::Fail(messages)
            },
            None => ConditionalCompileType::NoConstraint,
        }
    }

    /// The escrow template: each party's amount to its own address, in this
    /// order, spendable once the input is ten days old.
    pub fn use_escrow(&self) -> (r: Result<Builder, CompilationError>)
        ensures
            r matches Ok(b) && self.is_escrow(b@),
    {
        let to_alice = Output {
            amount: self.alice_escrow.0,
            contract: Compiled::from_address(copy_bytes(&self.alice_escrow.1)),
            label: None,
        };
        let to_bob = Output {
            amount: self.bob_escrow.0,
            contract: Compiled::from_address(copy_bytes(&self.bob_escrow.1)),
            label: None,
        };
        let r = Builder::new().add_output(to_alice).add_output(to_bob).set_sequence(
            0,
            ESCROW_SEQUENCE,
        );
        assert(seq![0u32].update(0, ESCROW_SEQUENCE) =~= seq![ESCROW_SEQUENCE]);
        r
    }

    /// The declaration: cooperation finishes; the escrow is a then-branch
    /// under the four conditions, in this order: `should_escrow`,
    /// `must_escrow`, `escrow_nullable_ok`, `escrow_error_chk`.
    pub fn declaration(&self) -> (r: Result<Contract, CompilationError>)
        ensures
            r matches Ok(c) && {
                &&& policies(c.finish@) == seq![
                    Policy::And(seq![Policy::Key(self.alice@), Policy::Key(self.bob@)]),
                ]
                &&& c.then_branches@.len() == 1
                &&& c.then_branches@[0].conditions@.len() == 4
                &&& c.then_branches@[0].conditions@[0] == self.should_escrow_says()
                &&& c.then_branches@[0].conditions@[1] == self.must_escrow_says()
                &&& c.then_branches@[0].conditions@[2] == self.escrow_nullable_ok_says()
                &&& self.escrow_error_chk_says(c.then_branches@[0].conditions@[3])
                &&& c.then_branches@[0].templates@.len() == 1
                &&& self.is_escrow(c.then_branches@[0].templates@[0]@)
                &&& !c.updatable
            },
    {
        let mut finish: Vec<Clause> = Vec::new();
        finish.push(self.cooperate());
        assert(policies(finish@) =~= seq![
            Policy::And(seq![Policy::Key(self.alice@), Policy::Key(self.bob@)]),
        ]);
        let mut conditions: Vec<ConditionalCompileType> = Vec::new();
        conditions.push(self.should_escrow());
        conditions.push(self.must_escrow());
        conditions.push(self.escrow_nullable_ok());
        conditions.push(self.escrow_error_chk());
        let mut templates: Vec<Builder> = Vec::new();
        match self.use_escrow() {
            Ok(b) => {
                templates.push(b);
            },
            Err(e) => {
                return Err(e);
            },
        }
        let mut then_branches: Vec<ThenBranch> = Vec::new();
        then_branches.push(ThenBranch { conditions, templates });
        Ok(Contract { finish, then_branches, updatable: false })
    }
}

} // verus!
