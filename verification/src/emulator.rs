//! Signer backends, and the federation that makes one signer out of many.
//!
//! A federation asks its children in the order in which they were given and
//! stops at the first that fails, whose error it hands on as it came. What
//! the children answer is theirs to decide; what the federation makes of
//! the answers is decided here.

use vstd::prelude::*;
use std::sync::Arc;
use bitcoin::util::psbt::PartiallySignedTransaction;
use crate::clause::{Clause, Policy};

verus! {

/// A partially signed transaction of the `bitcoin` crate. The library hands
/// it from signer to signer and never looks inside.
#[verifier::external_type_specification]
#[verifier::external_body]
pub struct ExPartiallySignedTransaction(PartiallySignedTransaction);

/// Why a signer did not answer.
#[derive(Debug, PartialEq, Eq)]
pub enum EmulatorError {
    /// A backend's own failure, in its own words.
    Backend(String),
    /// The child at this position failed with this error. A backend that
    /// stands for several others may report their failures so. A
    /// federation does not: it hands on the error of the child that failed.
    ChildFailure(usize, Box<EmulatorError>),
}

/// A signer backend: a hardware device, a remote co-signer, a software key,
/// or a federation of such.
///
/// Each backend says for itself which answers it may give, and a backend
/// that says nothing may give any. The two relations promise nothing of a
/// backend: they let a caller say which backend was asked, and for what.
pub trait CTVEmulator {
    /// Whether `r` is an answer that this signer may give when asked for `h`.
    open spec fn may_answer(&self, h: [u8; 32], r: Result<Clause, EmulatorError>) -> bool {
        true
    }

    /// Whether `r` is what this signer may give back when handed `b`.
    open spec fn may_sign(
        &self,
        b: PartiallySignedTransaction,
        r: Result<PartiallySignedTransaction, EmulatorError>,
    ) -> bool {
        true
    }

    /// The policy under which this signer authorises the template with this
    /// commitment hash.
    fn get_signer_for(&self, h: [u8; 32]) -> (r: Result<Clause, EmulatorError>)
        ensures
            self.may_answer(h, r),
    ;

    /// The transaction with this signer's contribution applied.
    fn sign(&self, b: PartiallySignedTransaction) -> (r: Result<
        PartiallySignedTransaction,
        EmulatorError,
    >)
        ensures
            self.may_sign(b, r),
    ;
}

/// Whether each answer is one that the child at its position may give when
/// asked for `h`.
pub open spec fn answered_by(
    children: Seq<Arc<dyn CTVEmulator>>,
    h: [u8; 32],
    answers: Seq<Result<Clause, EmulatorError>>,
) -> bool {
    forall|k: int|
        0 <= k < answers.len() ==> children[k].may_answer(h, #[trigger] answers[k])
}

/// What the child at position `k` is handed when signing: the transaction as
/// it was given for the first child, and for every other what the child
/// before it gave back.
pub open spec fn handed(
    given: PartiallySignedTransaction,
    outcomes: Seq<Result<PartiallySignedTransaction, EmulatorError>>,
    k: int,
) -> PartiallySignedTransaction {
    if k <= 0 {
        given
    } else {
        match outcomes[k - 1] {
            Ok(signed) => signed,
            Err(_) => given,
        }
    }
}

/// Whether each outcome is what the child at its position may give back
/// when handed what the child before it gave back.
pub open spec fn signed_by(
    children: Seq<Arc<dyn CTVEmulator>>,
    given: PartiallySignedTransaction,
    outcomes: Seq<Result<PartiallySignedTransaction, EmulatorError>>,
) -> bool {
    forall|k: int|
        0 <= k < outcomes.len() ==> children[k].may_sign(
            handed(given, outcomes, k),
            #[trigger] outcomes[k],
        )
}

/// What one child answered when asked for its policy.
pub type Answer = Result<Clause, EmulatorError>;

/// The position of the first answer that is a failure, if there is one.
pub open spec fn first_failure<T>(answers: Seq<Result<T, EmulatorError>>) -> Option<int>
    decreases answers.len(),
{
    if answers.len() == 0 {
        None
    } else {
        match first_failure(answers.drop_last()) {
            Some(i) => Some(i),
            None => if answers.last() is Err {
                Some(answers.len() - 1)
            } else {
                None
            },
        }
    }
}

/// The policies of the answers, in order. A failure has none; where this
/// is used no answer is one.
pub open spec fn answered_policies(answers: Seq<Answer>) -> Seq<Policy> {
    Seq::new(
        answers.len(),
        |k: int|
            match answers[k] {
                Ok(clause) => clause@,
                Err(_) => Policy::Or(Seq::empty()),
            },
    )
}

/// The error of an answer that is a failure. Of another answer it says
/// nothing.
pub open spec fn failure_of<T>(answer: Result<T, EmulatorError>) -> EmulatorError {
    match answer {
        Ok(_) => arbitrary(),
        Err(e) => e,
    }
}

/// What a federation with this threshold makes of its children's answers:
/// the error of the first failure, as it came, or else a threshold over
/// every child's policy in the children's order.
pub open spec fn federated(threshold: u8, answers: Seq<Answer>) -> Result<Policy, EmulatorError> {
    match first_failure(answers) {
        Some(i) => Err(failure_of(answers[i])),
        None => Ok(Policy::Threshold(threshold as nat, answered_policies(answers))),
    }
}

/// What a federation makes of what its children gave back when the
/// transaction went from one to the next: the error of the first failure,
/// as it came, or else what the last child gave back, or the transaction as
/// it was given where there is no child.
pub open spec fn threaded(
    given: PartiallySignedTransaction,
    outcomes: Seq<Result<PartiallySignedTransaction, EmulatorError>>,
) -> Result<PartiallySignedTransaction, EmulatorError> {
    match first_failure(outcomes) {
        Some(i) => Err(failure_of(outcomes[i])),
        None => if outcomes.len() == 0 {
            Ok(given)
        } else {
            outcomes.last()
        },
    }
}

/// Whether a federation of `children` could have gathered these answers: one
/// per child asked, in order, and none after a failure.
pub open spec fn gathered<T>(answers: Seq<Result<T, EmulatorError>>, children: nat) -> bool {
    &&& answers.len() <= children
    &&& match first_failure(answers) {
        Some(i) => i == answers.len() - 1,
        None => answers.len() == children,
    }
}

/// Whether a result is what the model says: the same error, or a clause
/// that stands for the same policy.
pub open spec fn agrees(r: Result<Clause, EmulatorError>, model: Result<Policy, EmulatorError>) -> bool {
    match r {
        Ok(clause) => model == Ok::<Policy, EmulatorError>(clause@),
        Err(e) => model == Err::<Policy, EmulatorError>(e),
    }
}

/// The first failure is a failure, and every answer before it is none.
/// Without a first failure no answer is a failure.
pub proof fn lemma_first_failure<T>(answers: Seq<Result<T, EmulatorError>>)
    ensures
        match first_failure(answers) {
            Some(i) => 0 <= i < answers.len() && answers[i] is Err && forall|k: int|
                0 <= k < i ==> (#[trigger] answers[k]) is Ok,
            None => forall|k: int| 0 <= k < answers.len() ==> (#[trigger] answers[k]) is Ok,
        },
    decreases answers.len(),
{
    if answers.len() > 0 {
        let init = answers.drop_last();
        lemma_first_failure(init);
        assert forall|k: int| 0 <= k < init.len() implies init[k] == answers[k] by {}
        match first_failure(init) {
            Some(i) => {
                assert(answers[i] == init[i]);
                assert forall|k: int| 0 <= k < i implies (#[trigger] answers[k]) is Ok by {
                    assert(init[k] is Ok);
                }
            },
            None => {
                assert forall|k: int| 0 <= k < answers.len() - 1 implies (#[trigger] answers[k]) is Ok by {
                    assert(init[k] is Ok);
                }
            },
        }
    }
}

/// An answer that is a failure after answers that are none is the first
/// failure.
pub proof fn lemma_first_failure_at<T>(answers: Seq<Result<T, EmulatorError>>, i: int)
    requires
        0 <= i < answers.len(),
        answers[i] is Err,
        forall|k: int| 0 <= k < i ==> (#[trigger] answers[k]) is Ok,
    ensures
        first_failure(answers) == Some(i),
{
    lemma_first_failure(answers);
    match first_failure(answers) {
        Some(j) => {
            if j < i {
                assert(answers[j] is Ok);
            }
            if i < j {
                assert(answers[i] is Ok);
            }
        },
        None => {
            assert(answers[i] is Ok);
        },
    }
}

/// Where no answer is a failure there is no first failure.
pub proof fn lemma_no_failure<T>(answers: Seq<Result<T, EmulatorError>>)
    requires
        forall|k: int| 0 <= k < answers.len() ==> (#[trigger] answers[k]) is Ok,
    ensures
        first_failure(answers) is None,
{
    lemma_first_failure(answers);
    match first_failure(answers) {
        Some(j) => {
            assert(answers[j] is Ok);
        },
        None => {},
    }
}

/// Threshold construction: where every child answers with a policy, the
/// federation's policy is the threshold over all of them, in the children's
/// order.
pub proof fn law_threshold_construction(threshold: u8, answers: Seq<Answer>)
    requires
        forall|k: int| 0 <= k < answers.len() ==> (#[trigger] answers[k]) is Ok,
    ensures
        federated(threshold, answers) == Ok::<Policy, EmulatorError>(
            Policy::Threshold(threshold as nat, answered_policies(answers)),
        ),
        answered_policies(answers).len() == answers.len(),
        forall|k: int|
            0 <= k < answers.len() ==> ((#[trigger] answers[k]) matches Ok(clause)
                && answered_policies(answers)[k] == clause@),
{
    lemma_no_failure(answers);
}

/// First failure wins: where the child at `i` is the first to fail, the
/// federation fails with that child's error, unchanged; a federation that
/// gathered these answers asked no child after `i`; and what later children
/// would have answered changes nothing.
pub proof fn law_first_failure_wins(threshold: u8, answers: Seq<Answer>, other: Seq<Answer>, i: int)
    requires
        0 <= i < answers.len(),
        answers[i] is Err,
        forall|k: int| 0 <= k < i ==> (#[trigger] answers[k]) is Ok,
        i < other.len(),
        forall|k: int| 0 <= k <= i ==> #[trigger] other[k] == answers[k],
    ensures
        federated(threshold, answers) == Err::<Policy, EmulatorError>(answers[i]->Err_0),
        forall|children: nat| #[trigger] gathered(answers, children) ==> answers.len() == i + 1,
        federated(threshold, other) == federated(threshold, answers),
{
    lemma_first_failure_at(answers, i);
    assert forall|k: int| 0 <= k < i implies (#[trigger] other[k]) is Ok by {
        assert(answers[k] is Ok);
    }
    lemma_first_failure_at(other, i);
}

/// First failure wins when signing too: where the child at `i` is the first
/// to fail, the call gives back what that child gave back, its error
/// unchanged, and a federation that saw these outcomes called no child
/// after `i`. Without children the call gives the transaction as it was
/// given.
pub proof fn law_signing_stops_at_first_failure(
    given: PartiallySignedTransaction,
    outcomes: Seq<Result<PartiallySignedTransaction, EmulatorError>>,
    i: int,
)
    requires
        0 <= i < outcomes.len(),
        outcomes[i] is Err,
        forall|k: int| 0 <= k < i ==> (#[trigger] outcomes[k]) is Ok,
    ensures
        threaded(given, outcomes) == Err::<PartiallySignedTransaction, EmulatorError>(
            outcomes[i]->Err_0,
        ),
        threaded(given, outcomes) == outcomes[i],
        forall|children: nat| #[trigger] gathered(outcomes, children) ==> outcomes.len() == i + 1,
        threaded(given, Seq::empty()) == Ok::<PartiallySignedTransaction, EmulatorError>(given),
{
    lemma_first_failure_at(outcomes, i);
}

/// A federation gives back what the last child it called gave back: where
/// the outcomes are those of a federation with at least one child, the
/// call's result is the last outcome, a success or a failure alike. So a
/// federation of one child signs as that child does.
pub proof fn law_signing_gives_last_outcome(
    given: PartiallySignedTransaction,
    outcomes: Seq<Result<PartiallySignedTransaction, EmulatorError>>,
    children: nat,
)
    requires
        children >= 1,
        gathered(outcomes, children),
    ensures
        outcomes.len() >= 1,
        threaded(given, outcomes) == outcomes.last(),
        children == 1 ==> threaded(given, outcomes) == outcomes[0],
{
    lemma_first_failure(outcomes);
}

/// The federation's policy is well formed exactly where the threshold is no
/// more than the number of children and every child's policy is well
/// formed.
pub proof fn law_federated_well_formed(threshold: u8, answers: Seq<Answer>)
    requires
        forall|k: int| 0 <= k < answers.len() ==> (#[trigger] answers[k]) is Ok,
    ensures
        federated(threshold, answers) matches Ok(policy) && (policy.well_formed() <==> threshold
            <= answers.len() && forall|k: int|
            0 <= k < answers.len() ==> (#[trigger] answered_policies(answers)[k]).well_formed()),
{
    lemma_no_failure(answers);
}

/// What a federation with this threshold makes of its children's answers.
pub fn federate(threshold: u8, answers: Vec<Answer>) -> (r: Result<Clause, EmulatorError>)
    ensures
        agrees(r, federated(threshold, answers@)),
{
    let ghost all = answers@;
    assert(all.len() <= usize::MAX) by {
        assert(answers.len() == all.len());
    }
    let mut clauses: Vec<Clause> = Vec::new();
    let mut i: usize = 0;
    for answer in it: answers
        invariant
            i == it.index(),
            it.seq() == all,
            all.len() <= usize::MAX,
            clauses@.len() == i,
            forall|k: int| 0 <= k < i ==> all[k] == Ok::<Clause, EmulatorError>(#[trigger] clauses@[k]),
    {
        match answer {
            Ok(clause) => {
                clauses.push(clause);
            },
            Err(e) => {
                proof {
                    assert forall|k: int| 0 <= k < i implies (#[trigger] all[k]) is Ok by {
                        assert(all[k] == Ok::<Clause, EmulatorError>(clauses@[k]));
                    }
                    lemma_first_failure_at(all, i as int);
                }
                return Err(e);
            },
        }
        i += 1;
    }
    proof {
        assert forall|k: int| 0 <= k < all.len() implies (#[trigger] all[k]) is Ok by {
            assert(all[k] == Ok::<Clause, EmulatorError>(clauses@[k]));
        }
        lemma_no_failure(all);
        assert(crate::clause::policies(clauses@) =~= answered_policies(all)) by {
            assert forall|k: int| 0 <= k < all.len() implies crate::clause::policies(clauses@)[k]
                == answered_policies(all)[k] by {
                assert(all[k] == Ok::<Clause, EmulatorError>(clauses@[k]));
            }
        }
    }
    Ok(Clause::Threshold(threshold as usize, clauses))
}

/// A signer made of several: an ordered list of children and a threshold.
/// It is itself a signer, so federations nest.
pub struct FederatedEmulatorConnection {
    emulators: Vec<Arc<dyn CTVEmulator>>,
    threshold: u8,
}

impl FederatedEmulatorConnection {
    /// The children, in order.
    pub closed spec fn emulators(&self) -> Seq<Arc<dyn CTVEmulator>> {
        self.emulators@
    }

    /// The number of children.
    pub open spec fn children(&self) -> nat {
        self.emulators().len()
    }

    /// The threshold that was given.
    pub closed spec fn threshold(&self) -> u8 {
        self.threshold
    }

    /// A federation of these children, in this order, with this threshold.
    /// The threshold is taken as it is, also where it is more than the
    /// number of children.
    pub fn new(emulators: Vec<Arc<dyn CTVEmulator>>, threshold: u8) -> (r: Self)
        ensures
            r.emulators() == emulators@,
            r.threshold() == threshold,
    {
        FederatedEmulatorConnection { emulators, threshold }
    }

    /// Asks the children in order for their policy and stops after the first
    /// failure. One answer comes back for each child that was asked: the
    /// answer at a position is that of the child at that position, asked
    /// for `h`.
    pub fn gather(&self, h: [u8; 32]) -> (answers: Vec<Answer>)
        ensures
            gathered(answers@, self.children()),
            answered_by(self.emulators(), h, answers@),
    {
        let mut answers: Vec<Answer> = Vec::new();
        let mut i: usize = 0;
        while i < self.emulators.len()
            invariant
                i <= self.emulators.len(),
                answers@.len() == i,
                forall|k: int| 0 <= k < i ==> (#[trigger] answers@[k]) is Ok,
                answered_by(self.emulators(), h, answers@),
            decreases self.emulators.len() - i,
        {
            let answer = self.emulators[i].get_signer_for(h);
            let failed = answer.is_err();
            answers.push(answer);
            if failed {
                proof {
                    lemma_first_failure_at(answers@, i as int);
                }
                return answers;
            }
            i += 1;
        }
        proof {
            lemma_no_failure(answers@);
        }
        answers
    }
}

impl CTVEmulator for FederatedEmulatorConnection {
    /// What the federation makes of answers that its children may give to
    /// `h`, each child asked in its turn and none after a failure.
    open spec fn may_answer(&self, h: [u8; 32], r: Result<Clause, EmulatorError>) -> bool {
        exists|answers: Seq<Answer>|
            gathered(answers, self.children()) && answered_by(self.emulators(), h, answers)
                && agrees(r, #[trigger] federated(self.threshold(), answers))
    }

    /// What the federation makes of what its children may give back, the
    /// first handed `b` and each other what the child before it gave back,
    /// and none after a failure.
    open spec fn may_sign(
        &self,
        b: PartiallySignedTransaction,
        r: Result<PartiallySignedTransaction, EmulatorError>,
    ) -> bool {
        exists|outcomes: Seq<Result<PartiallySignedTransaction, EmulatorError>>|
            gathered(outcomes, self.children()) && signed_by(self.emulators(), b, outcomes) && r
                == #[trigger] threaded(b, outcomes)
    }

    /// A threshold over the children's policies, in the children's order, or
    /// the error of the first child that fails, as it came. Each child is
    /// asked for `h`, and no child after one that failed is asked.
    fn get_signer_for(&self, h: [u8; 32]) -> (r: Result<Clause, EmulatorError>)
        ensures
            exists|answers: Seq<Answer>|
                gathered(answers, self.children()) && answered_by(self.emulators(), h, answers)
                    && agrees(r, #[trigger] federated(self.threshold(), answers)),
    {
        let answers = self.gather(h);
        let ghost gathered_answers = answers@;
        let r = federate(self.threshold, answers);
        assert(gathered(gathered_answers, self.children()) && answered_by(
            self.emulators(),
            h,
            gathered_answers,
        ) && agrees(r, federated(self.threshold(), gathered_answers)));
        r
    }

    /// Hands the transaction from child to child in order: the first child
    /// gets `b`, every other what the child before it gave back. The first
    /// failure ends the call with that child's error, as it came; what
    /// earlier children contributed is lost with it. No child after one
    /// that failed is called.
    fn sign(&self, b: PartiallySignedTransaction) -> (r: Result<
        PartiallySignedTransaction,
        EmulatorError,
    >)
        ensures
            exists|outcomes: Seq<Result<PartiallySignedTransaction, EmulatorError>>|
                gathered(outcomes, self.children()) && signed_by(self.emulators(), b, outcomes)
                    && r == #[trigger] threaded(b, outcomes),
    {
        let ghost mut outcomes: Seq<Result<PartiallySignedTransaction, EmulatorError>> = Seq::empty();
        let mut current = b;
        let mut i: usize = 0;
        while i < self.emulators.len()
            invariant
                i <= self.emulators.len(),
                outcomes.len() == i,
                forall|k: int| 0 <= k < i ==> (#[trigger] outcomes[k]) is Ok,
                current == handed(b, outcomes, i as int),
                signed_by(self.emulators(), b, outcomes),
            decreases self.emulators.len() - i,
        {
            let ghost before = outcomes;
            let outcome = self.emulators[i].sign(current);
            proof {
                outcomes = before.push(outcome);
                assert forall|k: int| 0 <= k < outcomes.len() implies self.emulators()[k].may_sign(
                    handed(b, outcomes, k),
                    #[trigger] outcomes[k],
                ) by {
                    if k < i {
                        assert(outcomes[k] == before[k]);
                        assert(handed(b, outcomes, k) == handed(b, before, k));
                    }
                }
            }
            match outcome {
                Ok(signed) => {
                    current = signed;
                },
                Err(e) => {
                    proof {
                        lemma_first_failure_at(outcomes, i as int);
                    }
                    assert(gathered(outcomes, self.children()) && signed_by(
                        self.emulators(),
                        b,
                        outcomes,
                    ) && Err::<PartiallySignedTransaction, EmulatorError>(e) == threaded(
                        b,
                        outcomes,
                    ));
                    return Err(e);
                },
            }
            i += 1;
        }
        proof {
            lemma_no_failure(outcomes);
        }
        assert(gathered(outcomes, self.children()) && signed_by(self.emulators(), b, outcomes)
            && Ok::<PartiallySignedTransaction, EmulatorError>(current) == threaded(b, outcomes));
        Ok(current)
    }
}

} // verus!
