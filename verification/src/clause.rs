//! The policy algebra: a tree of spending conditions.
//!
//! A [`Clause`] is only a structure. Nothing here evaluates a policy against
//! signatures, and nothing simplifies one: `Threshold(1, [x])` stays what it
//! is.

use vstd::prelude::*;

verus! {

/// The mathematical tree that a [`Clause`] stands for.
pub enum Policy {
    Key(Seq<u8>),
    Threshold(nat, Seq<Policy>),
    And(Seq<Policy>),
    Or(Seq<Policy>),
    RelativeTimelock(u32),
    AbsoluteTimelock(u32),
    HashPreimage(Seq<u8>),
}

impl Policy {
    /// Every threshold in the tree asks for no more children than it has.
    pub open spec fn well_formed(self) -> bool
        decreases self,
    {
        match self {
            Policy::Threshold(k, children) => k <= children.len() && well_formed_from(children, 0),
            Policy::And(children) => well_formed_from(children, 0),
            Policy::Or(children) => well_formed_from(children, 0),
            _ => true,
        }
    }
}

/// Whether the policies from index `from` on are all well formed.
pub open spec fn well_formed_from(ps: Seq<Policy>, from: int) -> bool
    decreases ps,
{
    forall|i: int| 0 <= from <= i < ps.len() ==> (#[trigger] ps[i]).well_formed()
}

/// A node of a spending policy.
#[derive(Debug, PartialEq, Eq)]
pub enum Clause {
    /// The holder of this key signs.
    Key(Vec<u8>),
    /// At least `k` of the children hold.
    Threshold(usize, Vec<Clause>),
    /// All children hold.
    And(Vec<Clause>),
    /// Some child holds.
    Or(Vec<Clause>),
    /// The output being spent is at least this old.
    RelativeTimelock(u32),
    /// The chain has reached this height or time.
    AbsoluteTimelock(u32),
    /// The preimage of this digest is shown.
    HashPreimage([u8; 32]),
}

/// The policies that a sequence of clauses stands for, in the same order.
pub open spec fn policies(clauses: Seq<Clause>) -> Seq<Policy>
    decreases clauses,
{
    Seq::new(
        clauses.len(),
        |i: int|
            if 0 <= i < clauses.len() {
                clauses[i].view()
            } else {
                Policy::Or(Seq::empty())
            },
    )
}

impl View for Clause {
    type V = Policy;

    open spec fn view(&self) -> Policy
        decreases self,
    {
        match self {
            Clause::Key(key) => Policy::Key(key@),
            Clause::Threshold(k, children) => Policy::Threshold(*k as nat, policies(children@)),
            Clause::And(children) => Policy::And(policies(children@)),
            Clause::Or(children) => Policy::Or(policies(children@)),
            Clause::RelativeTimelock(n) => Policy::RelativeTimelock(*n),
            Clause::AbsoluteTimelock(n) => Policy::AbsoluteTimelock(*n),
            Clause::HashPreimage(digest) => Policy::HashPreimage(digest@),
        }
    }
}

impl Clause {
    /// A threshold over `children`, if `k` asks for no more of them than
    /// there are.
    pub fn threshold(k: usize, children: Vec<Clause>) -> (r: Option<Clause>)
        ensures
            k <= children.len() ==> (r matches Some(c) && c@ == Policy::Threshold(
                k as nat,
                policies(children@),
            )),
            k > children.len() ==> r is None,
    {
        if k <= children.len() {
            Some(Clause::Threshold(k, children))
        } else {
            None
        }
    }

    /// Whether every threshold in the tree asks for no more children than it
    /// has.
    pub fn is_well_formed(&self) -> (r: bool)
        ensures
            r == self@.well_formed(),
        decreases self, 1nat,
    {
        match self {
            Clause::Threshold(k, children) => {
                let fits = *k <= children.len();
                let below = all_well_formed(children, 0);
                fits && below
            },
            Clause::And(children) => {
                all_well_formed(children, 0)
            },
            Clause::Or(children) => {
                all_well_formed(children, 0)
            },
            _ => true,
        }
    }
}

fn all_well_formed(clauses: &Vec<Clause>, from: usize) -> (r: bool)
    requires
        from <= clauses.len(),
    ensures
        r == well_formed_from(policies(clauses@), from as int),
    decreases clauses, 0nat, clauses.len() - from,
{
    if from == clauses.len() {
        true
    } else {
        let head = clauses[from].is_well_formed();
        let tail = all_well_formed(clauses, from + 1);
        proof {
            let ps = policies(clauses@);
            assert(ps[from as int] == clauses[from as int]@);
            if head && tail {
                assert forall|i: int| from <= i < ps.len() implies (#[trigger] ps[i]).well_formed() by {
                    if i > from {
                        assert(from + 1 <= i);
                    }
                }
            }
            if !head {
                assert(!ps[from as int].well_formed());
            }
            if !tail {
                let i = choose|i: int| from + 1 <= i < ps.len() && !(#[trigger] ps[i]).well_formed();
                assert(!ps[i].well_formed());
            }
        }
        head && tail
    }
}

} // verus!
