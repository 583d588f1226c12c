//! The contract compiler.
//!
//! A contract declares finish policies, which spend directly, and
//! then-branches, which spend into a next layer of templates. Compiling
//! resolves the conditions of every branch, freezes what the included
//! branches build, and joins the finish policies. Any failure ends the
//! compilation of the whole contract.

use vstd::prelude::*;
use crate::clause::{policies, Clause, Policy};
use crate::commitment::total_value;
use crate::conditional::{
    any_fail, resolution, resolve, ConditionalCompileType, Resolution, ResolutionView,
};
use crate::template::output::payments_of;
use crate::template::{Builder, BuilderView, Template};

verus! {

/// Why a contract did not compile.
#[derive(Debug, PartialEq, Eq)]
pub enum CompilationError {
    /// No finish policy and no then-branch is left: nothing could ever spend.
    NoSpendPath,
    /// One condition of a branch requires it and another forbids it.
    ConditionalConflict,
    /// Conditions declared the contract invalid; every message is kept.
    UserFail(Vec<String>),
    /// A sum of amounts is more than can be represented.
    AmountOverflow,
    /// A sequence index that no input has.
    IndexError,
}

/// A compiled contract: the address that holds its funds, the policy that
/// spends them directly, and the templates that spend them onwards.
#[derive(Debug, PartialEq, Eq)]
pub struct Compiled {
    /// The address, as the script that pays to it.
    pub address: Vec<u8>,
    /// The finish policies, joined.
    pub policy: Clause,
    /// The templates of the then-branches, each commitment hash once.
    pub templates: Vec<Template>,
}

/// Whether no two templates have the same commitment hash.
pub open spec fn distinct_hashes(templates: Seq<Template>) -> bool {
    forall|i: int, j: int|
        0 <= i < j < templates.len() ==> (#[trigger] templates[i]).ctv@ != (
        #[trigger] templates[j]).ctv@
}

impl Compiled {
    /// Whether no two templates have the same commitment hash.
    pub open spec fn distinct_hashes(self) -> bool {
        distinct_hashes(self.templates@)
    }

    /// A contract that is only known by its address: no policy is joined
    /// and no template is known.
    pub fn from_address(address: Vec<u8>) -> (c: Compiled)
        ensures
            c.address == address,
            c.policy@ == Policy::Or(Seq::empty()),
            c.templates@ == Seq::<Template>::empty(),
            c.distinct_hashes(),
    {
        let policy = Clause::Or(Vec::new());
        assert(policies(Seq::<Clause>::empty()) =~= Seq::<Policy>::empty());
        Compiled { address, policy, templates: Vec::new() }
    }
}

/// A then-branch as the compiler meets it: the verdicts of its conditions,
/// in the order of the conditions, and the builders that its continuation
/// gave, in order.
pub struct ThenBranch {
    pub conditions: Vec<ConditionalCompileType>,
    pub templates: Vec<Builder>,
}

impl ThenBranch {
    /// What the conditions come to for this branch.
    pub open spec fn resolution(self) -> ResolutionView {
        resolution(self.conditions@, self.templates@.len())
    }
}

/// A contract as declared.
pub struct Contract {
    /// The policies that spend directly.
    pub finish: Vec<Clause>,
    /// The branches that spend into a next layer, in order.
    pub then_branches: Vec<ThenBranch>,
    /// Whether the contract may be amended later. The compiler does not
    /// read it.
    pub updatable: bool,
}

/// What compiling gives before an address is known: the joined finish
/// policies and the templates, each commitment hash once.
#[derive(Debug, PartialEq, Eq)]
pub struct Compilation {
    pub policy: Clause,
    pub templates: Vec<Template>,
}

/// The messages of one branch: those of its failing conditions, else none.
pub open spec fn branch_messages(branch: ThenBranch) -> Seq<String> {
    match branch.resolution() {
        ResolutionView::Fail(messages) => messages,
        _ => Seq::empty(),
    }
}

/// The builders that one branch contributes: its own if it is included,
/// else none.
pub open spec fn branch_builders(branch: ThenBranch) -> Seq<Builder> {
    if branch.resolution() is Include {
        branch.templates@
    } else {
        Seq::empty()
    }
}

/// Some branch fails.
pub open spec fn any_branch_fails(branches: Seq<ThenBranch>) -> bool {
    exists|i: int| 0 <= i < branches.len() && (#[trigger] branches[i]).resolution() is Fail
}

/// Some branch is in conflict.
pub open spec fn any_branch_conflicts(branches: Seq<ThenBranch>) -> bool {
    exists|i: int| 0 <= i < branches.len() && (#[trigger] branches[i]).resolution() is Conflict
}

/// Some branch is included.
pub open spec fn any_branch_included(branches: Seq<ThenBranch>) -> bool {
    exists|i: int| 0 <= i < branches.len() && (#[trigger] branches[i]).resolution() is Include
}

/// Every branch is left out as one that may be empty.
pub open spec fn all_branches_nullable(branches: Seq<ThenBranch>) -> bool {
    forall|i: int| 0 <= i < branches.len() ==> (#[trigger] branches[i]).resolution() is Nullable
}

/// The messages of all failing branches, in the order of the branches.
pub open spec fn all_fail_messages(branches: Seq<ThenBranch>) -> Seq<String>
    decreases branches.len(),
{
    if branches.len() == 0 {
        Seq::empty()
    } else {
        all_fail_messages(branches.drop_last()) + branch_messages(branches.last())
    }
}

/// The builders of all included branches, in the order of the branches.
pub open spec fn included_builders(branches: Seq<ThenBranch>) -> Seq<Builder>
    decreases branches.len(),
{
    if branches.len() == 0 {
        Seq::empty()
    } else {
        included_builders(branches.drop_last()) + branch_builders(branches.last())
    }
}

/// The outputs of this builder sum to more than can be represented.
pub open spec fn overflows(b: BuilderView) -> bool {
    total_value(payments_of(b.outputs)) > u64::MAX
}

/// Some builder overflows.
pub open spec fn any_overflow(builders: Seq<Builder>) -> bool {
    exists|k: int| 0 <= k < builders.len() && overflows((#[trigger] builders[k])@)
}

/// Each template is what freezing the builder at its position gives.
pub open spec fn frozen_each(templates: Seq<Template>, builders: Seq<Builder>) -> bool {
    &&& templates.len() == builders.len()
    &&& forall|k: int|
        0 <= k < templates.len() ==> (#[trigger] templates[k]).frozen_from(builders[k]@)
}

/// Some template has this commitment hash.
pub open spec fn has_hash(templates: Seq<Template>, hash: Seq<u8>) -> bool {
    exists|j: int| 0 <= j < templates.len() && (#[trigger] templates[j]).ctv@ == hash
}

/// The templates without those whose commitment hash an earlier one has.
pub open spec fn first_occurrences(templates: Seq<Template>) -> Seq<Template>
    decreases templates.len(),
{
    if templates.len() == 0 {
        Seq::empty()
    } else {
        let before = first_occurrences(templates.drop_last());
        if has_hash(before, templates.last().ctv@) {
            before
        } else {
            before.push(templates.last())
        }
    }
}

/// How the compilation of a contract ends.
pub enum Plan {
    /// Conditions declared the contract invalid, with these messages.
    Fail(Seq<String>),
    /// A branch is both required and forbidden.
    Conflict,
    /// An included branch pays out more than can be represented.
    Overflow,
    /// Nothing could spend.
    Dead,
    /// Nothing is compiled, and that is no error.
    Empty,
    /// The contract compiles.
    Build,
}

/// How the compilation ends, in this order: a failing condition anywhere
/// fails with every message; a conflict on any branch is a conflict; an
/// included builder that overflows is an overflow; with a finish policy or
/// an included branch the contract compiles; with branches that are all
/// left out as possibly empty, where an empty result is allowed, nothing is
/// compiled; else the contract is dead.
pub open spec fn plan(contract: Contract, allow_empty: bool) -> Plan {
    let branches = contract.then_branches@;
    if any_branch_fails(branches) {
        Plan::Fail(all_fail_messages(branches))
    } else if any_branch_conflicts(branches) {
        Plan::Conflict
    } else if any_overflow(included_builders(branches)) {
        Plan::Overflow
    } else if contract.finish@.len() > 0 || any_branch_included(branches) {
        Plan::Build
    } else if allow_empty && branches.len() > 0 && all_branches_nullable(branches) {
        Plan::Empty
    } else {
        Plan::Dead
    }
}

/// One more branch at the end: what holds of the branches then.
pub proof fn lemma_one_more_branch(branches: Seq<ThenBranch>, n: int)
    requires
        0 <= n < branches.len(),
    ensures
        any_branch_fails(branches.subrange(0, n + 1)) == (any_branch_fails(
            branches.subrange(0, n),
        ) || branches[n].resolution() is Fail),
        any_branch_conflicts(branches.subrange(0, n + 1)) == (any_branch_conflicts(
            branches.subrange(0, n),
        ) || branches[n].resolution() is Conflict),
        any_branch_included(branches.subrange(0, n + 1)) == (any_branch_included(
            branches.subrange(0, n),
        ) || branches[n].resolution() is Include),
        all_branches_nullable(branches.subrange(0, n + 1)) == (all_branches_nullable(
            branches.subrange(0, n),
        ) && branches[n].resolution() is Nullable),
        all_fail_messages(branches.subrange(0, n + 1)) == all_fail_messages(
            branches.subrange(0, n),
        ) + branch_messages(branches[n]),
        included_builders(branches.subrange(0, n + 1)) == included_builders(
            branches.subrange(0, n),
        ) + branch_builders(branches[n]),
{
    let short = branches.subrange(0, n);
    let long = branches.subrange(0, n + 1);
    assert(long.drop_last() =~= short);
    assert(long.last() == branches[n]);
    assert(long[n] == branches[n]);
    assert forall|i: int| 0 <= i < n implies short[i] == long[i] by {}
    if any_branch_fails(short) {
        let i = choose|i: int| 0 <= i < short.len() && (#[trigger] short[i]).resolution() is Fail;
        assert(long[i].resolution() is Fail);
    }
    if any_branch_fails(long) {
        let i = choose|i: int| 0 <= i < long.len() && (#[trigger] long[i]).resolution() is Fail;
        if i < n {
            assert(short[i].resolution() is Fail);
        }
    }
    if any_branch_conflicts(short) {
        let i = choose|i: int|
            0 <= i < short.len() && (#[trigger] short[i]).resolution() is Conflict;
        assert(long[i].resolution() is Conflict);
    }
    if any_branch_conflicts(long) {
        let i = choose|i: int| 0 <= i < long.len() && (#[trigger] long[i]).resolution() is Conflict;
        if i < n {
            assert(short[i].resolution() is Conflict);
        }
    }
    if any_branch_included(short) {
        let i = choose|i: int| 0 <= i < short.len() && (#[trigger] short[i]).resolution() is Include;
        assert(long[i].resolution() is Include);
    }
    if any_branch_included(long) {
        let i = choose|i: int| 0 <= i < long.len() && (#[trigger] long[i]).resolution() is Include;
        if i < n {
            assert(short[i].resolution() is Include);
        }
    }
    if all_branches_nullable(long) {
        assert(long[n].resolution() is Nullable);
        assert forall|i: int| 0 <= i < short.len() implies (#[trigger] short[i]).resolution() is Nullable by {
            assert(long[i].resolution() is Nullable);
        }
    }
    if all_branches_nullable(short) && branches[n].resolution() is Nullable {
        assert forall|i: int| 0 <= i < long.len() implies (#[trigger] long[i]).resolution() is Nullable by {
            if i < n {
                assert(short[i].resolution() is Nullable);
            }
        }
    }
}

/// Conflict detection: a contract with a branch that one condition requires
/// and another forbids does not compile, and the error is the conflict,
/// unless a condition of some branch fails.
pub proof fn law_conflict_fails_compilation(
    contract: Contract,
    allow_empty: bool,
    branch: int,
    i: int,
    j: int,
)
    requires
        0 <= branch < contract.then_branches@.len(),
        0 <= i < contract.then_branches@[branch].conditions@.len(),
        0 <= j < contract.then_branches@[branch].conditions@.len(),
        contract.then_branches@[branch].conditions@[i] is Required,
        contract.then_branches@[branch].conditions@[j] is Never,
        forall|b: int|
            0 <= b < contract.then_branches@.len() ==> !any_fail(
                (#[trigger] contract.then_branches@[b]).conditions@,
            ),
    ensures
        plan(contract, allow_empty) == Plan::Conflict,
{
    let branches = contract.then_branches@;
    assert(!any_fail(branches[branch].conditions@));
    assert(branches[branch].resolution() is Conflict);
    if any_branch_fails(branches) {
        let b = choose|b: int| 0 <= b < branches.len() && (#[trigger] branches[b]).resolution() is Fail;
        assert(!any_fail(branches[b].conditions@));
    }
}

/// Dead-contract detection: a contract without a finish policy whose
/// then-branches are all excluded has no spend path.
pub proof fn law_dead_contract(contract: Contract, allow_empty: bool)
    requires
        contract.finish@.len() == 0,
        forall|b: int|
            0 <= b < contract.then_branches@.len() ==> (
            #[trigger] contract.then_branches@[b]).resolution() is Exclude,
    ensures
        plan(contract, allow_empty) == Plan::Dead,
{
    let branches = contract.then_branches@;
    lemma_nothing_included(branches);
    assert(included_builders(branches) =~= Seq::<Builder>::empty());
    if branches.len() > 0 {
        assert(branches[0].resolution() is Exclude);
    }
}

/// Where no branch is included, no builder is.
pub proof fn lemma_nothing_included(branches: Seq<ThenBranch>)
    requires
        forall|b: int| 0 <= b < branches.len() ==> !((#[trigger] branches[b]).resolution() is Include),
    ensures
        included_builders(branches).len() == 0,
    decreases branches.len(),
{
    if branches.len() > 0 {
        let init = branches.drop_last();
        assert forall|b: int| 0 <= b < init.len() implies !((#[trigger] init[b]).resolution() is Include) by {
            assert(init[b] == branches[b]);
        }
        lemma_nothing_included(init);
        assert(!(branches[branches.len() - 1].resolution() is Include));
    }
}

/// What is kept holds no commitment hash twice.
pub proof fn lemma_first_occurrences_distinct(templates: Seq<Template>)
    ensures
        distinct_hashes(first_occurrences(templates)),
    decreases templates.len(),
{
    if templates.len() > 0 {
        lemma_first_occurrences_distinct(templates.drop_last());
        let before = first_occurrences(templates.drop_last());
        let kept = first_occurrences(templates);
        if !has_hash(before, templates.last().ctv@) {
            assert forall|i: int, j: int| 0 <= i < j < kept.len() implies (#[trigger] kept[i]).ctv@
                != (#[trigger] kept[j]).ctv@ by {
                if j == before.len() {
                    assert(before[i].ctv@ != templates.last().ctv@);
                } else {
                    assert(before[i].ctv@ != before[j].ctv@);
                }
            }
        }
    }
}

/// Whether two digests are the same.
pub fn same_digest(a: &[u8; 32], b: &[u8; 32]) -> (same: bool)
    ensures
        same == (a@ == b@),
{
    let mut i: usize = 0;
    while i < 32
        invariant
            i <= 32,
            forall|k: int| 0 <= k < i ==> a@[k] == b@[k],
        decreases 32 - i,
    {
        if a[i] != b[i] {
            return false;
        }
        i += 1;
    }
    assert(a@ =~= b@);
    true
}

/// Whether some template has this commitment hash.
pub fn contains_hash(templates: &Vec<Template>, hash: &[u8; 32]) -> (found: bool)
    ensures
        found == has_hash(templates@, hash@),
{
    let mut i: usize = 0;
    while i < templates.len()
        invariant
            i <= templates.len(),
            forall|k: int| 0 <= k < i ==> (#[trigger] templates@[k]).ctv@ != hash@,
        decreases templates.len() - i,
    {
        if same_digest(&templates[i].ctv, hash) {
            return true;
        }
        i += 1;
    }
    false
}

/// Drops every template whose commitment hash an earlier one has.
pub fn distinct(templates: Vec<Template>) -> (kept: Vec<Template>)
    ensures
        kept@ == first_occurrences(templates@),
{
    let ghost all = templates@;
    assert(all.len() <= usize::MAX) by {
        assert(templates.len() == all.len());
    }
    let mut kept: Vec<Template> = Vec::new();
    let mut i: usize = 0;
    assert(all.subrange(0, 0) =~= Seq::<Template>::empty());
    for template in it: templates
        invariant
            i == it.index(),
            it.seq() == all,
            all.len() <= usize::MAX,
            kept@ == first_occurrences(all.subrange(0, i as int)),
    {
        proof {
            assert(all.subrange(0, i + 1).drop_last() =~= all.subrange(0, i as int));
            assert(all.subrange(0, i + 1).last() == all[i as int]);
        }
        if !contains_hash(&kept, &template.ctv) {
            kept.push(template);
        }
        i += 1;
    }
    assert(all.subrange(0, i as int) =~= all);
    kept
}

/// Freezes every builder, in order. The first that overflows ends it.
pub fn freeze_all(builders: Vec<Builder>) -> (r: Result<Vec<Template>, CompilationError>)
    ensures
        any_overflow(builders@) ==> r == Err::<Vec<Template>, CompilationError>(
            CompilationError::AmountOverflow,
        ),
        !any_overflow(builders@) ==> (r matches Ok(templates) && frozen_each(
            templates@,
            builders@,
        )),
{
    let ghost all = builders@;
    assert(all.len() <= usize::MAX) by {
        assert(builders.len() == all.len());
    }
    let mut templates: Vec<Template> = Vec::new();
    let mut i: usize = 0;
    for builder in it: builders
        invariant
            i == it.index(),
            it.seq() == all,
            all.len() <= usize::MAX,
            templates@.len() == i,
            forall|k: int| 0 <= k < i ==> !overflows((#[trigger] all[k])@),
            forall|k: int| 0 <= k < i ==> (#[trigger] templates@[k]).frozen_from(all[k]@),
    {
        match builder.freeze() {
            Ok(template) => {
                templates.push(template);
            },
            Err(e) => {
                assert(overflows(all[i as int]@));
                return Err(e);
            },
        }
        i += 1;
    }
    Ok(templates)
}

impl Compilation {
    /// The commitment hashes of the templates, in order: what, with the
    /// policy, an address is derived from.
    pub fn hashes(&self) -> (hashes: Vec<[u8; 32]>)
        ensures
            hashes@.len() == self.templates@.len(),
            forall|i: int| 0 <= i < hashes@.len() ==> hashes@[i] == self.templates@[i].ctv,
    {
        let mut hashes: Vec<[u8; 32]> = Vec::new();
        let mut i: usize = 0;
        while i < self.templates.len()
            invariant
                i <= self.templates.len(),
                hashes@.len() == i,
                forall|k: int| 0 <= k < i ==> hashes@[k] == self.templates@[k].ctv,
            decreases self.templates.len() - i,
        {
            hashes.push(self.templates[i].ctv);
            i += 1;
        }
        hashes
    }

    /// The compiled contract at this address.
    pub fn at_address(self, address: Vec<u8>) -> (c: Compiled)
        ensures
            c.address == address,
            c.policy == self.policy,
            c.templates == self.templates,
            c.distinct_hashes() == distinct_hashes(self.templates@),
    {
        Compiled { address, policy: self.policy, templates: self.templates }
    }
}

/// Compiles a contract. `allow_empty` says whether the caller accepts that
/// nothing is compiled where every branch may be empty.
pub fn compile(contract: Contract, allow_empty: bool) -> (r: Result<
    Option<Compilation>,
    CompilationError,
>)
    ensures
        match plan(contract, allow_empty) {
            Plan::Fail(messages) => r matches Err(CompilationError::UserFail(got)) && got@
                == messages,
            Plan::Conflict => r == Err::<Option<Compilation>, CompilationError>(
                CompilationError::ConditionalConflict,
            ),
            Plan::Overflow => r == Err::<Option<Compilation>, CompilationError>(
                CompilationError::AmountOverflow,
            ),
            Plan::Dead => r == Err::<Option<Compilation>, CompilationError>(
                CompilationError::NoSpendPath,
            ),
            Plan::Empty => r == Ok::<Option<Compilation>, CompilationError>(None),
            Plan::Build => r matches Ok(Some(c)) && c.policy@ == Policy::Or(
                policies(contract.finish@),
            ) && distinct_hashes(c.templates@) && exists|frozen: Seq<Template>|
                frozen_each(frozen, included_builders(contract.then_branches@)) && c.templates@
                    == #[trigger] first_occurrences(frozen),
        },
{
    let Contract { finish, then_branches, updatable: _ } = contract;
    let ghost all = then_branches@;
    assert(all.len() <= usize::MAX) by {
        assert(then_branches.len() == all.len());
    }
    let branch_count = then_branches.len();
    let mut failed = false;
    let mut conflict = false;
    let mut included = false;
    let mut nullable = true;
    let mut messages: Vec<String> = Vec::new();
    let mut builders: Vec<Builder> = Vec::new();
    let mut i: usize = 0;
    assert(all.subrange(0, 0) =~= Seq::<ThenBranch>::empty());
    for branch in it: then_branches
        invariant
            i == it.index(),
            it.seq() == all,
            all.len() <= usize::MAX,
            failed == any_branch_fails(all.subrange(0, i as int)),
            conflict == any_branch_conflicts(all.subrange(0, i as int)),
            included == any_branch_included(all.subrange(0, i as int)),
            nullable == all_branches_nullable(all.subrange(0, i as int)),
            messages@ == all_fail_messages(all.subrange(0, i as int)),
            builders@ == included_builders(all.subrange(0, i as int)),
    {
        proof {
            lemma_one_more_branch(all, i as int);
        }
        let ThenBranch { conditions, mut templates } = branch;
        match resolve(conditions, templates.len()) {
            Resolution::Include => {
                included = true;
                nullable = false;
                builders.append(&mut templates);
            },
            Resolution::Exclude => {
                nullable = false;
            },
            Resolution::Nullable => {},
            Resolution::Conflict => {
                conflict = true;
                nullable = false;
            },
            Resolution::Fail(mut reasons) => {
                failed = true;
                nullable = false;
                messages.append(&mut reasons);
            },
        }
        i += 1;
    }
    assert(all.subrange(0, i as int) =~= all);
    if failed {
        return Err(CompilationError::UserFail(messages));
    }
    if conflict {
        return Err(CompilationError::ConditionalConflict);
    }
    let ghost gathered = builders@;
    let frozen = match freeze_all(builders) {
        Ok(frozen) => frozen,
        Err(e) => {
            return Err(e);
        },
    };
    if finish.len() == 0 && !included {
        if allow_empty && branch_count > 0 && nullable {
            return Ok(None);
        }
        return Err(CompilationError::NoSpendPath);
    }
    let ghost frozen_templates = frozen@;
    let templates = distinct(frozen);
    proof {
        lemma_first_occurrences_distinct(frozen_templates);
    }
    let compilation = Compilation { policy: Clause::Or(finish), templates };
    assert(frozen_each(frozen_templates, included_builders(all)) && compilation.templates@
        == first_occurrences(frozen_templates));
    Ok(Some(compilation))
}

} // verus!
