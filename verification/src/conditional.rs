//! Conditional compilation: the conditions of a branch each give a verdict,
//! and the verdicts together decide whether the branch is compiled.

use vstd::prelude::*;

verus! {

/// The verdict of one condition on a branch.
#[derive(Debug, PartialEq, Eq)]
pub enum ConditionalCompileType {
    /// The branch must be compiled.
    Required,
    /// The branch may be left out if it produces no template.
    Skippable,
    /// The branch must not be compiled.
    Never,
    /// It is no error if the branch produces no template.
    Nullable,
    /// The condition says nothing.
    NoConstraint,
    /// The contract is invalid, for these reasons.
    Fail(Vec<String>),
}

/// What the verdicts on a branch come to.
#[derive(Debug, PartialEq, Eq)]
pub enum Resolution {
    /// The branch is compiled.
    Include,
    /// The branch is left out: a condition forbids it, or it may be skipped
    /// and produces no template.
    Exclude,
    /// The branch is left out: it produces no template, and a condition says
    /// that this is no error.
    Nullable,
    /// One condition requires the branch and another forbids it.
    Conflict,
    /// Conditions declared the contract invalid. The messages of all of them
    /// are here, in the order of the conditions.
    Fail(Vec<String>),
}

/// What a [`Resolution`] stands for.
pub enum ResolutionView {
    Include,
    Exclude,
    Nullable,
    Conflict,
    Fail(Seq<String>),
}

impl View for Resolution {
    type V = ResolutionView;

    open spec fn view(&self) -> ResolutionView {
        match self {
            Resolution::Include => ResolutionView::Include,
            Resolution::Exclude => ResolutionView::Exclude,
            Resolution::Nullable => ResolutionView::Nullable,
            Resolution::Conflict => ResolutionView::Conflict,
            Resolution::Fail(messages) => ResolutionView::Fail(messages@),
        }
    }
}

/// Some condition fails.
pub open spec fn any_fail(verdicts: Seq<ConditionalCompileType>) -> bool {
    exists|i: int| 0 <= i < verdicts.len() && (#[trigger] verdicts[i]) is Fail
}

/// Some condition requires the branch.
pub open spec fn any_required(verdicts: Seq<ConditionalCompileType>) -> bool {
    exists|i: int| 0 <= i < verdicts.len() && (#[trigger] verdicts[i]) is Required
}

/// Some condition forbids the branch.
pub open spec fn any_never(verdicts: Seq<ConditionalCompileType>) -> bool {
    exists|i: int| 0 <= i < verdicts.len() && (#[trigger] verdicts[i]) is Never
}

/// Some condition lets the branch be skipped.
pub open spec fn any_skippable(verdicts: Seq<ConditionalCompileType>) -> bool {
    exists|i: int| 0 <= i < verdicts.len() && (#[trigger] verdicts[i]) is Skippable
}

/// Some condition lets the branch be empty.
pub open spec fn any_nullable(verdicts: Seq<ConditionalCompileType>) -> bool {
    exists|i: int| 0 <= i < verdicts.len() && (#[trigger] verdicts[i]) is Nullable
}

/// What one condition reports: the messages of a failure, else nothing.
pub open spec fn messages_of(condition: ConditionalCompileType) -> Seq<String> {
    match condition {
        ConditionalCompileType::Fail(messages) => messages@,
        _ => Seq::empty(),
    }
}

/// The messages of every failing condition, in the order of the conditions.
pub open spec fn fail_messages(verdicts: Seq<ConditionalCompileType>) -> Seq<String>
    decreases verdicts.len(),
{
    if verdicts.len() == 0 {
        Seq::empty()
    } else {
        fail_messages(verdicts.drop_last()) + messages_of(verdicts.last())
    }
}

/// What the verdicts come to for a branch that would produce `templates`
/// templates. In this order: a failure fails; a requirement against a
/// prohibition is a conflict; a prohibition excludes; a requirement
/// includes; a branch that produces a template is included; an empty branch
/// that may be skipped is excluded; an empty branch that may be empty is
/// left out as such; any other branch is included.
pub open spec fn resolution(verdicts: Seq<ConditionalCompileType>, templates: nat) -> ResolutionView {
    if any_fail(verdicts) {
        ResolutionView::Fail(fail_messages(verdicts))
    } else if any_required(verdicts) && any_never(verdicts) {
        ResolutionView::Conflict
    } else if any_never(verdicts) {
        ResolutionView::Exclude
    } else if any_required(verdicts) {
        ResolutionView::Include
    } else if templates > 0 {
        ResolutionView::Include
    } else if any_skippable(verdicts) {
        ResolutionView::Exclude
    } else if any_nullable(verdicts) {
        ResolutionView::Nullable
    } else {
        ResolutionView::Include
    }
}

/// One more verdict at the end: what holds of some verdict then.
pub proof fn lemma_one_more(verdicts: Seq<ConditionalCompileType>, n: int)
    requires
        0 <= n < verdicts.len(),
    ensures
        any_fail(verdicts.subrange(0, n + 1)) == (any_fail(verdicts.subrange(0, n))
            || verdicts[n] is Fail),
        any_required(verdicts.subrange(0, n + 1)) == (any_required(verdicts.subrange(0, n))
            || verdicts[n] is Required),
        any_never(verdicts.subrange(0, n + 1)) == (any_never(verdicts.subrange(0, n))
            || verdicts[n] is Never),
        any_skippable(verdicts.subrange(0, n + 1)) == (any_skippable(verdicts.subrange(0, n))
            || verdicts[n] is Skippable),
        any_nullable(verdicts.subrange(0, n + 1)) == (any_nullable(verdicts.subrange(0, n))
            || verdicts[n] is Nullable),
        fail_messages(verdicts.subrange(0, n + 1)) == fail_messages(verdicts.subrange(0, n))
            + messages_of(verdicts[n]),
{
    let short = verdicts.subrange(0, n);
    let long = verdicts.subrange(0, n + 1);
    assert(long.drop_last() =~= short);
    assert(long.last() == verdicts[n]);
    assert(long[n] == verdicts[n]);
    assert forall|i: int| 0 <= i < n implies short[i] == long[i] by {}
    if any_fail(short) {
        let i = choose|i: int| 0 <= i < short.len() && (#[trigger] short[i]) is Fail;
        assert(long[i] is Fail);
    }
    if any_fail(long) {
        let i = choose|i: int| 0 <= i < long.len() && (#[trigger] long[i]) is Fail;
        if i < n {
            assert(short[i] is Fail);
        }
    }
    if any_required(short) {
        let i = choose|i: int| 0 <= i < short.len() && (#[trigger] short[i]) is Required;
        assert(long[i] is Required);
    }
    if any_required(long) {
        let i = choose|i: int| 0 <= i < long.len() && (#[trigger] long[i]) is Required;
        if i < n {
            assert(short[i] is Required);
        }
    }
    if any_never(short) {
        let i = choose|i: int| 0 <= i < short.len() && (#[trigger] short[i]) is Never;
        assert(long[i] is Never);
    }
    if any_never(long) {
        let i = choose|i: int| 0 <= i < long.len() && (#[trigger] long[i]) is Never;
        if i < n {
            assert(short[i] is Never);
        }
    }
    if any_skippable(short) {
        let i = choose|i: int| 0 <= i < short.len() && (#[trigger] short[i]) is Skippable;
        assert(long[i] is Skippable);
    }
    if any_skippable(long) {
        let i = choose|i: int| 0 <= i < long.len() && (#[trigger] long[i]) is Skippable;
        if i < n {
            assert(short[i] is Skippable);
        }
    }
    if any_nullable(short) {
        let i = choose|i: int| 0 <= i < short.len() && (#[trigger] short[i]) is Nullable;
        assert(long[i] is Nullable);
    }
    if any_nullable(long) {
        let i = choose|i: int| 0 <= i < long.len() && (#[trigger] long[i]) is Nullable;
        if i < n {
            assert(short[i] is Nullable);
        }
    }
}

/// Conflict detection: a branch that one condition requires and another
/// forbids is a conflict, whatever it would produce, unless a condition
/// fails.
pub proof fn law_conflict(verdicts: Seq<ConditionalCompileType>, templates: nat, i: int, j: int)
    requires
        0 <= i < verdicts.len(),
        0 <= j < verdicts.len(),
        verdicts[i] is Required,
        verdicts[j] is Never,
        !any_fail(verdicts),
    ensures
        resolution(verdicts, templates) == ResolutionView::Conflict,
{
}

/// Every failing condition is reported: a branch with a failing condition
/// fails, whatever the other conditions say, with the messages of all
/// failing conditions.
pub proof fn law_failure_first(verdicts: Seq<ConditionalCompileType>, templates: nat, i: int)
    requires
        0 <= i < verdicts.len(),
        verdicts[i] is Fail,
    ensures
        resolution(verdicts, templates) == ResolutionView::Fail(fail_messages(verdicts)),
{
}

/// Resolves the verdicts on a branch that would produce `templates`
/// templates.
pub fn resolve(verdicts: Vec<ConditionalCompileType>, templates: usize) -> (r: Resolution)
    ensures
        r@ == resolution(verdicts@, templates as nat),
{
    let ghost all = verdicts@;
    assert(all.len() <= usize::MAX) by {
        assert(verdicts.len() == all.len());
    }
    let mut failed = false;
    let mut required = false;
    let mut never = false;
    let mut skippable = false;
    let mut nullable = false;
    let mut messages: Vec<String> = Vec::new();
    let mut i: usize = 0;
    assert(all.subrange(0, 0) =~= Seq::<ConditionalCompileType>::empty());
    for verdict in it: verdicts
        invariant
            i == it.index(),
            it.seq() == all,
            all.len() <= usize::MAX,
            failed == any_fail(all.subrange(0, i as int)),
            required == any_required(all.subrange(0, i as int)),
            never == any_never(all.subrange(0, i as int)),
            skippable == any_skippable(all.subrange(0, i as int)),
            nullable == any_nullable(all.subrange(0, i as int)),
            messages@ == fail_messages(all.subrange(0, i as int)),
    {
        proof {
            lemma_one_more(all, i as int);
        }
        match verdict {
            ConditionalCompileType::Required => {
                required = true;
            },
            ConditionalCompileType::Skippable => {
                skippable = true;
            },
            ConditionalCompileType::Never => {
                never = true;
            },
            ConditionalCompileType::Nullable => {
                nullable = true;
            },
            ConditionalCompileType::NoConstraint => {},
            ConditionalCompileType::Fail(mut reasons) => {
                failed = true;
                messages.append(&mut reasons);
            },
        }
        i += 1;
    }
    assert(all.subrange(0, i as int) =~= all);
    if failed {
        Resolution::Fail(messages)
    } else if required && never {
        Resolution::Conflict
    } else if never {
        Resolution::Exclude
    } else if required {
        Resolution::Include
    } else if templates > 0 {
        Resolution::Include
    } else if skippable {
        Resolution::Exclude
    } else if nullable {
        Resolution::Nullable
    } else {
        Resolution::Include
    }
}

} // verus!
