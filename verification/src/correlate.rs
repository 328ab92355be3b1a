//! From groups of issues to signals of likely duplicates.
//!
//! A group is a signal where it links at least two different issues and its
//! signature is strong: it has both the compiler's error message and the
//! query stack. Nothing is compared but whole signatures, so crashes whose
//! reports differ in any detail are not found to be duplicates.

use crate::aggregate::views;
use crate::model::{
    DuplicateSignal, DuplicateSignalView, IceWithIssues, IceWithIssuesView, Issue, IssueState,
};
use std::collections::HashMap;
use vstd::prelude::*;

verus! {

/// The views of a list of signals.
pub open spec fn signal_views(signals: Seq<DuplicateSignal>) -> Seq<DuplicateSignalView> {
    signals.map_values(|s: DuplicateSignal| s@)
}

/// At least two different issue numbers occur.
pub open spec fn links_two(numbers: Seq<usize>) -> bool {
    exists|i: int, j: int|
        0 <= i < numbers.len() && 0 <= j < numbers.len() && numbers[i] != numbers[j]
}

/// The group is worth reporting: at least two different issues, and a strong
/// signature.
pub open spec fn qualifies(group: IceWithIssuesView) -> bool {
    links_two(group.issues) && group.ice.is_strong()
}

/// Issue `number` is known and open.
pub open spec fn is_open(issues: Map<usize, Issue>, number: usize) -> bool {
    issues.contains_key(number) && issues[number].state == IssueState::Open
}

/// One of the numbers is that of a known, open issue. A number without a
/// record counts as not open.
pub open spec fn any_open(numbers: Seq<usize>, issues: Map<usize, Issue>) -> bool {
    exists|i: int| 0 <= i < numbers.len() && is_open(issues, #[trigger] numbers[i])
}

/// The numbers that have no record among the issues, in order.
pub open spec fn unresolved(numbers: Seq<usize>, issues: Map<usize, Issue>) -> Seq<usize>
    decreases numbers.len(),
{
    if numbers.len() == 0 {
        Seq::<usize>::empty()
    } else {
        let rest = unresolved(numbers.drop_last(), issues);
        if issues.contains_key(numbers.last()) {
            rest
        } else {
            rest.push(numbers.last())
        }
    }
}

/// The signal that a group gives.
pub open spec fn signal_for(group: IceWithIssuesView, issues: Map<usize, Issue>) -> DuplicateSignalView {
    DuplicateSignalView { group, any_open: any_open(group.issues, issues) }
}

/// The signals of the groups that qualify, in the order of the groups.
pub open spec fn signals(groups: Seq<IceWithIssuesView>, issues: Map<usize, Issue>) -> Seq<
    DuplicateSignalView,
>
    decreases groups.len(),
{
    if groups.len() == 0 {
        Seq::<DuplicateSignalView>::empty()
    } else {
        let rest = signals(groups.drop_last(), issues);
        if qualifies(groups.last()) {
            rest.push(signal_for(groups.last(), issues))
        } else {
            rest
        }
    }
}

/// The issues by their number. Of two issues with one number the later
/// stands.
pub open spec fn indexed(issues: Seq<Issue>) -> Map<usize, Issue>
    decreases issues.len(),
{
    if issues.len() == 0 {
        Map::<usize, Issue>::empty()
    } else {
        indexed(issues.drop_last()).insert(issues.last().number, issues.last())
    }
}

/// Whether at least two different issue numbers occur.
pub fn has_two(numbers: &Vec<usize>) -> (r: bool)
    ensures
        r == links_two(numbers@),
{
    if numbers.len() == 0 {
        return false;
    }
    let first = numbers[0];
    let mut i: usize = 1;
    while i < numbers.len()
        invariant
            1 <= i <= numbers.len(),
            first == numbers@[0],
            forall|j: int| 0 <= j < i ==> #[trigger] numbers@[j] == first,
        decreases numbers.len() - i,
    {
        if numbers[i] != first {
            return true;
        }
        i += 1;
    }
    false
}

/// Whether one of the numbers is that of a known, open issue.
pub fn some_open(numbers: &Vec<usize>, issues: &HashMap<usize, Issue>) -> (r: bool)
    ensures
        r == any_open(numbers@, issues@),
{
    broadcast use vstd::std_specs::hash::group_hash_axioms;

    let mut i: usize = 0;
    while i < numbers.len()
        invariant
            i <= numbers.len(),
            forall|j: int| 0 <= j < i ==> !is_open(issues@, #[trigger] numbers@[j]),
        decreases numbers.len() - i,
    {
        match issues.get(&numbers[i]) {
            Some(issue) => {
                match issue.state {
                    IssueState::Open => {
                        return true;
                    },
                    IssueState::Closed => {},
                }
            },
            None => {},
        }
        i += 1;
    }
    false
}

/// The numbers that have no record among the issues, in order: the group was
/// formed when those issues were still known.
pub fn stale(numbers: &Vec<usize>, issues: &HashMap<usize, Issue>) -> (r: Vec<usize>)
    ensures
        r@ == unresolved(numbers@, issues@),
{
    broadcast use vstd::std_specs::hash::group_hash_axioms;

    let mut r: Vec<usize> = Vec::new();
    let mut i: usize = 0;
    while i < numbers.len()
        invariant
            i <= numbers.len(),
            r@ == unresolved(numbers@.take(i as int), issues@),
        decreases numbers.len() - i,
    {
        assert(numbers@.take(i + 1).drop_last() =~= numbers@.take(i as int));
        if issues.get(&numbers[i]).is_none() {
            r.push(numbers[i]);
        }
        i += 1;
    }
    assert(numbers@.take(numbers.len() as int) =~= numbers@);
    r
}

/// The signals of the groups that qualify, in the order of the groups.
pub fn correlate(groups: &Vec<IceWithIssues>, issues: &HashMap<usize, Issue>) -> (r: Vec<
    DuplicateSignal,
>)
    ensures
        signal_views(r@) == signals(views(groups@), issues@),
{
    let ghost all = views(groups@);
    let mut r: Vec<DuplicateSignal> = Vec::new();
    let mut i: usize = 0;
    while i < groups.len()
        invariant
            i <= groups.len(),
            all == views(groups@),
            signal_views(r@) == signals(all.take(i as int), issues@),
        decreases groups.len() - i,
    {
        assert(all.take(i + 1).drop_last() =~= all.take(i as int));
        let group = &groups[i];
        if has_two(&group.issues) && group.ice.is_strong() {
            let signal = DuplicateSignal {
                group: group.copy(),
                any_open: some_open(&group.issues, issues),
            };
            r.push(signal);
        }
        i += 1;
    }
    assert(all.take(groups.len() as int) =~= all);
    r
}

/// The issues by their number. Of two issues with one number the later
/// stands.
pub fn index_issues(issues: Vec<Issue>) -> (r: HashMap<usize, Issue>)
    ensures
        r@ == indexed(issues@),
{
    broadcast use vstd::std_specs::hash::group_hash_axioms;

    let ghost all = issues@;
    let mut r: HashMap<usize, Issue> = HashMap::new();
    for issue in it: issues
        invariant
            it.seq() == all,
            r@ == indexed(all.take(it.index())),
    {
        assert(all.take(it.index() + 1).drop_last() =~= all.take(it.index()));
        r.insert(issue.number, issue);
    }
    assert(all.take(all.len() as int) =~= all);
    r
}

/// A group with a single issue is no signal, however strong its signature.
pub proof fn lemma_single_issue(group: IceWithIssuesView)
    requires
        group.issues.len() <= 1,
    ensures
        !qualifies(group),
{
}

/// Every signal stands for a group that qualifies, and carries that group's
/// open flag.
pub proof fn lemma_signals_qualify(groups: Seq<IceWithIssuesView>, issues: Map<usize, Issue>, i: int)
    requires
        0 <= i < signals(groups, issues).len(),
    ensures
        qualifies(signals(groups, issues)[i].group),
        signals(groups, issues)[i].group.issues.len() >= 2,
        signals(groups, issues)[i] == signal_for(signals(groups, issues)[i].group, issues),
        exists|k: int| 0 <= k < groups.len() && groups[k] == signals(groups, issues)[i].group,
    decreases groups.len(),
{
    let rest = signals(groups.drop_last(), issues);
    if i < rest.len() {
        lemma_signals_qualify(groups.drop_last(), issues, i);
        let k = choose|k: int|
            0 <= k < groups.drop_last().len() && groups.drop_last()[k] == rest[i].group;
        assert(groups[k] == rest[i].group);
    } else {
        assert(groups[groups.len() - 1] == signals(groups, issues)[i].group);
    }
}

/// Every group that qualifies has its signal.
pub proof fn lemma_qualifying_signals(
    groups: Seq<IceWithIssuesView>,
    issues: Map<usize, Issue>,
    k: int,
)
    requires
        0 <= k < groups.len(),
        qualifies(groups[k]),
    ensures
        signals(groups, issues).contains(signal_for(groups[k], issues)),
    decreases groups.len(),
{
    let rest = signals(groups.drop_last(), issues);
    if k < groups.len() - 1 {
        lemma_qualifying_signals(groups.drop_last(), issues, k);
        let i = choose|i: int| 0 <= i < rest.len() && rest[i] == signal_for(groups[k], issues);
        assert(signals(groups, issues)[i] == signal_for(groups[k], issues));
    } else {
        assert(signals(groups, issues).last() == signal_for(groups[k], issues));
    }
}

/// The open flag says whether the issues of the group and the known open
/// issues have a number in common. A group whose issues are all closed or
/// unknown is not flagged.
pub proof fn lemma_open_flag(numbers: Seq<usize>, issues: Map<usize, Issue>)
    ensures
        any_open(numbers, issues) <==> exists|n: usize|
            numbers.to_set().contains(n) && is_open(issues, n),
        (forall|i: int| 0 <= i < numbers.len() ==> !is_open(issues, #[trigger] numbers[i]))
            ==> !any_open(numbers, issues),
{
    if any_open(numbers, issues) {
        let i = choose|i: int| 0 <= i < numbers.len() && is_open(issues, #[trigger] numbers[i]);
        assert(numbers.to_set().contains(numbers[i]));
    }
    if exists|n: usize| numbers.to_set().contains(n) && is_open(issues, n) {
        let n = choose|n: usize| numbers.to_set().contains(n) && is_open(issues, n);
        let i = choose|i: int| 0 <= i < numbers.len() && numbers[i] == n;
        assert(is_open(issues, numbers[i]));
    }
}

} // verus!
