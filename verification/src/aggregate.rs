//! Grouping of issues by crash signature.
//!
//! Issues whose reports show the same signature form one group. The groups are
//! kept in the order of their signatures and the issue numbers of a group in
//! ascending order, so that the result does not depend on the order in which
//! the issues arrive.

use crate::extract::{fingerprint, Extractor};
use crate::model::{body_text, Ice, IceView, IceWithIssues, IceWithIssuesView, Issue, IssueView};
use crate::order::{lemma_flip, lemma_same_iff_equal, lemma_transitive, rank_ice, Rank};
use vstd::prelude::*;

verus! {

/// The views of a list of groups.
pub open spec fn views(groups: Seq<IceWithIssues>) -> Seq<IceWithIssuesView> {
    groups.map_values(|g: IceWithIssues| g@)
}

/// The views of a list of issues.
pub open spec fn issue_views(issues: Seq<Issue>) -> Seq<IssueView> {
    issues.map_values(|i: Issue| i@)
}

/// Strictly ascending, so that no number occurs twice.
pub open spec fn ascending(numbers: Seq<usize>) -> bool {
    forall|i: int, j: int| 0 <= i < j < numbers.len() ==> numbers[i] < numbers[j]
}

/// The signatures stand in strictly ascending order, and no group is without
/// evidence or without an issue.
pub open spec fn canonical(groups: Seq<IceWithIssuesView>) -> bool {
    &&& forall|i: int, j: int|
        0 <= i < j < groups.len() ==> rank_ice(#[trigger] groups[i].ice, #[trigger] groups[j].ice)
            == Rank::Before
    &&& forall|k: int|
        0 <= k < groups.len() ==> {
            &&& (#[trigger] groups[k]).issues.len() > 0
            &&& ascending(groups[k].issues)
            &&& !groups[k].ice.is_empty()
        }
}

/// The groups list issue `number` under the signature `ice`.
pub open spec fn links(groups: Seq<IceWithIssuesView>, ice: IceView, number: usize) -> bool {
    exists|k: int|
        0 <= k < groups.len() && (#[trigger] groups[k]).ice == ice && groups[k].issues.contains(
            number,
        )
}

/// `after` lists what `before` lists, and issue `number` under `ice`.
pub open spec fn adds(
    before: Seq<IceWithIssuesView>,
    after: Seq<IceWithIssuesView>,
    ice: IceView,
    number: usize,
) -> bool {
    forall|f: IceView, n: usize|
        links(after, f, n) <==> links(before, f, n) || (f == ice && n == number)
}

/// Adds `number` to an ascending list, unless it is there already.
pub fn insert_number(numbers: &mut Vec<usize>, number: usize)
    requires
        ascending(old(numbers)@),
    ensures
        ascending(final(numbers)@),
        forall|n: usize|
            final(numbers)@.contains(n) <==> old(numbers)@.contains(n) || n == number,
{
    let mut i: usize = 0;
    while i < numbers.len() && numbers[i] < number
        invariant
            i <= numbers.len(),
            *numbers == *old(numbers),
            forall|j: int| 0 <= j < i ==> numbers@[j] < number,
        decreases numbers.len() - i,
    {
        i += 1;
    }
    if i == numbers.len() || numbers[i] != number {
        let ghost before = numbers@;
        numbers.insert(i, number);
        let ghost after = numbers@;
        assert forall|n: usize| before.contains(n) || n == number implies after.contains(n) by {
            if before.contains(n) {
                let k = choose|k: int| 0 <= k < before.len() && before[k] == n;
                if k < i {
                    assert(after[k] == n);
                } else {
                    assert(after[k + 1] == n);
                }
            } else {
                assert(after[i as int] == n);
            }
        }
    }
}

/// Whether the signature of `group` comes before `ice` in the order.
fn comes_before(group: &IceWithIssues, ice: &Ice) -> (r: bool)
    ensures
        r == (rank_ice(group@.ice, ice@) == Rank::Before),
{
    match group.ice.rank(ice) {
        Rank::Before => true,
        _ => false,
    }
}

/// The groups with the issue numbers of group `i` replaced.
pub open spec fn renumbered(
    groups: Seq<IceWithIssuesView>,
    i: int,
    numbers: Seq<usize>,
) -> Seq<IceWithIssuesView> {
    groups.update(i, IceWithIssuesView { ice: groups[i].ice, issues: numbers })
}

/// A group gains an issue number: the list stays canonical and lists what it
/// listed before and the new number.
proof fn lemma_update_group(
    before: Seq<IceWithIssuesView>,
    i: int,
    numbers: Seq<usize>,
    number: usize,
)
    requires
        canonical(before),
        0 <= i < before.len(),
        ascending(numbers),
        forall|n: usize| numbers.contains(n) <==> before[i].issues.contains(n) || n == number,
    ensures
        canonical(renumbered(before, i, numbers)),
        adds(before, renumbered(before, i, numbers), before[i].ice, number),
{
    let after = renumbered(before, i, numbers);
    assert(numbers.contains(number));
    assert forall|f: IceView, n: usize|
        links(before, f, n) || (f == before[i].ice && n == number) implies links(after, f, n) by {
        if links(before, f, n) {
            let k = choose|k: int|
                0 <= k < before.len() && (#[trigger] before[k]).ice == f
                    && before[k].issues.contains(n);
            assert(after[k].ice == f && after[k].issues.contains(n));
        } else {
            assert(after[i].ice == f && after[i].issues.contains(n));
        }
    }
    assert forall|x: int, y: int| 0 <= x < y < after.len() implies rank_ice(
        #[trigger] after[x].ice,
        #[trigger] after[y].ice,
    ) == Rank::Before by {}
}

/// A new group enters at its place in the order: the list stays canonical
/// and lists what it listed before and the new group's one issue.
proof fn lemma_insert_group(before: Seq<IceWithIssuesView>, i: int, fresh: IceWithIssuesView)
    requires
        canonical(before),
        0 <= i <= before.len(),
        forall|j: int| 0 <= j < i ==> rank_ice(#[trigger] before[j].ice, fresh.ice) == Rank::Before,
        i < before.len() ==> rank_ice(before[i].ice, fresh.ice) == Rank::After,
        fresh.issues.len() == 1,
        !fresh.ice.is_empty(),
    ensures
        canonical(before.insert(i, fresh)),
        adds(before, before.insert(i, fresh), fresh.ice, fresh.issues[0]),
{
    let after = before.insert(i, fresh);
    let number = fresh.issues[0];
    if i < before.len() {
        lemma_flip(before[i].ice, fresh.ice);
        assert forall|j: int| i < j < before.len() implies rank_ice(
            fresh.ice,
            #[trigger] before[j].ice,
        ) == Rank::Before by {
            lemma_transitive(fresh.ice, before[i].ice, before[j].ice);
        }
    }
    assert forall|f: IceView, n: usize|
        links(before, f, n) || (f == fresh.ice && n == number) implies links(after, f, n) by {
        if links(before, f, n) {
            let k = choose|k: int|
                0 <= k < before.len() && (#[trigger] before[k]).ice == f
                    && before[k].issues.contains(n);
            if k < i {
                assert(after[k] == before[k]);
            } else {
                assert(after[k + 1] == before[k]);
            }
        } else {
            assert(after[i] == fresh);
        }
    }
    assert forall|x: int, y: int| 0 <= x < y < after.len() implies rank_ice(
        #[trigger] after[x].ice,
        #[trigger] after[y].ice,
    ) == Rank::Before by {
        if x < i < y {
            lemma_transitive(before[x].ice, fresh.ice, before[y - 1].ice);
        }
    }
}

/// Notes that issue `number` shows the signature `ice`. A signature without
/// any evidence is not recorded.
pub fn record(groups: &mut Vec<IceWithIssues>, ice: Ice, number: usize)
    requires
        canonical(views(old(groups)@)),
    ensures
        canonical(views(final(groups)@)),
        ice@.is_empty() ==> *final(groups) == *old(groups),
        !ice@.is_empty() ==> adds(views(old(groups)@), views(final(groups)@), ice@, number),
{
    if ice.is_empty() {
        return ;
    }
    let ghost before = views(old(groups)@);
    let mut i: usize = 0;
    while i < groups.len() && comes_before(&groups[i], &ice)
        invariant
            i <= groups.len(),
            *groups == *old(groups),
            before == views(groups@),
            forall|j: int| 0 <= j < i ==> rank_ice(#[trigger] before[j].ice, ice@) == Rank::Before,
        decreases groups.len() - i,
    {
        i += 1;
    }
    if i < groups.len() && groups[i].ice.same(&ice) {
        insert_number(&mut groups[i].issues, number);
        let ghost numbers = groups@[i as int].issues@;
        proof {
            lemma_update_group(before, i as int, numbers, number);
        }
        assert(views(groups@) =~= renumbered(before, i as int, numbers));
    } else {
        let mut issues: Vec<usize> = Vec::new();
        issues.push(number);
        let group = IceWithIssues { ice, issues };
        let ghost fresh = group@;
        proof {
            if i < groups.len() {
                lemma_same_iff_equal(before[i as int].ice, fresh.ice);
            }
            lemma_insert_group(before, i as int, fresh);
        }
        groups.insert(i, group);
        assert(views(groups@) =~= before.insert(i as int, fresh));
    }
}

/// Among the pairs of a signature and an issue number, issue `number` shows
/// the signature `ice`, and `ice` holds some evidence.
pub open spec fn shown(pairs: Seq<(IceView, usize)>, ice: IceView, number: usize) -> bool {
    !ice.is_empty() && exists|i: int| 0 <= i < pairs.len() && #[trigger] pairs[i] == (ice, number)
}

/// The groups list exactly what the pairs show.
pub open spec fn lists(pairs: Seq<(IceView, usize)>, groups: Seq<IceWithIssuesView>) -> bool {
    forall|f: IceView, n: usize| links(groups, f, n) <==> shown(pairs, f, n)
}

/// `groups` is the grouping of `pairs`: canonical, and listing exactly what
/// the pairs show. There is one such list of groups, whatever the order of
/// the pairs.
pub open spec fn groups_of(pairs: Seq<(IceView, usize)>, groups: Seq<IceWithIssuesView>) -> bool {
    canonical(groups) && lists(pairs, groups)
}

/// The views of a list of pairs.
pub open spec fn pair_views(pairs: Seq<(Ice, usize)>) -> Seq<(IceView, usize)> {
    pairs.map_values(|p: (Ice, usize)| (p.0@, p.1))
}

/// What each issue shows: the signature of its report, and its number.
pub open spec fn signatures(issues: Seq<IssueView>) -> Seq<(IceView, usize)> {
    issues.map_values(|i: IssueView| (fingerprint(body_text(i.body)), i.number))
}

/// Recording pair `i` takes the grouping of the first `i` pairs to that of
/// the first `i + 1`.
proof fn lemma_recorded(
    pairs: Seq<(IceView, usize)>,
    i: int,
    before: Seq<IceWithIssuesView>,
    after: Seq<IceWithIssuesView>,
)
    requires
        0 <= i < pairs.len(),
        lists(pairs.take(i), before),
        pairs[i].0.is_empty() ==> after == before,
        !pairs[i].0.is_empty() ==> adds(before, after, pairs[i].0, pairs[i].1),
    ensures
        lists(pairs.take(i + 1), after),
{
    let head = pairs.take(i);
    let now = pairs.take(i + 1);
    assert forall|f: IceView, n: usize| links(after, f, n) <==> shown(now, f, n) by {
        if shown(head, f, n) {
            let k = choose|k: int| 0 <= k < head.len() && #[trigger] head[k] == (f, n);
            assert(now[k] == (f, n));
        }
        if shown(now, f, n) {
            let k = choose|k: int| 0 <= k < now.len() && #[trigger] now[k] == (f, n);
            if k < i {
                assert(head[k] == (f, n));
            }
        }
        if pairs[i] == (f, n) && !f.is_empty() {
            assert(now[i] == (f, n));
        }
    }
}

/// Groups pairs of a signature and an issue number by signature.
pub fn collect(pairs: Vec<(Ice, usize)>) -> (groups: Vec<IceWithIssues>)
    ensures
        groups_of(pair_views(pairs@), views(groups@)),
{
    let ghost all = pair_views(pairs@);
    let mut groups: Vec<IceWithIssues> = Vec::new();
    let mut i: usize = 0;
    while i < pairs.len()
        invariant
            i <= pairs.len(),
            all == pair_views(pairs@),
            canonical(views(groups@)),
            lists(all.take(i as int), views(groups@)),
        decreases pairs.len() - i,
    {
        let ghost before = views(groups@);
        let ice = pairs[i].0.copy();
        record(&mut groups, ice, pairs[i].1);
        proof {
            lemma_recorded(all, i as int, before, views(groups@));
        }
        i += 1;
    }
    assert(all.take(pairs.len() as int) =~= all);
    groups
}

/// Groups the issues by the crash signature of their reports. An issue whose
/// report shows no section at all is left out.
pub fn aggregate(extractor: &Extractor, issues: &Vec<Issue>) -> (groups: Vec<IceWithIssues>)
    ensures
        groups_of(signatures(issue_views(issues@)), views(groups@)),
{
    let ghost all = signatures(issue_views(issues@));
    let mut groups: Vec<IceWithIssues> = Vec::new();
    let mut i: usize = 0;
    while i < issues.len()
        invariant
            i <= issues.len(),
            all == signatures(issue_views(issues@)),
            canonical(views(groups@)),
            lists(all.take(i as int), views(groups@)),
        decreases issues.len() - i,
    {
        let ghost before = views(groups@);
        let ice = extractor.extract(issues[i].text());
        record(&mut groups, ice, issues[i].number);
        proof {
            lemma_recorded(all, i as int, before, views(groups@));
        }
        i += 1;
    }
    assert(all.take(issues.len() as int) =~= all);
    groups
}

} // verus!
