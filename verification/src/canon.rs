//! What holds of every grouping: there is exactly one canonical list of
//! groups for what a set of issues shows, so the order of the issues does not
//! matter; issues with equal signatures share one group; an issue without
//! evidence is in none.

use crate::aggregate::{ascending, canonical, groups_of, links, shown, signatures};
use crate::extract::{fingerprint, Section};
use crate::model::{body_text, IceView, IceWithIssuesView, IssueView};
use crate::order::{lemma_flip, lemma_same_iff_equal, rank_ice, Rank};
use vstd::prelude::*;

verus! {

/// A strictly increasing map from the first `n` numbers into the first `m`
/// lies at or above the identity.
proof fn lemma_increasing_low(n: int, m: int, phi: spec_fn(int) -> int, i: int)
    requires
        0 <= i < n,
        forall|k: int| 0 <= k < n ==> 0 <= #[trigger] phi(k) < m,
        forall|k: int, l: int| 0 <= k < l < n ==> #[trigger] phi(k) < #[trigger] phi(l),
    ensures
        phi(i) >= i,
    decreases i,
{
    if i > 0 {
        lemma_increasing_low(n, m, phi, i - 1);
    }
}

/// A strictly increasing map from the first `n` numbers into the first `m`
/// leaves room for what follows.
proof fn lemma_increasing_high(n: int, m: int, phi: spec_fn(int) -> int, i: int)
    requires
        0 <= i < n,
        forall|k: int| 0 <= k < n ==> 0 <= #[trigger] phi(k) < m,
        forall|k: int, l: int| 0 <= k < l < n ==> #[trigger] phi(k) < #[trigger] phi(l),
    ensures
        phi(i) <= m - n + i,
    decreases n - i,
{
    if i < n - 1 {
        lemma_increasing_high(n, m, phi, i + 1);
    }
}

/// A strictly increasing map from the first `n` numbers into the first `m`
/// needs `n <= m`, and is the identity where `n == m`.
proof fn lemma_increasing(n: int, m: int, phi: spec_fn(int) -> int)
    requires
        0 <= n,
        0 <= m,
        forall|k: int| 0 <= k < n ==> 0 <= #[trigger] phi(k) < m,
        forall|k: int, l: int| 0 <= k < l < n ==> #[trigger] phi(k) < #[trigger] phi(l),
    ensures
        n <= m,
        n == m ==> forall|k: int| 0 <= k < n ==> #[trigger] phi(k) == k,
{
    if n > 0 {
        lemma_increasing_low(n, m, phi, n - 1);
    }
    assert forall|k: int| 0 <= k < n implies phi(k) >= k && #[trigger] phi(k) <= m - n + k by {
        lemma_increasing_low(n, m, phi, k);
        lemma_increasing_high(n, m, phi, k);
    }
}

/// An ascending list is no longer than another that holds all its numbers.
proof fn lemma_ascending_within(s: Seq<usize>, t: Seq<usize>)
    requires
        ascending(s),
        ascending(t),
        forall|n: usize| s.contains(n) ==> t.contains(n),
    ensures
        s.len() <= t.len(),
        s.len() == t.len() ==> s == t,
{
    let phi = |i: int| choose|k: int| 0 <= k < t.len() && t[k] == s[i];
    assert forall|i: int| 0 <= i < s.len() implies 0 <= #[trigger] phi(i) < t.len() && t[phi(i)]
        == s[i] by {
        assert(t.contains(s[i]));
    }
    assert forall|i: int, j: int| 0 <= i < j < s.len() implies #[trigger] phi(i) < #[trigger] phi(
        j,
    ) by {}
    lemma_increasing(s.len() as int, t.len() as int, phi);
    if s.len() == t.len() {
        assert forall|i: int| 0 <= i < s.len() implies s[i] == t[i] by {
            assert(phi(i) == i);
        }
    }
}

/// Two ascending lists with the same numbers are equal.
pub proof fn lemma_ascending_unique(s: Seq<usize>, t: Seq<usize>)
    requires
        ascending(s),
        ascending(t),
        forall|n: usize| s.contains(n) <==> t.contains(n),
    ensures
        s == t,
{
    lemma_ascending_within(s, t);
    lemma_ascending_within(t, s);
}

/// In a canonical list no signature stands twice.
pub proof fn lemma_signature_once(groups: Seq<IceWithIssuesView>, i: int, j: int)
    requires
        canonical(groups),
        0 <= i < groups.len(),
        0 <= j < groups.len(),
        groups[i].ice == groups[j].ice,
    ensures
        i == j,
{
    lemma_same_iff_equal(groups[i].ice, groups[j].ice);
    lemma_same_iff_equal(groups[j].ice, groups[i].ice);
}

/// A canonical list is no longer than another that lists all it lists, and
/// where they are equally long the signatures agree place by place.
proof fn lemma_canonical_within(a: Seq<IceWithIssuesView>, b: Seq<IceWithIssuesView>)
    requires
        canonical(a),
        canonical(b),
        forall|f: IceView, n: usize| links(a, f, n) ==> links(b, f, n),
    ensures
        a.len() <= b.len(),
        a.len() == b.len() ==> forall|i: int| 0 <= i < a.len() ==> (#[trigger] a[i]).ice == b[i].ice,
{
    let phi = |i: int| choose|k: int| 0 <= k < b.len() && (#[trigger] b[k]).ice == a[i].ice;
    assert forall|i: int| 0 <= i < a.len() implies 0 <= #[trigger] phi(i) < b.len() && b[phi(
        i,
    )].ice == a[i].ice by {
        let n = a[i].issues[0];
        assert(links(b, a[i].ice, n));
    }
    assert forall|i: int, j: int| 0 <= i < j < a.len() implies #[trigger] phi(i) < #[trigger] phi(
        j,
    ) by {
        lemma_same_iff_equal(a[i].ice, a[j].ice);
        lemma_flip(a[i].ice, a[j].ice);
    }
    lemma_increasing(a.len() as int, b.len() as int, phi);
    if a.len() == b.len() {
        assert forall|i: int| 0 <= i < a.len() implies (#[trigger] a[i]).ice == b[i].ice by {
            assert(phi(i) == i);
        }
    }
}

/// There is one canonical list of groups for what is listed: two canonical
/// lists that list the same issues under the same signatures are equal.
pub proof fn lemma_canonical_unique(a: Seq<IceWithIssuesView>, b: Seq<IceWithIssuesView>)
    requires
        canonical(a),
        canonical(b),
        forall|f: IceView, n: usize| links(a, f, n) <==> links(b, f, n),
    ensures
        a == b,
{
    lemma_canonical_within(a, b);
    lemma_canonical_within(b, a);
    assert forall|i: int| 0 <= i < a.len() implies a[i] == b[i] by {
        assert forall|n: usize| a[i].issues.contains(n) <==> b[i].issues.contains(n) by {
            if a[i].issues.contains(n) {
                assert(links(b, a[i].ice, n));
                let k = choose|k: int|
                    0 <= k < b.len() && (#[trigger] b[k]).ice == a[i].ice && b[k].issues.contains(
                        n,
                    );
                lemma_signature_once(b, k, i);
            }
            if b[i].issues.contains(n) {
                assert(links(a, b[i].ice, n));
                let k = choose|k: int|
                    0 <= k < a.len() && (#[trigger] a[k]).ice == b[i].ice && a[k].issues.contains(
                        n,
                    );
                lemma_signature_once(a, k, i);
            }
        }
        lemma_ascending_unique(a[i].issues, b[i].issues);
    }
}

/// What occurs in a sequence occurs in every rearrangement of it.
proof fn lemma_rearranged<A>(x: Seq<A>, y: Seq<A>, v: A)
    requires
        x.to_multiset() == y.to_multiset(),
        x.contains(v),
    ensures
        y.contains(v),
{
    x.to_multiset_ensures();
    y.to_multiset_ensures();
    assert(y.to_multiset().count(v) > 0);
}

/// The grouping does not depend on the order of what is grouped: pairs that
/// are a rearrangement of one another have the same groups.
pub proof fn lemma_order_free(
    x: Seq<(IceView, usize)>,
    y: Seq<(IceView, usize)>,
    gx: Seq<IceWithIssuesView>,
    gy: Seq<IceWithIssuesView>,
)
    requires
        x.to_multiset() == y.to_multiset(),
        groups_of(x, gx),
        groups_of(y, gy),
    ensures
        gx == gy,
{
    assert forall|f: IceView, n: usize| shown(x, f, n) <==> shown(y, f, n) by {
        if shown(x, f, n) {
            lemma_rearranged(x, y, (f, n));
        }
        if shown(y, f, n) {
            lemma_rearranged(y, x, (f, n));
        }
    }
    assert forall|f: IceView, n: usize| links(gx, f, n) <==> links(gy, f, n) by {}
    lemma_canonical_unique(gx, gy);
}

/// Aggregation does not depend on the order of the issues: two lists of
/// issues that are a rearrangement of one another have the same groups.
pub proof fn lemma_aggregate_order_free(
    x: Seq<IssueView>,
    y: Seq<IssueView>,
    gx: Seq<IceWithIssuesView>,
    gy: Seq<IceWithIssuesView>,
)
    requires
        x.to_multiset() == y.to_multiset(),
        groups_of(signatures(x), gx),
        groups_of(signatures(y), gy),
    ensures
        gx == gy,
{
    let sx = signatures(x);
    let sy = signatures(y);
    assert forall|f: IceView, n: usize| shown(sx, f, n) <==> shown(sy, f, n) by {
        if shown(sx, f, n) {
            let i = choose|i: int| 0 <= i < sx.len() && #[trigger] sx[i] == (f, n);
            lemma_rearranged(x, y, x[i]);
            let j = choose|j: int| 0 <= j < y.len() && y[j] == x[i];
            assert(sy[j] == (f, n));
        }
        if shown(sy, f, n) {
            let i = choose|i: int| 0 <= i < sy.len() && #[trigger] sy[i] == (f, n);
            lemma_rearranged(y, x, y[i]);
            let j = choose|j: int| 0 <= j < x.len() && x[j] == y[i];
            assert(sx[j] == (f, n));
        }
    }
    assert forall|f: IceView, n: usize| links(gx, f, n) <==> links(gy, f, n) by {}
    lemma_canonical_unique(gx, gy);
}

/// Issues that show the same signature share a group, and it is the only
/// group with that signature.
pub proof fn lemma_shared_group(
    pairs: Seq<(IceView, usize)>,
    groups: Seq<IceWithIssuesView>,
    i: int,
    j: int,
) -> (k: int)
    requires
        groups_of(pairs, groups),
        0 <= i < pairs.len(),
        0 <= j < pairs.len(),
        pairs[i].0 == pairs[j].0,
        !pairs[i].0.is_empty(),
    ensures
        0 <= k < groups.len(),
        groups[k].ice == pairs[i].0,
        groups[k].issues.contains(pairs[i].1),
        groups[k].issues.contains(pairs[j].1),
        forall|l: int| 0 <= l < groups.len() && (#[trigger] groups[l]).ice == pairs[i].0 ==> l == k,
{
    let f = pairs[i].0;
    assert(links(groups, f, pairs[i].1));
    assert(links(groups, f, pairs[j].1));
    let k = choose|k: int|
        0 <= k < groups.len() && (#[trigger] groups[k]).ice == f && groups[k].issues.contains(
            pairs[i].1,
        );
    let l = choose|l: int|
        0 <= l < groups.len() && (#[trigger] groups[l]).ice == f && groups[l].issues.contains(
            pairs[j].1,
        );
    lemma_signature_once(groups, k, l);
    assert forall|m: int| 0 <= m < groups.len() && (#[trigger] groups[m]).ice == f implies m
        == k by {
        lemma_signature_once(groups, m, k);
    }
    k
}

/// Every issue of a group shows the signature of the group: no group holds
/// issues of unequal signatures.
pub proof fn lemma_group_members(
    pairs: Seq<(IceView, usize)>,
    groups: Seq<IceWithIssuesView>,
    k: int,
    number: usize,
)
    requires
        groups_of(pairs, groups),
        0 <= k < groups.len(),
        groups[k].issues.contains(number),
    ensures
        shown(pairs, groups[k].ice, number),
{
}

/// An issue that shows no evidence is in no group.
pub proof fn lemma_without_evidence(
    pairs: Seq<(IceView, usize)>,
    groups: Seq<IceWithIssuesView>,
    number: usize,
)
    requires
        groups_of(pairs, groups),
        forall|i: int| 0 <= i < pairs.len() && (#[trigger] pairs[i]).1 == number ==> pairs[i].0.is_empty(),
    ensures
        forall|k: int| 0 <= k < groups.len() ==> !(#[trigger] groups[k]).issues.contains(number),
{
    assert forall|k: int| 0 <= k < groups.len() implies !(#[trigger] groups[k]).issues.contains(
        number,
    ) by {
        if groups[k].issues.contains(number) {
            lemma_group_members(pairs, groups, k, number);
        }
    }
}

/// A report in which none of the six patterns matches has an empty signature.
pub proof fn lemma_unmatched_is_empty(body: Seq<char>)
    requires
        forall|s: Section| s.found(body) is None,
    ensures
        fingerprint(body).is_empty(),
{
}

/// An issue whose report matches none of the six patterns is in no group.
pub proof fn lemma_unmatched_excluded(
    issues: Seq<IssueView>,
    groups: Seq<IceWithIssuesView>,
    number: usize,
)
    requires
        groups_of(signatures(issues), groups),
        forall|i: int, s: Section|
            0 <= i < issues.len() && (#[trigger] issues[i]).number == number ==> (#[trigger] s.found(
                body_text(issues[i].body),
            )) is None,
    ensures
        forall|k: int| 0 <= k < groups.len() ==> !(#[trigger] groups[k]).issues.contains(number),
{
    let pairs = signatures(issues);
    assert forall|i: int| 0 <= i < pairs.len() && (#[trigger] pairs[i]).1 == number implies pairs[i].0.is_empty() by {
        lemma_unmatched_is_empty(body_text(issues[i].body));
    }
    lemma_without_evidence(pairs, groups, number);
}

} // verus!
