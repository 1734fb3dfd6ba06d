//! Greedy grouping of nearby circumcenters.
//!
//! The distances themselves are measured by the caller; this module receives
//! the proximity relation as a matrix (`near[i][j]` holds when point `j` lies
//! within the merge threshold of point `i`) and decides which points merge.
//! Points are visited in index order: an unclaimed point opens a new group and
//! claims every later unclaimed point near it.
use vstd::prelude::*;

verus! {

/// `j` opens a group of its own: no earlier group leader claimed it.
pub open spec fn is_leader(near: Seq<Vec<bool>>, j: int) -> bool
    decreases j, 1int,
{
    !claimed_before(near, j, j)
}

/// Some group leader with index below `bound` is near `j`.
pub open spec fn claimed_before(near: Seq<Vec<bool>>, j: int, bound: int) -> bool
    decreases bound, 0int,
{
    if bound <= 0 {
        false
    } else {
        claimed_before(near, j, bound - 1) || (is_leader(near, bound - 1) && near[bound
            - 1]@[j])
    }
}

/// The first leader at or after `k` (and before `j`) that is near `j`; `j` itself if none is.
pub open spec fn first_claimer(near: Seq<Vec<bool>>, j: int, k: int) -> int
    decreases j - k,
{
    if k >= j {
        j
    } else if is_leader(near, k) && near[k]@[j] {
        k
    } else {
        first_claimer(near, j, k + 1)
    }
}

/// The leader of the group that point `j` ends up in.
pub open spec fn owner(near: Seq<Vec<bool>>, j: int) -> int {
    first_claimer(near, j, 0)
}

/// Number of group leaders with index below `k`: the group number of leader `k`.
pub open spec fn leaders_below(near: Seq<Vec<bool>>, k: int) -> nat
    decreases k,
{
    if k <= 0 {
        0
    } else {
        leaders_below(near, k - 1) + if is_leader(near, k - 1) {
            1nat
        } else {
            0nat
        }
    }
}

/// The group number that point `j` is mapped to.
pub open spec fn group_of(near: Seq<Vec<bool>>, j: int) -> nat {
    leaders_below(near, owner(near, j))
}

/// `near` is an `n` by `n` matrix.
pub open spec fn is_square(near: Seq<Vec<bool>>) -> bool {
    forall|i: int| 0 <= i < near.len() ==> (#[trigger] near[i])@.len() == near.len()
}

/// The sequence is strictly increasing.
pub open spec fn strictly_increasing(s: Seq<usize>) -> bool {
    forall|a: int, b: int| 0 <= a < b < s.len() ==> s[a] < s[b]
}

/// Mapping and groups agree with the greedy grouping of the first points of `near`.
pub open spec fn groups_match(
    near: Seq<Vec<bool>>,
    groups: Seq<Vec<usize>>,
    mapping: Seq<usize>,
) -> bool {
    &&& mapping.len() == near.len()
    &&& groups.len() == leaders_below(near, near.len() as int)
    &&& forall|j: int| 0 <= j < near.len() ==> #[trigger] mapping[j] == group_of(near, j)
    &&& forall|j: int| 0 <= j < near.len() ==> #[trigger] mapping[j] < groups.len()
    &&& forall|c: int| 0 <= c < groups.len() ==> strictly_increasing(#[trigger] groups[c]@)
    &&& forall|c: int| 0 <= c < groups.len() ==> (#[trigger] groups[c])@.len() > 0
    &&& forall|c: int, t: int|
        0 <= c < groups.len() && 0 <= t < groups[c]@.len() ==> {
            &&& (#[trigger] groups[c]@[t]) < near.len()
            &&& mapping[groups[c]@[t] as int] == c
        }
    &&& forall|j: int|
        0 <= j < near.len() ==> (#[trigger] groups[mapping[j] as int])@.contains(j as usize)
}

/// When no leader below `m` claims `j`, the search may start at `m`.
proof fn lemma_first_claimer_skip(near: Seq<Vec<bool>>, j: int, m: int)
    requires
        0 <= m <= j,
        !claimed_before(near, j, m),
    ensures
        first_claimer(near, j, 0) == first_claimer(near, j, m),
    decreases m,
{
    if m > 0 {
        assert(!claimed_before(near, j, m - 1));
        lemma_first_claimer_skip(near, j, m - 1);
        assert(!(is_leader(near, m - 1) && near[m - 1]@[j]));
    }
}

/// The owner of a leader is the leader itself.
proof fn lemma_leader_owns_itself(near: Seq<Vec<bool>>, j: int)
    requires
        0 <= j,
        is_leader(near, j),
    ensures
        owner(near, j) == j,
{
    lemma_first_claimer_skip(near, j, j);
}

/// A point first claimed by leader `i` is owned by `i`.
proof fn lemma_claimed_by(near: Seq<Vec<bool>>, i: int, j: int)
    requires
        0 <= i < j,
        is_leader(near, i),
        near[i]@[j],
        !claimed_before(near, j, i),
    ensures
        owner(near, j) == i,
{
    lemma_first_claimer_skip(near, j, i);
}

/// Groups close points in index order.
///
/// `near[i][j]` says whether point `j` lies close enough to point `i` to merge
/// with it; only entries with `i < j` are read. The result lists the groups in
/// the order their first point appears, each in increasing index order, and
/// maps every point to the number of its group.
pub fn merge_circumcenter_groups(near: &Vec<Vec<bool>>) -> (res: (Vec<Vec<usize>>, Vec<usize>))
    requires
        is_square(near@),
    ensures
        groups_match(near@, res.0@, res.1@),
        // The greedy grouping, spelled out on the groups (see `groups_are_greedy`).
        forall|c: int, t: int|
            0 <= c < res.0@.len() && 0 < t < res.0@[c]@.len() ==> res.0@[c]@[0] < (
            #[trigger] res.0@[c]@[t]) && near@[res.0@[c]@[0] as int]@[res.0@[c]@[t] as int],
        forall|c1: int, c2: int|
            0 <= c1 < c2 < res.0@.len() ==> (#[trigger] res.0@[c1]@[0]) < (
            #[trigger] res.0@[c2]@[0]) && !near@[res.0@[c1]@[0] as int]@[res.0@[c2]@[0] as int],
        forall|c1: int, c2: int, t: int|
            0 <= c1 < c2 < res.0@.len() && 0 <= t < res.0@[c2]@.len() ==> !near@[
            #[trigger] res.0@[c1]@[0] as int]@[#[trigger] res.0@[c2]@[t] as int],
        forall|c: int, j: int|
            0 <= c < res.0@.len() && res.0@[c]@[0] < j < near@.len() && #[trigger] near@[
            res.0@[c]@[0] as int]@[j] ==> #[trigger] res.1@[j] <= c,
{
    let n = near.len();
    let ghost nr = near@;
    let mut groups: Vec<Vec<usize>> = Vec::new();
    let mut mapping: Vec<usize> = Vec::new();
    let mut used: Vec<bool> = Vec::new();
    let mut k: usize = 0;
    while k < n
        invariant
            k <= n,
            n == nr.len(),
            mapping@.len() == k,
            used@.len() == k,
            forall|t: int| 0 <= t < k ==> !used@[t],
        decreases n - k,
    {
        mapping.push(0);
        used.push(false);
        k = k + 1;
    }
    let mut i: usize = 0;
    while i < n
        invariant
            i <= n,
            n == nr.len(),
            nr == near@,
            is_square(nr),
            mapping@.len() == n,
            used@.len() == n,
            groups@.len() == leaders_below(nr, i as int),
            forall|j: int| 0 <= j < n ==> (#[trigger] used@[j] <==> (j < i || claimed_before(nr, j, i as int))),
            forall|j: int| 0 <= j < n && #[trigger] used@[j] ==> {
                &&& owner(nr, j) < i
                &&& mapping@[j] < groups@.len()
                &&& mapping@[j] == group_of(nr, j)
                &&& groups@[mapping@[j] as int]@.contains(j as usize)
            },
            forall|c: int| 0 <= c < groups@.len() ==> strictly_increasing(#[trigger] groups@[c]@),
            forall|c: int| 0 <= c < groups@.len() ==> (#[trigger] groups@[c])@.len() > 0,
            forall|c: int, t: int|
                0 <= c < groups@.len() && 0 <= t < groups@[c]@.len() ==> {
                    &&& (#[trigger] groups@[c]@[t]) < n
                    &&& used@[groups@[c]@[t] as int]
                    &&& mapping@[groups@[c]@[t] as int] == c
                },
        decreases n - i,
    {
        if used[i] {
            proof {
                assert(claimed_before(nr, i as int, i as int));
                assert(!is_leader(nr, i as int));
                assert forall|j: int| 0 <= j < n implies (#[trigger] used@[j] <==> (j < i + 1
                    || claimed_before(nr, j, i + 1))) by {
                    assert(claimed_before(nr, j, i + 1) == (claimed_before(nr, j, i as int) || (
                    is_leader(nr, i as int) && nr[i as int]@[j])));
                }
            }
            i = i + 1;
            continue;
        }
        proof {
            assert(!claimed_before(nr, i as int, i as int));
            assert(is_leader(nr, i as int));
            lemma_leader_owns_itself(nr, i as int);
        }
        let ghost old_used = used@;
        let ghost old_mapping = mapping@;
        let ghost old_groups = groups@;
        let ghost idx = leaders_below(nr, i as int);
        let mut cluster: Vec<usize> = Vec::new();
        cluster.push(i);
        used.set(i, true);
        let row = &near[i];
        let mut j: usize = i + 1;
        while j < n
            invariant
                i < n,
                i < j <= n,
                n == nr.len(),
                nr == near@,
                is_square(nr),
                *row == nr[i as int],
                is_leader(nr, i as int),
                used@.len() == n,
                old_used.len() == n,
                cluster@.len() > 0,
                cluster@[0] == i,
                strictly_increasing(cluster@),
                forall|t: int| 0 <= t < cluster@.len() ==> i <= #[trigger] cluster@[t] < j,
                forall|t: int|
                    0 < t < cluster@.len() ==> {
                        &&& !old_used[#[trigger] cluster@[t] as int]
                        &&& nr[i as int]@[cluster@[t] as int]
                    },
                forall|e: int|
                    i < e < j ==> (!old_used[e] && nr[i as int]@[e]) ==> (#[trigger] cluster@.contains(e as usize)),
                forall|e: int|
                    0 <= e < n ==> #[trigger] used@[e] == if e == i {
                        true
                    } else if i < e < j {
                        old_used[e] || nr[i as int]@[e]
                    } else {
                        old_used[e]
                    },
            decreases n - j,
        {
            let ghost prev = cluster@;
            if !used[j] && row[j] {
                cluster.push(j);
                used.set(j, true);
                proof {
                    assert forall|e: int|
                        i < e < j + 1 && (!old_used[e] && nr[i as int]@[e]) implies (
                        #[trigger] cluster@.contains(e as usize)) by {
                        if e == j {
                            assert(cluster@[prev.len() as int] == e as usize);
                        } else {
                            assert(prev.contains(e as usize));
                            let s = choose|s: int| 0 <= s < prev.len() && prev[s] == e as usize;
                            assert(cluster@[s] == e as usize);
                        }
                    }
                }
            }
            j = j + 1;
        }
        let new_idx = groups.len();
        let mut t: usize = 0;
        while t < cluster.len()
            invariant
                t <= cluster@.len(),
                mapping@.len() == n,
                old_mapping.len() == n,
                forall|s: int| 0 <= s < cluster@.len() ==> #[trigger] cluster@[s] < n,
                strictly_increasing(cluster@),
                forall|e: int|
                    0 <= e < n ==> #[trigger] mapping@[e] == if (exists|s: int|
                        0 <= s < t && cluster@[s] == e) {
                        new_idx
                    } else {
                        old_mapping[e]
                    },
            decreases cluster@.len() - t,
        {
            let e = cluster[t];
            mapping.set(e, new_idx);
            proof {
                assert forall|e2: int| 0 <= e2 < n implies #[trigger] mapping@[e2] == if (exists|
                    s: int,
                | 0 <= s < t + 1 && cluster@[s] == e2) {
                    new_idx
                } else {
                    old_mapping[e2]
                } by {
                    if e2 == e {
                        assert(cluster@[t as int] == e2);
                    } else {
                        if exists|s: int| 0 <= s < t + 1 && cluster@[s] == e2 {
                            let s = choose|s: int| 0 <= s < t + 1 && cluster@[s] == e2;
                            assert(s < t);
                        }
                    }
                }
            }
            t = t + 1;
        }
        proof {
            // Membership in the new cluster, characterised by the old state.
            assert forall|e: int| 0 <= e < n implies (#[trigger] cluster@.contains(e as usize)
                <==> (e == i || (i < e && !old_used[e] && nr[i as int]@[e]))) by {
                if cluster@.contains(e as usize) {
                    let s = choose|s: int| 0 <= s < cluster@.len() && cluster@[s] == e as usize;
                    if s > 0 {
                        assert(cluster@[0] < cluster@[s]);
                    }
                }
                if e == i {
                    assert(cluster@[0] == e as usize);
                }
            }
            assert forall|e: int| 0 <= e < n implies (#[trigger] cluster@.contains(e as usize)
                <==> (exists|s: int| 0 <= s < cluster@.len() && cluster@[s] == e)) by {
                if cluster@.contains(e as usize) {
                    let s = choose|s: int| 0 <= s < cluster@.len() && cluster@[s] == e as usize;
                    assert(cluster@[s] == e);
                }
                if exists|s: int| 0 <= s < cluster@.len() && cluster@[s] == e {
                    let s = choose|s: int| 0 <= s < cluster@.len() && cluster@[s] == e;
                    assert(cluster@[s] == e as usize);
                }
            }
        }
        groups.push(cluster);
        proof {
            let ii = i as int;
            assert(idx == new_idx);
            assert(leaders_below(nr, ii + 1) == idx + 1);
            // used characterisation at i + 1
            assert forall|e: int| 0 <= e < n implies (#[trigger] used@[e] <==> (e < ii + 1
                || claimed_before(nr, e, ii + 1))) by {
                assert(claimed_before(nr, e, ii + 1) == (claimed_before(nr, e, ii) || (is_leader(
                    nr,
                    ii,
                ) && nr[ii]@[e])));
            }
            let cl = groups@[new_idx as int]@;
            // previously used points are untouched
            assert forall|e: int| 0 <= e < n && #[trigger] used@[e] implies {
                &&& owner(nr, e) < ii + 1
                &&& mapping@[e] < groups@.len()
                &&& mapping@[e] == group_of(nr, e)
                &&& groups@[mapping@[e] as int]@.contains(e as usize)
            } by {
                if old_used[e] {
                    assert(!cl.contains(e as usize));
                    assert(mapping@[e] == old_mapping[e]);
                    assert(groups@[old_mapping[e] as int] == old_groups[old_mapping[e] as int]);
                } else {
                    assert(cl.contains(e as usize));
                    assert(mapping@[e] == new_idx);
                    if e != ii {
                        assert(ii < e && nr[ii]@[e]);
                        assert(!claimed_before(nr, e, ii));
                        lemma_claimed_by(nr, ii, e);
                    }
                }
            }
            assert forall|c: int, s: int|
                0 <= c < groups@.len() && 0 <= s < groups@[c]@.len() implies {
                &&& (#[trigger] groups@[c]@[s]) < n
                &&& used@[groups@[c]@[s] as int]
                &&& mapping@[groups@[c]@[s] as int] == c
            } by {
                if c < new_idx {
                    let e = groups@[c]@[s] as int;
                    assert(groups@[c] == old_groups[c]);
                    assert(old_groups[c]@[s] == groups@[c]@[s]);
                    assert(old_used[e]);
                    assert(!cl.contains(e as usize));
                } else {
                    let e = cl[s] as int;
                    assert(cl.contains(e as usize));
                }
            }
            assert forall|c: int| 0 <= c < groups@.len() implies strictly_increasing(
                #[trigger] groups@[c]@,
            ) by {
                if c < new_idx {
                    assert(groups@[c] == old_groups[c]);
                }
            }
            assert forall|c: int| 0 <= c < groups@.len() implies (#[trigger] groups@[c])@.len()
                > 0 by {
                if c < new_idx {
                    assert(groups@[c] == old_groups[c]);
                }
            }
        }
        i = i + 1;
    }
    proof {
        assert forall|j: int| 0 <= j < n implies #[trigger] mapping@[j] == group_of(nr, j) by {
            assert(used@[j]);
        }
        assert forall|j: int| 0 <= j < n implies #[trigger] mapping@[j] < groups@.len() by {
            assert(used@[j]);
        }
        assert forall|j: int| 0 <= j < n implies (#[trigger] groups@[mapping@[j] as int])@.contains(
            j as usize,
        ) by {
            assert(used@[j]);
        }
    }
    proof {
        groups_are_greedy(nr, groups@, mapping@);
    }
    (groups, mapping)
}


proof fn lemma_first_claimer_range(near: Seq<Vec<bool>>, j: int, k: int)
    requires
        0 <= k <= j,
    ensures
        k <= first_claimer(near, j, k) <= j,
        first_claimer(near, j, k) < j ==> is_leader(near, first_claimer(near, j, k))
            && near[first_claimer(near, j, k)]@[j],
    decreases j - k,
{
    if k < j && !(is_leader(near, k) && near[k]@[j]) {
        lemma_first_claimer_range(near, j, k + 1);
    }
}

proof fn lemma_first_claimer_at_most(near: Seq<Vec<bool>>, j: int, k: int, m: int)
    requires
        0 <= m <= k < j,
        is_leader(near, k),
        near[k]@[j],
    ensures
        first_claimer(near, j, m) <= k,
    decreases k - m,
{
    if m < k && !(is_leader(near, m) && near[m]@[j]) {
        lemma_first_claimer_at_most(near, j, k, m + 1);
    }
}

proof fn lemma_claimed_before_witness(near: Seq<Vec<bool>>, j: int, b: int)
    requires
        0 <= b,
        claimed_before(near, j, b),
    ensures
        exists|k: int| 0 <= k < b && is_leader(near, k) && #[trigger] near[k]@[j],
    decreases b,
{
    if b > 0 {
        if claimed_before(near, j, b - 1) {
            lemma_claimed_before_witness(near, j, b - 1);
        } else {
            assert(is_leader(near, b - 1) && near[b - 1]@[j]);
        }
    }
}

/// The owner of every point is a leader at or before it, near it unless it is the point itself.
proof fn lemma_owner_is_leader(near: Seq<Vec<bool>>, j: int)
    requires
        0 <= j,
    ensures
        is_leader(near, owner(near, j)),
        0 <= owner(near, j) <= j,
        owner(near, j) < j ==> near[owner(near, j)]@[j],
{
    lemma_first_claimer_range(near, j, 0);
    if owner(near, j) == j && !is_leader(near, j) {
        lemma_claimed_before_witness(near, j, j);
        let k = choose|k: int| 0 <= k < j && is_leader(near, k) && #[trigger] near[k]@[j];
        lemma_first_claimer_at_most(near, j, k, 0);
    }
}

proof fn lemma_leaders_below_grows(near: Seq<Vec<bool>>, a: int, b: int)
    requires
        0 <= a <= b,
    ensures
        leaders_below(near, a) <= leaders_below(near, b),
        a < b && is_leader(near, a) ==> leaders_below(near, a) < leaders_below(near, b),
    decreases b - a,
{
    if a < b {
        lemma_leaders_below_grows(near, a, b - 1);
        if a == b - 1 {
            assert(leaders_below(near, a + 1) == leaders_below(near, a) + if is_leader(near, a) {
                1nat
            } else {
                0nat
            });
        }
    }
}

/// Leaders with the same group number are the same point.
proof fn lemma_leaders_distinct(near: Seq<Vec<bool>>, a: int, b: int)
    requires
        0 <= a,
        0 <= b,
        is_leader(near, a),
        is_leader(near, b),
        leaders_below(near, a) <= leaders_below(near, b),
    ensures
        a <= b,
        leaders_below(near, a) == leaders_below(near, b) ==> a == b,
{
    if b < a {
        lemma_leaders_below_grows(near, b, a);
    }
    if a < b {
        lemma_leaders_below_grows(near, a, b);
    }
}

/// The first point of group `c` is its leader: the owner of every member.
proof fn lemma_first_member_leads(
    near: Seq<Vec<bool>>,
    groups: Seq<Vec<usize>>,
    mapping: Seq<usize>,
    c: int,
)
    requires
        groups_match(near, groups, mapping),
        0 <= c < groups.len(),
    ensures
        is_leader(near, groups[c]@[0] as int),
        leaders_below(near, groups[c]@[0] as int) == c,
        forall|t: int| 0 <= t < groups[c]@.len() ==> owner(near, #[trigger] groups[c]@[t] as int) == groups[c]@[0] as int,
{
    let g = groups[c]@;
    let f = g[0] as int;
    assert(g.len() > 0);
    assert(mapping[f] == c);
    lemma_owner_is_leader(near, f);
    let o = owner(near, f);
    assert(leaders_below(near, o) == c);
    lemma_leader_owns_itself(near, o);
    assert(o < near.len());
    assert(mapping[o] == group_of(near, o));
    assert(groups[mapping[o] as int]@.contains(o as usize));
    let s = choose|s: int| 0 <= s < g.len() && g[s] == o as usize;
    if s > 0 {
        assert(strictly_increasing(g));
        assert(g[0] < g[s]);
    }
    assert(o == f);
    assert forall|t: int| 0 <= t < g.len() implies owner(near, #[trigger] groups[c]@[t] as int) == f by {
        let j = g[t] as int;
        assert(mapping[j] == c);
        lemma_owner_is_leader(near, j);
        let oj = owner(near, j);
        assert(leaders_below(near, oj) == c);
        lemma_leaders_distinct(near, oj, f);
    }
}

/// The grouping is the greedy one, stated on the groups themselves. With
/// `lead(c)` the first point of group `c`:
/// - every other member of a group comes after its first point and is near it;
/// - the first points come in increasing order, and none is near an earlier one;
/// - no member is near the first point of an earlier group;
/// - every point after `lead(c)` and near it lies in group `c` or an earlier one.
pub proof fn groups_are_greedy(
    near: Seq<Vec<bool>>,
    groups: Seq<Vec<usize>>,
    mapping: Seq<usize>,
)
    requires
        groups_match(near, groups, mapping),
        near.len() <= usize::MAX,
    ensures
        forall|c: int, t: int|
            0 <= c < groups.len() && 0 < t < groups[c]@.len() ==> groups[c]@[0] < (
            #[trigger] groups[c]@[t]) && near[groups[c]@[0] as int]@[groups[c]@[t] as int],
        forall|c1: int, c2: int|
            0 <= c1 < c2 < groups.len() ==> (#[trigger] groups[c1]@[0]) < (
            #[trigger] groups[c2]@[0]) && !near[groups[c1]@[0] as int]@[groups[c2]@[0] as int],
        forall|c1: int, c2: int, t: int|
            0 <= c1 < c2 < groups.len() && 0 <= t < groups[c2]@.len() ==> !near[
            #[trigger] groups[c1]@[0] as int]@[#[trigger] groups[c2]@[t] as int],
        forall|c: int, j: int|
            0 <= c < groups.len() && groups[c]@[0] < j < near.len() && #[trigger] near[
            groups[c]@[0] as int]@[j] ==> #[trigger] mapping[j] <= c,
{
    assert forall|c: int, t: int|
        0 <= c < groups.len() && 0 < t < groups[c]@.len() implies groups[c]@[0] < (
        #[trigger] groups[c]@[t]) && near[groups[c]@[0] as int]@[groups[c]@[t] as int] by {
        lemma_first_member_leads(near, groups, mapping, c);
        let j = groups[c]@[t] as int;
        assert(strictly_increasing(groups[c]@));
        lemma_owner_is_leader(near, j);
    }
    assert forall|c1: int, c2: int, t: int|
        0 <= c1 < c2 < groups.len() && 0 <= t < groups[c2]@.len() implies !near[
        #[trigger] groups[c1]@[0] as int]@[#[trigger] groups[c2]@[t] as int] by {
        lemma_first_member_leads(near, groups, mapping, c1);
        lemma_first_member_leads(near, groups, mapping, c2);
        let l1 = groups[c1]@[0] as int;
        let l2 = groups[c2]@[0] as int;
        let j = groups[c2]@[t] as int;
        lemma_leaders_distinct(near, l1, l2);
        lemma_owner_is_leader(near, j);
        assert(owner(near, j) == l2);
        if near[l1]@[j] {
            if l1 < j {
                lemma_first_claimer_at_most(near, j, l1, 0);
            }
        }
    }
    assert forall|c1: int, c2: int|
        0 <= c1 < c2 < groups.len() implies (#[trigger] groups[c1]@[0]) < (
        #[trigger] groups[c2]@[0]) && !near[groups[c1]@[0] as int]@[groups[c2]@[0] as int] by {
        lemma_first_member_leads(near, groups, mapping, c1);
        lemma_first_member_leads(near, groups, mapping, c2);
        let l1 = groups[c1]@[0] as int;
        let l2 = groups[c2]@[0] as int;
        lemma_leaders_distinct(near, l1, l2);
        assert(!near[l1]@[groups[c2]@[0] as int]);
    }
    assert forall|c: int, j: int|
        0 <= c < groups.len() && groups[c]@[0] < j < near.len() && #[trigger] near[
        groups[c]@[0] as int]@[j] implies #[trigger] mapping[j] <= c by {
        let c2 = mapping[j] as int;
        assert(mapping[j] < groups.len());
        if c2 > c {
            assert(groups[c2]@.contains(j as usize));
            let t = choose|t: int| 0 <= t < groups[c2]@.len() && groups[c2]@[t] == j as usize;
            assert(0 <= c < c2 < groups.len() && 0 <= t < groups[c2]@.len());
            assert(!near[groups[c]@[0] as int]@[groups[c2]@[t] as int]);
            assert(groups[c2]@[t] as int == j);
        }
    }
}

/// Every point lies in exactly one group: the one its mapping names.
pub proof fn each_point_in_exactly_one_group(
    near: Seq<Vec<bool>>,
    groups: Seq<Vec<usize>>,
    mapping: Seq<usize>,
    j: int,
    c: int,
)
    requires
        groups_match(near, groups, mapping),
        0 <= j < near.len(),
        0 <= c < groups.len(),
    ensures
        groups[c]@.contains(j as usize) <==> c == mapping[j],
{
    if groups[c]@.contains(j as usize) {
        let t = choose|t: int| 0 <= t < groups[c]@.len() && groups[c]@[t] == j as usize;
        assert(mapping[groups[c]@[t] as int] == c);
    }
    if c == mapping[j] {
        assert(groups[mapping[j] as int]@.contains(j as usize));
    }
}

proof fn lemma_none_claimed(near: Seq<Vec<bool>>, j: int, b: int)
    requires
        is_square(near),
        0 <= b <= j < near.len(),
        forall|i: int, k: int| 0 <= i < k < near.len() ==> !#[trigger] near[i]@[k],
    ensures
        !claimed_before(near, j, b),
    decreases b,
{
    if b > 0 {
        lemma_none_claimed(near, j, b - 1);
        assert(!near[b - 1]@[j]);
    }
}

proof fn lemma_none_near_all_leaders(near: Seq<Vec<bool>>, k: int)
    requires
        is_square(near),
        0 <= k <= near.len(),
        forall|i: int, j: int| 0 <= i < j < near.len() ==> !#[trigger] near[i]@[j],
    ensures
        leaders_below(near, k) == k,
        forall|j: int| 0 <= j < k ==> is_leader(near, j),
    decreases k,
{
    if k > 0 {
        lemma_none_near_all_leaders(near, k - 1);
        lemma_none_claimed(near, k - 1, k - 1);
    }
}

/// When no two points are close, nothing merges: every point forms its own
/// group and the mapping is the identity.
pub proof fn no_close_points_means_identity(
    near: Seq<Vec<bool>>,
    groups: Seq<Vec<usize>>,
    mapping: Seq<usize>,
)
    requires
        groups_match(near, groups, mapping),
        is_square(near),
        forall|i: int, j: int| 0 <= i < j < near.len() ==> !#[trigger] near[i]@[j],
    ensures
        groups.len() == near.len(),
        forall|j: int| 0 <= j < near.len() ==> #[trigger] mapping[j] == j,
{
    lemma_none_near_all_leaders(near, near.len() as int);
    assert forall|j: int| 0 <= j < near.len() implies #[trigger] mapping[j] == j by {
        lemma_leader_owns_itself(near, j);
        lemma_none_near_all_leaders(near, j);
    }
}

proof fn lemma_claimed_monotone(near: Seq<Vec<bool>>, j: int, a: int, b: int)
    requires
        a <= b,
        claimed_before(near, j, a),
    ensures
        claimed_before(near, j, b),
    decreases b - a,
{
    if a < b {
        lemma_claimed_monotone(near, j, a, b - 1);
    }
}

proof fn lemma_first_leads_all(near: Seq<Vec<bool>>, k: int)
    requires
        1 <= k <= near.len(),
        forall|j: int| 0 < j < near.len() ==> #[trigger] near[0]@[j],
    ensures
        leaders_below(near, k) == 1,
    decreases k,
{
    assert(is_leader(near, 0));
    assert(leaders_below(near, 0) == 0);
    if k > 1 {
        lemma_first_leads_all(near, k - 1);
        assert(claimed_before(near, k - 1, 1));
        lemma_claimed_monotone(near, k - 1, 1, k - 1);
    }
}

/// When the first point is close to every other point, everything merges into one group.
pub proof fn first_close_to_all_means_one_group(
    near: Seq<Vec<bool>>,
    groups: Seq<Vec<usize>>,
    mapping: Seq<usize>,
)
    requires
        groups_match(near, groups, mapping),
        near.len() > 0,
        forall|j: int| 0 < j < near.len() ==> #[trigger] near[0]@[j],
    ensures
        groups.len() == 1,
        forall|j: int| 0 <= j < near.len() ==> #[trigger] mapping[j] == 0,
{
    lemma_first_leads_all(near, near.len() as int);
    assert forall|j: int| 0 <= j < near.len() implies #[trigger] mapping[j] == 0 by {
        assert(mapping[j] < groups.len());
    }
}

} // verus!
