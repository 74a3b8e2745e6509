//! Revision ancestry over the parent links of projected revisions.

use vstd::prelude::*;
use std::collections::HashMap;

verus! {

broadcast use vstd::std_specs::hash::group_hash_axioms;

/// The parent recorded for `r`; `None` for a root revision or one the map
/// does not know.
pub open spec fn parent_of(parents: Map<u128, Option<u128>>, r: u128) -> Option<u128> {
    if parents.contains_key(r) {
        parents[r]
    } else {
        None
    }
}

/// The `k`-th ancestor of `r` (`r` itself for `k == 0`), `None` once the
/// chain of parents has ended.
pub open spec fn ancestor_at(parents: Map<u128, Option<u128>>, r: u128, k: nat) -> Option<u128>
    decreases k,
{
    if k == 0 {
        Some(r)
    } else {
        match ancestor_at(parents, r, (k - 1) as nat) {
            Some(x) => parent_of(parents, x),
            None => None,
        }
    }
}

/// The chain of parents from `r` has exactly `n` links.
pub open spec fn chain_ends_at(parents: Map<u128, Option<u128>>, r: u128, n: nat) -> bool {
    &&& ancestor_at(parents, r, n) is Some
    &&& parent_of(parents, ancestor_at(parents, r, n).unwrap()) is None
}

/// Following parents from `r` ends after finitely many links (there is no
/// cycle on the way).
pub open spec fn has_finite_ancestry(parents: Map<u128, Option<u128>>, r: u128) -> bool {
    exists|n: nat| chain_ends_at(parents, r, n)
}

/// The number of parent links from `r` to its root.
pub open spec fn depth(parents: Map<u128, Option<u128>>, r: u128) -> nat {
    choose|n: nat| chain_ends_at(parents, r, n)
}

/// `a` is reached from `d` by following one or more parent links.
pub open spec fn is_strict_ancestor(parents: Map<u128, Option<u128>>, a: u128, d: u128) -> bool {
    exists|k: nat| k >= 1 && ancestor_at(parents, d, k) == Some(a)
}

/// Past the end of a chain every ancestor is `None`; before it, `Some`.
pub proof fn lemma_chain_shape(parents: Map<u128, Option<u128>>, r: u128, n: nat, k: nat)
    requires
        chain_ends_at(parents, r, n),
    ensures
        k <= n ==> ancestor_at(parents, r, k) is Some,
        k > n ==> ancestor_at(parents, r, k) is None,
    decreases k,
{
    if k <= n {
        lemma_prefix_some(parents, r, n, k);
    } else if k > n + 1 {
        lemma_chain_shape(parents, r, n, (k - 1) as nat);
    }
}

proof fn lemma_prefix_some(parents: Map<u128, Option<u128>>, r: u128, n: nat, k: nat)
    requires
        ancestor_at(parents, r, n) is Some,
        k <= n,
    ensures
        ancestor_at(parents, r, k) is Some,
    decreases n - k,
{
    if k < n {
        lemma_prefix_some(parents, r, n, k + 1);
    }
}

/// The length of a finite chain is unique, so [`depth`] is that length.
pub proof fn lemma_depth_unique(parents: Map<u128, Option<u128>>, r: u128, n: nat)
    requires
        chain_ends_at(parents, r, n),
    ensures
        depth(parents, r) == n,
{
    let m = depth(parents, r);
    assert(chain_ends_at(parents, r, m));
    lemma_chain_shape(parents, r, n, m);
    lemma_chain_shape(parents, r, m, n);
}

/// Walking `j` links from the `k`-th ancestor is walking `k + j` links.
pub proof fn lemma_ancestor_compose(parents: Map<u128, Option<u128>>, r: u128, k: nat, j: nat)
    requires
        ancestor_at(parents, r, k) is Some,
    ensures
        ancestor_at(parents, ancestor_at(parents, r, k).unwrap(), j) == ancestor_at(
            parents,
            r,
            k + j,
        ),
    decreases j,
{
    if j > 0 {
        lemma_ancestor_compose(parents, r, k, (j - 1) as nat);
    }
}

/// Law: a strict ancestor of a revision with a finite ancestry lies
/// strictly closer to the root, so ancestry has no cycles.
pub proof fn law_ancestor_is_shallower(parents: Map<u128, Option<u128>>, a: u128, d: u128)
    requires
        has_finite_ancestry(parents, d),
        is_strict_ancestor(parents, a, d),
    ensures
        has_finite_ancestry(parents, a),
        depth(parents, a) < depth(parents, d),
        !is_strict_ancestor(parents, d, a),
{
    let n = depth(parents, d);
    assert(chain_ends_at(parents, d, n));
    let k = choose|k: nat| k >= 1 && ancestor_at(parents, d, k) == Some(a);
    lemma_chain_shape(parents, d, n, k);
    assert(k <= n);
    let m = (n - k) as nat;
    lemma_ancestor_compose(parents, d, k, m);
    assert(chain_ends_at(parents, a, m));
    lemma_depth_unique(parents, a, m);
    if is_strict_ancestor(parents, d, a) {
        let j = choose|j: nat| j >= 1 && ancestor_at(parents, a, j) == Some(d);
        lemma_chain_shape(parents, a, m, j);
        lemma_ancestor_compose(parents, d, k, j);
        lemma_ancestor_compose(parents, d, k + j, n);
        assert(ancestor_at(parents, d, k + j) == Some(d));
        assert(chain_ends_at(parents, d, k + j + n));
        lemma_depth_unique(parents, d, k + j + n);
    }
}

/// Looks up the parent of `r` in the map.
fn lookup_parent(parents: &HashMap<u128, Option<u128>>, r: u128) -> (p: Option<u128>)
    ensures
        p == parent_of(parents@, r),
{
    match parents.get(&r) {
        Some(Some(parent)) => Some(*parent),
        _ => None,
    }
}

/// Whether `ancestor` is reached from `descendant` by one or more parent
/// links.
pub fn revision_is_ancestor(
    parents: &HashMap<u128, Option<u128>>,
    ancestor: u128,
    descendant: u128,
) -> (r: bool)
    requires
        has_finite_ancestry(parents@, descendant),
    ensures
        r == is_strict_ancestor(parents@, ancestor, descendant),
{
    let ghost n = depth(parents@, descendant);
    let ghost mut k: nat = 0;
    let mut current = descendant;
    loop
        invariant
            chain_ends_at(parents@, descendant, n),
            k <= n,
            ancestor_at(parents@, descendant, k) == Some(current),
            forall|j: nat| 1 <= j <= k ==> ancestor_at(parents@, descendant, j) != Some(ancestor),
        decreases n - k,
    {
        match lookup_parent(parents, current) {
            Some(parent) => {
                proof {
                    lemma_chain_shape(parents@, descendant, n, k + 1);
                    if k == n {
                        assert(false);
                    }
                }
                if parent == ancestor {
                    assert(ancestor_at(parents@, descendant, k + 1) == Some(ancestor));
                    return true;
                }
                current = parent;
                proof {
                    k = k + 1;
                }
            },
            None => {
                proof {
                    assert forall|j: nat| j >= 1 implies ancestor_at(parents@, descendant, j)
                        != Some(ancestor) by {
                        if j > k {
                            assert(ancestor_at(parents@, descendant, (k + 1) as nat) is None);
                            lemma_none_stays(parents@, descendant, (k + 1) as nat, j);
                        }
                    }
                }
                return false;
            },
        }
    }
}

proof fn lemma_none_stays(parents: Map<u128, Option<u128>>, r: u128, k: nat, j: nat)
    requires
        ancestor_at(parents, r, k) is None,
        k <= j,
    ensures
        ancestor_at(parents, r, j) is None,
    decreases j - k,
{
    if k < j {
        lemma_none_stays(parents, r, k, (j - 1) as nat);
    }
}

/// The number of parent links from `revision` to its root.
pub fn revision_depth(parents: &HashMap<u128, Option<u128>>, revision: u128) -> (d: usize)
    requires
        has_finite_ancestry(parents@, revision),
        depth(parents@, revision) <= usize::MAX,
    ensures
        d == depth(parents@, revision),
{
    let ghost n = depth(parents@, revision);
    let mut current = revision;
    let mut d: usize = 0;
    loop
        invariant
            chain_ends_at(parents@, revision, n),
            n <= usize::MAX,
            d <= n,
            ancestor_at(parents@, revision, d as nat) == Some(current),
        decreases n - d,
    {
        match lookup_parent(parents, current) {
            Some(parent) => {
                proof {
                    lemma_chain_shape(parents@, revision, n, (d + 1) as nat);
                }
                current = parent;
                d = d + 1;
            },
            None => {
                proof {
                    assert(chain_ends_at(parents@, revision, d as nat));
                    lemma_depth_unique(parents@, revision, d as nat);
                }
                return d;
            },
        }
    }
}

/// Once the `k`-th ancestor repeats the `j`-th (`j < k`), the chain goes
/// round for ever: every ancestor exists.
proof fn lemma_cycle_never_ends(parents: Map<u128, Option<u128>>, r: u128, j: nat, k: nat, m: nat)
    requires
        j < k,
        ancestor_at(parents, r, k) is Some,
        ancestor_at(parents, r, j) == ancestor_at(parents, r, k),
    ensures
        ancestor_at(parents, r, m) is Some,
    decreases m,
{
    if m <= k {
        lemma_prefix_some(parents, r, k, m);
    } else {
        lemma_prefix_some(parents, r, k, j);
        lemma_ancestor_compose(parents, r, k, (m - k) as nat);
        lemma_ancestor_compose(parents, r, j, (m - k) as nat);
        lemma_cycle_never_ends(parents, r, j, k, (j + m - k) as nat);
    }
}

/// A repeated ancestor means the ancestry is not finite.
proof fn lemma_cycle_is_infinite(parents: Map<u128, Option<u128>>, r: u128, j: nat, k: nat)
    requires
        j < k,
        ancestor_at(parents, r, k) is Some,
        ancestor_at(parents, r, j) == ancestor_at(parents, r, k),
    ensures
        !has_finite_ancestry(parents, r),
{
    if has_finite_ancestry(parents, r) {
        let n = choose|n: nat| chain_ends_at(parents, r, n);
        lemma_cycle_never_ends(parents, r, j, k, n + 1);
    }
}

/// Whether following parents from `revision` ends (no cycle on the way).
/// When it does, the chain is no longer than the map has entries.
pub fn revision_chain_ends(parents: &HashMap<u128, Option<u128>>, revision: u128) -> (b: bool)
    ensures
        b == has_finite_ancestry(parents@, revision),
        b ==> depth(parents@, revision) <= parents@.len(),
{
    let mut visited: Vec<u128> = Vec::new();
    let mut current = revision;
    let ghost mut k: nat = 0;
    proof {
        assert(parents@.dom().finite());
    }
    loop
        invariant
            parents@.dom().finite(),
            visited@.len() == k,
            k <= parents@.dom().len(),
            ancestor_at(parents@, revision, k) == Some(current),
            visited@.no_duplicates(),
            forall|i: int|
                0 <= i < k ==> ancestor_at(parents@, revision, i as nat) == Some(#[trigger] visited@[i]),
            forall|i: int| 0 <= i < k ==> parents@.dom().contains(#[trigger] visited@[i]),
        decreases parents@.dom().len() - visited@.len(),
    {
        let mut seen = false;
        let mut i: usize = 0;
        while i < visited.len()
            invariant_except_break
                !seen,
            invariant
                i <= visited@.len(),
                forall|t: int| 0 <= t < i ==> visited@[t] != current,
            ensures
                seen ==> i < visited@.len() && visited@[i as int] == current,
                !seen ==> forall|t: int| 0 <= t < visited@.len() ==> visited@[t] != current,
            decreases visited@.len() - i,
        {
            if visited[i] == current {
                seen = true;
                break;
            }
            i = i + 1;
        }
        if seen {
            proof {
                lemma_cycle_is_infinite(parents@, revision, i as nat, k);
            }
            return false;
        }
        match parents.get(&current) {
            Some(Some(p)) => {
                let p = *p;
                proof {
                    let next = visited@.push(current);
                    assert(next.no_duplicates()) by {
                        assert forall|a: int, b: int|
                            0 <= a < next.len() && 0 <= b < next.len() && a != b implies next[a]
                                != next[b] by {
                            if b == next.len() - 1 {
                                assert(next[a] == visited@[a]);
                            } else if a == next.len() - 1 {
                                assert(next[b] == visited@[b]);
                            } else {
                                assert(next[a] == visited@[a] && next[b] == visited@[b]);
                            }
                        }
                    }
                    assert(next.to_set().subset_of(parents@.dom())) by {
                        assert forall|x: u128| next.to_set().contains(x) implies parents@.dom().contains(x) by {
                            assert(next.contains(x));
                            let t = choose|t: int| 0 <= t < next.len() && next[t] == x;
                            if t < visited@.len() {
                                assert(next[t] == visited@[t]);
                            }
                        }
                    }
                    next.unique_seq_to_set();
                    vstd::set_lib::lemma_len_subset(next.to_set(), parents@.dom());
                }
                visited.push(current);
                current = p;
                proof {
                    k = k + 1;
                }
            },
            _ => {
                proof {
                    assert(chain_ends_at(parents@, revision, k));
                    lemma_depth_unique(parents@, revision, k);
                }
                return true;
            },
        }
    }
}

} // verus!
