//! The dependency closure of a set of objects, walked batch by batch: the
//! store asks for the dependencies of each batch of newly reached objects
//! until no object is left to expand.

use vstd::prelude::*;

verus! {

broadcast use vstd::seq_lib::group_seq_properties;

/// The progress of a closure walk: every object reached so far, and those
/// whose dependencies are still to be asked for.
pub struct DependencyWalk {
    closure: Vec<u128>,
    frontier: Vec<u128>,
}

impl DependencyWalk {
    /// The objects reached so far.
    pub closed spec fn reached(&self) -> Set<u128> {
        self.closure@.to_set()
    }

    /// The reached objects whose dependencies are still to be asked for.
    pub closed spec fn pending(&self) -> Seq<u128> {
        self.frontier@
    }

    /// Nothing is reached twice, and the pending objects are reached ones,
    /// each pending once.
    pub closed spec fn well_formed(&self) -> bool {
        &&& self.closure@.no_duplicates()
        &&& self.frontier@.no_duplicates()
        &&& forall|x: u128| self.frontier@.contains(x) ==> self.closure@.contains(x)
    }

    /// Starts a walk from `roots`: each root is reached and pending once.
    pub fn start(roots: &Vec<u128>) -> (w: Self)
        ensures
            w.well_formed(),
            w.reached() == roots@.to_set(),
            w.pending().to_set() == roots@.to_set(),
    {
        let mut w = DependencyWalk { closure: Vec::new(), frontier: Vec::new() };
        proof {
            assert(w.closure@.to_set() =~= Set::empty());
            assert(w.frontier@.to_set() =~= Set::empty());
        }
        w.add_dependencies(roots);
        proof {
            assert(w.reached() =~= roots@.to_set());
            assert(w.pending().to_set() =~= roots@.to_set());
        }
        w
    }

    /// Whether `x` has been reached.
    fn has_reached(&self, x: u128) -> (r: bool)
        ensures
            r == self.closure@.contains(x),
    {
        let mut i: usize = 0;
        while i < self.closure.len()
            invariant
                i <= self.closure@.len(),
                forall|k: int| 0 <= k < i ==> self.closure@[k] != x,
            decreases self.closure@.len() - i,
        {
            if self.closure[i] == x {
                assert(self.closure@[i as int] == x);
                return true;
            }
            i = i + 1;
        }
        false
    }

    /// Records the dependencies the store returned: each one not reached
    /// before becomes reached and pending.
    pub fn add_dependencies(&mut self, dependencies: &Vec<u128>)
        requires
            old(self).well_formed(),
        ensures
            final(self).well_formed(),
            final(self).reached() == old(self).reached() + dependencies@.to_set(),
            final(self).pending().to_set() == old(self).pending().to_set() + (dependencies@.to_set()
                - old(self).reached()),
    {
        let ghost closure0 = self.closure@;
        let ghost frontier0 = self.frontier@;
        let mut i: usize = 0;
        while i < dependencies.len()
            invariant
                i <= dependencies@.len(),
                self.well_formed(),
                forall|x: u128|
                    self.closure@.contains(x) <==> (closure0.contains(x) || dependencies@.take(
                        i as int,
                    ).contains(x)),
                forall|x: u128|
                    self.frontier@.contains(x) <==> (frontier0.contains(x) || (dependencies@.take(
                        i as int,
                    ).contains(x) && !closure0.contains(x))),
            decreases dependencies@.len() - i,
        {
            let d = dependencies[i];
            let ghost c = self.closure@;
            let ghost f = self.frontier@;
            let ghost before = dependencies@.take(i as int);
            let ghost after = dependencies@.take(i + 1);
            proof {
                assert(after =~= before.push(d));
                assert forall|x: u128| after.contains(x) <==> (before.contains(x) || x == d) by {
                    if before.contains(x) {
                        let k = choose|k: int| 0 <= k < before.len() && before[k] == x;
                        assert(after[k] == x);
                    }
                    if x == d {
                        assert(after[i as int] == d);
                    }
                    if after.contains(x) && x != d {
                        let k = choose|k: int| 0 <= k < after.len() && after[k] == x;
                        assert(k < i);
                        assert(before[k] == x);
                    }
                }
            }
            if !self.has_reached(d) {
                self.closure.push(d);
                self.frontier.push(d);
                proof {
                    assert forall|x: u128| self.closure@.contains(x) <==> (c.contains(x) || x == d) by {
                        if c.contains(x) {
                            let k = choose|k: int| 0 <= k < c.len() && c[k] == x;
                            assert(self.closure@[k] == x);
                        }
                        if x == d {
                            assert(self.closure@[c.len() as int] == d);
                        }
                    }
                    assert forall|x: u128| self.frontier@.contains(x) <==> (f.contains(x) || x == d) by {
                        if f.contains(x) {
                            let k = choose|k: int| 0 <= k < f.len() && f[k] == x;
                            assert(self.frontier@[k] == x);
                        }
                        if x == d {
                            assert(self.frontier@[f.len() as int] == d);
                        }
                    }
                    assert(!f.contains(d));
                }
            }
            proof {
                assert forall|x: u128|
                    self.closure@.contains(x) <==> (closure0.contains(x) || after.contains(x)) by {
                    assert(c.contains(x) <==> (closure0.contains(x) || before.contains(x)));
                    assert(after.contains(x) <==> (before.contains(x) || x == d));
                }
            }
            i = i + 1;
        }
        proof {
            assert(dependencies@.take(dependencies@.len() as int) =~= dependencies@);
            assert(self.reached() =~= closure0.to_set() + dependencies@.to_set());
            assert(self.pending().to_set() =~= frontier0.to_set() + (dependencies@.to_set()
                - closure0.to_set()));
        }
    }

    /// Takes the next batch of at most `limit` pending objects, in the order
    /// they were reached; an empty batch means the walk is complete.
    pub fn next_batch(&mut self, limit: usize) -> (batch: Vec<u128>)
        requires
            old(self).well_formed(),
            limit > 0,
        ensures
            final(self).well_formed(),
            final(self).reached() == old(self).reached(),
            batch@ + final(self).pending() == old(self).pending(),
            batch@.len() == if old(self).pending().len() < limit {
                old(self).pending().len()
            } else {
                limit as nat
            },
    {
        let n = if self.frontier.len() < limit {
            self.frontier.len()
        } else {
            limit
        };
        let ghost f = self.frontier@;
        let mut batch: Vec<u128> = Vec::new();
        let mut rest: Vec<u128> = Vec::new();
        let mut i: usize = 0;
        while i < self.frontier.len()
            invariant
                n <= f.len(),
                self.frontier@ == f,
                i <= f.len(),
                batch@ == f.take(if i < n { i as int } else { n as int }),
                rest@ == if i < n { Seq::<u128>::empty() } else { f.subrange(n as int, i as int) },
            decreases f.len() - i,
        {
            if i < n {
                batch.push(self.frontier[i]);
                proof {
                    assert(f.take(i + 1) =~= f.take(i as int).push(f[i as int]));
                }
            } else {
                rest.push(self.frontier[i]);
                proof {
                    assert(f.subrange(n as int, i + 1) =~= f.subrange(n as int, i as int).push(
                        f[i as int],
                    ));
                }
            }
            i = i + 1;
        }
        proof {
            if f.len() < n + 1 {
                assert(rest@ =~= f.subrange(n as int, f.len() as int));
            }
            assert(batch@ + rest@ =~= f);
            assert forall|x: u128| rest@.contains(x) implies f.contains(x) by {
                let k = choose|k: int| 0 <= k < rest@.len() && rest@[k] == x;
                assert(f[n + k] == x);
            }
            assert(rest@.no_duplicates()) by {
                assert forall|a: int, b: int| 0 <= a < b < rest@.len() implies rest@[a] != rest@[b] by {
                    assert(rest@[a] == f[n + a]);
                    assert(rest@[b] == f[n + b]);
                }
            }
        }
        self.frontier = rest;
        batch
    }

    /// The reached objects, in increasing order.
    pub fn finish(self) -> (ids: Vec<u128>)
        requires
            self.well_formed(),
        ensures
            ids@.to_set() == self.reached(),
            forall|a: int, b: int| 0 <= a < b < ids@.len() ==> ids@[a] < ids@[b],
    {
        let mut ids: Vec<u128> = Vec::new();
        let mut i: usize = 0;
        while i < self.closure.len()
            invariant
                i <= self.closure@.len(),
                self.closure@.no_duplicates(),
                forall|a: int, b: int| 0 <= a < b < ids@.len() ==> ids@[a] < ids@[b],
                forall|x: u128| ids@.contains(x) <==> self.closure@.take(i as int).contains(x),
            decreases self.closure@.len() - i,
        {
            let x = self.closure[i];
            proof {
                assert(self.closure@.take(i + 1) =~= self.closure@.take(i as int).push(x));
                assert(!self.closure@.take(i as int).contains(x)) by {
                    if self.closure@.take(i as int).contains(x) {
                        let k = choose|k: int| 0 <= k < i && self.closure@.take(i as int)[k] == x;
                        assert(self.closure@[k] == self.closure@[i as int]);
                    }
                }
            }
            insert_sorted(&mut ids, x);
            i = i + 1;
        }
        proof {
            assert(self.closure@.take(self.closure@.len() as int) =~= self.closure@);
            assert(ids@.to_set() =~= self.closure@.to_set());
        }
        ids
    }
}

/// Inserts `x`, which is not there yet, into an increasing list.
pub(crate) fn insert_sorted(ids: &mut Vec<u128>, x: u128)
    requires
        forall|a: int, b: int| 0 <= a < b < old(ids)@.len() ==> old(ids)@[a] < old(ids)@[b],
        !old(ids)@.contains(x),
    ensures
        forall|a: int, b: int| 0 <= a < b < final(ids)@.len() ==> final(ids)@[a] < final(ids)@[b],
        forall|y: u128| final(ids)@.contains(y) <==> (old(ids)@.contains(y) || y == x),
{
    let ghost s = ids@;
    let mut p: usize = 0;
    while p < ids.len() && ids[p] < x
        invariant
            p <= ids@.len(),
            ids@ == s,
            forall|k: int| 0 <= k < p ==> s[k] < x,
        decreases ids@.len() - p,
    {
        p = p + 1;
    }
    ids.insert(p, x);
    proof {
        assert(ids@ =~= s.subrange(0, p as int).push(x) + s.subrange(p as int, s.len() as int));
        if p < s.len() {
            assert(s[p as int] != x);
            assert(s[p as int] > x);
        }
        assert forall|y: u128| ids@.contains(y) <==> (s.contains(y) || y == x) by {
            if s.contains(y) {
                let k = choose|k: int| 0 <= k < s.len() && s[k] == y;
                if k < p {
                    assert(ids@[k] == y);
                } else {
                    assert(ids@[k + 1] == y);
                }
            }
            if y == x {
                assert(ids@[p as int] == x);
            }
            if ids@.contains(y) {
                let k = choose|k: int| 0 <= k < ids@.len() && ids@[k] == y;
                if k < p {
                    assert(s[k] == y);
                } else if k > p {
                    assert(s[k - 1] == y);
                }
            }
        }
    }
}

/// The dependencies of `x` in a dependency graph.
pub open spec fn deps_of(graph: Map<u128, Seq<u128>>, x: u128) -> Seq<u128> {
    if graph.contains_key(x) {
        graph[x]
    } else {
        Seq::empty()
    }
}

/// Each object of `path` depends on the next.
pub open spec fn is_path(graph: Map<u128, Seq<u128>>, path: Seq<u128>) -> bool {
    forall|i: int| 0 <= i < path.len() - 1 ==> #[trigger] deps_of(graph, path[i]).contains(path[i + 1])
}

/// `x` is reached from one of `roots` by following dependencies.
pub open spec fn reachable(graph: Map<u128, Seq<u128>>, roots: Set<u128>, x: u128) -> bool {
    exists|path: Seq<u128>|
        #[trigger] is_path(graph, path) && path.len() > 0 && roots.contains(path[0]) && path.last() == x
}

/// The dependencies of the objects of a batch.
pub open spec fn batch_dependencies(graph: Map<u128, Seq<u128>>, batch: Seq<u128>) -> Set<u128> {
    Set::new(|d: u128| exists|b: u128| #[trigger] batch.contains(b) && deps_of(graph, b).contains(d))
}

/// What holds between the steps of a walk from `roots`: the roots are
/// reached, the pending objects are reached ones, everything reached is
/// reachable, and the dependencies of every reached object that is no
/// longer pending are reached.
pub open spec fn walk_ok(
    graph: Map<u128, Seq<u128>>,
    roots: Set<u128>,
    reached: Set<u128>,
    pending: Set<u128>,
) -> bool {
    &&& roots.subset_of(reached)
    &&& pending.subset_of(reached)
    &&& forall|x: u128| #[trigger] reached.contains(x) ==> reachable(graph, roots, x)
    &&& forall|x: u128, d: u128|
        reached.contains(x) && !pending.contains(x) && #[trigger] deps_of(graph, x).contains(d)
            ==> reached.contains(d)
}

/// Law: a walk started from `roots` has reached exactly the roots, all of
/// them pending.
pub proof fn law_walk_starts(graph: Map<u128, Seq<u128>>, roots: Set<u128>)
    ensures
        walk_ok(graph, roots, roots, roots),
{
    assert forall|x: u128| #[trigger] roots.contains(x) implies reachable(graph, roots, x) by {
        let path = seq![x];
        assert(is_path(graph, path));
    }
}

/// Law: expanding a batch taken from the front of the pending objects with
/// exactly the batch's dependencies keeps the walk sound.
pub proof fn law_walk_step(
    graph: Map<u128, Seq<u128>>,
    roots: Set<u128>,
    reached: Set<u128>,
    pending: Seq<u128>,
    batch: Seq<u128>,
    rest: Seq<u128>,
    dependencies: Set<u128>,
)
    requires
        walk_ok(graph, roots, reached, pending.to_set()),
        batch + rest == pending,
        dependencies == batch_dependencies(graph, batch),
    ensures
        walk_ok(graph, roots, reached + dependencies, rest.to_set() + (dependencies - reached)),
{
    let reached2 = reached + dependencies;
    let pending2 = rest.to_set() + (dependencies - reached);
    assert forall|x: u128| batch.contains(x) implies pending.contains(x) by {
        let k = choose|k: int| 0 <= k < batch.len() && batch[k] == x;
        assert(pending[k] == x);
    }
    assert forall|x: u128| rest.contains(x) implies pending.contains(x) by {
        let k = choose|k: int| 0 <= k < rest.len() && rest[k] == x;
        assert(pending[batch.len() + k] == x);
    }
    assert forall|x: u128| pending.contains(x) implies batch.contains(x) || rest.contains(x) by {
        let k = choose|k: int| 0 <= k < pending.len() && pending[k] == x;
        if k < batch.len() {
            assert(batch[k] == x);
        } else {
            assert(rest[k - batch.len()] == x);
        }
    }
    assert(pending2.subset_of(reached2));
    assert forall|d: u128| #[trigger] reached2.contains(d) implies reachable(graph, roots, d) by {
        if !reached.contains(d) {
            let b = choose|b: u128| #[trigger] batch.contains(b) && deps_of(graph, b).contains(d);
            assert(pending.to_set().contains(b));
            assert(reached.contains(b));
            let path = choose|path: Seq<u128>|
                #[trigger] is_path(graph, path) && path.len() > 0 && roots.contains(path[0])
                    && path.last() == b;
            let longer = path.push(d);
            assert forall|i: int| 0 <= i < longer.len() - 1 implies #[trigger] deps_of(graph, longer[i]).contains(
                longer[i + 1],
            ) by {
                if i < path.len() - 1 {
                    assert(deps_of(graph, path[i]).contains(path[i + 1]));
                }
            }
            assert(is_path(graph, longer));
        }
    }
    assert forall|x: u128, d: u128|
        reached2.contains(x) && !pending2.contains(x) && #[trigger] deps_of(graph, x).contains(d)
        implies reached2.contains(d) by {
        assert(reached.contains(x));
        if batch.contains(x) {
            assert(dependencies.contains(d));
        } else {
            assert(!rest.contains(x));
            assert(!pending.to_set().contains(x));
        }
    }
}

/// Every object on a path from a root lies in a set that holds the roots
/// and is closed under dependencies.
proof fn lemma_path_stays(
    graph: Map<u128, Seq<u128>>,
    roots: Set<u128>,
    reached: Set<u128>,
    path: Seq<u128>,
    k: int,
)
    requires
        walk_ok(graph, roots, reached, Set::empty()),
        is_path(graph, path),
        path.len() > 0,
        roots.contains(path[0]),
        0 <= k < path.len(),
    ensures
        reached.contains(path[k]),
    decreases k,
{
    if k > 0 {
        lemma_path_stays(graph, roots, reached, path, k - 1);
        let i = k - 1;
        assert(deps_of(graph, path[i]).contains(path[i + 1]));
    }
}

/// Law: when nothing is pending any more, the walk has reached exactly the
/// objects reachable from its roots.
pub proof fn law_walk_ends(graph: Map<u128, Seq<u128>>, roots: Set<u128>, reached: Set<u128>)
    requires
        walk_ok(graph, roots, reached, Set::empty()),
    ensures
        reached == Set::new(|x: u128| reachable(graph, roots, x)),
{
    assert forall|x: u128| reachable(graph, roots, x) implies reached.contains(x) by {
        let path = choose|path: Seq<u128>|
            #[trigger] is_path(graph, path) && path.len() > 0 && roots.contains(path[0]) && path.last() == x;
        lemma_path_stays(graph, roots, reached, path, path.len() - 1);
    }
    assert(reached =~= Set::new(|x: u128| reachable(graph, roots, x)));
}

} // verus!
