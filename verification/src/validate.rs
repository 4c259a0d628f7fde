//! Pipeline validation: structural checks, missing-dependency detection and
//! cycle detection over the step graph.
//!
//! Validation works on two parallel sequences, the step ids and each step's
//! dependency names. On success it returns a `Plan`: the dependency graph
//! with names resolved to indices, together with a ghost rank that witnesses
//! acyclicity (every dependency has a strictly smaller rank than its
//! dependent). A pipeline with a cycle can carry no such rank, so validation
//! accepts a pipeline exactly when it is non-empty, has unique step ids,
//! resolves every dependency, and is acyclic.

use vstd::prelude::*;
use crate::model::ValidationError;

verus! {

/// Two steps share an id.
pub open spec fn has_duplicate(ids: Seq<Seq<char>>) -> bool {
    exists|i: int, j: int| 0 <= i < j < ids.len() && ids[i] == ids[j]
}

/// The name names some step.
pub open spec fn name_resolves(ids: Seq<Seq<char>>, name: Seq<char>) -> bool {
    exists|j: int| 0 <= j < ids.len() && ids[j] == name
}

/// Every dependency of every step names some step.
pub open spec fn all_deps_resolve(ids: Seq<Seq<char>>, deps: Seq<Seq<Seq<char>>>) -> bool {
    forall|i: int, k: int|
        0 <= i < deps.len() && 0 <= k < deps[i].len() ==> name_resolves(ids, #[trigger] deps[i][k])
}

/// Step `i` names step `j` among its dependencies.
pub open spec fn dep_edge(ids: Seq<Seq<char>>, deps: Seq<Seq<Seq<char>>>, i: int, j: int) -> bool {
    &&& 0 <= i < deps.len()
    &&& 0 <= j < ids.len()
    &&& exists|k: int| 0 <= k < deps[i].len() && deps[i][k] == ids[j]
}

/// A dependency cycle: a path of at least one edge that returns to its
/// starting step.
pub open spec fn is_cycle(ids: Seq<Seq<char>>, deps: Seq<Seq<Seq<char>>>, c: Seq<int>) -> bool {
    &&& c.len() >= 2
    &&& c[0] == c[c.len() - 1]
    &&& forall|k: int| 0 <= k < c.len() - 1 ==> dep_edge(ids, deps, #[trigger] c[k], c[k + 1])
}

pub open spec fn has_cycle(ids: Seq<Seq<char>>, deps: Seq<Seq<Seq<char>>>) -> bool {
    exists|c: Seq<int>| is_cycle(ids, deps, c)
}

/// What validation accepts: a non-empty step list with unique ids whose
/// dependencies all resolve and whose graph is acyclic.
pub open spec fn valid_graph(ids: Seq<Seq<char>>, deps: Seq<Seq<Seq<char>>>) -> bool {
    &&& ids.len() > 0
    &&& !has_duplicate(ids)
    &&& all_deps_resolve(ids, deps)
    &&& !has_cycle(ids, deps)
}


/// Exactly when each validation error is returned.
pub open spec fn spec_error_cause(
    ids: Seq<Seq<char>>,
    deps: Seq<Seq<Seq<char>>>,
    e: ValidationError,
) -> bool {
    match e {
        ValidationError::Empty => ids.len() == 0,
        ValidationError::DuplicateStepId(d) => exists|i: int, j: int|
            0 <= i < j < ids.len() && ids[i] == ids[j] && ids[i] == d@,
        ValidationError::MissingDependency { step, dependency } => {
            &&& !has_duplicate(ids)
            &&& !name_resolves(ids, dependency@)
            &&& exists|i: int, k: int|
                0 <= i < deps.len() && 0 <= k < deps[i].len() && ids[i] == step@ && deps[i][k]
                    == dependency@
        },
        ValidationError::CyclicDependency(path) => {
            &&& !has_duplicate(ids)
            &&& all_deps_resolve(ids, deps)
            &&& exists|c: Seq<int>|
                {
                    &&& is_cycle(ids, deps, c)
                    &&& path.deep_view().len() == c.len()
                    &&& forall|t: int|
                        0 <= t < c.len() ==> #[trigger] path.deep_view()[t] == ids[c[t]]
                }
        },
    }
}

/// A validated pipeline graph: dependencies resolved to indices, with a
/// ghost rank that certifies acyclicity.
pub struct Plan {
    pub ids: Vec<String>,
    pub deps: Vec<Vec<usize>>,
    pub rank: Ghost<Seq<int>>,
}

impl Plan {
    pub open spec fn n(self) -> int {
        self.ids@.len() as int
    }

    pub open spec fn dep_seq(self, i: int) -> Seq<usize> {
        self.deps@[i]@
    }

    pub open spec fn wf(self) -> bool {
        &&& self.deps@.len() == self.n()
        &&& self.rank@.len() == self.n()
        &&& forall|i: int| 0 <= i < self.n() ==> 0 <= #[trigger] self.rank@[i]
        &&& forall|i: int, k: int|
            0 <= i < self.n() && 0 <= k < self.dep_seq(i).len() ==> #[trigger] self.dep_seq(i)[k]
                < self.n()
        &&& forall|i: int, k: int|
            0 <= i < self.n() && 0 <= k < self.dep_seq(i).len() ==> self.rank@[#[trigger] self.dep_seq(
                i,
            )[k] as int] < self.rank@[i]
        &&& forall|i: int, j: int| 0 <= i < j < self.n() ==> self.ids@[i]@ != self.ids@[j]@
    }

    /// Step `i` depends directly on step `j`.
    pub open spec fn edge(self, i: int, j: int) -> bool {
        &&& 0 <= i < self.n()
        &&& 0 <= j < self.n()
        &&& exists|k: int| 0 <= k < self.dep_seq(i).len() && self.dep_seq(i)[k] == j
    }

    /// A cycle among the resolved indices.
    pub open spec fn is_index_cycle(self, c: Seq<int>) -> bool {
        &&& c.len() >= 2
        &&& c[0] == c[c.len() - 1]
        &&& forall|k: int| 0 <= k < c.len() - 1 ==> self.edge(#[trigger] c[k], c[k + 1])
    }
}


impl Plan {
    /// The forward adjacency of the graph: for each step, the steps that
    /// depend on it. Step `j` appears under step `d` exactly when `d` is
    /// among `j`'s resolved dependencies.
    pub fn dependents(&self) -> (r: Vec<Vec<usize>>)
        requires
            self.wf(),
        ensures
            r@.len() == self.n(),
            forall|d: int, t: int|
                0 <= d < self.n() && 0 <= t < r@[d]@.len() ==> #[trigger] r@[d]@[t] < self.n(),
            forall|d: int, x: usize|
                0 <= d < self.n() && (x as int) < self.n() ==> (#[trigger] r@[d]@.contains(x)
                    <==> self.edge(x as int, d)),
    {
        let n = self.ids.len();
        let mut r: Vec<Vec<usize>> = Vec::new();
        let mut d: usize = 0;
        while d < n
            invariant
                d <= n,
                n == self.n(),
                self.wf(),
                r@.len() == d,
                forall|a: int, t: int|
                    0 <= a < d && 0 <= t < r@[a]@.len() ==> #[trigger] r@[a]@[t] < n,
                forall|a: int, x: usize|
                    0 <= a < d && (x as int) < n ==> (#[trigger] r@[a]@.contains(x) <==> self.edge(
                        x as int,
                        a,
                    )),
            decreases n - d,
        {
            let mut row: Vec<usize> = Vec::new();
            let mut j: usize = 0;
            while j < n
                invariant
                    j <= n,
                    d < n,
                    n == self.n(),
                    self.wf(),
                    forall|t: int| 0 <= t < row@.len() ==> #[trigger] row@[t] < n,
                    forall|x: usize|
                        (x as int) < n ==> (#[trigger] row@.contains(x) <==> (x < j && self.edge(
                            x as int,
                            d as int,
                        ))),
                decreases n - j,
            {
                let deps_j = &self.deps[j];
                let m = deps_j.len();
                let mut found = false;
                let mut k: usize = 0;
                while k < m
                    invariant
                        k <= m,
                        j < n,
                        d < n,
                        n == self.n(),
                        m == self.dep_seq(j as int).len(),
                        deps_j == self.deps@[j as int],
                        !found ==> forall|q: int|
                            0 <= q < k ==> #[trigger] self.dep_seq(j as int)[q] != d,
                        found ==> self.edge(j as int, d as int),
                    decreases m - k,
                {
                    if !found && deps_j[k] == d {
                        found = true;
                        proof {
                            assert(self.dep_seq(j as int)[k as int] == d);
                        }
                    }
                    k = k + 1;
                }
                if found {
                    let ghost row0 = row@;
                    row.push(j);
                    proof {
                        assert(row@ == row0.push(j));
                        assert forall|x: usize|
                            (x as int) < n implies (#[trigger] row@.contains(x) <==> (x < j + 1
                            && self.edge(x as int, d as int))) by {
                            if row0.contains(x) {
                                let t = choose|t: int| 0 <= t < row0.len() && row0[t] == x;
                                assert(row@[t] == x);
                                assert(row@.contains(x));
                            }
                            if x == j {
                                assert(row@[row@.len() - 1] == j);
                                assert(row@.contains(x));
                            }
                            if row@.contains(x) && x != j {
                                let t = choose|t: int| 0 <= t < row@.len() && row@[t] == x;
                                assert(t < row0.len());
                                assert(row0[t] == x);
                                assert(row0.contains(x));
                            }
                        }
                    }
                } else {
                    proof {
                        assert(!self.edge(j as int, d as int));
                        assert forall|x: usize|
                            (x as int) < n implies (#[trigger] row@.contains(x) <==> (x < j + 1
                            && self.edge(x as int, d as int))) by {
                            if x == j && row@.contains(x) {
                                assert(x < j);
                            }
                        }
                    }
                }
                j = j + 1;
            }
            r.push(row);
            d = d + 1;
        }
        r
    }
}

/// A dependency's rank is strictly below its dependent's.
pub proof fn lemma_edge_rank(p: Plan, i: int, j: int)
    requires
        p.wf(),
        p.edge(i, j),
    ensures
        p.rank@[j] < p.rank@[i],
{
    let k = choose|k: int| 0 <= k < p.dep_seq(i).len() && p.dep_seq(i)[k] == j;
    assert(p.rank@[p.dep_seq(i)[k] as int] < p.rank@[i]);
}

/// Along any dependency path the rank drops by at least one per edge.
pub proof fn lemma_path_rank(p: Plan, c: Seq<int>)
    requires
        p.wf(),
        c.len() >= 1,
        forall|k: int| 0 <= k < c.len() - 1 ==> p.edge(#[trigger] c[k], c[k + 1]),
        0 <= c[0] < p.n(),
    ensures
        0 <= c[c.len() - 1] < p.n(),
        p.rank@[c[c.len() - 1]] <= p.rank@[c[0]] - (c.len() - 1),
    decreases c.len(),
{
    if c.len() > 1 {
        assert(p.edge(c[0], c[1]));
        lemma_edge_rank(p, c[0], c[1]);
        let rest = c.drop_first();
        assert forall|k: int| 0 <= k < rest.len() - 1 implies p.edge(
            #[trigger] rest[k],
            rest[k + 1],
        ) by {
            assert(p.edge(c[k + 1], c[k + 2]));
        }
        lemma_path_rank(p, rest);
        assert(rest[rest.len() - 1] == c[c.len() - 1]);
    }
}

/// Acyclicity: a well-formed plan admits no index cycle, since the rank
/// would have to drop strictly around the loop.
pub proof fn lemma_wf_plan_acyclic(p: Plan)
    requires
        p.wf(),
    ensures
        forall|c: Seq<int>| !p.is_index_cycle(c),
{
    assert forall|c: Seq<int>| !p.is_index_cycle(c) by {
        if p.is_index_cycle(c) {
            assert(p.edge(c[0], c[1]));
            lemma_path_rank(p, c);
        }
    }
}


/// A validated non-empty plan has an entry point: some step without
/// dependencies, so execution can always begin.
pub proof fn lemma_plan_has_entry(p: Plan, i: int)
    requires
        p.wf(),
        0 <= i < p.n(),
    ensures
        exists|j: int| 0 <= j < p.n() && (#[trigger] p.dep_seq(j)).len() == 0,
    decreases p.rank@[i],
{
    if p.dep_seq(i).len() == 0 {
        assert(p.dep_seq(i).len() == 0);
    } else {
        let d = p.dep_seq(i)[0] as int;
        assert(p.rank@[d] < p.rank@[i]);
        lemma_plan_has_entry(p, d);
    }
}

spec fn count_assigned(s: Seq<Option<usize>>) -> int
    decreases s.len(),
{
    if s.len() == 0 {
        0
    } else {
        count_assigned(s.drop_last()) + if s.last() is Some {
            1int
        } else {
            0int
        }
    }
}

proof fn lemma_count_bounds(s: Seq<Option<usize>>)
    ensures
        0 <= count_assigned(s) <= s.len(),
    decreases s.len(),
{
    if s.len() > 0 {
        lemma_count_bounds(s.drop_last());
    }
}

proof fn lemma_count_update(s: Seq<Option<usize>>, i: int, v: Option<usize>)
    requires
        0 <= i < s.len(),
    ensures
        count_assigned(s.update(i, v)) == count_assigned(s) - (if s[i] is Some {
            1int
        } else {
            0int
        }) + (if v is Some {
            1int
        } else {
            0int
        }),
    decreases s.len(),
{
    let s2 = s.update(i, v);
    if i == s.len() - 1 {
        assert(s2.drop_last() =~= s.drop_last());
    } else {
        assert(s2.drop_last() =~= s.drop_last().update(i, v));
        lemma_count_update(s.drop_last(), i, v);
    }
}

proof fn lemma_count_none_lt(s: Seq<Option<usize>>, i: int)
    requires
        0 <= i < s.len(),
        s[i] is None,
    ensures
        count_assigned(s) < s.len(),
    decreases s.len(),
{
    if i == s.len() - 1 {
        lemma_count_bounds(s.drop_last());
    } else {
        lemma_count_none_lt(s.drop_last(), i);
    }
}

proof fn lemma_count_all_some(s: Seq<Option<usize>>)
    requires
        forall|i: int| 0 <= i < s.len() ==> s[i] is Some,
    ensures
        count_assigned(s) == s.len(),
    decreases s.len(),
{
    if s.len() > 0 {
        lemma_count_all_some(s.drop_last());
    }
}



/// Step `i`'s resolved dependency list contains index `j`.
spec fn idx_edge(deps: Seq<Vec<usize>>, i: int, j: int) -> bool {
    exists|k: int| 0 <= k < deps[i]@.len() && deps[i]@[k] == j
}

/// The trail walked along unranked dependencies closes into a genuine
/// dependency cycle once it revisits the step at position `p`.
proof fn lemma_trail_cycle(
    idv: Seq<Seq<char>>,
    dnv: Seq<Seq<Seq<char>>>,
    dd: Seq<Vec<usize>>,
    trail: Seq<usize>,
    p: int,
    cur: usize,
    n: int,
)
    requires
        idv.len() == n,
        dnv.len() == n,
        dd.len() == n,
        forall|a: int, k: int| 0 <= a < n && 0 <= k < dd[a]@.len() ==> #[trigger] dd[a]@[k] < n,
        forall|a: int| 0 <= a < n ==> #[trigger] dd[a]@.len() == dnv[a].len(),
        forall|a: int, k: int|
            0 <= a < n && 0 <= k < dd[a]@.len() ==> idv[#[trigger] dd[a]@[k] as int] == dnv[a][k],
        0 <= p < trail.len(),
        forall|q: int| 0 <= q < trail.len() ==> #[trigger] trail[q] < n,
        trail[p] == cur,
        forall|q: int|
            0 <= q < trail.len() - 1 ==> #[trigger] idx_edge(dd, trail[q] as int, trail[q + 1] as int),
        idx_edge(dd, trail[trail.len() - 1] as int, cur as int),
    ensures
        is_cycle(
            idv,
            dnv,
            Seq::new(
                (trail.len() - p + 1) as nat,
                |t: int|
                    if t < trail.len() - p {
                        trail[p + t] as int
                    } else {
                        cur as int
                    },
            ),
        ),
{
    let len = trail.len() as int;
    let c = Seq::new(
        (len - p + 1) as nat,
        |t: int|
            if t < len - p {
                trail[p + t] as int
            } else {
                cur as int
            },
    );
    assert(c[0] == cur as int);
    assert(c[c.len() - 1] == cur as int);
    assert forall|k: int| 0 <= k < c.len() - 1 implies dep_edge(
        idv,
        dnv,
        #[trigger] c[k],
        c[k + 1],
    ) by {
        let i1 = c[k];
        assert(i1 == trail[p + k] as int);
        if k + 1 < len - p {
            assert(idx_edge(dd, trail[p + k] as int, trail[p + k + 1] as int));
            let kk = choose|kk: int|
                0 <= kk < dd[i1]@.len() && #[trigger] dd[i1]@[kk] == trail[p + k + 1];
            assert(idv[dd[i1]@[kk] as int] == dnv[i1][kk]);
            assert(dnv[i1][kk] == idv[c[k + 1]]);
        } else {
            assert(p + k == len - 1);
            assert(idx_edge(dd, trail[trail.len() - 1] as int, cur as int));
            let kk = choose|kk: int| 0 <= kk < dd[i1]@.len() && #[trigger] dd[i1]@[kk] == cur as int;
            assert(idv[dd[i1]@[kk] as int] == dnv[i1][kk]);
            assert(dnv[i1][kk] == idv[c[k + 1]]);
        }
    }
}

/// A sequence of distinct values below `n` has at most `n` elements.
proof fn lemma_distinct_below_len(s: Seq<usize>, n: nat)
    requires
        forall|p: int| 0 <= p < s.len() ==> s[p] < n,
        forall|p: int, q: int| 0 <= p < q < s.len() ==> s[p] != s[q],
    ensures
        s.len() <= n,
    decreases n,
{
    if s.len() > n {
        if n == 0 {
            assert(s[0] < 0);
        } else {
            // remove every occurrence of value n - 1 (there is at most one)
            let v = (n - 1) as usize;
            if exists|p: int| 0 <= p < s.len() && s[p] == v {
                let p = choose|p: int| 0 <= p < s.len() && s[p] == v;
                let s2 = s.remove(p);
                assert forall|q: int| 0 <= q < s2.len() implies s2[q] < n - 1 by {
                    if q < p {
                        assert(s2[q] == s[q]);
                        assert(s[q] != v);
                    } else {
                        assert(s2[q] == s[q + 1]);
                        assert(s[q + 1] != v);
                    }
                }
                assert forall|q: int, q2: int| 0 <= q < q2 < s2.len() implies s2[q] != s2[q2] by {
                    if q2 < p {
                    } else if q < p {
                        assert(s2[q] == s[q] && s2[q2] == s[q2 + 1]);
                    } else {
                        assert(s2[q] == s[q + 1] && s2[q2] == s[q2 + 1]);
                    }
                }
                lemma_distinct_below_len(s2, (n - 1) as nat);
            } else {
                assert forall|q: int| 0 <= q < s.len() implies s[q] < n - 1 by {
                    assert(s[q] != v);
                }
                lemma_distinct_below_len(s, (n - 1) as nat);
            }
        }
    }
}


/// Builds the cycle report once the walk has revisited the step at trail
/// position `p`: the returned error carries the step ids from there to the
/// end of the trail and back to the revisited step.
fn cycle_error(
    ids: &Vec<String>,
    dep_names: &Vec<Vec<String>>,
    deps: &Vec<Vec<usize>>,
    trail: &Vec<usize>,
    p: usize,
    cur: usize,
) -> (e: ValidationError)
    requires
        ids@.len() == dep_names@.len(),
        deps@.len() == ids@.len(),
        forall|a: int, k: int|
            0 <= a < deps@.len() && 0 <= k < deps@[a]@.len() ==> #[trigger] deps@[a]@[k]
                < ids@.len(),
        forall|a: int|
            0 <= a < deps@.len() ==> #[trigger] deps@[a]@.len() == dep_names.deep_view()[a].len(),
        forall|a: int, k: int|
            0 <= a < deps@.len() && 0 <= k < deps@[a]@.len() ==> ids.deep_view()[#[trigger] deps@[a]@[k] as int]
                == dep_names.deep_view()[a][k],
        p < trail@.len(),
        forall|q: int| 0 <= q < trail@.len() ==> #[trigger] trail@[q] < ids@.len(),
        trail@[p as int] == cur,
        forall|q: int|
            0 <= q < trail@.len() - 1 ==> #[trigger] idx_edge(
                deps@,
                trail@[q] as int,
                trail@[q + 1] as int,
            ),
        idx_edge(deps@, trail@[trail@.len() - 1] as int, cur as int),
    ensures
        e matches ValidationError::CyclicDependency(path) && exists|c: Seq<int>|
            {
                &&& is_cycle(ids.deep_view(), dep_names.deep_view(), c)
                &&& path.deep_view().len() == c.len()
                &&& forall|t: int|
                    0 <= t < c.len() ==> #[trigger] path.deep_view()[t] == ids.deep_view()[c[t]]
            },
{
    let ghost idv = ids.deep_view();
    let ghost dnv = dep_names.deep_view();
    let n = ids.len();
    proof {
        assert(idv.len() == n);
        assert(dnv.len() == n);
    }
    let len = trail.len();
    let ghost c = Seq::new(
        (trail@.len() - p + 1) as nat,
        |t: int|
            if t < trail@.len() - p {
                trail@[p + t] as int
            } else {
                cur as int
            },
    );
    proof {
        lemma_trail_cycle(idv, dnv, deps@, trail@, p as int, cur, n as int);
    }
    let mut path: Vec<String> = Vec::new();
    let mut t: usize = p;
    while t < len
        invariant
            p <= t <= len,
            len == trail@.len(),
            n == ids@.len(),
            idv == ids.deep_view(),
            idv.len() == n,
            forall|u: int| 0 <= u < trail@.len() ==> #[trigger] trail@[u] < n,
            path@.len() == t - p,
            forall|u: int| 0 <= u < t - p ==> #[trigger] path@[u]@ == idv[trail@[p + u] as int],
        decreases len - t,
    {
        path.push(ids[trail[t]].clone());
        proof {
            assert(idv[trail@[t as int] as int] == ids@[trail@[t as int] as int]@);
        }
        t = t + 1;
    }
    path.push(ids[cur].clone());
    proof {
        assert(idv[cur as int] == ids@[cur as int]@);
        assert(path.deep_view().len() == c.len());
        assert forall|u: int| 0 <= u < c.len() implies #[trigger] path.deep_view()[u] == idv[c[u]] by {
            assert(path.deep_view()[u] == path@[u]@);
            if u < c.len() - 1 {
                assert(path@[u]@ == idv[trail@[p + u] as int]);
            }
        }
    }
    ValidationError::CyclicDependency(path)
}


/// Walks along unranked dependencies from `start` until a step repeats,
/// which closes a dependency cycle; returns the corresponding error.
#[verifier::rlimit(100)]
fn find_cycle(
    ids: &Vec<String>,
    dep_names: &Vec<Vec<String>>,
    deps: &Vec<Vec<usize>>,
    rank: &Vec<Option<usize>>,
    start: usize,
) -> (e: ValidationError)
    requires
        ids@.len() == dep_names@.len(),
        deps@.len() == ids@.len(),
        rank@.len() == ids@.len(),
        forall|a: int, k: int|
            0 <= a < deps@.len() && 0 <= k < deps@[a]@.len() ==> #[trigger] deps@[a]@[k]
                < ids@.len(),
        forall|a: int|
            0 <= a < deps@.len() ==> #[trigger] deps@[a]@.len() == dep_names.deep_view()[a].len(),
        forall|a: int, k: int|
            0 <= a < deps@.len() && 0 <= k < deps@[a]@.len() ==> ids.deep_view()[#[trigger] deps@[a]@[k] as int]
                == dep_names.deep_view()[a][k],
        start < ids@.len(),
        rank@[start as int] is None,
        forall|t: int|
            0 <= t < ids@.len() && #[trigger] rank@[t] is None ==> exists|k: int|
                0 <= k < deps@[t]@.len() && rank@[deps@[t]@[k] as int] is None,
    ensures
        e matches ValidationError::CyclicDependency(path) && exists|c: Seq<int>|
            {
                &&& is_cycle(ids.deep_view(), dep_names.deep_view(), c)
                &&& path.deep_view().len() == c.len()
                &&& forall|t: int|
                    0 <= t < c.len() ==> #[trigger] path.deep_view()[t] == ids.deep_view()[c[t]]
            },
{
    let n = ids.len();
    let mut pos: Vec<Option<usize>> = Vec::new();
    let mut q: usize = 0;
    while q < n
        invariant
            q <= n,
            pos@.len() == q,
            forall|t: int| 0 <= t < q ==> #[trigger] pos@[t] is None,
        decreases n - q,
    {
        pos.push(None);
        q = q + 1;
    }
    let mut trail: Vec<usize> = Vec::new();
    let mut cur: usize = start;
    #[verifier::loop_isolation(false)]
    loop
        invariant
            pos@.len() == n,
            cur < n,
            rank@[cur as int] is None,
            forall|p: int| 0 <= p < trail@.len() ==> #[trigger] trail@[p] < n,
            forall|p: int| 0 <= p < trail@.len() ==> rank@[#[trigger] trail@[p] as int] is None,
            forall|p: int|
                0 <= p < trail@.len() ==> #[trigger] pos@[trail@[p] as int] == Some(p as usize),
            forall|v: int|
                0 <= v < n ==> (#[trigger] pos@[v] matches Some(pp) ==> pp < trail@.len()
                    && trail@[pp as int] == v),
            forall|p: int, p2: int| 0 <= p < p2 < trail@.len() ==> trail@[p] != trail@[p2],
            trail@.len() > 0 ==> idx_edge(deps@, trail@[trail@.len() - 1] as int, cur as int),
            forall|p: int|
                0 <= p < trail@.len() - 1 ==> #[trigger] idx_edge(
                    deps@,
                    trail@[p] as int,
                    trail@[p + 1] as int,
                ),
        decreases n - trail@.len(),
    {
        proof {
            lemma_distinct_below_len(trail@, n as nat);
        }
        let repeat = pos[cur];
        match repeat {
            Some(p) => {
                return cycle_error(ids, dep_names, deps, &trail, p, cur);
            },
            None => {},
        }
        pos.set(cur, Some(trail.len()));
        trail.push(cur);
        let row = &deps[cur];
        let m = row.len();
        let mut next: usize = 0;
        let mut found_next = false;
        for k in 0..m
            invariant
                rank@.len() == n,
                m == row@.len(),
                row == deps@[cur as int],
                forall|t: int| 0 <= t < m ==> #[trigger] row@[t] < n,
                !found_next ==> forall|t: int|
                    0 <= t < k ==> rank@[#[trigger] row@[t] as int] is Some,
                found_next ==> next < n && rank@[next as int] is None && exists|t: int|
                    0 <= t < row@.len() && #[trigger] row@[t] == next,
                cur < n,
        {
            if !found_next {
                let d = row[k];
                if rank[d].is_none() {
                    next = d;
                    found_next = true;
                }
            }
        }
        proof {
            if !found_next {
                let k = choose|k: int|
                    0 <= k < deps@[cur as int]@.len() && rank@[deps@[cur as int]@[k] as int]
                        is None;
                assert(rank@[row@[k] as int] is Some);
            }
            assert(trail@[trail@.len() - 1] == cur);
            let t = choose|t: int| 0 <= t < row@.len() && #[trigger] row@[t] == next;
            assert(deps@[cur as int]@[t] == next);
            assert(idx_edge(deps@, cur as int, next as int));
            lemma_distinct_below_len(trail@, n as nat);
        }
        cur = next;
    }
}

/// Validates a step graph given as parallel vectors: the step ids and, for
/// each step, the names of the steps it depends on.
///
/// Exactly one of the following holds of the result.
/// - `Ok(plan)`: the graph is non-empty, ids are unique, every dependency
///   resolves and no cycle exists; the plan's resolved edges are precisely
///   the named dependencies.
/// - `Err(Empty)`: there are no steps.
/// - `Err(DuplicateStepId(d))`: two steps are both named `d`.
/// - `Err(MissingDependency { step, dependency })`: `step` names
///   `dependency`, which names no step (ids being unique).
/// - `Err(CyclicDependency(path))`: `path` walks existing dependency edges
///   from a step back to itself.
#[verifier::rlimit(100)]
pub fn validate_graph(ids: Vec<String>, dep_names: &Vec<Vec<String>>) -> (r: Result<
    Plan,
    ValidationError,
>)
    requires
        ids@.len() == dep_names@.len(),
    ensures
        (r is Ok <==> valid_graph(ids.deep_view(), dep_names.deep_view())),
        r matches Ok(p) ==> {
            &&& p.wf()
            &&& p.ids == ids
            &&& forall|i: int, j: int|
                p.edge(i, j) <==> dep_edge(ids.deep_view(), dep_names.deep_view(), i, j)
        },
        r matches Err(e) ==> spec_error_cause(ids.deep_view(), dep_names.deep_view(), e),
{
    let ghost idv = ids.deep_view();
    let ghost dnv = dep_names.deep_view();
    let n = ids.len();
    proof {
        assert(idv.len() == n);
        assert(dnv.len() == n);
        assert forall|x: int| 0 <= x < n implies #[trigger] idv[x] == ids@[x]@ by {}
    }
    if n == 0 {
        return Err(ValidationError::Empty);
    }
    // unique ids
    for i in 0..n
        invariant
            n == ids@.len(),
            idv == ids.deep_view(),
            forall|a: int, b: int| 0 <= a < b < n && a < i ==> idv[a] != idv[b],
    {
        for j in (i + 1)..n
            invariant
                n == ids@.len(),
                idv == ids.deep_view(),
                i < n,
                forall|a: int, b: int| 0 <= a < b < n && a < i ==> idv[a] != idv[b],
                forall|b: int| i < b < j ==> idv[i as int] != idv[b],
        {
            if ids[i] == ids[j] {
                proof {
                    assert(idv[i as int] == idv[j as int]);
                }
                return Err(ValidationError::DuplicateStepId(ids[i].clone()));
            }
        }
    }
    // resolve dependency names to indices
    let mut deps: Vec<Vec<usize>> = Vec::new();
    for i in 0..n
        invariant
            n == ids@.len() == dep_names@.len(),
            idv == ids.deep_view(),
            dnv == dep_names.deep_view(),
            !has_duplicate(idv),
            deps@.len() == i,
            forall|a: int| 0 <= a < i ==> #[trigger] deps@[a]@.len() == dnv[a].len(),
            forall|a: int, k: int|
                0 <= a < i && 0 <= k < deps@[a]@.len() ==> #[trigger] deps@[a]@[k] < n,
            forall|a: int, k: int|
                0 <= a < i && 0 <= k < deps@[a]@.len() ==> idv[#[trigger] deps@[a]@[k] as int]
                    == dnv[a][k],
    {
        let row_names = &dep_names[i];
        let m = row_names.len();
        let mut row: Vec<usize> = Vec::new();
        for k in 0..m
            invariant
                n == ids@.len() == dep_names@.len(),
                idv == ids.deep_view(),
                dnv == dep_names.deep_view(),
                !has_duplicate(idv),
                i < n,
                m == dnv[i as int].len(),
                row_names == dep_names@[i as int],
                row@.len() == k,
                forall|t: int| 0 <= t < k ==> #[trigger] row@[t] < n,
                forall|t: int|
                    0 <= t < k ==> idv[#[trigger] row@[t] as int] == dnv[i as int][t],
        {
            let name = &row_names[k];
            proof {
                assert(name@ == dnv[i as int][k as int]);
            }
            let mut found: Option<usize> = None;
            for j in 0..n
                invariant
                    n == ids@.len(),
                    idv == ids.deep_view(),
                    found is None ==> forall|t: int| 0 <= t < j ==> idv[t] != name@,
                    found matches Some(f) ==> f < n && idv[f as int] == name@,
            {
                if found.is_none() && ids[j] == *name {
                    found = Some(j);
                }
            }
            match found {
                Some(j) => {
                    row.push(j);
                },
                None => {
                    proof {
                        assert(!name_resolves(idv, name@));
                    }
                    return Err(
                        ValidationError::MissingDependency {
                            step: ids[i].clone(),
                            dependency: name.clone(),
                        },
                    );
                },
            }
        }
        deps.push(row);
    }
    proof {
        assert forall|a: int, k: int|
            0 <= a < dnv.len() && 0 <= k < dnv[a].len() implies name_resolves(
            idv,
            #[trigger] dnv[a][k],
        ) by {
            assert(idv[deps@[a]@[k] as int] == dnv[a][k]);
        }
    }
    // ranks by repeated removal of steps whose dependencies are all ranked
    let mut rank: Vec<Option<usize>> = Vec::new();
    for i in 0..n
        invariant
            rank@.len() == i,
            forall|t: int| 0 <= t < i ==> #[trigger] rank@[t] is None,
            count_assigned(rank@) == 0,
    {
        proof {
            assert(rank@.push(None).drop_last() =~= rank@);
        }
        rank.push(None);
    }
    let mut assigned: usize = 0;
    let mut level: usize = 0;
    let mut changed = true;
    while changed
        invariant
            n == ids@.len(),
            deps@.len() == n,
            rank@.len() == n,
            forall|a: int, k: int|
                0 <= a < n && 0 <= k < deps@[a]@.len() ==> #[trigger] deps@[a]@[k] < n,
            assigned == count_assigned(rank@),
            assigned <= n,
            level <= assigned,
            forall|t: int|
                0 <= t < n ==> (#[trigger] rank@[t] matches Some(v) ==> v < level),
            forall|t: int, k: int|
                0 <= t < n && 0 <= k < deps@[t]@.len() && rank@[t] is Some ==> {
                    &&& #[trigger] rank@[#[trigger] deps@[t]@[k] as int] is Some
                    &&& rank@[deps@[t]@[k] as int].unwrap() < rank@[t].unwrap()
                },
            !changed ==> forall|t: int|
                0 <= t < n && #[trigger] rank@[t] is None ==> exists|k: int|
                    0 <= k < deps@[t]@.len() && rank@[deps@[t]@[k] as int] is None,
        decreases 2 * (n - assigned) + (if changed {
            1int
        } else {
            0int
        }),
    {
        changed = false;
        let ghost rank0 = rank@;
        let ghost assigned0 = assigned as int;
        for j in 0..n
            invariant
                n == ids@.len(),
                deps@.len() == n,
                rank@.len() == n,
                forall|a: int, k: int|
                    0 <= a < n && 0 <= k < deps@[a]@.len() ==> #[trigger] deps@[a]@[k] < n,
                assigned == count_assigned(rank@),
                assigned <= n,
                level <= assigned,
                rank0.len() == n,
                assigned0 == count_assigned(rank0),
                assigned0 <= assigned,
                changed ==> assigned0 < assigned,
                changed ==> level < assigned,
                forall|t: int|
                    0 <= t < n ==> (#[trigger] rank0[t] matches Some(v) ==> v < level),
                forall|t: int|
                    0 <= t < n ==> (#[trigger] rank@[t] matches Some(v) ==> v <= level),
                forall|t: int|
                    0 <= t < n ==> (rank0[t] matches Some(v) ==> #[trigger] rank@[t] == rank0[t]),
                forall|t: int|
                    0 <= t < n ==> (#[trigger] rank@[t] is Some ==> rank0[t] is Some || rank@[t]
                        == Some(level)),
                forall|t: int, k: int|
                    0 <= t < n && 0 <= k < deps@[t]@.len() && rank@[t] is Some ==> {
                        &&& #[trigger] rank@[#[trigger] deps@[t]@[k] as int] is Some
                        &&& rank@[deps@[t]@[k] as int].unwrap() < rank@[t].unwrap()
                    },
                !changed ==> rank@ == rank0,
                !changed ==> forall|t: int|
                    0 <= t < j && #[trigger] rank@[t] is None ==> exists|k: int|
                        0 <= k < deps@[t]@.len() && rank@[deps@[t]@[k] as int] is None,
        {
            if rank[j].is_none() {
                let row = &deps[j];
                let m = row.len();
                let mut ok = true;
                for k in 0..m
                    invariant
                        rank@.len() == n,
                        m == row@.len(),
                        row == deps@[j as int],
                        forall|t: int| 0 <= t < m ==> #[trigger] row@[t] < n,
                        ok <==> forall|t: int|
                            0 <= t < k ==> (#[trigger] rank@[row@[t] as int] matches Some(v) && v
                                < level),
                {
                    let d = row[k];
                    let dr = rank[d];
                    match dr {
                        Some(v) => {
                            if !(v < level) {
                                ok = false;
                            }
                        },
                        None => {
                            ok = false;
                        },
                    }
                }
                if ok {
                    proof {
                        lemma_count_update(rank@, j as int, Some(level));
                        lemma_count_none_lt(rank@, j as int);
                    }
                    rank.set(j, Some(level));
                    assigned = assigned + 1;
                    changed = true;
                } else {
                    proof {
                        // while nothing has been assigned in this pass, every
                        // ranked step has a rank below the current level, so
                        // the failed check pins an unranked dependency
                        if !changed {
                            let t = choose|t: int|
                                0 <= t < m && !(rank@[#[trigger] row@[t] as int] matches Some(v)
                                    && v < level);
                            assert(rank@[row@[t] as int] is None);
                        }
                    }
                }
            }
        }
        if changed {
            level = level + 1;
        }
    }
    if assigned == n {
        proof {
            assert forall|t: int| 0 <= t < n implies rank@[t] is Some by {
                if rank@[t] is None {
                    lemma_count_none_lt(rank@, t);
                }
            }
        }
        let ghost rk = Seq::new(n as nat, |i: int| rank@[i].unwrap() as int);
        let p = Plan { ids, deps, rank: Ghost(rk) };
        proof {
            assert forall|i: int, j: int|
                p.edge(i, j) <==> dep_edge(idv, dnv, i, j) by {
                if p.edge(i, j) {
                    let k = choose|k: int| 0 <= k < p.dep_seq(i).len() && p.dep_seq(i)[k] == j;
                    assert(idv[p.dep_seq(i)[k] as int] == dnv[i][k]);
                    assert(dnv[i][k] == idv[j]);
                    assert(dep_edge(idv, dnv, i, j));
                }
                if dep_edge(idv, dnv, i, j) {
                    let k = choose|k: int| 0 <= k < dnv[i].len() && dnv[i][k] == idv[j];
                    let j2 = p.dep_seq(i)[k] as int;
                    assert(idv[j2] == dnv[i][k]);
                    if j2 != j {
                        if j2 < j {
                            assert(idv[j2] != idv[j]);
                        } else {
                            assert(idv[j] != idv[j2]);
                        }
                    }
                    assert(p.edge(i, j));
                }
            }
            assert forall|i: int, j: int| 0 <= i < j < p.n() implies p.ids@[i]@ != p.ids@[j]@ by {
                assert(idv[i] == ids@[i]@);
                assert(idv[j] == ids@[j]@);
            }
            assert(p.wf());
            // no cycle can survive the ranks
            if has_cycle(idv, dnv) {
                let c = choose|c: Seq<int>| is_cycle(idv, dnv, c);
                assert forall|k: int| 0 <= k < c.len() - 1 implies p.edge(
                    #[trigger] c[k],
                    c[k + 1],
                ) by {
                    assert(dep_edge(idv, dnv, c[k], c[k + 1]));
                }
                assert(p.is_index_cycle(c));
                lemma_wf_plan_acyclic(p);
            }
        }
        Ok(p)
    } else {
        // some steps could not be ranked: every one of them has an unranked
        // dependency, so a walk along unranked dependencies must revisit a
        // step and close a cycle
        let mut start: usize = 0;
        let mut found_start = false;
        for j in 0..n
            invariant
                rank@.len() == n,
                !found_start ==> forall|t: int| 0 <= t < j ==> #[trigger] rank@[t] is Some,
                found_start ==> start < n && rank@[start as int] is None,
        {
            if !found_start && rank[j].is_none() {
                start = j;
                found_start = true;
            }
        }
        proof {
            if !found_start {
                lemma_count_all_some(rank@);
            }
            assert(all_deps_resolve(idv, dnv));
        }
        Err(find_cycle(&ids, dep_names, &deps, &rank, start))
    }
}

} // verus!
