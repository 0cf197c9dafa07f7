//! Grouping diff regions into clusters: the connected components of the
//! "close enough to merge" relation between regions.
//!
//! Which pairs of regions are close is decided from their geometry; this
//! module takes that relation as a square boolean matrix and computes the
//! components, the split of small components into single regions, and the
//! severity of each cluster.
use vstd::prelude::*;

use crate::issues::DiffSeverity;

verus! {

// ---------------------------------------------------------------------------
// The relation and its components
// ---------------------------------------------------------------------------

/// The matrix of the relation, as sequences.
pub open spec fn matrix(adj: Seq<Vec<bool>>) -> Seq<Seq<bool>> {
    adj.map_values(|row: Vec<bool>| row@)
}

/// Every row has one entry per region.
pub open spec fn is_square(a: Seq<Seq<bool>>) -> bool {
    forall|i: int| 0 <= i < a.len() ==> #[trigger] a[i].len() == a.len()
}

/// Regions `u` and `v` are close: the pair is marked in either order.
pub open spec fn linked(a: Seq<Seq<bool>>, u: int, v: int) -> bool {
    a[u][v] || a[v][u]
}

/// `p` is a walk through the regions, each step between close regions.
pub open spec fn is_walk(a: Seq<Seq<bool>>, p: Seq<int>) -> bool {
    &&& p.len() >= 1
    &&& forall|k: int| 0 <= k < p.len() ==> 0 <= #[trigger] p[k] < a.len()
    &&& forall|k: int| 0 <= k < p.len() - 1 ==> linked(a, #[trigger] p[k], p[k + 1])
}

/// Regions `u` and `v` lie in one component: a walk leads from `u` to `v`.
pub open spec fn connected(a: Seq<Seq<bool>>, u: int, v: int) -> bool {
    exists|p: Seq<int>| #[trigger] is_walk(a, p) && p[0] == u && p.last() == v
}

/// `r` is the least region of its component.
pub open spec fn is_root(a: Seq<Seq<bool>>, r: int) -> bool {
    forall|j: int| 0 <= j < r ==> !#[trigger] connected(a, j, r)
}

/// The indices `0..n`.
pub open spec fn indices(n: nat) -> Seq<usize> {
    Seq::new(n, |i: int| i as usize)
}

/// The regions of the component of `r`, in ascending order.
pub open spec fn component(a: Seq<Seq<bool>>, r: int) -> Seq<usize> {
    indices(a.len()).filter(|i: usize| connected(a, r, i as int))
}

/// Each region as a group of its own.
pub open spec fn singletons(s: Seq<usize>) -> Seq<Seq<usize>> {
    s.map_values(|i: usize| seq![i])
}

/// The clusters of the first `upto` roots: each component, in the order of
/// its least region, whole when it has at least `min_size` regions and
/// region by region otherwise.
pub open spec fn clusters_upto(a: Seq<Seq<bool>>, min_size: nat, upto: int) -> Seq<Seq<usize>>
    decreases upto,
{
    if upto <= 0 {
        Seq::empty()
    } else {
        let prev = clusters_upto(a, min_size, upto - 1);
        let r = upto - 1;
        if is_root(a, r) {
            let c = component(a, r);
            if c.len() >= min_size {
                prev.push(c)
            } else {
                prev + singletons(c)
            }
        } else {
            prev
        }
    }
}

pub open spec fn clusters(a: Seq<Seq<bool>>, min_size: nat) -> Seq<Seq<usize>> {
    clusters_upto(a, min_size, a.len() as int)
}

// ---------------------------------------------------------------------------
// Facts about walks
// ---------------------------------------------------------------------------

proof fn lemma_walk_single(a: Seq<Seq<bool>>, u: int)
    requires
        0 <= u < a.len(),
    ensures
        connected(a, u, u),
{
    let p = seq![u];
    assert(is_walk(a, p));
}

proof fn lemma_walk_extend(a: Seq<Seq<bool>>, s: int, u: int, v: int)
    requires
        connected(a, s, u),
        0 <= v < a.len(),
        linked(a, u, v),
    ensures
        connected(a, s, v),
{
    let p = choose|p: Seq<int>| #[trigger] is_walk(a, p) && p[0] == s && p.last() == u;
    let q = p.push(v);
    assert forall|k: int| 0 <= k < q.len() - 1 implies linked(a, #[trigger] q[k], q[k + 1]) by {
        if k < p.len() - 1 {
            assert(q[k] == p[k] && q[k + 1] == p[k + 1]);
        }
    }
    assert(is_walk(a, q));
}

proof fn lemma_connected_symmetric(a: Seq<Seq<bool>>, u: int, v: int)
    requires
        connected(a, u, v),
    ensures
        connected(a, v, u),
{
    let p = choose|p: Seq<int>| #[trigger] is_walk(a, p) && p[0] == u && p.last() == v;
    let q = p.reverse();
    assert forall|k: int| 0 <= k < q.len() - 1 implies linked(a, #[trigger] q[k], q[k + 1]) by {
        let j = p.len() - 2 - k;
        assert(linked(a, p[j], p[j + 1]));
        assert(q[k] == p[j + 1] && q[k + 1] == p[j]);
    }
    assert forall|k: int| 0 <= k < q.len() implies 0 <= #[trigger] q[k] < a.len() by {
        assert(q[k] == p[p.len() - 1 - k]);
    }
    assert(is_walk(a, q));
}

proof fn lemma_connected_transitive(a: Seq<Seq<bool>>, u: int, v: int, w: int)
    requires
        connected(a, u, v),
        connected(a, v, w),
    ensures
        connected(a, u, w),
{
    let p = choose|p: Seq<int>| #[trigger] is_walk(a, p) && p[0] == u && p.last() == v;
    let q = choose|q: Seq<int>| #[trigger] is_walk(a, q) && q[0] == v && q.last() == w;
    let r = p + q.drop_first();
    assert forall|k: int| 0 <= k < r.len() implies 0 <= #[trigger] r[k] < a.len() by {
        if k >= p.len() {
            assert(r[k] == q[k - p.len() + 1]);
        }
    }
    assert forall|k: int| 0 <= k < r.len() - 1 implies linked(a, #[trigger] r[k], r[k + 1]) by {
        if k < p.len() - 1 {
            assert(linked(a, p[k], p[k + 1]));
        } else if k == p.len() - 1 {
            assert(r[k] == q[0] && r[k + 1] == q[1]);
            assert(linked(a, q[0], q[1]));
        } else {
            let j = k - p.len() + 1;
            assert(r[k] == q[j] && r[k + 1] == q[j + 1]);
            assert(linked(a, q[j], q[j + 1]));
        }
    }
    assert(is_walk(a, r));
    if q.len() == 1 {
        assert(r.last() == p.last());
    } else {
        assert(r.last() == q.last());
    }
}

/// A set of labels closed under the relation keeps every walk inside one label.
proof fn lemma_closed_walk(a: Seq<Seq<bool>>, labels: Seq<usize>, p: Seq<int>)
    requires
        labels.len() == a.len(),
        is_walk(a, p),
        forall|u: int, v: int|
            0 <= u < a.len() && 0 <= v < a.len() && labels[u] != a.len() && #[trigger] linked(
                a,
                u,
                v,
            ) ==> labels[v] == labels[u],
        labels[p[0]] != a.len(),
    ensures
        labels[p.last()] == labels[p[0]],
    decreases p.len(),
{
    if p.len() > 1 {
        let q = p.drop_last();
        assert(is_walk(a, q)) by {
            assert forall|k: int| 0 <= k < q.len() - 1 implies linked(a, #[trigger] q[k], q[k + 1]) by {
                assert(linked(a, p[k], p[k + 1]));
            }
            assert forall|k: int| 0 <= k < q.len() implies 0 <= #[trigger] q[k] < a.len() by {
                assert(p[k] == q[k]);
            }
        }
        lemma_closed_walk(a, labels, q);
        assert(linked(a, p[p.len() - 2], p[p.len() - 1]));
    }
}

// ---------------------------------------------------------------------------
// Labelling the components
// ---------------------------------------------------------------------------

/// How many entries of `s` equal `x`.
spec fn count_of(s: Seq<usize>, x: usize) -> nat
    decreases s.len(),
{
    if s.len() == 0 {
        0
    } else {
        count_of(s.drop_last(), x) + if s.last() == x {
            1nat
        } else {
            0nat
        }
    }
}

proof fn lemma_count_update(s: Seq<usize>, i: int, x: usize, y: usize)
    requires
        0 <= i < s.len(),
        s[i] == x,
        y != x,
    ensures
        count_of(s.update(i, y), x) + 1 == count_of(s, x),
    decreases s.len(),
{
    let t = s.update(i, y);
    if i == s.len() - 1 {
        assert(t.drop_last() =~= s.drop_last());
    } else {
        assert(t.drop_last() =~= s.drop_last().update(i, y));
        lemma_count_update(s.drop_last(), i, x, y);
    }
}

fn is_linked(adj: &Vec<Vec<bool>>, u: usize, v: usize) -> (b: bool)
    requires
        is_square(matrix(adj@)),
        u < adj@.len(),
        v < adj@.len(),
    ensures
        b == linked(matrix(adj@), u as int, v as int),
{
    proof {
        assert(matrix(adj@)[u as int].len() == adj@.len());
        assert(matrix(adj@)[v as int].len() == adj@.len());
    }
    adj[u][v] || adj[v][u]
}

/// Labels every region with the least region of its component.
pub fn component_labels(adj: &Vec<Vec<bool>>) -> (labels: Vec<usize>)
    requires
        is_square(matrix(adj@)),
    ensures
        labels@.len() == adj@.len(),
        forall|i: int|
            0 <= i < adj@.len() ==> #[trigger] labels@[i] <= i && connected(
                matrix(adj@),
                labels@[i] as int,
                i,
            ),
        forall|i: int, j: int|
            0 <= i < adj@.len() && 0 <= j < adj@.len() && #[trigger] connected(matrix(adj@), j, i)
                ==> labels@[i] <= j,
{
    let ghost a = matrix(adj@);
    let n = adj.len();
    let mut labels: Vec<usize> = Vec::new();
    for i in 0..n
        invariant
            labels@.len() == i,
            forall|k: int| 0 <= k < i ==> labels@[k] == n,
    {
        labels.push(n);
    }
    for s in 0..n
        invariant
            a == matrix(adj@),
            is_square(a),
            n == a.len(),
            labels@.len() == n,
            forall|i: int| 0 <= i < s ==> #[trigger] labels@[i] != n,
            forall|i: int|
                0 <= i < n && #[trigger] labels@[i] != n ==> labels@[i] < s && labels@[i] <= i
                    && connected(a, labels@[i] as int, i),
            forall|u: int, v: int|
                0 <= u < n && 0 <= v < n && labels@[u] != n && #[trigger] linked(a, u, v)
                    ==> labels@[v] == labels@[u],
    {
        if labels[s] == n {
            proof {
                lemma_count_update(labels@, s as int, n, s);
                lemma_walk_single(a, s as int);
            }
            labels.set(s, s);
            let mut stack: Vec<usize> = Vec::new();
            stack.push(s);
            proof {
                assert(stack@[0] == s);
                assert forall|u: int, v: int|
                    0 <= u < n && 0 <= v < n && labels@[u] == s && !stack@.contains(u as usize)
                        && #[trigger] linked(a, u, v) implies labels@[v] == s by {
                    if u != s {
                        assert(labels@[u] != n);
                    }
                }
            }
            while stack.len() > 0
                invariant
                    a == matrix(adj@),
                    is_square(a),
                    n == a.len(),
                    s < n,
                    labels@.len() == n,
                    labels@[s as int] == s,
                    forall|i: int| 0 <= i < s ==> #[trigger] labels@[i] != n && labels@[i] < s,
                    forall|i: int|
                        0 <= i < n && #[trigger] labels@[i] != n ==> labels@[i] <= s
                            && labels@[i] <= i && connected(a, labels@[i] as int, i),
                    forall|u: int, v: int|
                        0 <= u < n && 0 <= v < n && labels@[u] != n && labels@[u] < s
                            && #[trigger] linked(a, u, v) ==> labels@[v] == labels@[u],
                    forall|u: int, v: int|
                        0 <= u < n && 0 <= v < n && labels@[u] == s && !stack@.contains(
                            u as usize,
                        ) && #[trigger] linked(a, u, v) ==> labels@[v] == s,
                    forall|k: int|
                        0 <= k < stack@.len() ==> #[trigger] stack@[k] < n && labels@[stack@[k] as int]
                            == s,
                decreases count_of(labels@, n), stack@.len(),
            {
                let ghost stack_full = stack@;
                let u = stack.pop().unwrap();
                let ghost stack_before = stack@;
                let ghost count_before = count_of(labels@, n);
                let ghost pushed: int = 0;
                assert(stack_full =~= stack_before.push(u));
                assert(labels@[u as int] == s) by {
                    assert(stack_full[stack_before.len() as int] == u);
                }
                assert forall|x: int|
                    0 <= x < n && x != u && !#[trigger] stack_before.contains(x as usize) implies !stack_full.contains(
                    x as usize,
                ) by {
                    if stack_full.contains(x as usize) {
                        let w = choose|w: int| 0 <= w < stack_full.len() && stack_full[w] == x as usize;
                        assert(stack_before[w] == x as usize);
                    }
                }
                for v in 0..n
                    invariant
                        a == matrix(adj@),
                        is_square(a),
                        n == a.len(),
                        s < n,
                        u < n,
                        labels@.len() == n,
                        labels@[s as int] == s,
                        labels@[u as int] == s,
                        forall|i: int| 0 <= i < s ==> #[trigger] labels@[i] != n && labels@[i] < s,
                        forall|i: int|
                            0 <= i < n && #[trigger] labels@[i] != n ==> labels@[i] <= s
                                && labels@[i] <= i && connected(a, labels@[i] as int, i),
                        forall|x: int, y: int|
                            0 <= x < n && 0 <= y < n && labels@[x] != n && labels@[x] < s
                                && #[trigger] linked(a, x, y) ==> labels@[y] == labels@[x],
                        forall|x: int, y: int|
                            0 <= x < n && 0 <= y < n && labels@[x] == s && x != u
                                && !stack@.contains(x as usize) && #[trigger] linked(a, x, y)
                                ==> labels@[y] == s,
                        forall|y: int| 0 <= y < v && #[trigger] linked(a, u as int, y) ==> labels@[y] == s,
                        forall|k: int|
                            0 <= k < stack@.len() ==> #[trigger] stack@[k] < n
                                && labels@[stack@[k] as int] == s,
                        stack@.len() == stack_before.len() + pushed,
                        count_of(labels@, n) + pushed == count_before,
                        pushed >= 0,
                {
                    if is_linked(adj, u, v) && labels[v] == n {
                        let ghost l0 = labels@;
                        let ghost st0 = stack@;
                        proof {
                            lemma_count_update(labels@, v as int, n, s);
                            lemma_walk_extend(a, s as int, u as int, v as int);
                        }
                        labels.set(v, s);
                        stack.push(v);
                        proof {
                            pushed = pushed + 1;
                            assert forall|x: int, y: int|
                                0 <= x < n && 0 <= y < n && labels@[x] == s && x != u
                                    && !stack@.contains(x as usize) && #[trigger] linked(a, x, y)
                                    implies labels@[y] == s by {
                                if x != v {
                                    assert(stack@ =~= st0.push(v));
                                    assert(!st0.contains(x as usize)) by {
                                        if st0.contains(x as usize) {
                                            let w = choose|w: int| 0 <= w < st0.len()
                                                && st0[w] == x as usize;
                                            assert(stack@[w] == x as usize);
                                        }
                                    }
                                    assert(l0[x] == s);
                                    assert(l0[y] == s);
                                } else {
                                    assert(stack@[stack@.len() - 1] == v);
                                }
                            }
                        }
                    } else {
                        proof {
                            if linked(a, u as int, v as int) {
                                if labels@[v as int] < s {
                                    assert(linked(a, v as int, u as int));
                                }
                            }
                        }
                    }
                }
                proof {
                    assert forall|x: int, y: int|
                        0 <= x < n && 0 <= y < n && labels@[x] == s && !stack@.contains(x as usize)
                            && #[trigger] linked(a, x, y) implies labels@[y] == s by {
                        if x == u {
                            assert(linked(a, u as int, y));
                        }
                    }
                }
            }
        }
    }
    proof {
        assert forall|i: int, j: int|
            0 <= i < n && 0 <= j < n && #[trigger] connected(a, j, i) implies labels@[i] <= j by {
            let p = choose|p: Seq<int>| #[trigger] is_walk(a, p) && p[0] == j && p.last() == i;
            assert(labels@[j] != n);
            lemma_closed_walk(a, labels@, p);
        }
    }
    labels
}

/// What the labels of `component_labels` say of roots and components.
proof fn lemma_labels_components(a: Seq<Seq<bool>>, labels: Seq<usize>, r: int)
    requires
        labels.len() == a.len(),
        0 <= r < a.len(),
        forall|i: int|
            0 <= i < a.len() ==> #[trigger] labels[i] <= i && connected(a, labels[i] as int, i),
        forall|i: int, j: int|
            0 <= i < a.len() && 0 <= j < a.len() && #[trigger] connected(a, j, i) ==> labels[i] <= j,
    ensures
        is_root(a, r) <==> labels[r] == r,
        labels[r] == r ==> forall|i: int|
            0 <= i < a.len() ==> (connected(a, r, i) <==> labels[i] == r),
{
    if labels[r] == r {
        assert forall|j: int| 0 <= j < r implies !#[trigger] connected(a, j, r) by {
            if connected(a, j, r) {
                assert(labels[r] <= j);
            }
        }
        assert forall|i: int| 0 <= i < a.len() implies (connected(a, r, i) <==> labels[i] == r) by {
            if connected(a, r, i) {
                assert(labels[i] <= r);
                assert(labels[i] <= i && connected(a, labels[i] as int, i));
                lemma_connected_symmetric(a, labels[i] as int, i);
                lemma_connected_transitive(a, r, i, labels[i] as int);
                lemma_connected_symmetric(a, r, labels[i] as int);
                assert(labels[r] <= labels[i]);
            }
        }
    } else {
        assert(labels[r] <= r && connected(a, labels[r] as int, r));
        assert(!is_root(a, r)) by {
            let j = labels[r] as int;
            assert(0 <= j < r && connected(a, j, r));
        }
    }
}

/// The groups, as sequences.
pub open spec fn group_views(g: Seq<Vec<usize>>) -> Seq<Seq<usize>> {
    g.map_values(|v: Vec<usize>| v@)
}

/// Groups the regions into clusters: each component of the relation, in the
/// order of its least region and with its regions in ascending order, is
/// one cluster when it has at least `min_cluster_size` regions; a smaller
/// component gives one cluster per region.
pub fn cluster_groups(adj: &Vec<Vec<bool>>, min_cluster_size: usize) -> (groups: Vec<Vec<usize>>)
    requires
        is_square(matrix(adj@)),
    ensures
        group_views(groups@) == clusters(matrix(adj@), min_cluster_size as nat),
{
    let ghost a = matrix(adj@);
    let n = adj.len();
    let labels = component_labels(adj);
    let mut out: Vec<Vec<usize>> = Vec::new();
    for r in 0..n
        invariant
            a == matrix(adj@),
            n == a.len(),
            labels@.len() == n,
            forall|i: int|
                0 <= i < n ==> #[trigger] labels@[i] <= i && connected(a, labels@[i] as int, i),
            forall|i: int, j: int|
                0 <= i < n && 0 <= j < n && #[trigger] connected(a, j, i) ==> labels@[i] <= j,
            group_views(out@) == clusters_upto(a, min_cluster_size as nat, r as int),
    {
        proof {
            lemma_labels_components(a, labels@, r as int);
        }
        if labels[r] == r {
            let ghost pred = |x: usize| connected(a, r as int, x as int);
            let mut members: Vec<usize> = Vec::new();
            for i in 0..n
                invariant
                    a == matrix(adj@),
                    n == a.len(),
                    r < n,
                    labels@.len() == n,
                    labels@[r as int] == r,
                    forall|x: int| 0 <= x < n ==> (connected(a, r as int, x) <==> #[trigger] labels@[x] == r),
                    pred == (|x: usize| connected(a, r as int, x as int)),
                    members@ == indices(n as nat).take(i as int).filter(pred),
            {
                proof {
                    assert(indices(n as nat).take(i + 1).drop_last() =~= indices(n as nat).take(i as int));
                    assert(indices(n as nat).take(i + 1).last() == i);
                    reveal_with_fuel(Seq::<_>::filter, 1);
                }
                if labels[i] == r {
                    members.push(i);
                }
            }
            proof {
                assert(indices(n as nat).take(n as int) =~= indices(n as nat));
                assert(members@ == component(a, r as int));
            }
            if members.len() >= min_cluster_size {
                let ghost before = group_views(out@);
                out.push(members);
                proof {
                    assert(group_views(out@) =~= before.push(component(a, r as int)));
                }
            } else {
                let ghost before = group_views(out@);
                let m = members.len();
                for k in 0..m
                    invariant
                        m == members@.len(),
                        group_views(out@) == before + singletons(members@.take(k as int)),
                {
                    let ghost prev = group_views(out@);
                    let mut single: Vec<usize> = Vec::new();
                    single.push(members[k]);
                    out.push(single);
                    proof {
                        assert(single@ =~= seq![members@[k as int]]);
                        assert(singletons(members@.take(k + 1)) =~= singletons(members@.take(k as int)).push(seq![members@[k as int]]));
                        assert(group_views(out@) =~= prev.push(single@));
                    }
                }
                proof {
                    assert(members@.take(m as int) =~= members@);
                }
            }
        }
    }
    out
}

// ---------------------------------------------------------------------------
// What the clusters are
// ---------------------------------------------------------------------------

/// Region `i` is in one of the clusters.
pub open spec fn in_clusters(c: Seq<Seq<usize>>, i: int) -> bool {
    exists|g: int, k: int| 0 <= g < c.len() && 0 <= k < c[g].len() && c[g][k] == i
}

pub open spec fn increasing(s: Seq<usize>) -> bool {
    forall|i: int, j: int| 0 <= i < j < s.len() ==> s[i] < s[j]
}

proof fn lemma_filter_increasing(s: Seq<usize>, p: spec_fn(usize) -> bool)
    requires
        increasing(s),
    ensures
        increasing(s.filter(p)),
        forall|k: int| 0 <= k < s.filter(p).len() ==> s.contains(#[trigger] s.filter(p)[k]),
    decreases s.len(),
{
    reveal_with_fuel(Seq::<_>::filter, 1);
    if s.len() > 0 {
        let d = s.drop_last();
        assert(increasing(d));
        lemma_filter_increasing(d, p);
        let f = d.filter(p);
        if p(s.last()) {
            assert forall|k: int| 0 <= k < f.len() implies f[k] < s.last() by {
                assert(d.contains(f[k]));
                let w = choose|w: int| 0 <= w < d.len() && d[w] == f[k];
                assert(s[w] == d[w]);
            }
            assert forall|k: int| 0 <= k < f.push(s.last()).len() implies s.contains(
                #[trigger] f.push(s.last())[k],
            ) by {
                if k < f.len() {
                    assert(d.contains(f[k]));
                    let w = choose|w: int| 0 <= w < d.len() && d[w] == f[k];
                    assert(s[w] == f[k]);
                } else {
                    assert(s[s.len() - 1] == s.last());
                }
            }
        } else {
            assert forall|k: int| 0 <= k < f.len() implies s.contains(#[trigger] f[k]) by {
                assert(d.contains(f[k]));
                let w = choose|w: int| 0 <= w < d.len() && d[w] == f[k];
                assert(s[w] == f[k]);
            }
        }
    }
}

/// The component of `r`: its regions are exactly those connected to `r`,
/// each once, in ascending order.
proof fn lemma_component_members(a: Seq<Seq<bool>>, r: int)
    requires
        a.len() <= usize::MAX,
    ensures
        increasing(component(a, r)),
        forall|k: int|
            0 <= k < component(a, r).len() ==> #[trigger] component(a, r)[k] < a.len()
                && connected(a, r, component(a, r)[k] as int),
        forall|i: int|
            0 <= i < a.len() && connected(a, r, i) ==> #[trigger] component(a, r).contains(
                i as usize,
            ),
{
    let ix = indices(a.len());
    let p = |i: usize| connected(a, r, i as int);
    assert(increasing(ix));
    lemma_filter_increasing(ix, p);
    assert forall|k: int| 0 <= k < component(a, r).len() implies #[trigger] component(a, r)[k]
        < a.len() && connected(a, r, component(a, r)[k] as int) by {
        ix.lemma_filter_pred(p, k);
        assert(ix.contains(ix.filter(p)[k]));
    }
    assert forall|i: int| 0 <= i < a.len() && connected(a, r, i) implies #[trigger] component(
        a,
        r,
    ).contains(i as usize) by {
        assert(ix[i] == i as usize);
        ix.lemma_filter_contains(p, i);
    }
}

/// Two roots connected to one region are the same.
proof fn lemma_root_unique(a: Seq<Seq<bool>>, r1: int, r2: int, i: int)
    requires
        0 <= r1 < a.len(),
        0 <= r2 < a.len(),
        is_root(a, r1),
        is_root(a, r2),
        connected(a, r1, i),
        connected(a, r2, i),
    ensures
        r1 == r2,
{
    lemma_connected_symmetric(a, r2, i);
    lemma_connected_transitive(a, r1, i, r2);
    lemma_connected_symmetric(a, r1, r2);
    if r1 < r2 {
        assert(!connected(a, r1, r2));
    } else if r2 < r1 {
        assert(!connected(a, r2, r1));
    }
}

/// Every region has a root: the least region connected to it.
proof fn lemma_root_exists(a: Seq<Seq<bool>>, i: int) -> (r: int)
    requires
        0 <= i < a.len(),
    ensures
        0 <= r <= i,
        is_root(a, r),
        connected(a, r, i),
    decreases i,
{
    lemma_walk_single(a, i);
    if is_root(a, i) {
        i
    } else {
        let j = choose|j: int| 0 <= j < i && #[trigger] connected(a, j, i);
        let r = lemma_root_exists(a, j);
        lemma_connected_transitive(a, r, j, i);
        r
    }
}

pub open spec fn cluster_invariant(a: Seq<Seq<bool>>, c: Seq<Seq<usize>>, upto: int) -> bool {
    &&& forall|g: int, k: int|
        0 <= g < c.len() && 0 <= k < c[g].len() ==> #[trigger] c[g][k] < a.len()
    &&& forall|g: int| 0 <= g < c.len() ==> #[trigger] c[g].len() > 0
    &&& forall|g1: int, k1: int, g2: int, k2: int|
        0 <= g1 < c.len() && 0 <= k1 < c[g1].len() && 0 <= g2 < c.len() && 0 <= k2 < c[g2].len()
            && #[trigger] c[g1][k1] == #[trigger] c[g2][k2] ==> g1 == g2 && k1 == k2
    &&& forall|g: int, k1: int, k2: int|
        0 <= g < c.len() && 0 <= k1 < c[g].len() && 0 <= k2 < c[g].len() ==> connected(
            a,
            #[trigger] c[g][k1] as int,
            #[trigger] c[g][k2] as int,
        )
    &&& forall|i: int|
        0 <= i < a.len() ==> (in_clusters(c, i) <==> exists|r: int|
            0 <= r < upto && is_root(a, r) && #[trigger] connected(a, r, i))
}

proof fn lemma_clusters_upto(a: Seq<Seq<bool>>, min_size: nat, upto: int)
    requires
        a.len() <= usize::MAX,
        0 <= upto <= a.len(),
    ensures
        cluster_invariant(a, clusters_upto(a, min_size, upto), upto),
    decreases upto,
{
    if upto > 0 {
        lemma_clusters_upto(a, min_size, upto - 1);
        let prev = clusters_upto(a, min_size, upto - 1);
        let r = upto - 1;
        if is_root(a, r) {
            let comp = component(a, r);
            lemma_component_members(a, r);
            lemma_walk_single(a, r);
            assert(comp.contains(r as usize));
            let added = if comp.len() >= min_size {
                seq![comp]
            } else {
                singletons(comp)
            };
            let c = clusters_upto(a, min_size, upto);
            assert(c =~= prev + added);
            // The regions of the new root were in no earlier cluster.
            assert forall|g: int, k: int|
                0 <= g < prev.len() && 0 <= k < prev[g].len() implies !connected(
                a,
                r,
                #[trigger] prev[g][k] as int,
            ) by {
                let i = prev[g][k] as int;
                assert(in_clusters(prev, i));
                let r2 = choose|r2: int| 0 <= r2 < upto - 1 && is_root(a, r2) && #[trigger] connected(a, r2, i);
                if connected(a, r, i) {
                    lemma_root_unique(a, r, r2, i);
                }
            }
            // Members of the added clusters, by position.
            assert forall|g: int, k: int|
                0 <= g < added.len() && 0 <= k < added[g].len() implies #[trigger] added[g][k]
                == comp[if comp.len() >= min_size { k } else { g }] && (if comp.len() >= min_size {
                g == 0
            } else {
                k == 0
            }) by {
            }
            assert forall|g: int, k: int|
                0 <= g < c.len() && 0 <= k < c[g].len() implies #[trigger] c[g][k] < a.len() by {
                if g >= prev.len() {
                    assert(added[g - prev.len()][k] == c[g][k]);
                }
            }
            assert forall|g: int| 0 <= g < c.len() implies #[trigger] c[g].len() > 0 by {
                if g >= prev.len() {
                    assert(c[g] == added[g - prev.len()]);
                }
            }
            assert forall|g1: int, k1: int, g2: int, k2: int|
                0 <= g1 < c.len() && 0 <= k1 < c[g1].len() && 0 <= g2 < c.len() && 0 <= k2
                    < c[g2].len() && #[trigger] c[g1][k1] == #[trigger] c[g2][k2] implies g1 == g2
                && k1 == k2 by {
                if g1 >= prev.len() && g2 >= prev.len() {
                    let h1 = g1 - prev.len();
                    let h2 = g2 - prev.len();
                    assert(added[h1][k1] == c[g1][k1]);
                    assert(added[h2][k2] == c[g2][k2]);
                    if comp.len() >= min_size {
                        if k1 < k2 {
                            assert(comp[k1] < comp[k2]);
                        } else if k2 < k1 {
                            assert(comp[k2] < comp[k1]);
                        }
                    } else {
                        if h1 < h2 {
                            assert(comp[h1] < comp[h2]);
                        } else if h2 < h1 {
                            assert(comp[h2] < comp[h1]);
                        }
                    }
                } else if g1 >= prev.len() {
                    let h1 = g1 - prev.len();
                    assert(added[h1][k1] == c[g1][k1]);
                    assert(c[g2][k2] == prev[g2][k2]);
                    let q = if comp.len() >= min_size { k1 } else { h1 };
                    assert(connected(a, r, comp[q] as int));
                    assert(!connected(a, r, prev[g2][k2] as int));
                } else if g2 >= prev.len() {
                    let h2 = g2 - prev.len();
                    assert(added[h2][k2] == c[g2][k2]);
                    assert(c[g1][k1] == prev[g1][k1]);
                    let q = if comp.len() >= min_size { k2 } else { h2 };
                    assert(connected(a, r, comp[q] as int));
                    assert(!connected(a, r, prev[g1][k1] as int));
                } else {
                    assert(c[g1][k1] == prev[g1][k1]);
                    assert(c[g2][k2] == prev[g2][k2]);
                }
            }
            assert forall|g: int, k1: int, k2: int|
                0 <= g < c.len() && 0 <= k1 < c[g].len() && 0 <= k2 < c[g].len() implies connected(
                a,
                #[trigger] c[g][k1] as int,
                #[trigger] c[g][k2] as int,
            ) by {
                if g >= prev.len() {
                    let h = g - prev.len();
                    assert(added[h][k1] == c[g][k1]);
                    assert(added[h][k2] == c[g][k2]);
                    let q1 = if comp.len() >= min_size { k1 } else { h };
                    let q2 = if comp.len() >= min_size { k2 } else { h };
                    assert(connected(a, r, comp[q1] as int));
                    assert(connected(a, r, comp[q2] as int));
                    lemma_connected_symmetric(a, r, comp[q1] as int);
                    lemma_connected_transitive(a, comp[q1] as int, r, comp[q2] as int);
                } else {
                    assert(c[g][k1] == prev[g][k1]);
                    assert(c[g][k2] == prev[g][k2]);
                }
            }
            assert forall|i: int| 0 <= i < a.len() implies (in_clusters(c, i) <==> exists|r2: int|
                0 <= r2 < upto && is_root(a, r2) && #[trigger] connected(a, r2, i)) by {
                if in_clusters(c, i) {
                    let (g, k) = choose|g: int, k: int|
                        0 <= g < c.len() && 0 <= k < c[g].len() && c[g][k] == i;
                    if g >= prev.len() {
                        let h = g - prev.len();
                        assert(added[h][k] == c[g][k]);
                        let q = if comp.len() >= min_size { k } else { h };
                        assert(connected(a, r, comp[q] as int));
                    } else {
                        assert(c[g][k] == prev[g][k]);
                        assert(in_clusters(prev, i));
                    }
                }
                if exists|r2: int| 0 <= r2 < upto && is_root(a, r2) && #[trigger] connected(a, r2, i) {
                    let r2 = choose|r2: int| 0 <= r2 < upto && is_root(a, r2) && #[trigger] connected(a, r2, i);
                    if r2 < upto - 1 {
                        assert(in_clusters(prev, i));
                        let (g, k) = choose|g: int, k: int|
                            0 <= g < prev.len() && 0 <= k < prev[g].len() && prev[g][k] == i;
                        assert(c[g][k] == prev[g][k]);
                    } else {
                        assert(comp.contains(i as usize));
                        let q = choose|q: int| 0 <= q < comp.len() && comp[q] == i as usize;
                        if comp.len() >= min_size {
                            assert(c[prev.len() as int][q] == comp[q]);
                        } else {
                            assert(c[prev.len() + q][0] == comp[q]);
                        }
                    }
                }
            }
        } else {
            let c = clusters_upto(a, min_size, upto);
            assert(c == prev);
            assert forall|i: int| 0 <= i < a.len() implies (in_clusters(c, i) <==> exists|r2: int|
                0 <= r2 < upto && is_root(a, r2) && #[trigger] connected(a, r2, i)) by {
                if exists|r2: int| 0 <= r2 < upto && is_root(a, r2) && #[trigger] connected(a, r2, i) {
                    let r2 = choose|r2: int| 0 <= r2 < upto && is_root(a, r2) && #[trigger] connected(a, r2, i);
                    assert(r2 != upto - 1);
                }
            }
        }
    }
}

/// Every region lies in exactly one cluster, at one position; every
/// cluster is non-empty; and the regions of a cluster are connected.
pub proof fn lemma_clusters_partition(a: Seq<Seq<bool>>, min_size: nat)
    requires
        a.len() <= usize::MAX,
    ensures
        forall|g: int, k: int|
            0 <= g < clusters(a, min_size).len() && 0 <= k < clusters(a, min_size)[g].len()
                ==> #[trigger] clusters(a, min_size)[g][k] < a.len(),
        forall|i: int| 0 <= i < a.len() ==> #[trigger] in_clusters(clusters(a, min_size), i),
        forall|g1: int, k1: int, g2: int, k2: int|
            0 <= g1 < clusters(a, min_size).len() && 0 <= k1 < clusters(a, min_size)[g1].len() && 0
                <= g2 < clusters(a, min_size).len() && 0 <= k2 < clusters(a, min_size)[g2].len()
                && #[trigger] clusters(a, min_size)[g1][k1] == #[trigger] clusters(a, min_size)[g2][k2]
                ==> g1 == g2 && k1 == k2,
        forall|g: int, k1: int, k2: int|
            0 <= g < clusters(a, min_size).len() && 0 <= k1 < clusters(a, min_size)[g].len() && 0
                <= k2 < clusters(a, min_size)[g].len() ==> connected(
                a,
                #[trigger] clusters(a, min_size)[g][k1] as int,
                #[trigger] clusters(a, min_size)[g][k2] as int,
            ),
{
    lemma_clusters_upto(a, min_size, a.len() as int);
    let c = clusters(a, min_size);
    assert forall|i: int| 0 <= i < a.len() implies #[trigger] in_clusters(c, i) by {
        let r = lemma_root_exists(a, i);
    }
}

/// The severity order: minor below moderate below major.
pub open spec fn severity_rank(s: DiffSeverity) -> nat {
    match s {
        DiffSeverity::Minor => 0,
        DiffSeverity::Moderate => 1,
        DiffSeverity::Major => 2,
    }
}

/// The highest severity among the given regions, minor when there are none.
pub fn highest_severity(severities: &Vec<DiffSeverity>, group: &Vec<usize>) -> (r: DiffSeverity)
    requires
        forall|k: int| 0 <= k < group@.len() ==> #[trigger] group@[k] < severities@.len(),
    ensures
        forall|k: int|
            0 <= k < group@.len() ==> severity_rank(severities@[#[trigger] group@[k] as int])
                <= severity_rank(r),
        r == DiffSeverity::Minor || exists|k: int|
            0 <= k < group@.len() && severities@[#[trigger] group@[k] as int] == r,
{
    let mut best = DiffSeverity::Minor;
    for k in 0..group.len()
        invariant
            forall|q: int| 0 <= q < group@.len() ==> #[trigger] group@[q] < severities@.len(),
            forall|q: int|
                0 <= q < k ==> severity_rank(severities@[#[trigger] group@[q] as int])
                    <= severity_rank(best),
            best == DiffSeverity::Minor || exists|q: int|
                0 <= q < k && severities@[#[trigger] group@[q] as int] == best,
    {
        let s = severities[group[k]];
        let higher = match (s, best) {
            (DiffSeverity::Major, DiffSeverity::Major) => false,
            (DiffSeverity::Major, _) => true,
            (DiffSeverity::Moderate, DiffSeverity::Minor) => true,
            _ => false,
        };
        if higher {
            best = s;
        }
    }
    best
}

} // verus!
