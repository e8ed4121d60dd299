use vstd::prelude::*;

verus! {

/// `u -> v` is one of the edges.
pub open spec fn edge(es: Seq<(usize, usize)>, u: usize, v: usize) -> bool {
    exists|j: int| 0 <= j < es.len() && #[trigger] es[j] == (u, v)
}

/// `w` is a non-empty walk along the edges.
pub open spec fn walk(es: Seq<(usize, usize)>, w: Seq<usize>) -> bool {
    &&& w.len() >= 1
    &&& forall|i: int| #![trigger w[i]] 0 <= i < w.len() - 1 ==> edge(es, w[i], w[i + 1])
}

/// A walk leads from `u` to `v`.
pub open spec fn reaches(es: Seq<(usize, usize)>, u: usize, v: usize) -> bool {
    exists|w: Seq<usize>| #[trigger] walk(es, w) && w[0] == u && w.last() == v
}

/// A walk of at least one edge leads from `v` back to `v`.
pub open spec fn on_cycle(es: Seq<(usize, usize)>, v: usize) -> bool {
    exists|w: Seq<usize>| #[trigger] walk(es, w) && w.len() >= 2 && w[0] == v && w.last() == v
}

/// Some start reaches `v`.
pub open spec fn reached(es: Seq<(usize, usize)>, starts: Seq<usize>, v: usize) -> bool {
    exists|s: usize| #[trigger] starts.contains(s) && reaches(es, s, v)
}

/// All edges join vertices below `n`.
pub open spec fn edges_below(es: Seq<(usize, usize)>, n: nat) -> bool {
    forall|j: int| 0 <= j < es.len() ==> (#[trigger] es[j]).0 < n && es[j].1 < n
}

/// How many entries are false.
pub open spec fn count_false(s: Seq<bool>) -> nat
    decreases s.len(),
{
    if s.len() == 0 {
        0
    } else {
        count_false(s.drop_last()) + if s.last() { 0nat } else { 1nat }
    }
}

pub proof fn lemma_count_false_set(s: Seq<bool>, i: int)
    requires
        0 <= i < s.len(),
        !s[i],
    ensures
        count_false(s.update(i, true)) + 1 == count_false(s),
    decreases s.len(),
{
    if i < s.len() - 1 {
        lemma_count_false_set(s.drop_last(), i);
        assert(s.update(i, true).drop_last() =~= s.drop_last().update(i, true));
    } else {
        assert(s.update(i, true).drop_last() =~= s.drop_last());
    }
}

pub proof fn lemma_count_false_le(s: Seq<bool>)
    ensures
        count_false(s) <= s.len(),
    decreases s.len(),
{
    if s.len() > 0 {
        lemma_count_false_le(s.drop_last());
    }
}

/// A walk extended by one edge.
pub proof fn lemma_walk_push(es: Seq<(usize, usize)>, w: Seq<usize>, v: usize)
    requires
        walk(es, w),
        edge(es, w.last(), v),
    ensures
        walk(es, w.push(v)),
{
    let w2 = w.push(v);
    assert forall|i: int| #![trigger w2[i]] 0 <= i < w2.len() - 1 implies edge(es, w2[i], w2[i + 1]) by {
        if i < w.len() - 1 {
            assert(w2[i] == w[i] && w2[i + 1] == w[i + 1]);
        }
    }
}

/// A piece of a walk is a walk.
pub proof fn lemma_walk_sub(es: Seq<(usize, usize)>, w: Seq<usize>, a: int, b: int)
    requires
        walk(es, w),
        0 <= a < b <= w.len(),
    ensures
        walk(es, w.subrange(a, b)),
{
    let s = w.subrange(a, b);
    assert forall|i: int| #![trigger s[i]] 0 <= i < s.len() - 1 implies edge(es, s[i], s[i + 1]) by {
        assert(s[i] == w[a + i] && s[i + 1] == w[a + i + 1]);
    }
}

/// Two walks joined where the first ends and the second begins.
pub proof fn lemma_walk_join(es: Seq<(usize, usize)>, w1: Seq<usize>, w2: Seq<usize>)
    requires
        walk(es, w1),
        walk(es, w2),
        w1.last() == w2[0],
    ensures
        walk(es, w1 + w2.drop_first()),
        (w1 + w2.drop_first())[0] == w1[0],
        (w1 + w2.drop_first()).last() == w2.last(),
{
    let j = w1 + w2.drop_first();
    assert forall|i: int| #![trigger j[i]] 0 <= i < j.len() - 1 implies edge(es, j[i], j[i + 1]) by {
        if i < w1.len() - 1 {
            assert(j[i] == w1[i] && j[i + 1] == w1[i + 1]);
        } else {
            let k = i - (w1.len() - 1);
            assert(j[i] == w2[k]);
            assert(j[i + 1] == w2[k + 1]);
        }
    }
}

/// A set of vertices that holds the starts and is closed under the edges
/// holds everything the starts reach.
pub proof fn lemma_closed_holds_reached(
    es: Seq<(usize, usize)>,
    flags: Seq<bool>,
    starts: Seq<usize>,
    v: usize,
)
    requires
        edges_below(es, flags.len()),
        forall|i: int| 0 <= i < starts.len() ==> starts[i] < flags.len() && flags[starts[i] as int],
        forall|j: int| 0 <= j < es.len() && #[trigger] flags[es[j].0 as int] ==> flags[es[j].1 as int],
        reached(es, starts, v),
    ensures
        v < flags.len() && flags[v as int],
{
    let s = choose|s: usize| #[trigger] starts.contains(s) && reaches(es, s, v);
    let w = choose|w: Seq<usize>| #[trigger] walk(es, w) && w[0] == s && w.last() == v;
    let k = choose|k: int| 0 <= k < starts.len() && starts[k] == s;
    assert forall|i: int| 0 <= i < w.len() implies w[i] < flags.len() && flags[w[i] as int] by {
        lemma_walk_flags(es, flags, w, i);
    }
}

proof fn lemma_walk_flags(es: Seq<(usize, usize)>, flags: Seq<bool>, w: Seq<usize>, i: int)
    requires
        edges_below(es, flags.len()),
        forall|j: int| 0 <= j < es.len() && #[trigger] flags[es[j].0 as int] ==> flags[es[j].1 as int],
        walk(es, w),
        w[0] < flags.len() && flags[w[0] as int],
        0 <= i < w.len(),
    ensures
        w[i] < flags.len() && flags[w[i] as int],
    decreases i,
{
    if i > 0 {
        lemma_walk_flags(es, flags, w, i - 1);
        assert(edge(es, w[i - 1], w[i]));
        let j = choose|j: int| 0 <= j < es.len() && #[trigger] es[j] == (w[i - 1], w[i]);
        assert(flags[es[j].0 as int]);
    }
}

/// The vertices that `starts` reach.
pub fn reachable_flags(n: usize, es: &Vec<(usize, usize)>, starts: &Vec<usize>) -> (r: Vec<bool>)
    requires
        edges_below(es@, n as nat),
        forall|i: int| 0 <= i < starts@.len() ==> starts@[i] < n,
    ensures
        r@.len() == n,
        forall|v: usize| v < n ==> (r@[v as int] <==> reached(es@, starts@, v)),
{
    let mut flags: Vec<bool> = Vec::new();
    let mut i: usize = 0;
    while i < n
        invariant
            i <= n,
            flags@.len() == i,
            forall|k: int| 0 <= k < i ==> !flags@[k],
        decreases n - i,
    {
        flags.push(false);
        i += 1;
    }
    let mut i: usize = 0;
    while i < starts.len()
        invariant
            i <= starts@.len(),
            flags@.len() == n,
            forall|i: int| 0 <= i < starts@.len() ==> starts@[i] < n,
            forall|k: int| 0 <= k < i ==> flags@[starts@[k] as int],
            forall|v: usize| v < n && #[trigger] flags@[v as int] ==> reached(es@, starts@, v),
        decreases starts@.len() - i,
    {
        let s = starts[i];
        proof {
            let w = seq![s];
            assert(walk(es@, w));
            assert(starts@.contains(s));
            assert(reaches(es@, s, s));
        }
        flags.set(s, true);
        i += 1;
    }
    let mut changed = true;
    while changed
        invariant
            flags@.len() == n,
            edges_below(es@, n as nat),
            forall|i: int| 0 <= i < starts@.len() ==> starts@[i] < n && flags@[starts@[i] as int],
            forall|v: usize| v < n && #[trigger] flags@[v as int] ==> reached(es@, starts@, v),
            !changed ==> forall|j: int| 0 <= j < es@.len() && #[trigger] flags@[es@[j].0 as int]
                ==> flags@[es@[j].1 as int],
        decreases count_false(flags@) + if changed { 1nat } else { 0nat },
    {
        changed = false;
        let ghost at_start = count_false(flags@);
        let mut j: usize = 0;
        while j < es.len()
            invariant
                flags@.len() == n,
                j <= es@.len(),
                edges_below(es@, n as nat),
                forall|i: int| 0 <= i < starts@.len() ==> starts@[i] < n && flags@[starts@[i] as int],
                forall|v: usize| v < n && #[trigger] flags@[v as int] ==> reached(es@, starts@, v),
                !changed ==> count_false(flags@) == at_start,
                changed ==> count_false(flags@) < at_start,
                !changed ==> forall|k: int| 0 <= k < j && #[trigger] flags@[es@[k].0 as int]
                    ==> flags@[es@[k].1 as int],
            decreases es@.len() - j,
        {
            let (a, b) = es[j];
            if flags[a] && !flags[b] {
                proof {
                    lemma_count_false_set(flags@, b as int);
                    assert(reached(es@, starts@, a));
                    let s = choose|s: usize| #[trigger] starts@.contains(s) && reaches(es@, s, a);
                    let w = choose|w: Seq<usize>| #[trigger] walk(es@, w) && w[0] == s && w.last() == a;
                    assert(es@[j as int] == (a, b));
                    lemma_walk_push(es@, w, b);
                    assert(w.push(b)[0] == s);
                    assert(reaches(es@, s, b));
                }
                flags.set(b, true);
                changed = true;
            }
            j += 1;
        }
    }
    proof {
        assert forall|v: usize| v < n implies (flags@[v as int] <==> reached(es@, starts@, v)) by {
            if reached(es@, starts@, v) {
                lemma_closed_holds_reached(es@, flags@, starts@, v);
            }
        }
    }
    flags
}

} // verus!

verus! {

/// Whether edge `j` holds `v` back: every edge counts, or only those whose
/// source is active.
pub open spec fn counts(es: Seq<(usize, usize)>, active: Seq<bool>, only_active: bool, j: int) -> bool {
    !only_active || active[es[j].0 as int]
}

/// What peeling leaves: the peeled vertices in the order they came off,
/// whether each vertex was peeled, and the position at which it was.
pub struct Peeling {
    pub order: Vec<usize>,
    pub done: Vec<bool>,
    pub rank: Vec<usize>,
}

/// The facts that peeling keeps: each peeled vertex is active and sits at
/// its recorded position, and every counted edge into a peeled vertex comes
/// from a vertex peeled before it.
pub open spec fn peel_valid(
    n: nat,
    es: Seq<(usize, usize)>,
    active: Seq<bool>,
    only_active: bool,
    order: Seq<usize>,
    done: Seq<bool>,
    rank: Seq<usize>,
) -> bool {
    &&& done.len() == n
    &&& rank.len() == n
    &&& forall|p: int| 0 <= p < order.len() ==> (#[trigger] order[p]) < n && done[order[p] as int]
        && rank[order[p] as int] == p
    &&& forall|v: int| 0 <= v < n && #[trigger] done[v] ==> active[v] && rank[v] < order.len()
        && order[rank[v] as int] == v
    &&& forall|j: int| 0 <= j < es.len() && counts(es, active, only_active, j)
        && #[trigger] done[es[j].1 as int] ==> done[es[j].0 as int] && rank[es[j].0 as int]
        < rank[es[j].1 as int]
}

/// Every active vertex left over is held back by a counted edge from a
/// vertex that was not peeled.
pub open spec fn peel_stuck(
    n: nat,
    es: Seq<(usize, usize)>,
    active: Seq<bool>,
    only_active: bool,
    done: Seq<bool>,
) -> bool {
    forall|v: int| 0 <= v < n && active[v] && !done[v] ==> exists|j: int|
        0 <= j < es.len() && es[j].1 == v && counts(es, active, only_active, j)
            && !(#[trigger] done[es[j].0 as int])
}

impl Peeling {
    pub open spec fn valid(self, n: nat, es: Seq<(usize, usize)>, active: Seq<bool>, only_active: bool) -> bool {
        peel_valid(n, es, active, only_active, self.order@, self.done@, self.rank@)
    }

    pub open spec fn stuck(self, n: nat, es: Seq<(usize, usize)>, active: Seq<bool>, only_active: bool) -> bool {
        peel_stuck(n, es, active, only_active, self.done@)
    }
}

/// Whether every edge into `v` that counts comes from a peeled vertex.
fn ready(es: &Vec<(usize, usize)>, active: &Vec<bool>, only_active: bool, done: &Vec<bool>, v: usize) -> (r: bool)
    requires
        edges_below(es@, active@.len()),
        done@.len() == active@.len(),
    ensures
        r == forall|j: int| 0 <= j < es@.len() && es@[j].1 == v && counts(es@, active@, only_active, j)
            ==> done@[es@[j].0 as int],
{
    let mut j: usize = 0;
    while j < es.len()
        invariant
            j <= es@.len(),
            edges_below(es@, active@.len()),
            done@.len() == active@.len(),
            forall|k: int| 0 <= k < j && es@[k].1 == v && counts(es@, active@, only_active, k)
                ==> done@[es@[k].0 as int],
        decreases es@.len() - j,
    {
        let (a, b) = es[j];
        if b == v && (!only_active || active[a]) && !done[a] {
            proof {
                assert(es@[j as int] == (a, b));
                assert(counts(es@, active@, only_active, j as int));
                assert(!done@[es@[j as int].0 as int]);
                assert(!(0 <= j < es@.len() && es@[j as int].1 == v && counts(es@, active@, only_active, j as int)
                    ==> done@[es@[j as int].0 as int]));
            }
            return false;
        }
        j += 1;
    }
    true
}

/// Repeatedly takes off the active vertices all of whose counted incoming
/// edges come from vertices already taken off, until none is left to take.
pub fn peel(n: usize, es: &Vec<(usize, usize)>, active: &Vec<bool>, only_active: bool) -> (r: Peeling)
    requires
        active@.len() == n,
        edges_below(es@, n as nat),
    ensures
        r.valid(n as nat, es@, active@, only_active),
        r.stuck(n as nat, es@, active@, only_active),
{
    let mut done: Vec<bool> = Vec::new();
    let mut rank: Vec<usize> = Vec::new();
    let mut i: usize = 0;
    while i < n
        invariant
            i <= n,
            done@.len() == i,
            rank@.len() == i,
            forall|k: int| 0 <= k < i ==> !done@[k],
        decreases n - i,
    {
        done.push(false);
        rank.push(0);
        i += 1;
    }
    let mut order: Vec<usize> = Vec::new();
    proof {
        assert(count_false(done@) == n) by {
            lemma_all_false(done@);
        }
    }
    let mut changed = true;
    while changed
        invariant
            active@.len() == n,
            edges_below(es@, n as nat),
            peel_valid(n as nat, es@, active@, only_active, order@, done@, rank@),
            order@.len() + count_false(done@) == n,
            !changed ==> peel_stuck(n as nat, es@, active@, only_active, done@),
        decreases count_false(done@) + if changed { 1nat } else { 0nat },
    {
        changed = false;
        let ghost at_start = count_false(done@);
        let mut v: usize = 0;
        while v < n
            invariant
                v <= n,
                active@.len() == n,
                edges_below(es@, n as nat),
                peel_valid(n as nat, es@, active@, only_active, order@, done@, rank@),
                order@.len() + count_false(done@) == n,
                !changed ==> count_false(done@) == at_start,
                changed ==> count_false(done@) < at_start,
                !changed ==> forall|u: int| 0 <= u < v && active@[u] && !done@[u] ==> exists|j: int|
                    0 <= j < es@.len() && es@[j].1 == u && counts(es@, active@, only_active, j)
                        && !(#[trigger] done@[es@[j].0 as int]),
            decreases n - v,
        {
            if active[v] && !done[v] {
                let is_ready = ready(es, active, only_active, &done, v);
                if is_ready {
                    let ghost old_done = done@;
                    let ghost old_rank = rank@;
                    let ghost old_order = order@;
                    proof {
                        lemma_count_false_set(done@, v as int);
                        lemma_count_false_le(done@.update(v as int, true));
                    }
                    let p = order.len();
                    done.set(v, true);
                    rank.set(v, p);
                    order.push(v);
                    changed = true;
                    proof {
                        assert forall|q: int| 0 <= q < order@.len() implies (#[trigger] order@[q]) < n
                            && done@[order@[q] as int] && rank@[order@[q] as int] == q by {
                            if q < old_order.len() {
                                assert(order@[q] == old_order[q]);
                                assert(old_done[old_order[q] as int]);
                                assert(old_order[q] != v);
                            }
                        }
                        assert forall|u: int| 0 <= u < n && #[trigger] done@[u] implies active@[u]
                            && rank@[u] < order@.len() && order@[rank@[u] as int] == u by {
                            if u != v {
                                assert(old_done[u]);
                            }
                        }
                        assert forall|j: int| 0 <= j < es@.len() && counts(es@, active@, only_active, j)
                            && #[trigger] done@[es@[j].1 as int] implies done@[es@[j].0 as int]
                            && rank@[es@[j].0 as int] < rank@[es@[j].1 as int] by {
                            if es@[j].1 == v {
                                assert(old_done[es@[j].0 as int]);
                            } else {
                                assert(old_done[es@[j].1 as int]);
                            }
                        }
                    }
                } else {
                    proof {
                        if !changed {
                            assert(!(forall|j: int| 0 <= j < es@.len() && es@[j].1 == v
                                && counts(es@, active@, only_active, j) ==> done@[es@[j].0 as int]));
                            let j = choose|j: int| !(0 <= j < es@.len() && es@[j].1 == v
                                && counts(es@, active@, only_active, j) ==> done@[es@[j].0 as int]);
                            assert(!done@[es@[j].0 as int]);
                        }
                    }
                }
            }
            v += 1;
        }
    }
    Peeling { order, done, rank }
}

proof fn lemma_all_false(s: Seq<bool>)
    requires
        forall|k: int| 0 <= k < s.len() ==> !s[k],
    ensures
        count_false(s) == s.len(),
    decreases s.len(),
{
    if s.len() > 0 {
        lemma_all_false(s.drop_last());
    }
}

/// Along a walk through peeled vertices, with edges that count, the
/// positions grow.
proof fn lemma_rank_grows(
    es: Seq<(usize, usize)>,
    active: Seq<bool>,
    only_active: bool,
    pl: Peeling,
    n: nat,
    w: Seq<usize>,
    k: int,
)
    requires
        pl.valid(n, es, active, only_active),
        edges_below(es, n),
        active.len() == n,
        walk(es, w),
        forall|i: int| 0 <= i < w.len() ==> (#[trigger] w[i]) < n && pl.done@[w[i] as int],
        forall|i: int| 0 <= i < w.len() ==> active[(#[trigger] w[i]) as int],
        1 <= k < w.len(),
    ensures
        pl.rank@[w[0] as int] < pl.rank@[w[k] as int],
    decreases k,
{
    if k > 1 {
        lemma_rank_grows(es, active, only_active, pl, n, w, k - 1);
    }
    assert(edge(es, w[k - 1], w[k]));
    let j = choose|j: int| 0 <= j < es.len() && #[trigger] es[j] == (w[k - 1], w[k]);
    assert(pl.done@[es[j].1 as int]);
}

/// No cycle runs through active vertices that were all peeled.
pub proof fn lemma_peeled_no_cycle(
    es: Seq<(usize, usize)>,
    active: Seq<bool>,
    only_active: bool,
    pl: Peeling,
    n: nat,
    w: Seq<usize>,
)
    requires
        pl.valid(n, es, active, only_active),
        edges_below(es, n),
        active.len() == n,
        walk(es, w),
        w.len() >= 2,
        forall|i: int| 0 <= i < w.len() ==> (#[trigger] w[i]) < n && pl.done@[w[i] as int],
        forall|i: int| 0 <= i < w.len() ==> active[(#[trigger] w[i]) as int],
    ensures
        w[0] != w.last(),
{
    lemma_rank_grows(es, active, only_active, pl, n, w, w.len() - 1);
}

/// A walk of length `k` that ends at `v` and runs backwards through the
/// held-back vertices.
proof fn back_walk(es: Seq<(usize, usize)>, held: Seq<bool>, v: usize, k: nat) -> (w: Seq<usize>)
    requires
        edges_below(es, held.len()),
        v < held.len(),
        held[v as int],
        forall|u: int| 0 <= u < held.len() && held[u] ==> exists|j: int|
            0 <= j < es.len() && es[j].1 == u && #[trigger] held[es[j].0 as int],
        k >= 1,
    ensures
        walk(es, w),
        w.len() == k,
        w.last() == v,
        forall|i: int| 0 <= i < w.len() ==> (#[trigger] w[i]) < held.len() && held[w[i] as int],
    decreases k,
{
    if k == 1 {
        let w = seq![v];
        w
    } else {
        let j = choose|j: int| 0 <= j < es.len() && es[j].1 == v && #[trigger] held[es[j].0 as int];
        let u = es[j].0;
        let w0 = back_walk(es, held, u, (k - 1) as nat);
        assert(es[j] == (u, v));
        lemma_walk_push(es, w0, v);
        let w = w0.push(v);
        assert forall|i: int| 0 <= i < w.len() implies (#[trigger] w[i]) < held.len() && held[w[i] as int] by {
            if i < w0.len() {
                assert(w[i] == w0[i]);
            }
        }
        w
    }
}

/// A sequence longer than `n` of numbers below `n` repeats one.
pub proof fn lemma_pigeonhole(w: Seq<usize>, n: nat) -> (r: (int, int))
    requires
        w.len() > n,
        forall|i: int| 0 <= i < w.len() ==> (#[trigger] w[i]) < n,
    ensures
        0 <= r.0 < r.1 < w.len(),
        w[r.0] == w[r.1],
{
    let ws = w.map_values(|x: usize| x as int);
    let range = vstd::set_lib::set_int_range(0, n as int);
    vstd::set_lib::lemma_int_range(0, n as int);
    assert forall|x: int| ws.to_set().contains(x) implies range.contains(x) by {
        let i = choose|i: int| 0 <= i < ws.len() && ws[i] == x;
        assert(w[i] < n);
    }
    assert(ws.to_set().subset_of(range));
    vstd::set_lib::lemma_len_subset(ws.to_set(), range);
    if ws.no_duplicates() {
        ws.unique_seq_to_set();
        assert(false);
    }
    let (a, b) = choose|a: int, b: int| 0 <= a < ws.len() && 0 <= b < ws.len() && a != b && ws[a] == ws[b];
    assert(ws[a] == w[a] as int && ws[b] == w[b] as int);
    if a < b { (a, b) } else { (b, a) }
}

/// If every held-back vertex has an edge from a held-back vertex, one of
/// them lies on a cycle whose vertices are all held back.
pub proof fn lemma_held_back_cycle(es: Seq<(usize, usize)>, held: Seq<bool>, v: usize) -> (c: Seq<usize>)
    requires
        edges_below(es, held.len()),
        v < held.len(),
        held[v as int],
        forall|u: int| 0 <= u < held.len() && held[u] ==> exists|j: int|
            0 <= j < es.len() && es[j].1 == u && #[trigger] held[es[j].0 as int],
    ensures
        walk(es, c),
        c.len() >= 2,
        c[0] == c.last(),
        forall|i: int| 0 <= i < c.len() ==> (#[trigger] c[i]) < held.len() && held[c[i] as int],
{
    let n = held.len();
    let w = back_walk(es, held, v, n + 1);
    let (lo, hi) = lemma_pigeonhole(w, n);
    lemma_walk_sub(es, w, lo, hi + 1);
    let c = w.subrange(lo, hi + 1);
    assert forall|i: int| 0 <= i < c.len() implies (#[trigger] c[i]) < held.len() && held[c[i] as int] by {
        assert(c[i] == w[lo + i]);
    }
    c
}

/// Some cycle can be reached from the starts.
pub open spec fn cycle_reached(es: Seq<(usize, usize)>, starts: Seq<usize>) -> bool {
    exists|v: usize| #[trigger] reached(es, starts, v) && on_cycle(es, v)
}

/// Every vertex of a walk that starts at a reached vertex is reached.
proof fn lemma_reached_along(es: Seq<(usize, usize)>, starts: Seq<usize>, w: Seq<usize>, i: int)
    requires
        walk(es, w),
        reached(es, starts, w[0]),
        0 <= i < w.len(),
    ensures
        reached(es, starts, w[i]),
{
    let s = choose|s: usize| #[trigger] starts.contains(s) && reaches(es, s, w[0]);
    let p = choose|p: Seq<usize>| #[trigger] walk(es, p) && p[0] == s && p.last() == w[0];
    lemma_walk_sub(es, w, 0, i + 1);
    let q = w.subrange(0, i + 1);
    lemma_walk_join(es, p, q);
    assert(walk(es, p + q.drop_first()));
    assert(reaches(es, s, w[i]));
}

/// Whether some cycle can be reached from the starts.
pub fn has_reachable_cycle(n: usize, es: &Vec<(usize, usize)>, starts: &Vec<usize>) -> (r: bool)
    requires
        edges_below(es@, n as nat),
        forall|i: int| 0 <= i < starts@.len() ==> starts@[i] < n,
    ensures
        r == cycle_reached(es@, starts@),
{
    let reach = reachable_flags(n, es, starts);
    let pl = peel(n, es, &reach, true);
    let mut v: usize = 0;
    while v < n
        invariant
            v <= n,
            reach@.len() == n,
            edges_below(es@, n as nat),
            forall|i: int| 0 <= i < starts@.len() ==> starts@[i] < n,
            forall|u: usize| u < n ==> (reach@[u as int] <==> reached(es@, starts@, u)),
            pl.valid(n as nat, es@, reach@, true),
            pl.stuck(n as nat, es@, reach@, true),
            forall|u: int| 0 <= u < v && reach@[u] ==> pl.done@[u],
        decreases n - v,
    {
        if reach[v] && !pl.done[v] {
            proof {
                let held = Seq::new(n as nat, |u: int| reach@[u] && !pl.done@[u]);
                assert forall|u: int| 0 <= u < held.len() && held[u] implies exists|j: int|
                    0 <= j < es@.len() && es@[j].1 == u && #[trigger] held[es@[j].0 as int] by {
                    assert(reach@[u] && !pl.done@[u]);
                    let j = choose|j: int| 0 <= j < es@.len() && es@[j].1 == u
                        && counts(es@, reach@, true, j) && !(#[trigger] pl.done@[es@[j].0 as int]);
                    assert(es@[j].0 < n);
                    assert(held[es@[j].0 as int]);
                }
                let c = lemma_held_back_cycle(es@, held, v);
                assert(held[c[0] as int]);
                assert(reach@[c[0] as int]);
                assert(reached(es@, starts@, c[0]));
                assert(on_cycle(es@, c[0]));
            }
            return true;
        }
        v += 1;
    }
    proof {
        if cycle_reached(es@, starts@) {
            let x = choose|x: usize| #[trigger] reached(es@, starts@, x) && on_cycle(es@, x);
            let w = choose|w: Seq<usize>| #[trigger] walk(es@, w) && w.len() >= 2 && w[0] == x && w.last() == x;
            assert forall|i: int| 0 <= i < w.len() implies (#[trigger] w[i]) < n && pl.done@[w[i] as int] by {
                lemma_reached_along(es@, starts@, w, i);
                if i < w.len() - 1 {
                    assert(edge(es@, w[i], w[i + 1]));
                    let j = choose|j: int| 0 <= j < es@.len() && #[trigger] es@[j] == (w[i], w[i + 1]);
                    assert(es@[j].0 < n);
                } else {
                    assert(edge(es@, w[i - 1], w[i]));
                    let j = choose|j: int| 0 <= j < es@.len() && #[trigger] es@[j] == (w[i - 1], w[i]);
                    assert(es@[j].1 < n);
                }
                assert(reach@[w[i] as int]);
            }
            assert forall|i: int| 0 <= i < w.len() implies reach@[(#[trigger] w[i]) as int] by {
                assert(pl.done@[w[i] as int]);
            }
            lemma_peeled_no_cycle(es@, reach@, true, pl, n as nat, w);
        }
    }
    false
}

} // verus!
