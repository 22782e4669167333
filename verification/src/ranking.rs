//! Ranking containers by utilisation: processor time first, then resident
//! memory, then virtual memory, all in decreasing order, equal ones keeping
//! the order in which they were reported.

use vstd::prelude::*;
use crate::container::Container;

verus! {

/// `a` ranks strictly before `b` when only the first `level` keys
/// (processor time, resident memory, virtual memory) are compared.
pub open spec fn ahead(level: int, a: Container, b: Container) -> bool {
    if level <= 0 {
        false
    } else if level == 1 {
        a.cpu_usage > b.cpu_usage
    } else if level == 2 {
        a.cpu_usage > b.cpu_usage || (a.cpu_usage == b.cpu_usage && a.rss > b.rss)
    } else {
        a.cpu_usage > b.cpu_usage || (a.cpu_usage == b.cpu_usage && a.rss > b.rss) || (
        a.cpu_usage == b.cpu_usage && a.rss == b.rss && a.vsz > b.vsz)
    }
}

/// `a` and `b` agree on the first `level` keys.
pub open spec fn same_key(level: int, a: Container, b: Container) -> bool {
    &&& level >= 1 ==> a.cpu_usage == b.cpu_usage
    &&& level >= 2 ==> a.rss == b.rss
    &&& level >= 3 ==> a.vsz == b.vsz
}

/// No container of `s` ranks strictly before one that precedes it.
pub open spec fn ordered_at(level: int, s: Seq<Container>) -> bool {
    forall|i: int, j: int| 0 <= i < j < s.len() ==> !ahead(level, #[trigger] s[j], #[trigger] s[i])
}

/// `p` is a permutation of the indices `0..n`.
pub open spec fn is_permutation(p: Seq<int>, n: nat) -> bool {
    &&& p.len() == n
    &&& forall|k: int| 0 <= k < n ==> 0 <= #[trigger] p[k] < n
    &&& forall|a: int, b: int| 0 <= a < b < n ==> #[trigger] p[a] != #[trigger] p[b]
    &&& forall|t: int| 0 <= t < n ==> #[trigger] reached(p, t)
}

/// Some position of `p` holds `t`.
pub open spec fn reached(p: Seq<int>, t: int) -> bool {
    exists|k: int| 0 <= k < p.len() && p[k] == t
}

/// `output` lists the elements of `input`, the one at position `k` being the
/// one that stood at position `p[k]`.
pub open spec fn arranges(p: Seq<int>, input: Seq<Container>, output: Seq<Container>) -> bool {
    &&& output.len() == input.len()
    &&& is_permutation(p, input.len())
    &&& forall|k: int| 0 <= k < output.len() ==> #[trigger] output[k] == input[p[k]]
}

/// Containers of `output` that agree on the first `level` keys appear in the
/// order in which they stood in the input.
pub open spec fn stable_at(level: int, p: Seq<int>, output: Seq<Container>) -> bool {
    forall|a: int, b: int|
        0 <= a < b < output.len() && same_key(level, #[trigger] output[a], #[trigger] output[b])
            ==> p[a] < p[b]
}

/// `output` is `input` rearranged so that the first `level` keys decrease,
/// and ties keep their input order: a stable sort.
pub open spec fn stable_sorted(level: int, input: Seq<Container>, output: Seq<Container>) -> bool {
    &&& ordered_at(level, output)
    &&& exists|p: Seq<int>| #[trigger] arranges(p, input, output) && stable_at(level, p, output)
}

/// The order in which the monitor ranks containers: by processor time, then
/// resident memory, then virtual memory, each decreasing, ties in input order.
pub open spec fn utilization_order(input: Seq<Container>, output: Seq<Container>) -> bool {
    stable_sorted(3, input, output)
}

/// The comparison that the pass of a given level makes between neighbours
/// `a` (left) and `b` (right): when it holds, they are swapped.
pub open spec fn swap_wanted(level: int, a: Container, b: Container) -> bool {
    if level == 1 {
        a.cpu_usage < b.cpu_usage
    } else if level == 2 {
        a.cpu_usage == b.cpu_usage && a.rss < b.rss
    } else {
        a.cpu_usage == b.cpu_usage && a.rss == b.rss && a.vsz < b.vsz
    }
}

fn should_swap(a: &Container, b: &Container, level: u8) -> (r: bool)
    requires
        1 <= level <= 3,
    ensures
        r == swap_wanted(level as int, *a, *b),
{
    if level == 1 {
        a.cpu_usage < b.cpu_usage
    } else if level == 2 {
        a.cpu_usage == b.cpu_usage && a.rss < b.rss
    } else {
        a.cpu_usage == b.cpu_usage && a.rss == b.rss && a.vsz < b.vsz
    }
}

/// Exchanges the neighbours at `j` and `j + 1`.
fn swap_adjacent<T>(v: &mut Vec<T>, j: usize)
    requires
        j + 1 < old(v).len(),
    ensures
        final(v)@ == old(v)@.update(j as int, old(v)@[j + 1]).update(j + 1, old(v)@[j as int]),
{
    let ghost before = v@;
    let x = v.remove(j);
    v.insert(j + 1, x);
    assert(v@ =~= before.update(j as int, before[j + 1]).update(j + 1, before[j as int]));
}


/// Swapping two neighbours that differ in rank keeps a stable arrangement
/// stable, and keeps the arrangement a permutation of the input.
proof fn lemma_swap_keeps_arrangement(
    level: int,
    orig: Seq<Container>,
    v: Seq<Container>,
    p: Seq<int>,
    j: int,
)
    requires
        arranges(p, orig, v),
        stable_at(level, p, v),
        0 <= j,
        j + 1 < v.len(),
        ahead(level, v[j + 1], v[j]),
    ensures
        ({
            let v2 = v.update(j, v[j + 1]).update(j + 1, v[j]);
            let p2 = p.update(j, p[j + 1]).update(j + 1, p[j]);
            arranges(p2, orig, v2) && stable_at(level, p2, v2)
        }),
{
    let v2 = v.update(j, v[j + 1]).update(j + 1, v[j]);
    let p2 = p.update(j, p[j + 1]).update(j + 1, p[j]);
    let n = v.len();
    assert forall|a: int, b: int| 0 <= a < b < n implies #[trigger] p2[a] != #[trigger] p2[b] by {
        let a0 = if a == j { j + 1 } else if a == j + 1 { j } else { a };
        let b0 = if b == j { j + 1 } else if b == j + 1 { j } else { b };
        assert(p2[a] == p[a0]);
        assert(p2[b] == p[b0]);
        if a0 < b0 {
            assert(p[a0] != p[b0]);
        } else {
            assert(p[b0] != p[a0]);
        }
    }
    assert forall|k: int| 0 <= k < n implies 0 <= #[trigger] p2[k] < n by {
        let k0 = if k == j { j + 1 } else if k == j + 1 { j } else { k };
        assert(p2[k] == p[k0]);
    }
    assert forall|t: int| 0 <= t < n implies #[trigger] reached(p2, t) by {
        assert(reached(p, t));
        let k = choose|k: int| 0 <= k < p.len() && p[k] == t;
        let k2 = if k == j { j + 1 } else if k == j + 1 { j } else { k };
        assert(p2[k2] == t);
    }
    assert forall|k: int| 0 <= k < v2.len() implies #[trigger] v2[k] == orig[p2[k]] by {
        let k0 = if k == j { j + 1 } else if k == j + 1 { j } else { k };
        assert(v2[k] == v[k0]);
        assert(p2[k] == p[k0]);
    }
    assert forall|a: int, b: int|
        0 <= a < b < v2.len() && same_key(level, #[trigger] v2[a], #[trigger] v2[b]) implies p2[a]
        < p2[b] by {
        let a0 = if a == j { j + 1 } else if a == j + 1 { j } else { a };
        let b0 = if b == j { j + 1 } else if b == j + 1 { j } else { b };
        assert(v2[a] == v[a0]);
        assert(v2[b] == v[b0]);
        if a == j && b == j + 1 {
            assert(false);
        }
        assert(a0 < b0);
        assert(same_key(level, v[a0], v[b0]));
    }
}

/// One family of bubble passes: `n` sweeps, each moving the container that
/// ranks last among the unsettled prefix to the end of that prefix.  The
/// comparison is the one of the given level; the list must already be ordered
/// by the keys of the levels below.
fn bubble_pass(v: &mut Vec<Container>, level: u8) -> (perm: Ghost<Seq<int>>)
    requires
        1 <= level <= 3,
        ordered_at(level - 1, old(v)@),
    ensures
        arranges(perm@, old(v)@, final(v)@),
        stable_at(level as int, perm@, final(v)@),
        ordered_at(level as int, final(v)@),
{
    let ghost lv = level as int;
    let ghost orig = v@;
    let n = v.len();
    let ghost mut p: Seq<int> = Seq::new(n as nat, |k: int| k);
    assert forall|t: int| 0 <= t < n implies #[trigger] reached(p, t) by {
        assert(p[t] == t);
    }
    let mut i: usize = 0;
    while i < n
        invariant
            1 <= lv <= 3,
            lv == level as int,
            n == v.len(),
            i <= n,
            arranges(p, orig, v@),
            stable_at(lv, p, v@),
            ordered_at(lv - 1, v@),
            forall|a: int, b: int|
                n - i <= a < b < n ==> !ahead(lv, #[trigger] v@[b], #[trigger] v@[a]),
            forall|a: int, b: int|
                0 <= a < n - i <= b < n ==> !ahead(lv, #[trigger] v@[b], #[trigger] v@[a]),
        decreases n - i,
    {
        let bound = n - i - 1;
        let mut j: usize = 0;
        while j < bound
            invariant
                1 <= lv <= 3,
                lv == level as int,
                n == v.len(),
                i < n,
                bound == n - i - 1,
                j <= bound,
                arranges(p, orig, v@),
                stable_at(lv, p, v@),
                ordered_at(lv - 1, v@),
                forall|a: int, b: int|
                    n - i <= a < b < n ==> !ahead(lv, #[trigger] v@[b], #[trigger] v@[a]),
                forall|a: int, b: int|
                    0 <= a < n - i <= b < n ==> !ahead(lv, #[trigger] v@[b], #[trigger] v@[a]),
                forall|k: int| 0 <= k < j ==> !ahead(lv, v@[j as int], #[trigger] v@[k]),
            decreases bound - j,
        {
            let ghost old_v = v@;
            assert(!ahead(lv - 1, old_v[j + 1], old_v[j as int]));
            if should_swap(&v[j], &v[j + 1], level) {
                assert(ahead(lv, old_v[j + 1], old_v[j as int]));
                proof {
                    lemma_swap_keeps_arrangement(lv, orig, old_v, p, j as int);
                }
                swap_adjacent(v, j);
                proof {
                    p = p.update(j as int, p[j + 1]).update(j + 1, p[j as int]);
                }
                let ghost new_v = v@;
                assert(same_key(lv - 1, old_v[j as int], old_v[j + 1]));
                assert forall|a: int, b: int| 0 <= a < b < n implies !ahead(
                    lv - 1,
                    #[trigger] new_v[b],
                    #[trigger] new_v[a],
                ) by {
                    let a0 = if a == j { j + 1 } else if a == j + 1 { j as int } else { a };
                    let b0 = if b == j { j + 1 } else if b == j + 1 { j as int } else { b };
                    assert(new_v[a] == old_v[a0]);
                    assert(new_v[b] == old_v[b0]);
                    assert(same_key(lv - 1, new_v[a], old_v[a]));
                    assert(same_key(lv - 1, new_v[b], old_v[b]));
                    assert(!ahead(lv - 1, old_v[b], old_v[a]));
                }
                assert forall|a: int, b: int| 0 <= a < n - i <= b < n implies !ahead(
                    lv,
                    #[trigger] new_v[b],
                    #[trigger] new_v[a],
                ) by {
                    let a0 = if a == j { j + 1 } else if a == j + 1 { j as int } else { a };
                    assert(new_v[a] == old_v[a0]);
                    assert(new_v[b] == old_v[b]);
                    assert(!ahead(lv, old_v[b], old_v[a0]));
                }
                assert forall|a: int, b: int| n - i <= a < b < n implies !ahead(
                    lv,
                    #[trigger] new_v[b],
                    #[trigger] new_v[a],
                ) by {
                    assert(new_v[a] == old_v[a]);
                    assert(new_v[b] == old_v[b]);
                }
                assert forall|k: int| 0 <= k < j + 1 implies !ahead(
                    lv,
                    new_v[j + 1],
                    #[trigger] new_v[k],
                ) by {
                    if k < j {
                        assert(new_v[k] == old_v[k]);
                        assert(!ahead(lv, old_v[j as int], old_v[k]));
                    }
                }
            } else {
                assert(!ahead(lv, old_v[j + 1], old_v[j as int]));
                assert forall|k: int| 0 <= k < j + 1 implies !ahead(
                    lv,
                    old_v[j + 1],
                    #[trigger] old_v[k],
                ) by {
                    if k < j {
                        assert(!ahead(lv, old_v[j as int], old_v[k]));
                    }
                }
            }
            j = j + 1;
        }
        let ghost w = v@;
        assert forall|a: int, b: int| n - (i + 1) <= a < b < n implies !ahead(
            lv,
            #[trigger] w[b],
            #[trigger] w[a],
        ) by {
            if a == n - i - 1 {
                assert(!ahead(lv, w[b], w[a]));
            }
        }
        assert forall|a: int, b: int| 0 <= a < n - (i + 1) <= b < n implies !ahead(
            lv,
            #[trigger] w[b],
            #[trigger] w[a],
        ) by {
            if b == n - i - 1 {
                assert(!ahead(lv, w[bound as int], w[a]));
            }
        }
        i = i + 1;
    }
    Ghost(p)
}

/// Ranks the containers by utilisation: the three passes of bubble sorts
/// by processor time, then by resident memory among equal processor time,
/// then by virtual memory among equal processor time and resident memory.
/// The result is `list` stably sorted in decreasing order of the three keys.
pub fn sort_by_utilization(list: Vec<Container>) -> (sorted: Vec<Container>)
    ensures
        sorted@.len() == list@.len(),
        utilization_order(list@, sorted@),
{
    let mut v = list;
    let ghost x = v@;
    let p1 = bubble_pass(&mut v, 1);
    let ghost v1 = v@;
    let p2 = bubble_pass(&mut v, 2);
    let ghost v2 = v@;
    let p3 = bubble_pass(&mut v, 3);
    let ghost v3 = v@;
    let ghost n = x.len();
    let ghost p = Seq::new(n, |k: int| p1@[p2@[p3@[k]]]);
    assert forall|k: int| 0 <= k < n implies 0 <= #[trigger] p[k] < n by {
        assert(0 <= p3@[k] < n);
        assert(0 <= p2@[p3@[k]] < n);
    }
    assert forall|a: int, b: int| 0 <= a < b < n implies #[trigger] p[a] != #[trigger] p[b] by {
        assert(p3@[a] != p3@[b]);
        let a3 = p3@[a];
        let b3 = p3@[b];
        if a3 < b3 {
            assert(p2@[a3] != p2@[b3]);
            if p2@[a3] < p2@[b3] {
                assert(p1@[p2@[a3]] != p1@[p2@[b3]]);
            } else {
                assert(p1@[p2@[b3]] != p1@[p2@[a3]]);
            }
        } else {
            assert(p2@[b3] != p2@[a3]);
            if p2@[a3] < p2@[b3] {
                assert(p1@[p2@[a3]] != p1@[p2@[b3]]);
            } else {
                assert(p1@[p2@[b3]] != p1@[p2@[a3]]);
            }
        }
    }
    assert forall|t: int| 0 <= t < n implies #[trigger] reached(p, t) by {
        assert(reached(p1@, t));
        let k1 = choose|k: int| 0 <= k < p1@.len() && p1@[k] == t;
        assert(reached(p2@, k1));
        let k2 = choose|k: int| 0 <= k < p2@.len() && p2@[k] == k1;
        assert(reached(p3@, k2));
        let k3 = choose|k: int| 0 <= k < p3@.len() && p3@[k] == k2;
        assert(p[k3] == t);
    }
    assert forall|k: int| 0 <= k < v3.len() implies #[trigger] v3[k] == x[p[k]] by {
        assert(v3[k] == v2[p3@[k]]);
        assert(v2[p3@[k]] == v1[p2@[p3@[k]]]);
    }
    assert forall|a: int, b: int|
        0 <= a < b < v3.len() && same_key(3, #[trigger] v3[a], #[trigger] v3[b]) implies p[a]
        < p[b] by {
        let a3 = p3@[a];
        let b3 = p3@[b];
        assert(a3 < b3);
        assert(v3[a] == v2[a3]);
        assert(v3[b] == v2[b3]);
        assert(same_key(2, v2[a3], v2[b3]));
        assert(p2@[a3] < p2@[b3]);
        assert(v2[a3] == v1[p2@[a3]]);
        assert(v2[b3] == v1[p2@[b3]]);
        assert(same_key(1, v1[p2@[a3]], v1[p2@[b3]]));
    }
    assert(arranges(p, x, v3));
    v
}

/// Two stable arrangements of the same input by the same level-3 order agree
/// on every position below `k`.
proof fn lemma_arrangements_agree(
    input: Seq<Container>,
    out1: Seq<Container>,
    p: Seq<int>,
    out2: Seq<Container>,
    q: Seq<int>,
    k: int,
)
    requires
        ordered_at(3, out1),
        ordered_at(3, out2),
        arranges(p, input, out1),
        stable_at(3, p, out1),
        arranges(q, input, out2),
        stable_at(3, q, out2),
        0 <= k <= input.len(),
    ensures
        forall|i: int| 0 <= i < k ==> p[i] == q[i],
    decreases k,
{
    if k > 0 {
        lemma_arrangements_agree(input, out1, p, out2, q, k - 1);
        let m = k - 1;
        let n = input.len() as int;
        if p[m] != q[m] {
            let a = p[m];
            let b = q[m];
            assert(reached(q, a));
            let ka = choose|i: int| 0 <= i < q.len() && q[i] == a;
            assert(reached(p, b));
            let kb = choose|i: int| 0 <= i < p.len() && p[i] == b;
            if ka < m {
                assert(p[ka] == q[ka]);
                assert(p[ka] != p[m]);
            }
            if kb < m {
                assert(p[kb] == q[kb]);
                assert(q[kb] != q[m]);
            }
            assert(ka > m);
            assert(kb > m);
            assert(out2[m] == input[b]);
            assert(out2[ka] == input[a]);
            assert(!ahead(3, out2[ka], out2[m]));
            assert(out1[m] == input[a]);
            assert(out1[kb] == input[b]);
            assert(!ahead(3, out1[kb], out1[m]));
            assert(same_key(3, out2[m], out2[ka]));
            assert(q[m] < q[ka]);
            assert(same_key(3, out1[m], out1[kb]));
            assert(p[m] < p[kb]);
        }
    }
}

/// The utilisation order of a list is unique: two rankings of the same
/// containers that both satisfy it are the same list.
pub proof fn lemma_utilization_order_unique(
    input: Seq<Container>,
    out1: Seq<Container>,
    out2: Seq<Container>,
)
    requires
        utilization_order(input, out1),
        utilization_order(input, out2),
    ensures
        out1 == out2,
{
    let p = choose|p: Seq<int>| #[trigger] arranges(p, input, out1) && stable_at(3, p, out1);
    let q = choose|q: Seq<int>| #[trigger] arranges(q, input, out2) && stable_at(3, q, out2);
    lemma_arrangements_agree(input, out1, p, out2, q, input.len() as int);
    assert forall|k: int| 0 <= k < out1.len() implies out1[k] == out2[k] by {
        assert(p[k] == q[k]);
    }
    assert(out1 =~= out2);
}

/// A list that is already in utilisation order is its own ranking: ranking
/// it again changes nothing.
pub proof fn lemma_ranked_list_is_fixed(s: Seq<Container>, out: Seq<Container>)
    requires
        ordered_at(3, s),
        utilization_order(s, out),
    ensures
        out == s,
{
    let id = Seq::new(s.len(), |k: int| k);
    assert forall|t: int| 0 <= t < s.len() implies #[trigger] reached(id, t) by {
        assert(id[t] == t);
    }
    assert(arranges(id, s, s));
    assert(stable_at(3, id, s));
    lemma_utilization_order_unique(s, s, out);
}

/// No two containers of `s` agree on all three keys.
pub open spec fn distinct_keys(s: Seq<Container>) -> bool {
    forall|i: int, j: int| 0 <= i < j < s.len() ==> !same_key(3, #[trigger] s[i], #[trigger] s[j])
}

/// Rearranging keeps the keys distinct.
pub proof fn lemma_arranged_keys_distinct(p: Seq<int>, input: Seq<Container>, output: Seq<Container>)
    requires
        arranges(p, input, output),
        distinct_keys(input),
    ensures
        distinct_keys(output),
{
    assert forall|a: int, b: int| 0 <= a < b < output.len() implies !same_key(
        3,
        #[trigger] output[a],
        #[trigger] output[b],
    ) by {
        assert(output[a] == input[p[a]]);
        assert(output[b] == input[p[b]]);
        assert(p[a] != p[b]);
        if p[a] < p[b] {
            assert(!same_key(3, input[p[a]], input[p[b]]));
        } else {
            assert(!same_key(3, input[p[b]], input[p[a]]));
        }
    }
}

/// A rearrangement holds exactly the containers of its input.
pub proof fn lemma_arranged_same_members(p: Seq<int>, input: Seq<Container>, output: Seq<Container>)
    requires
        arranges(p, input, output),
    ensures
        forall|x: Container| output.contains(x) <==> input.contains(x),
{
    assert forall|x: Container| output.contains(x) implies input.contains(x) by {
        let k = choose|k: int| 0 <= k < output.len() && output[k] == x;
        assert(input[p[k]] == x);
    }
    assert forall|x: Container| input.contains(x) implies output.contains(x) by {
        let t = choose|t: int| 0 <= t < input.len() && input[t] == x;
        assert(reached(p, t));
        let k = choose|k: int| 0 <= k < p.len() && p[k] == t;
        assert(output[k] == x);
    }
}

proof fn lemma_sorted_members_agree(s1: Seq<Container>, s2: Seq<Container>, k: int)
    requires
        ordered_at(3, s1),
        ordered_at(3, s2),
        distinct_keys(s1),
        distinct_keys(s2),
        forall|x: Container| s1.contains(x) <==> s2.contains(x),
        0 <= k <= s1.len(),
        k <= s2.len(),
    ensures
        forall|i: int| 0 <= i < k ==> s1[i] == s2[i],
    decreases k,
{
    if k > 0 {
        lemma_sorted_members_agree(s1, s2, k - 1);
        let m = k - 1;
        if s1[m] != s2[m] {
            let a = s1[m];
            let b = s2[m];
            assert(s1.contains(a));
            assert(s2.contains(a));
            let ja = choose|j: int| 0 <= j < s2.len() && s2[j] == a;
            assert(s2.contains(b));
            assert(s1.contains(b));
            let jb = choose|j: int| 0 <= j < s1.len() && s1[j] == b;
            if ja < m {
                assert(s1[ja] == s2[ja]);
                assert(!same_key(3, s1[ja], s1[m]));
            }
            if jb < m {
                assert(s1[jb] == s2[jb]);
                assert(!same_key(3, s2[jb], s2[m]));
            }
            assert(ja > m);
            assert(jb > m);
            assert(!ahead(3, s2[ja], s2[m]));
            assert(!ahead(3, s1[jb], s1[m]));
            assert(!same_key(3, s1[m], s1[jb]));
        }
    }
}

/// Two lists that are each in decreasing key order, with no two containers
/// sharing all keys, and that hold the same containers, are the same list.
pub proof fn lemma_sorted_same_members_equal(s1: Seq<Container>, s2: Seq<Container>)
    requires
        ordered_at(3, s1),
        ordered_at(3, s2),
        distinct_keys(s1),
        distinct_keys(s2),
        forall|x: Container| s1.contains(x) <==> s2.contains(x),
    ensures
        s1 == s2,
{
    let n = if s1.len() <= s2.len() { s1.len() as int } else { s2.len() as int };
    lemma_sorted_members_agree(s1, s2, n);
    if s1.len() < s2.len() {
        let x = s2[n];
        assert(s2.contains(x));
        assert(s1.contains(x));
        let j = choose|j: int| 0 <= j < s1.len() && s1[j] == x;
        assert(s1[j] == s2[j]);
        assert(!same_key(3, s2[j], s2[n]));
    }
    if s2.len() < s1.len() {
        let x = s1[n];
        assert(s1.contains(x));
        assert(s2.contains(x));
        let j = choose|j: int| 0 <= j < s2.len() && s2[j] == x;
        assert(s1[j] == s2[j]);
        assert(!same_key(3, s1[j], s1[n]));
    }
    assert(s1 =~= s2);
}

/// When no two containers share all three keys, the ranking does not depend
/// on the order in which the containers were listed: ranking any reordering
/// of the list gives the same ranking.
pub proof fn lemma_ranking_independent_of_listing_order(
    q: Seq<int>,
    list1: Seq<Container>,
    list2: Seq<Container>,
    ranked1: Seq<Container>,
    ranked2: Seq<Container>,
)
    requires
        arranges(q, list1, list2),
        distinct_keys(list1),
        utilization_order(list1, ranked1),
        utilization_order(list2, ranked2),
    ensures
        ranked1 == ranked2,
{
    let p1 = choose|p: Seq<int>| #[trigger] arranges(p, list1, ranked1) && stable_at(3, p, ranked1);
    let p2 = choose|p: Seq<int>| #[trigger] arranges(p, list2, ranked2) && stable_at(3, p, ranked2);
    lemma_arranged_keys_distinct(q, list1, list2);
    lemma_arranged_keys_distinct(p1, list1, ranked1);
    lemma_arranged_keys_distinct(p2, list2, ranked2);
    lemma_arranged_same_members(q, list1, list2);
    lemma_arranged_same_members(p1, list1, ranked1);
    lemma_arranged_same_members(p2, list2, ranked2);
    lemma_sorted_same_members_equal(ranked1, ranked2);
}

} // verus!
