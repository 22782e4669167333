//! Which containers the monitor looks at, and which of the ranked ones it
//! removes.

use vstd::prelude::*;
use vstd::utf8::*;
use crate::container::Container;
use crate::ranking::{
    sort_by_utilization, utilization_order, arranges, stable_at, distinct_keys, same_key,
    lemma_arranged_keys_distinct, lemma_arranged_same_members, lemma_sorted_same_members_equal,
};

verus! {

/// The UTF-8 bytes of a container's identifier.
pub open spec fn id_bytes(c: Container) -> Seq<u8> {
    encode_utf8(c.id_container@)
}

/// The identifier can be cut after its twelfth byte: it is at least twelve
/// bytes long and that byte ends a character.
pub open spec fn id_head_cuttable(c: Container) -> bool {
    is_char_boundary(id_bytes(c), 12)
}

/// The short (twelve-byte) form of the identifier names the log container.
pub open spec fn is_log_container(c: Container, log_id: Seq<char>) -> bool {
    id_bytes(c).subrange(0, 12) == encode_utf8(log_id)
}

/// The containers that are candidates for cleanup: all but the log container.
pub open spec fn candidates(list: Seq<Container>, log_id: Seq<char>) -> Seq<Container> {
    list.filter(|c: Container| !is_log_container(c, log_id))
}

fn bytes_equal(a: &[u8], b: &[u8]) -> (r: bool)
    ensures
        r == (a@ == b@),
{
    if a.len() != b.len() {
        return false;
    }
    let n = a.len();
    let mut i: usize = 0;
    while i < n
        invariant
            n == a@.len(),
            n == b@.len(),
            i <= n,
            forall|k: int| 0 <= k < i ==> a@[k] == b@[k],
        decreases n - i,
    {
        if a[i] != b[i] {
            return false;
        }
        i = i + 1;
    }
    assert(a@ =~= b@);
    true
}

/// Whether the container is the log container: its identifier cut after the
/// twelfth byte equals `log_id`.
pub fn names_log_container(c: &Container, log_id: &str) -> (r: bool)
    requires
        id_head_cuttable(*c),
    ensures
        r == is_log_container(*c, log_id@),
{
    let (head, _tail) = c.id_container.as_str().split_at(12);
    bytes_equal(head.as_bytes(), log_id.as_bytes())
}

/// Drops the log container from the list and keeps the others in order.
pub fn exclude_log_container(list: Vec<Container>, log_id: &str) -> (kept: Vec<Container>)
    requires
        forall|k: int| 0 <= k < list@.len() ==> id_head_cuttable(#[trigger] list@[k]),
    ensures
        kept@ == candidates(list@, log_id@),
{
    let ghost pred = |c: Container| !is_log_container(c, log_id@);
    let mut kept: Vec<Container> = Vec::new();
    let n = list.len();
    let mut i: usize = 0;
    while i < n
        invariant
            n == list@.len(),
            i <= n,
            forall|k: int| 0 <= k < list@.len() ==> id_head_cuttable(#[trigger] list@[k]),
            pred == (|c: Container| !is_log_container(c, log_id@)),
            kept@ == list@.take(i as int).filter(pred),
        decreases n - i,
    {
        let c = &list[i];
        assert(list@.take(i as int + 1) =~= list@.take(i as int).push(list@[i as int]));
        proof {
            list@.take(i as int).lemma_filter_push(list@[i as int], pred);
        }
        if !names_log_container(c, log_id) {
            kept.push(c.duplicate());
        }
        i = i + 1;
    }
    assert(list@.take(n as int) =~= list@);
    kept
}

/// What the monitor does with a container at a given rank.
#[derive(PartialEq, Eq, Structural, Debug, Clone, Copy)]
pub enum Verdict {
    /// The top-ranked container: kept, and announced as the busiest.
    HighUtilization,
    /// Kept.
    Alive,
    /// The next-to-last container: kept, and announced as the least busy.
    LowUtilization,
    /// Forcibly removed.
    Remove,
}

/// The verdict for rank `i` of `n` ranked containers (`n` above five): the
/// first three and the last two stay, those between are removed.
pub open spec fn verdict_at(i: int, n: int) -> Verdict {
    if 3 <= i < n - 2 {
        Verdict::Remove
    } else if i == 0 {
        Verdict::HighUtilization
    } else if i == n - 2 {
        Verdict::LowUtilization
    } else {
        Verdict::Alive
    }
}

/// The verdicts for `count` ranked containers, rank by rank.  Nothing is
/// decided, and nothing removed, when there are five containers or fewer.
pub fn cleanup_verdicts(count: usize) -> (verdicts: Vec<Verdict>)
    ensures
        count <= 5 ==> verdicts@.len() == 0,
        count > 5 ==> verdicts@.len() == count,
        count > 5 ==> forall|i: int| 0 <= i < count ==> #[trigger] verdicts@[i] == verdict_at(i, count as int),
        count > 5 ==> verdicts@[0] == Verdict::HighUtilization,
        count > 5 ==> verdicts@[1] == Verdict::Alive && verdicts@[2] == Verdict::Alive,
        count > 5 ==> verdicts@[count - 2] == Verdict::LowUtilization,
        count > 5 ==> verdicts@[count - 1] == Verdict::Alive,
        count > 5 ==> forall|i: int| 3 <= i < count - 2 ==> #[trigger] verdicts@[i] == Verdict::Remove,
{
    let mut verdicts: Vec<Verdict> = Vec::new();
    if count > 5 {
        let mut i: usize = 0;
        while i < count
            invariant
                count > 5,
                i <= count,
                verdicts@.len() == i,
                forall|k: int| 0 <= k < i ==> #[trigger] verdicts@[k] == verdict_at(k, count as int),
            decreases count - i,
        {
            let v = if i > 2 && i < count - 2 {
                Verdict::Remove
            } else if i == 0 {
                Verdict::HighUtilization
            } else if i == count - 2 {
                Verdict::LowUtilization
            } else {
                Verdict::Alive
            };
            verdicts.push(v);
            i = i + 1;
        }
    }
    verdicts
}

/// The candidates for cleanup, ranked: the log container dropped, the others
/// in utilisation order.
pub fn rank_candidates(list: Vec<Container>, log_id: &str) -> (ranked: Vec<Container>)
    requires
        forall|k: int| 0 <= k < list@.len() ==> id_head_cuttable(#[trigger] list@[k]),
    ensures
        utilization_order(candidates(list@, log_id@), ranked@),
{
    let kept = exclude_log_container(list, log_id);
    sort_by_utilization(kept)
}

/// The log container is never removed: no container that the cleanup ranks
/// is the log container, so none that it removes is.
pub proof fn lemma_log_container_never_removed(
    list: Seq<Container>,
    log_id: Seq<char>,
    ranked: Seq<Container>,
    verdicts: Seq<Verdict>,
)
    requires
        utilization_order(candidates(list, log_id), ranked),
        verdicts.len() == ranked.len(),
    ensures
        forall|i: int|
            0 <= i < ranked.len() && verdicts[i] == Verdict::Remove ==> !is_log_container(
                #[trigger] ranked[i],
                log_id,
            ),
{
    let pred = |c: Container| !is_log_container(c, log_id);
    let kept = list.filter(pred);
    let p = choose|p: Seq<int>| #[trigger] arranges(p, kept, ranked) && stable_at(3, p, ranked);
    assert forall|i: int| 0 <= i < ranked.len() implies !is_log_container(
        #[trigger] ranked[i],
        log_id,
    ) by {
        assert(ranked[i] == kept[p[i]]);
        list.lemma_filter_pred(pred, p[i]);
    }
}

/// The outcome of analysing one snapshot: the containers ranked by
/// utilisation and, rank by rank, what happens to them.
pub struct CleanupPlan {
    pub ranked: Vec<Container>,
    pub verdicts: Vec<Verdict>,
}

/// The verdicts fit the number of ranked containers: none for five or fewer,
/// otherwise the verdict of each rank.
pub open spec fn verdicts_for(count: int, verdicts: Seq<Verdict>) -> bool {
    &&& count <= 5 ==> verdicts.len() == 0
    &&& count > 5 ==> verdicts.len() == count
    &&& count > 5 ==> forall|i: int| 0 <= i < count ==> #[trigger] verdicts[i] == verdict_at(i, count)
}

/// The cleanup of a snapshot run alongside the log service: the log
/// container set aside, the others ranked, the middle ones condemned.
pub fn plan_cleanup(processes: Vec<Container>, log_id: &str) -> (plan: CleanupPlan)
    requires
        forall|k: int| 0 <= k < processes@.len() ==> id_head_cuttable(#[trigger] processes@[k]),
    ensures
        utilization_order(candidates(processes@, log_id@), plan.ranked@),
        verdicts_for(plan.ranked@.len() as int, plan.verdicts@),
{
    let ranked = rank_candidates(processes, log_id);
    let verdicts = cleanup_verdicts(ranked.len());
    CleanupPlan { ranked, verdicts }
}

/// The survey of a snapshot when the monitor runs alone: every container
/// ranked, with the verdicts it would get (nothing is removed by the caller).
pub fn plan_survey(processes: Vec<Container>) -> (plan: CleanupPlan)
    ensures
        utilization_order(processes@, plan.ranked@),
        verdicts_for(plan.ranked@.len() as int, plan.verdicts@),
{
    let ranked = sort_by_utilization(processes);
    let verdicts = cleanup_verdicts(ranked.len());
    CleanupPlan { ranked, verdicts }
}

/// When more than five containers are ranked, exactly five survive: the
/// three busiest and the two least busy.
pub proof fn lemma_five_survive(count: int, verdicts: Seq<Verdict>)
    requires
        count > 5,
        verdicts_for(count, verdicts),
    ensures
        forall|i: int|
            0 <= i < count ==> (#[trigger] verdicts[i] != Verdict::Remove <==> (i < 3 || i
                >= count - 2)),
{
}

/// Keeping some containers of a list keeps their keys distinct.
proof fn lemma_filter_keys_distinct(list: Seq<Container>, pred: spec_fn(Container) -> bool)
    requires
        distinct_keys(list),
    ensures
        distinct_keys(list.filter(pred)),
    decreases list.len(),
{
    if list.len() > 0 {
        let rest = list.drop_last();
        let last = list.last();
        assert(rest.push(last) =~= list);
        assert(distinct_keys(rest));
        lemma_filter_keys_distinct(rest, pred);
        rest.lemma_filter_push(last, pred);
        let f = rest.filter(pred);
        if pred(last) {
            assert forall|a: int, b: int| 0 <= a < b < f.push(last).len() implies !same_key(
                3,
                #[trigger] f.push(last)[a],
                #[trigger] f.push(last)[b],
            ) by {
                if b == f.len() {
                    assert(f.contains(f[a]));
                    rest.lemma_filter_contains_rev(pred, f[a]);
                    let j = choose|j: int| 0 <= j < rest.len() && rest[j] == f[a];
                    assert(list[j] == f[a]);
                    assert(list[list.len() - 1] == last);
                    assert(!same_key(3, list[j], list[list.len() - 1]));
                } else {
                    assert(f.push(last)[a] == f[a]);
                    assert(f.push(last)[b] == f[b]);
                }
            }
        }
    }
}

/// A candidate is a listed container that is not the log container.
proof fn lemma_candidate_members(list: Seq<Container>, log_id: Seq<char>)
    ensures
        forall|x: Container|
            candidates(list, log_id).contains(x) <==> (list.contains(x) && !is_log_container(
                x,
                log_id,
            )),
{
    let pred = |c: Container| !is_log_container(c, log_id);
    assert forall|x: Container| #[trigger] list.filter(pred).contains(x) implies list.contains(x)
        && pred(x) by {
        list.lemma_filter_contains_rev(pred, x);
        let k = choose|k: int| 0 <= k < list.filter(pred).len() && list.filter(pred)[k] == x;
        list.lemma_filter_pred(pred, k);
    }
    assert forall|x: Container| list.contains(x) && pred(x) implies #[trigger] list.filter(
        pred,
    ).contains(x) by {
        let i = choose|i: int| 0 <= i < list.len() && list[i] == x;
        list.lemma_filter_contains(pred, i);
    }
}

/// The cleanup does not depend on the order in which the kernel module lists
/// the processes: when no two processes share all three keys, any reordering
/// of the list, with the same log container, yields the same ranking (so the
/// same report) and the same verdicts (so the same removals).
pub proof fn lemma_cleanup_independent_of_listing_order(
    q: Seq<int>,
    list1: Seq<Container>,
    list2: Seq<Container>,
    log_id: Seq<char>,
    ranked1: Seq<Container>,
    ranked2: Seq<Container>,
    verdicts1: Seq<Verdict>,
    verdicts2: Seq<Verdict>,
)
    requires
        arranges(q, list1, list2),
        distinct_keys(list1),
        utilization_order(candidates(list1, log_id), ranked1),
        utilization_order(candidates(list2, log_id), ranked2),
        verdicts_for(ranked1.len() as int, verdicts1),
        verdicts_for(ranked2.len() as int, verdicts2),
    ensures
        ranked1 == ranked2,
        verdicts1 == verdicts2,
{
    let pred = |c: Container| !is_log_container(c, log_id);
    let c1 = candidates(list1, log_id);
    let c2 = candidates(list2, log_id);
    let p1 = choose|p: Seq<int>| #[trigger] arranges(p, c1, ranked1) && stable_at(3, p, ranked1);
    let p2 = choose|p: Seq<int>| #[trigger] arranges(p, c2, ranked2) && stable_at(3, p, ranked2);
    lemma_arranged_keys_distinct(q, list1, list2);
    lemma_filter_keys_distinct(list1, pred);
    lemma_filter_keys_distinct(list2, pred);
    lemma_arranged_keys_distinct(p1, c1, ranked1);
    lemma_arranged_keys_distinct(p2, c2, ranked2);
    lemma_arranged_same_members(q, list1, list2);
    lemma_arranged_same_members(p1, c1, ranked1);
    lemma_arranged_same_members(p2, c2, ranked2);
    lemma_candidate_members(list1, log_id);
    lemma_candidate_members(list2, log_id);
    assert forall|x: Container| ranked1.contains(x) <==> ranked2.contains(x) by {
        assert(ranked1.contains(x) == c1.contains(x));
        assert(ranked2.contains(x) == c2.contains(x));
        assert(list1.contains(x) == list2.contains(x));
    }
    lemma_sorted_same_members_equal(ranked1, ranked2);
    if ranked1.len() > 5 {
        assert forall|i: int| 0 <= i < verdicts1.len() implies verdicts1[i] == verdicts2[i] by {
            assert(verdicts1[i] == verdict_at(i, ranked1.len() as int));
            assert(verdicts2[i] == verdict_at(i, ranked2.len() as int));
        }
    }
    assert(verdicts1 =~= verdicts2);
}

/// The roles of the ranks, for any number of containers above five: the
/// busiest is announced as such, the next-to-last is announced as the least
/// busy, ranks 1, 2 and the last stay without announcement, and every rank
/// between 3 and the next-to-last is removed.
pub proof fn lemma_verdict_roles(count: int, verdicts: Seq<Verdict>)
    requires
        count > 5,
        verdicts_for(count, verdicts),
    ensures
        verdicts.len() == count,
        verdicts[0] == Verdict::HighUtilization,
        verdicts[1] == Verdict::Alive,
        verdicts[2] == Verdict::Alive,
        verdicts[count - 2] == Verdict::LowUtilization,
        verdicts[count - 1] == Verdict::Alive,
        forall|i: int| 3 <= i < count - 2 ==> #[trigger] verdicts[i] == Verdict::Remove,
{
    assert(verdicts[0] == verdict_at(0, count));
    assert(verdicts[1] == verdict_at(1, count));
    assert(verdicts[2] == verdict_at(2, count));
    assert(verdicts[count - 2] == verdict_at(count - 2, count));
    assert(verdicts[count - 1] == verdict_at(count - 1, count));
}

/// Exactly one container is announced as the busiest and exactly one as the
/// least busy, whatever the number of containers above five.
pub proof fn lemma_one_high_one_low(count: int, verdicts: Seq<Verdict>)
    requires
        count > 5,
        verdicts_for(count, verdicts),
    ensures
        forall|i: int| 0 <= i < count && #[trigger] verdicts[i] == Verdict::HighUtilization ==> i == 0,
        forall|i: int| 0 <= i < count && #[trigger] verdicts[i] == Verdict::LowUtilization ==> i == count - 2,
        exists|i: int| 0 <= i < count && #[trigger] verdicts[i] == Verdict::LowUtilization,
{
    lemma_verdict_roles(count, verdicts);
    assert(verdicts[count - 2] == Verdict::LowUtilization);
}

} // verus!
