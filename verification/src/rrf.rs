//! Reciprocal rank fusion: merging ranked lists by the places their records take.
//!
//! A record at place `r` of a list (1 is best) adds `1 / (k + r)` to its
//! fused score. This module finds, for every record that appears, the places
//! it takes, and orders the records once their scores are known. The sum
//! itself is floating-point arithmetic and is left to the caller.

use vstd::prelude::*;
use crate::float_bits::float_lt;
use crate::float_bits::lt;
use crate::float_bits::order_key;
use crate::ranking::is_permutation;
use crate::ranking::is_strict_total_order;
use crate::ranking::no_nan;
use crate::sqlite::views;
use crate::sqlite::Memory;
use crate::sqlite::MemoryView;
use crate::text::lemma_text_order;
use crate::text::text_less;
use crate::text::text_lt;

verus! {

/// Bit pattern of 25, the default damping constant.
pub const DEFAULT_K: u64 = 0x4039_0000_0000_0000;

/// Fusion configuration: `k`, the damping constant, as a binary64 bit pattern.
#[derive(Debug, Clone, Copy)]
pub struct RrfConfig {
    pub k: u64,
}

impl Default for RrfConfig {
    fn default() -> (r: Self)
        ensures
            r.k == DEFAULT_K,
    {
        RrfConfig { k: DEFAULT_K }
    }
}

/// A record that appears in the lists, with every place it takes, in the
/// order in which the lists are read.
pub struct FusedEntry {
    pub memory: Memory,
    pub ranks: Vec<usize>,
}

/// One appearance of a record: the record and its place, counted from 1.
pub ghost struct Occurrence {
    pub memory: MemoryView,
    pub rank: nat,
}

/// The appearances in one list, best first.
pub open spec fn list_occurrences(list: Seq<MemoryView>) -> Seq<Occurrence> {
    Seq::new(list.len(), |i: int| Occurrence { memory: list[i], rank: (i + 1) as nat })
}

/// The appearances in all lists, list after list.
pub open spec fn occurrences(lists: Seq<Seq<MemoryView>>) -> Seq<Occurrence>
    decreases lists.len(),
{
    if lists.len() == 0 {
        Seq::empty()
    } else {
        occurrences(lists.drop_last()) + list_occurrences(lists.last())
    }
}

/// The lists as their contracts speak of them.
pub open spec fn list_views(lists: Seq<Vec<Memory>>) -> Seq<Seq<MemoryView>> {
    lists.map_values(|l: Vec<Memory>| views(l@))
}

/// The places that the record `id` takes, in reading order.
pub open spec fn ranks_of(occ: Seq<Occurrence>, id: Seq<char>) -> Seq<nat> {
    occ.filter(|o: Occurrence| o.memory.id == id).map_values(|o: Occurrence| o.rank)
}

/// Places as numbers.
pub open spec fn rank_values(ranks: Seq<usize>) -> Seq<nat> {
    ranks.map_values(|r: usize| r as nat)
}

/// `entries` is the table of `occ`: one entry for each record that appears,
/// in the order of first appearance (`firsts[i]` is where entry `i` first
/// appears), holding the record as it first appeared and all its places.
pub open spec fn is_fusion_table(
    entries: Seq<FusedEntry>,
    occ: Seq<Occurrence>,
    firsts: Seq<int>,
) -> bool {
    &&& firsts.len() == entries.len()
    &&& forall|i: int|
        0 <= i < entries.len() ==> {
            &&& 0 <= #[trigger] firsts[i] < occ.len()
            &&& occ[firsts[i]].memory == entries[i].memory@
            &&& rank_values(entries[i].ranks@) == ranks_of(occ, entries[i].memory@.id)
        }
    &&& forall|i: int, k: int|
        0 <= i < entries.len() && 0 <= k < firsts[i] ==> (#[trigger] occ[k]).memory.id
            != (#[trigger] entries[i]).memory@.id
    &&& forall|i: int, j: int|
        0 <= i < j < entries.len() ==> #[trigger] firsts[i] < #[trigger] firsts[j]
    &&& forall|k: int|
        0 <= k < occ.len() ==> exists|i: int|
            0 <= i < entries.len() && (#[trigger] entries[i]).memory@.id == (
            #[trigger] occ[k]).memory.id
}

/// No two entries of a table hold the same record.
pub open spec fn has_distinct_ids(entries: Seq<FusedEntry>) -> bool {
    forall|i: int, j: int|
        0 <= i < j < entries.len() ==> (#[trigger] entries[i]).memory@.id != (
        #[trigger] entries[j]).memory@.id
}

/// A table holds each record once, and holds nothing when nothing appears.
pub proof fn lemma_table_is_exact(entries: Seq<FusedEntry>, occ: Seq<Occurrence>, firsts: Seq<int>)
    requires
        is_fusion_table(entries, occ, firsts),
    ensures
        has_distinct_ids(entries),
        occ.len() == 0 ==> entries.len() == 0,
        forall|i: int|
            0 <= i < entries.len() ==> exists|k: int|
                0 <= k < occ.len() && (#[trigger] occ[k]).memory == (#[trigger] entries[i]).memory@,
        forall|i: int| 0 <= i < entries.len() ==> (#[trigger] entries[i]).ranks@.len() > 0,
{
    assert forall|i: int, j: int| 0 <= i < j < entries.len() implies (#[trigger] entries[i]).memory@.id
        != (#[trigger] entries[j]).memory@.id by {
        assert(firsts[i] < firsts[j]);
        assert(occ[firsts[i]].memory.id == entries[i].memory@.id);
    }
    if occ.len() == 0 && entries.len() > 0 {
        assert(0 <= firsts[0] < occ.len());
    }
    assert forall|i: int| 0 <= i < entries.len() implies exists|k: int|
        0 <= k < occ.len() && (#[trigger] occ[k]).memory == (#[trigger] entries[i]).memory@ by {
        assert(occ[firsts[i]].memory == entries[i].memory@);
    }
    assert forall|i: int| 0 <= i < entries.len() implies (#[trigger] entries[i]).ranks@.len()
        > 0 by {
        let id = entries[i].memory@.id;
        let hit = |o: Occurrence| o.memory.id == id;
        let k = firsts[i];
        assert(occ[k].memory.id == id);
        occ.lemma_filter_contains(hit, k);
        assert(occ.filter(hit).contains(occ[k]));
        assert(occ.filter(hit).len() > 0);
        assert(rank_values(entries[i].ranks@).len() == occ.filter(hit).len());
    }
}

proof fn lemma_ranks_push(occ: Seq<Occurrence>, o: Occurrence, id: Seq<char>)
    ensures
        ranks_of(occ.push(o), id) == if o.memory.id == id {
            ranks_of(occ, id).push(o.rank)
        } else {
            ranks_of(occ, id)
        },
{
    let hit = |x: Occurrence| x.memory.id == id;
    occ.lemma_filter_push(o, hit);
    if o.memory.id == id {
        assert(occ.filter(hit).push(o).map_values(|x: Occurrence| x.rank) =~= occ.filter(
            hit,
        ).map_values(|x: Occurrence| x.rank).push(o.rank));
    }
}

proof fn lemma_ranks_of_stranger(occ: Seq<Occurrence>, id: Seq<char>)
    requires
        forall|k: int| 0 <= k < occ.len() ==> (#[trigger] occ[k]).memory.id != id,
    ensures
        ranks_of(occ, id) == Seq::<nat>::empty(),
{
    let hit = |x: Occurrence| x.memory.id == id;
    let kept = occ.filter(hit);
    if kept.len() > 0 {
        occ.lemma_filter_pred(hit, 0);
        assert(kept.contains(kept[0]));
        occ.lemma_filter_contains_rev(hit, kept[0]);
        let k = choose|k: int| 0 <= k < occ.len() && occ[k] == kept[0];
        assert(occ[k].memory.id != id);
    }
    assert(ranks_of(occ, id) =~= Seq::<nat>::empty());
}

/// Enters one more appearance into the table.
fn record(
    entries: &mut Vec<FusedEntry>,
    memory: &Memory,
    rank: usize,
    Ghost(occ): Ghost<Seq<Occurrence>>,
    Ghost(firsts): Ghost<Seq<int>>,
) -> (next: Ghost<Seq<int>>)
    requires
        is_fusion_table(old(entries)@, occ, firsts),
    ensures
        is_fusion_table(
            final(entries)@,
            occ.push(Occurrence { memory: memory@, rank: rank as nat }),
            next@,
        ),
{
    let ghost o = Occurrence { memory: memory@, rank: rank as nat };
    let ghost grown = occ.push(o);
    let ghost start = entries@;
    proof {
        lemma_table_is_exact(start, occ, firsts);
    }
    let mut idx: usize = 0;
    while idx < entries.len() && entries[idx].memory.id != memory.id
        invariant
            idx <= entries@.len(),
            entries@ == start,
            forall|i: int| 0 <= i < idx ==> (#[trigger] entries@[i]).memory@.id != memory@.id,
        decreases entries@.len() - idx,
    {
        idx += 1;
    }
    if idx < entries.len() {
        entries[idx].ranks.push(rank);
        proof {
            let now = entries@;
            assert(now.len() == start.len());
            assert forall|i: int| 0 <= i < now.len() implies {
                &&& 0 <= #[trigger] firsts[i] < grown.len()
                &&& grown[firsts[i]].memory == now[i].memory@
                &&& rank_values(now[i].ranks@) == ranks_of(grown, now[i].memory@.id)
            } by {
                lemma_ranks_push(occ, o, start[i].memory@.id);
                assert(grown[firsts[i]] == occ[firsts[i]]);
                if i == idx {
                    assert(rank_values(now[i].ranks@) =~= rank_values(start[i].ranks@).push(
                        rank as nat,
                    ));
                } else {
                    assert(now[i] == start[i]);
                }
            }
            assert forall|i: int, k: int| 0 <= i < now.len() && 0 <= k < firsts[i] implies (
            #[trigger] grown[k]).memory.id != (#[trigger] now[i]).memory@.id by {
                assert(grown[k] == occ[k]);
                assert(occ[k].memory.id != start[i].memory@.id);
            }
            assert forall|k: int| 0 <= k < grown.len() implies exists|i: int|
                0 <= i < now.len() && (#[trigger] now[i]).memory@.id == (
                #[trigger] grown[k]).memory.id by {
                if k < occ.len() {
                    assert(grown[k] == occ[k]);
                    let i = choose|i: int|
                        0 <= i < start.len() && (#[trigger] start[i]).memory@.id
                            == occ[k].memory.id;
                    assert(now[i].memory@.id == grown[k].memory.id);
                } else {
                    assert(now[idx as int].memory@.id == grown[k].memory.id);
                }
            }
            assert(is_fusion_table(now, grown, firsts));
        }
        Ghost(firsts)
    } else {
        let mut ranks: Vec<usize> = Vec::new();
        ranks.push(rank);
        entries.push(FusedEntry { memory: memory.clone(), ranks });
        let ghost next = firsts.push(occ.len() as int);
        proof {
            let now = entries@;
            assert forall|k: int| 0 <= k < occ.len() implies (#[trigger] occ[k]).memory.id
                != memory@.id by {
                let i = choose|i: int|
                    0 <= i < start.len() && (#[trigger] start[i]).memory@.id == occ[k].memory.id;
                assert(start[i].memory@.id != memory@.id);
            }
            lemma_ranks_of_stranger(occ, memory@.id);
            assert forall|i: int| 0 <= i < now.len() implies {
                &&& 0 <= #[trigger] next[i] < grown.len()
                &&& grown[next[i]].memory == now[i].memory@
                &&& rank_values(now[i].ranks@) == ranks_of(grown, now[i].memory@.id)
            } by {
                lemma_ranks_push(occ, o, now[i].memory@.id);
                if i < start.len() {
                    assert(now[i] == start[i]);
                    assert(next[i] == firsts[i]);
                    assert(grown[firsts[i]] == occ[firsts[i]]);
                } else {
                    assert(rank_values(now[i].ranks@) =~= Seq::<nat>::empty().push(rank as nat));
                }
            }
            assert forall|i: int, k: int| 0 <= i < now.len() && 0 <= k < next[i] implies (
            #[trigger] grown[k]).memory.id != (#[trigger] now[i]).memory@.id by {
                assert(grown[k] == occ[k]);
                if i < start.len() {
                    assert(now[i] == start[i]);
                    assert(occ[k].memory.id != start[i].memory@.id);
                }
            }
            assert forall|i: int, j: int| 0 <= i < j < now.len() implies #[trigger] next[i]
                < #[trigger] next[j] by {
                if j < start.len() {
                    assert(firsts[i] < firsts[j]);
                }
            }
            assert forall|k: int| 0 <= k < grown.len() implies exists|i: int|
                0 <= i < now.len() && (#[trigger] now[i]).memory@.id == (
                #[trigger] grown[k]).memory.id by {
                if k < occ.len() {
                    assert(grown[k] == occ[k]);
                    let i = choose|i: int|
                        0 <= i < start.len() && (#[trigger] start[i]).memory@.id
                            == occ[k].memory.id;
                    assert(now[i] == start[i]);
                } else {
                    assert(now[start.len() as int].memory@.id == grown[k].memory.id);
                }
            }
            assert(is_fusion_table(now, grown, next));
        }
        Ghost(next)
    }
}

/// For every record that appears in `result_lists`, the places it takes.
///
/// Each list is read best first. The result holds each record once, in the
/// order of first appearance and as it first appeared; a record that appears
/// nowhere is not in it, and no lists or only empty lists give an empty table.
pub fn gather_ranks(result_lists: &Vec<Vec<Memory>>) -> (entries: Vec<FusedEntry>)
    ensures
        exists|firsts: Seq<int>|
            is_fusion_table(entries@, occurrences(list_views(result_lists@)), firsts),
        has_distinct_ids(entries@),
        occurrences(list_views(result_lists@)).len() == 0 ==> entries@.len() == 0,
{
    let mut entries: Vec<FusedEntry> = Vec::new();
    let ghost mut firsts: Seq<int> = Seq::empty();
    let ghost all = list_views(result_lists@);
    let mut l: usize = 0;
    assert(all.take(0) =~= Seq::<Seq<MemoryView>>::empty());
    while l < result_lists.len()
        invariant
            l <= result_lists@.len(),
            all == list_views(result_lists@),
            is_fusion_table(entries@, occurrences(all.take(l as int)), firsts),
        decreases result_lists.len() - l,
    {
        let list = &result_lists[l];
        let ghost done = occurrences(all.take(l as int));
        let ghost here = list_occurrences(views(list@));
        let mut r: usize = 0;
        assert(done + here.take(0) =~= done);
        while r < list.len()
            invariant
                r <= list@.len(),
                here == list_occurrences(views(list@)),
                is_fusion_table(entries@, done + here.take(r as int), firsts),
            decreases list.len() - r,
        {
            let next = record(
                &mut entries,
                &list[r],
                r + 1,
                Ghost(done + here.take(r as int)),
                Ghost(firsts),
            );
            proof {
                firsts = next@;
                assert(here[r as int] == Occurrence { memory: list@[r as int]@, rank: (r + 1) as nat });
                assert((done + here.take(r as int)).push(here[r as int]) =~= done + here.take(
                    r + 1,
                ));
            }
            r += 1;
        }
        proof {
            assert(here.take(r as int) =~= here);
            assert(all.take(l + 1).drop_last() =~= all.take(l as int));
            assert(all.take(l + 1).last() == views(list@));
        }
        l += 1;
    }
    proof {
        assert(all.take(l as int) =~= all);
        lemma_table_is_exact(entries@, occurrences(all), firsts);
    }
    entries
}

/// The records of a table, by id.
pub open spec fn entry_ids(entries: Seq<FusedEntry>) -> Seq<Seq<char>> {
    entries.map_values(|e: FusedEntry| e.memory@.id)
}

/// Entry `i` belongs before entry `j` in the fused ranking: its score is
/// higher; or the scores are equal and its id comes first as text; or both
/// are equal and it came first.
pub open spec fn fused_before(scores: Seq<u64>, ids: Seq<Seq<char>>, i: int, j: int) -> bool {
    ||| order_key(scores[i]) > order_key(scores[j])
    ||| order_key(scores[i]) == order_key(scores[j]) && text_lt(ids[i], ids[j])
    ||| order_key(scores[i]) == order_key(scores[j]) && ids[i] == ids[j] && i < j
}

/// `order` lists the entries by fused rank.
pub open spec fn is_fused_order(scores: Seq<u64>, ids: Seq<Seq<char>>, order: Seq<usize>) -> bool {
    forall|a: int, b: int|
        0 <= a < b < order.len() ==> fused_before(
            scores,
            ids,
            #[trigger] order[a] as int,
            #[trigger] order[b] as int,
        )
}

proof fn lemma_fused_transitive(scores: Seq<u64>, ids: Seq<Seq<char>>, x: int, y: int, z: int)
    requires
        fused_before(scores, ids, x, y),
        fused_before(scores, ids, y, z),
    ensures
        fused_before(scores, ids, x, z),
{
    lemma_text_order(ids[x], ids[y], ids[z]);
}

/// Two orders of the same entries that both list them by `fused_before` are
/// the same order: where no score is NaN, the contract of `rank_fused`
/// leaves nothing open.
pub proof fn lemma_fused_order_unique(
    scores: Seq<u64>,
    ids: Seq<Seq<char>>,
    p: Seq<usize>,
    q: Seq<usize>,
)
    requires
        scores.len() == ids.len(),
        is_permutation(p, ids.len()),
        is_permutation(q, ids.len()),
        is_fused_order(scores, ids, p),
        is_fused_order(scores, ids, q),
    ensures
        p == q,
{
    let before = |i: int, j: int| fused_before(scores, ids, i, j);
    assert forall|i: int, j: int| 0 <= i < ids.len() && 0 <= j < ids.len() && i != j implies (
    #[trigger] before(i, j)) || before(j, i) by {
        lemma_text_order(ids[i], ids[j], ids[j]);
    }
    assert forall|i: int, j: int|
        0 <= i < ids.len() && 0 <= j < ids.len() && #[trigger] before(i, j) implies !before(
        j,
        i,
    ) by {
        lemma_text_order(ids[i], ids[j], ids[j]);
        lemma_text_order(ids[j], ids[j], ids[i]);
    }
    assert forall|i: int, j: int, k: int|
        0 <= i < ids.len() && 0 <= j < ids.len() && 0 <= k < ids.len() && #[trigger] before(i, j)
            && #[trigger] before(j, k) implies before(i, k) by {
        lemma_fused_transitive(scores, ids, i, j, k);
    }
    assert(is_strict_total_order(ids.len(), before));
    assert(crate::ranking::is_sorted_by(p, before));
    assert(crate::ranking::is_sorted_by(q, before));
    crate::ranking::lemma_sorted_order_unique(ids.len(), before, p, q);
}

/// Whether entry `x` goes ahead of entry `y` whatever their places in the
/// table: by score, then by id.
fn goes_ahead(scores: &Vec<u64>, entries: &Vec<FusedEntry>, x: usize, y: usize) -> (r: bool)
    requires
        scores@.len() == entries@.len(),
        x < entries@.len(),
        y < entries@.len(),
    ensures
        r == (float_lt(scores@[y as int], scores@[x as int]) || (!float_lt(
            scores@[x as int],
            scores@[y as int],
        ) && text_lt(entries@[x as int].memory@.id, entries@[y as int].memory@.id))),
{
    if lt(scores[y], scores[x]) {
        true
    } else if lt(scores[x], scores[y]) {
        false
    } else {
        text_less(entries[x].memory.id.as_str(), entries[y].memory.id.as_str())
    }
}

/// The order of the fused ranking: a permutation of the entries' indices
/// that, where no score is NaN, lists them by `fused_before`.
fn fused_order(scores: &Vec<u64>, entries: &Vec<FusedEntry>) -> (order: Vec<usize>)
    requires
        scores@.len() == entries@.len(),
    ensures
        is_permutation(order@, entries@.len()),
        no_nan(scores@) ==> is_fused_order(scores@, entry_ids(entries@), order@),
{
    let n = entries.len();
    let ghost ids = entry_ids(entries@);
    let mut order: Vec<usize> = Vec::new();
    let mut i: usize = 0;
    while i < n
        invariant
            i <= n == entries@.len(),
            scores@.len() == n,
            ids == entry_ids(entries@),
            order@.len() == i,
            forall|a: int| 0 <= a < order@.len() ==> (#[trigger] order@[a]) < i,
            forall|a: int, b: int|
                0 <= a < b < order@.len() ==> #[trigger] order@[a] != #[trigger] order@[b],
            no_nan(scores@) ==> is_fused_order(scores@, ids, order@),
        decreases n - i,
    {
        let mut j: usize = i;
        while j > 0 && goes_ahead(scores, entries, i, order[j - 1])
            invariant
                j <= i < n == entries@.len(),
                scores@.len() == n,
                ids == entry_ids(entries@),
                order@.len() == i,
                forall|a: int| 0 <= a < order@.len() ==> (#[trigger] order@[a]) < i,
                no_nan(scores@) ==> forall|b: int|
                    j <= b < i ==> fused_before(scores@, ids, i as int, (#[trigger] order@[b]) as int),
            decreases j,
        {
            j -= 1;
        }
        let ghost before = order@;
        order.insert(j, i);
        proof {
            let after = order@;
            assert forall|a: int| 0 <= a < after.len() implies (#[trigger] after[a]) < i + 1 by {
                if a < j {
                    assert(after[a] == before[a]);
                } else if a > j {
                    assert(after[a] == before[a - 1]);
                }
            }
            assert forall|a: int, b: int| 0 <= a < b < after.len() implies #[trigger] after[a]
                != #[trigger] after[b] by {
                let x = if a < j { a } else { a - 1 };
                let y = if b < j { b } else { b - 1 };
                if a != j {
                    assert(after[a] == before[x]);
                }
                if b != j {
                    assert(after[b] == before[y]);
                }
            }
            if no_nan(scores@) {
                assert forall|a: int, b: int| 0 <= a < b < after.len() implies fused_before(
                    scores@,
                    ids,
                    #[trigger] after[a] as int,
                    #[trigger] after[b] as int,
                ) by {
                    let x = if a < j { a } else { a - 1 };
                    let y = if b < j { b } else { b - 1 };
                    if a != j {
                        assert(after[a] == before[x]);
                    }
                    if b != j {
                        assert(after[b] == before[y]);
                    }
                    if b == j {
                        let p = before[j - 1] as int;
                        lemma_text_order(ids[i as int], ids[p], ids[p]);
                        assert(fused_before(scores@, ids, p, i as int));
                        if a < j - 1 {
                            assert(fused_before(scores@, ids, before[a] as int, p));
                            lemma_fused_transitive(scores@, ids, before[a] as int, p, i as int);
                        }
                    } else if a == j {
                        assert(fused_before(scores@, ids, i as int, before[y] as int));
                    } else {
                        assert(fused_before(scores@, ids, before[x] as int, before[y] as int));
                    }
                }
            }
        }
        i += 1;
    }
    order
}

/// `result` is the fused ranking of `entries` under `scores`, in `order`.
pub open spec fn is_fused_ranking(
    result: Seq<MemoryView>,
    entries: Seq<FusedEntry>,
    scores: Seq<u64>,
    order: Seq<usize>,
) -> bool {
    &&& is_permutation(order, entries.len())
    &&& no_nan(scores) ==> is_fused_order(scores, entry_ids(entries), order)
    &&& result.len() == entries.len()
    &&& forall|a: int|
        0 <= a < result.len() ==> #[trigger] result[a] == entries[order[a] as int].memory@.with_score(
            Some(scores[order[a] as int]),
        )
}

/// Each result of a fused ranking is the entry that the order names at its place.
proof fn lemma_result_ids(
    result: Seq<MemoryView>,
    entries: Seq<FusedEntry>,
    scores: Seq<u64>,
    order: Seq<usize>,
)
    requires
        is_fused_ranking(result, entries, scores, order),
    ensures
        result.len() == entries.len(),
        is_permutation(order, entries.len()),
        forall|a: int|
            0 <= a < result.len() ==> (#[trigger] result[a]).id == entries[order[a] as int].memory@.id,
{
}

/// The fused ranking holds exactly the records that appear in the lists,
/// each once: a record that appears nowhere is not in it, and nothing to
/// fuse gives an empty ranking.
pub proof fn lemma_fusion_is_exact(
    result: Seq<MemoryView>,
    entries: Seq<FusedEntry>,
    scores: Seq<u64>,
    order: Seq<usize>,
    occ: Seq<Occurrence>,
    firsts: Seq<int>,
)
    requires
        is_fusion_table(entries, occ, firsts),
        is_fused_ranking(result, entries, scores, order),
    ensures
        occ.len() == 0 ==> result.len() == 0,
        forall|a: int|
            #![trigger result[a]]
            0 <= a < result.len() ==> exists|k: int|
                0 <= k < occ.len() && (#[trigger] occ[k]).memory.id == result[a].id,
        forall|k: int|
            #![trigger occ[k]]
            0 <= k < occ.len() ==> exists|a: int|
                0 <= a < result.len() && (#[trigger] result[a]).id == occ[k].memory.id,
        forall|a: int, b: int|
            0 <= a < b < result.len() ==> (#[trigger] result[a]).id != (#[trigger] result[b]).id,
{
    lemma_every_result_appears(result, entries, scores, order, occ, firsts);
    lemma_every_record_is_ranked(result, entries, scores, order, occ, firsts);
    lemma_results_are_distinct(result, entries, scores, order, occ, firsts);
}

proof fn lemma_every_result_appears(
    result: Seq<MemoryView>,
    entries: Seq<FusedEntry>,
    scores: Seq<u64>,
    order: Seq<usize>,
    occ: Seq<Occurrence>,
    firsts: Seq<int>,
)
    requires
        is_fusion_table(entries, occ, firsts),
        is_fused_ranking(result, entries, scores, order),
    ensures
        occ.len() == 0 ==> result.len() == 0,
        forall|a: int|
            #![trigger result[a]]
            0 <= a < result.len() ==> exists|k: int|
                0 <= k < occ.len() && (#[trigger] occ[k]).memory.id == result[a].id,
{
    lemma_result_ids(result, entries, scores, order);
    lemma_table_is_exact(entries, occ, firsts);
    assert forall|a: int| #![trigger result[a]] 0 <= a < result.len() implies exists|k: int|
        0 <= k < occ.len() && (#[trigger] occ[k]).memory.id == result[a].id by {
        let i = order[a] as int;
        let k = firsts[i];
        assert(occ[k].memory.id == result[a].id);
    }
}

proof fn lemma_every_record_is_ranked(
    result: Seq<MemoryView>,
    entries: Seq<FusedEntry>,
    scores: Seq<u64>,
    order: Seq<usize>,
    occ: Seq<Occurrence>,
    firsts: Seq<int>,
)
    requires
        is_fusion_table(entries, occ, firsts),
        is_fused_ranking(result, entries, scores, order),
    ensures
        forall|k: int|
            #![trigger occ[k]]
            0 <= k < occ.len() ==> exists|a: int|
                0 <= a < result.len() && (#[trigger] result[a]).id == occ[k].memory.id,
{
    lemma_result_ids(result, entries, scores, order);
    assert forall|k: int| #![trigger occ[k]] 0 <= k < occ.len() implies exists|a: int|
        0 <= a < result.len() && (#[trigger] result[a]).id == occ[k].memory.id by {
        let i = choose|i: int|
            0 <= i < entries.len() && (#[trigger] entries[i]).memory@.id == occ[k].memory.id;
        let a = crate::ranking::lemma_place(order, i);
        assert(result[a].id == occ[k].memory.id);
    }
}

proof fn lemma_results_are_distinct(
    result: Seq<MemoryView>,
    entries: Seq<FusedEntry>,
    scores: Seq<u64>,
    order: Seq<usize>,
    occ: Seq<Occurrence>,
    firsts: Seq<int>,
)
    requires
        is_fusion_table(entries, occ, firsts),
        is_fused_ranking(result, entries, scores, order),
    ensures
        forall|a: int, b: int|
            0 <= a < b < result.len() ==> (#[trigger] result[a]).id != (#[trigger] result[b]).id,
{
    lemma_result_ids(result, entries, scores, order);
    lemma_table_is_exact(entries, occ, firsts);
    assert forall|a: int, b: int| 0 <= a < b < result.len() implies (#[trigger] result[a]).id != (
    #[trigger] result[b]).id by {
        let i = order[a] as int;
        let j = order[b] as int;
        assert(order[a] != order[b]);
        if i < j {
            assert(entries[i].memory@.id != entries[j].memory@.id);
        } else {
            assert(entries[j].memory@.id != entries[i].memory@.id);
        }
    }
}

/// The fused ranking: every entry of the table once, carrying its fused
/// score, highest score first and equal scores by ascending id.
///
/// `scores[i]` is the fused score of `entries[i]`.
pub fn rank_fused(entries: &Vec<FusedEntry>, scores: &Vec<u64>) -> (r: Vec<Memory>)
    requires
        scores@.len() == entries@.len(),
    ensures
        exists|order: Seq<usize>| is_fused_ranking(views(r@), entries@, scores@, order),
{
    let order = fused_order(scores, entries);
    let mut out: Vec<Memory> = Vec::new();
    let mut a: usize = 0;
    while a < order.len()
        invariant
            a <= order@.len(),
            is_permutation(order@, entries@.len()),
            scores@.len() == entries@.len(),
            out@.len() == a,
            forall|b: int|
                0 <= b < a ==> (#[trigger] out@[b])@ == entries@[order@[b] as int].memory@.with_score(
                    Some(scores@[order@[b] as int]),
                ),
        decreases order@.len() - a,
    {
        let k = order[a];
        out.push(entries[k].memory.scored(Some(scores[k])));
        a += 1;
    }
    assert(is_fused_ranking(views(out@), entries@, scores@, order@));
    out
}

} // verus!
