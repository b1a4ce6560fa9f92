//! Vector search over the rows of one project: the limit guard, the scan
//! that decodes every stored vector, and the ranking of the scored rows.

use vstd::prelude::*;
use vstd::string::*;
use super::embedding::blob_to_vec;
use super::embedding::comparable;
use super::embedding::decode;
use super::embedding::is_comparison_error;
use super::embedding::validate_vectors;
use super::embedding::EMBEDDING_BLOB_SIZE;
use super::Error;
use super::Memory;
use super::StoredRow;
use super::MemoryView;
use super::views;
use crate::float_bits::float_le;
use crate::float_bits::le;
use crate::ranking::is_descending_stable;
use crate::ranking::is_permutation;
use crate::ranking::no_nan;
use crate::ranking::stable_order_desc;
use crate::text::decimal;
use crate::text::decimal_digits;

verus! {

/// The largest number of results that a search or a listing may ask for.
pub const MAX_SEARCH_LIMIT: usize = 10_000;

/// The text that rejects a limit above the maximum.
pub open spec fn limit_exceeded_text(limit: usize) -> Seq<char> {
    "Limit "@ + decimal_digits(limit as nat) + " exceeds maximum allowed ("@ + decimal_digits(
        MAX_SEARCH_LIMIT as nat,
    ) + ")"@
}

/// The text that rejects a limit above the maximum.
pub fn limit_exceeded_message(limit: usize) -> (r: String)
    ensures
        r@ == limit_exceeded_text(limit),
{
    let mut m = String::from_str("Limit ");
    m.append(decimal(limit).as_str());
    m.append(" exceeds maximum allowed (");
    m.append(decimal(MAX_SEARCH_LIMIT).as_str());
    m.append(")");
    m
}

/// A limit is accepted when it is at least 1 and at most `MAX_SEARCH_LIMIT`.
pub open spec fn is_valid_limit(limit: usize) -> bool {
    0 < limit <= MAX_SEARCH_LIMIT
}

/// Accepts a limit from 1 to `MAX_SEARCH_LIMIT`; rejects zero and everything above.
pub fn validate_limit(limit: usize) -> (r: Result<(), Error>)
    ensures
        is_valid_limit(limit) <==> r is Ok,
        limit == 0 ==> (r matches Err(Error::InvalidLimit(msg)) && msg@
            == "Limit must be greater than 0"@),
        limit > MAX_SEARCH_LIMIT ==> (r matches Err(Error::InvalidLimit(msg)) && msg@
            == limit_exceeded_text(limit)),
{
    if limit == 0 {
        return Err(Error::InvalidLimit(String::from_str("Limit must be greater than 0")));
    }
    if limit > MAX_SEARCH_LIMIT {
        return Err(Error::InvalidLimit(limit_exceeded_message(limit)));
    }
    Ok(())
}

/// A stored blob that can be scored against `query`.
pub open spec fn row_is_sound(query: Seq<u32>, blob: Seq<u8>) -> bool {
    blob.len() == EMBEDDING_BLOB_SIZE && comparable(query, decode(blob))
}

/// `e` is the error that the row with `blob` gives when scored against
/// `query`: a wrong blob size first, then what comparing the vectors gives.
pub open spec fn is_row_error(query: Seq<u32>, blob: Seq<u8>, e: Error) -> bool {
    if blob.len() != EMBEDDING_BLOB_SIZE {
        e matches Error::InvalidBlobSize { expected, actual } && expected == EMBEDDING_BLOB_SIZE
            && actual == blob.len()
    } else {
        is_comparison_error(query, decode(blob), e)
    }
}

/// The blobs of `rows`.
pub open spec fn blobs(rows: Seq<StoredRow>) -> Seq<Seq<u8>> {
    rows.map_values(|row: StoredRow| row.embedding@)
}

/// Decodes the vector of every row and checks it against the query vector.
///
/// Succeeds only when every row is sound. Otherwise the whole scan fails
/// with the error of the first row that is not: no row is skipped.
pub fn decode_rows(query: &[u32], rows: &Vec<StoredRow>) -> (r: Result<Vec<Vec<u32>>, Error>)
    ensures
        match r {
            Ok(vectors) => {
                &&& vectors@.len() == rows@.len()
                &&& forall|i: int|
                    0 <= i < rows@.len() ==> {
                        &&& row_is_sound(query@, #[trigger] rows@[i].embedding@)
                        &&& vectors@[i]@ == decode(rows@[i].embedding@)
                    }
            },
            Err(e) => exists|k: int|
                {
                    &&& 0 <= k < rows@.len()
                    &&& !row_is_sound(query@, #[trigger] rows@[k].embedding@)
                    &&& is_row_error(query@, rows@[k].embedding@, e)
                    &&& forall|i: int|
                        0 <= i < k ==> row_is_sound(query@, #[trigger] rows@[i].embedding@)
                },
        },
{
    let mut vectors: Vec<Vec<u32>> = Vec::new();
    let mut i: usize = 0;
    while i < rows.len()
        invariant
            i <= rows@.len(),
            vectors@.len() == i,
            forall|j: int|
                0 <= j < i ==> {
                    &&& row_is_sound(query@, #[trigger] rows@[j].embedding@)
                    &&& vectors@[j]@ == decode(rows@[j].embedding@)
                },
        decreases rows.len() - i,
    {
        let stored = match blob_to_vec(rows[i].embedding.as_slice()) {
            Ok(v) => v,
            Err(e) => {
                assert(!row_is_sound(query@, rows@[i as int].embedding@));
                return Err(e);
            },
        };
        match validate_vectors(query, stored.as_slice()) {
            Ok(()) => {},
            Err(e) => {
                assert(!row_is_sound(query@, rows@[i as int].embedding@));
                return Err(e);
            },
        }
        vectors.push(stored);
        i += 1;
    }
    Ok(vectors)
}

/// `result` is `memories` ranked by `scores`: the items in `order`, each
/// carrying its score, cut after `limit` items.
pub open spec fn is_ranking(
    result: Seq<MemoryView>,
    memories: Seq<MemoryView>,
    scores: Seq<u64>,
    limit: nat,
    order: Seq<usize>,
) -> bool {
    &&& is_permutation(order, memories.len())
    &&& no_nan(scores) ==> is_descending_stable(scores, order)
    &&& result.len() == if limit < memories.len() {
        limit
    } else {
        memories.len()
    }
    &&& forall|a: int|
        0 <= a < result.len() ==> #[trigger] result[a] == memories[order[a] as int].with_score(
            Some(scores[order[a] as int]),
        )
}

/// The `limit` best of `memories`, where `scores[i]` is the score of `memories[i]`.
///
/// Each result carries its score. The best score comes first; records with
/// equal scores keep the order they had. Nothing is dropped but by the cut.
pub fn top_matches(memories: &Vec<Memory>, scores: &Vec<u64>, limit: usize) -> (r: Vec<Memory>)
    requires
        memories@.len() == scores@.len(),
    ensures
        exists|order: Seq<usize>| is_ranking(views(r@), views(memories@), scores@, limit as nat, order),
{
    let order = stable_order_desc(scores);
    let n = if limit < order.len() {
        limit
    } else {
        order.len()
    };
    let mut out: Vec<Memory> = Vec::new();
    let mut a: usize = 0;
    while a < n
        invariant
            a <= n <= order@.len(),
            is_permutation(order@, memories@.len()),
            memories@.len() == scores@.len(),
            out@.len() == a,
            forall|b: int|
                0 <= b < a ==> (#[trigger] out@[b])@ == memories@[order@[b] as int]@.with_score(
                    Some(scores@[order@[b] as int]),
                ),
        decreases n - a,
    {
        let k = order[a];
        out.push(memories[k].scored(Some(scores[k])));
        a += 1;
    }
    assert(is_ranking(views(out@), views(memories@), scores@, limit as nat, order@));
    out
}

/// In a ranking by scores that are all numbers, no result scores higher
/// than a result before it, and every result comes from the ranked records.
pub proof fn lemma_ranking_descends(
    result: Seq<MemoryView>,
    memories: Seq<MemoryView>,
    scores: Seq<u64>,
    limit: nat,
    order: Seq<usize>,
)
    requires
        memories.len() == scores.len(),
        no_nan(scores),
        is_ranking(result, memories, scores, limit, order),
    ensures
        result.len() <= limit,
        forall|a: int, b: int|
            0 <= a < b < result.len() ==> float_le(
                (#[trigger] result[b]).score(),
                (#[trigger] result[a]).score(),
            ),
        forall|a: int|
            0 <= a < result.len() ==> exists|i: int|
                0 <= i < memories.len() && #[trigger] result[a] == (#[trigger] memories[i]).with_score(
                    Some(scores[i]),
                ),
{
    assert forall|a: int, b: int| 0 <= a < b < result.len() implies float_le(
        (#[trigger] result[b]).score(),
        (#[trigger] result[a]).score(),
    ) by {
        assert(crate::ranking::ranks_before(scores, order[a] as int, order[b] as int));
        assert(result[a].score() == scores[order[a] as int]);
        assert(result[b].score() == scores[order[b] as int]);
    }
    assert forall|a: int| 0 <= a < result.len() implies exists|i: int|
        0 <= i < memories.len() && #[trigger] result[a] == (#[trigger] memories[i]).with_score(
            Some(scores[i]),
        ) by {
        let i = order[a] as int;
        assert(result[a] == memories[i].with_score(Some(scores[i])));
    }
}

/// A record whose score is at least `threshold`, both read as numbers.
pub open spec fn meets_threshold(m: MemoryView, threshold: u64) -> bool {
    float_le(threshold, m.score())
}

/// The records whose score is at least `threshold`, in the order given.
///
/// A record without a score counts as scoring zero. A NaN on either side
/// meets nothing.
pub fn filter_similar(results: &Vec<Memory>, threshold: u64) -> (r: Vec<Memory>)
    ensures
        views(r@) == views(results@).filter(|m: MemoryView| meets_threshold(m, threshold)),
{
    let ghost keep = |m: MemoryView| meets_threshold(m, threshold);
    let mut out: Vec<Memory> = Vec::new();
    let mut i: usize = 0;
    assert(views(results@.take(0)) =~= Seq::<MemoryView>::empty());
    while i < results.len()
        invariant
            i <= results@.len(),
            keep == |m: MemoryView| meets_threshold(m, threshold),
            views(out@) == views(results@.take(i as int)).filter(keep),
        decreases results.len() - i,
    {
        let ghost seen = views(results@.take(i as int));
        proof {
            assert(views(results@.take(i + 1)) =~= seen.push(results@[i as int]@));
            seen.lemma_filter_push(results@[i as int]@, keep);
        }
        if le(threshold, results[i].score()) {
            let ghost before = out@;
            out.push(results[i].clone());
            assert(views(out@) =~= views(before).push(results@[i as int]@));
        }
        i += 1;
    }
    assert(results@.take(i as int) =~= results@);
    out
}

/// The stored memories that stand against an addition: the `MAX_SEARCH_LIMIT`
/// best of `memories` under `scores`, of which those are kept whose score is
/// at least `threshold`.
pub fn find_similar(memories: &Vec<Memory>, scores: &Vec<u64>, threshold: u64) -> (r: Vec<Memory>)
    requires
        memories@.len() == scores@.len(),
    ensures
        exists|order: Seq<usize>, best: Seq<MemoryView>|
            {
                &&& is_ranking(best, views(memories@), scores@, MAX_SEARCH_LIMIT as nat, order)
                &&& views(r@) == best.filter(|m: MemoryView| meets_threshold(m, threshold))
            },
{
    let best = top_matches(memories, scores, MAX_SEARCH_LIMIT);
    let kept = filter_similar(&best, threshold);
    proof {
        let order = choose|order: Seq<usize>|
            is_ranking(views(best@), views(memories@), scores@, MAX_SEARCH_LIMIT as nat, order);
        assert(is_ranking(views(best@), views(memories@), scores@, MAX_SEARCH_LIMIT as nat, order)
            && views(kept@) == views(best@).filter(
            |m: MemoryView| meets_threshold(m, threshold),
        ));
    }
    kept
}

} // verus!
