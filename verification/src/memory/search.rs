//! Searching: how a search is planned before any text is embedded or any
//! record is read, and how the scored records are put in their final order.

use vstd::prelude::*;
use vstd::string::*;
use crate::errors::Error;
use crate::memory::store::is_input_error;
use crate::memory::store::is_valid_input;
use crate::memory::store::validate_input_length;
use crate::memory::store::validate_limit;
use crate::memory::store::MAX_SEARCH_LIMIT;
use crate::sqlite::search::is_ranking;
use crate::sqlite::search::limit_exceeded_text;
use crate::sqlite::search::top_matches;
use crate::sqlite::views;
use crate::sqlite::Memory;
use crate::sqlite::MemoryView;
use crate::temporal::is_valid_weight;
use crate::temporal::parse_timestamp;
use crate::temporal::parsed_timestamp;
use crate::temporal::recency_applies;
use crate::temporal::uses_recency;
use crate::temporal::validate_recency_weight;
use crate::temporal::Timestamp;
use crate::text::trim;
use crate::text::trimmed;

verus! {

/// Largest candidate pool of a hybrid search.
pub const MAX_CANDIDATE_POOL: usize = 10_000;

/// Smallest candidate pool of a hybrid search.
pub const MIN_CANDIDATE_POOL: usize = 50;

/// Candidates fetched per requested result.
pub const CANDIDATE_POOL_FACTOR: usize = 10;

/// The candidate pool for `limit` results: ten candidates for each, but at
/// least `MIN_CANDIDATE_POOL` and at most `MAX_CANDIDATE_POOL`.
pub open spec fn candidate_pool_size(limit: usize) -> int {
    let wanted = limit * CANDIDATE_POOL_FACTOR;
    if wanted < MIN_CANDIDATE_POOL {
        MIN_CANDIDATE_POOL as int
    } else if wanted > MAX_CANDIDATE_POOL {
        MAX_CANDIDATE_POOL as int
    } else {
        wanted
    }
}

/// The number of candidates that each ranked list of a hybrid search is asked for.
pub fn candidate_pool(limit: usize) -> (r: usize)
    ensures
        r == candidate_pool_size(limit),
        MIN_CANDIDATE_POOL <= r <= MAX_CANDIDATE_POOL,
{
    if limit >= MAX_CANDIDATE_POOL / CANDIDATE_POOL_FACTOR {
        MAX_CANDIDATE_POOL
    } else if limit * CANDIDATE_POOL_FACTOR < MIN_CANDIDATE_POOL {
        MIN_CANDIDATE_POOL
    } else {
        limit * CANDIDATE_POOL_FACTOR
    }
}

/// A search that passed validation: what to embed, how much to fetch, how
/// much to return, and whether recency takes part in the scores.
#[derive(Debug)]
pub struct SearchPlan {
    /// The query without leading and trailing whitespace.
    pub query: String,
    /// The number of results to return.
    pub limit: usize,
    /// The number of records to ask each ranked list for.
    pub candidate_pool: usize,
    /// Whether the scores are blended with decay and the results ordered again.
    pub apply_recency: bool,
}

/// The text that rejects a recency weight.
pub open spec fn weight_rejection_text() -> Seq<char> {
    "Invalid recency weight (must be between 0.0 and 1.0)"@
}

/// `e` rejects `limit`.
pub open spec fn is_limit_error(limit: usize, e: Error) -> bool {
    e matches Error::InvalidInput(msg) && msg@ == if limit == 0 {
        "Limit must be greater than 0"@
    } else {
        limit_exceeded_text(limit)
    }
}

/// `e` rejects a recency weight.
pub open spec fn is_weight_error(e: Error) -> bool {
    e matches Error::Validation(msg) && msg@ == weight_rejection_text()
}

/// The three inputs of a search are acceptable.
pub open spec fn is_valid_search(query: Seq<char>, limit: usize, recency_weight: u64) -> bool {
    &&& 0 < limit <= MAX_SEARCH_LIMIT
    &&& is_valid_input(query)
    &&& is_valid_weight(recency_weight)
}

/// `plan` is the plan of a valid search that fetches `pool` candidates.
pub open spec fn is_plan_of(
    plan: SearchPlan,
    query: Seq<char>,
    limit: usize,
    recency_weight: u64,
    pool: int,
) -> bool {
    &&& plan.query@ == trim(query)
    &&& plan.limit == limit
    &&& plan.candidate_pool == pool
    &&& plan.apply_recency == recency_applies(recency_weight)
}

fn check_weight(recency_weight: u64) -> (r: Result<(), Error>)
    ensures
        is_valid_weight(recency_weight) <==> r is Ok,
        r matches Err(e) ==> is_weight_error(e),
{
    match validate_recency_weight(recency_weight) {
        Ok(()) => Ok(()),
        Err(e) => Err(Error::Validation(e.message())),
    }
}

/// Plans a search by vector similarity.
///
/// The limit is checked first, then the query, then the recency weight; the
/// first check that fails gives the error. A valid search embeds the trimmed
/// query and asks the vector search for `limit` records.
pub fn plan_search(query: &str, limit: usize, recency_weight: u64) -> (r: Result<SearchPlan, Error>)
    ensures
        match r {
            Ok(plan) => is_valid_search(query@, limit, recency_weight) && is_plan_of(
                plan,
                query@,
                limit,
                recency_weight,
                limit as int,
            ),
            Err(e) => if !(0 < limit <= MAX_SEARCH_LIMIT) {
                is_limit_error(limit, e)
            } else if !is_valid_input(query@) {
                is_input_error(query@, e)
            } else {
                !is_valid_weight(recency_weight) && is_weight_error(e)
            },
        },
{
    match validate_limit(limit) {
        Ok(()) => {},
        Err(e) => {
            return Err(e);
        },
    }
    match validate_input_length(query) {
        Ok(()) => {},
        Err(e) => {
            return Err(e);
        },
    }
    match check_weight(recency_weight) {
        Ok(()) => {},
        Err(e) => {
            return Err(e);
        },
    }
    Ok(
        SearchPlan {
            query: trimmed(query),
            limit,
            candidate_pool: limit,
            apply_recency: uses_recency(recency_weight),
        },
    )
}

/// Plans a hybrid search, which fuses a vector ranking with a keyword ranking.
///
/// The query is checked first, then the recency weight, then the limit; the
/// first check that fails gives the error. A valid search embeds the trimmed
/// query and asks each ranking for `candidate_pool(limit)` records.
pub fn plan_hybrid_search(query: &str, limit: usize, recency_weight: u64) -> (r: Result<
    SearchPlan,
    Error,
>)
    ensures
        match r {
            Ok(plan) => is_valid_search(query@, limit, recency_weight) && is_plan_of(
                plan,
                query@,
                limit,
                recency_weight,
                candidate_pool_size(limit),
            ),
            Err(e) => if !is_valid_input(query@) {
                is_input_error(query@, e)
            } else if !is_valid_weight(recency_weight) {
                is_weight_error(e)
            } else {
                !(0 < limit <= MAX_SEARCH_LIMIT) && is_limit_error(limit, e)
            },
        },
{
    match validate_input_length(query) {
        Ok(()) => {},
        Err(e) => {
            return Err(e);
        },
    }
    match check_weight(recency_weight) {
        Ok(()) => {},
        Err(e) => {
            return Err(e);
        },
    }
    match validate_limit(limit) {
        Ok(()) => {},
        Err(e) => {
            return Err(e);
        },
    }
    Ok(
        SearchPlan {
            query: trimmed(query),
            limit,
            candidate_pool: candidate_pool(limit),
            apply_recency: uses_recency(recency_weight),
        },
    )
}

/// The creation time of `m` reads as an instant.
pub open spec fn has_readable_time(m: MemoryView) -> bool {
    parsed_timestamp(m.created_at) is Ok
}

/// The instant that the creation time of `m` names.
pub open spec fn created_instant(m: MemoryView) -> Timestamp {
    let t = parsed_timestamp(m.created_at)->Ok_0;
    Timestamp { secs: t.0, nanos: t.1 }
}

/// The instants at which `memories` were created, in their order.
///
/// Fails on the first record whose creation time cannot be read, with that
/// record's id, the text found and the reason.
pub fn created_instants(memories: &Vec<Memory>) -> (r: Result<Vec<Timestamp>, Error>)
    ensures
        match r {
            Ok(instants) => {
                &&& instants@.len() == memories@.len()
                &&& forall|i: int|
                    0 <= i < memories@.len() ==> has_readable_time(#[trigger] memories@[i]@)
                        && instants@[i] == created_instant(memories@[i]@)
            },
            Err(e) => exists|k: int|
                {
                    &&& 0 <= k < memories@.len()
                    &&& forall|i: int| 0 <= i < k ==> has_readable_time(#[trigger] memories@[i]@)
                    &&& !has_readable_time(#[trigger] memories@[k]@)
                    &&& e matches Error::InvalidTimestamp { id, timestamp, error }
                    &&& id@ == memories@[k]@.id
                    &&& timestamp@ == memories@[k]@.created_at
                    &&& error@ == parsed_timestamp(memories@[k]@.created_at)->Err_0
                },
        },
{
    let mut instants: Vec<Timestamp> = Vec::new();
    let mut i: usize = 0;
    while i < memories.len()
        invariant
            i <= memories@.len(),
            instants@.len() == i,
            forall|j: int|
                0 <= j < i ==> has_readable_time(#[trigger] memories@[j]@) && instants@[j]
                    == created_instant(memories@[j]@),
        decreases memories.len() - i,
    {
        let m = &memories[i];
        match parse_timestamp(m.created_at.as_str()) {
            Ok((secs, nanos)) => {
                instants.push(Timestamp { secs, nanos });
            },
            Err(reason) => {
                assert(!has_readable_time(memories@[i as int]@));
                return Err(
                    Error::InvalidTimestamp {
                        id: m.id.clone(),
                        timestamp: m.created_at.clone(),
                        error: reason,
                    },
                );
            },
        }
        i += 1;
    }
    Ok(instants)
}

/// The records in their order under new scores: each carries its new score,
/// the best comes first, and records with equal scores keep their order.
pub fn rerank(memories: &Vec<Memory>, scores: &Vec<u64>) -> (r: Vec<Memory>)
    requires
        memories@.len() == scores@.len(),
    ensures
        r@.len() == memories@.len(),
        exists|order: Seq<usize>|
            is_ranking(views(r@), views(memories@), scores@, memories@.len(), order),
{
    let out = top_matches(memories, scores, memories.len());
    proof {
        let order = choose|order: Seq<usize>|
            is_ranking(views(out@), views(memories@), scores@, memories@.len(), order);
        assert(views(out@).len() == memories@.len());
    }
    out
}

/// The first `limit` records, or all of them where there are fewer.
pub fn first_results(memories: &Vec<Memory>, limit: usize) -> (r: Vec<Memory>)
    ensures
        views(r@) == if limit < memories@.len() {
            views(memories@).take(limit as int)
        } else {
            views(memories@)
        },
{
    let n = if limit < memories.len() {
        limit
    } else {
        memories.len()
    };
    let mut out: Vec<Memory> = Vec::new();
    let mut i: usize = 0;
    while i < n
        invariant
            i <= n <= memories@.len(),
            out@.len() == i,
            forall|j: int| 0 <= j < i ==> (#[trigger] out@[j])@ == memories@[j]@,
        decreases n - i,
    {
        out.push(memories[i].clone());
        i += 1;
    }
    assert(views(out@) =~= views(memories@).take(n as int));
    assert(views(memories@).take(memories@.len() as int) =~= views(memories@));
    out
}

} // verus!
