//! Adding a memory: the conflict gate.
//!
//! An addition runs in steps. The content is validated and embedded. Unless
//! the caller forces the addition, the stored memories of the project are
//! scored against the new vector; if one of them is at least as similar as
//! the threshold allows, the addition ends with the conflicts and nothing is
//! stored. Only the caller can embed and store: `plan_add` and `resolve_add`
//! say which step comes next.

use vstd::prelude::*;
use vstd::string::*;
use crate::errors::Error;
use crate::float_bits::float_le;
use crate::memory::store::is_input_error;
use crate::memory::store::is_valid_input;
use crate::memory::store::validate_input_length;
use crate::memory_types::AddResult;
use crate::memory_types::ConflictMemory;
use crate::memory_types::ConflictView;
use crate::ranking::no_nan;
use crate::sqlite::search::is_ranking;
use crate::sqlite::search::meets_threshold;
use crate::sqlite::search::MAX_SEARCH_LIMIT;
use crate::sqlite::views;
use crate::sqlite::Memory;
use crate::sqlite::MemoryView;

verus! {

/// What follows the embedding of a new content.
#[derive(Debug, Clone, Copy, PartialEq, Eq, Structural)]
pub enum AddPlan {
    /// Store the memory without looking for conflicts.
    Insert,
    /// Score the stored memories first, then ask `resolve_add`.
    CheckConflicts,
}

/// What follows the search for similar memories.
#[derive(Debug)]
pub enum AddResolution {
    /// Nothing stored is close: store the memory.
    Insert,
    /// Report the result and store nothing.
    Report(AddResult),
}

/// Validates the content of an addition and says what follows its embedding.
///
/// A forced addition is stored whatever it resembles.
pub fn plan_add(content: &str, force: bool) -> (r: Result<AddPlan, Error>)
    ensures
        is_valid_input(content@) <==> r is Ok,
        r matches Ok(plan) ==> (plan == AddPlan::Insert <==> force),
        r matches Err(e) ==> is_input_error(content@, e),
{
    match validate_input_length(content) {
        Ok(()) => {},
        Err(e) => {
            return Err(e);
        },
    }
    if force {
        Ok(AddPlan::Insert)
    } else {
        Ok(AddPlan::CheckConflicts)
    }
}

/// The conflict that a similar memory stands for.
pub open spec fn conflict_of(m: MemoryView) -> ConflictView {
    ConflictView { id: m.id, content: m.content, similarity: m.score() }
}

/// The views of a list of conflicts.
pub open spec fn conflict_views(s: Seq<ConflictMemory>) -> Seq<ConflictView> {
    s.map_values(|c: ConflictMemory| c@)
}

/// Each similar memory as a conflict, in the order given.
pub fn conflicts_of(similars: &Vec<Memory>) -> (r: Vec<ConflictMemory>)
    ensures
        r@.len() == similars@.len(),
        conflict_views(r@) == views(similars@).map_values(|m: MemoryView| conflict_of(m)),
{
    let mut out: Vec<ConflictMemory> = Vec::new();
    let mut i: usize = 0;
    while i < similars.len()
        invariant
            i <= similars@.len(),
            out@.len() == i,
            forall|j: int| 0 <= j < i ==> (#[trigger] out@[j])@ == conflict_of(similars@[j]@),
        decreases similars.len() - i,
    {
        let m = &similars[i];
        out.push(
            ConflictMemory { id: m.id.clone(), content: m.content.clone(), similarity: m.score() },
        );
        i += 1;
    }
    assert(conflict_views(out@) =~= views(similars@).map_values(|m: MemoryView| conflict_of(m)));
    out
}

/// Decides an addition that was not forced, once the similar memories are known.
///
/// With no similar memory the addition goes on to be stored. With at least
/// one it ends here: the result names the proposed content and every similar
/// memory, and nothing is stored.
pub fn resolve_add(content: &str, similars: &Vec<Memory>) -> (r: AddResolution)
    ensures
        similars@.len() == 0 ==> r is Insert,
        similars@.len() > 0 ==> (r matches AddResolution::Report(
            AddResult::Conflicts { proposed, conflicts },
        ) && proposed@ == content@ && conflict_views(conflicts@) == views(similars@).map_values(
            |m: MemoryView| conflict_of(m),
        )),
{
    let conflicts = conflicts_of(similars);
    if conflicts.len() == 0 {
        AddResolution::Insert
    } else {
        AddResolution::Report(
            AddResult::Conflicts { proposed: String::from_str(content), conflicts },
        )
    }
}

/// The conflict gate. When some stored memory scores at least the threshold
/// and every score is a number, the ranking that `find_similar` filters
/// holds a memory that meets the threshold, so the filtered list is not
/// empty and `resolve_add` reports conflicts instead of storing.
pub proof fn lemma_conflict_gate(
    memories: Seq<MemoryView>,
    scores: Seq<u64>,
    threshold: u64,
    order: Seq<usize>,
    best: Seq<MemoryView>,
    hit: int,
)
    requires
        memories.len() == scores.len(),
        no_nan(scores),
        0 <= hit < scores.len(),
        float_le(threshold, scores[hit]),
        is_ranking(best, memories, scores, MAX_SEARCH_LIMIT as nat, order),
    ensures
        best.filter(|m: MemoryView| meets_threshold(m, threshold)).len() > 0,
{
    let keep = |m: MemoryView| meets_threshold(m, threshold);
    // the best place holds a score at least as high as the hit's
    let top = order[0] as int;
    assert(best.len() > 0);
    assert(best[0] == memories[top].with_score(Some(scores[top])));
    let place = crate::ranking::lemma_place(order, hit);
    if place > 0 {
        assert(crate::ranking::ranks_before(scores, order[0] as int, order[place] as int));
    }
    assert(float_le(threshold, scores[top]));
    assert(keep(best[0]));
    best.lemma_filter_contains(keep, 0);
}

/// The converse. When no stored memory scores at least the
/// threshold, the list that `find_similar` gives is empty, and `resolve_add`
/// lets the addition go on to be stored.
pub proof fn lemma_gate_opens(
    memories: Seq<MemoryView>,
    scores: Seq<u64>,
    threshold: u64,
    order: Seq<usize>,
    best: Seq<MemoryView>,
)
    requires
        memories.len() == scores.len(),
        forall|i: int| 0 <= i < scores.len() ==> !float_le(threshold, #[trigger] scores[i]),
        is_ranking(best, memories, scores, MAX_SEARCH_LIMIT as nat, order),
    ensures
        best.filter(|m: MemoryView| meets_threshold(m, threshold)).len() == 0,
{
    let keep = |m: MemoryView| meets_threshold(m, threshold);
    let kept = best.filter(keep);
    if kept.len() > 0 {
        best.lemma_filter_pred(keep, 0);
        assert(kept.contains(kept[0]));
        best.lemma_filter_contains_rev(keep, kept[0]);
        let a = choose|a: int| 0 <= a < best.len() && best[a] == kept[0];
        assert(best[a].score() == scores[order[a] as int]);
    }
}

} // verus!
