use vstd::prelude::*;

use crate::rank::{can_score, derive_id, scored, scored_all, sum_of, RankView};
use crate::repo::{rank_outcome, ranked, ranked_all, saved, RankError};

verus! {

/// A derived identifier is the project id immediately followed by the item id: both
/// can be read back from it, so equal pairs give equal identifiers and nothing else
/// is inserted between them.
pub proof fn lemma_derive_id_concatenates(project_id: Seq<char>, item_id: Seq<char>)
    ensures
        derive_id(project_id, item_id).len() == project_id.len() + item_id.len(),
        derive_id(project_id, item_id).subrange(0, project_id.len() as int) == project_id,
        derive_id(project_id, item_id).subrange(
            project_id.len() as int,
            project_id.len() + item_id.len() as int,
        ) == item_id,
{
    let d = derive_id(project_id, item_id);
    assert(d.subrange(0, project_id.len() as int) =~= project_id);
    assert(d.subrange(project_id.len() as int, project_id.len() + item_id.len() as int) =~= item_id);
}

/// After a sequence of submissions the count grows by the number of scores and the
/// sum by their sum, the rest of the rank unchanged: from a fresh rank the average
/// is the arithmetic mean of the scores submitted.
pub proof fn lemma_scored_all(r: RankView, scores: Seq<int>)
    ensures
        scored_all(r, scores).total == r.total + scores.len(),
        scored_all(r, scores).sum == r.sum + sum_of(scores),
        scored_all(r, scores).id == r.id,
        scored_all(r, scores).project_id == r.project_id,
        scored_all(r, scores).item_id == r.item_id,
        scored_all(r, scores).min == r.min,
        scored_all(r, scores).max == r.max,
        scored_all(r, scores).created_at == r.created_at,
        scored_all(r, scores).deleted_at == r.deleted_at,
    decreases scores.len(),
{
    if scores.len() > 0 {
        lemma_scored_all(r, scores.drop_last());
    }
}

/// Submissions commute: the same scores submitted in any order leave the rank in the
/// same state, so every interleaving of concurrent submissions gives one result.
pub proof fn lemma_scores_in_any_order(r: RankView, first: Seq<int>, second: Seq<int>)
    requires
        first.to_multiset() == second.to_multiset(),
    ensures
        scored_all(r, first) == scored_all(r, second),
{
    let f = |v: RankView, s: int| scored(v, s);
    assert(vstd::seq_lib::commutative_foldl(f)) by {
        assert forall|x: int, y: int, v: RankView| #[trigger] f(f(v, x), y) == f(f(v, y), x) by {
            assert(f(f(v, x), y) =~= f(f(v, y), x));
        }
    }
    vstd::seq_lib::lemma_fold_left_permutation(first, second, f, r);
}

/// Submissions of several scores to one stored rank, each within the machine limits
/// when it comes, leave that rank as the scores submitted in order would, and the
/// other ranks as they were: with [`lemma_scores_in_any_order`], the store ends the
/// same whatever order the submissions were serialised in.
pub proof fn lemma_ranked_all(records: Map<Seq<char>, RankView>, id: Seq<char>, scores: Seq<int>)
    requires
        records.contains_key(id),
        forall|k: int|
            0 <= k < scores.len() ==> can_score(
                scored_all(records[id], #[trigger] scores.take(k)),
                scores[k],
            ),
    ensures
        ranked_all(records, id, scores) == records.insert(id, scored_all(records[id], scores)),
    decreases scores.len(),
{
    let r = records[id];
    if scores.len() == 0 {
        assert(records.insert(id, r) =~= records);
    } else {
        let n = scores.len() - 1;
        let init = scores.drop_last();
        assert forall|k: int| 0 <= k < init.len() implies can_score(
            scored_all(r, #[trigger] init.take(k)),
            init[k],
        ) by {
            assert(init.take(k) =~= scores.take(k));
        }
        lemma_ranked_all(records, id, init);
        assert(scores.take(n) =~= init);
        let mid = records.insert(id, scored_all(r, init));
        assert(mid[id] == scored_all(r, init));
        assert(ranked(mid, id, scores[n]) =~= records.insert(id, scored_all(r, scores)));
    }
}

/// Saving the same rank twice leaves the store as saving it once.
pub proof fn lemma_save_idempotent(records: Map<Seq<char>, RankView>, rank: RankView)
    ensures
        saved(saved(records, rank), rank) == saved(records, rank),
{
    assert(saved(saved(records, rank), rank) =~= saved(records, rank));
}

/// Of two saves under one identifier, the last one decides what is stored.
pub proof fn lemma_save_last_wins(
    records: Map<Seq<char>, RankView>,
    first: RankView,
    second: RankView,
)
    requires
        derive_id(first.project_id, first.item_id) == derive_id(second.project_id, second.item_id),
    ensures
        saved(saved(records, first), second) == saved(records, second),
{
    assert(saved(saved(records, first), second) =~= saved(records, second));
}

/// A submission to an identifier with no stored rank fails with `NotFound` and
/// stores nothing.
pub proof fn lemma_rank_missing(records: Map<Seq<char>, RankView>, id: Seq<char>, score: int)
    requires
        !records.contains_key(id),
    ensures
        rank_outcome(records, id, score) == Err::<(), RankError>(RankError::NotFound),
        ranked(records, id, score) == records,
{
}

/// A submission touches no rank but the one it is made to, and submissions to two
/// distinct identifiers give the same store in either order.
pub proof fn lemma_rank_isolated(
    records: Map<Seq<char>, RankView>,
    id: Seq<char>,
    other: Seq<char>,
    score: int,
    other_score: int,
)
    requires
        id != other,
    ensures
        ranked(records, id, score).contains_key(other) == records.contains_key(other),
        ranked(records, id, score)[other] == records[other],
        rank_outcome(ranked(records, id, score), other, other_score) == rank_outcome(
            records,
            other,
            other_score,
        ),
        ranked(ranked(records, id, score), other, other_score) == ranked(
            ranked(records, other, other_score),
            id,
            score,
        ),
{
    assert(ranked(ranked(records, id, score), other, other_score) =~= ranked(
        ranked(records, other, other_score),
        id,
        score,
    ));
}

} // verus!
