use vstd::prelude::*;

use crate::rank::{can_score, derive_id, scored, Rank, RankView};

verus! {

/// Why a repository operation did not take effect.
#[derive(Clone, Copy, Debug, PartialEq, Eq, Structural)]
pub enum RankError {
    /// No rank is stored under the identifier.
    NotFound,
    /// The rank's count or sum of scores would leave its machine type.
    Overflow,
    /// The storage backend failed (connectivity, decoding, an exhausted transaction).
    Backend,
}

/// The stored ranks by identifier after `rank` was saved: saved under the identifier
/// derived from its project and item ids, replacing any rank stored there.
pub open spec fn saved(records: Map<Seq<char>, RankView>, rank: RankView) -> Map<
    Seq<char>,
    RankView,
> {
    records.insert(derive_id(rank.project_id, rank.item_id), rank)
}

/// What a submission of `score` to the rank stored under `id` returns.
pub open spec fn rank_outcome(records: Map<Seq<char>, RankView>, id: Seq<char>, score: int) -> Result<
    (),
    RankError,
> {
    if !records.contains_key(id) {
        Err(RankError::NotFound)
    } else if !can_score(records[id], score) {
        Err(RankError::Overflow)
    } else {
        Ok(())
    }
}

/// The stored ranks after a submission of `score` to the rank stored under `id`: that
/// rank updated where the submission succeeds, and nothing changed otherwise.
pub open spec fn ranked(records: Map<Seq<char>, RankView>, id: Seq<char>, score: int) -> Map<
    Seq<char>,
    RankView,
> {
    if rank_outcome(records, id, score) is Ok {
        records.insert(id, scored(records[id], score))
    } else {
        records
    }
}

/// The stored ranks after each score of `scores` was submitted to the rank stored
/// under `id`, in order.
pub open spec fn ranked_all(records: Map<Seq<char>, RankView>, id: Seq<char>, scores: Seq<int>) -> Map<
    Seq<char>,
    RankView,
> {
    scores.fold_left(records, |m: Map<Seq<char>, RankView>, s: int| ranked(m, id, s))
}

/// Storage of ranks, keyed by identifier.
///
/// A backend may fail on its own (I/O); one for which `never_fails` holds does not.
/// A failed operation changes nothing.
pub trait RankRepo {
    /// The stored ranks by identifier.
    spec fn records(&self) -> Map<Seq<char>, RankView>;

    /// Whether the backend is free of failures of its own.
    spec fn never_fails(&self) -> bool;

    /// The well-formedness of the backend's state.
    spec fn inv(&self) -> bool;

    /// The rank stored under `id`, if any.
    fn get(&self, id: String) -> (r: Result<Option<Rank>, RankError>)
        requires
            self.inv(),
        ensures
            match r {
                Ok(Some(found)) => self.records().contains_key(id@) && found@ == self.records()[id@],
                Ok(None) => !self.records().contains_key(id@),
                Err(e) => e == RankError::Backend && !self.never_fails(),
            },
    ;

    /// Stores `rank` under the identifier derived from its project and item ids,
    /// replacing any rank stored there.
    fn save(&mut self, rank: &Rank) -> (r: Result<(), RankError>)
        requires
            old(self).inv(),
        ensures
            final(self).inv(),
            final(self).never_fails() == old(self).never_fails(),
            r is Ok ==> final(self).records() == saved(old(self).records(), rank@),
            r is Err ==> r == Err::<(), RankError>(RankError::Backend) && !old(self).never_fails()
                && final(self).records() == old(self).records(),
    ;

    /// Submits `score` to the rank stored under `id`: either the whole update of its
    /// count and sum takes effect, or nothing changes.
    fn rank(&mut self, id: String, score: i64) -> (r: Result<(), RankError>)
        requires
            old(self).inv(),
        ensures
            final(self).inv(),
            final(self).never_fails() == old(self).never_fails(),
            r == Err::<(), RankError>(RankError::Backend) ==> !old(self).never_fails()
                && final(self).records() == old(self).records(),
            r != Err::<(), RankError>(RankError::Backend) ==> r == rank_outcome(
                old(self).records(),
                id@,
                score as int,
            ) && final(self).records() == ranked(old(self).records(), id@, score as int),
    ;
}

/// The decision of a submission of `score` inside a transaction, given what the
/// transaction read under the identifier: the rank to write back, or why nothing is
/// written.
pub fn rank_update(current: Option<&Rank>, score: i64) -> (r: Result<Rank, RankError>)
    ensures
        match current {
            None => r == Err::<Rank, RankError>(RankError::NotFound),
            Some(c) => if can_score(c@, score as int) {
                r is Ok && r->Ok_0@ == scored(c@, score as int)
            } else {
                r == Err::<Rank, RankError>(RankError::Overflow)
            },
        },
{
    match current {
        None => Err(RankError::NotFound),
        Some(c) => {
            if c.total == u64::MAX {
                return Err(RankError::Overflow);
            }
            match c.sum.checked_add(score as i128) {
                None => Err(RankError::Overflow),
                Some(_) => {
                    let mut next = c.clone();
                    next.update_score(score);
                    Ok(next)
                },
            }
        },
    }
}

} // verus!
