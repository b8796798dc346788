use vstd::prelude::*;

verus! {

/// The identifier of a rank: the project id followed by the item id, with no separator.
pub open spec fn derive_id(project_id: Seq<char>, item_id: Seq<char>) -> Seq<char> {
    project_id + item_id
}

/// The mathematical value of a [`Rank`].
///
/// `sum` is the sum of every score submitted so far and `total` their number: the
/// average score is the rational `sum / total`, defined once `total` is positive.
pub struct RankView {
    pub id: Seq<char>,
    pub project_id: Seq<char>,
    pub item_id: Seq<char>,
    pub total: int,
    pub sum: int,
    pub min: int,
    pub max: int,
    pub created_at: int,
    pub deleted_at: Option<int>,
}

/// `r` after one more submission of `score`.
///
/// With `average = sum / total` this is the update
/// `average' = (average * total + score) / (total + 1)`, `total' = total + 1`,
/// held exactly rather than rounded.
pub open spec fn scored(r: RankView, score: int) -> RankView {
    RankView {
        id: r.id,
        project_id: r.project_id,
        item_id: r.item_id,
        total: r.total + 1,
        sum: r.sum + score,
        min: r.min,
        max: r.max,
        created_at: r.created_at,
        deleted_at: r.deleted_at,
    }
}

/// Whether one more submission of `score` keeps the count and the sum of `r` within
/// their machine types.
pub open spec fn can_score(r: RankView, score: int) -> bool {
    &&& r.total + 1 <= u64::MAX
    &&& i128::MIN <= r.sum + score <= i128::MAX
}

/// `r` after the submission of each score of `scores`, in order.
pub open spec fn scored_all(r: RankView, scores: Seq<int>) -> RankView {
    scores.fold_left(r, |v: RankView, s: int| scored(v, s))
}

/// The sum of a sequence of scores.
pub open spec fn sum_of(scores: Seq<int>) -> int {
    scores.fold_left(0int, |a: int, s: int| a + s)
}

/// An item of a project whose submitted scores are averaged.
///
/// The average is kept exactly, as the pair `sum` and `total` (see [`RankView`]).
/// Scores, and the bounds `min` and `max` of the scale they are given in, are integers.
pub struct Rank {
    pub id: String,
    pub project_id: String,
    pub item_id: String,
    pub total: u64,
    pub sum: i128,
    pub min: i64,
    pub max: i64,
    /// Milliseconds since the Unix epoch.
    pub created_at: i64,
    pub deleted_at: Option<i64>,
}

impl View for Rank {
    type V = RankView;

    open spec fn view(&self) -> RankView {
        RankView {
            id: self.id@,
            project_id: self.project_id@,
            item_id: self.item_id@,
            total: self.total as int,
            sum: self.sum as int,
            min: self.min as int,
            max: self.max as int,
            created_at: self.created_at as int,
            deleted_at: match self.deleted_at {
                Some(t) => Some(t as int),
                None => None,
            },
        }
    }
}

impl Clone for Rank {
    fn clone(&self) -> (r: Self)
        ensures
            r@ == self@,
    {
        Rank {
            id: self.id.clone(),
            project_id: self.project_id.clone(),
            item_id: self.item_id.clone(),
            total: self.total,
            sum: self.sum,
            min: self.min,
            max: self.max,
            created_at: self.created_at,
            deleted_at: self.deleted_at,
        }
    }
}

impl Rank {
    /// A new item of `project_id` on the scale `min..=max`, with no score yet and its
    /// identifier derived.
    pub fn new(project_id: String, item_id: String, min: i64, max: i64, created_at: i64) -> (r:
        Rank)
        ensures
            r@.id == derive_id(project_id@, item_id@),
            r@.project_id == project_id@,
            r@.item_id == item_id@,
            r@.total == 0,
            r@.sum == 0,
            r@.min == min,
            r@.max == max,
            r@.created_at == created_at,
            r@.deleted_at is None,
    {
        let mut r = Rank {
            id: String::new(),
            project_id,
            item_id,
            total: 0,
            sum: 0,
            min,
            max,
            created_at,
            deleted_at: None,
        };
        r.compute_id();
        r
    }

    /// The identifier this rank is stored under.
    pub fn get_computed_id(&self) -> (r: String)
        ensures
            r@ == derive_id(self.project_id@, self.item_id@),
    {
        self.project_id.clone().concat(self.item_id.as_str())
    }

    /// Sets `id` to the identifier derived from the project and item ids.
    pub fn compute_id(&mut self)
        ensures
            final(self)@ == (RankView { id: derive_id(old(self)@.project_id, old(self)@.item_id), ..old(self)@ }),
    {
        self.id = self.get_computed_id();
    }

    /// Records one more submission of `score`.
    ///
    /// The score is not checked against `min` and `max`.
    pub fn update_score(&mut self, score: i64)
        requires
            can_score(old(self)@, score as int),
        ensures
            final(self)@ == scored(old(self)@, score as int),
    {
        self.sum = self.sum + score as i128;
        self.total = self.total + 1;
    }
}

} // verus!
