use vstd::prelude::*;

use crate::rank::{Rank, RankView};
use crate::repo::{rank_update, saved, RankError, RankRepo};

verus! {

/// Ranks held in memory, in order of first save, each under a distinct identifier.
///
/// Callers that share it between tasks hold it behind one lock, which makes each
/// operation atomic.
pub struct RankRepoInMemory {
    entries: Vec<(String, Rank)>,
    index: Ghost<Map<Seq<char>, RankView>>,
}

impl RankRepoInMemory {
    /// The invariant: identifiers are distinct, and the entries hold exactly the map.
    pub closed spec fn well_formed(&self) -> bool {
        &&& forall|i: int, j: int|
            0 <= i < j < self.entries@.len() ==> #[trigger] self.entries@[i].0@
                != #[trigger] self.entries@[j].0@
        &&& forall|i: int|
            0 <= i < self.entries@.len() ==> self.index@.contains_key(
                #[trigger] self.entries@[i].0@,
            ) && self.index@[self.entries@[i].0@] == self.entries@[i].1@
        &&& forall|k: Seq<char>|
            #[trigger] self.index@.contains_key(k) ==> exists|i: int|
                0 <= i < self.entries@.len() && #[trigger] self.entries@[i].0@ == k
    }

    /// An empty store.
    pub fn new() -> (r: RankRepoInMemory)
        ensures
            r.inv(),
            r.records() == Map::<Seq<char>, RankView>::empty(),
    {
        RankRepoInMemory { entries: Vec::new(), index: Ghost(Map::empty()) }
    }

    /// The index of the entry stored under `id`, if any.
    fn position(&self, id: &String) -> (r: Option<usize>)
        requires
            self.well_formed(),
        ensures
            match r {
                Some(i) => i < self.entries@.len() && self.entries@[i as int].0@ == id@,
                None => !self.index@.contains_key(id@),
            },
    {
        let mut i: usize = 0;
        while i < self.entries.len()
            invariant
                i <= self.entries@.len(),
                forall|j: int| 0 <= j < i ==> #[trigger] self.entries@[j].0@ != id@,
            decreases self.entries@.len() - i,
        {
            if self.entries[i].0 == *id {
                return Some(i);
            }
            i = i + 1;
        }
        None
    }
}

impl RankRepo for RankRepoInMemory {
    closed spec fn records(&self) -> Map<Seq<char>, RankView> {
        self.index@
    }

    open spec fn never_fails(&self) -> bool {
        true
    }

    closed spec fn inv(&self) -> bool {
        self.well_formed()
    }

    fn get(&self, id: String) -> (r: Result<Option<Rank>, RankError>) {
        match self.position(&id) {
            Some(i) => Ok(Some(self.entries[i].1.clone())),
            None => Ok(None),
        }
    }

    fn save(&mut self, rank: &Rank) -> (r: Result<(), RankError>) {
        let key = rank.get_computed_id();
        let ghost key_view = key@;
        let ghost next = saved(self.index@, rank@);
        match self.position(&key) {
            Some(i) => {
                self.entries.set(i, (key, rank.clone()));
            },
            None => {
                self.entries.push((key, rank.clone()));
            },
        }
        self.index = Ghost(next);
        assert forall|k: Seq<char>| #[trigger] self.index@.contains_key(k) implies exists|i: int|
            0 <= i < self.entries@.len() && #[trigger] self.entries@[i].0@ == k by {
            if k == key_view {
                if exists|i: int| 0 <= i < old(self).entries@.len() && old(self).entries@[i].0@ == k {
                    let i = choose|i: int| 0 <= i < old(self).entries@.len() && old(self).entries@[i].0@ == k;
                    assert(self.entries@[i].0@ == k);
                } else {
                    assert(self.entries@[self.entries@.len() - 1].0@ == k);
                }
            } else {
                let i = choose|i: int| 0 <= i < old(self).entries@.len() && old(self).entries@[i].0@ == k;
                assert(self.entries@[i].0@ == k);
            }
        }
        Ok(())
    }

    fn rank(&mut self, id: String, score: i64) -> (r: Result<(), RankError>) {
        match self.position(&id) {
            None => Err(RankError::NotFound),
            Some(i) => {
                match rank_update(Some(&self.entries[i].1), score) {
                    Err(e) => Err(e),
                    Ok(next) => {
                        let ghost next_view = next@;
                        let key = self.entries[i].0.clone();
                        self.entries.set(i, (key, next));
                        self.index = Ghost(self.index@.insert(id@, next_view));
                        assert forall|k: Seq<char>| #[trigger] self.index@.contains_key(k) implies exists|j: int|
                            0 <= j < self.entries@.len() && #[trigger] self.entries@[j].0@ == k by {
                            let j = choose|j: int| 0 <= j < old(self).entries@.len() && old(self).entries@[j].0@ == k;
                            assert(self.entries@[j].0@ == k);
                        }
                        Ok(())
                    },
                }
            },
        }
    }
}

} // verus!
