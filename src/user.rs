use vstd::prelude::*;

verus! {

/// The mathematical value of a [`User`].
pub struct UserView {
    pub id: Seq<char>,
    pub username: Seq<char>,
    pub created_at: int,
    pub deleted_at: Option<int>,
}

/// A user, under an opaque identifier chosen when it is created.
pub struct User {
    pub id: String,
    pub username: String,
    /// Milliseconds since the Unix epoch.
    pub created_at: i64,
    pub deleted_at: Option<i64>,
}

impl View for User {
    type V = UserView;

    open spec fn view(&self) -> UserView {
        UserView {
            id: self.id@,
            username: self.username@,
            created_at: self.created_at as int,
            deleted_at: match self.deleted_at {
                Some(t) => Some(t as int),
                None => None,
            },
        }
    }
}

impl Clone for User {
    fn clone(&self) -> (r: Self)
        ensures
            r@ == self@,
    {
        User {
            id: self.id.clone(),
            username: self.username.clone(),
            created_at: self.created_at,
            deleted_at: self.deleted_at,
        }
    }
}

/// Users held in memory, each under its own `id`.
///
/// Callers that share it between tasks hold it behind one lock.
pub struct InMemoryUserRepo {
    users: Vec<User>,
    index: Ghost<Map<Seq<char>, UserView>>,
}

impl InMemoryUserRepo {
    /// The stored users by identifier.
    pub closed spec fn records(&self) -> Map<Seq<char>, UserView> {
        self.index@
    }

    /// The invariant: identifiers are distinct, and the users held are exactly the map.
    pub closed spec fn well_formed(&self) -> bool {
        &&& forall|i: int, j: int|
            0 <= i < j < self.users@.len() ==> #[trigger] self.users@[i].id@
                != #[trigger] self.users@[j].id@
        &&& forall|i: int|
            0 <= i < self.users@.len() ==> self.index@.contains_key(#[trigger] self.users@[i].id@)
                && self.index@[self.users@[i].id@] == self.users@[i]@
        &&& forall|k: Seq<char>|
            #[trigger] self.index@.contains_key(k) ==> exists|i: int|
                0 <= i < self.users@.len() && #[trigger] self.users@[i].id@ == k
    }

    /// An empty store.
    pub fn new() -> (r: InMemoryUserRepo)
        ensures
            r.well_formed(),
            r.records() == Map::<Seq<char>, UserView>::empty(),
    {
        InMemoryUserRepo { users: Vec::new(), index: Ghost(Map::empty()) }
    }

    /// The index of the user stored under `id`, if any.
    fn position(&self, id: &String) -> (r: Option<usize>)
        requires
            self.well_formed(),
        ensures
            match r {
                Some(i) => i < self.users@.len() && self.users@[i as int].id@ == id@,
                None => !self.index@.contains_key(id@),
            },
    {
        let mut i: usize = 0;
        while i < self.users.len()
            invariant
                i <= self.users@.len(),
                forall|j: int| 0 <= j < i ==> #[trigger] self.users@[j].id@ != id@,
            decreases self.users@.len() - i,
        {
            if self.users[i].id == *id {
                return Some(i);
            }
            i = i + 1;
        }
        None
    }

    /// A copy of the user stored under `id`, if any.
    pub fn get_user(&self, id: String) -> (r: Option<User>)
        requires
            self.well_formed(),
        ensures
            match r {
                Some(u) => self.records().contains_key(id@) && u@ == self.records()[id@],
                None => !self.records().contains_key(id@),
            },
    {
        match self.position(&id) {
            Some(i) => Some(self.users[i].clone()),
            None => None,
        }
    }

    /// Stores `user` under its `id`, replacing any user stored there.
    pub fn save_user(&mut self, user: &User)
        requires
            old(self).well_formed(),
        ensures
            final(self).well_formed(),
            final(self).records() == old(self).records().insert(user.id@, user@),
    {
        let ghost next = self.index@.insert(user.id@, user@);
        match self.position(&user.id) {
            Some(i) => {
                self.users.set(i, user.clone());
            },
            None => {
                self.users.push(user.clone());
            },
        }
        self.index = Ghost(next);
        assert forall|k: Seq<char>| #[trigger] self.index@.contains_key(k) implies exists|i: int|
            0 <= i < self.users@.len() && #[trigger] self.users@[i].id@ == k by {
            if k == user.id@ {
                if exists|i: int| 0 <= i < old(self).users@.len() && old(self).users@[i].id@ == k {
                    let i = choose|i: int|
                        0 <= i < old(self).users@.len() && old(self).users@[i].id@ == k;
                    assert(self.users@[i].id@ == k);
                } else {
                    assert(self.users@[self.users@.len() - 1].id@ == k);
                }
            } else {
                let i = choose|i: int|
                    0 <= i < old(self).users@.len() && old(self).users@[i].id@ == k;
                assert(self.users@[i].id@ == k);
            }
        }
    }
}

} // verus!
