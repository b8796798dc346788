use ranks::memory::RankRepoInMemory;
use ranks::rank::Rank;
use ranks::repo::{rank_update, RankError, RankRepo};

fn fresh(project_id: &str, item_id: &str) -> Rank {
    Rank::new(project_id.to_string(), item_id.to_string(), 0, 10, 1_700_000_000_000)
}

fn average(r: &Rank) -> f64 {
    r.sum as f64 / r.total as f64
}

#[test]
fn computed_id_concatenates_without_separator() {
    let r = fresh("p1", "i1");
    assert_eq!(r.get_computed_id(), "p1i1");
    assert_eq!(r.get_computed_id(), r.get_computed_id());
    assert_eq!(r.id, "p1i1");
}

#[test]
fn compute_id_replaces_a_stale_id() {
    let mut r = fresh("p1", "i1");
    r.item_id = "i2".to_string();
    assert_eq!(r.id, "p1i1");
    r.compute_id();
    assert_eq!(r.id, "p1i2");
    assert_eq!(r.item_id, "i2");
}

#[test]
fn new_rank_starts_empty() {
    let r = fresh("proj", "item");
    assert_eq!(r.total, 0);
    assert_eq!(r.sum, 0);
    assert_eq!(r.min, 0);
    assert_eq!(r.max, 10);
    assert_eq!(r.created_at, 1_700_000_000_000);
    assert_eq!(r.deleted_at, None);
}

#[test]
fn single_update_from_zero() {
    let mut r = fresh("p", "i");
    r.update_score(8);
    assert_eq!(r.total, 1);
    assert_eq!(r.sum, 8);
    assert_eq!(average(&r), 8.0);
}

#[test]
fn sequence_of_updates_averages() {
    let mut r = fresh("p", "i");
    for s in [2, 4, 6] {
        r.update_score(s);
    }
    assert_eq!(r.total, 3);
    assert_eq!(average(&r), 4.0);
}

#[test]
fn score_outside_bounds_is_accepted() {
    let mut r = fresh("p", "i");
    r.update_score(-5);
    r.update_score(50);
    assert_eq!(r.total, 2);
    assert_eq!(r.sum, 45);
}

#[test]
fn order_of_submissions_does_not_matter() {
    let orders: [[i64; 4]; 3] = [[1, 5, 9, 2], [9, 2, 1, 5], [2, 9, 5, 1]];
    let mut results = Vec::new();
    for order in orders {
        let mut repo = RankRepoInMemory::new();
        let r = fresh("p", "i");
        repo.save(&r).unwrap();
        let id = r.get_computed_id();
        for s in order {
            repo.rank(id.clone(), s).unwrap();
        }
        results.push(repo.get(id.clone()).unwrap().unwrap());
    }
    for r in &results {
        assert_eq!(r.total, 4);
        assert_eq!(r.sum, 17);
        assert_eq!(average(r), 4.25);
    }
}

#[test]
fn rank_on_missing_id_is_not_found() {
    let mut repo = RankRepoInMemory::new();
    let id = "nope".to_string();
    assert_eq!(repo.rank(id.clone(), 3), Err(RankError::NotFound));
    assert!(repo.get(id.clone()).unwrap().is_none());
}

#[test]
fn save_twice_keeps_one_record() {
    let mut repo = RankRepoInMemory::new();
    let r = fresh("p", "i");
    repo.save(&r).unwrap();
    repo.save(&r).unwrap();
    let got = repo.get("pi".to_string()).unwrap().unwrap();
    assert_eq!(got.id, "pi");
    assert_eq!(got.total, 0);
    repo.rank("pi".to_string(), 4).unwrap();
    assert_eq!(repo.get("pi".to_string()).unwrap().unwrap().total, 1);
}

#[test]
fn last_save_wins() {
    let mut repo = RankRepoInMemory::new();
    let first = fresh("p", "i");
    let mut second = fresh("p", "i");
    second.max = 100;
    repo.save(&first).unwrap();
    repo.save(&second).unwrap();
    assert_eq!(repo.get("pi".to_string()).unwrap().unwrap().max, 100);
}

#[test]
fn save_uses_the_derived_id() {
    let mut repo = RankRepoInMemory::new();
    let mut r = fresh("p", "i");
    r.id = "stale".to_string();
    repo.save(&r).unwrap();
    assert!(repo.get("stale".to_string()).unwrap().is_none());
    let got = repo.get("pi".to_string()).unwrap().unwrap();
    assert_eq!(got.id, "stale");
}

#[test]
fn ranks_of_distinct_ids_are_isolated() {
    let mut repo = RankRepoInMemory::new();
    repo.save(&fresh("p", "a")).unwrap();
    repo.save(&fresh("p", "b")).unwrap();
    let a = "pa".to_string();
    let b = "pb".to_string();
    repo.rank(a.clone(), 2).unwrap();
    repo.rank(b.clone(), 10).unwrap();
    repo.rank(a.clone(), 4).unwrap();
    let ra = repo.get(a.clone()).unwrap().unwrap();
    let rb = repo.get(b.clone()).unwrap().unwrap();
    assert_eq!((ra.total, ra.sum), (2, 6));
    assert_eq!((rb.total, rb.sum), (1, 10));
}

#[test]
fn count_overflow_is_rejected() {
    let mut repo = RankRepoInMemory::new();
    let mut r = fresh("p", "i");
    r.total = u64::MAX;
    repo.save(&r).unwrap();
    assert_eq!(repo.rank("pi".to_string(), 1), Err(RankError::Overflow));
    assert_eq!(repo.get("pi".to_string()).unwrap().unwrap().total, u64::MAX);
}

#[test]
fn sum_overflow_is_rejected() {
    let mut repo = RankRepoInMemory::new();
    let mut r = fresh("p", "i");
    r.total = 7;
    r.sum = i128::MAX;
    repo.save(&r).unwrap();
    assert_eq!(repo.rank("pi".to_string(), 1), Err(RankError::Overflow));
    assert_eq!(repo.rank("pi".to_string(), -1), Ok(()));
    let got = repo.get("pi".to_string()).unwrap().unwrap();
    assert_eq!((got.total, got.sum), (8, i128::MAX - 1));
}

#[test]
fn transaction_step_on_absent_document() {
    assert!(matches!(rank_update(None, 5), Err(RankError::NotFound)));
}

#[test]
fn transaction_step_updates_only_count_and_sum() {
    let mut r = fresh("p", "i");
    r.update_score(3);
    let next = rank_update(Some(&r), 7).unwrap();
    assert_eq!((next.total, next.sum), (2, 10));
    assert_eq!(next.id, r.id);
    assert_eq!(next.max, r.max);
    assert_eq!(r.total, 1);
}

#[test]
fn transaction_step_overflow() {
    let mut r = fresh("p", "i");
    r.sum = i128::MIN;
    assert!(matches!(rank_update(Some(&r), -1), Err(RankError::Overflow)));
}
