use std::collections::HashSet;

use qc::claim_scan::{candidate_query, name_prefix_pattern, scan_candidates};
use qc::pool::{fill_room, lock_free_project, may_push, settle_claim, strategy_order, ClaimSettlement, WarmPool};

#[test]
fn scan_picks_pinned_job_on_free_project() {
    let r = scan_candidates(&[(7, Some(30))], &[10], 10, &[]);
    assert_eq!(r.job_id, Some(7));
    assert_eq!(r.effective_project_id, 30);
    assert_eq!(r.skipped, 0);
}

#[test]
fn scan_skips_pinned_jobs_on_busy_projects() {
    let r = scan_candidates(&[(1, Some(10)), (2, Some(11)), (3, None)], &[10, 11], 12, &[]);
    assert_eq!(r.job_id, Some(3));
    assert_eq!(r.effective_project_id, 12);
    assert_eq!(r.skipped, 2);
}

#[test]
fn scan_falls_back_to_pool_when_default_busy() {
    let r = scan_candidates(&[(5, None)], &[10, 11], 10, &[10, 11, 12, 13]);
    assert_eq!(r.job_id, Some(5));
    assert_eq!(r.effective_project_id, 12);
    assert_eq!(r.skipped, 0);
}

#[test]
fn scan_finds_nothing_when_all_busy() {
    let r = scan_candidates(&[(5, None), (6, Some(11))], &[10, 11], 10, &[10, 11]);
    assert_eq!(r.job_id, None);
    assert_eq!(r.effective_project_id, 10);
    assert_eq!(r.skipped, 2);
}

#[test]
fn scan_of_no_candidates() {
    let r = scan_candidates(&[], &[], 4, &[]);
    assert_eq!(r.job_id, None);
    assert_eq!(r.effective_project_id, 4);
    assert_eq!(r.skipped, 0);
}

#[test]
fn candidate_queries() {
    assert_eq!(
        candidate_query(None),
        "SELECT id, project_id FROM backtest_queue\n                     WHERE status='queued'\n                     ORDER BY priority ASC, id ASC\n                     LIMIT 20"
    );
    assert_eq!(
        candidate_query(Some("S12_")),
        "SELECT id, project_id FROM backtest_queue\n                         WHERE status='queued' AND name LIKE 'S12_%'\n                         ORDER BY priority ASC, id ASC\n                         LIMIT 20"
    );
    assert_eq!(name_prefix_pattern("exp"), "exp%");
}

#[test]
fn warm_pool_is_fifo() {
    let mut pool: WarmPool<&str> = WarmPool::new(3);
    assert!(pool.is_empty());
    assert_eq!(pool.push("a"), Ok(()));
    assert_eq!(pool.push("b"), Ok(()));
    assert_eq!(pool.len(), 2);
    assert_eq!(pool.take(), Some("a"));
    assert_eq!(pool.take(), Some("b"));
    assert_eq!(pool.take(), None);
    assert_eq!(pool.max_entries(), 3);
}

#[test]
fn fill_room_respects_pool_and_reserve() {
    assert_eq!(fill_room(10, 2, 2, 0, 4), 4);
    assert_eq!(fill_room(10, 2, 2, 1, 4), 3);
    assert_eq!(fill_room(10, 7, 2, 0, 4), 1);
    assert_eq!(fill_room(10, 8, 2, 0, 4), 0);
    assert_eq!(fill_room(10, 12, 2, 0, 4), 0);
    assert_eq!(fill_room(10, 0, 0, 4, 4), 0);
    assert_eq!(fill_room(10, 0, 0, 5, 4), 0);
}

#[test]
fn warm_pool_room_uses_its_length() {
    let mut pool: WarmPool<u8> = WarmPool::new(4);
    assert_eq!(pool.push(1), Ok(()));
    assert_eq!(pool.room(10, 2, 2, ), 3);
}

#[test]
fn warm_pool_never_exceeds_its_maximum() {
    let mut pool: WarmPool<u8> = WarmPool::new(2);
    let room = pool.room(10, 0, 0);
    assert_eq!(room, 2);
    for k in 0..room {
        assert_eq!(pool.push(k as u8), Ok(()));
    }
    assert_eq!(pool.room(10, 0, 0), 0);
    assert_eq!(pool.push(9), Err(9));
    assert_eq!(pool.len(), 2);
    assert_eq!(pool.take(), Some(0));
    assert_eq!(pool.push(7), Ok(()));
    assert_eq!(pool.take(), Some(1));
    assert_eq!(pool.take(), Some(7));
    let mut empty: WarmPool<u8> = WarmPool::new(0);
    assert_eq!(empty.push(1), Err(1));
    assert!(empty.is_empty());
}

#[test]
fn lock_free_project_rotates_from_counter() {
    let mut locked: HashSet<i64> = HashSet::new();
    locked.insert(102);
    assert_eq!(lock_free_project(&mut locked, &[100, 101, 102, 103], 6), Some(103));
    assert!(locked.contains(&103));
    assert_eq!(lock_free_project(&mut locked, &[100, 101, 102, 103], 6), Some(100));
    assert_eq!(lock_free_project(&mut locked, &[100, 101, 102, 103], 1), Some(101));
    assert_eq!(lock_free_project(&mut locked, &[100, 101, 102, 103], 1), None);
    assert_eq!(locked.len(), 4);
    assert_eq!(lock_free_project(&mut locked, &[], 1), None);
}

#[test]
fn settle_claim_cases() {
    let mut locked: HashSet<i64> = [1, 2].into_iter().collect();
    assert_eq!(settle_claim(&mut locked, 1, None), ClaimSettlement::Released);
    assert!(!locked.contains(&1));

    let mut locked: HashSet<i64> = [1].into_iter().collect();
    assert_eq!(settle_claim(&mut locked, 1, Some(1)), ClaimSettlement::Run { project_id: 1 });
    assert!(locked.contains(&1));

    let mut locked: HashSet<i64> = [1].into_iter().collect();
    assert_eq!(settle_claim(&mut locked, 1, Some(5)), ClaimSettlement::Run { project_id: 5 });
    assert!(locked.contains(&5) && !locked.contains(&1));

    let mut locked: HashSet<i64> = [1, 5].into_iter().collect();
    assert_eq!(settle_claim(&mut locked, 1, Some(5)), ClaimSettlement::Requeue);
    assert!(locked.contains(&5) && !locked.contains(&1));
}

#[test]
fn strategy_order_rotates() {
    assert_eq!(strategy_order(3, 4), vec![1, 2, 0]);
    assert_eq!(strategy_order(3, 0), vec![0, 1, 2]);
    assert_eq!(strategy_order(0, 5), Vec::<usize>::new());
    let mut seen = strategy_order(5, 12);
    seen.sort_unstable();
    assert_eq!(seen, vec![0, 1, 2, 3, 4]);
}

#[test]
fn push_only_on_a_held_project() {
    let mut locked: HashSet<i64> = HashSet::new();
    assert!(!may_push(&locked, 7));
    let p = lock_free_project(&mut locked, &[7, 8], 0).unwrap();
    assert_eq!(p, 7);
    assert!(may_push(&locked, 7));
    assert!(!may_push(&locked, 8));
    assert_eq!(lock_free_project(&mut locked, &[7, 8], 0), Some(8));
    assert_eq!(settle_claim(&mut locked, 7, None), ClaimSettlement::Released);
    assert!(!may_push(&locked, 7));
    assert!(may_push(&locked, 8));
}
