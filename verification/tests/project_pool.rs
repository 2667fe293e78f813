use qc::created_sort::{order_pool, sort_by_created, SortBy};
use qc::projects::{
    confirms, create_step, next_free_suffix, used_pool_suffixes, error_summary, hits_daily_limit, is_already_gone, next_pool_suffix, pool_after_delete,
    pool_name_suffix, pool_project_name, project_ids_from_json, projects_file_text, project_drift, project_ids_from_entries, read_failure_message,
    split_for_delete, without_ids, CreateAction, CreateOutcome, CreateProgress, DeleteOutcome, DeleteTally,
    ProjectsFileError,
};

fn names(v: &[&str]) -> Vec<String> {
    v.iter().map(|s| s.to_string()).collect()
}

#[test]
fn next_suffix_is_first_gap() {
    assert_eq!(next_pool_suffix(&names(&["bt_pool_2", "bt_pool_3", "bt_pool_4"])), 1);
    assert_eq!(next_pool_suffix(&names(&["bt_pool_1", "bt_pool_2", "bt_pool_4"])), 3);
    assert_eq!(next_pool_suffix(&names(&["bt_pool_1", "bt_pool_2"])), 3);
    assert_eq!(next_pool_suffix(&names(&[])), 1);
    assert_eq!(next_pool_suffix(&names(&["other", "bt_pool_x", "bt_pool_", "BT_POOL_1"])), 1);
    assert_eq!(next_pool_suffix(&names(&["bt_pool_+1", "bt_pool_002"])), 3);
}

#[test]
fn pool_names_and_suffixes() {
    assert_eq!(pool_project_name(7), "bt_pool_7");
    assert_eq!(pool_name_suffix("bt_pool_42"), Some(42));
    assert_eq!(pool_name_suffix("bt_pool_-1"), None);
    assert_eq!(pool_name_suffix("bt_pool_18446744073709551616"), None);
    assert_eq!(pool_name_suffix("bt_pool"), None);
}

#[test]
fn projects_file_entries() {
    assert!(matches!(project_ids_from_entries(None), Err(ProjectsFileError::NotAnArray)));
    assert_eq!(project_ids_from_entries(Some(vec![Some(3), None, Some(1)])).unwrap(), vec![3, 1]);
    assert_eq!(project_ids_from_entries(Some(vec![])).unwrap(), Vec::<i64>::new());
}

#[test]
fn projects_file_text_is_parsed() {
    assert_eq!(project_ids_from_json(r#"{"projects": [5, "x", 7.5, 9, null, -2]}"#).unwrap(), vec![5, 9, -2]);
    assert_eq!(project_ids_from_json(r#"{"projects": []}"#).unwrap(), Vec::<i64>::new());
    assert!(matches!(project_ids_from_json(r#"{"other": [1]}"#), Err(ProjectsFileError::NotAnArray)));
    assert!(matches!(project_ids_from_json(r#"{"projects": {"a": 1}}"#), Err(ProjectsFileError::NotAnArray)));
    assert!(matches!(project_ids_from_json("[1, 2]"), Err(ProjectsFileError::NotAnArray)));
    assert!(matches!(project_ids_from_json("{not json"), Err(ProjectsFileError::InvalidJson(_))));
    assert!(matches!(project_ids_from_json(""), Err(ProjectsFileError::InvalidJson(_))));
}

#[test]
fn projects_file_round_trip() {
    let ids = vec![3, -1, 9_007_199_254_740_993, 4];
    let text = projects_file_text(&ids);
    assert_eq!(text, "{\n  \"projects\": [\n    3,\n    -1,\n    9007199254740993,\n    4\n  ]\n}");
    assert_eq!(project_ids_from_json(&text).unwrap(), ids);
    let empty = projects_file_text(&[]);
    assert_eq!(empty, "{\n  \"projects\": []\n}");
    assert_eq!(project_ids_from_json(&empty).unwrap(), Vec::<i64>::new());
}

#[test]
fn daily_limit_and_already_gone() {
    assert!(hits_daily_limit(&names(&["You reached the DAILY LIMIT"])));
    assert!(hits_daily_limit(&names(&["x", "Maximum number of projects reached"])));
    assert!(!hits_daily_limit(&names(&["rate limited"])));
    assert!(is_already_gone(&names(&["Project does not exist"])));
    assert!(is_already_gone(&names(&["NOT FOUND"])));
    assert!(!is_already_gone(&names(&["forbidden"])));
    assert!(!is_already_gone(&[]));
}

#[test]
fn error_summaries() {
    assert_eq!(error_summary(&[], "(no error message)"), "(no error message)");
    assert_eq!(error_summary(&names(&["a"]), "-"), "a");
    assert_eq!(error_summary(&names(&["a", "b", "c"]), "-"), "a; b; c");
    assert_eq!(read_failure_message(&[]), "read_project failed: (no message)");
    assert_eq!(read_failure_message(&names(&["auth"])), "read_project failed: auth");
}

fn start(suffix: u64) -> CreateProgress {
    CreateProgress { consecutive_failures: 0, current_suffix: suffix, created: 0 }
}

#[test]
fn create_step_records_and_resets() {
    let p = CreateProgress { consecutive_failures: 3, current_suffix: 9, created: 2 };
    let (q, a) = create_step(p, &CreateOutcome::Created { project_id: 555 }, &[]);
    assert_eq!(a, CreateAction::Record { project_id: 555 });
    assert_eq!(q, CreateProgress { consecutive_failures: 0, current_suffix: 10, created: 3 });
}

#[test]
fn create_step_aborts_after_five_failures() {
    let mut p = start(1);
    for k in 1..5 {
        let (q, a) = create_step(p, &CreateOutcome::Failed, &[]);
        assert_eq!(a, CreateAction::Continue);
        assert_eq!(q.consecutive_failures, k);
        p = q;
    }
    let (q, a) = create_step(p, &CreateOutcome::Rejected { errors: names(&["oops"]) }, &[]);
    assert_eq!(a, CreateAction::AbortTooManyFailures);
    assert_eq!(q.current_suffix, 6);
}

#[test]
fn create_step_stops_on_daily_limit_and_aborts_on_empty_success() {
    let p = start(4);
    let (q, a) = create_step(p, &CreateOutcome::Rejected { errors: names(&["daily limit hit"]) }, &[7]);
    assert_eq!(a, CreateAction::StopDailyLimit);
    assert_eq!(q, p);
    let (q, a) = create_step(p, &CreateOutcome::CreatedNothing, &[7]);
    assert_eq!(a, CreateAction::AbortNoProject);
    assert_eq!(q, p);
}

#[test]
fn create_step_skips_taken_names() {
    let account = names(&["bt_pool_2", "bt_pool_3", "other"]);
    let used = used_pool_suffixes(&account);
    assert_eq!(used, vec![2, 3]);
    let first = next_pool_suffix(&account);
    assert_eq!(first, 1);
    assert_eq!(next_free_suffix(&used, 0), 1);
    let mut p = start(first);
    let mut created = Vec::new();
    for id in [100, 101] {
        created.push(pool_project_name(p.current_suffix));
        let (q, a) = create_step(p, &CreateOutcome::Created { project_id: id }, &used);
        assert_eq!(a, CreateAction::Record { project_id: id });
        p = q;
    }
    assert_eq!(created, vec!["bt_pool_1".to_string(), "bt_pool_4".to_string()]);
    assert_eq!(p, CreateProgress { consecutive_failures: 0, current_suffix: 5, created: 2 });
    let (q, a) = create_step(start(1), &CreateOutcome::Failed, &used);
    assert_eq!(a, CreateAction::Continue);
    assert_eq!(q.current_suffix, 4);
}

#[test]
fn delete_tally_and_resulting_pool() {
    let mut t = DeleteTally::new();
    t.record(10, DeleteOutcome::Deleted);
    t.record(11, DeleteOutcome::Rejected { errors: names(&["Project not found"]) });
    t.record(12, DeleteOutcome::Rejected { errors: vec![] });
    t.record(13, DeleteOutcome::Failed { message: "timeout".into() });
    t.record(14, DeleteOutcome::Rejected { errors: names(&["locked", "busy"]) });
    assert_eq!(t.deleted_ok, 1);
    assert_eq!(t.already_gone, 1);
    assert_eq!(
        t.failed,
        vec![(12, "(no error message)".to_string()), (13, "timeout".to_string()), (14, "locked; busy".to_string())]
    );
    assert_eq!(pool_after_delete(&[1, 2], &t), vec![1, 2, 12, 13, 14]);
}

#[test]
fn split_for_delete_cases() {
    assert_eq!(split_for_delete(&[1, 2, 3], 3), None);
    assert_eq!(split_for_delete(&[1, 2, 3], 5), None);
    assert_eq!(split_for_delete(&[1, 2, 3], 1), Some((vec![1], vec![2, 3])));
    assert_eq!(split_for_delete(&[1, 2, 3], 0), Some((vec![], vec![1, 2, 3])));
}

#[test]
fn drift_and_pruning() {
    let local = [5, 3, 9, 3, 1];
    let remote = [1, 7, 3, 2];
    let d = project_drift(&local, &remote);
    assert_eq!(d.orphans, vec![5, 9]);
    assert_eq!(d.missing, vec![2, 7]);
    assert_eq!(without_ids(&local, &d.orphans), vec![3, 3, 1]);
}

fn remote(v: &[(i64, &str)]) -> Vec<(i64, String)> {
    v.iter().map(|(p, c)| (*p, c.to_string())).collect()
}

#[test]
fn sort_by_created_is_stable_with_unknowns_last() {
    let r = remote(&[(1, "2024-03-01"), (2, "2024-01-01"), (3, "2024-02-01"), (4, "2024-01-01")]);
    assert_eq!(sort_by_created(&[9, 1, 2, 8, 3, 4], &r, false), vec![2, 4, 3, 1, 9, 8]);
    assert_eq!(sort_by_created(&[9, 1, 2, 8, 3, 4], &r, true), vec![1, 3, 2, 4, 9, 8]);
    let dup = remote(&[(1, "b"), (1, "a")]);
    assert_eq!(sort_by_created(&[2, 1], &dup, false), vec![1, 2]);
}

#[test]
fn sort_by_parsing_and_pool_order() {
    assert_eq!("none".parse::<SortBy>(), Ok(SortBy::FileOrder));
    assert_eq!("".parse::<SortBy>(), Ok(SortBy::FileOrder));
    assert_eq!("created".parse::<SortBy>(), Ok(SortBy::CreatedAsc));
    assert_eq!(SortBy::parse("created_asc"), Ok(SortBy::CreatedAsc));
    assert_eq!(SortBy::parse("created_desc"), Ok(SortBy::CreatedDesc));
    assert_eq!(
        SortBy::parse("newest"),
        Err("invalid sort-by 'newest': use one of none|created|created_desc".to_string())
    );
    let r = remote(&[(1, "b"), (2, "a")]);
    assert_eq!(order_pool(&[1, 2], &r, SortBy::FileOrder), vec![1, 2]);
    assert_eq!(order_pool(&[1, 2], &r, SortBy::CreatedAsc), vec![2, 1]);
    assert_eq!(order_pool(&[2, 1], &r, SortBy::CreatedDesc), vec![1, 2]);
}

#[test]
fn delete_prompt_answers() {
    assert!(confirms("y\n"));
    assert!(confirms("  YES \n"));
    assert!(!confirms("no"));
    assert!(!confirms(""));
    assert!(!confirms("yess"));
    assert!(confirms("\u{3000}Yes\u{85}\t"));
    assert!(confirms("\u{a0}y\u{2029}"));
    assert!(!confirms("\u{200b}y"));
    assert!(!confirms("y\u{feff}"));
}

#[test]
fn pool_file_lists_extreme_ids() {
    let ids = vec![i64::MIN, 0, i64::MAX];
    let text = projects_file_text(&ids);
    assert_eq!(text, "{\n  \"projects\": [\n    -9223372036854775808,\n    0,\n    9223372036854775807\n  ]\n}");
    assert_eq!(project_ids_from_json(&text).unwrap(), ids);
}
