use std::path::PathBuf;

use qc::cli::{code_source, CodeSource, Command, CommandKind, NoCodeSource};
use qc::config::{
    is_strategy_db_name, missing_setting_message, project_setting_keys, strategy_load_order, strategy_name,
    strategy_project_ids,
};
use qc::numparse::{parse_i64, parse_u64};
use qc::text::decimal;

#[test]
fn strategy_database_names() {
    assert!(is_strategy_db_name("S12.db"));
    assert!(is_strategy_db_name("SPY.DB"));
    assert!(is_strategy_db_name("Sx.y.Db"));
    assert!(!is_strategy_db_name("s12.db"));
    assert!(!is_strategy_db_name("S12.db.bak"));
    assert!(!is_strategy_db_name("S12.sqlite"));
    assert!(!is_strategy_db_name("S12"));
    assert!(!is_strategy_db_name(""));
}

#[test]
fn strategy_names_from_files() {
    assert_eq!(strategy_name("EXAMPLE.db"), "example");
    assert_eq!(strategy_name("S1.db.db"), "s1");
    assert_eq!(strategy_name("S1.DB"), "s1.db");
    assert_eq!(strategy_name("SÄ.db"), "sä");
}

#[test]
fn strategies_load_by_name() {
    let v: Vec<String> = ["s3", "s1", "s2"].iter().map(|s| s.to_string()).collect();
    assert_eq!(strategy_load_order(&v), vec![1, 2, 0]);
}

#[test]
fn project_setting_key_list() {
    let keys = project_setting_keys();
    assert_eq!(keys.len(), 20);
    assert_eq!(keys[0], "cloud_project_id");
    assert_eq!(keys[1], "cloud_project_id_2");
    assert_eq!(keys[19], "cloud_project_id_20");
}

#[test]
fn strategy_projects_choice() {
    assert_eq!(strategy_project_ids(&[7, 8], &[Some("1".into())]), Some(vec![7, 8]));
    assert_eq!(
        strategy_project_ids(&[], &[Some("11".into()), None, Some("x".into()), Some("-4".into())]),
        Some(vec![11, -4])
    );
    assert_eq!(strategy_project_ids(&[], &[None, Some("".into())]), None);
    assert_eq!(missing_setting_message("credentials", "qc_user_id"), "missing setting credentials/qc_user_id");
}

#[test]
fn number_parsing_and_rendering() {
    assert_eq!(parse_u64("+12"), Some(12));
    assert_eq!(parse_u64("12a"), None);
    assert_eq!(parse_i64("-9223372036854775808"), Some(i64::MIN));
    assert_eq!(parse_i64("9223372036854775808"), None);
    assert_eq!(decimal(0), "0");
    assert_eq!(decimal(u64::MAX), "18446744073709551615");
}

#[test]
fn command_kinds() {
    assert_eq!(Command::Serve.kind(), CommandKind::Serve);
    assert_eq!(Command::TestApi.kind(), CommandKind::TestApi);
    assert_eq!(Command::Status.kind(), CommandKind::Queue);
    assert_eq!(Command::Next { strategy: "s".into() }.kind(), CommandKind::Queue);
    assert_eq!(Command::CreateProjects { count: 5 }.kind(), CommandKind::CreateProjects);
    assert_eq!(
        Command::DeleteProjects { keep: 1, dry_run: true, yes: false, sort_by: "none".into() }.kind(),
        CommandKind::DeleteProjects
    );
    assert_eq!(Command::ReconcileProjects { prune_orphans: false }.kind(), CommandKind::ReconcileProjects);
    let q = Command::Queue {
        strategy: "s".into(),
        name: "n".into(),
        code_file: Some(PathBuf::from("a.py")),
        code_stdin: false,
        batch: None,
        priority: 5,
        description: None,
        hypothesis: None,
        based_on: None,
        project_id: None,
    };
    assert_eq!(q.kind(), CommandKind::Queue);
}

#[test]
fn code_sources() {
    assert_eq!(code_source(true, true, false), Ok(CodeSource::Stdin));
    assert_eq!(code_source(false, true, true), Ok(CodeSource::Stdin));
    assert_eq!(code_source(false, true, false), Ok(CodeSource::File));
    assert_eq!(code_source(false, false, false), Err(NoCodeSource));
}

#[test]
fn decimal_parsing_edges() {
    assert_eq!(parse_u64(""), None);
    assert_eq!(parse_u64("+"), None);
    assert_eq!(parse_u64("0"), Some(0));
    assert_eq!(parse_u64("007"), Some(7));
    assert_eq!(parse_u64("18446744073709551615"), Some(u64::MAX));
    assert_eq!(parse_u64("18446744073709551616"), None);
    assert_eq!(parse_u64("99999999999999999999x"), None);
    assert_eq!(parse_u64("-1"), None);
    assert_eq!(parse_u64(" 1"), None);
    assert_eq!(parse_u64("\u{663}"), None);
    assert_eq!(parse_i64("-"), None);
    assert_eq!(parse_i64("-0"), Some(0));
    assert_eq!(parse_i64("+42"), Some(42));
    assert_eq!(parse_i64("-42"), Some(-42));
    assert_eq!(parse_i64("9223372036854775807"), Some(i64::MAX));
    assert_eq!(parse_i64("-9223372036854775809"), None);
    assert_eq!(parse_i64("+-1"), None);
    assert_eq!(parse_i64("--1"), None);
}
