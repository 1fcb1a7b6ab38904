use excel_agent::snapshot::{
    backup_file_name, capture_method, keep_captured, list_skipped, name_or_empty, plan_snapshots,
    CaptureMethod,
};

fn pair(a: &str, b: &str) -> (String, String) {
    (a.to_string(), b.to_string())
}

#[test]
fn backup_name_has_the_timestamp() {
    assert_eq!(backup_file_name("book.xlsx", 1700000000123), "book.xlsx.1700000000123.bak");
    assert_eq!(backup_file_name("book.xlsx", 0), "book.xlsx.0.bak");
    assert_eq!(backup_file_name("", 42), ".42.bak");
}

#[test]
fn backups_of_one_file_at_two_times_differ() {
    assert_ne!(backup_file_name("book.xlsx", 1), backup_file_name("book.xlsx", 11));
    assert_ne!(backup_file_name("book.xlsx", 10), backup_file_name("book.xlsx", 100));
}

#[test]
fn plan_pairs_each_path_with_a_target_under_the_directory() {
    let paths = vec!["data/book.xlsx".to_string(), "other.xlsx".to_string()];
    let plan = plan_snapshots(&paths, "backups", 77);
    assert_eq!(plan.len(), 2);
    assert_eq!(plan[0].0, "data/book.xlsx");
    assert_eq!(plan[1].0, "other.xlsx");
    let expected0 = std::path::Path::new("backups").join("book.xlsx.77.bak");
    let expected1 = std::path::Path::new("backups").join("other.xlsx.77.bak");
    assert_eq!(plan[0].1, expected0.to_string_lossy());
    assert_eq!(plan[1].1, expected1.to_string_lossy());
}

#[test]
fn plan_of_no_paths_is_empty() {
    assert!(plan_snapshots(&Vec::new(), "backups", 1).is_empty());
}

#[test]
fn only_captured_candidates_are_kept() {
    let candidates = vec![pair("a", "a.bak"), pair("b", "b.bak"), pair("c", "c.bak")];
    assert_eq!(
        keep_captured(candidates.clone(), &vec![true, false, true]),
        vec![pair("a", "a.bak"), pair("c", "c.bak")]
    );
    assert_eq!(keep_captured(candidates.clone(), &vec![true, true, true]), candidates);
    assert!(keep_captured(candidates, &vec![false, false, false]).is_empty());
}

#[test]
fn a_candidate_without_flag_is_left_out() {
    let candidates = vec![pair("a", "a.bak"), pair("b", "b.bak")];
    assert_eq!(keep_captured(candidates.clone(), &vec![true]), vec![pair("a", "a.bak")]);
    assert!(keep_captured(candidates.clone(), &vec![]).is_empty());
    assert_eq!(
        keep_captured(candidates, &vec![false, true, true, true]),
        vec![pair("b", "b.bak")]
    );
}

#[test]
fn skipped_files_are_those_without_copy() {
    let candidates = vec![pair("a", "a.bak"), pair("b", "b.bak"), pair("c", "c.bak")];
    assert_eq!(list_skipped(&candidates, &vec![true, false, true]), vec!["b".to_string()]);
    assert!(list_skipped(&candidates, &vec![true, true, true]).is_empty());
    assert_eq!(
        list_skipped(&candidates, &vec![false]),
        vec!["a".to_string(), "b".to_string(), "c".to_string()]
    );
    assert!(list_skipped(&Vec::new(), &vec![true]).is_empty());
}

#[test]
fn live_session_is_preferred_for_the_copy() {
    assert_eq!(capture_method(true), CaptureMethod::LiveCopy);
    assert_eq!(capture_method(false), CaptureMethod::FileCopy);
}

#[test]
fn a_missing_name_is_the_empty_name() {
    assert_eq!(name_or_empty(Some("book.xlsx".to_string())), "book.xlsx");
    assert_eq!(name_or_empty(Some(String::new())), "");
    assert_eq!(name_or_empty(None), "");
}

#[test]
fn backup_of_a_path_without_last_component_has_no_file_name() {
    let plan = plan_snapshots(&vec!["..".to_string()], "backups", 5);
    assert_eq!(plan[0].0, "..");
    let expected = std::path::Path::new("backups").join(".5.bak");
    assert_eq!(plan[0].1, expected.to_string_lossy());
}
