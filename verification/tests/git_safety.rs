use sit::git::common::GitOutput;
use sit::git::remote::has_remote;
use sit::git::staging::{stage_files, staged_paths, unstage_files};
use sit::git::tags::{create_tag, is_release_tag, latest_release_tag};
use sit::git::commits::{last_commit_files, last_commit_files_args, last_commit_message};
use sit::git::branches::list_local_branches;

fn out(success: bool, stdout: &str, stderr: &str) -> GitOutput {
    GitOutput { success, stdout: stdout.to_string(), stderr: stderr.to_string() }
}

#[test]
fn stage_files_does_not_drop_pre_staged_files() {
    let already = staged_paths(&out(true, "a.txt\n", "")).unwrap();
    assert_eq!(already, vec!["a.txt"]);
    let msg = stage_files(&["b.txt".to_string()], &already).expect_err("must reject");
    assert!(msg.contains("already staged") || msg.contains("not selected"), "unexpected error: {msg}");
}

#[test]
fn stage_files_adds_requested_files_when_safe() {
    let args = stage_files(&["a.txt".to_string(), "b.txt".to_string()], &[]).expect("stage selected files");
    assert_eq!(args, vec!["add", "--", "a.txt", "b.txt"]);
}

#[test]
fn stage_files_rejects_empty_selection() {
    let err = stage_files(&[], &[]).expect_err("empty selection must fail");
    assert!(err.contains("No files selected"));
}

#[test]
fn unstage_files_is_noop_for_empty_input() {
    assert!(unstage_files(&[]).is_none());
    assert_eq!(
        unstage_files(&["a.txt".to_string()]).unwrap(),
        vec!["restore", "--staged", "--", "a.txt"]
    );
}

#[test]
fn has_remote_detects_existing_origin() {
    assert!(!has_remote(&out(true, "", ""), "origin"));
    assert!(has_remote(&out(true, "upstream\norigin\n", ""), "origin"));
    assert!(!has_remote(&out(false, "origin\n", ""), "origin"));
}

#[test]
fn create_tag_rejects_invalid_semver() {
    let err = create_tag("not-a-version").expect_err("invalid tag should fail");
    assert!(err.contains("semver-like"));
    assert_eq!(create_tag("v1.2.3").unwrap(), vec!["tag", "v1.2.3"]);
}

#[test]
fn staging_keeps_renamed_files_selected_by_either_path() {
    let already = vec!["new.rs".to_string()];
    assert!(stage_files(&["old.rs -> new.rs".to_string()], &already).is_ok());
}

#[test]
fn release_tags_are_semver_like() {
    assert!(is_release_tag("v0.1.2"));
    assert!(is_release_tag("10.20.30"));
    assert!(!is_release_tag("v1.2"));
    assert!(!is_release_tag("v1.2.x"));
    let latest = latest_release_tag(&out(true, "nightly\nv2.0.0\nv1.9.9\n", "")).unwrap();
    assert_eq!(latest.as_deref(), Some("v2.0.0"));
    assert_eq!(latest_release_tag(&out(false, "", " boom ")).unwrap_err(), "Failed to list tags: boom");
}

#[test]
fn latest_release_tag_compares_versions_as_numbers() {
    let latest = latest_release_tag(&out(true, "v1.0.0\n2.0.0\n", "")).unwrap();
    assert_eq!(latest.as_deref(), Some("2.0.0"));
    let latest = latest_release_tag(&out(true, "v1.9.0\nv1.10.0\nv1.2.30\n", "")).unwrap();
    assert_eq!(latest.as_deref(), Some("v1.10.0"));
    let latest = latest_release_tag(&out(true, "v0.0.9\n v0.0.10 \nv0.0.010\n", "")).unwrap();
    assert_eq!(latest.as_deref(), Some("v0.0.10"));
    let latest = latest_release_tag(&out(true, "nightly\nrc\n", "")).unwrap();
    assert_eq!(latest, None);
    let latest = latest_release_tag(&out(true, "", "")).unwrap();
    assert_eq!(latest, None);
}

#[test]
fn last_commit_message_is_the_subject_line() {
    let msg = last_commit_message(&out(true, "  feat: ship it  \n\nlonger body\nmore\n", "")).unwrap();
    assert_eq!(msg, "feat: ship it");
    let msg = last_commit_message(&out(true, "one line\n", "")).unwrap();
    assert_eq!(msg, "one line");
    assert_eq!(last_commit_message(&out(false, "", "fatal")).unwrap_err(), "No commits found");
}

#[test]
fn last_commit_files_covers_a_first_commit() {
    assert_eq!(
        last_commit_files_args(),
        vec!["diff-tree", "--no-commit-id", "-r", "--name-only", "--root", "HEAD"]
    );
    let files = last_commit_files(&out(true, "a.rs\nsrc/b.rs\n", "")).unwrap();
    assert_eq!(files, vec!["a.rs".to_string(), "src/b.rs".to_string()]);
}

#[test]
fn branch_listing_is_sorted_with_one_current() {
    let bs = list_local_branches(&out(true, "main\n  feature \n\nalpha\n", ""), Some("main".to_string())).unwrap();
    let names: Vec<&str> = bs.iter().map(|b| b.name.as_str()).collect();
    assert_eq!(names, vec!["alpha", "feature", "main"]);
    let current: Vec<bool> = bs.iter().map(|b| b.is_current).collect();
    assert_eq!(current, vec![false, false, true]);
}
