//! Committing, amending and undoing commits.
use vstd::prelude::*;

use super::common::{GitOutput, arg_views, failure_spec, outcome_raw, outcome_trimmed, owned_args};
use crate::text::{chars_of, first_line, first_line_spec, lines_chars, lines_spec, string_from, trim_str, trim_spec, views, string_views};

verus! {

/// The arguments that commit with a message.
pub fn commit_args(message: &str) -> (r: Vec<String>)
    ensures
        arg_views(r@) == seq!["commit"@, "-m"@, message@],
{
    let r = owned_args(&["commit", "-m", message]);
    assert(arg_views(r@) =~= seq!["commit"@, "-m"@, message@]);
    r
}

/// The outcome of a commit; on failure the error output is kept whole.
pub fn commit(out: &GitOutput) -> (r: Result<(), String>)
    ensures
        match r {
            Ok(()) => out.success,
            Err(e) => !out.success && e@ == "Commit failed: "@ + out.stderr@,
        },
{
    outcome_raw(out, "Commit failed: ")
}

/// The arguments that amend the last commit with a message.
pub fn commit_amend_args(message: &str) -> (r: Vec<String>)
    ensures
        arg_views(r@) == seq!["commit"@, "--amend"@, "-m"@, message@],
{
    let r = owned_args(&["commit", "--amend", "-m", message]);
    assert(arg_views(r@) =~= seq!["commit"@, "--amend"@, "-m"@, message@]);
    r
}

/// The outcome of amending the last commit.
pub fn commit_amend(out: &GitOutput) -> (r: Result<(), String>)
    ensures
        match r {
            Ok(()) => out.success,
            Err(e) => !out.success && e@ == "Amend failed: "@ + out.stderr@,
        },
{
    outcome_raw(out, "Amend failed: ")
}

/// The arguments that ask for the last commit message.
pub fn last_commit_message_args() -> (r: Vec<String>)
    ensures
        arg_views(r@) == seq!["log"@, "-1"@, "--format=%B"@],
{
    let r = owned_args(&["log", "-1", "--format=%B"]);
    assert(arg_views(r@) =~= seq!["log"@, "-1"@, "--format=%B"@]);
    r
}

/// The subject of a commit message: its first line, trimmed.
pub open spec fn subject_spec(message: Seq<char>) -> Seq<char> {
    trim_spec(first_line_spec(trim_spec(message)))
}

/// The subject line (first line) of the last commit message.
pub fn last_commit_message(out: &GitOutput) -> (r: Result<String, String>)
    ensures
        match r {
            Ok(m) => out.success && m@ == subject_spec(out.stdout@),
            Err(e) => !out.success && e@ == "No commits found"@,
        },
{
    if !out.success {
        return Err("No commits found".to_owned());
    }
    let whole = trim_str(out.stdout.as_str());
    let first = first_line(whole.as_str());
    Ok(trim_str(first.as_str()))
}

/// The arguments that list the files of the last commit; for a first
/// commit, every file it holds.
pub fn last_commit_files_args() -> (r: Vec<String>)
    ensures
        arg_views(r@) == seq!["diff-tree"@, "--no-commit-id"@, "-r"@, "--name-only"@, "--root"@, "HEAD"@],
{
    let r = owned_args(&["diff-tree", "--no-commit-id", "-r", "--name-only", "--root", "HEAD"]);
    assert(arg_views(r@) =~= seq!["diff-tree"@, "--no-commit-id"@, "-r"@, "--name-only"@, "--root"@, "HEAD"@]);
    r
}

/// The lines of a text as strings.
pub fn lines_as_strings(text: &str) -> (r: Vec<String>)
    ensures
        string_views(r@) == lines_spec(text@),
{
    let lines = lines_chars(&chars_of(text));
    let mut r: Vec<String> = Vec::new();
    let mut i: usize = 0;
    while i < lines.len()
        invariant
            i <= lines.len(),
            views(lines@) == lines_spec(text@),
            string_views(r@) == views(lines@).take(i as int),
        decreases lines.len() - i,
    {
        let ghost before = r@;
        let s = string_from(lines[i].as_slice());
        r.push(s);
        i = i + 1;
        assert(string_views(r@) =~= string_views(before) + seq![lines@[i - 1]@]);
        assert(views(lines@).take(i as int) =~= views(lines@).take(i - 1) + seq![lines@[i - 1]@]);
    }
    assert(views(lines@).take(i as int) =~= views(lines@));
    r
}

/// The files of the last commit, one per output line.
pub fn last_commit_files(out: &GitOutput) -> (r: Result<Vec<String>, String>)
    ensures
        match r {
            Ok(v) => out.success && string_views(v@) == lines_spec(out.stdout@),
            Err(e) => !out.success && e@ == "Could not list files in last commit"@,
        },
{
    if !out.success {
        return Err("Could not list files in last commit".to_owned());
    }
    Ok(lines_as_strings(out.stdout.as_str()))
}

/// The arguments that undo the last commit, keeping its changes staged.
pub fn soft_reset_args() -> (r: Vec<String>)
    ensures
        arg_views(r@) == seq!["reset"@, "--soft"@, "HEAD~1"@],
{
    let r = owned_args(&["reset", "--soft", "HEAD~1"]);
    assert(arg_views(r@) =~= seq!["reset"@, "--soft"@, "HEAD~1"@]);
    r
}

/// The outcome of undoing the last commit.
pub fn soft_reset(out: &GitOutput) -> (r: Result<(), String>)
    ensures
        match r {
            Ok(()) => out.success,
            Err(e) => !out.success && e@ == failure_spec("Reset failed: "@, out.stderr@),
        },
{
    outcome_trimmed(out, "Reset failed: ")
}

} // verus!
