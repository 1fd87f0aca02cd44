//! Connecting a repository to GitHub.
use vstd::prelude::*;

use super::common::{GitOutput, arg_views, failure_spec, outcome_trimmed, owned_args};
use crate::text::{chars_of, concat_chars, eq_chars, lines_chars, lines_spec, string_from, trim_chars, trim_spec, views};

verus! {

/// The address of a GitHub repository.
pub open spec fn github_url_spec(username: Seq<char>, repo: Seq<char>) -> Seq<char> {
    "https://github.com/"@ + username + "/"@ + repo + ".git"@
}

/// The arguments that add a GitHub remote as `origin`.
pub fn remote_add_origin_args(username: &str, repo: &str) -> (r: Vec<String>)
    ensures
        arg_views(r@) == seq!["remote"@, "add"@, "origin"@, github_url_spec(username@, repo@)],
{
    let a = concat_chars(&chars_of("https://github.com/"), &chars_of(username));
    let b = concat_chars(&a, &chars_of("/"));
    let c = concat_chars(&b, &chars_of(repo));
    let d = concat_chars(&c, &chars_of(".git"));
    let url = string_from(d.as_slice());
    let r = owned_args(&["remote", "add", "origin", url.as_str()]);
    assert(arg_views(r@) =~= seq!["remote"@, "add"@, "origin"@, github_url_spec(username@, repo@)]);
    r
}

/// The outcome of adding the remote.
pub fn remote_add_origin(out: &GitOutput) -> (r: Result<(), String>)
    ensures
        match r {
            Ok(()) => out.success,
            Err(e) => !out.success && e@ == failure_spec("Failed to add remote: "@, out.stderr@),
        },
{
    outcome_trimmed(out, "Failed to add remote: ")
}

/// The arguments that rename the current branch to `main`.
pub fn branch_rename_args() -> (r: Vec<String>)
    ensures
        arg_views(r@) == seq!["branch"@, "-M"@, "main"@],
{
    let r = owned_args(&["branch", "-M", "main"]);
    assert(arg_views(r@) =~= seq!["branch"@, "-M"@, "main"@]);
    r
}

/// The outcome of renaming the current branch to `main`.
pub fn branch_rename_to_main(out: &GitOutput) -> (r: Result<(), String>)
    ensures
        match r {
            Ok(()) => out.success,
            Err(e) => !out.success && e@ == failure_spec("Failed to rename branch: "@, out.stderr@),
        },
{
    outcome_trimmed(out, "Failed to rename branch: ")
}

/// The arguments that push `main` to `origin` and set it as upstream.
pub fn push_origin_main_args() -> (r: Vec<String>)
    ensures
        arg_views(r@) == seq!["push"@, "-u"@, "origin"@, "main"@],
{
    let r = owned_args(&["push", "-u", "origin", "main"]);
    assert(arg_views(r@) =~= seq!["push"@, "-u"@, "origin"@, "main"@]);
    r
}

/// The outcome of pushing `main` to `origin`.
pub fn push_origin_main(out: &GitOutput) -> (r: Result<(), String>)
    ensures
        match r {
            Ok(()) => out.success,
            Err(e) => !out.success && e@ == failure_spec("Push failed: "@, out.stderr@),
        },
{
    outcome_trimmed(out, "Push failed: ")
}

/// The arguments that list the remotes.
pub fn list_remotes_args() -> (r: Vec<String>)
    ensures
        arg_views(r@) == seq!["remote"@],
{
    let r = owned_args(&["remote"]);
    assert(arg_views(r@) =~= seq!["remote"@]);
    r
}

/// A remote of that name is listed: the listing succeeded and one of its
/// trimmed lines is the name.
pub open spec fn has_remote_spec(success: bool, stdout: Seq<char>, name: Seq<char>) -> bool {
    success && exists|i: int|
        0 <= i < lines_spec(stdout).len() && trim_spec(#[trigger] lines_spec(stdout)[i]) == name
}

/// Whether the repository has a remote of that name, from `git remote`.
pub fn has_remote(out: &GitOutput, name: &str) -> (r: bool)
    ensures
        r == has_remote_spec(out.success, out.stdout@, name@),
{
    if !out.success {
        return false;
    }
    let n = chars_of(name);
    let lines = lines_chars(&chars_of(out.stdout.as_str()));
    let ghost ls = lines_spec(out.stdout@);
    let mut i: usize = 0;
    while i < lines.len()
        invariant
            i <= lines.len(),
            views(lines@) == ls,
            ls == lines_spec(out.stdout@),
            n@ == name@,
            out.success,
            forall|j: int| 0 <= j < i ==> trim_spec(#[trigger] ls[j]) != name@,
        decreases lines.len() - i,
    {
        assert(ls[i as int] == lines@[i as int]@);
        let t = trim_chars(&lines[i]);
        if eq_chars(&t, &n) {
            assert(views(lines@).len() == lines@.len());
            assert(0 <= i < lines_spec(out.stdout@).len());
            assert(trim_spec(lines_spec(out.stdout@)[i as int]) == name@);
            return true;
        }
        i = i + 1;
    }
    false
}

} // verus!
