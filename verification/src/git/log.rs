//! The commit graph.
use vstd::prelude::*;

use super::common::{GitOutput, arg_views, failure_spec, outcome_trimmed, owned_args};

verus! {

/// The arguments that draw the commit graph: one line per commit, with hash, date,
/// subject, author and refs.
pub open spec fn log_graph_spec() -> Seq<Seq<char>> {
    seq![
        "log"@,
        "--color=always"@,
        "--graph"@,
        "--pretty=format:%C(yellow)%h%Creset %C(magenta)%ad%Creset %C(white)%<(30,trunc)%s %C(bold blue)%<(15,trunc)%an%Creset %C(auto)%d%Creset"@,
        "--date=short"@,
    ]
}

/// The arguments that draw the commit graph.
pub fn log_graph_args() -> (r: Vec<String>)
    ensures
        arg_views(r@) == log_graph_spec(),
{
    let r = owned_args(
        &[
            "log",
            "--color=always",
            "--graph",
            "--pretty=format:%C(yellow)%h%Creset %C(magenta)%ad%Creset %C(white)%<(30,trunc)%s %C(bold blue)%<(15,trunc)%an%Creset %C(auto)%d%Creset",
            "--date=short",
        ],
    );
    assert(arg_views(r@) =~= seq![
        "log"@,
        "--color=always"@,
        "--graph"@,
        "--pretty=format:%C(yellow)%h%Creset %C(magenta)%ad%Creset %C(white)%<(30,trunc)%s %C(bold blue)%<(15,trunc)%an%Creset %C(auto)%d%Creset"@,
        "--date=short"@,
    ]);
    r
}

/// The outcome of drawing the graph; on success its output is shown.
pub fn log_graph(out: &GitOutput) -> (r: Result<(), String>)
    ensures
        match r {
            Ok(()) => out.success,
            Err(e) => !out.success && e@ == failure_spec("Git log failed: "@, out.stderr@),
        },
{
    outcome_trimmed(out, "Git log failed: ")
}

} // verus!
