//! Pushing the current branch.
use vstd::prelude::*;

use super::common::{GitOutput, arg_views, failure_spec, prefixed_trimmed};
use super::branches::opt_pair_view;
use super::types::PushResult;

verus! {

/// What a push will do: the arguments, the remote it goes to, the branch,
/// and whether it sets the upstream.
pub struct PushPlan {
    pub args: Vec<String>,
    pub remote: String,
    pub branch: String,
    pub set_upstream: bool,
}

/// The remote of a push: the upstream's remote, or `origin` when the
/// branch has no upstream.
pub open spec fn push_remote_spec(upstream: Option<(Seq<char>, Seq<char>)>) -> Seq<char> {
    match upstream {
        Some((r, _)) => r,
        None => "origin"@,
    }
}

/// The arguments of a push: `push`, `--force-with-lease` when forced, and
/// `--set-upstream <remote> <branch>` when there is no upstream yet.
pub open spec fn push_args_spec(
    branch: Seq<char>,
    upstream: Option<(Seq<char>, Seq<char>)>,
    force: bool,
) -> Seq<Seq<char>> {
    let base = if force {
        seq!["push"@, "--force-with-lease"@]
    } else {
        seq!["push"@]
    };
    if upstream is None {
        base + seq!["--set-upstream"@, push_remote_spec(upstream), branch]
    } else {
        base
    }
}

/// Plans the push of `branch`: to its upstream's remote, or to `origin`
/// setting the upstream when there is none.
pub fn push_plan(branch: &str, upstream: Option<(String, String)>, force: bool) -> (r: PushPlan)
    ensures
        arg_views(r.args@) == push_args_spec(branch@, opt_pair_view(upstream), force),
        r.remote@ == push_remote_spec(opt_pair_view(upstream)),
        r.branch@ == branch@,
        r.set_upstream == (upstream is None),
{
    let (remote, set_upstream) = match upstream {
        Some((r, _)) => (r, false),
        None => ("origin".to_owned(), true),
    };
    let mut args: Vec<String> = Vec::new();
    args.push("push".to_owned());
    if force {
        args.push("--force-with-lease".to_owned());
    }
    if set_upstream {
        args.push("--set-upstream".to_owned());
        args.push(remote.clone());
        args.push(branch.to_owned());
    }
    let ghost u = opt_pair_view(upstream);
    proof {
        if force {
            if set_upstream {
                assert(arg_views(args@) =~= push_args_spec(branch@, u, force));
            } else {
                assert(arg_views(args@) =~= push_args_spec(branch@, u, force));
            }
        } else {
            if set_upstream {
                assert(arg_views(args@) =~= push_args_spec(branch@, u, force));
            } else {
                assert(arg_views(args@) =~= push_args_spec(branch@, u, force));
            }
        }
    }
    PushPlan { args, remote, branch: branch.to_owned(), set_upstream }
}

/// The outcome of a planned push.
fn push_outcome(out: &GitOutput, plan: PushPlan, prefix: &str) -> (r: Result<PushResult, String>)
    ensures
        match r {
            Ok(p) => out.success && p.remote@ == plan.remote@ && p.branch@ == plan.branch@
                && p.set_upstream == plan.set_upstream,
            Err(e) => !out.success && e@ == failure_spec(prefix@, out.stderr@),
        },
{
    if out.success {
        Ok(PushResult { remote: plan.remote, branch: plan.branch, set_upstream: plan.set_upstream })
    } else {
        Err(prefixed_trimmed(prefix, out.stderr.as_str()))
    }
}

/// The outcome of pushing the current branch: where it went, or the error.
pub fn push(out: &GitOutput, plan: PushPlan) -> (r: Result<PushResult, String>)
    ensures
        match r {
            Ok(p) => out.success && p.remote@ == plan.remote@ && p.branch@ == plan.branch@
                && p.set_upstream == plan.set_upstream,
            Err(e) => !out.success && e@ == failure_spec("Push failed: "@, out.stderr@),
        },
{
    push_outcome(out, plan, "Push failed: ")
}

/// The outcome of pushing the current branch with `--force-with-lease`.
pub fn push_force(out: &GitOutput, plan: PushPlan) -> (r: Result<PushResult, String>)
    ensures
        match r {
            Ok(p) => out.success && p.remote@ == plan.remote@ && p.branch@ == plan.branch@
                && p.set_upstream == plan.set_upstream,
            Err(e) => !out.success && e@ == failure_spec("Force push failed: "@, out.stderr@),
        },
{
    push_outcome(out, plan, "Force push failed: ")
}

} // verus!
