//! Pushing the current branch: the pre-push hook, the push, the success
//! lines, and the post-push hook.
use vstd::prelude::*;
use vstd::string::StringExecFns;

use super::flow::{ask, finish, Reply, ReplyModel, Request, RequestModel, Work, WorkModel};
use crate::git::branches::{current_branch, current_branch_spec, current_branch_args, opt_pair_view, upstream, upstream_args, upstream_spec};
use crate::git::common::{arg_views, failure_spec, GitOutput};
use crate::git::push::{push, push_args_spec, push_force, push_plan, push_remote_spec};
use crate::hooks::{hook_lines_spec, hook_report, hook_result_spec, merge_hook_env, merge_spec, HookKind, HookRun};
use crate::print::{lemma_lines_view_concat, lines_of_details, lines_view, success_with_details, Line, LineModel};
use crate::style::ICON_RENAMED;
use crate::text::{clone_pairs, pair_views};

verus! {

/// Where a push stands.
#[derive(Clone, Copy, PartialEq, Eq, Structural)]
pub enum PushPhase {
    /// The pre-push hook runs.
    PreHook,
    /// The current branch is asked for.
    Branch,
    /// Its upstream is asked for.
    Upstream,
    /// The push runs.
    Pushing,
    /// The post-push hook runs.
    PostHook,
    /// It is over.
    Finished,
}

/// A push in progress: forced or not, the extra hook environment, where it
/// stands, and what it learned so far.
pub struct PushFlow {
    pub force: bool,
    pub env: Vec<(String, String)>,
    pub phase: PushPhase,
    pub branch: String,
    pub remote: String,
    pub set_upstream: bool,
}

/// The mathematical value of a push in progress.
pub struct PushModel {
    pub force: bool,
    pub env: Seq<(Seq<char>, Seq<char>)>,
    pub phase: PushPhase,
    pub branch: Seq<char>,
    pub remote: Seq<char>,
    pub set_upstream: bool,
}

impl View for PushFlow {
    type V = PushModel;

    open spec fn view(&self) -> PushModel {
        PushModel {
            force: self.force,
            env: pair_views(self.env@),
            phase: self.phase,
            branch: self.branch@,
            remote: self.remote@,
            set_upstream: self.set_upstream,
        }
    }
}

/// `SIT_FORCE=1` for a forced push, nothing otherwise.
pub open spec fn force_vars(force: bool) -> Seq<(Seq<char>, Seq<char>)> {
    if force {
        seq![("SIT_FORCE"@, "1"@)]
    } else {
        seq![]
    }
}

/// The detail line under "Pushed".
pub open spec fn pushed_detail(remote: Seq<char>, branch: Seq<char>, set_upstream: bool, force: bool) -> Seq<char> {
    ICON_RENAMED@ + " "@ + remote + "/"@ + branch + if set_upstream {
        " (upstream set)"@
    } else if force {
        " (force-with-lease)"@
    } else {
        seq![]
    }
}

/// The request that ends a command.
pub open spec fn finish_spec(lines: Seq<LineModel>, r: Result<(), Seq<char>>) -> RequestModel {
    (lines, WorkModel::Finish(r))
}

/// The model with another phase.
pub open spec fn at(m: PushModel, p: PushPhase) -> PushModel {
    PushModel { phase: p, ..m }
}

/// The replies a push accepts where it stands: the hook's or git's, or a failure.
pub open spec fn push_accepts(phase: PushPhase, r: ReplyModel) -> bool {
    match phase {
        PushPhase::PreHook | PushPhase::PostHook => r is Hook || r is Failed,
        PushPhase::Branch | PushPhase::Upstream | PushPhase::Pushing => r is Git || r is Failed,
        PushPhase::Finished => false,
    }
}

/// The arguments that ask for the current branch.
pub open spec fn current_args_spec() -> Seq<Seq<char>> {
    seq!["rev-parse"@, "--abbrev-ref"@, "HEAD"@]
}

/// The arguments that ask for the upstream.
pub open spec fn upstream_args_spec() -> Seq<Seq<char>> {
    seq!["rev-parse"@, "--abbrev-ref"@, "--symbolic-full-name"@, "@{u}"@]
}

/// The push planned once the upstream is known (none when asking failed).
pub open spec fn planned(m: PushModel, up: Option<(Seq<char>, Seq<char>)>) -> (PushModel, RequestModel) {
    (
        PushModel { phase: PushPhase::Pushing, remote: push_remote_spec(up), set_upstream: up is None, ..m },
        (seq![], WorkModel::Git(push_args_spec(m.branch, up, m.force))),
    )
}

/// The environment of the post-push hook.
pub open spec fn post_env(m: PushModel) -> Seq<(Seq<char>, Seq<char>)> {
    merge_spec(seq![("SIT_REMOTE"@, m.remote), ("SIT_BRANCH"@, m.branch)] + force_vars(m.force), m.env)
}

/// What a reply does to a push: the next state and request.
pub open spec fn push_next(m: PushModel, r: ReplyModel) -> (PushModel, RequestModel) {
    let done = at(m, PushPhase::Finished);
    match (m.phase, r) {
        (PushPhase::Upstream, ReplyModel::Failed(_)) => planned(m, None),
        (PushPhase::Upstream, ReplyModel::Git(s, o, _)) => planned(m, upstream_spec(s, o)),
        (_, ReplyModel::Failed(e)) => (done, finish_spec(seq![], Err(e))),
        (PushPhase::PreHook, ReplyModel::Hook(None)) => (
            at(m, PushPhase::Branch),
            (seq![], WorkModel::Git(current_args_spec())),
        ),
        (PushPhase::PreHook, ReplyModel::Hook(Some((s, c, o, e)))) => {
            let lines = hook_lines_spec("pre-push"@, true, s, c, o, e);
            match hook_result_spec("pre-push"@, true, s, c) {
                Err(err) => (done, finish_spec(lines, Err(err))),
                Ok(()) => (at(m, PushPhase::Branch), (lines, WorkModel::Git(current_args_spec()))),
            }
        },
        (PushPhase::Branch, ReplyModel::Git(s, o, _)) => match current_branch_spec(s, o) {
            Err(e) => (done, finish_spec(seq![], Err(e))),
            Ok(b) => (
                PushModel { phase: PushPhase::Upstream, branch: b, ..m },
                (seq![], WorkModel::Git(upstream_args_spec())),
            ),
        },
        (PushPhase::Pushing, ReplyModel::Git(s, _, e)) => if !s {
            (
                done,
                finish_spec(
                    seq![],
                    Err(
                        failure_spec(
                            if m.force {
                                "Force push failed: "@
                            } else {
                                "Push failed: "@
                            },
                            e,
                        ),
                    ),
                ),
            )
        } else {
            (
                at(m, PushPhase::PostHook),
                (
                    seq![LineModel::Success("Pushed"@)] + lines_of_details(
                        pushed_detail(m.remote, m.branch, m.set_upstream, m.force),
                    ),
                    WorkModel::Hook("post-push"@, false, post_env(m)),
                ),
            )
        },
        (PushPhase::PostHook, ReplyModel::Hook(None)) => (done, finish_spec(seq![LineModel::Blank], Ok(()))),
        (PushPhase::PostHook, ReplyModel::Hook(Some((s, c, o, e)))) => {
            let lines = hook_lines_spec("post-push"@, false, s, c, o, e);
            match hook_result_spec("post-push"@, false, s, c) {
                Err(err) => (done, finish_spec(lines, Err(err))),
                Ok(()) => (done, finish_spec(lines + seq![LineModel::Blank], Ok(()))),
            }
        },
        // Not reached: a push only steps on a reply it accepts.
        _ => (m, finish_spec(seq![], Ok(()))),
    }
}

/// The first request of a push: the pre-push hook, with `SIT_FORCE=1`
/// when forced, then the extra environment.
pub open spec fn push_first(force: bool, env: Seq<(Seq<char>, Seq<char>)>) -> RequestModel {
    (seq![], WorkModel::Hook("pre-push"@, true, merge_spec(force_vars(force), env)))
}

fn force_vars_exec(force: bool) -> (r: Vec<(String, String)>)
    ensures
        pair_views(r@) == force_vars(force),
{
    let mut r: Vec<(String, String)> = Vec::new();
    if force {
        r.push(("SIT_FORCE".to_owned(), "1".to_owned()));
    }
    assert(pair_views(r@) =~= force_vars(force));
    r
}

impl PushFlow {
    /// Starts a push (forced or not) with the extra hook environment:
    /// the state, and its first request.
    pub fn start(force: bool, env: &[(String, String)]) -> (r: (PushFlow, Request))
        ensures
            r.0@ == (PushModel {
                force,
                env: pair_views(env@),
                phase: PushPhase::PreHook,
                branch: seq![],
                remote: seq![],
                set_upstream: false,
            }),
            r.1@ == push_first(force, pair_views(env@)),
    {
        let own = clone_pairs(env);
        let hook_env = merge_hook_env(force_vars_exec(force).as_slice(), env);
        let flow = PushFlow {
            force,
            env: own,
            phase: PushPhase::PreHook,
            branch: String::new(),
            remote: String::new(),
            set_upstream: false,
        };
        let req = ask(Work::Hook { name: "pre-push".to_owned(), pre: true, env: hook_env });
        (flow, req)
    }

    /// Whether the push accepts this reply where it stands.
    pub fn accepts(&self, reply: &Reply) -> (r: bool)
        ensures
            r == push_accepts(self.phase, reply@),
    {
        match self.phase {
            PushPhase::PreHook | PushPhase::PostHook => match reply {
                Reply::Hook(_) | Reply::Failed(_) => true,
                _ => false,
            },
            PushPhase::Branch | PushPhase::Upstream | PushPhase::Pushing => match reply {
                Reply::Git(_) | Reply::Failed(_) => true,
                _ => false,
            },
            PushPhase::Finished => false,
        }
    }

    /// Plans the push once the upstream is known.
    fn plan(&mut self, up: Option<(String, String)>) -> (r: Request)
        requires
            old(self).phase == PushPhase::Upstream,
        ensures
            (final(self)@, r@) == planned(old(self)@, opt_pair_view(up)),
    {
        let plan = push_plan(self.branch.as_str(), up, self.force);
        self.phase = PushPhase::Pushing;
        self.remote = plan.remote;
        self.set_upstream = plan.set_upstream;
        ask(Work::Git(plan.args))
    }

    /// Ends the push with an error.
    fn fail(&mut self, print: Vec<Line>, e: String) -> (r: Request)
        ensures
            final(self)@ == at(old(self)@, PushPhase::Finished),
            r@ == finish_spec(lines_view(print@), Err(e@)),
    {
        self.phase = PushPhase::Finished;
        finish(print, Err(e))
    }

    /// What a reply does to the push.
    pub fn step(&mut self, reply: Reply) -> (r: Request)
        requires
            push_accepts(old(self).phase, reply@),
        ensures
            (final(self)@, r@) == push_next(old(self)@, reply@),
    {
        match reply {
            Reply::Failed(e) => {
                if self.phase == PushPhase::Upstream {
                    self.plan(None)
                } else {
                    self.fail(Vec::new(), e)
                }
            },
            Reply::Hook(None) => {
                if self.phase == PushPhase::PreHook {
                    self.phase = PushPhase::Branch;
                    ask(Work::Git(current_branch_args()))
                } else {
                    self.phase = PushPhase::Finished;
                    let mut lines: Vec<Line> = Vec::new();
                    lines.push(Line::Blank);
                    assert(lines_view(lines@) =~= seq![LineModel::Blank]);
                    finish(lines, Ok(()))
                }
            },
            Reply::Hook(Some(run)) => {
                if self.phase == PushPhase::PreHook {
                    let (lines, res) = hook_report("pre-push", &HookKind::Pre, &run);
                    match res {
                        Err(e) => self.fail(lines, e),
                        Ok(()) => {
                            self.phase = PushPhase::Branch;
                            Request { print: lines, work: Work::Git(current_branch_args()) }
                        },
                    }
                } else {
                    let (mut lines, res) = hook_report("post-push", &HookKind::Post, &run);
                    match res {
                        Err(e) => self.fail(lines, e),
                        Ok(()) => {
                            self.phase = PushPhase::Finished;
                            let ghost before = lines_view(lines@);
                            lines.push(Line::Blank);
                            assert(lines_view(lines@) =~= before + seq![LineModel::Blank]);
                            finish(lines, Ok(()))
                        },
                    }
                }
            },
            Reply::Git(out) => {
                if self.phase == PushPhase::Branch {
                    match current_branch(&out) {
                        Err(e) => self.fail(Vec::new(), e),
                        Ok(b) => {
                            self.phase = PushPhase::Upstream;
                            self.branch = b;
                            ask(Work::Git(upstream_args()))
                        },
                    }
                } else if self.phase == PushPhase::Upstream {
                    let up = upstream(&out);
                    self.plan(up)
                } else {
                    self.pushed(out)
                }
            },
            _ => {
                self.phase = PushPhase::Finished;
                finish(Vec::new(), Ok(()))
            },
        }
    }

    /// The push ran.
    fn pushed(&mut self, out: GitOutput) -> (r: Request)
        requires
            old(self).phase == PushPhase::Pushing,
        ensures
            (final(self)@, r@) == push_next(old(self)@, ReplyModel::Git(out.success, out.stdout@, out.stderr@)),
    {
        if !out.success {
            let prefix = if self.force {
                "Force push failed: "
            } else {
                "Push failed: "
            };
            let e = crate::git::common::prefixed_trimmed(prefix, out.stderr.as_str());
            return self.fail(Vec::new(), e);
        }
        let mut detail = String::new();
        detail.append(ICON_RENAMED);
        detail.append(" ");
        detail.append(self.remote.as_str());
        detail.append("/");
        detail.append(self.branch.as_str());
        if self.set_upstream {
            detail.append(" (upstream set)");
        } else if self.force {
            detail.append(" (force-with-lease)");
        }
        proof {
            assert(detail@ =~= pushed_detail(self.remote@, self.branch@, self.set_upstream, self.force));
        }
        let lines = success_with_details("Pushed", detail.as_str());
        let mut vars: Vec<(String, String)> = Vec::new();
        vars.push(("SIT_REMOTE".to_owned(), self.remote.clone()));
        vars.push(("SIT_BRANCH".to_owned(), self.branch.clone()));
        if self.force {
            vars.push(("SIT_FORCE".to_owned(), "1".to_owned()));
        }
        proof {
            assert(pair_views(vars@) =~= seq![("SIT_REMOTE"@, self.remote@), ("SIT_BRANCH"@, self.branch@)]
                + force_vars(self.force));
        }
        let env = merge_hook_env(vars.as_slice(), self.env.as_slice());
        self.phase = PushPhase::PostHook;
        Request { print: lines, work: Work::Hook { name: "post-push".to_owned(), pre: false, env } }
    }
}

/// Starts pushing the current branch, after a blank line.
pub fn push_branch(hook_env: &[(String, String)]) -> (r: (PushFlow, Request))
    ensures
        r.0@ == (PushModel {
            force: false,
            env: pair_views(hook_env@),
            phase: PushPhase::PreHook,
            branch: seq![],
            remote: seq![],
            set_upstream: false,
        }),
        r.1@ == (seq![LineModel::Blank] + push_first(false, pair_views(hook_env@)).0, push_first(false, pair_views(hook_env@)).1),
{
    let (flow, first) = PushFlow::start(false, hook_env);
    let mut print: Vec<Line> = Vec::new();
    print.push(Line::Blank);
    let mut more = first.print;
    let ghost a = print@;
    let ghost b = more@;
    print.append(&mut more);
    proof {
        lemma_lines_view_concat(a, b);
        assert(lines_view(a) =~= seq![LineModel::Blank]);
    }
    (flow, Request { print, work: first.work })
}

// ── Laws ─────────────────────────────────────────────────

/// A failing pre-push hook aborts the push: nothing is pushed and the
/// push ends with the hook's error.
pub proof fn law_failed_pre_push_hook_aborts(
    m: PushModel,
    code: Option<i32>,
    out: Seq<char>,
    err: Seq<char>,
)
    requires
        m.phase == PushPhase::PreHook,
    ensures
        push_next(m, ReplyModel::Hook(Some((false, code, out, err)))).1.1 matches WorkModel::Finish(Err(_)),
        push_next(m, ReplyModel::Hook(Some((false, code, out, err)))).0.phase == PushPhase::Finished,
{
}

/// A failing post-push hook only warns: the push, already done, ends
/// without error, after the warning.
pub proof fn law_failed_post_push_hook_warns(
    m: PushModel,
    code: Option<i32>,
    out: Seq<char>,
    err: Seq<char>,
)
    requires
        m.phase == PushPhase::PostHook,
    ensures
        push_next(m, ReplyModel::Hook(Some((false, code, out, err)))).1.1 == WorkModel::Finish(Ok(())),
        push_next(m, ReplyModel::Hook(Some((false, code, out, err)))).1.0.contains(
            LineModel::Hint(
                "Warning: hook '"@ + "post-push"@ + "' exited with status "@ + crate::hooks::decimal_spec(
                    match code {
                        Some(c) => c as int,
                        None => 1,
                    },
                ),
            ),
        ),
{
    let lines = hook_lines_spec("post-push"@, false, false, code, out, err);
    let w = LineModel::Hint(
        "Warning: hook '"@ + "post-push"@ + "' exited with status "@ + crate::hooks::decimal_spec(
            match code {
                Some(c) => c as int,
                None => 1,
            },
        ),
    );
    let marked = (crate::hooks::marked_lines("post-push"@, out) + crate::hooks::marked_lines("post-push"@, err)).map_values(
        |l: Seq<char>| LineModel::Hint(l),
    );
    assert(lines == marked + seq![w]);
    assert((lines + seq![LineModel::Blank])[marked.len() as int] == w);
}

/// The upstream that a reply to the upstream question reports: none when
/// asking failed or the branch has none.
pub open spec fn reported_upstream(r: ReplyModel) -> Option<(Seq<char>, Seq<char>)> {
    match r {
        ReplyModel::Git(s, o, _) => upstream_spec(s, o),
        _ => None,
    }
}

/// The state and request of a push after the current branch and then the
/// upstream are reported.
pub open spec fn after_branch_and_upstream(
    m: PushModel,
    branch_reply: ReplyModel,
    upstream_reply: ReplyModel,
) -> (PushModel, RequestModel) {
    push_next(push_next(m, branch_reply).0, upstream_reply)
}

/// A push pushes the current branch: when git cannot say which branch is
/// current, the push ends with that error and nothing is pushed; when it is
/// `b`, the push asks git for `push`, with `--set-upstream origin b` exactly
/// when `b` has no upstream yet, and pushes to the upstream's remote, or to
/// `origin` when there is none. A failed push ends with
/// "Push failed: " and git's error.
pub proof fn law_push_targets_current_branch(
    m: PushModel,
    s: bool,
    out: Seq<char>,
    err: Seq<char>,
    upstream_reply: ReplyModel,
    push_err: Seq<char>,
)
    requires
        !m.force,
        m.phase == PushPhase::Branch,
        upstream_reply is Git || upstream_reply is Failed,
    ensures
        current_branch_spec(s, out) matches Err(e) ==> push_next(m, ReplyModel::Git(s, out, err)) == (
            at(m, PushPhase::Finished),
            finish_spec(seq![], Err(e)),
        ),
        current_branch_spec(s, out) matches Ok(b) ==> {
            let u = reported_upstream(upstream_reply);
            let (p, req) = after_branch_and_upstream(m, ReplyModel::Git(s, out, err), upstream_reply);
            &&& p.phase == PushPhase::Pushing
            &&& p.branch == b
            &&& p.set_upstream == (u is None)
            &&& p.remote == (match u {
                Some((r, _)) => r,
                None => "origin"@,
            })
            &&& req.1 == WorkModel::Git(
                if u is None {
                    seq!["push"@, "--set-upstream"@, "origin"@, b]
                } else {
                    seq!["push"@]
                },
            )
            &&& push_next(p, ReplyModel::Git(false, seq![], push_err)).1 == finish_spec(
                seq![],
                Err(failure_spec("Push failed: "@, push_err)),
            )
        },
{
    if let Ok(b) = current_branch_spec(s, out) {
        let u = reported_upstream(upstream_reply);
        if u is None {
            assert(seq!["push"@] + seq!["--set-upstream"@, push_remote_spec(u), b] =~= seq![
                "push"@,
                "--set-upstream"@,
                "origin"@,
                b,
            ]);
        }
    }
}

/// A forced push pushes the current branch in the same way, with
/// `--force-with-lease`: `push --force-with-lease`, then
/// `--set-upstream origin b` exactly when `b` has no upstream yet, to the
/// upstream's remote or to `origin`. A failed forced push ends with
/// "Force push failed: " and git's error.
pub proof fn law_force_push_targets_current_branch(
    m: PushModel,
    s: bool,
    out: Seq<char>,
    err: Seq<char>,
    upstream_reply: ReplyModel,
    push_err: Seq<char>,
)
    requires
        m.force,
        m.phase == PushPhase::Branch,
        upstream_reply is Git || upstream_reply is Failed,
    ensures
        current_branch_spec(s, out) matches Err(e) ==> push_next(m, ReplyModel::Git(s, out, err)) == (
            at(m, PushPhase::Finished),
            finish_spec(seq![], Err(e)),
        ),
        current_branch_spec(s, out) matches Ok(b) ==> {
            let u = reported_upstream(upstream_reply);
            let (p, req) = after_branch_and_upstream(m, ReplyModel::Git(s, out, err), upstream_reply);
            &&& p.phase == PushPhase::Pushing
            &&& p.branch == b
            &&& p.set_upstream == (u is None)
            &&& p.remote == (match u {
                Some((r, _)) => r,
                None => "origin"@,
            })
            &&& req.1 == WorkModel::Git(
                if u is None {
                    seq!["push"@, "--force-with-lease"@, "--set-upstream"@, "origin"@, b]
                } else {
                    seq!["push"@, "--force-with-lease"@]
                },
            )
            &&& push_next(p, ReplyModel::Git(false, seq![], push_err)).1 == finish_spec(
                seq![],
                Err(failure_spec("Force push failed: "@, push_err)),
            )
        },
{
    if let Ok(b) = current_branch_spec(s, out) {
        let u = reported_upstream(upstream_reply);
        if u is None {
            assert(seq!["push"@, "--force-with-lease"@] + seq!["--set-upstream"@, push_remote_spec(u), b] =~= seq![
                "push"@,
                "--force-with-lease"@,
                "--set-upstream"@,
                "origin"@,
                b,
            ]);
        }
    }
}

} // verus!
