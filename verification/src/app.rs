//! The command line: which command runs, and the command in progress as
//! one state machine.
use vstd::prelude::*;

use crate::cmd::amend::{amend_accepts, amend_commit, amend_next, amend_start_model, amend_wf, AmendFlow};
use crate::cmd::branch::{branch_accepts, branch_next, switch_branch, BranchFlow, BranchPhase};
use crate::cmd::categories::{categories_listing, show_categories};
use crate::cmd::commit::{commit_accepts, commit_next, commit_wf, commit_with_category_shortcut, interactive_commit, CommitFlow};
use crate::cmd::connect::{connect_accepts, connect_first, connect_next, connect_repo, ConnectFlow, ConnectModel, ConnectPhase};
use crate::cmd::flow::{finish, Reply, ReplyModel, Request, RequestModel, WorkModel};
use crate::cmd::commit::commit_start_model;
use crate::cmd::once::OnceKind;
use crate::cmd::push::finish_spec;
use crate::config::ConfigModel;
use crate::print::LineModel;
use crate::cmd::once::{forward, init_config, once_accepts, once_next, show_log, OnceFlow};
use crate::cmd::push::{push_accepts, push_branch, push_first, push_next, PushFlow, PushPhase};
use crate::cmd::release::{release_accepts, release_next, release_tag, ReleaseFlow, ReleasePhase};
use crate::cmd::undo::{undo_accepts, undo_commit, undo_next, UndoFlow, UndoPhase};
use crate::config::Config;
use crate::git::log::log_graph_spec;
use crate::env_args::{parse_env_kv, parse_env_spec, split_env_flags, split_env_spec, EnvVar};
use crate::text::{join_spec, join_with, pair_views, string_views, trim_spec};

verus! {

/// The command line: the command, and the `--env KEY=VALUE` values given.
pub struct Cli {
    pub command: Option<Commands>,
    pub env: Vec<String>,
}

/// The commands.
pub enum Commands {
    /// Start an interactive commit.
    Commit,
    /// List the commit categories.
    Categories,
    /// Switch branches with a searchable picker.
    Branch,
    /// Show a graph of recent commits.
    Log,
    /// Create `.sit/config.toml` and hook templates.
    Init,
    /// Push the current branch.
    Push,
    /// Create and push a release tag.
    Release,
    /// Amend the last commit.
    Amend,
    /// Undo the last commit, keeping its changes staged.
    Undo,
    /// Connect the repository to a GitHub remote and push to `main`.
    Connect { username: String, repo: String },
    /// A category shortcut, or a command for git.
    CategoryShortcut(Vec<String>),
}

/// A command in progress.
pub enum Flow {
    Commit(CommitFlow),
    Amend(AmendFlow),
    Push(PushFlow),
    Branch(BranchFlow),
    Release(ReleaseFlow),
    Connect(ConnectFlow),
    Undo(UndoFlow),
    Once(OnceFlow),
    /// Nothing is left to do.
    Over,
}

impl Flow {
    /// The replies the command accepts where it stands.
    pub open spec fn accepts_spec(&self, r: ReplyModel) -> bool {
        match self {
            Flow::Commit(c) => commit_wf(c@) && commit_accepts(c@, r),
            Flow::Amend(a) => amend_wf(a@) && amend_accepts(a@, r),
            Flow::Push(p) => push_accepts(p.phase, r),
            Flow::Branch(b) => branch_accepts(b.phase, r),
            Flow::Release(x) => release_accepts(x.phase, r),
            Flow::Connect(k) => connect_accepts(k.phase, r),
            Flow::Undo(u) => undo_accepts(u.phase, r),
            Flow::Once(o) => once_accepts(o.kind, o.done, r),
            Flow::Over => false,
        }
    }

    /// Whether the command accepts this reply where it stands.
    pub fn accepts(&self, reply: &Reply) -> (r: bool)
        ensures
            r == self.accepts_spec(reply@),
    {
        match self {
            Flow::Commit(c) => c.files.len() <= usize::MAX - 7 && c.accepts(reply),
            Flow::Amend(a) => {
                a.last_files.len() <= usize::MAX - 7 && a.staged.len() <= usize::MAX - 7 - a.last_files.len()
                    && a.preview.len() <= usize::MAX - 7 && a.accepts(reply)
            },
            Flow::Push(p) => p.accepts(reply),
            Flow::Branch(b) => b.accepts(reply),
            Flow::Release(x) => x.accepts(reply),
            Flow::Connect(k) => k.accepts(reply),
            Flow::Undo(u) => u.accepts(reply),
            Flow::Once(o) => o.accepts(reply),
            Flow::Over => false,
        }
    }

    /// What a reply does to the command in progress: the command's own step.
    pub fn step(&mut self, reply: Reply) -> (r: Request)
        requires
            old(self).accepts_spec(reply@),
        ensures
            match *old(self) {
                Flow::Commit(c) => *final(self) matches Flow::Commit(c2) && (c2@, r@) == commit_next(c@, reply@),
                Flow::Amend(a) => *final(self) matches Flow::Amend(a2) && (a2@, r@) == amend_next(a@, reply@),
                Flow::Push(p) => *final(self) matches Flow::Push(p2) && (p2@, r@) == push_next(p@, reply@),
                Flow::Branch(b) => *final(self) matches Flow::Branch(b2) && (b2@, r@) == branch_next(b@, reply@),
                Flow::Release(x) => *final(self) matches Flow::Release(x2) && (x2@, r@) == release_next(x@, reply@),
                Flow::Connect(k) => *final(self) matches Flow::Connect(k2) && (k2@, r@) == connect_next(k@, reply@),
                Flow::Undo(u) => *final(self) matches Flow::Undo(u2) && (u2@, r@) == undo_next(u@, reply@),
                Flow::Once(o) => *final(self) matches Flow::Once(o2) && o2.done && r@ == once_next(
                    o.kind,
                    string_views(o.args@),
                    reply@,
                ),
                Flow::Over => false,
            },
    {
        match self {
            Flow::Commit(c) => c.step(reply),
            Flow::Amend(a) => a.step(reply),
            Flow::Push(p) => p.step(reply),
            Flow::Branch(b) => b.step(reply),
            Flow::Release(x) => x.step(reply),
            Flow::Connect(k) => k.step(reply),
            Flow::Undo(u) => u.step(reply),
            Flow::Once(o) => o.step(reply),
            Flow::Over => finish(Vec::new(), Ok(())),
        }
    }
}

/// The variables of the `--env` values, or the first malformed one's error.
pub open spec fn env_values_spec(values: Seq<Seq<char>>) -> Result<Seq<(Seq<char>, Seq<char>)>, Seq<char>>
    decreases values.len(),
{
    if values.len() == 0 {
        Ok(seq![])
    } else {
        match env_values_spec(values.drop_last()) {
            Err(e) => Err(e),
            Ok(vs) => match parse_env_spec(values.last()) {
                Err(e) => Err(e),
                Ok(p) => Ok(vs.push(p)),
            },
        }
    }
}

/// Parses the `--env` values.
pub fn parse_env_values(values: &[String]) -> (r: Result<Vec<EnvVar>, String>)
    ensures
        match r {
            Ok(v) => env_values_spec(string_views(values@)) == Ok::<Seq<(Seq<char>, Seq<char>)>, Seq<char>>(
                pair_views(v@),
            ),
            Err(e) => env_values_spec(string_views(values@)) == Err::<Seq<(Seq<char>, Seq<char>)>, Seq<char>>(
                e@,
            ),
        },
{
    let ghost vs = string_views(values@);
    let mut out: Vec<EnvVar> = Vec::new();
    let mut i: usize = 0;
    assert(vs.take(0) =~= Seq::<Seq<char>>::empty());
    assert(pair_views(out@) =~= Seq::<(Seq<char>, Seq<char>)>::empty());
    while i < values.len()
        invariant
            i <= values@.len(),
            vs == string_views(values@),
            env_values_spec(vs.take(i as int)) == Ok::<Seq<(Seq<char>, Seq<char>)>, Seq<char>>(pair_views(out@)),
        decreases values.len() - i,
    {
        proof {
            assert(vs.take(i as int + 1).drop_last() =~= vs.take(i as int));
            assert(vs.take(i as int + 1).last() == values@[i as int]@);
        }
        match parse_env_kv(values[i].as_str()) {
            Err(e) => {
                proof {
                    lemma_env_values_err(vs, i as int + 1);
                }
                return Err(e);
            },
            Ok(p) => {
                let ghost before = out@;
                out.push(p);
                assert(pair_views(out@) =~= pair_views(before).push((p.0@, p.1@)));
            },
        }
        i = i + 1;
    }
    assert(vs.take(values@.len() as int) =~= vs);
    Ok(out)
}

/// An error among the first values is the error of all of them.
proof fn lemma_env_values_err(vs: Seq<Seq<char>>, n: int)
    requires
        0 <= n <= vs.len(),
        env_values_spec(vs.take(n)) is Err,
    ensures
        env_values_spec(vs) == env_values_spec(vs.take(n)),
    decreases vs.len() - n,
{
    if n < vs.len() {
        assert(vs.take(n + 1).drop_last() =~= vs.take(n));
        lemma_env_values_err(vs, n + 1);
    } else {
        assert(vs.take(n) =~= vs);
    }
}

/// Where a category shortcut leads.
pub enum RouteModel {
    /// No arguments: the interactive commit.
    Interactive,
    /// Not a category: the arguments go to git.
    Forward,
    /// A commit in this category, with the message the other arguments
    /// make (if any) and the hook environment with their `--env` values.
    Shortcut(Seq<char>, Option<Seq<char>>, Seq<(Seq<char>, Seq<char>)>),
    /// A malformed `--env` flag.
    Failed(Seq<char>),
}

/// Whether a category has this name.
pub open spec fn is_category(cfg: ConfigModel, name: Seq<char>) -> bool {
    exists|i: int| 0 <= i < cfg.categories.len() && (#[trigger] cfg.categories[i]).name == name
}

/// Where the arguments after `sit` lead when they are no known command.
pub open spec fn route_spec(cfg: ConfigModel, args: Seq<Seq<char>>, env: Seq<(Seq<char>, Seq<char>)>) -> RouteModel {
    if args.len() == 0 {
        RouteModel::Interactive
    } else if !is_category(cfg, args[0]) {
        RouteModel::Forward
    } else {
        match split_env_spec(args.skip(1)) {
            Err(e) => RouteModel::Failed(e),
            Ok((parts, extra)) => RouteModel::Shortcut(
                args[0],
                if parts.len() > 0 {
                    Some(join_spec(parts, " "@))
                } else {
                    None
                },
                env + extra,
            ),
        }
    }
}

/// What the words after `sit` that name no built-in command start: none
/// start the interactive commit; a first word that is no configured category
/// hands all the words to git; a category starts a commit in it, with the
/// remaining words (their `--env` flags taken out) joined by spaces as the
/// message when there are any, and the `--env` values added after the
/// global ones; a malformed `--env` flag is the error.
pub proof fn law_routing(cfg: ConfigModel, args: Seq<Seq<char>>, env: Seq<(Seq<char>, Seq<char>)>)
    ensures
        args.len() == 0 ==> route_spec(cfg, args, env) == RouteModel::Interactive,
        args.len() > 0 && !is_category(cfg, args[0]) ==> route_spec(cfg, args, env) == RouteModel::Forward,
        args.len() > 0 && is_category(cfg, args[0]) ==> match split_env_spec(args.skip(1)) {
            Err(e) => route_spec(cfg, args, env) == RouteModel::Failed(e),
            Ok((words, extra)) => route_spec(cfg, args, env) == RouteModel::Shortcut(
                args[0],
                if words.len() > 0 {
                    Some(join_spec(words, " "@))
                } else {
                    None
                },
                env + extra,
            ),
        },
{
}

/// All arguments but the first.
fn skip_first(args: &[String]) -> (r: Vec<String>)
    requires
        args@.len() > 0,
    ensures
        string_views(r@) == string_views(args@).skip(1),
{
    let mut r: Vec<String> = Vec::new();
    let mut i: usize = 1;
    while i < args.len()
        invariant
            1 <= i <= args@.len(),
            string_views(r@) == string_views(args@).subrange(1, i as int),
        decreases args.len() - i,
    {
        let ghost before = r@;
        r.push(args[i].clone());
        assert(string_views(r@) =~= string_views(before).push(args@[i as int]@));
        i = i + 1;
        assert(string_views(r@) =~= string_views(args@).subrange(1, i as int));
    }
    assert(string_views(args@).subrange(1, args@.len() as int) =~= string_views(args@).skip(1));
    r
}

/// What starting a category shortcut gives, for where it leads.
pub open spec fn routed(
    cfg: ConfigModel,
    args: Seq<Seq<char>>,
    env: Seq<(Seq<char>, Seq<char>)>,
    r: (Flow, Request),
) -> bool {
    match route_spec(cfg, args, env) {
        RouteModel::Interactive => r.0 matches Flow::Commit(c) && c@ == commit_start_model(cfg, None, None, env)
            && r.1@ == (Seq::<LineModel>::empty(), WorkModel::Git(seq!["status"@, "--porcelain"@])),
        RouteModel::Forward => r.0 matches Flow::Once(o) && o.kind == OnceKind::Forward && !o.done && string_views(
            o.args@,
        ) == args && r.1@ == (Seq::<LineModel>::empty(), WorkModel::Git(args)),
        RouteModel::Shortcut(category, inline, env2) => r.0 matches Flow::Commit(c) && c@ == commit_start_model(
            cfg,
            Some(category),
            inline,
            env2,
        ) && r.1@ == (Seq::<LineModel>::empty(), WorkModel::Git(seq!["status"@, "--porcelain"@])),
        RouteModel::Failed(e) => r.0 is Over && r.1@ == finish_spec(seq![], Err(e)),
    }
}

/// Starts what the arguments after `sit` ask for when they are no known
/// command: the interactive commit, a commit in the category named first,
/// or the arguments passed on to git.
pub fn handle_external_or_category(cfg: Config, args: &[String], hook_env: &[(String, String)]) -> (r: (
    Flow,
    Request,
))
    ensures
        routed(cfg@, string_views(args@), pair_views(hook_env@), r),
{
    if args.len() == 0 {
        let (c, req) = interactive_commit(cfg, hook_env);
        return (Flow::Commit(c), req);
    }
    let category = args[0].as_str();
    let mut known = false;
    let mut i: usize = 0;
    while i < cfg.categories.len()
        invariant
            i <= cfg.categories@.len(),
            known == exists|k: int| 0 <= k < i && (#[trigger] cfg@.categories[k]).name == category@,
        decreases cfg.categories.len() - i,
    {
        assert(cfg@.categories[i as int] == cfg.categories@[i as int]@);
        if crate::text::str_eq(cfg.categories[i].name.as_str(), category) {
            known = true;
        }
        i = i + 1;
    }
    assert(string_views(args@)[0] == args@[0]@);
    if !known {
        let (o, req) = forward(args);
        return (Flow::Once(o), req);
    }
    let rest = skip_first(args);
    let ghost cfgv = cfg@;
    let ghost argv = string_views(args@);
    let ghost envv = pair_views(hook_env@);
    assert(is_category(cfgv, argv[0]));
    match split_env_flags(rest.as_slice()) {
        Err(e) => {
            let none: Vec<crate::print::Line> = Vec::new();
            assert(crate::print::lines_view(none@) =~= Seq::<LineModel>::empty());
            let r = (Flow::Over, finish(none, Err(e)));
            assert(route_spec(cfgv, argv, envv) == RouteModel::Failed(e@));
            r
        },
        Ok((parts, extra)) => {
            let mut env = crate::text::clone_pairs(hook_env);
            let mut more = extra;
            let ghost a = env@;
            let ghost b = more@;
            env.append(&mut more);
            assert(pair_views(env@) =~= pair_views(a) + pair_views(b));
            let inline = if parts.len() > 0 {
                Some(join_with(parts.as_slice(), " "))
            } else {
                None
            };
            let (c, req) = commit_with_category_shortcut(cfg, category, inline, env.as_slice());
            assert(route_spec(cfgv, argv, envv) == RouteModel::Shortcut(
                argv[0],
                super::cmd::flow::opt_text(inline),
                pair_views(env@),
            ));
            (Flow::Commit(c), req)
        },
    }
}

/// Starts the command the command line names, with the hook environment
/// its `--env` values give; a malformed value ends it at once.
pub fn run(cli: Cli, cfg: Config) -> (r: (Flow, Request))
    requires
        forall|k: int| 0 <= k < cfg@.categories.len() ==> (#[trigger] cfg@.categories[k]).name.len() + 2 <= usize::MAX,
    ensures
        match env_values_spec(string_views(cli.env@)) {
            Err(e) => r.0 is Over && r.1@ == finish_spec(seq![], Err(e)),
            Ok(env) => match cli.command {
                None => r.0 matches Flow::Commit(c) && c@ == commit_start_model(cfg@, None, None, env) && r.1@ == (
                    Seq::<LineModel>::empty(),
                    WorkModel::Git(seq!["status"@, "--porcelain"@]),
                ),
                Some(Commands::Commit) => r.0 matches Flow::Commit(c) && c@ == commit_start_model(cfg@, None, None, env)
                    && r.1@ == (Seq::<LineModel>::empty(), WorkModel::Git(seq!["status"@, "--porcelain"@])),
                Some(Commands::Categories) => r.0 is Over && r.1@ == finish_spec(
                    categories_listing(cfg@.categories),
                    Ok(()),
                ),
                Some(Commands::Branch) => r.0 matches Flow::Branch(b) && b.phase == BranchPhase::List && r.1@ == (
                    Seq::<LineModel>::empty(),
                    WorkModel::Git(seq!["branch"@, "--format=%(refname:short)"@]),
                ),
                Some(Commands::Log) => r.0 matches Flow::Once(o) && o.kind == OnceKind::Log && !o.done && r.1@ == (
                    Seq::<LineModel>::empty(),
                    WorkModel::Git(log_graph_spec()),
                ),
                Some(Commands::Init) => r.0 matches Flow::Once(o) && o.kind == OnceKind::Init && !o.done && r.1@ == (
                    Seq::<LineModel>::empty(),
                    WorkModel::InitConfig,
                ),
                Some(Commands::Push) => r.0 matches Flow::Push(p) && p@.env == env && !p.force && p.phase
                    == PushPhase::PreHook && r.1@ == (
                    seq![LineModel::Blank] + push_first(false, env).0,
                    push_first(false, env).1,
                ),
                Some(Commands::Release) => r.0 matches Flow::Release(x) && x.phase == ReleasePhase::Tags && r.1@ == (
                    Seq::<LineModel>::empty(),
                    WorkModel::Git(seq!["tag"@, "--list"@, "--sort=-v:refname"@]),
                ),
                Some(Commands::Amend) => r.0 matches Flow::Amend(a) && a@ == amend_start_model(
                    cfg@.commit.auto_push,
                    env,
                ) && r.1@ == (Seq::<LineModel>::empty(), WorkModel::Git(seq!["log"@, "-1"@, "--format=%B"@])),
                Some(Commands::Undo) => r.0 matches Flow::Undo(u) && u.phase == UndoPhase::LastMessage && r.1@ == (
                    Seq::<LineModel>::empty(),
                    WorkModel::Git(seq!["log"@, "-1"@, "--format=%B"@]),
                ),
                Some(Commands::Connect { username, repo }) => r.0 matches Flow::Connect(k) && k@ == (ConnectModel {
                    phase: ConnectPhase::AddRemote,
                    username: username@,
                    repo: repo@,
                }) && r.1@ == connect_first(username@, repo@),
                Some(Commands::CategoryShortcut(args)) => routed(cfg@, string_views(args@), env, r),
            },
        },
{
    let env = match parse_env_values(cli.env.as_slice()) {
        Err(e) => {
            return (Flow::Over, finish(Vec::new(), Err(e)));
        },
        Ok(env) => env,
    };
    match cli.command {
        None | Some(Commands::Commit) => {
            let (c, req) = interactive_commit(cfg, env.as_slice());
            (Flow::Commit(c), req)
        },
        Some(Commands::Categories) => {
            let lines = show_categories(&cfg);
            (Flow::Over, finish(lines, Ok(())))
        },
        Some(Commands::Branch) => {
            let (b, req) = switch_branch();
            (Flow::Branch(b), req)
        },
        Some(Commands::Log) => {
            let (o, req) = show_log();
            (Flow::Once(o), req)
        },
        Some(Commands::Init) => {
            let (o, req) = init_config();
            (Flow::Once(o), req)
        },
        Some(Commands::Push) => {
            let (p, req) = push_branch(env.as_slice());
            (Flow::Push(p), req)
        },
        Some(Commands::Release) => {
            let (x, req) = release_tag();
            (Flow::Release(x), req)
        },
        Some(Commands::Amend) => {
            let (a, req) = amend_commit(&cfg, env.as_slice());
            (Flow::Amend(a), req)
        },
        Some(Commands::Undo) => {
            let (u, req) = undo_commit();
            (Flow::Undo(u), req)
        },
        Some(Commands::Connect { username, repo }) => {
            let (k, req) = connect_repo(username.as_str(), repo.as_str());
            (Flow::Connect(k), req)
        },
        Some(Commands::CategoryShortcut(args)) => handle_external_or_category(cfg, args.as_slice(), env.as_slice()),
    }
}

} // verus!
