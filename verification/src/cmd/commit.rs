//! Committing: the status, the file picker, category, module, message and
//! description, the preview, the hooks around staging and committing, and
//! the push after it.
use vstd::prelude::*;
use vstd::string::StrSliceExecFns;

use super::flow::{ask, finish, opt_text, Reply, ReplyModel, Request, RequestModel, Work, WorkModel};
use super::push::{finish_spec, push_accepts, push_first, push_next, PushFlow, PushModel, PushPhase};
use crate::config::{commit_message_spec, recommended_spec, Config, ConfigModel};
use crate::git::commits::{commit, commit_args};
use crate::git::staging::{nonempty_trimmed, stage_files, stage_outcome, stage_spec, staged_paths, staged_paths_args};
use crate::git::status::{get_status, status_args, status_entries, status_output_ok, status_readable};
use crate::hooks::{hook_lines_spec, hook_report, hook_result_spec, merge_hook_env, merge_spec, HookKind};
use crate::print::{lines_of_details, lines_view, Line, LineModel};
use crate::text::{clone_pairs, first_line, first_line_spec, join_spec, join_with, lines_spec, pair_views, string_views, trim_spec};
use crate::ui::confirms::{confirm_commit, confirm_push, preview_spec, simple_spec, ConfirmStyle};
use crate::ui::prompts::{message_spec, prompt_message};

verus! {

/// Where a commit stands.
#[derive(Clone, Copy, PartialEq, Eq, Structural)]
pub enum CommitPhase {
    Status,
    Pick,
    Category,
    Module,
    Message,
    Description,
    Confirm,
    PreHook,
    Staged,
    Add,
    Commit,
    PostHook,
    AskPush,
    Pushing,
    Finished,
}

/// A commit in progress.
pub struct CommitFlow {
    pub cfg: Config,
    pub env: Vec<(String, String)>,
    pub phase: CommitPhase,
    /// The category was given on the command line.
    pub shortcut: bool,
    pub category: String,
    /// The message given on the command line, if any.
    pub inline: Option<String>,
    pub files: Vec<String>,
    pub module: Option<String>,
    pub message: String,
    /// The whole commit message.
    pub full: String,
    /// The push runs because the configuration says so.
    pub auto: bool,
    pub push: PushFlow,
}

/// The mathematical value of a commit in progress.
pub struct CommitModel {
    pub cfg: ConfigModel,
    pub env: Seq<(Seq<char>, Seq<char>)>,
    pub phase: CommitPhase,
    pub shortcut: bool,
    pub category: Seq<char>,
    pub inline: Option<Seq<char>>,
    pub files: Seq<Seq<char>>,
    pub module: Option<Seq<char>>,
    pub message: Seq<char>,
    pub full: Seq<char>,
    pub auto: bool,
    pub push: PushModel,
}

impl View for CommitFlow {
    type V = CommitModel;

    open spec fn view(&self) -> CommitModel {
        CommitModel {
            cfg: self.cfg@,
            env: pair_views(self.env@),
            phase: self.phase,
            shortcut: self.shortcut,
            category: self.category@,
            inline: opt_text(self.inline),
            files: string_views(self.files@),
            module: opt_text(self.module),
            message: self.message@,
            full: self.full@,
            auto: self.auto,
            push: self.push@,
        }
    }
}

/// The model with another phase.
pub open spec fn cat(m: CommitModel, p: CommitPhase) -> CommitModel {
    CommitModel { phase: p, ..m }
}

/// The end of the commit.
pub open spec fn cfinish(m: CommitModel, lines: Seq<LineModel>, r: Result<(), Seq<char>>) -> (CommitModel, RequestModel) {
    (cat(m, CommitPhase::Finished), finish_spec(lines, r))
}

/// A push that has not started.
pub open spec fn idle_push(env: Seq<(Seq<char>, Seq<char>)>) -> PushModel {
    PushModel { force: false, env, phase: PushPhase::PreHook, branch: seq![], remote: seq![], set_upstream: false }
}

/// After the message: the description, if the configuration asks for one.
pub open spec fn after_message(m: CommitModel) -> (CommitModel, RequestModel) {
    if m.cfg.commit.ask_description {
        (cat(m, CommitPhase::Description), (seq![], WorkModel::PromptDescription))
    } else {
        after_description(m, seq![])
    }
}

/// After the description: the preview of the whole message.
pub open spec fn after_description(m: CommitModel, d: Seq<char>) -> (CommitModel, RequestModel) {
    let full = commit_message_spec(m.cfg, m.category, m.module, m.message, d);
    (
        CommitModel { phase: CommitPhase::Confirm, full, ..m },
        (
            seq![],
            WorkModel::Confirm(
                preview_spec(first_line_spec(full), seq![], m.files),
                m.files.len() + 7,
                ConfirmStyle::Preview,
            ),
        ),
    )
}

/// After the module: the message from the command line when it is not
/// blank, else a prompt for it.
pub open spec fn after_module(m: CommitModel) -> (CommitModel, RequestModel) {
    match m.inline {
        Some(t) if trim_spec(t).len() > 0 => after_message(CommitModel { message: t, ..m }),
        _ => (cat(m, CommitPhase::Message), (seq![], WorkModel::PromptMessage(m.category))),
    }
}

/// After the category: the module selector when modules are configured,
/// starting on the recommended one.
pub open spec fn after_category(m: CommitModel) -> (CommitModel, RequestModel) {
    if m.cfg.modules.len() > 0 {
        (
            cat(m, CommitPhase::Module),
            (seq![], WorkModel::SelectModule(m.cfg.modules, recommended_spec(m.cfg.modules, m.files))),
        )
    } else {
        after_module(CommitModel { module: None, ..m })
    }
}

/// After the files: the category selector, unless the category was given.
pub open spec fn after_files(m: CommitModel) -> (CommitModel, RequestModel) {
    if m.shortcut {
        after_category(m)
    } else {
        (cat(m, CommitPhase::Category), (seq![], WorkModel::SelectCategory(m.cfg.categories)))
    }
}

/// The environment of the pre-commit hook.
pub open spec fn pre_commit_env(m: CommitModel) -> Seq<(Seq<char>, Seq<char>)> {
    merge_spec(
        seq![("SIT_CATEGORY"@, m.category), ("SIT_MESSAGE"@, m.full), ("SIT_FILES"@, join_spec(m.files, ":"@))],
        m.env,
    )
}

/// The environment of the post-commit hook.
pub open spec fn post_commit_env(m: CommitModel) -> Seq<(Seq<char>, Seq<char>)> {
    merge_spec(seq![("SIT_CATEGORY"@, m.category), ("SIT_MESSAGE"@, m.full)], m.env)
}

/// Staging starts by asking which files are staged already.
pub open spec fn to_stage(m: CommitModel, lines: Seq<LineModel>) -> (CommitModel, RequestModel) {
    (cat(m, CommitPhase::Staged), (lines, WorkModel::Git(seq!["diff"@, "--name-only"@, "--cached"@])))
}

/// After the post-commit hook: the push when the configuration says so,
/// else the question whether to push.
pub open spec fn after_post(m: CommitModel, lines: Seq<LineModel>) -> (CommitModel, RequestModel) {
    if m.cfg.commit.auto_push {
        (
            CommitModel { phase: CommitPhase::Pushing, auto: true, push: idle_push(m.env), ..m },
            (lines + push_first(false, m.env).0, push_first(false, m.env).1),
        )
    } else {
        (
            cat(m, CommitPhase::AskPush),
            (lines, WorkModel::Confirm(simple_spec("\r\n  Push now?"@), 1, ConfirmStyle::Simple { enter_yes: true })),
        )
    }
}

/// What the push's request means for the commit: its end ends the
/// commit; a failed push that the user asked for is shown, not returned.
pub open spec fn through_push(m: CommitModel, p: PushModel, req: RequestModel) -> (CommitModel, RequestModel) {
    let m2 = CommitModel { push: p, ..m };
    match req.1 {
        WorkModel::Finish(res) => if m.auto {
            cfinish(m2, req.0, res)
        } else {
            match res {
                Err(e) => cfinish(m2, req.0 + seq![LineModel::Error(e), LineModel::Blank], Ok(())),
                Ok(()) => cfinish(m2, req.0, Ok(())),
            }
        },
        _ => (m2, req),
    }
}

/// A commit whose files fit in a preview.
pub open spec fn commit_wf(m: CommitModel) -> bool {
    m.files.len() + 7 <= usize::MAX
}

/// The replies a commit accepts where it stands.
pub open spec fn commit_accepts(m: CommitModel, r: ReplyModel) -> bool {
    match m.phase {
        CommitPhase::Status => r is Failed || (r matches ReplyModel::Git(s, o, _) && (s ==> status_output_ok(o))),
        CommitPhase::Staged | CommitPhase::Add | CommitPhase::Commit => r is Git || r is Failed,
        CommitPhase::Pick => r is Failed || (r matches ReplyModel::Picked(f) && f.len() + 7 <= usize::MAX),
        CommitPhase::Category => r is Failed || (r matches ReplyModel::Chosen(Some(i)) && i < m.cfg.categories.len()),
        CommitPhase::Module => r is Failed || (r matches ReplyModel::Chosen(c) && (c matches Some(i) ==> i
            < m.cfg.modules.len())),
        CommitPhase::Message | CommitPhase::Description => r is Text || r is Failed,
        CommitPhase::Confirm | CommitPhase::AskPush => r is Answer || r is Failed,
        CommitPhase::PreHook | CommitPhase::PostHook => r is Hook || r is Failed,
        CommitPhase::Pushing => push_accepts(m.push.phase, r),
        CommitPhase::Finished => false,
    }
}

/// What a reply does to a commit: the next state and request.
pub open spec fn commit_next(m: CommitModel, r: ReplyModel) -> (CommitModel, RequestModel) {
    match (m.phase, r) {
        (CommitPhase::Pushing, _) => {
            let (p, req) = push_next(m.push, r);
            through_push(m, p, req)
        },
        (_, ReplyModel::Failed(e)) => cfinish(m, seq![], Err(e)),
        (CommitPhase::Status, ReplyModel::Git(s, o, _)) => if !s {
            cfinish(m, seq![], Err("Not a git repository"@))
        } else if status_entries(lines_spec(o)).len() == 0 {
            cfinish(m, seq![LineModel::Blank, LineModel::Hint("No changes to commit"@), LineModel::Blank], Ok(()))
        } else {
            (cat(m, CommitPhase::Pick), (seq![], WorkModel::Pick(status_entries(lines_spec(o)))))
        },
        (CommitPhase::Pick, ReplyModel::Picked(files)) => if files.len() == 0 {
            cfinish(m, seq![LineModel::Hint("No files selected"@), LineModel::Blank], Ok(()))
        } else {
            after_files(CommitModel { files, ..m })
        },
        (CommitPhase::Category, ReplyModel::Chosen(Some(i))) => after_category(
            CommitModel { category: m.cfg.categories[i as int].name, ..m },
        ),
        (CommitPhase::Module, ReplyModel::Chosen(c)) => after_module(
            CommitModel {
                module: match c {
                    Some(i) => Some(m.cfg.modules[i as int].name),
                    None => None,
                },
                ..m
            },
        ),
        (CommitPhase::Message, ReplyModel::Text(t)) => match message_spec(t) {
            Err(e) => cfinish(m, seq![], Err(e)),
            Ok(msg) => after_message(CommitModel { message: msg, ..m }),
        },
        (CommitPhase::Description, ReplyModel::Text(d)) => after_description(m, d),
        (CommitPhase::Confirm, ReplyModel::Answer(yes)) => if !yes {
            cfinish(m, seq![LineModel::Blank, LineModel::Hint("Aborted"@), LineModel::Blank], Ok(()))
        } else {
            (cat(m, CommitPhase::PreHook), (seq![], WorkModel::Hook("pre-commit"@, true, pre_commit_env(m))))
        },
        (CommitPhase::PreHook, ReplyModel::Hook(None)) => to_stage(m, seq![]),
        (CommitPhase::PreHook, ReplyModel::Hook(Some((s, c, o, e)))) => {
            let lines = hook_lines_spec("pre-commit"@, true, s, c, o, e);
            match hook_result_spec("pre-commit"@, true, s, c) {
                Err(err) => cfinish(m, lines, Err(err)),
                Ok(()) => to_stage(m, lines),
            }
        },
        (CommitPhase::Staged, ReplyModel::Git(s, o, e)) => if !s {
            cfinish(m, seq![], Err("Failed to inspect staged files: "@ + e))
        } else {
            match stage_spec(m.files, nonempty_trimmed(lines_spec(o))) {
                Err(x) => cfinish(m, seq![], Err(x)),
                Ok(args) => (cat(m, CommitPhase::Add), (seq![], WorkModel::Git(args))),
            }
        },
        (CommitPhase::Add, ReplyModel::Git(s, _, e)) => if !s {
            cfinish(m, seq![], Err("Failed to stage: "@ + e))
        } else {
            (cat(m, CommitPhase::Commit), (seq![], WorkModel::Git(seq!["commit"@, "-m"@, m.full])))
        },
        (CommitPhase::Commit, ReplyModel::Git(s, _, e)) => if !s {
            cfinish(m, seq![], Err("Commit failed: "@ + e))
        } else {
            (
                cat(m, CommitPhase::PostHook),
                (
                    seq![LineModel::Blank, LineModel::Success("Committed"@)] + lines_of_details(m.full) + seq![
                        LineModel::Blank,
                    ],
                    WorkModel::Hook("post-commit"@, false, post_commit_env(m)),
                ),
            )
        },
        (CommitPhase::PostHook, ReplyModel::Hook(None)) => after_post(m, seq![]),
        (CommitPhase::PostHook, ReplyModel::Hook(Some((s, c, o, e)))) => {
            let lines = hook_lines_spec("post-commit"@, false, s, c, o, e);
            match hook_result_spec("post-commit"@, false, s, c) {
                Err(err) => cfinish(m, lines, Err(err)),
                Ok(()) => after_post(m, lines),
            }
        },
        (CommitPhase::AskPush, ReplyModel::Answer(yes)) => if yes {
            (
                CommitModel { phase: CommitPhase::Pushing, auto: false, push: idle_push(m.env), ..m },
                push_first(false, m.env),
            )
        } else {
            cfinish(m, seq![], Ok(()))
        },
        // Not reached: a commit only steps on a reply it accepts.
        _ => cfinish(m, seq![], Ok(())),
    }
}

/// The first state of a commit, with the category given (or not) on the
/// command line.
pub open spec fn commit_start_model(
    cfg: ConfigModel,
    category: Option<Seq<char>>,
    inline: Option<Seq<char>>,
    env: Seq<(Seq<char>, Seq<char>)>,
) -> CommitModel {
    CommitModel {
        cfg,
        env,
        phase: CommitPhase::Status,
        shortcut: category is Some,
        category: match category {
            Some(c) => c,
            None => seq![],
        },
        inline,
        files: seq![],
        module: None,
        message: seq![],
        full: seq![],
        auto: false,
        push: idle_push(env),
    }
}

/// The lines that end with a blank line, a hint and a blank line.
fn hint_between_blanks(text: &str) -> (r: Vec<Line>)
    ensures
        lines_view(r@) == seq![LineModel::Blank, LineModel::Hint(text@), LineModel::Blank],
{
    let mut v: Vec<Line> = Vec::new();
    v.push(Line::Blank);
    v.push(Line::Hint(text.to_owned()));
    v.push(Line::Blank);
    assert(lines_view(v@) =~= seq![LineModel::Blank, LineModel::Hint(text@), LineModel::Blank]);
    v
}

impl CommitFlow {
    /// Starts a commit: the state, and its first request (the status).
    pub fn start(cfg: Config, category: Option<String>, inline: Option<String>, env: &[(String, String)]) -> (r: (
        CommitFlow,
        Request,
    ))
        ensures
            r.0@ == commit_start_model(cfg@, opt_text(category), opt_text(inline), pair_views(env@)),
            commit_wf(r.0@),
            r.1@ == (Seq::<LineModel>::empty(), WorkModel::Git(seq!["status"@, "--porcelain"@])),
    {
        let shortcut = category.is_some();
        let name = match category {
            Some(c) => c,
            None => String::new(),
        };
        let (push, _) = PushFlow::start(false, env);
        let flow = CommitFlow {
            cfg,
            env: clone_pairs(env),
            phase: CommitPhase::Status,
            shortcut,
            category: name,
            inline,
            files: Vec::new(),
            module: None,
            message: String::new(),
            full: String::new(),
            auto: false,
            push,
        };
        proof {
            assert(string_views(flow.files@) =~= Seq::<Seq<char>>::empty());
        }
        (flow, ask(Work::Git(status_args())))
    }

    /// Whether the commit accepts this reply where it stands.
    pub fn accepts(&self, reply: &Reply) -> (r: bool)
        ensures
            r == commit_accepts(self@, reply@),
    {
        match self.phase {
            CommitPhase::Status => match reply {
                Reply::Failed(_) => true,
                Reply::Git(o) => !o.success || status_readable(o.stdout.as_str()),
                _ => false,
            },
            CommitPhase::Staged | CommitPhase::Add | CommitPhase::Commit => match reply {
                Reply::Git(_) | Reply::Failed(_) => true,
                _ => false,
            },
            CommitPhase::Pick => match reply {
                Reply::Failed(_) => true,
                Reply::Picked(f) => f.len() <= usize::MAX - 7,
                _ => false,
            },
            CommitPhase::Category => match reply {
                Reply::Failed(_) => true,
                Reply::Chosen(Some(i)) => *i < self.cfg.categories.len(),
                _ => false,
            },
            CommitPhase::Module => match reply {
                Reply::Failed(_) | Reply::Chosen(None) => true,
                Reply::Chosen(Some(i)) => *i < self.cfg.modules.len(),
                _ => false,
            },
            CommitPhase::Message | CommitPhase::Description => match reply {
                Reply::Text(_) | Reply::Failed(_) => true,
                _ => false,
            },
            CommitPhase::Confirm | CommitPhase::AskPush => match reply {
                Reply::Answer(_) | Reply::Failed(_) => true,
                _ => false,
            },
            CommitPhase::PreHook | CommitPhase::PostHook => match reply {
                Reply::Hook(_) | Reply::Failed(_) => true,
                _ => false,
            },
            CommitPhase::Pushing => self.push.accepts(reply),
            CommitPhase::Finished => false,
        }
    }

    /// Ends the commit.
    fn end(&mut self, lines: Vec<Line>, res: Result<(), String>) -> (r: Request)
        ensures
            (final(self)@, r@) == cfinish(
                old(self)@,
                lines_view(lines@),
                match res {
                    Ok(()) => Ok(()),
                    Err(e) => Err(e@),
                },
            ),
    {
        self.phase = CommitPhase::Finished;
        finish(lines, res)
    }

    fn after_description_exec(&mut self, d: &str) -> (r: Request)
        requires
            old(self).files@.len() + 7 <= usize::MAX,
        ensures
            (final(self)@, r@) == after_description(old(self)@, d@),
    {
        let full = match &self.module {
            Some(m) => self.cfg.format_commit(self.category.as_str(), Some(m.as_str()), self.message.as_str(), d),
            None => self.cfg.format_commit(self.category.as_str(), None, self.message.as_str(), d),
        };
        let subject = first_line(full.as_str());
        let c = confirm_commit(subject.as_str(), "", self.files.as_slice());
        self.full = full;
        self.phase = CommitPhase::Confirm;
        proof {
            assert(""@ =~= Seq::<char>::empty()) by {
                reveal_strlit("");
            }
        }
        ask(Work::Confirm(c))
    }

    fn after_message_exec(&mut self) -> (r: Request)
        requires
            old(self).files@.len() + 7 <= usize::MAX,
        ensures
            (final(self)@, r@) == after_message(old(self)@),
    {
        if self.cfg.commit.ask_description {
            self.phase = CommitPhase::Description;
            ask(Work::PromptDescription)
        } else {
            proof {
                reveal_strlit("");
            }
            self.after_description_exec("")
        }
    }

    fn after_module_exec(&mut self) -> (r: Request)
        requires
            old(self).files@.len() + 7 <= usize::MAX,
        ensures
            (final(self)@, r@) == after_module(old(self)@),
    {
        let given = match &self.inline {
            Some(t) => {
                let tt = crate::text::trim_str(t.as_str());
                if tt.unicode_len() > 0 {
                    Some(t.clone())
                } else {
                    None
                }
            },
            None => None,
        };
        match given {
            Some(t) => {
                self.message = t;
                self.after_message_exec()
            },
            None => {
                self.phase = CommitPhase::Message;
                ask(Work::PromptMessage(self.category.clone()))
            },
        }
    }

    fn after_category_exec(&mut self) -> (r: Request)
        requires
            old(self).files@.len() + 7 <= usize::MAX,
        ensures
            (final(self)@, r@) == after_category(old(self)@),
    {
        if self.cfg.has_modules() {
            let rec = match self.cfg.recommended_module_name(self.files.as_slice()) {
                Some(n) => Some(n.to_owned()),
                None => None,
            };
            self.phase = CommitPhase::Module;
            ask(Work::SelectModule(crate::config::clone_modules(self.cfg.modules.as_slice()), rec))
        } else {
            self.module = None;
            self.after_module_exec()
        }
    }
}

impl CommitFlow {
    fn after_files_exec(&mut self) -> (r: Request)
        requires
            old(self).files@.len() + 7 <= usize::MAX,
        ensures
            (final(self)@, r@) == after_files(old(self)@),
    {
        if self.shortcut {
            self.after_category_exec()
        } else {
            self.phase = CommitPhase::Category;
            ask(Work::SelectCategory(crate::config::clone_categories(self.cfg.categories.as_slice())))
        }
    }

    fn to_stage_exec(&mut self, lines: Vec<Line>) -> (r: Request)
        ensures
            (final(self)@, r@) == to_stage(old(self)@, lines_view(lines@)),
    {
        self.phase = CommitPhase::Staged;
        Request { print: lines, work: Work::Git(staged_paths_args()) }
    }

    fn after_post_exec(&mut self, lines: Vec<Line>) -> (r: Request)
        ensures
            (final(self)@, r@) == after_post(old(self)@, lines_view(lines@)),
    {
        if self.cfg.commit.auto_push {
            let (p, first) = PushFlow::start(false, self.env.as_slice());
            self.push = p;
            self.auto = true;
            self.phase = CommitPhase::Pushing;
            let mut print = lines;
            let mut more = first.print;
            let ghost a = print@;
            let ghost b = more@;
            print.append(&mut more);
            proof {
                crate::print::lemma_lines_view_concat(a, b);
            }
            Request { print, work: first.work }
        } else {
            self.phase = CommitPhase::AskPush;
            Request { print: lines, work: Work::Confirm(confirm_push()) }
        }
    }

    fn through_push_exec(&mut self, req: Request) -> (r: Request)
        ensures
            (final(self)@, r@) == through_push(old(self)@, old(self)@.push, req@),
    {
        match req.work {
            Work::Finish(res) => {
                if self.auto {
                    self.end(req.print, res)
                } else {
                    match res {
                        Err(e) => {
                            let mut lines = req.print;
                            let ghost before = lines_view(lines@);
                            lines.push(Line::Error(e.clone()));
                            lines.push(Line::Blank);
                            assert(lines_view(lines@) =~= before + seq![LineModel::Error(e@), LineModel::Blank]);
                            self.end(lines, Ok(()))
                        },
                        Ok(()) => self.end(req.print, Ok(())),
                    }
                }
            },
            work => {
                proof {
                    assert(CommitModel { push: old(self)@.push, ..old(self)@ } == old(self)@);
                }
                Request { print: req.print, work }
            },
        }
    }

    /// What a reply does to the commit.
    pub fn step(&mut self, reply: Reply) -> (r: Request)
        requires
            commit_accepts(old(self)@, reply@),
            commit_wf(old(self)@),
        ensures
            (final(self)@, r@) == commit_next(old(self)@, reply@),
            commit_wf(final(self)@),
    {
        if self.phase == CommitPhase::Pushing {
            let req = self.push.step(reply);
            return self.through_push_exec(req);
        }
        match reply {
            Reply::Failed(e) => self.end(Vec::new(), Err(e)),
            Reply::Git(out) => self.on_git(out),
            Reply::Picked(files) => {
                if files.len() == 0 {
                    let mut v: Vec<Line> = Vec::new();
                    v.push(Line::Hint("No files selected".to_owned()));
                    v.push(Line::Blank);
                    assert(lines_view(v@) =~= seq![LineModel::Hint("No files selected"@), LineModel::Blank]);
                    self.end(v, Ok(()))
                } else {
                    self.files = files;
                    self.after_files_exec()
                }
            },
            Reply::Chosen(c) => {
                if self.phase == CommitPhase::Category {
                    let i = c.unwrap();
                    self.category = self.cfg.categories[i].name.clone();
                    self.after_category_exec()
                } else {
                    self.module = match c {
                        Some(i) => Some(self.cfg.modules[i].name.clone()),
                        None => None,
                    };
                    self.after_module_exec()
                }
            },
            Reply::Text(t) => {
                if self.phase == CommitPhase::Message {
                    match prompt_message(t.as_str()) {
                        Err(e) => self.end(Vec::new(), Err(e)),
                        Ok(m) => {
                            self.message = m;
                            self.after_message_exec()
                        },
                    }
                } else {
                    self.after_description_exec(t.as_str())
                }
            },
            Reply::Answer(yes) => {
                if self.phase == CommitPhase::Confirm {
                    if !yes {
                        self.end(hint_between_blanks("Aborted"), Ok(()))
                    } else {
                        let mut vars: Vec<(String, String)> = Vec::new();
                        vars.push(("SIT_CATEGORY".to_owned(), self.category.clone()));
                        vars.push(("SIT_MESSAGE".to_owned(), self.full.clone()));
                        vars.push(("SIT_FILES".to_owned(), join_with(self.files.as_slice(), ":")));
                        let env = merge_hook_env(vars.as_slice(), self.env.as_slice());
                        proof {
                            assert(pair_views(vars@) =~= seq![
                                ("SIT_CATEGORY"@, self.category@),
                                ("SIT_MESSAGE"@, self.full@),
                                ("SIT_FILES"@, join_spec(string_views(self.files@), ":"@)),
                            ]);
                        }
                        self.phase = CommitPhase::PreHook;
                        ask(Work::Hook { name: "pre-commit".to_owned(), pre: true, env })
                    }
                } else if yes {
                    let (p, first) = PushFlow::start(false, self.env.as_slice());
                    self.push = p;
                    self.auto = false;
                    self.phase = CommitPhase::Pushing;
                    first
                } else {
                    self.end(Vec::new(), Ok(()))
                }
            },
            Reply::Hook(h) => {
                let pre = self.phase == CommitPhase::PreHook;
                match h {
                    None => {
                        if pre {
                            self.to_stage_exec(Vec::new())
                        } else {
                            self.after_post_exec(Vec::new())
                        }
                    },
                    Some(run) => {
                        if pre {
                            let (lines, res) = hook_report("pre-commit", &HookKind::Pre, &run);
                            match res {
                                Err(e) => self.end(lines, Err(e)),
                                Ok(()) => self.to_stage_exec(lines),
                            }
                        } else {
                            let (lines, res) = hook_report("post-commit", &HookKind::Post, &run);
                            match res {
                                Err(e) => self.end(lines, Err(e)),
                                Ok(()) => self.after_post_exec(lines),
                            }
                        }
                    },
                }
            },
        }
    }
}

impl CommitFlow {
    /// `git` ran: the status, the staged files, the staging, or the commit.
    fn on_git(&mut self, out: crate::git::common::GitOutput) -> (r: Request)
        requires
            commit_accepts(old(self)@, ReplyModel::Git(out.success, out.stdout@, out.stderr@)),
            old(self).phase != CommitPhase::Pushing,
            commit_wf(old(self)@),
        ensures
            (final(self)@, r@) == commit_next(old(self)@, ReplyModel::Git(out.success, out.stdout@, out.stderr@)),
    {
        if self.phase == CommitPhase::Status {
            match get_status(&out) {
                Err(e) => self.end(Vec::new(), Err(e)),
                Ok(changes) => {
                    if changes.len() == 0 {
                        self.end(hint_between_blanks("No changes to commit"), Ok(()))
                    } else {
                        self.phase = CommitPhase::Pick;
                        proof {
                            assert(crate::picker::changes_view(changes@) =~= crate::git::status::change_views(changes@));
                        }
                        ask(Work::Pick(changes))
                    }
                },
            }
        } else if self.phase == CommitPhase::Staged {
            match staged_paths(&out) {
                Err(e) => self.end(Vec::new(), Err(e)),
                Ok(already) => match stage_files(self.files.as_slice(), already.as_slice()) {
                    Err(e) => self.end(Vec::new(), Err(e)),
                    Ok(args) => {
                        self.phase = CommitPhase::Add;
                        ask(Work::Git(args))
                    },
                },
            }
        } else if self.phase == CommitPhase::Add {
            match stage_outcome(&out) {
                Err(e) => self.end(Vec::new(), Err(e)),
                Ok(()) => {
                    self.phase = CommitPhase::Commit;
                    ask(Work::Git(commit_args(self.full.as_str())))
                },
            }
        } else {
            match commit(&out) {
                Err(e) => self.end(Vec::new(), Err(e)),
                Ok(()) => {
                    let lines = crate::print::success_block("Committed", self.full.as_str());
                    let mut vars: Vec<(String, String)> = Vec::new();
                    vars.push(("SIT_CATEGORY".to_owned(), self.category.clone()));
                    vars.push(("SIT_MESSAGE".to_owned(), self.full.clone()));
                    proof {
                        assert(pair_views(vars@) =~= seq![("SIT_CATEGORY"@, self.category@), ("SIT_MESSAGE"@, self.full@)]);
                    }
                    let env = merge_hook_env(vars.as_slice(), self.env.as_slice());
                    self.phase = CommitPhase::PostHook;
                    Request { print: lines, work: Work::Hook { name: "post-commit".to_owned(), pre: false, env } }
                },
            }
        }
    }
}

/// Starts the interactive commit: everything is asked for.
pub fn interactive_commit(cfg: Config, hook_env: &[(String, String)]) -> (r: (CommitFlow, Request))
    ensures
        r.0@ == commit_start_model(cfg@, None, None, pair_views(hook_env@)),
        commit_wf(r.0@),
        r.1@ == (Seq::<LineModel>::empty(), WorkModel::Git(seq!["status"@, "--porcelain"@])),
{
    CommitFlow::start(cfg, None, None, hook_env)
}

/// Starts a commit whose category (and maybe message) was given on the
/// command line.
pub fn commit_with_category_shortcut(
    cfg: Config,
    category: &str,
    inline_message: Option<String>,
    hook_env: &[(String, String)],
) -> (r: (CommitFlow, Request))
    ensures
        r.0@ == commit_start_model(cfg@, Some(category@), opt_text(inline_message), pair_views(hook_env@)),
        commit_wf(r.0@),
        r.1@ == (Seq::<LineModel>::empty(), WorkModel::Git(seq!["status"@, "--porcelain"@])),
{
    CommitFlow::start(cfg, Some(category.to_owned()), inline_message, hook_env)
}

// ── Laws ─────────────────────────────────────────────────

/// A failing pre-commit hook aborts the commit before anything is staged.
pub proof fn law_failed_pre_commit_hook_aborts(
    m: CommitModel,
    code: Option<i32>,
    out: Seq<char>,
    err: Seq<char>,
)
    requires
        m.phase == CommitPhase::PreHook,
    ensures
        commit_next(m, ReplyModel::Hook(Some((false, code, out, err)))).1.1 matches WorkModel::Finish(Err(_)),
{
}

/// A failing post-commit hook does not fail the commit, which is made:
/// the command goes on to the push.
pub proof fn law_failed_post_commit_hook_goes_on(
    m: CommitModel,
    code: Option<i32>,
    out: Seq<char>,
    err: Seq<char>,
)
    requires
        m.phase == CommitPhase::PostHook,
    ensures
        commit_next(m, ReplyModel::Hook(Some((false, code, out, err)))).0.phase != CommitPhase::Finished,
        !(commit_next(m, ReplyModel::Hook(Some((false, code, out, err)))).1.1 is Finish),
{
}

/// Declining the preview commits nothing: the command ends, without
/// error, before any hook or git command runs.
pub proof fn law_declined_preview_commits_nothing(m: CommitModel)
    requires
        m.phase == CommitPhase::Confirm,
    ensures
        commit_next(m, ReplyModel::Answer(false)).1 == finish_spec(
            seq![LineModel::Blank, LineModel::Hint("Aborted"@), LineModel::Blank],
            Ok(()),
        ),
{
}

/// After the user declines to push, a failed push the user asked for is
/// never returned as the command's error; with auto-push it is.
pub proof fn law_asked_push_failure_is_shown_not_returned(m: CommitModel, p: PushModel, lines: Seq<LineModel>, e: Seq<char>)
    ensures
        !m.auto ==> through_push(m, p, (lines, WorkModel::Finish(Err(e)))).1 == finish_spec(
            lines + seq![LineModel::Error(e), LineModel::Blank],
            Ok(()),
        ),
        m.auto ==> through_push(m, p, (lines, WorkModel::Finish(Err(e)))).1 == finish_spec(lines, Err(e)),
{
}

/// A confirmed commit commits the message formatted from the chosen parts:
/// once the preview of `format_commit(category, module, message,
/// description)` is confirmed, the pre-commit hook runs first; when it
/// passes, the staged files are checked, exactly the selected files are
/// staged, and git is asked to commit with that formatted message.
pub proof fn law_confirmed_commit_carries_formatted_message(
    m: CommitModel,
    description: Seq<char>,
    hook: ReplyModel,
    staged_out: Seq<char>,
    staged_err: Seq<char>,
    add_out: Seq<char>,
    add_err: Seq<char>,
)
    requires
        m.phase != CommitPhase::Pushing,
        hook matches ReplyModel::Hook(h) && (h matches Some(run) ==> run.0),
        stage_spec(m.files, nonempty_trimmed(lines_spec(staged_out))) is Ok,
    ensures
        ({
            let full = commit_message_spec(m.cfg, m.category, m.module, m.message, description);
            let (m1, q1) = after_description(m, description);
            let (m2, q2) = commit_next(m1, ReplyModel::Answer(true));
            let (m3, q3) = commit_next(m2, hook);
            let (m4, q4) = commit_next(m3, ReplyModel::Git(true, staged_out, staged_err));
            let (m5, q5) = commit_next(m4, ReplyModel::Git(true, add_out, add_err));
            &&& m1.full == full
            &&& q1.1 == WorkModel::Confirm(
                preview_spec(first_line_spec(full), seq![], m.files),
                m.files.len() + 7,
                ConfirmStyle::Preview,
            )
            &&& q2.1 == WorkModel::Hook("pre-commit"@, true, pre_commit_env(m1))
            &&& q3.1 == WorkModel::Git(seq!["diff"@, "--name-only"@, "--cached"@])
            &&& q4.1 == WorkModel::Git(seq!["add"@, "--"@] + m.files)
            &&& q5.1 == WorkModel::Git(seq!["commit"@, "-m"@, full])
            &&& m5.phase == CommitPhase::Commit
        }),
{
    let (m1, q1) = after_description(m, description);
    let (m2, q2) = commit_next(m1, ReplyModel::Answer(true));
    if let ReplyModel::Hook(Some(run)) = hook {
        let (s, c, o, e) = run;
        assert(hook_result_spec("pre-commit"@, true, s, c) == Ok::<(), Seq<char>>(()));
    }
}

} // verus!
