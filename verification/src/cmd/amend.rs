//! Amending the last commit: more files, a new message, the preview, and
//! a forced push when there is somewhere to push.
use vstd::prelude::*;

use super::flow::{ask, finish, Reply, ReplyModel, Request, RequestModel, Work, WorkModel};
use super::push::{finish_spec, push_accepts, push_first, push_next, PushFlow, PushModel, PushPhase};
use crate::git::branches::{upstream, upstream_args, upstream_spec};
use crate::git::commits::{subject_spec, commit_amend, commit_amend_args, last_commit_files, last_commit_files_args, last_commit_message, last_commit_message_args};
use crate::git::common::GitOutput;
use crate::git::remote::{has_remote, has_remote_spec, list_remotes_args};
use crate::git::staging::{nonempty_trimmed, stage_files, stage_outcome, stage_spec, staged_paths, staged_paths_args, unstage_files};
use crate::git::status::{get_status, status_args, status_entries, status_output_ok, status_readable};
use crate::print::{lines_of_details, lines_view, Line, LineModel};
use crate::text::{add_missing, add_missing_exec, clone_pairs, clone_strings, first_line, first_line_spec, lines_spec, pair_views, string_views, trim_spec};
use crate::ui::confirms::{confirm_commit, confirm_push, preview_spec, simple_spec, ConfirmStyle};
use crate::ui::prompts::{message_spec, prompt_amend_message};

verus! {

/// Where an amend stands.
#[derive(Clone, Copy, PartialEq, Eq, Structural)]
pub enum AmendPhase {
    LastMessage,
    LastFiles,
    Status,
    Pick,
    Staged,
    Add,
    Message,
    Confirm,
    Unstage,
    Amend,
    Upstream,
    Remotes,
    AskPush,
    Pushing,
    Finished,
}

/// An amend in progress.
pub struct AmendFlow {
    /// The configuration pushes without asking.
    pub auto_push: bool,
    pub env: Vec<(String, String)>,
    pub phase: AmendPhase,
    pub last_message: String,
    pub last_files: Vec<String>,
    /// The files staged for the amend.
    pub staged: Vec<String>,
    /// The files the preview lists.
    pub preview: Vec<String>,
    pub message: String,
    /// The push runs because the configuration says so.
    pub auto: bool,
    pub push: PushFlow,
}

/// The mathematical value of an amend in progress.
pub struct AmendModel {
    pub auto_push: bool,
    pub env: Seq<(Seq<char>, Seq<char>)>,
    pub phase: AmendPhase,
    pub last_message: Seq<char>,
    pub last_files: Seq<Seq<char>>,
    pub staged: Seq<Seq<char>>,
    pub preview: Seq<Seq<char>>,
    pub message: Seq<char>,
    pub auto: bool,
    pub push: PushModel,
}

impl View for AmendFlow {
    type V = AmendModel;

    open spec fn view(&self) -> AmendModel {
        AmendModel {
            auto_push: self.auto_push,
            env: pair_views(self.env@),
            phase: self.phase,
            last_message: self.last_message@,
            last_files: string_views(self.last_files@),
            staged: string_views(self.staged@),
            preview: string_views(self.preview@),
            message: self.message@,
            auto: self.auto,
            push: self.push@,
        }
    }
}

/// The flow moved to phase `p`, all else kept.
pub open spec fn aat(m: AmendModel, p: AmendPhase) -> AmendModel {
    AmendModel { phase: p, ..m }
}

/// The flow's state and request after it ends with the given lines and result.
pub open spec fn afinish(m: AmendModel, lines: Seq<LineModel>, r: Result<(), Seq<char>>) -> (AmendModel, RequestModel) {
    (aat(m, AmendPhase::Finished), finish_spec(lines, r))
}

/// A push that has not started.
pub open spec fn idle_force_push(env: Seq<(Seq<char>, Seq<char>)>) -> PushModel {
    PushModel { force: true, env, phase: PushPhase::PreHook, branch: seq![], remote: seq![], set_upstream: false }
}

/// The lines of an abort.
pub open spec fn aborted_lines() -> Seq<LineModel> {
    seq![LineModel::Blank, LineModel::Hint("Aborted"@), LineModel::Blank]
}

/// Once any new files are staged: the prompt for the message, starting
/// from the last one; the preview lists the last commit's files, then the
/// new ones it lacks.
pub open spec fn to_message(m: AmendModel) -> (AmendModel, RequestModel) {
    (
        AmendModel { phase: AmendPhase::Message, preview: add_missing(m.last_files, m.staged), ..m },
        (seq![], WorkModel::PromptAmend(m.last_message)),
    )
}

/// Once the extra files are known: stage them, if there are any.
pub open spec fn after_pick(m: AmendModel) -> (AmendModel, RequestModel) {
    if m.staged.len() == 0 {
        to_message(m)
    } else {
        (aat(m, AmendPhase::Staged), (seq![], WorkModel::Git(seq!["diff"@, "--name-only"@, "--cached"@])))
    }
}

/// Once it is known whether there is somewhere to push.
pub open spec fn after_remote_check(m: AmendModel, can_push: bool) -> (AmendModel, RequestModel) {
    if !can_push {
        afinish(m, seq![LineModel::Hint("No remote configured; skipping push"@), LineModel::Blank], Ok(()))
    } else if m.auto_push {
        (
            AmendModel { phase: AmendPhase::Pushing, auto: true, push: idle_force_push(m.env), ..m },
            push_first(true, m.env),
        )
    } else {
        (
            aat(m, AmendPhase::AskPush),
            (seq![], WorkModel::Confirm(simple_spec("\r\n  Push now?"@), 1, ConfirmStyle::Simple { enter_yes: true })),
        )
    }
}

/// What the push's request means for the amend.
pub open spec fn amend_through_push(m: AmendModel, p: PushModel, req: RequestModel) -> (AmendModel, RequestModel) {
    let m2 = AmendModel { push: p, ..m };
    match req.1 {
        WorkModel::Finish(res) => if m.auto {
            afinish(m2, req.0, res)
        } else {
            match res {
                Err(e) => afinish(m2, req.0 + seq![LineModel::Error(e), LineModel::Blank], Ok(())),
                Ok(()) => afinish(m2, req.0, Ok(())),
            }
        },
        _ => (m2, req),
    }
}

/// An amend whose preview fits.
pub open spec fn amend_wf(m: AmendModel) -> bool {
    &&& m.last_files.len() + m.staged.len() + 7 <= usize::MAX
    &&& m.preview.len() + 7 <= usize::MAX
}

/// The replies an amend accepts where it stands.
pub open spec fn amend_accepts(m: AmendModel, r: ReplyModel) -> bool {
    match m.phase {
        AmendPhase::LastMessage | AmendPhase::Staged | AmendPhase::Add | AmendPhase::Amend | AmendPhase::Upstream
        | AmendPhase::Remotes | AmendPhase::Unstage => r is Git || r is Failed,
        AmendPhase::LastFiles => r is Failed || (r matches ReplyModel::Git(_, o, _) && lines_spec(o).len()
            + m.staged.len() + 7 <= usize::MAX),
        AmendPhase::Status => r is Failed || (r matches ReplyModel::Git(s, o, _) && (s ==> status_output_ok(o))),
        AmendPhase::Pick => r is Failed || (r matches ReplyModel::Picked(f) && m.last_files.len() + f.len() + 7
            <= usize::MAX),
        AmendPhase::Message => r is Text || r is Failed,
        AmendPhase::Confirm | AmendPhase::AskPush => r is Answer || r is Failed,
        AmendPhase::Pushing => push_accepts(m.push.phase, r),
        AmendPhase::Finished => false,
    }
}

/// What a reply does to an amend: the next state and request.
pub open spec fn amend_next(m: AmendModel, r: ReplyModel) -> (AmendModel, RequestModel) {
    match (m.phase, r) {
        (AmendPhase::Pushing, _) => {
            let (p, req) = push_next(m.push, r);
            amend_through_push(m, p, req)
        },
        (AmendPhase::Unstage, _) => afinish(m, aborted_lines(), Ok(())),
        (AmendPhase::Pick, ReplyModel::Failed(_)) => after_pick(AmendModel { staged: seq![], ..m }),
        (AmendPhase::Upstream, ReplyModel::Failed(_)) => (aat(m, AmendPhase::Remotes), (seq![], WorkModel::Git(seq!["remote"@]))),
        (AmendPhase::Remotes, ReplyModel::Failed(_)) => after_remote_check(m, false),
        (_, ReplyModel::Failed(e)) => afinish(m, seq![], Err(e)),
        (AmendPhase::LastMessage, ReplyModel::Git(s, o, _)) => if !s {
            afinish(m, seq![], Err("No commits found"@))
        } else {
            (
                AmendModel { phase: AmendPhase::LastFiles, last_message: subject_spec(o), ..m },
                (seq![], WorkModel::Git(seq!["diff-tree"@, "--no-commit-id"@, "-r"@, "--name-only"@, "--root"@, "HEAD"@])),
            )
        },
        (AmendPhase::LastFiles, ReplyModel::Git(s, o, _)) => if !s {
            afinish(m, seq![], Err("Could not list files in last commit"@))
        } else {
            (
                AmendModel { phase: AmendPhase::Status, last_files: lines_spec(o), ..m },
                (seq![], WorkModel::Git(seq!["status"@, "--porcelain"@])),
            )
        },
        (AmendPhase::Status, ReplyModel::Git(s, o, _)) => if !s {
            afinish(m, seq![], Err("Not a git repository"@))
        } else if status_entries(lines_spec(o)).len() == 0 {
            to_message(AmendModel { staged: seq![], ..m })
        } else {
            (
                aat(m, AmendPhase::Pick),
                (
                    seq![
                        LineModel::Blank,
                        LineModel::Hint("Select additional files to include in the amended commit (Esc to skip):"@),
                    ],
                    WorkModel::Pick(status_entries(lines_spec(o))),
                ),
            )
        },
        (AmendPhase::Pick, ReplyModel::Picked(f)) => after_pick(AmendModel { staged: f, ..m }),
        (AmendPhase::Staged, ReplyModel::Git(s, o, e)) => if !s {
            afinish(m, seq![], Err("Failed to inspect staged files: "@ + e))
        } else {
            match stage_spec(m.staged, nonempty_trimmed(lines_spec(o))) {
                Err(x) => afinish(m, seq![], Err(x)),
                Ok(args) => (aat(m, AmendPhase::Add), (seq![], WorkModel::Git(args))),
            }
        },
        (AmendPhase::Add, ReplyModel::Git(s, _, e)) => if !s {
            afinish(m, seq![], Err("Failed to stage: "@ + e))
        } else {
            to_message(m)
        },
        (AmendPhase::Message, ReplyModel::Text(t)) => match message_spec(t) {
            Err(e) => afinish(m, seq![], Err(e)),
            Ok(msg) => (
                AmendModel { phase: AmendPhase::Confirm, message: msg, ..m },
                (
                    seq![],
                    WorkModel::Confirm(
                        preview_spec(first_line_spec(msg), seq![], m.preview),
                        m.preview.len() + 7,
                        ConfirmStyle::Preview,
                    ),
                ),
            ),
        },
        (AmendPhase::Confirm, ReplyModel::Answer(yes)) => if yes {
            (aat(m, AmendPhase::Amend), (seq![], WorkModel::Git(seq!["commit"@, "--amend"@, "-m"@, m.message])))
        } else if m.staged.len() > 0 {
            (
                aat(m, AmendPhase::Unstage),
                (seq![], WorkModel::Git(seq!["restore"@, "--staged"@, "--"@] + m.staged)),
            )
        } else {
            afinish(m, aborted_lines(), Ok(()))
        },
        (AmendPhase::Amend, ReplyModel::Git(s, _, e)) => if !s {
            afinish(m, seq![], Err("Amend failed: "@ + e))
        } else {
            (
                aat(m, AmendPhase::Upstream),
                (
                    seq![LineModel::Blank, LineModel::Success("Amended"@)] + lines_of_details(m.message) + seq![
                        LineModel::Blank,
                    ],
                    WorkModel::Git(seq!["rev-parse"@, "--abbrev-ref"@, "--symbolic-full-name"@, "@{u}"@]),
                ),
            )
        },
        (AmendPhase::Upstream, ReplyModel::Git(s, o, _)) => if upstream_spec(s, o) is Some {
            after_remote_check(m, true)
        } else {
            (aat(m, AmendPhase::Remotes), (seq![], WorkModel::Git(seq!["remote"@])))
        },
        (AmendPhase::Remotes, ReplyModel::Git(s, o, _)) => after_remote_check(m, has_remote_spec(s, o, "origin"@)),
        (AmendPhase::AskPush, ReplyModel::Answer(yes)) => if yes {
            (
                AmendModel { phase: AmendPhase::Pushing, auto: false, push: idle_force_push(m.env), ..m },
                push_first(true, m.env),
            )
        } else {
            afinish(m, seq![], Ok(()))
        },
        // Not reached: an amend only steps on a reply it accepts.
        _ => afinish(m, seq![], Ok(())),
    }
}

/// Adding the missing texts adds at most one for each.
pub proof fn lemma_add_missing_len(base: Seq<Seq<char>>, extra: Seq<Seq<char>>)
    ensures
        add_missing(base, extra).len() <= base.len() + extra.len(),
    decreases extra.len(),
{
    if extra.len() > 0 {
        lemma_add_missing_len(base, extra.drop_last());
    }
}

/// The first state of an amend.
pub open spec fn amend_start_model(auto_push: bool, env: Seq<(Seq<char>, Seq<char>)>) -> AmendModel {
    AmendModel {
        auto_push,
        env,
        phase: AmendPhase::LastMessage,
        last_message: seq![],
        last_files: seq![],
        staged: seq![],
        preview: seq![],
        message: seq![],
        auto: false,
        push: idle_force_push(env),
    }
}

fn aborted() -> (r: Vec<Line>)
    ensures
        lines_view(r@) == aborted_lines(),
{
    let mut v: Vec<Line> = Vec::new();
    v.push(Line::Blank);
    v.push(Line::Hint("Aborted".to_owned()));
    v.push(Line::Blank);
    assert(lines_view(v@) =~= aborted_lines());
    v
}

impl AmendFlow {
    /// Starts an amend: the state, and its first request (the last message).
    pub fn start(auto_push: bool, env: &[(String, String)]) -> (r: (AmendFlow, Request))
        ensures
            r.0@ == amend_start_model(auto_push, pair_views(env@)),
            amend_wf(r.0@),
            r.1@ == (Seq::<LineModel>::empty(), WorkModel::Git(seq!["log"@, "-1"@, "--format=%B"@])),
    {
        let (push, _) = PushFlow::start(true, env);
        let flow = AmendFlow {
            auto_push,
            env: clone_pairs(env),
            phase: AmendPhase::LastMessage,
            last_message: String::new(),
            last_files: Vec::new(),
            staged: Vec::new(),
            preview: Vec::new(),
            message: String::new(),
            auto: false,
            push,
        };
        proof {
            assert(string_views(flow.last_files@) =~= Seq::<Seq<char>>::empty());
            assert(string_views(flow.staged@) =~= Seq::<Seq<char>>::empty());
            assert(string_views(flow.preview@) =~= Seq::<Seq<char>>::empty());
        }
        (flow, ask(Work::Git(last_commit_message_args())))
    }

    /// Whether the amend accepts this reply where it stands.
    pub fn accepts(&self, reply: &Reply) -> (r: bool)
        ensures
            r == amend_accepts(self@, reply@),
    {
        match self.phase {
            AmendPhase::LastMessage | AmendPhase::Staged | AmendPhase::Add | AmendPhase::Amend | AmendPhase::Upstream
            | AmendPhase::Remotes | AmendPhase::Unstage => match reply {
                Reply::Git(_) | Reply::Failed(_) => true,
                _ => false,
            },
            AmendPhase::LastFiles => match reply {
                Reply::Failed(_) => true,
                Reply::Git(o) => {
                    let n = crate::git::commits::lines_as_strings(o.stdout.as_str()).len();
                    self.staged.len() <= usize::MAX - 7 && n <= usize::MAX - 7 - self.staged.len()
                },
                _ => false,
            },
            AmendPhase::Status => match reply {
                Reply::Failed(_) => true,
                Reply::Git(o) => !o.success || status_readable(o.stdout.as_str()),
                _ => false,
            },
            AmendPhase::Pick => match reply {
                Reply::Failed(_) => true,
                Reply::Picked(f) => self.last_files.len() <= usize::MAX - 7 && f.len() <= usize::MAX - 7
                    - self.last_files.len(),
                _ => false,
            },
            AmendPhase::Message => match reply {
                Reply::Text(_) | Reply::Failed(_) => true,
                _ => false,
            },
            AmendPhase::Confirm | AmendPhase::AskPush => match reply {
                Reply::Answer(_) | Reply::Failed(_) => true,
                _ => false,
            },
            AmendPhase::Pushing => self.push.accepts(reply),
            AmendPhase::Finished => false,
        }
    }

    fn end(&mut self, lines: Vec<Line>, res: Result<(), String>) -> (r: Request)
        ensures
            (final(self)@, r@) == afinish(
                old(self)@,
                lines_view(lines@),
                match res {
                    Ok(()) => Ok(()),
                    Err(e) => Err(e@),
                },
            ),
    {
        self.phase = AmendPhase::Finished;
        finish(lines, res)
    }

    fn to_message_exec(&mut self) -> (r: Request)
        requires
            amend_wf(old(self)@),
        ensures
            (final(self)@, r@) == to_message(old(self)@),
            amend_wf(final(self)@),
    {
        proof {
            lemma_add_missing_len(self@.last_files, self@.staged);
        }
        let preview = add_missing_exec(clone_strings(self.last_files.as_slice()), self.staged.as_slice());
        self.preview = preview;
        self.phase = AmendPhase::Message;
        ask(Work::PromptAmend(self.last_message.clone()))
    }

    fn after_pick_exec(&mut self) -> (r: Request)
        requires
            amend_wf(old(self)@),
        ensures
            (final(self)@, r@) == after_pick(old(self)@),
            amend_wf(final(self)@),
    {
        if self.staged.len() == 0 {
            self.to_message_exec()
        } else {
            self.phase = AmendPhase::Staged;
            ask(Work::Git(staged_paths_args()))
        }
    }

    fn after_remote_check_exec(&mut self, can_push: bool) -> (r: Request)
        ensures
            (final(self)@, r@) == after_remote_check(old(self)@, can_push),
    {
        if !can_push {
            let mut v: Vec<Line> = Vec::new();
            v.push(Line::Hint("No remote configured; skipping push".to_owned()));
            v.push(Line::Blank);
            assert(lines_view(v@) =~= seq![LineModel::Hint("No remote configured; skipping push"@), LineModel::Blank]);
            self.end(v, Ok(()))
        } else if self.auto_push {
            let (p, first) = PushFlow::start(true, self.env.as_slice());
            self.push = p;
            self.auto = true;
            self.phase = AmendPhase::Pushing;
            first
        } else {
            self.phase = AmendPhase::AskPush;
            ask(Work::Confirm(confirm_push()))
        }
    }

    fn through_push_exec(&mut self, req: Request) -> (r: Request)
        ensures
            (final(self)@, r@) == amend_through_push(old(self)@, old(self)@.push, req@),
    {
        match req.work {
            Work::Finish(res) => {
                if self.auto {
                    self.end(req.print, res)
                } else {
                    match res {
                        Err(e) => {
                            let mut lines = req.print;
                            let ghost before = lines_view(lines@);
                            lines.push(Line::Error(e.clone()));
                            lines.push(Line::Blank);
                            assert(lines_view(lines@) =~= before + seq![LineModel::Error(e@), LineModel::Blank]);
                            self.end(lines, Ok(()))
                        },
                        Ok(()) => self.end(req.print, Ok(())),
                    }
                }
            },
            work => {
                proof {
                    assert(AmendModel { push: old(self)@.push, ..old(self)@ } == old(self)@);
                }
                Request { print: req.print, work }
            },
        }
    }
}

impl AmendFlow {
    /// What a reply does to the amend.
    pub fn step(&mut self, reply: Reply) -> (r: Request)
        requires
            amend_accepts(old(self)@, reply@),
            amend_wf(old(self)@),
        ensures
            (final(self)@, r@) == amend_next(old(self)@, reply@),
            amend_wf(final(self)@),
    {
        if self.phase == AmendPhase::Pushing {
            let req = self.push.step(reply);
            return self.through_push_exec(req);
        }
        if self.phase == AmendPhase::Unstage {
            return self.end(aborted(), Ok(()));
        }
        match reply {
            Reply::Failed(e) => {
                if self.phase == AmendPhase::Pick {
                    self.staged = Vec::new();
                    assert(string_views(self.staged@) =~= Seq::<Seq<char>>::empty());
                    self.after_pick_exec()
                } else if self.phase == AmendPhase::Upstream {
                    self.phase = AmendPhase::Remotes;
                    ask(Work::Git(list_remotes_args()))
                } else if self.phase == AmendPhase::Remotes {
                    self.after_remote_check_exec(false)
                } else {
                    self.end(Vec::new(), Err(e))
                }
            },
            Reply::Picked(f) => {
                self.staged = f;
                self.after_pick_exec()
            },
            Reply::Text(t) => match prompt_amend_message(t.as_str()) {
                Err(e) => self.end(Vec::new(), Err(e)),
                Ok(msg) => {
                    proof {
                        lemma_add_missing_len(self@.last_files, self@.staged);
                    }
                    let c = confirm_commit(first_line(msg.as_str()).as_str(), "", self.preview.as_slice());
                    proof {
                        reveal_strlit("");
                        assert(""@ =~= Seq::<char>::empty());
                    }
                    self.message = msg;
                    self.phase = AmendPhase::Confirm;
                    ask(Work::Confirm(c))
                },
            },
            Reply::Answer(yes) => {
                if self.phase == AmendPhase::Confirm {
                    if yes {
                        self.phase = AmendPhase::Amend;
                        ask(Work::Git(commit_amend_args(self.message.as_str())))
                    } else {
                        match unstage_files(self.staged.as_slice()) {
                            Some(args) => {
                                self.phase = AmendPhase::Unstage;
                                ask(Work::Git(args))
                            },
                            None => self.end(aborted(), Ok(())),
                        }
                    }
                } else if yes {
                    let (p, first) = PushFlow::start(true, self.env.as_slice());
                    self.push = p;
                    self.auto = false;
                    self.phase = AmendPhase::Pushing;
                    first
                } else {
                    self.end(Vec::new(), Ok(()))
                }
            },
            Reply::Git(out) => self.on_git(out),
            _ => self.end(Vec::new(), Ok(())),
        }
    }

    /// `git` ran.
    fn on_git(&mut self, out: GitOutput) -> (r: Request)
        requires
            amend_accepts(old(self)@, ReplyModel::Git(out.success, out.stdout@, out.stderr@)),
            old(self).phase != AmendPhase::Pushing,
            old(self).phase != AmendPhase::Unstage,
            amend_wf(old(self)@),
        ensures
            (final(self)@, r@) == amend_next(old(self)@, ReplyModel::Git(out.success, out.stdout@, out.stderr@)),
            amend_wf(final(self)@),
    {
        match self.phase {
            AmendPhase::LastMessage => match last_commit_message(&out) {
                Err(e) => self.end(Vec::new(), Err(e)),
                Ok(m) => {
                    self.last_message = m;
                    self.phase = AmendPhase::LastFiles;
                    ask(Work::Git(last_commit_files_args()))
                },
            },
            AmendPhase::LastFiles => match last_commit_files(&out) {
                Err(e) => self.end(Vec::new(), Err(e)),
                Ok(files) => {
                    self.last_files = files;
                    self.phase = AmendPhase::Status;
                    ask(Work::Git(status_args()))
                },
            },
            AmendPhase::Status => match get_status(&out) {
                Err(e) => self.end(Vec::new(), Err(e)),
                Ok(changes) => {
                    if changes.len() == 0 {
                        self.staged = Vec::new();
                        assert(string_views(self.staged@) =~= Seq::<Seq<char>>::empty());
                        self.to_message_exec()
                    } else {
                        let mut v: Vec<Line> = Vec::new();
                        v.push(Line::Blank);
                        v.push(Line::Hint("Select additional files to include in the amended commit (Esc to skip):".to_owned()));
                        assert(lines_view(v@) =~= seq![
                            LineModel::Blank,
                            LineModel::Hint("Select additional files to include in the amended commit (Esc to skip):"@),
                        ]);
                        proof {
                            assert(crate::picker::changes_view(changes@) =~= crate::git::status::change_views(changes@));
                        }
                        self.phase = AmendPhase::Pick;
                        Request { print: v, work: Work::Pick(changes) }
                    }
                },
            },
            AmendPhase::Staged => match staged_paths(&out) {
                Err(e) => self.end(Vec::new(), Err(e)),
                Ok(already) => match stage_files(self.staged.as_slice(), already.as_slice()) {
                    Err(e) => self.end(Vec::new(), Err(e)),
                    Ok(args) => {
                        self.phase = AmendPhase::Add;
                        ask(Work::Git(args))
                    },
                },
            },
            AmendPhase::Add => match stage_outcome(&out) {
                Err(e) => self.end(Vec::new(), Err(e)),
                Ok(()) => self.to_message_exec(),
            },
            AmendPhase::Amend => match commit_amend(&out) {
                Err(e) => self.end(Vec::new(), Err(e)),
                Ok(()) => {
                    let lines = crate::print::success_block("Amended", self.message.as_str());
                    self.phase = AmendPhase::Upstream;
                    Request { print: lines, work: Work::Git(upstream_args()) }
                },
            },
            AmendPhase::Upstream => {
                if upstream(&out).is_some() {
                    self.after_remote_check_exec(true)
                } else {
                    self.phase = AmendPhase::Remotes;
                    ask(Work::Git(list_remotes_args()))
                }
            },
            _ => {
                let can = has_remote(&out, "origin");
                self.after_remote_check_exec(can)
            },
        }
    }
}

/// Starts amending the last commit; the configuration says whether to
/// push without asking.
pub fn amend_commit(cfg: &crate::config::Config, hook_env: &[(String, String)]) -> (r: (AmendFlow, Request))
    ensures
        r.0@ == amend_start_model(cfg@.commit.auto_push, pair_views(hook_env@)),
        amend_wf(r.0@),
        r.1@ == (Seq::<LineModel>::empty(), WorkModel::Git(seq!["log"@, "-1"@, "--format=%B"@])),
{
    AmendFlow::start(cfg.commit.auto_push, hook_env)
}

// ── Laws ─────────────────────────────────────────────────

/// The amend preview lists every file of the last commit and every file
/// staged for the amend.
pub proof fn law_preview_lists_all_files(base: Seq<Seq<char>>, extra: Seq<Seq<char>>, f: Seq<char>)
    ensures
        base.contains(f) || extra.contains(f) ==> add_missing(base, extra).contains(f),
    decreases extra.len(),
{
    if extra.len() > 0 {
        law_preview_lists_all_files(base, extra.drop_last(), f);
        let b = add_missing(base, extra.drop_last());
        if base.contains(f) || extra.drop_last().contains(f) {
            assert(b.contains(f));
            if !b.contains(extra.last()) {
                let i = choose|i: int| 0 <= i < b.len() && b[i] == f;
                assert(b.push(extra.last())[i] == f);
            }
        } else if extra.contains(f) {
            let i = choose|i: int| 0 <= i < extra.len() && extra[i] == f;
            if i < extra.len() - 1 {
                assert(extra.drop_last()[i] == f);
            }
            assert(f == extra.last());
            if !b.contains(extra.last()) {
                assert(b.push(extra.last())[b.len() as int] == f);
            }
        }
    }
}

/// Declining the amend preview amends nothing; files staged for it are
/// unstaged again.
pub proof fn law_declined_amend_restores_staging(m: AmendModel)
    requires
        m.phase == AmendPhase::Confirm,
    ensures
        m.staged.len() > 0 ==> amend_next(m, ReplyModel::Answer(false)).1.1 == WorkModel::Git(
            seq!["restore"@, "--staged"@, "--"@] + m.staged,
        ),
        m.staged.len() == 0 ==> amend_next(m, ReplyModel::Answer(false)).1 == finish_spec(aborted_lines(), Ok(())),
{
}

/// The push after an amend is always a forced push: whenever a step starts
/// the push, whether on its own (`auto_push`) or because the user said yes,
/// the push is forced and not yet begun, keeps the amend's extra hook
/// environment, and its first request is the pre-push hook with
/// `SIT_FORCE=1` before that environment; the push itself then runs with
/// `--force-with-lease`.
pub proof fn law_amend_push_is_forced(m: AmendModel, r: ReplyModel)
    requires
        m.phase != AmendPhase::Pushing,
        amend_next(m, r).0.phase == AmendPhase::Pushing,
    ensures
        amend_next(m, r).0.push.force,
        amend_next(m, r).0.push.phase == PushPhase::PreHook,
        amend_next(m, r).0.push.env == m.env,
        amend_next(m, r).1 == (
            Seq::<LineModel>::empty(),
            WorkModel::Hook("pre-push"@, true, crate::hooks::merge_spec(seq![("SIT_FORCE"@, "1"@)], m.env)),
        ),
{
}

} // verus!
