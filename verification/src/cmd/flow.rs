//! What a command asks for, and what it is told back.
use vstd::prelude::*;

use crate::categories::{Category, CategoryModel};
use crate::config::{category_models, module_models, Module, ModuleModel};
use crate::git::branches::branch_views;
use crate::git::common::{arg_views, GitOutput};
use crate::git::types::{Branch, FileChange, FileStatus};
use crate::hooks::HookRun;
use crate::picker::changes_view;
use crate::print::{lines_view, Line, LineModel};
use crate::text::{pair_views, string_views};
use crate::ui::confirms::{Confirm, ConfirmStyle};

verus! {

/// The outside work a command asks for.
pub enum Work {
    /// Run `git` with these arguments and report its output.
    Git(Vec<String>),
    /// Run the named hook, if the repository has it, with this environment.
    Hook { name: String, pre: bool, env: Vec<(String, String)> },
    /// Let the user pick among these changes.
    Pick(Vec<FileChange>),
    /// Let the user choose one of these categories.
    SelectCategory(Vec<Category>),
    /// Let the user choose one of these modules, the cursor first on the
    /// one named.
    SelectModule(Vec<Module>, Option<String>),
    /// Let the user choose or name a branch among these.
    SelectBranch(Vec<Branch>),
    /// Ask for the commit message, labelled with the category.
    PromptMessage(String),
    /// Ask for the optional description.
    PromptDescription,
    /// Ask for the amended message, starting from this one.
    PromptAmend(String),
    /// Ask for the release version, with this placeholder.
    PromptRelease(Option<String>),
    /// Ask this yes/no question.
    Confirm(Confirm),
    /// Create `.sit/config.toml` and the hook templates.
    InitConfig,
    /// The command is over, with this result.
    Finish(Result<(), String>),
}

/// What a command asks for: lines to print, then outside work.
pub struct Request {
    pub print: Vec<Line>,
    pub work: Work,
}

/// What came of the outside work.
pub enum Reply {
    /// `git` ran.
    Git(GitOutput),
    /// The hook ran, or (`None`) there is none.
    Hook(Option<HookRun>),
    /// The user confirmed these files.
    Picked(Vec<String>),
    /// The user chose this entry, or (`None`) the `none` line.
    Chosen(Option<usize>),
    /// The user typed or chose this text.
    Text(String),
    /// The user answered.
    Answer(bool),
    /// The work could not be done, or the user cancelled it.
    Failed(String),
}

/// The mathematical value of outside work.
pub enum WorkModel {
    Git(Seq<Seq<char>>),
    Hook(Seq<char>, bool, Seq<(Seq<char>, Seq<char>)>),
    Pick(Seq<(Seq<char>, FileStatus)>),
    SelectCategory(Seq<CategoryModel>),
    SelectModule(Seq<ModuleModel>, Option<Seq<char>>),
    SelectBranch(Seq<(Seq<char>, bool)>),
    PromptMessage(Seq<char>),
    PromptDescription,
    PromptAmend(Seq<char>),
    PromptRelease(Option<Seq<char>>),
    Confirm(Seq<char>, nat, ConfirmStyle),
    InitConfig,
    Finish(Result<(), Seq<char>>),
}

/// The mathematical value of a request: the lines, then the work.
pub type RequestModel = (Seq<LineModel>, WorkModel);

/// The mathematical value of a reply.
pub enum ReplyModel {
    Git(bool, Seq<char>, Seq<char>),
    Hook(Option<(bool, Option<i32>, Seq<char>, Seq<char>)>),
    Picked(Seq<Seq<char>>),
    Chosen(Option<usize>),
    Text(Seq<char>),
    Answer(bool),
    Failed(Seq<char>),
}

/// An optional string taken by its view.
pub open spec fn opt_text(o: Option<String>) -> Option<Seq<char>> {
    match o {
        Some(s) => Some(s@),
        None => None,
    }
}

impl View for Work {
    type V = WorkModel;

    open spec fn view(&self) -> WorkModel {
        match self {
            Work::Git(a) => WorkModel::Git(arg_views(a@)),
            Work::Hook { name, pre, env } => WorkModel::Hook(name@, *pre, pair_views(env@)),
            Work::Pick(c) => WorkModel::Pick(changes_view(c@)),
            Work::SelectCategory(c) => WorkModel::SelectCategory(category_models(c@)),
            Work::SelectModule(m, d) => WorkModel::SelectModule(module_models(m@), opt_text(*d)),
            Work::SelectBranch(b) => WorkModel::SelectBranch(branch_views(b@)),
            Work::PromptMessage(c) => WorkModel::PromptMessage(c@),
            Work::PromptDescription => WorkModel::PromptDescription,
            Work::PromptAmend(m) => WorkModel::PromptAmend(m@),
            Work::PromptRelease(p) => WorkModel::PromptRelease(opt_text(*p)),
            Work::Confirm(c) => WorkModel::Confirm(c.text@, c.lines as nat, c.style),
            Work::InitConfig => WorkModel::InitConfig,
            Work::Finish(r) => WorkModel::Finish(
                match r {
                    Ok(()) => Ok(()),
                    Err(e) => Err(e@),
                },
            ),
        }
    }
}

impl View for Request {
    type V = RequestModel;

    open spec fn view(&self) -> RequestModel {
        (lines_view(self.print@), self.work@)
    }
}

impl View for Reply {
    type V = ReplyModel;

    open spec fn view(&self) -> ReplyModel {
        match self {
            Reply::Git(o) => ReplyModel::Git(o.success, o.stdout@, o.stderr@),
            Reply::Hook(h) => ReplyModel::Hook(
                match h {
                    Some(r) => Some((r.success, r.code, r.stdout@, r.stderr@)),
                    None => None,
                },
            ),
            Reply::Picked(p) => ReplyModel::Picked(string_views(p@)),
            Reply::Chosen(c) => ReplyModel::Chosen(*c),
            Reply::Text(t) => ReplyModel::Text(t@),
            Reply::Answer(a) => ReplyModel::Answer(*a),
            Reply::Failed(e) => ReplyModel::Failed(e@),
        }
    }
}

/// A request with nothing to print.
pub fn ask(work: Work) -> (r: Request)
    ensures
        r@ == (Seq::<LineModel>::empty(), work@),
{
    let r = Request { print: Vec::new(), work };
    assert(lines_view(r.print@) =~= Seq::<LineModel>::empty());
    r
}

/// The end of a command, after printing `lines`.
pub fn finish(print: Vec<Line>, result: Result<(), String>) -> (r: Request)
    ensures
        r@.0 == lines_view(print@),
        r@.1 == WorkModel::Finish(
            match result {
                Ok(()) => Ok(()),
                Err(e) => Err(e@),
            },
        ),
{
    Request { print, work: Work::Finish(result) }
}

} // verus!
