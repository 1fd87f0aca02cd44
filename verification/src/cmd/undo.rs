//! Undoing the last commit: what it was, the question, and the soft reset.
use vstd::prelude::*;
use vstd::string::StringExecFns;

use super::flow::{ask, finish, Reply, ReplyModel, Request, RequestModel, Work, WorkModel};
use super::push::finish_spec;
use crate::git::commits::{subject_spec, last_commit_files, last_commit_files_args, last_commit_message, last_commit_message_args, soft_reset, soft_reset_args};
use crate::git::common::failure_spec;
use crate::print::{lines_view, Line, LineModel};
use crate::style::{DIM, RESET, TREE_LAST, TREE_MID};
use crate::text::{first_line, first_line_spec, lines_spec, string_views, trim_spec};
use crate::ui::confirms::{confirm_undo, simple_spec, ConfirmStyle};

verus! {

/// Where an undo stands.
#[derive(Clone, Copy, PartialEq, Eq, Structural)]
pub enum UndoPhase {
    LastMessage,
    LastFiles,
    Confirm,
    Reset,
    Finished,
}

/// An undo in progress.
pub struct UndoFlow {
    pub phase: UndoPhase,
    pub message: String,
}

/// The mathematical value of an undo in progress.
pub struct UndoModel {
    pub phase: UndoPhase,
    pub message: Seq<char>,
}

impl View for UndoFlow {
    type V = UndoModel;

    open spec fn view(&self) -> UndoModel {
        UndoModel { phase: self.phase, message: self.message@ }
    }
}

/// The flow's state and request after it ends with the given lines and result.
pub open spec fn ufinish(m: UndoModel, lines: Seq<LineModel>, r: Result<(), Seq<char>>) -> (UndoModel, RequestModel) {
    (UndoModel { phase: UndoPhase::Finished, ..m }, finish_spec(lines, r))
}

/// A file of the last commit, as a branch of a tree.
pub open spec fn undo_file_row(f: Seq<char>, last: bool) -> LineModel {
    LineModel::Plain("    "@ + DIM@ + (if last {
        TREE_LAST@
    } else {
        TREE_MID@
    }) + RESET@ + " "@ + f)
}

/// What is shown before the question: the last commit's subject and files.
pub open spec fn undo_preview(message: Seq<char>, files: Seq<Seq<char>>) -> Seq<LineModel> {
    seq![
        LineModel::Blank,
        LineModel::Header("Undo last commit?"@),
        LineModel::Blank,
        LineModel::Emphasis(first_line_spec(message)),
        LineModel::Blank,
        LineModel::Hint("Files (will remain staged):"@),
    ] + Seq::new(files.len(), |i: int| undo_file_row(files[i], i == files.len() - 1)) + seq![LineModel::Blank]
}

/// The replies an undo accepts where it stands.
pub open spec fn undo_accepts(phase: UndoPhase, r: ReplyModel) -> bool {
    match phase {
        UndoPhase::Confirm => r is Answer || r is Failed,
        UndoPhase::Finished => false,
        _ => r is Git || r is Failed,
    }
}

/// What a reply does to an undo.
pub open spec fn undo_next(m: UndoModel, r: ReplyModel) -> (UndoModel, RequestModel) {
    match (m.phase, r) {
        (_, ReplyModel::Failed(e)) => ufinish(m, seq![], Err(e)),
        (UndoPhase::LastMessage, ReplyModel::Git(s, o, _)) => if !s {
            ufinish(m, seq![], Err("No commits found"@))
        } else {
            (
                UndoModel { phase: UndoPhase::LastFiles, message: subject_spec(o) },
                (seq![], WorkModel::Git(seq!["diff-tree"@, "--no-commit-id"@, "-r"@, "--name-only"@, "--root"@, "HEAD"@])),
            )
        },
        (UndoPhase::LastFiles, ReplyModel::Git(s, o, _)) => if !s {
            ufinish(m, seq![], Err("Could not list files in last commit"@))
        } else {
            (
                UndoModel { phase: UndoPhase::Confirm, ..m },
                (
                    undo_preview(m.message, lines_spec(o)),
                    WorkModel::Confirm(simple_spec("  Confirm undo?"@), 1, ConfirmStyle::Simple { enter_yes: false }),
                ),
            )
        },
        (UndoPhase::Confirm, ReplyModel::Answer(yes)) => if yes {
            (UndoModel { phase: UndoPhase::Reset, ..m }, (seq![], WorkModel::Git(seq!["reset"@, "--soft"@, "HEAD~1"@])))
        } else {
            ufinish(m, seq![LineModel::Hint("Aborted"@), LineModel::Blank], Ok(()))
        },
        (UndoPhase::Reset, ReplyModel::Git(s, _, e)) => if !s {
            ufinish(m, seq![], Err(failure_spec("Reset failed: "@, e)))
        } else {
            ufinish(
                m,
                seq![
                    LineModel::Blank,
                    LineModel::Success("Undone — changes are staged and ready to re-commit"@),
                    LineModel::Blank,
                ],
                Ok(()),
            )
        },
        // Not reached: an undo only steps on a reply it accepts.
        _ => ufinish(m, seq![], Ok(())),
    }
}

/// Starts undoing the last commit: the state, and its first request.
pub fn undo_commit() -> (r: (UndoFlow, Request))
    ensures
        r.0@ == (UndoModel { phase: UndoPhase::LastMessage, message: seq![] }),
        r.1@ == (Seq::<LineModel>::empty(), WorkModel::Git(seq!["log"@, "-1"@, "--format=%B"@])),
{
    (UndoFlow { phase: UndoPhase::LastMessage, message: String::new() }, ask(Work::Git(last_commit_message_args())))
}

fn preview_lines(message: &str, files: &Vec<String>) -> (r: Vec<Line>)
    ensures
        lines_view(r@) == undo_preview(message@, string_views(files@)),
{
    let ghost fs = string_views(files@);
    let ghost rows = Seq::new(fs.len(), |i: int| undo_file_row(fs[i], i == fs.len() - 1));
    let mut v: Vec<Line> = Vec::new();
    v.push(Line::Blank);
    v.push(Line::Header("Undo last commit?".to_owned()));
    v.push(Line::Blank);
    v.push(Line::Emphasis(first_line(message)));
    v.push(Line::Blank);
    v.push(Line::Hint("Files (will remain staged):".to_owned()));
    let ghost head = lines_view(v@);
    let mut i: usize = 0;
    while i < files.len()
        invariant
            i <= files@.len(),
            fs == string_views(files@),
            rows == Seq::new(fs.len(), |k: int| undo_file_row(fs[k], k == fs.len() - 1)),
            lines_view(v@) == head + rows.take(i as int),
        decreases files.len() - i,
    {
        let mut row = String::new();
        row.append("    ");
        row.append(DIM);
        if i == files.len() - 1 {
            row.append(TREE_LAST);
        } else {
            row.append(TREE_MID);
        }
        row.append(RESET);
        row.append(" ");
        row.append(files[i].as_str());
        let ghost before = lines_view(v@);
        v.push(Line::Plain(row));
        proof {
            assert(LineModel::Plain(row@) == undo_file_row(fs[i as int], i == fs.len() - 1)) by {
                assert(row@ =~= "    "@ + DIM@ + (if i == fs.len() - 1 {
                    TREE_LAST@
                } else {
                    TREE_MID@
                }) + RESET@ + " "@ + fs[i as int]);
            }
            assert(lines_view(v@) =~= before.push(LineModel::Plain(row@)));
            assert(rows.take(i as int + 1) =~= rows.take(i as int).push(rows[i as int]));
        }
        i = i + 1;
    }
    assert(rows.take(files@.len() as int) =~= rows);
    let ghost mid = lines_view(v@);
    v.push(Line::Blank);
    assert(lines_view(v@) =~= mid.push(LineModel::Blank));
    assert(head =~= seq![
        LineModel::Blank,
        LineModel::Header("Undo last commit?"@),
        LineModel::Blank,
        LineModel::Emphasis(first_line_spec(message@)),
        LineModel::Blank,
        LineModel::Hint("Files (will remain staged):"@),
    ]);
    assert(lines_view(v@) =~= undo_preview(message@, fs));
    v
}

impl UndoFlow {
    /// Whether the undo accepts this reply where it stands.
    pub fn accepts(&self, reply: &Reply) -> (r: bool)
        ensures
            r == undo_accepts(self.phase, reply@),
    {
        match self.phase {
            UndoPhase::Confirm => match reply {
                Reply::Answer(_) | Reply::Failed(_) => true,
                _ => false,
            },
            UndoPhase::Finished => false,
            _ => match reply {
                Reply::Git(_) | Reply::Failed(_) => true,
                _ => false,
            },
        }
    }

    fn end(&mut self, lines: Vec<Line>, res: Result<(), String>) -> (r: Request)
        ensures
            (final(self)@, r@) == ufinish(
                old(self)@,
                lines_view(lines@),
                match res {
                    Ok(()) => Ok(()),
                    Err(e) => Err(e@),
                },
            ),
    {
        self.phase = UndoPhase::Finished;
        finish(lines, res)
    }

    /// What a reply does to the undo.
    pub fn step(&mut self, reply: Reply) -> (r: Request)
        requires
            undo_accepts(old(self).phase, reply@),
        ensures
            (final(self)@, r@) == undo_next(old(self)@, reply@),
    {
        match reply {
            Reply::Failed(e) => self.end(Vec::new(), Err(e)),
            Reply::Answer(yes) => {
                if yes {
                    self.phase = UndoPhase::Reset;
                    ask(Work::Git(soft_reset_args()))
                } else {
                    let mut v: Vec<Line> = Vec::new();
                    v.push(Line::Hint("Aborted".to_owned()));
                    v.push(Line::Blank);
                    assert(lines_view(v@) =~= seq![LineModel::Hint("Aborted"@), LineModel::Blank]);
                    self.end(v, Ok(()))
                }
            },
            Reply::Git(out) => match self.phase {
                UndoPhase::LastMessage => match last_commit_message(&out) {
                    Err(e) => self.end(Vec::new(), Err(e)),
                    Ok(m) => {
                        self.message = m;
                        self.phase = UndoPhase::LastFiles;
                        ask(Work::Git(last_commit_files_args()))
                    },
                },
                UndoPhase::LastFiles => match last_commit_files(&out) {
                    Err(e) => self.end(Vec::new(), Err(e)),
                    Ok(files) => {
                        let lines = preview_lines(self.message.as_str(), &files);
                        self.phase = UndoPhase::Confirm;
                        Request { print: lines, work: Work::Confirm(confirm_undo()) }
                    },
                },
                _ => match soft_reset(&out) {
                    Err(e) => self.end(Vec::new(), Err(e)),
                    Ok(()) => {
                        let mut v: Vec<Line> = Vec::new();
                        v.push(Line::Blank);
                        v.push(Line::Success("Undone — changes are staged and ready to re-commit".to_owned()));
                        v.push(Line::Blank);
                        assert(lines_view(v@) =~= seq![
                            LineModel::Blank,
                            LineModel::Success("Undone — changes are staged and ready to re-commit"@),
                            LineModel::Blank,
                        ]);
                        self.end(v, Ok(()))
                    },
                },
            },
            _ => self.end(Vec::new(), Ok(())),
        }
    }
}

} // verus!
