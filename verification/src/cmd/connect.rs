//! Connecting a repository to GitHub: the remote, the `main` branch, and
//! the first push.
use vstd::prelude::*;
use vstd::string::StringExecFns;

use super::flow::{finish, Reply, ReplyModel, Request, RequestModel, Work, WorkModel};
use super::push::finish_spec;
use crate::git::common::failure_spec;
use crate::git::remote::{
    branch_rename_args, branch_rename_to_main, github_url_spec, push_origin_main, push_origin_main_args,
    remote_add_origin, remote_add_origin_args,
};
use crate::print::{lines_of_details, lines_view, success_with_details, Line, LineModel};
use crate::style::ICON_RENAMED;

verus! {

/// Where connecting stands.
#[derive(Clone, Copy, PartialEq, Eq, Structural)]
pub enum ConnectPhase {
    AddRemote,
    Rename,
    Push,
    Finished,
}

/// Connecting in progress.
pub struct ConnectFlow {
    pub phase: ConnectPhase,
    pub username: String,
    pub repo: String,
}

/// The mathematical value of connecting in progress.
pub struct ConnectModel {
    pub phase: ConnectPhase,
    pub username: Seq<char>,
    pub repo: Seq<char>,
}

impl View for ConnectFlow {
    type V = ConnectModel;

    open spec fn view(&self) -> ConnectModel {
        ConnectModel { phase: self.phase, username: self.username@, repo: self.repo@ }
    }
}

/// The flow's state and request after it ends with the given lines and result.
pub open spec fn kfinish(m: ConnectModel, lines: Seq<LineModel>, r: Result<(), Seq<char>>) -> (ConnectModel, RequestModel) {
    (ConnectModel { phase: ConnectPhase::Finished, ..m }, finish_spec(lines, r))
}

/// The first request: the header, and adding the remote.
pub open spec fn connect_first(username: Seq<char>, repo: Seq<char>) -> RequestModel {
    (
        seq![
            LineModel::Blank,
            LineModel::Header("Connecting to github.com/"@ + username + "/"@ + repo),
            LineModel::Blank,
        ],
        WorkModel::Git(seq!["remote"@, "add"@, "origin"@, github_url_spec(username, repo)]),
    )
}

/// The replies connecting accepts where it stands.
pub open spec fn connect_accepts(phase: ConnectPhase, r: ReplyModel) -> bool {
    phase != ConnectPhase::Finished && (r is Git || r is Failed)
}

/// What a reply does to connecting.
pub open spec fn connect_next(m: ConnectModel, r: ReplyModel) -> (ConnectModel, RequestModel) {
    match (m.phase, r) {
        (_, ReplyModel::Failed(e)) => kfinish(m, seq![], Err(e)),
        (ConnectPhase::AddRemote, ReplyModel::Git(s, _, e)) => if !s {
            kfinish(m, seq![], Err(failure_spec("Failed to add remote: "@, e)))
        } else {
            (
                ConnectModel { phase: ConnectPhase::Rename, ..m },
                (
                    seq![LineModel::Success("Remote added"@)] + lines_of_details(
                        "origin "@ + ICON_RENAMED@ + " "@ + github_url_spec(m.username, m.repo),
                    ),
                    WorkModel::Git(seq!["branch"@, "-M"@, "main"@]),
                ),
            )
        },
        (ConnectPhase::Rename, ReplyModel::Git(s, _, e)) => if !s {
            kfinish(m, seq![], Err(failure_spec("Failed to rename branch: "@, e)))
        } else {
            (
                ConnectModel { phase: ConnectPhase::Push, ..m },
                (
                    seq![LineModel::Success("Branch"@)] + lines_of_details("renamed to main"@),
                    WorkModel::Git(seq!["push"@, "-u"@, "origin"@, "main"@]),
                ),
            )
        },
        (ConnectPhase::Push, ReplyModel::Git(s, _, e)) => if !s {
            kfinish(m, seq![], Err(failure_spec("Push failed: "@, e)))
        } else {
            kfinish(
                m,
                seq![LineModel::Success("Pushed"@)] + lines_of_details(ICON_RENAMED@ + " origin/main (upstream set)"@)
                    + seq![LineModel::Blank],
                Ok(()),
            )
        },
        // Not reached: connecting only steps on a reply it accepts.
        _ => kfinish(m, seq![], Ok(())),
    }
}

/// Starts connecting the repository to `github.com/<username>/<repo>`.
pub fn connect_repo(username: &str, repo: &str) -> (r: (ConnectFlow, Request))
    ensures
        r.0@ == (ConnectModel { phase: ConnectPhase::AddRemote, username: username@, repo: repo@ }),
        r.1@ == connect_first(username@, repo@),
{
    let mut h = String::new();
    h.append("Connecting to github.com/");
    h.append(username);
    h.append("/");
    h.append(repo);
    let mut lines: Vec<Line> = Vec::new();
    lines.push(Line::Blank);
    lines.push(Line::Header(h));
    lines.push(Line::Blank);
    assert(lines_view(lines@) =~= connect_first(username@, repo@).0);
    let flow = ConnectFlow { phase: ConnectPhase::AddRemote, username: username.to_owned(), repo: repo.to_owned() };
    (flow, Request { print: lines, work: Work::Git(remote_add_origin_args(username, repo)) })
}

impl ConnectFlow {
    /// Whether connecting accepts this reply where it stands.
    pub fn accepts(&self, reply: &Reply) -> (r: bool)
        ensures
            r == connect_accepts(self.phase, reply@),
    {
        self.phase != ConnectPhase::Finished && match reply {
            Reply::Git(_) | Reply::Failed(_) => true,
            _ => false,
        }
    }

    fn end(&mut self, lines: Vec<Line>, res: Result<(), String>) -> (r: Request)
        ensures
            (final(self)@, r@) == kfinish(
                old(self)@,
                lines_view(lines@),
                match res {
                    Ok(()) => Ok(()),
                    Err(e) => Err(e@),
                },
            ),
    {
        self.phase = ConnectPhase::Finished;
        finish(lines, res)
    }

    /// What a reply does to connecting.
    pub fn step(&mut self, reply: Reply) -> (r: Request)
        requires
            connect_accepts(old(self).phase, reply@),
        ensures
            (final(self)@, r@) == connect_next(old(self)@, reply@),
    {
        match reply {
            Reply::Git(out) => match self.phase {
                ConnectPhase::AddRemote => match remote_add_origin(&out) {
                    Err(e) => self.end(Vec::new(), Err(e)),
                    Ok(()) => {
                        let mut d = String::new();
                        d.append("origin ");
                        d.append(ICON_RENAMED);
                        d.append(" ");
                        d.append("https://github.com/");
                        d.append(self.username.as_str());
                        d.append("/");
                        d.append(self.repo.as_str());
                        d.append(".git");
                        proof {
                            assert(d@ =~= "origin "@ + ICON_RENAMED@ + " "@ + github_url_spec(self.username@, self.repo@));
                        }
                        let lines = success_with_details("Remote added", d.as_str());
                        self.phase = ConnectPhase::Rename;
                        Request { print: lines, work: Work::Git(branch_rename_args()) }
                    },
                },
                ConnectPhase::Rename => match branch_rename_to_main(&out) {
                    Err(e) => self.end(Vec::new(), Err(e)),
                    Ok(()) => {
                        let lines = success_with_details("Branch", "renamed to main");
                        self.phase = ConnectPhase::Push;
                        Request { print: lines, work: Work::Git(push_origin_main_args()) }
                    },
                },
                _ => match push_origin_main(&out) {
                    Err(e) => self.end(Vec::new(), Err(e)),
                    Ok(()) => {
                        let mut d = String::new();
                        d.append(ICON_RENAMED);
                        d.append(" origin/main (upstream set)");
                        let mut lines = success_with_details("Pushed", d.as_str());
                        let ghost before = lines_view(lines@);
                        lines.push(Line::Blank);
                        assert(lines_view(lines@) =~= before + seq![LineModel::Blank]);
                        self.end(lines, Ok(()))
                    },
                },
            },
            Reply::Failed(e) => self.end(Vec::new(), Err(e)),
            _ => self.end(Vec::new(), Ok(())),
        }
    }
}

} // verus!
