//! Releasing: the previous release tag, the version asked for, and the
//! tag created and pushed.
use vstd::prelude::*;
use vstd::string::StringExecFns;

use super::flow::{ask, finish, opt_text, Reply, ReplyModel, Request, RequestModel, Work, WorkModel};
use super::push::{finish_spec, upstream_args_spec};
use crate::git::branches::{upstream, upstream_args, upstream_spec};
use crate::git::common::failure_spec;
use crate::git::push::push_remote_spec;
use crate::git::tags::{create_tag, create_tag_outcome, latest_release, latest_release_tag, list_tags_args, push_tag, push_tag_args};
use crate::print::{lines_of_details, lines_view, success_block, Line, LineModel};
use crate::text::lines_spec;
use crate::ui::prompts::{placeholder_spec, prompt_release_tag, release_placeholder};

verus! {

/// Where a release stands.
#[derive(Clone, Copy, PartialEq, Eq, Structural)]
pub enum ReleasePhase {
    Tags,
    Prompt,
    Create,
    Upstream,
    Push,
    Finished,
}

/// A release in progress: where it stands and the tag.
pub struct ReleaseFlow {
    pub phase: ReleasePhase,
    pub tag: String,
}

/// The mathematical value of a release in progress.
pub struct ReleaseModel {
    pub phase: ReleasePhase,
    pub tag: Seq<char>,
}

impl View for ReleaseFlow {
    type V = ReleaseModel;

    open spec fn view(&self) -> ReleaseModel {
        ReleaseModel { phase: self.phase, tag: self.tag@ }
    }
}

/// The flow's state and request after it ends with the given lines and result.
pub open spec fn rfinish(m: ReleaseModel, lines: Seq<LineModel>, r: Result<(), Seq<char>>) -> (ReleaseModel, RequestModel) {
    (ReleaseModel { phase: ReleasePhase::Finished, ..m }, finish_spec(lines, r))
}

/// The lines before the prompt: the previous release tag, or none.
pub open spec fn release_header(previous: Option<Seq<char>>) -> Seq<LineModel> {
    seq![
        LineModel::Blank,
        LineModel::Header("Create release tag"@),
        LineModel::Hint(
            "Previous release tag: "@ + match previous {
                Some(t) => t,
                None => "none"@,
            },
        ),
        LineModel::Blank,
    ]
}

/// Once the upstream is known (or not): push the tag to its remote, or
/// to `origin`.
pub open spec fn to_push(m: ReleaseModel, up: Option<(Seq<char>, Seq<char>)>) -> (ReleaseModel, RequestModel) {
    (
        ReleaseModel { phase: ReleasePhase::Push, ..m },
        (seq![], WorkModel::Git(seq!["push"@, push_remote_spec(up), m.tag])),
    )
}

/// The replies a release accepts where it stands.
pub open spec fn release_accepts(phase: ReleasePhase, r: ReplyModel) -> bool {
    match phase {
        ReleasePhase::Prompt => r is Text || r is Failed,
        ReleasePhase::Finished => false,
        _ => r is Git || r is Failed,
    }
}

/// What a reply does to a release.
pub open spec fn release_next(m: ReleaseModel, r: ReplyModel) -> (ReleaseModel, RequestModel) {
    match (m.phase, r) {
        (ReleasePhase::Upstream, ReplyModel::Failed(_)) => to_push(m, None),
        (_, ReplyModel::Failed(e)) => rfinish(m, seq![], Err(e)),
        (ReleasePhase::Tags, ReplyModel::Git(s, o, e)) => if !s {
            rfinish(m, seq![], Err(failure_spec("Failed to list tags: "@, e)))
        } else {
            let prev = latest_release(lines_spec(o));
            (
                ReleaseModel { phase: ReleasePhase::Prompt, ..m },
                (release_header(prev), WorkModel::PromptRelease(placeholder_spec(prev))),
            )
        },
        (ReleasePhase::Prompt, ReplyModel::Text(t)) => match crate::ui::prompts::release_tag_spec(t) {
            Err(e) => rfinish(m, seq![], Err(e)),
            Ok(tag) => if !crate::git::tags::release_tag_spec(tag) {
                rfinish(m, seq![], Err("Tag must be semver-like (v1.2.3 or 1.2.3)"@))
            } else {
                (ReleaseModel { phase: ReleasePhase::Create, tag }, (seq![], WorkModel::Git(seq!["tag"@, tag])))
            },
        },
        (ReleasePhase::Create, ReplyModel::Git(s, _, e)) => if !s {
            rfinish(m, seq![], Err(failure_spec("Failed to create tag: "@, e)))
        } else {
            (ReleaseModel { phase: ReleasePhase::Upstream, ..m }, (seq![], WorkModel::Git(upstream_args_spec())))
        },
        (ReleasePhase::Upstream, ReplyModel::Git(s, o, _)) => to_push(m, upstream_spec(s, o)),
        (ReleasePhase::Push, ReplyModel::Git(s, _, e)) => if !s {
            rfinish(m, seq![], Err(failure_spec("Failed to push tag: "@, e)))
        } else {
            rfinish(
                m,
                seq![LineModel::Blank, LineModel::Success("Released"@)] + lines_of_details(
                    "tag "@ + m.tag + " pushed"@,
                ) + seq![LineModel::Blank],
                Ok(()),
            )
        },
        // Not reached: a release only steps on a reply it accepts.
        _ => rfinish(m, seq![], Ok(())),
    }
}

/// Starts a release: the state, and its first request (the tags).
pub fn release_tag() -> (r: (ReleaseFlow, Request))
    ensures
        r.0@ == (ReleaseModel { phase: ReleasePhase::Tags, tag: seq![] }),
        r.1@ == (Seq::<LineModel>::empty(), WorkModel::Git(seq!["tag"@, "--list"@, "--sort=-v:refname"@])),
{
    (ReleaseFlow { phase: ReleasePhase::Tags, tag: String::new() }, ask(Work::Git(list_tags_args())))
}

impl ReleaseFlow {
    /// Whether the release accepts this reply where it stands.
    pub fn accepts(&self, reply: &Reply) -> (r: bool)
        ensures
            r == release_accepts(self.phase, reply@),
    {
        match self.phase {
            ReleasePhase::Prompt => match reply {
                Reply::Text(_) | Reply::Failed(_) => true,
                _ => false,
            },
            ReleasePhase::Finished => false,
            _ => match reply {
                Reply::Git(_) | Reply::Failed(_) => true,
                _ => false,
            },
        }
    }

    fn end(&mut self, lines: Vec<Line>, res: Result<(), String>) -> (r: Request)
        ensures
            (final(self)@, r@) == rfinish(
                old(self)@,
                lines_view(lines@),
                match res {
                    Ok(()) => Ok(()),
                    Err(e) => Err(e@),
                },
            ),
    {
        self.phase = ReleasePhase::Finished;
        finish(lines, res)
    }

    fn to_push_exec(&mut self, up: Option<(String, String)>) -> (r: Request)
        ensures
            (final(self)@, r@) == to_push(old(self)@, crate::git::branches::opt_pair_view(up)),
    {
        self.phase = ReleasePhase::Push;
        ask(Work::Git(push_tag_args(self.tag.as_str(), up)))
    }

    /// What a reply does to the release.
    pub fn step(&mut self, reply: Reply) -> (r: Request)
        requires
            release_accepts(old(self).phase, reply@),
        ensures
            (final(self)@, r@) == release_next(old(self)@, reply@),
    {
        match reply {
            Reply::Failed(e) => {
                if self.phase == ReleasePhase::Upstream {
                    self.to_push_exec(None)
                } else {
                    self.end(Vec::new(), Err(e))
                }
            },
            Reply::Text(t) => match prompt_release_tag(t.as_str()) {
                Err(e) => self.end(Vec::new(), Err(e)),
                Ok(tag) => match create_tag(tag.as_str()) {
                    Err(e) => self.end(Vec::new(), Err(e)),
                    Ok(args) => {
                        self.tag = tag;
                        self.phase = ReleasePhase::Create;
                        ask(Work::Git(args))
                    },
                },
            },
            Reply::Git(out) => match self.phase {
                ReleasePhase::Tags => match latest_release_tag(&out) {
                    Err(e) => self.end(Vec::new(), Err(e)),
                    Ok(prev) => {
                        let mut hint = String::new();
                        hint.append("Previous release tag: ");
                        match &prev {
                            Some(t) => hint.append(t.as_str()),
                            None => hint.append("none"),
                        }
                        let mut lines: Vec<Line> = Vec::new();
                        lines.push(Line::Blank);
                        lines.push(Line::Header("Create release tag".to_owned()));
                        lines.push(Line::Hint(hint));
                        lines.push(Line::Blank);
                        assert(lines_view(lines@) =~= release_header(opt_text(prev)));
                        let ph = match &prev {
                            Some(t) => release_placeholder(Some(t.as_str())),
                            None => release_placeholder(None),
                        };
                        self.phase = ReleasePhase::Prompt;
                        Request { print: lines, work: Work::PromptRelease(ph) }
                    },
                },
                ReleasePhase::Create => match create_tag_outcome(&out) {
                    Err(e) => self.end(Vec::new(), Err(e)),
                    Ok(()) => {
                        self.phase = ReleasePhase::Upstream;
                        ask(Work::Git(upstream_args()))
                    },
                },
                ReleasePhase::Upstream => {
                    let up = upstream(&out);
                    self.to_push_exec(up)
                },
                _ => match push_tag(&out) {
                    Err(e) => self.end(Vec::new(), Err(e)),
                    Ok(()) => {
                        let mut d = String::new();
                        d.append("tag ");
                        d.append(self.tag.as_str());
                        d.append(" pushed");
                        let lines = success_block("Released", d.as_str());
                        self.end(lines, Ok(()))
                    },
                },
            },
            _ => self.end(Vec::new(), Ok(())),
        }
    }
}

} // verus!
