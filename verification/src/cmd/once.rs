//! Commands of one outside step: the log, a command passed on to git,
//! and creating the configuration.
use vstd::prelude::*;
use vstd::string::StrSliceExecFns;

use super::flow::{ask, finish, Reply, ReplyModel, Request, RequestModel, Work, WorkModel};
use super::push::finish_spec;
use crate::git::common::{arg_views, failure_spec};
use crate::git::forward::{forward_command, forward_shows_output, forward_spec};
use crate::git::log::{log_graph, log_graph_args, log_graph_spec};
use crate::print::{lines_view, Line, LineModel};
use crate::text::{clone_strings, string_views};

verus! {

/// Which command it is.
#[derive(Clone, Copy, PartialEq, Eq, Structural)]
pub enum OnceKind {
    /// Show the commit graph.
    Log,
    /// Pass a command on to git.
    Forward,
    /// Create the configuration and the hook templates.
    Init,
}

/// A one-step command: which, its arguments, and whether it is over.
pub struct OnceFlow {
    pub kind: OnceKind,
    pub args: Vec<String>,
    pub done: bool,
}

/// The replies a one-step command accepts.
pub open spec fn once_accepts(kind: OnceKind, done: bool, r: ReplyModel) -> bool {
    !done && (r is Failed || match kind {
        OnceKind::Init => r is Answer,
        _ => r is Git,
    })
}

/// What git's output of a forwarded command shows.
pub open spec fn forwarded_lines(out: Seq<char>, err: Seq<char>) -> Seq<LineModel> {
    (if out.len() > 0 {
        seq![LineModel::Out(out)]
    } else {
        seq![]
    }) + (if err.len() > 0 {
        seq![LineModel::ErrOut(err)]
    } else {
        seq![]
    })
}

/// The lines after creating the configuration; `migrated` tells whether
/// an old `.sitrc` was moved.
pub open spec fn init_lines(migrated: bool) -> Seq<LineModel> {
    seq![
        LineModel::Blank,
        LineModel::Success(
            if migrated {
                "Migrated .sitrc to .sit/config.toml and created hook templates"@
            } else {
                "Created .sit/config.toml and hook templates"@
            },
        ),
        LineModel::Hint("Edit .sit/config.toml and uncomment hook examples in .sit/hooks as needed."@),
        LineModel::Blank,
    ]
}

/// What the reply does: the command is over, with these lines and result.
pub open spec fn once_next(kind: OnceKind, args: Seq<Seq<char>>, r: ReplyModel) -> RequestModel {
    match r {
        ReplyModel::Failed(e) => finish_spec(seq![], Err(e)),
        ReplyModel::Answer(migrated) => finish_spec(init_lines(migrated), Ok(())),
        ReplyModel::Git(s, o, e) => match kind {
            OnceKind::Log => if s {
                finish_spec(seq![LineModel::Out(o)], Ok(()))
            } else {
                finish_spec(seq![], Err(failure_spec("Git log failed: "@, e)))
            },
            _ => finish_spec(
                if forward_shows_output(e) {
                    forwarded_lines(o, e)
                } else {
                    seq![]
                },
                forward_spec(args, s, e),
            ),
        },
        // Not reached: a one-step command only steps on a reply it accepts.
        _ => finish_spec(seq![], Ok(())),
    }
}

/// Shows the commit graph: the state, and its request.
pub fn show_log() -> (r: (OnceFlow, Request))
    ensures
        r.0.kind == OnceKind::Log,
        !r.0.done,
        string_views(r.0.args@) == Seq::<Seq<char>>::empty(),
        r.1@ == (Seq::<LineModel>::empty(), WorkModel::Git(log_graph_spec())),
{
    let f = OnceFlow { kind: OnceKind::Log, args: Vec::new(), done: false };
    assert(string_views(f.args@) =~= Seq::<Seq<char>>::empty());
    (f, ask(Work::Git(log_graph_args())))
}

/// Passes a command on to git: the state, and its request.
pub fn forward(args: &[String]) -> (r: (OnceFlow, Request))
    ensures
        r.0.kind == OnceKind::Forward,
        !r.0.done,
        string_views(r.0.args@) == string_views(args@),
        r.1@ == (Seq::<LineModel>::empty(), WorkModel::Git(string_views(args@))),
{
    let f = OnceFlow { kind: OnceKind::Forward, args: clone_strings(args), done: false };
    let a = clone_strings(args);
    assert(arg_views(a@) =~= string_views(a@));
    (f, ask(Work::Git(a)))
}

/// Creates the configuration and the hook templates: the state, and its request.
pub fn init_config() -> (r: (OnceFlow, Request))
    ensures
        r.0.kind == OnceKind::Init,
        !r.0.done,
        r.1@ == (Seq::<LineModel>::empty(), WorkModel::InitConfig),
{
    (OnceFlow { kind: OnceKind::Init, args: Vec::new(), done: false }, ask(Work::InitConfig))
}

impl OnceFlow {
    /// Whether the command accepts this reply.
    pub fn accepts(&self, reply: &Reply) -> (r: bool)
        ensures
            r == once_accepts(self.kind, self.done, reply@),
    {
        !self.done && match reply {
            Reply::Failed(_) => true,
            Reply::Answer(_) => self.kind == OnceKind::Init,
            Reply::Git(_) => self.kind != OnceKind::Init,
            _ => false,
        }
    }

    /// What the reply does: the command is over.
    pub fn step(&mut self, reply: Reply) -> (r: Request)
        requires
            once_accepts(old(self).kind, old(self).done, reply@),
        ensures
            final(self).done,
            final(self).kind == old(self).kind,
            r@ == once_next(old(self).kind, string_views(old(self).args@), reply@),
    {
        self.done = true;
        match reply {
            Reply::Failed(e) => finish(Vec::new(), Err(e)),
            Reply::Answer(migrated) => {
                let mut v: Vec<Line> = Vec::new();
                v.push(Line::Blank);
                if migrated {
                    v.push(Line::Success("Migrated .sitrc to .sit/config.toml and created hook templates".to_owned()));
                } else {
                    v.push(Line::Success("Created .sit/config.toml and hook templates".to_owned()));
                }
                v.push(Line::Hint("Edit .sit/config.toml and uncomment hook examples in .sit/hooks as needed.".to_owned()));
                v.push(Line::Blank);
                assert(lines_view(v@) =~= init_lines(migrated));
                finish(v, Ok(()))
            },
            Reply::Git(out) => {
                if self.kind == OnceKind::Log {
                    match log_graph(&out) {
                        Err(e) => finish(Vec::new(), Err(e)),
                        Ok(()) => {
                            let mut v: Vec<Line> = Vec::new();
                            v.push(Line::Out(out.stdout));
                            assert(lines_view(v@) =~= seq![LineModel::Out(out.stdout@)]);
                            finish(v, Ok(()))
                        },
                    }
                } else {
                    let res = forward_command(self.args.as_slice(), &out);
                    let mut v: Vec<Line> = Vec::new();
                    if !crate::git::forward::forwarded_output_hidden(&out) {
                        if out.stdout.unicode_len() > 0 {
                            v.push(Line::Out(out.stdout.clone()));
                        }
                        if out.stderr.unicode_len() > 0 {
                            v.push(Line::ErrOut(out.stderr.clone()));
                        }
                        assert(lines_view(v@) =~= forwarded_lines(out.stdout@, out.stderr@));
                    } else {
                        assert(lines_view(v@) =~= Seq::<LineModel>::empty());
                    }
                    finish(v, res)
                }
            },
            _ => finish(Vec::new(), Ok(())),
        }
    }
}

} // verus!
