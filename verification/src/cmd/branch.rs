//! Switching branches: the list, the selector, and switching to the
//! chosen branch or creating the one named.
use vstd::prelude::*;
use vstd::string::StringExecFns;

use super::flow::{ask, finish, Reply, ReplyModel, Request, RequestModel, Work, WorkModel};
use super::push::{current_args_spec, finish_spec};
use crate::git::branches::{
    branch_views, branches_spec, create_and_switch_branch, create_branch_args, current_branch, current_branch_args,
    current_branch_spec, list_branches_args, list_local_branches, switch_branch as switch_outcome, switch_branch_args,
};
use crate::git::common::{failure_spec, GitOutput};
use crate::git::types::Branch;
use crate::print::{lines_of_details, lines_view, success_block, Line, LineModel};
use crate::style::{CYAN, ICON_RENAMED, RESET};
use crate::text::string_views;
use crate::ui::confirms::{confirm_create_branch, simple_spec, ConfirmStyle};
use crate::ui::selectors::has_exact_branch_match;

verus! {

/// Where a branch switch stands.
#[derive(Clone, Copy, PartialEq, Eq, Structural)]
pub enum BranchPhase {
    List,
    Current,
    Select,
    Switch,
    AskCreate,
    Create,
    Finished,
}

/// A branch switch in progress.
pub struct BranchFlow {
    pub phase: BranchPhase,
    /// The output that lists the branches.
    pub listing: String,
    pub branches: Vec<Branch>,
    pub selected: String,
}

/// The mathematical value of a branch switch in progress.
pub struct BranchModel {
    pub phase: BranchPhase,
    pub listing: Seq<char>,
    pub branches: Seq<(Seq<char>, bool)>,
    pub selected: Seq<char>,
}

impl View for BranchFlow {
    type V = BranchModel;

    open spec fn view(&self) -> BranchModel {
        BranchModel {
            phase: self.phase,
            listing: self.listing@,
            branches: branch_views(self.branches@),
            selected: self.selected@,
        }
    }
}

/// The flow moved to phase `p`, all else kept.
pub open spec fn bat(m: BranchModel, p: BranchPhase) -> BranchModel {
    BranchModel { phase: p, ..m }
}

/// The flow's state and request after it ends with the given lines and result.
pub open spec fn bfinish(m: BranchModel, lines: Seq<LineModel>, r: Result<(), Seq<char>>) -> (BranchModel, RequestModel) {
    (bat(m, BranchPhase::Finished), finish_spec(lines, r))
}

/// A success with its detail between blank lines.
pub open spec fn success_block_spec(msg: Seq<char>, details: Seq<char>) -> Seq<LineModel> {
    seq![LineModel::Blank, LineModel::Success(msg)] + lines_of_details(details) + seq![LineModel::Blank]
}

/// Once the current branch is known (or not): the selector over the
/// listed branches.
pub open spec fn to_select(m: BranchModel, current: Option<Seq<char>>) -> (BranchModel, RequestModel) {
    let bs = branches_spec(m.listing, current);
    (
        BranchModel { phase: BranchPhase::Select, branches: bs, ..m },
        (seq![], WorkModel::SelectBranch(bs)),
    )
}

/// The replies a branch switch accepts where it stands.
pub open spec fn branch_accepts(phase: BranchPhase, r: ReplyModel) -> bool {
    match phase {
        BranchPhase::List | BranchPhase::Current | BranchPhase::Switch | BranchPhase::Create => r is Git || r is Failed,
        BranchPhase::Select => r is Text || r is Failed,
        BranchPhase::AskCreate => r is Answer || r is Failed,
        BranchPhase::Finished => false,
    }
}

/// What a reply does to a branch switch.
pub open spec fn branch_next(m: BranchModel, r: ReplyModel) -> (BranchModel, RequestModel) {
    match (m.phase, r) {
        (BranchPhase::Current, ReplyModel::Failed(_)) => to_select(m, None),
        (_, ReplyModel::Failed(e)) => bfinish(m, seq![], Err(e)),
        (BranchPhase::List, ReplyModel::Git(s, o, e)) => if !s {
            bfinish(m, seq![], Err(failure_spec("Could not list branches: "@, e)))
        } else {
            (BranchModel { phase: BranchPhase::Current, listing: o, ..m }, (seq![], WorkModel::Git(current_args_spec())))
        },
        (BranchPhase::Current, ReplyModel::Git(s, o, _)) => to_select(
            m,
            match current_branch_spec(s, o) {
                Ok(b) => Some(b),
                Err(_) => None,
            },
        ),
        (BranchPhase::Select, ReplyModel::Text(t)) => if exists|i: int|
            0 <= i < m.branches.len() && (#[trigger] m.branches[i]).0 == t {
            (BranchModel { phase: BranchPhase::Switch, selected: t, ..m }, (seq![], WorkModel::Git(seq!["switch"@, t])))
        } else {
            (
                BranchModel { phase: BranchPhase::AskCreate, selected: t, ..m },
                (
                    seq![],
                    WorkModel::Confirm(
                        simple_spec("\r\n  Create branch "@ + CYAN@ + t + RESET@ + "?"@),
                        1,
                        ConfirmStyle::Simple { enter_yes: false },
                    ),
                ),
            )
        },
        (BranchPhase::Switch, ReplyModel::Git(s, _, e)) => if !s {
            bfinish(m, seq![], Err(failure_spec("Failed to switch branch: "@, e)))
        } else {
            bfinish(m, success_block_spec("Switched"@, ICON_RENAMED@ + " "@ + m.selected), Ok(()))
        },
        (BranchPhase::AskCreate, ReplyModel::Answer(yes)) => if yes {
            (bat(m, BranchPhase::Create), (seq![], WorkModel::Git(seq!["switch"@, "-c"@, m.selected])))
        } else {
            bfinish(m, seq![LineModel::Blank, LineModel::Hint("Aborted"@), LineModel::Blank], Ok(()))
        },
        (BranchPhase::Create, ReplyModel::Git(s, _, e)) => if !s {
            bfinish(m, seq![], Err(failure_spec("Failed to create branch: "@, e)))
        } else {
            bfinish(m, success_block_spec("Created and switched"@, ICON_RENAMED@ + " "@ + m.selected), Ok(()))
        },
        // Not reached: a branch switch only steps on a reply it accepts.
        _ => bfinish(m, seq![], Ok(())),
    }
}

/// Starts switching branches: the state, and its first request (the list).
pub fn switch_branch() -> (r: (BranchFlow, Request))
    ensures
        r.0@ == (BranchModel { phase: BranchPhase::List, listing: seq![], branches: seq![], selected: seq![] }),
        r.1@ == (Seq::<LineModel>::empty(), WorkModel::Git(seq!["branch"@, "--format=%(refname:short)"@])),
{
    let flow = BranchFlow { phase: BranchPhase::List, listing: String::new(), branches: Vec::new(), selected: String::new() };
    assert(branch_views(flow.branches@) =~= Seq::<(Seq<char>, bool)>::empty());
    (flow, ask(Work::Git(list_branches_args())))
}

/// `→ name`.
fn arrow_to(name: &str) -> (r: String)
    ensures
        r@ == ICON_RENAMED@ + " "@ + name@,
{
    let mut s = String::new();
    s.append(ICON_RENAMED);
    s.append(" ");
    s.append(name);
    s
}

impl BranchFlow {
    /// Whether the branch switch accepts this reply where it stands.
    pub fn accepts(&self, reply: &Reply) -> (r: bool)
        ensures
            r == branch_accepts(self.phase, reply@),
    {
        match self.phase {
            BranchPhase::List | BranchPhase::Current | BranchPhase::Switch | BranchPhase::Create => match reply {
                Reply::Git(_) | Reply::Failed(_) => true,
                _ => false,
            },
            BranchPhase::Select => match reply {
                Reply::Text(_) | Reply::Failed(_) => true,
                _ => false,
            },
            BranchPhase::AskCreate => match reply {
                Reply::Answer(_) | Reply::Failed(_) => true,
                _ => false,
            },
            BranchPhase::Finished => false,
        }
    }

    fn end(&mut self, lines: Vec<Line>, res: Result<(), String>) -> (r: Request)
        ensures
            (final(self)@, r@) == bfinish(
                old(self)@,
                lines_view(lines@),
                match res {
                    Ok(()) => Ok(()),
                    Err(e) => Err(e@),
                },
            ),
    {
        self.phase = BranchPhase::Finished;
        finish(lines, res)
    }

    fn to_select_exec(&mut self, current: Option<String>) -> (r: Request)
        requires
            old(self).phase == BranchPhase::Current,
        ensures
            (final(self)@, r@) == to_select(old(self)@, super::flow::opt_text(current)),
    {
        let out = GitOutput { success: true, stdout: self.listing.clone(), stderr: String::new() };
        match list_local_branches(&out, current) {
            Ok(bs) => {
                let shown = crate::git::branches::clone_branches(bs.as_slice());
                self.branches = bs;
                self.phase = BranchPhase::Select;
                ask(Work::SelectBranch(shown))
            },
            Err(e) => {
                self.phase = BranchPhase::Finished;
                finish(Vec::new(), Err(e))
            },
        }
    }

    /// What a reply does to the branch switch.
    pub fn step(&mut self, reply: Reply) -> (r: Request)
        requires
            branch_accepts(old(self).phase, reply@),
        ensures
            (final(self)@, r@) == branch_next(old(self)@, reply@),
    {
        match reply {
            Reply::Failed(e) => {
                if self.phase == BranchPhase::Current {
                    self.to_select_exec(None)
                } else {
                    self.end(Vec::new(), Err(e))
                }
            },
            Reply::Git(out) => {
                match self.phase {
                    BranchPhase::List => {
                        if !out.success {
                            match list_local_branches(&out, None) {
                                Err(e) => self.end(Vec::new(), Err(e)),
                                Ok(_) => self.end(Vec::new(), Ok(())),
                            }
                        } else {
                            self.listing = out.stdout;
                            self.phase = BranchPhase::Current;
                            ask(Work::Git(current_branch_args()))
                        }
                    },
                    BranchPhase::Current => {
                        let cur = match current_branch(&out) {
                            Ok(b) => Some(b),
                            Err(_) => None,
                        };
                        self.to_select_exec(cur)
                    },
                    BranchPhase::Switch => match switch_outcome(&out) {
                        Err(e) => self.end(Vec::new(), Err(e)),
                        Ok(()) => {
                            let d = arrow_to(self.selected.as_str());
                            self.end(success_block("Switched", d.as_str()), Ok(()))
                        },
                    },
                    _ => match create_and_switch_branch(&out) {
                        Err(e) => self.end(Vec::new(), Err(e)),
                        Ok(()) => {
                            let d = arrow_to(self.selected.as_str());
                            self.end(success_block("Created and switched", d.as_str()), Ok(()))
                        },
                    },
                }
            },
            Reply::Text(t) => self.on_choice(t),
            Reply::Answer(yes) => {
                if yes {
                    self.phase = BranchPhase::Create;
                    ask(Work::Git(create_branch_args(self.selected.as_str())))
                } else {
                    let mut v: Vec<Line> = Vec::new();
                    v.push(Line::Blank);
                    v.push(Line::Hint("Aborted".to_owned()));
                    v.push(Line::Blank);
                    assert(lines_view(v@) =~= seq![LineModel::Blank, LineModel::Hint("Aborted"@), LineModel::Blank]);
                    self.end(v, Ok(()))
                }
            },
            _ => self.end(Vec::new(), Ok(())),
        }
    }
}

impl BranchFlow {
    /// A branch was chosen or named.
    fn on_choice(&mut self, t: String) -> (r: Request)
        requires
            old(self).phase == BranchPhase::Select,
        ensures
            (final(self)@, r@) == branch_next(old(self)@, ReplyModel::Text(t@)),
    {
        let ghost bv = branch_views(self.branches@);
        let found = has_exact_branch_match(self.branches.as_slice(), t.as_str());
        proof {
            if found {
                let i = choose|i: int| 0 <= i < self.branches@.len() && (#[trigger] self.branches@[i]).name@ == t@;
                assert(bv[i].0 == t@);
            } else {
                assert forall|i: int| 0 <= i < bv.len() implies (#[trigger] bv[i]).0 != t@ by {
                    assert(bv[i].0 == self.branches@[i].name@);
                }
            }
        }
        if found {
            let args = switch_branch_args(t.as_str());
            self.selected = t;
            self.phase = BranchPhase::Switch;
            ask(Work::Git(args))
        } else {
            let c = confirm_create_branch(t.as_str());
            self.selected = t;
            self.phase = BranchPhase::AskCreate;
            ask(Work::Confirm(c))
        }
    }
}

/// Choosing a branch that is listed, current or not, switches to it and
/// never asks to create it; choosing a name that no listed branch has asks
/// whether to create it, and only a yes creates it.
pub proof fn law_listed_branch_is_switched_to(m: BranchModel, name: Seq<char>, i: int)
    requires
        m.phase == BranchPhase::Select,
    ensures
        0 <= i < m.branches.len() && m.branches[i].0 == name ==> branch_next(m, ReplyModel::Text(name)).1 == (
            Seq::<LineModel>::empty(),
            WorkModel::Git(seq!["switch"@, name]),
        ),
        (forall|j: int| 0 <= j < m.branches.len() ==> (#[trigger] m.branches[j]).0 != name) ==> {
            let (m2, q) = branch_next(m, ReplyModel::Text(name));
            &&& q.1 is Confirm
            &&& branch_next(m2, ReplyModel::Answer(true)).1.1 == WorkModel::Git(seq!["switch"@, "-c"@, name])
            &&& branch_next(m2, ReplyModel::Answer(false)).1.1 == WorkModel::Finish(Ok(()))
        },
{
    if 0 <= i < m.branches.len() && m.branches[i].0 == name {
        assert(exists|k: int| 0 <= k < m.branches.len() && (#[trigger] m.branches[k]).0 == name);
    }
}

} // verus!
