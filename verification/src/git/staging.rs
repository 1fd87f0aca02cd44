//! Staging the selected files without losing what was staged before.
use vstd::prelude::*;

use super::common::{GitOutput, arg_views, outcome_raw, owned_args, prefixed};
use crate::text::{
    chars_of, eq_chars, lines_chars, lines_spec, split_chars, split_spec, string_from,
    string_views, trim_chars, trim_spec, views,
};

verus! {

/// The trimmed, non-empty lines of a text, in order.
pub open spec fn nonempty_trimmed(lines: Seq<Seq<char>>) -> Seq<Seq<char>>
    decreases lines.len(),
{
    if lines.len() == 0 {
        seq![]
    } else {
        let rest = nonempty_trimmed(lines.drop_last());
        let t = trim_spec(lines.last());
        if t.len() > 0 {
            rest.push(t)
        } else {
            rest
        }
    }
}

/// The paths one selected entry names: its sides around ` -> `, trimmed,
/// non-empty (a rename `old -> new` names both).
pub open spec fn parts_of(entry: Seq<char>) -> Seq<Seq<char>> {
    nonempty_trimmed(split_spec(entry, " -> "@))
}

/// The paths the selected entries name, in order.
pub open spec fn selection_parts(paths: Seq<Seq<char>>) -> Seq<Seq<char>>
    decreases paths.len(),
{
    if paths.len() == 0 {
        seq![]
    } else {
        selection_parts(paths.drop_last()) + parts_of(paths.last())
    }
}

/// A path is named by the selection.
pub open spec fn in_selection(paths: Seq<Seq<char>>, p: Seq<char>) -> bool {
    selection_parts(paths).contains(p)
}

/// The message when staging would leave out files that were staged before.
pub open spec fn dropped_message() -> Seq<char> {
    "Some files are already staged but were not selected in the picker. Include them in selection or unstage them first."@
}

/// What `stage_files` gives: an error for an empty selection or when a
/// staged file is not selected; else the arguments that add the selection.
pub open spec fn stage_spec(paths: Seq<Seq<char>>, staged: Seq<Seq<char>>) -> Result<
    Seq<Seq<char>>,
    Seq<char>,
> {
    if paths.len() == 0 {
        Err("No files selected"@)
    } else if exists|k: int| 0 <= k < staged.len() && !in_selection(paths, #[trigger] staged[k]) {
        Err(dropped_message())
    } else {
        Ok(seq!["add"@, "--"@] + paths)
    }
}

/// The paths the selection names, trimmed, non-empty.
pub fn path_set(paths: &[String]) -> (r: Vec<Vec<char>>)
    ensures
        views(r@) == selection_parts(string_views(paths@)),
{
    proof {
        reveal_strlit(" -> ");
    }
    let ghost ps = string_views(paths@);
    let sep = chars_of(" -> ");
    let mut set: Vec<Vec<char>> = Vec::new();
    let mut i: usize = 0;
    while i < paths.len()
        invariant
            i <= paths.len(),
            ps == string_views(paths@),
            sep@ == " -> "@,
            sep@.len() == 4,
            views(set@) == selection_parts(ps.take(i as int)),
        decreases paths.len() - i,
    {
        let parts = split_chars(&chars_of(paths[i].as_str()), &sep);
        assert(ps[i as int] == paths@[i as int]@);
        let ghost sp = split_spec(ps[i as int], " -> "@);
        let ghost set0 = views(set@);
        let mut j: usize = 0;
        while j < parts.len()
            invariant
                i < paths.len(),
                j <= parts.len(),
                views(parts@) == sp,
                views(set@) == set0 + nonempty_trimmed(sp.take(j as int)),
            decreases parts.len() - j,
        {
            proof {
                assert(sp[j as int] == parts@[j as int]@);
                assert(sp.take(j + 1).drop_last() =~= sp.take(j as int));
                assert(sp.take(j + 1).last() == sp[j as int]);
            }
            let t = trim_chars(&parts[j]);
            if t.len() > 0 {
                let ghost before = views(set@);
                set.push(t);
                assert(views(set@) =~= before.push(t@));
                assert(set0 + nonempty_trimmed(sp.take(j + 1)) =~= (set0 + nonempty_trimmed(
                    sp.take(j as int),
                )).push(t@));
            }
            j = j + 1;
        }
        proof {
            assert(sp.take(j as int) =~= sp);
            assert(ps.take(i + 1).drop_last() =~= ps.take(i as int));
            assert(ps.take(i + 1).last() == ps[i as int]);
        }
        i = i + 1;
    }
    assert(ps.take(i as int) =~= ps);
    set
}

/// Whether a path is among the given ones.
fn listed(set: &Vec<Vec<char>>, p: &Vec<char>) -> (r: bool)
    ensures
        r == exists|k: int| 0 <= k < set@.len() && (#[trigger] set@[k])@ == p@,
{
    let mut k: usize = 0;
    while k < set.len()
        invariant
            k <= set.len(),
            forall|j: int| 0 <= j < k ==> (#[trigger] set@[j])@ != p@,
        decreases set.len() - k,
    {
        if eq_chars(&set[k], p) {
            return true;
        }
        k = k + 1;
    }
    false
}

/// The arguments that stage the selected files, or the error. A file
/// that was staged before must be in the selection: staging never drops
/// it from the commit silently.
pub fn stage_files(paths: &[String], already_staged: &[String]) -> (r: Result<Vec<String>, String>)
    ensures
        match r {
            Ok(args) => stage_spec(string_views(paths@), string_views(already_staged@)) == Ok::<
                Seq<Seq<char>>,
                Seq<char>,
            >(arg_views(args@)),
            Err(e) => stage_spec(string_views(paths@), string_views(already_staged@)) == Err::<
                Seq<Seq<char>>,
                Seq<char>,
            >(e@),
        },
        r is Ok ==> forall|k: int|
            0 <= k < already_staged@.len() ==> in_selection(
                string_views(paths@),
                #[trigger] already_staged@[k]@,
            ),
{
    let ghost ps = string_views(paths@);
    let ghost st = string_views(already_staged@);
    if paths.len() == 0 {
        return Err("No files selected".to_owned());
    }
    let selected = path_set(paths);
    let mut k: usize = 0;
    while k < already_staged.len()
        invariant
            k <= already_staged.len(),
            ps == string_views(paths@),
            st == string_views(already_staged@),
            paths@.len() > 0,
            ps.len() == paths@.len(),
            views(selected@) == selection_parts(ps),
            forall|j: int| 0 <= j < k ==> in_selection(ps, #[trigger] st[j]),
        decreases already_staged.len() - k,
    {
        let p = chars_of(already_staged[k].as_str());
        assert(st[k as int] == already_staged@[k as int]@);
        let found = listed(&selected, &p);
        proof {
            if found {
                let m = choose|m: int| 0 <= m < selected@.len() && (#[trigger] selected@[m])@ == p@;
                assert(views(selected@)[m] == p@);
            } else {
                if in_selection(ps, st[k as int]) {
                    let m = choose|m: int| 0 <= m < selection_parts(ps).len() && selection_parts(ps)[m] == p@;
                    assert(views(selected@)[m] == selected@[m]@);
                }
            }
        }
        if !found {
            assert(!in_selection(ps, st[k as int]));
            assert(0 <= k < st.len());
            assert(ps.len() > 0);
            assert(exists|j: int| 0 <= j < st.len() && !in_selection(ps, #[trigger] st[j]));
            return Err(
                "Some files are already staged but were not selected in the picker. Include them in selection or unstage them first.".to_owned(),
            );
        }
        k = k + 1;
    }
    assert(!exists|j: int| 0 <= j < st.len() && !in_selection(ps, #[trigger] st[j]));
    let mut args = owned_args(&["add", "--"]);
    let mut i: usize = 0;
    while i < paths.len()
        invariant
            i <= paths.len(),
            ps == string_views(paths@),
            arg_views(args@) == seq!["add"@, "--"@] + ps.take(i as int),
        decreases paths.len() - i,
    {
        let ghost before = args@;
        args.push(paths[i].clone());
        i = i + 1;
        assert(arg_views(args@) =~= arg_views(before) + seq![ps[i - 1]]);
        assert(ps.take(i as int) =~= ps.take(i - 1) + seq![ps[i - 1]]);
    }
    assert(ps.take(i as int) =~= ps);
    proof {
        assert forall|j: int| 0 <= j < already_staged@.len() implies in_selection(
            ps,
            #[trigger] already_staged@[j]@,
        ) by {
            assert(st[j] == already_staged@[j]@);
        }
    }
    Ok(args)
}

/// The outcome of staging; on failure the error output is kept whole.
pub fn stage_outcome(out: &GitOutput) -> (r: Result<(), String>)
    ensures
        match r {
            Ok(()) => out.success,
            Err(e) => !out.success && e@ == "Failed to stage: "@ + out.stderr@,
        },
{
    outcome_raw(out, "Failed to stage: ")
}

/// The arguments that list the staged files.
pub fn staged_paths_args() -> (r: Vec<String>)
    ensures
        arg_views(r@) == seq!["diff"@, "--name-only"@, "--cached"@],
{
    let r = owned_args(&["diff", "--name-only", "--cached"]);
    assert(arg_views(r@) =~= seq!["diff"@, "--name-only"@, "--cached"@]);
    r
}

/// The staged files, from `git diff --name-only --cached`.
pub fn staged_paths(out: &GitOutput) -> (r: Result<Vec<String>, String>)
    ensures
        match r {
            Ok(v) => out.success && string_views(v@) == nonempty_trimmed(lines_spec(out.stdout@)),
            Err(e) => !out.success && e@ == "Failed to inspect staged files: "@ + out.stderr@,
        },
{
    if !out.success {
        return Err(prefixed("Failed to inspect staged files: ", out.stderr.as_str()));
    }
    let lines = lines_chars(&chars_of(out.stdout.as_str()));
    let ghost ls = lines_spec(out.stdout@);
    let mut r: Vec<String> = Vec::new();
    let mut i: usize = 0;
    while i < lines.len()
        invariant
            i <= lines.len(),
            views(lines@) == ls,
            string_views(r@) == nonempty_trimmed(ls.take(i as int)),
        decreases lines.len() - i,
    {
        proof {
            assert(ls[i as int] == lines@[i as int]@);
            assert(ls.take(i + 1).drop_last() =~= ls.take(i as int));
            assert(ls.take(i + 1).last() == ls[i as int]);
        }
        let t = trim_chars(&lines[i]);
        if t.len() > 0 {
            let ghost before = r@;
            let s = string_from(t.as_slice());
            r.push(s);
            assert(string_views(r@) =~= string_views(before).push(t@));
        }
        i = i + 1;
    }
    assert(ls.take(i as int) =~= ls);
    Ok(r)
}

/// The arguments that unstage files; nothing to run for no files.
pub fn unstage_files(paths: &[String]) -> (r: Option<Vec<String>>)
    ensures
        match r {
            Some(args) => paths@.len() > 0 && arg_views(args@) == seq![
                "restore"@,
                "--staged"@,
                "--"@,
            ] + string_views(paths@),
            None => paths@.len() == 0,
        },
{
    if paths.len() == 0 {
        return None;
    }
    let ghost ps = string_views(paths@);
    let mut args = owned_args(&["restore", "--staged", "--"]);
    let mut i: usize = 0;
    while i < paths.len()
        invariant
            i <= paths.len(),
            ps == string_views(paths@),
            arg_views(args@) == seq!["restore"@, "--staged"@, "--"@] + ps.take(i as int),
        decreases paths.len() - i,
    {
        let ghost before = args@;
        args.push(paths[i].clone());
        i = i + 1;
        assert(arg_views(args@) =~= arg_views(before) + seq![ps[i - 1]]);
        assert(ps.take(i as int) =~= ps.take(i - 1) + seq![ps[i - 1]]);
    }
    assert(ps.take(i as int) =~= ps);
    Some(args)
}

/// The outcome of unstaging; on failure the error output is kept whole.
pub fn unstage_outcome(out: &GitOutput) -> (r: Result<(), String>)
    ensures
        match r {
            Ok(()) => out.success,
            Err(e) => !out.success && e@ == "Failed to unstage: "@ + out.stderr@,
        },
{
    outcome_raw(out, "Failed to unstage: ")
}

} // verus!
