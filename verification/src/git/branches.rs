//! The current branch, its upstream, and the list of local branches.
use vstd::prelude::*;

use super::common::{GitOutput, arg_views, failure_spec, outcome_trimmed, owned_args, prefixed_trimmed};
use super::types::Branch;
use crate::text::{
    chars_of, eq_chars, lines_chars, lines_spec, split_once_char, split_once_spec, str_eq,
    string_from, trim_chars, trim_spec, views,
};

verus! {

/// The arguments that ask for the current branch.
pub fn current_branch_args() -> (r: Vec<String>)
    ensures
        arg_views(r@) == seq!["rev-parse"@, "--abbrev-ref"@, "HEAD"@],
{
    let r = owned_args(&["rev-parse", "--abbrev-ref", "HEAD"]);
    assert(arg_views(r@) =~= seq!["rev-parse"@, "--abbrev-ref"@, "HEAD"@]);
    r
}

/// What `current_branch` gives for an output.
pub open spec fn current_branch_spec(success: bool, stdout: Seq<char>) -> Result<Seq<char>, Seq<char>> {
    if !success {
        Err("Not a git repository or no commits yet"@)
    } else if trim_spec(stdout) == "HEAD"@ {
        Err("HEAD is detached – cannot push"@)
    } else {
        Ok(trim_spec(stdout))
    }
}

/// Returns the name of the currently checked-out branch.
pub fn current_branch(out: &GitOutput) -> (r: Result<String, String>)
    ensures
        match r {
            Ok(b) => current_branch_spec(out.success, out.stdout@) == Ok::<Seq<char>, Seq<char>>(b@),
            Err(e) => current_branch_spec(out.success, out.stdout@) == Err::<Seq<char>, Seq<char>>(e@),
        },
{
    if !out.success {
        return Err("Not a git repository or no commits yet".to_owned());
    }
    let t = trim_chars(&chars_of(out.stdout.as_str()));
    let branch = string_from(t.as_slice());
    if str_eq(branch.as_str(), "HEAD") {
        return Err("HEAD is detached – cannot push".to_owned());
    }
    Ok(branch)
}

/// The arguments that ask for the upstream of the current branch.
pub fn upstream_args() -> (r: Vec<String>)
    ensures
        arg_views(r@) == seq!["rev-parse"@, "--abbrev-ref"@, "--symbolic-full-name"@, "@{u}"@],
{
    let r = owned_args(&["rev-parse", "--abbrev-ref", "--symbolic-full-name", "@{u}"]);
    assert(arg_views(r@) =~= seq!["rev-parse"@, "--abbrev-ref"@, "--symbolic-full-name"@, "@{u}"@]);
    r
}

/// What `upstream` gives: the trimmed `remote/branch` split at its first `/`.
pub open spec fn upstream_spec(success: bool, stdout: Seq<char>) -> Option<(Seq<char>, Seq<char>)> {
    if !success {
        None
    } else {
        split_once_spec(trim_spec(stdout), '/')
    }
}

/// The view of an optional pair of strings.
pub open spec fn opt_pair_view(o: Option<(String, String)>) -> Option<(Seq<char>, Seq<char>)> {
    match o {
        Some((a, b)) => Some((a@, b@)),
        None => None,
    }
}

/// Returns (remote, remote_branch) of the configured upstream for the current branch,
/// or `None` when no upstream is set.
pub fn upstream(out: &GitOutput) -> (r: Option<(String, String)>)
    ensures
        opt_pair_view(r) == upstream_spec(out.success, out.stdout@),
{
    if !out.success {
        return None;
    }
    let t = trim_chars(&chars_of(out.stdout.as_str()));
    match split_once_char(&t, '/') {
        Some((a, b)) => Some((string_from(a.as_slice()), string_from(b.as_slice()))),
        None => None,
    }
}

/// The arguments that list the local branches.
pub fn list_branches_args() -> (r: Vec<String>)
    ensures
        arg_views(r@) == seq!["branch"@, "--format=%(refname:short)"@],
{
    let r = owned_args(&["branch", "--format=%(refname:short)"]);
    assert(arg_views(r@) =~= seq!["branch"@, "--format=%(refname:short)"@]);
    r
}

/// Lexicographic order of texts by character (the order of `String`).
pub open spec fn text_lt(a: Seq<char>, b: Seq<char>) -> bool
    decreases a.len(),
{
    if a.len() == 0 {
        b.len() > 0
    } else if b.len() == 0 {
        false
    } else if a[0] == b[0] {
        text_lt(a.drop_first(), b.drop_first())
    } else {
        (a[0] as u32) < (b[0] as u32)
    }
}

/// `x` put into `s` before the first entry whose name is greater.
pub open spec fn insert_by_name(x: (Seq<char>, bool), s: Seq<(Seq<char>, bool)>) -> Seq<
    (Seq<char>, bool),
>
    decreases s.len(),
{
    if s.len() == 0 {
        seq![x]
    } else if text_lt(x.0, s[0].0) {
        seq![x] + s
    } else {
        seq![s[0]] + insert_by_name(x, s.drop_first())
    }
}

/// The entries sorted by name, equal names keeping their order (what a
/// stable sort by name gives).
pub open spec fn sort_by_name(s: Seq<(Seq<char>, bool)>) -> Seq<(Seq<char>, bool)>
    decreases s.len(),
{
    if s.len() == 0 {
        seq![]
    } else {
        insert_by_name(s.last(), sort_by_name(s.drop_last()))
    }
}

/// The trimmed, non-empty names of a list of lines, in order.
pub open spec fn branch_names(lines: Seq<Seq<char>>) -> Seq<Seq<char>>
    decreases lines.len(),
{
    if lines.len() == 0 {
        seq![]
    } else {
        let rest = branch_names(lines.drop_last());
        let n = trim_spec(lines.last());
        if n.len() > 0 {
            rest.push(n)
        } else {
            rest
        }
    }
}

/// What `list_local_branches` gives: the branch names, each marked when it
/// is the current branch, sorted by name.
pub open spec fn branches_spec(stdout: Seq<char>, current: Option<Seq<char>>) -> Seq<
    (Seq<char>, bool),
> {
    sort_by_name(
        branch_names(lines_spec(stdout)).map_values(
            |n: Seq<char>| (n, current == Some(n)),
        ),
    )
}

/// The values of a list of branches.
pub open spec fn branch_views(v: Seq<Branch>) -> Seq<(Seq<char>, bool)> {
    v.map_values(|b: Branch| (b.name@, b.is_current))
}

/// The view of an optional string.
pub open spec fn opt_string_view(o: Option<String>) -> Option<Seq<char>> {
    match o {
        Some(s) => Some(s@),
        None => None,
    }
}

proof fn lemma_insert_skip(x: (Seq<char>, bool), s: Seq<(Seq<char>, bool)>, j: int)
    requires
        0 <= j <= s.len(),
        forall|i: int| 0 <= i < j ==> !text_lt(x.0, #[trigger] s[i].0),
    ensures
        insert_by_name(x, s) == s.take(j) + insert_by_name(x, s.skip(j)),
    decreases j,
{
    if j == 0 {
        assert(s.skip(0) =~= s);
        assert(s.take(0) + insert_by_name(x, s) =~= insert_by_name(x, s));
    } else {
        let t = s.drop_first();
        assert forall|i: int| 0 <= i < j - 1 implies !text_lt(x.0, #[trigger] t[i].0) by {
            assert(t[i] == s[i + 1]);
        }
        lemma_insert_skip(x, t, j - 1);
        assert(t.skip(j - 1) =~= s.skip(j));
        assert(seq![s[0]] + (t.take(j - 1) + insert_by_name(x, s.skip(j))) =~= s.take(j)
            + insert_by_name(x, s.skip(j)));
    }
}

/// Whether `a` comes before `b` by name.
fn text_lt_exec(a: &Vec<char>, b: &Vec<char>) -> (r: bool)
    ensures
        r == text_lt(a@, b@),
{
    let mut i: usize = 0;
    assert(a@.skip(0) =~= a@);
    assert(b@.skip(0) =~= b@);
    while i < a.len() && i < b.len() && a[i] == b[i]
        invariant
            i <= a.len(),
            i <= b.len(),
            text_lt(a@, b@) == text_lt(a@.skip(i as int), b@.skip(i as int)),
        decreases a.len() - i,
    {
        assert(a@.skip(i as int).drop_first() =~= a@.skip(i + 1));
        assert(b@.skip(i as int).drop_first() =~= b@.skip(i + 1));
        i = i + 1;
    }
    let ghost x = a@.skip(i as int);
    let ghost y = b@.skip(i as int);
    assert(x.len() == a.len() - i && y.len() == b.len() - i);
    if i == a.len() {
        i < b.len()
    } else if i == b.len() {
        false
    } else {
        assert(x[0] == a@[i as int] && y[0] == b@[i as int]);
        (a[i] as u32) < (b[i] as u32)
    }
}

/// Puts a branch into a list sorted by name, after the branches whose
/// names are not greater.
fn insert_branch(sorted: &mut Vec<Branch>, b: Branch)
    ensures
        branch_views(final(sorted)@) == insert_by_name(
            (b.name@, b.is_current),
            branch_views(old(sorted)@),
        ),
{
    let ghost s = branch_views(sorted@);
    let ghost x = (b.name@, b.is_current);
    let name = chars_of(b.name.as_str());
    let mut j: usize = 0;
    let mut stop = false;
    while j < sorted.len() && !stop
        invariant
            j <= sorted.len(),
            s == branch_views(sorted@),
            name@ == x.0,
            forall|i: int| 0 <= i < j ==> !text_lt(x.0, #[trigger] s[i].0),
            stop ==> j < s.len() && text_lt(x.0, s[j as int].0),
        decreases sorted.len() - j + if stop { 0int } else { 1int },
    {
        let other = chars_of(sorted[j].name.as_str());
        assert(s[j as int].0 == sorted@[j as int].name@);
        if text_lt_exec(&name, &other) {
            stop = true;
        } else {
            j = j + 1;
        }
    }
    proof {
        lemma_insert_skip(x, s, j as int);
        if j < s.len() {
            assert(s.skip(j as int)[0] == s[j as int]);
            assert(text_lt(x.0, s.skip(j as int)[0].0));
        } else {
            assert(s.skip(j as int) =~= Seq::<(Seq<char>, bool)>::empty());
        }
    }
    sorted.insert(j, b);
    assert(branch_views(sorted@) =~= s.take(j as int) + (seq![x] + s.skip(j as int)));
}

/// Entries in order of name: no entry's name comes before an earlier one's.
pub open spec fn sorted_by_name(s: Seq<(Seq<char>, bool)>) -> bool {
    forall|i: int, j: int| 0 <= i < j < s.len() ==> !text_lt(#[trigger] s[j].0, #[trigger] s[i].0)
}

proof fn lemma_text_lt_irreflexive(a: Seq<char>)
    ensures
        !text_lt(a, a),
    decreases a.len(),
{
    if a.len() > 0 {
        lemma_text_lt_irreflexive(a.drop_first());
    }
}

proof fn lemma_text_lt_transitive(a: Seq<char>, b: Seq<char>, c: Seq<char>)
    requires
        text_lt(a, b),
        text_lt(b, c),
    ensures
        text_lt(a, c),
    decreases a.len(),
{
    if a.len() > 0 && b.len() > 0 && c.len() > 0 && a[0] == b[0] && b[0] == c[0] {
        lemma_text_lt_transitive(a.drop_first(), b.drop_first(), c.drop_first());
    }
}

/// Where `insert_by_name` puts `x`: after every entry whose name it does not
/// come before, and before the next.
proof fn lemma_insert_at(x: (Seq<char>, bool), s: Seq<(Seq<char>, bool)>) -> (j: int)
    ensures
        0 <= j <= s.len(),
        insert_by_name(x, s) == s.insert(j, x),
        forall|i: int| 0 <= i < j ==> !text_lt(x.0, #[trigger] s[i].0),
        j < s.len() ==> text_lt(x.0, s[j].0),
    decreases s.len(),
{
    if s.len() == 0 {
        assert(seq![x] =~= s.insert(0, x));
        0
    } else if text_lt(x.0, s[0].0) {
        assert(seq![x] + s =~= s.insert(0, x));
        0
    } else {
        let t = s.drop_first();
        let k = lemma_insert_at(x, t);
        assert(seq![s[0]] + t.insert(k, x) =~= s.insert(k + 1, x));
        assert forall|i: int| 0 <= i < k + 1 implies !text_lt(x.0, #[trigger] s[i].0) by {
            if i > 0 {
                assert(s[i] == t[i - 1]);
            }
        }
        if k + 1 < s.len() {
            assert(s[k + 1] == t[k]);
        }
        k + 1
    }
}

proof fn lemma_insert_sorted(x: (Seq<char>, bool), s: Seq<(Seq<char>, bool)>)
    requires
        sorted_by_name(s),
    ensures
        sorted_by_name(insert_by_name(x, s)),
        insert_by_name(x, s).to_multiset() == s.to_multiset().insert(x),
{
    let j = lemma_insert_at(x, s);
    let t = s.insert(j, x);
    vstd::seq_lib::to_multiset_insert(s, j, x);
    assert forall|a: int, b: int| 0 <= a < b < t.len() implies !text_lt(
        #[trigger] t[b].0,
        #[trigger] t[a].0,
    ) by {
        if b < j {
            assert(t[a] == s[a] && t[b] == s[b]);
        } else if b == j {
            assert(t[a] == s[a] && t[b] == x);
        } else if a < j {
            assert(t[a] == s[a] && t[b] == s[b - 1]);
        } else if a == j {
            assert(t[a] == x && t[b] == s[b - 1]);
            if text_lt(s[b - 1].0, x.0) {
                lemma_text_lt_transitive(s[b - 1].0, x.0, s[j].0);
                if b - 1 == j {
                    lemma_text_lt_irreflexive(s[j].0);
                }
            }
        } else {
            assert(t[a] == s[a - 1] && t[b] == s[b - 1]);
        }
    }
}

proof fn lemma_sort_by_name(s: Seq<(Seq<char>, bool)>)
    ensures
        sorted_by_name(sort_by_name(s)),
        sort_by_name(s).to_multiset() == s.to_multiset(),
    decreases s.len(),
{
    if s.len() == 0 {
        assert(s =~= Seq::<(Seq<char>, bool)>::empty());
    } else {
        lemma_sort_by_name(s.drop_last());
        lemma_insert_sorted(s.last(), sort_by_name(s.drop_last()));
        vstd::seq_lib::to_multiset_build(s.drop_last(), s.last());
        assert(s.drop_last().push(s.last()) =~= s);
    }
}

proof fn lemma_branch_names_nonempty(lines: Seq<Seq<char>>)
    ensures
        forall|k: int| 0 <= k < branch_names(lines).len() ==> (#[trigger] branch_names(lines)[k]).len() > 0,
    decreases lines.len(),
{
    if lines.len() > 0 {
        let rest = branch_names(lines.drop_last());
        lemma_branch_names_nonempty(lines.drop_last());
        assert forall|k: int| 0 <= k < branch_names(lines).len() implies (#[trigger] branch_names(
            lines,
        )[k]).len() > 0 by {
            if k < rest.len() {
                assert(branch_names(lines)[k] == rest[k]);
            }
        }
    }
}

/// Two entries equal to `s[i]` make its count at least two.
proof fn lemma_count_two<A>(s: Seq<A>, i: int, j: int)
    requires
        0 <= i < s.len(),
        0 <= j < s.len(),
        i != j,
        s[i] == s[j],
    ensures
        s.to_multiset().count(s[i]) >= 2,
{
    broadcast use vstd::multiset::group_multiset_axioms;
    let r = s.remove(i);
    vstd::seq_lib::to_multiset_remove(s, i);
    let k = if j < i { j } else { j - 1 };
    assert(r[k] == s[j]);
    vstd::seq_lib::to_multiset_contains(r, s[i]);
    vstd::seq_lib::to_multiset_contains(s, s[i]);
    assert(s.contains(s[i]));
}

/// A count of at least two comes from two positions.
proof fn lemma_two_positions<A>(s: Seq<A>, a: A) -> (p: (int, int))
    requires
        s.to_multiset().count(a) >= 2,
    ensures
        0 <= p.0 < s.len(),
        0 <= p.1 < s.len(),
        p.0 != p.1,
        s[p.0] == a,
        s[p.1] == a,
{
    broadcast use vstd::multiset::group_multiset_axioms;
    vstd::seq_lib::to_multiset_contains(s, a);
    let i = choose|i: int| 0 <= i < s.len() && s[i] == a;
    let r = s.remove(i);
    vstd::seq_lib::to_multiset_remove(s, i);
    vstd::seq_lib::to_multiset_contains(r, a);
    let k = choose|k: int| 0 <= k < r.len() && r[k] == a;
    if k < i {
        assert(r[k] == s[k]);
        (i, k)
    } else {
        assert(r[k] == s[k + 1]);
        (i, k + 1)
    }
}

/// The branch listing is sorted by name; it holds exactly the trimmed,
/// non-empty lines of git's output, each marked when it is the current
/// branch; and, since git names each branch once, at most one entry is
/// marked current.
pub proof fn law_branch_listing(stdout: Seq<char>, current: Option<Seq<char>>)
    ensures
        sorted_by_name(branches_spec(stdout, current)),
        branches_spec(stdout, current).to_multiset() == branch_names(lines_spec(stdout)).map_values(
            |n: Seq<char>| (n, current == Some(n)),
        ).to_multiset(),
        forall|i: int|
            0 <= i < branches_spec(stdout, current).len() ==> (#[trigger] branches_spec(stdout, current)[i]).0.len()
                > 0 && branches_spec(stdout, current)[i].1 == (current == Some(branches_spec(stdout, current)[i].0)),
        branch_names(lines_spec(stdout)).no_duplicates() ==> forall|i: int, j: int|
            0 <= i < j < branches_spec(stdout, current).len() && (#[trigger] branches_spec(stdout, current)[i]).1
                ==> !(#[trigger] branches_spec(stdout, current)[j]).1,
{
    broadcast use vstd::multiset::group_multiset_axioms;
    let names = branch_names(lines_spec(stdout));
    let m = names.map_values(|n: Seq<char>| (n, current == Some(n)));
    let bs = branches_spec(stdout, current);
    lemma_sort_by_name(m);
    lemma_branch_names_nonempty(lines_spec(stdout));
    assert forall|i: int| 0 <= i < bs.len() implies (#[trigger] bs[i]).0.len() > 0 && bs[i].1 == (current
        == Some(bs[i].0)) by {
        vstd::seq_lib::to_multiset_contains(bs, bs[i]);
        assert(bs.contains(bs[i]));
        vstd::seq_lib::to_multiset_contains(m, bs[i]);
        let k = choose|k: int| 0 <= k < m.len() && m[k] == bs[i];
        assert(m[k] == (names[k], current == Some(names[k])));
    }
    if names.no_duplicates() {
        assert forall|i: int, j: int| 0 <= i < j < bs.len() && (#[trigger] bs[i]).1 implies !(
        #[trigger] bs[j]).1 by {
            if bs[j].1 {
                assert(bs[i] == bs[j]);
                lemma_count_two(bs, i, j);
                let p = lemma_two_positions(m, bs[i]);
                assert(m[p.0] == (names[p.0], current == Some(names[p.0])));
                assert(m[p.1] == (names[p.1], current == Some(names[p.1])));
            }
        }
    }
}

/// A copy of a list of branches.
pub fn clone_branches(v: &[Branch]) -> (r: Vec<Branch>)
    ensures
        branch_views(r@) == branch_views(v@),
{
    let mut r: Vec<Branch> = Vec::new();
    let mut i: usize = 0;
    while i < v.len()
        invariant
            i <= v@.len(),
            branch_views(r@) == branch_views(v@).take(i as int),
        decreases v.len() - i,
    {
        let ghost before = r@;
        r.push(Branch { name: v[i].name.clone(), is_current: v[i].is_current });
        assert(branch_views(r@) =~= branch_views(before) + seq![(v@[i as int].name@, v@[i as int].is_current)]);
        i = i + 1;
        assert(branch_views(r@) =~= branch_views(v@).take(i as int));
    }
    assert(branch_views(v@).take(v@.len() as int) =~= branch_views(v@));
    r
}

/// The local branches, each marked when it is the current one, sorted
/// by name.
pub fn list_local_branches(out: &GitOutput, current: Option<String>) -> (r: Result<
    Vec<Branch>,
    String,
>)
    ensures
        match r {
            Ok(v) => out.success && branch_views(v@) == branches_spec(
                out.stdout@,
                opt_string_view(current),
            ),
            Err(e) => !out.success && e@ == failure_spec("Could not list branches: "@, out.stderr@),
        },
{
    if !out.success {
        return Err(prefixed_trimmed("Could not list branches: ", out.stderr.as_str()));
    }
    let cur: Option<Vec<char>> = match &current {
        Some(c) => Some(chars_of(c.as_str())),
        None => None,
    };
    let ghost cv = opt_string_view(current);
    let lines = lines_chars(&chars_of(out.stdout.as_str()));
    let ghost ls = lines_spec(out.stdout@);
    let ghost marked = branch_names(ls).map_values(|n: Seq<char>| (n, cv == Some(n)));
    // The names, in order, with their marks.
    let mut found: Vec<Branch> = Vec::new();
    let mut i: usize = 0;
    while i < lines.len()
        invariant
            i <= lines.len(),
            views(lines@) == ls,
            cv == opt_string_view(current),
            match cur {
                Some(c) => cv == Some(c@),
                None => cv is None,
            },
            branch_views(found@) == branch_names(ls.take(i as int)).map_values(
                |n: Seq<char>| (n, cv == Some(n)),
            ),
        decreases lines.len() - i,
    {
        proof {
            assert(ls[i as int] == lines@[i as int]@);
            assert(ls.take(i + 1).drop_last() =~= ls.take(i as int));
            assert(ls.take(i + 1).last() == ls[i as int]);
        }
        let name = trim_chars(&lines[i]);
        if name.len() > 0 {
            let is_current = match &cur {
                Some(c) => eq_chars(c, &name),
                None => false,
            };
            let b = Branch { name: string_from(name.as_slice()), is_current };
            let ghost before = found@;
            found.push(b);
            assert(branch_views(found@) =~= branch_views(before).push((name@, cv == Some(name@))));
            assert(branch_names(ls.take(i + 1)) == branch_names(ls.take(i as int)).push(name@));
            assert(branch_names(ls.take(i + 1)).map_values(|n: Seq<char>| (n, cv == Some(n)))
                =~= branch_names(ls.take(i as int)).map_values(|n: Seq<char>| (n, cv == Some(n))).push(
                (name@, cv == Some(name@)),
            ));
        } else {
            assert(branch_names(ls.take(i + 1)) == branch_names(ls.take(i as int)));
        }
        i = i + 1;
    }
    assert(ls.take(i as int) =~= ls);
    // Stable insertion sort by name.
    let ghost all = branch_views(found@);
    let mut sorted: Vec<Branch> = Vec::new();
    let mut k: usize = 0;
    assert(branch_views(sorted@) =~= sort_by_name(all.take(0)));
    while k < found.len()
        invariant
            k <= found.len(),
            all == branch_views(found@),
            branch_views(sorted@) == sort_by_name(all.take(k as int)),
        decreases found.len() - k,
    {
        let b = Branch { name: found[k].name.clone(), is_current: found[k].is_current };
        proof {
            assert((b.name@, b.is_current) == all[k as int]);
            assert(all.take(k + 1).drop_last() =~= all.take(k as int));
            assert(all.take(k + 1).last() == all[k as int]);
        }
        insert_branch(&mut sorted, b);
        k = k + 1;
    }
    let ghost n = all.len();
    assert(all.take(n as int) =~= all);
    Ok(sorted)
}

/// The arguments that switch to a branch.
pub fn switch_branch_args(name: &str) -> (r: Vec<String>)
    ensures
        arg_views(r@) == seq!["switch"@, name@],
{
    let r = owned_args(&["switch", name]);
    assert(arg_views(r@) =~= seq!["switch"@, name@]);
    r
}

/// The outcome of switching branches.
pub fn switch_branch(out: &GitOutput) -> (r: Result<(), String>)
    ensures
        match r {
            Ok(()) => out.success,
            Err(e) => !out.success && e@ == failure_spec("Failed to switch branch: "@, out.stderr@),
        },
{
    outcome_trimmed(out, "Failed to switch branch: ")
}

/// The arguments that create a branch and switch to it.
pub fn create_branch_args(name: &str) -> (r: Vec<String>)
    ensures
        arg_views(r@) == seq!["switch"@, "-c"@, name@],
{
    let r = owned_args(&["switch", "-c", name]);
    assert(arg_views(r@) =~= seq!["switch"@, "-c"@, name@]);
    r
}

/// The outcome of creating a branch and switching to it.
pub fn create_and_switch_branch(out: &GitOutput) -> (r: Result<(), String>)
    ensures
        match r {
            Ok(()) => out.success,
            Err(e) => !out.success && e@ == failure_spec("Failed to create branch: "@, out.stderr@),
        },
{
    outcome_trimmed(out, "Failed to create branch: ")
}

} // verus!
