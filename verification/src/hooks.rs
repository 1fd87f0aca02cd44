//! Hooks: where they live, the environment they get, and what their exit
//! means.
use vstd::prelude::*;

use crate::print::{lines_view, Line, LineModel};
use crate::text::{
    chars_of, concat_chars, digits, digits_spec, eq_chars, lines_chars, lines_spec, pair_views, starts_with,
    starts_with_spec, string_from, string_views, trim_chars, trim_spec, views,
};

verus! {

/// Whether a hook failure should abort the current operation.
pub enum HookKind {
    /// Non-zero exit code aborts the operation with an error.
    Pre,
    /// Non-zero exit code prints a warning but continues.
    Post,
}

/// Where a hook's script may be, relative to the repository root: under
/// its name, or its name with `.sh`, in this order.
pub fn hook_candidates(name: &str) -> (r: Vec<String>)
    ensures
        string_views(r@) == seq![".sit/hooks/"@ + name@, ".sit/hooks/"@ + name@ + ".sh"@],
{
    let dir = chars_of(".sit/hooks/");
    let n = chars_of(name);
    let a = concat_chars(&dir, &n);
    let b = concat_chars(&a, &chars_of(".sh"));
    let mut r: Vec<String> = Vec::new();
    r.push(string_from(a.as_slice()));
    r.push(string_from(b.as_slice()));
    assert(string_views(r@) =~= seq![".sit/hooks/"@ + name@, ".sit/hooks/"@ + name@ + ".sh"@]);
    r
}

// ── Environment ──────────────────────────────────────────

/// Keys starting with `SIT_` belong to sit and cannot be overridden.
pub open spec fn reserved_key(k: Seq<char>) -> bool {
    starts_with_spec(k, "SIT_"@)
}

/// The entry at `i` is the last one with its key.
pub open spec fn last_of_key(env: Seq<(Seq<char>, Seq<char>)>, i: int) -> bool {
    forall|j: int| i < j < env.len() ==> (#[trigger] env[j]).0 != env[i].0
}

/// The extra entries that reach a hook: not reserved, and the last one
/// for its key.
pub open spec fn kept_extras(extra: Seq<(Seq<char>, Seq<char>)>, from: int) -> Seq<(Seq<char>, Seq<char>)>
    decreases extra.len() - from,
{
    if from < 0 || from >= extra.len() {
        seq![]
    } else if !reserved_key(extra[from].0) && last_of_key(extra, from) {
        seq![extra[from]] + kept_extras(extra, from + 1)
    } else {
        kept_extras(extra, from + 1)
    }
}

/// What `merge_hook_env` gives: sit's own variables, then the extra ones
/// that may reach the hook.
pub open spec fn merge_spec(
    builtin: Seq<(Seq<char>, Seq<char>)>,
    extra: Seq<(Seq<char>, Seq<char>)>,
) -> Seq<(Seq<char>, Seq<char>)> {
    builtin + kept_extras(extra, 0)
}

/// The value a process sees for `k` when the entries are set in order:
/// that of the last entry with the key.
pub open spec fn env_lookup(env: Seq<(Seq<char>, Seq<char>)>, k: Seq<char>) -> Option<Seq<char>>
    decreases env.len(),
{
    if env.len() == 0 {
        None
    } else if env.last().0 == k {
        Some(env.last().1)
    } else {
        env_lookup(env.drop_last(), k)
    }
}

/// Whether the key of `extra[i]` appears again after `i`.
fn repeated_later(extra: &[(String, String)], i: usize) -> (r: bool)
    requires
        i < extra@.len(),
    ensures
        r == !last_of_key(pair_views(extra@), i as int),
{
    let ghost ev = pair_views(extra@);
    let key = chars_of(extra[i].0.as_str());
    let mut j = i + 1;
    while j < extra.len()
        invariant
            i < j <= extra.len(),
            ev == pair_views(extra@),
            key@ == ev[i as int].0,
            forall|m: int| i < m < j ==> (#[trigger] ev[m]).0 != ev[i as int].0,
        decreases extra.len() - j,
    {
        let other = chars_of(extra[j].0.as_str());
        assert(ev[j as int].0 == extra@[j as int].0@);
        if eq_chars(&key, &other) {
            return true;
        }
        j = j + 1;
    }
    false
}

/// The environment a hook gets: sit's own variables, then the extra
/// ones; an extra `SIT_*` variable is dropped, and of extras with the same
/// key only the last is kept.
pub fn merge_hook_env(builtin: &[(String, String)], extra: &[(String, String)]) -> (r: Vec<
    (String, String),
>)
    ensures
        pair_views(r@) == merge_spec(pair_views(builtin@), pair_views(extra@)),
{
    proof {
        reveal_strlit("SIT_");
    }
    let ghost bv = pair_views(builtin@);
    let ghost ev = pair_views(extra@);
    let mut r: Vec<(String, String)> = Vec::new();
    let mut i: usize = 0;
    while i < builtin.len()
        invariant
            i <= builtin.len(),
            bv == pair_views(builtin@),
            pair_views(r@) == bv.take(i as int),
        decreases builtin.len() - i,
    {
        let p = (builtin[i].0.clone(), builtin[i].1.clone());
        let ghost before = r@;
        r.push(p);
        i = i + 1;
        assert(pair_views(r@) =~= pair_views(before) + seq![bv[i - 1]]);
        assert(bv.take(i as int) =~= bv.take(i - 1) + seq![bv[i - 1]]);
    }
    assert(bv.take(i as int) =~= bv);
    let reserved = chars_of("SIT_");
    let mut k: usize = 0;
    assert(bv + kept_extras(ev, 0) =~= merge_spec(bv, ev));
    while k < extra.len()
        invariant
            k <= extra.len(),
            ev == pair_views(extra@),
            reserved@ == "SIT_"@,
            merge_spec(bv, ev) == pair_views(r@) + kept_extras(ev, k as int),
        decreases extra.len() - k,
    {
        let key = chars_of(extra[k].0.as_str());
        assert(ev[k as int] == (extra@[k as int].0@, extra@[k as int].1@));
        let keep = !starts_with(&key, &reserved) && !repeated_later(extra, k);
        if keep {
            let p = (extra[k].0.clone(), extra[k].1.clone());
            let ghost before = r@;
            r.push(p);
            assert(pair_views(r@) =~= pair_views(before) + seq![ev[k as int]]);
            assert(pair_views(before) + (seq![ev[k as int]] + kept_extras(ev, k + 1)) =~= pair_views(
                r@,
            ) + kept_extras(ev, k + 1));
        }
        k = k + 1;
    }
    assert(kept_extras(ev, k as int) =~= Seq::<(Seq<char>, Seq<char>)>::empty());
    assert(pair_views(r@) + Seq::<(Seq<char>, Seq<char>)>::empty() =~= pair_views(r@));
    r
}

// ── Outcome ──────────────────────────────────────────────

/// An integer written in decimal, with `-` when negative.
pub open spec fn decimal_spec(n: int) -> Seq<char> {
    if n < 0 {
        seq!['-'] + digits_spec((-n) as nat)
    } else {
        digits_spec(n as nat)
    }
}

/// An integer written in decimal.
pub fn decimal(n: i32) -> (r: String)
    ensures
        r@ == decimal_spec(n as int),
{
    if n < 0 {
        let m: u64 = (0i64 - (n as i64)) as u64;
        let d = digits(m);
        let mut r = vec!['-'];
        crate::text::append_chars(&mut r, &d);
        assert(r@ =~= seq!['-'] + digits_spec((-(n as int)) as nat));
        string_from(r.as_slice())
    } else {
        let d = digits(n as u64);
        string_from(d.as_slice())
    }
}

/// What a hook's exit means: nothing on success; on failure the exit code
/// (1 when it has none) in an error for a pre-hook, in a warning for a
/// post-hook.
pub open spec fn hook_outcome_spec(name: Seq<char>, pre: bool, success: bool, code: Option<i32>) -> Result<
    Option<Seq<char>>,
    Seq<char>,
> {
    let c = match code {
        Some(c) => c as int,
        None => 1,
    };
    if success {
        Ok(None)
    } else if pre {
        Err("Hook '"@ + name + "' exited with status "@ + decimal_spec(c) + " — aborting"@)
    } else {
        Ok(Some("Warning: hook '"@ + name + "' exited with status "@ + decimal_spec(c)))
    }
}

/// What a finished hook means for the operation: `Ok(None)` to go on,
/// `Ok(Some(warning))` to go on after a warning, `Err` to abort.
pub fn hook_outcome(name: &str, kind: &HookKind, success: bool, code: Option<i32>) -> (r: Result<
    Option<String>,
    String,
>)
    ensures
        match r {
            Ok(None) => hook_outcome_spec(name@, *kind is Pre, success, code) == Ok::<
                Option<Seq<char>>,
                Seq<char>,
            >(None),
            Ok(Some(w)) => hook_outcome_spec(name@, *kind is Pre, success, code) == Ok::<
                Option<Seq<char>>,
                Seq<char>,
            >(Some(w@)),
            Err(e) => hook_outcome_spec(name@, *kind is Pre, success, code) == Err::<
                Option<Seq<char>>,
                Seq<char>,
            >(e@),
        },
{
    if success {
        return Ok(None);
    }
    let c: i32 = match code {
        Some(c) => c,
        None => 1,
    };
    let num = chars_of(decimal(c).as_str());
    let n = chars_of(name);
    match kind {
        HookKind::Pre => {
            let a = concat_chars(&chars_of("Hook '"), &n);
            let b = concat_chars(&a, &chars_of("' exited with status "));
            let d = concat_chars(&b, &num);
            let e = concat_chars(&d, &chars_of(" — aborting"));
            Err(string_from(e.as_slice()))
        },
        HookKind::Post => {
            let a = concat_chars(&chars_of("Warning: hook '"), &n);
            let b = concat_chars(&a, &chars_of("' exited with status "));
            let d = concat_chars(&b, &num);
            Ok(Some(string_from(d.as_slice())))
        },
    }
}

/// The lines a hook printed, each marked with the hook's name: those of
/// a text that is not blank, trimmed as a whole.
pub open spec fn marked_lines(name: Seq<char>, text: Seq<char>) -> Seq<Seq<char>> {
    if trim_spec(text).len() == 0 {
        seq![]
    } else {
        lines_spec(trim_spec(text)).map_values(|l: Seq<char>| "["@ + name + "] "@ + l)
    }
}

fn mark_lines(name: &Vec<char>, text: &str, out: &mut Vec<String>)
    ensures
        string_views(final(out)@) == string_views(old(out)@) + marked_lines(name@, text@),
{
    let t = trim_chars(&chars_of(text));
    if t.len() == 0 {
        assert(string_views(out@) + marked_lines(name@, text@) =~= string_views(out@));
        return;
    }
    let lines = lines_chars(&t);
    let ghost ls = lines_spec(t@);
    let ghost start = string_views(out@);
    let open = chars_of("[");
    let close = chars_of("] ");
    let mut i: usize = 0;
    while i < lines.len()
        invariant
            i <= lines.len(),
            views(lines@) == ls,
            open@ == "["@,
            close@ == "] "@,
            string_views(out@) == start + ls.take(i as int).map_values(
                |l: Seq<char>| "["@ + name@ + "] "@ + l,
            ),
        decreases lines.len() - i,
    {
        let a = concat_chars(&open, name);
        let b = concat_chars(&a, &close);
        let c = concat_chars(&b, &lines[i]);
        let ghost before = string_views(out@);
        out.push(string_from(c.as_slice()));
        i = i + 1;
        assert(ls[i - 1] == lines@[i - 1]@);
        assert(string_views(out@) =~= before + seq![c@]);
        assert(ls.take(i as int).map_values(|l: Seq<char>| "["@ + name@ + "] "@ + l) =~= ls.take(
            i - 1,
        ).map_values(|l: Seq<char>| "["@ + name@ + "] "@ + l) + seq![c@]);
    }
    assert(ls.take(i as int) =~= ls);
}

/// What a hook printed, as the lines to show: its output, then its error
/// output, each line marked with the hook's name.
pub fn hook_output_lines(name: &str, stdout: &str, stderr: &str) -> (r: Vec<String>)
    ensures
        string_views(r@) == marked_lines(name@, stdout@) + marked_lines(name@, stderr@),
{
    let n = chars_of(name);
    let mut r: Vec<String> = Vec::new();
    mark_lines(&n, stdout, &mut r);
    mark_lines(&n, stderr, &mut r);
    assert(string_views(r@) =~= marked_lines(name@, stdout@) + marked_lines(name@, stderr@));
    r
}

/// A hook that ran: how it exited, and what it printed.
pub struct HookRun {
    pub success: bool,
    pub code: Option<i32>,
    pub stdout: String,
    pub stderr: String,
}

/// What is shown after a hook ran: each line it printed, marked with its
/// name, then the warning of a failed post-hook; all as hints.
pub open spec fn hook_lines_spec(
    name: Seq<char>,
    pre: bool,
    success: bool,
    code: Option<i32>,
    stdout: Seq<char>,
    stderr: Seq<char>,
) -> Seq<LineModel> {
    (marked_lines(name, stdout) + marked_lines(name, stderr)).map_values(|l: Seq<char>| LineModel::Hint(l))
        + match hook_outcome_spec(name, pre, success, code) {
        Ok(Some(w)) => seq![LineModel::Hint(w)],
        _ => seq![],
    }
}

/// Whether the operation goes on after a hook ran: not after a failed
/// pre-hook, whose error is returned.
pub open spec fn hook_result_spec(name: Seq<char>, pre: bool, success: bool, code: Option<i32>) -> Result<
    (),
    Seq<char>,
> {
    match hook_outcome_spec(name, pre, success, code) {
        Err(e) => Err(e),
        Ok(_) => Ok(()),
    }
}

/// What a hook that ran means: the lines to show, and whether the
/// operation goes on.
pub fn hook_report(name: &str, kind: &HookKind, run: &HookRun) -> (r: (Vec<Line>, Result<(), String>))
    ensures
        lines_view(r.0@) == hook_lines_spec(name@, *kind is Pre, run.success, run.code, run.stdout@, run.stderr@),
        match r.1 {
            Ok(()) => hook_result_spec(name@, *kind is Pre, run.success, run.code) is Ok,
            Err(e) => hook_result_spec(name@, *kind is Pre, run.success, run.code) == Err::<(), Seq<char>>(e@),
        },
{
    let out = hook_output_lines(name, run.stdout.as_str(), run.stderr.as_str());
    let ghost marked = string_views(out@);
    let mut lines: Vec<Line> = Vec::new();
    let mut i: usize = 0;
    while i < out.len()
        invariant
            i <= out@.len(),
            marked == string_views(out@),
            lines_view(lines@) == marked.take(i as int).map_values(|l: Seq<char>| LineModel::Hint(l)),
        decreases out.len() - i,
    {
        lines.push(Line::Hint(out[i].clone()));
        proof {
            assert(marked.take(i as int + 1).map_values(|l: Seq<char>| LineModel::Hint(l)) =~= marked.take(
                i as int,
            ).map_values(|l: Seq<char>| LineModel::Hint(l)).push(LineModel::Hint(out@[i as int]@)));
            assert(lines_view(lines@) =~= marked.take(i as int + 1).map_values(|l: Seq<char>| LineModel::Hint(l)));
        }
        i = i + 1;
    }
    assert(marked.take(out@.len() as int) =~= marked);
    let ghost hints = lines_view(lines@);
    match hook_outcome(name, kind, run.success, run.code) {
        Ok(None) => {
            assert(lines_view(lines@) =~= hints + seq![]);
            (lines, Ok(()))
        },
        Ok(Some(w)) => {
            lines.push(Line::Hint(w));
            assert(lines_view(lines@) =~= hints + seq![LineModel::Hint(w@)]);
            (lines, Ok(()))
        },
        Err(e) => {
            assert(lines_view(lines@) =~= hints + seq![]);
            (lines, Err(e))
        },
    }
}

// ── Laws ─────────────────────────────────────────────────

proof fn lemma_lookup_append(a: Seq<(Seq<char>, Seq<char>)>, b: Seq<(Seq<char>, Seq<char>)>, k: Seq<char>)
    ensures
        env_lookup(a + b, k) == match env_lookup(b, k) {
            Some(v) => Some(v),
            None => env_lookup(a, k),
        },
    decreases b.len(),
{
    if b.len() == 0 {
        assert(a + b =~= a);
    } else {
        assert((a + b).drop_last() =~= a + b.drop_last());
        assert((a + b).last() == b.last());
        lemma_lookup_append(a, b.drop_last(), k);
    }
}

proof fn lemma_lookup_none(env: Seq<(Seq<char>, Seq<char>)>, k: Seq<char>)
    requires
        forall|i: int| 0 <= i < env.len() ==> (#[trigger] env[i]).0 != k,
    ensures
        env_lookup(env, k) is None,
    decreases env.len(),
{
    if env.len() > 0 {
        lemma_lookup_none(env.drop_last(), k);
    }
}

proof fn lemma_lookup_last(env: Seq<(Seq<char>, Seq<char>)>, k: Seq<char>, i: int)
    requires
        0 <= i < env.len(),
        env[i].0 == k,
        forall|j: int| i < j < env.len() ==> (#[trigger] env[j]).0 != k,
    ensures
        env_lookup(env, k) == Some(env[i].1),
    decreases env.len(),
{
    if i < env.len() - 1 {
        lemma_lookup_last(env.drop_last(), k, i);
    }
}

proof fn lemma_kept_keys(extra: Seq<(Seq<char>, Seq<char>)>, from: int, k: Seq<char>)
    requires
        0 <= from <= extra.len(),
    ensures
        reserved_key(k) ==> env_lookup(kept_extras(extra, from), k) is None,
        !reserved_key(k) ==> env_lookup(kept_extras(extra, from), k) == env_lookup(
            extra.skip(from),
            k,
        ),
    decreases extra.len() - from,
{
    if from >= extra.len() {
        assert(extra.skip(from) =~= Seq::<(Seq<char>, Seq<char>)>::empty());
    } else {
        lemma_kept_keys(extra, from + 1, k);
        let rest = kept_extras(extra, from + 1);
        let head = extra[from];
        let single = seq![head];
        assert(single.drop_last() =~= Seq::<(Seq<char>, Seq<char>)>::empty());
        assert(env_lookup(Seq::<(Seq<char>, Seq<char>)>::empty(), k) is None);
        assert(env_lookup(single, k) == if head.0 == k {
            Some(head.1)
        } else {
            None
        });
        assert(extra.skip(from) =~= seq![head] + extra.skip(from + 1));
        lemma_lookup_append(seq![head], extra.skip(from + 1), k);
        if !reserved_key(head.0) && last_of_key(extra, from) {
            lemma_lookup_append(seq![head], rest, k);
            if head.0 == k && !reserved_key(k) {
                // no later entry has the key
                assert forall|i: int| 0 <= i < extra.skip(from + 1).len() implies (#[trigger] extra.skip(from + 1)[i]).0 != k by {
                    assert(extra.skip(from + 1)[i] == extra[from + 1 + i]);
                }
                lemma_lookup_none(extra.skip(from + 1), k);
            }
            assert(seq![head].drop_last() =~= Seq::<(Seq<char>, Seq<char>)>::empty());
        } else {
            if head.0 == k && !reserved_key(k) {
                // a later entry has the key, so the suffix decides
                let j = choose|j: int| from < j < extra.len() && (#[trigger] extra[j]).0 == extra[from].0;
                assert(extra.skip(from + 1)[j - from - 1] == extra[j]);
                if env_lookup(extra.skip(from + 1), k) is None {
                    lemma_lookup_present(extra.skip(from + 1), k, j - from - 1);
                }
            }
            assert(seq![head].drop_last() =~= Seq::<(Seq<char>, Seq<char>)>::empty());
        }
    }
}

proof fn lemma_lookup_present(env: Seq<(Seq<char>, Seq<char>)>, k: Seq<char>, i: int)
    requires
        0 <= i < env.len(),
        env[i].0 == k,
    ensures
        env_lookup(env, k) is Some,
    decreases env.len(),
{
    if env.last().0 != k {
        lemma_lookup_present(env.drop_last(), k, i);
    }
}

/// Extra variables from `--env`: for a key that sit does not reserve, the
/// hook sees the last value given ("last value wins"); for a `SIT_*` key it
/// sees sit's own value, never an extra one.
pub proof fn law_hook_env_last_value_wins(
    builtin: Seq<(Seq<char>, Seq<char>)>,
    extra: Seq<(Seq<char>, Seq<char>)>,
    k: Seq<char>,
)
    ensures
        !reserved_key(k) && env_lookup(extra, k) is Some ==> env_lookup(merge_spec(builtin, extra), k)
            == env_lookup(extra, k),
        reserved_key(k) ==> env_lookup(merge_spec(builtin, extra), k) == env_lookup(builtin, k),
{
    lemma_kept_keys(extra, 0, k);
    assert(extra.skip(0) =~= extra);
    lemma_lookup_append(builtin, kept_extras(extra, 0), k);
}

} // verus!
