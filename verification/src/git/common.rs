//! The output of a finished `git` process.
use vstd::prelude::*;

use crate::text::{chars_of, concat_chars, string_from, trim_chars, trim_spec};

verus! {

/// What a finished `git` process left behind: whether it exited
/// successfully, and its standard output and error as text.
pub struct GitOutput {
    pub success: bool,
    pub stdout: String,
    pub stderr: String,
}

/// A list of literal arguments.
pub open spec fn arg_views(args: Seq<String>) -> Seq<Seq<char>> {
    args.map_values(|a: String| a@)
}

/// `prefix` followed by the trimmed error output.
pub open spec fn failure_spec(prefix: Seq<char>, stderr: Seq<char>) -> Seq<char> {
    prefix + trim_spec(stderr)
}

/// `prefix` followed by `text`.
pub fn prefixed(prefix: &str, text: &str) -> (r: String)
    ensures
        r@ == prefix@ + text@,
{
    let a = chars_of(prefix);
    let b = chars_of(text);
    let c = concat_chars(&a, &b);
    string_from(c.as_slice())
}

/// `prefix` followed by the trimmed `text`.
pub fn prefixed_trimmed(prefix: &str, text: &str) -> (r: String)
    ensures
        r@ == failure_spec(prefix@, text@),
{
    let a = chars_of(prefix);
    let b = chars_of(text);
    let t = trim_chars(&b);
    let c = concat_chars(&a, &t);
    string_from(c.as_slice())
}

/// The outcome of a command that reports nothing but success: on failure
/// the error is `prefix` and the trimmed error output.
pub fn outcome_trimmed(out: &GitOutput, prefix: &str) -> (r: Result<(), String>)
    ensures
        match r {
            Ok(()) => out.success,
            Err(e) => !out.success && e@ == failure_spec(prefix@, out.stderr@),
        },
{
    if out.success {
        Ok(())
    } else {
        Err(prefixed_trimmed(prefix, out.stderr.as_str()))
    }
}

/// The outcome of a command that reports nothing but success: on failure
/// the error is `prefix` and the error output as it is.
pub fn outcome_raw(out: &GitOutput, prefix: &str) -> (r: Result<(), String>)
    ensures
        match r {
            Ok(()) => out.success,
            Err(e) => !out.success && e@ == prefix@ + out.stderr@,
        },
{
    if out.success {
        Ok(())
    } else {
        Err(prefixed(prefix, out.stderr.as_str()))
    }
}

/// A list of arguments from string slices.
pub fn owned_args(args: &[&str]) -> (r: Vec<String>)
    ensures
        arg_views(r@) == args@.map_values(|a: &str| a@),
{
    let mut r: Vec<String> = Vec::new();
    let mut i: usize = 0;
    while i < args.len()
        invariant
            i <= args.len(),
            arg_views(r@) == args@.map_values(|a: &str| a@).take(i as int),
        decreases args.len() - i,
    {
        let ghost before = r@;
        r.push(args[i].to_owned());
        i = i + 1;
        assert(arg_views(r@) =~= arg_views(before) + seq![args@[i - 1]@]);
        assert(args@.map_values(|a: &str| a@).take(i as int) =~= args@.map_values(|a: &str| a@).take(
            i - 1,
        ) + seq![args@[i - 1]@]);
    }
    assert(args@.map_values(|a: &str| a@).take(i as int) =~= args@.map_values(|a: &str| a@));
    r
}

} // verus!
