//! Passing unknown subcommands on to git.
use vstd::prelude::*;

use super::common::{GitOutput, failure_spec, prefixed, prefixed_trimmed};
use crate::text::{chars_of, contains_chars, contains_spec, string_views};

verus! {

/// What `forward_command` gives: git did not know the command, the
/// command failed, or it succeeded.
pub open spec fn forward_spec(args: Seq<Seq<char>>, success: bool, stderr: Seq<char>) -> Result<
    (),
    Seq<char>,
> {
    if contains_spec(stderr, "is not a git command"@) {
        Err(
            "Command or category not found: "@ + if args.len() > 0 {
                args[0]
            } else {
                "<none>"@
            },
        )
    } else if success {
        Ok(())
    } else {
        Err(failure_spec("Git command failed: "@, stderr))
    }
}

/// Whether git's output is to be shown: always, unless git did not know
/// the command.
pub open spec fn forward_shows_output(stderr: Seq<char>) -> bool {
    !contains_spec(stderr, "is not a git command"@)
}

/// The outcome of a command passed on to git.
pub fn forward_command(args: &[String], out: &GitOutput) -> (r: Result<(), String>)
    ensures
        match r {
            Ok(()) => forward_spec(string_views(args@), out.success, out.stderr@) == Ok::<
                (),
                Seq<char>,
            >(()),
            Err(e) => forward_spec(string_views(args@), out.success, out.stderr@) == Err::<
                (),
                Seq<char>,
            >(e@),
        },
{
    if forwarded_output_hidden(out) {
        if args.len() > 0 {
            assert(string_views(args@)[0] == args@[0]@);
            return Err(prefixed("Command or category not found: ", args[0].as_str()));
        } else {
            return Err(prefixed("Command or category not found: ", "<none>"));
        }
    }
    if out.success {
        Ok(())
    } else {
        Err(prefixed_trimmed("Git command failed: ", out.stderr.as_str()))
    }
}

/// Whether git reported that it does not know the command, in which case
/// its output is not shown.
pub fn forwarded_output_hidden(out: &GitOutput) -> (r: bool)
    ensures
        r == !forward_shows_output(out.stderr@),
{
    let e = chars_of(out.stderr.as_str());
    contains_chars(&e, &chars_of("is not a git command"))
}

} // verus!
