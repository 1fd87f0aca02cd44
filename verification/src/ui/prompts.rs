//! What the text prompts accept and the messages they print.
use vstd::prelude::*;
use vstd::string::{StrSliceExecFns, StringExecFns};

use crate::print::{lines_of_details, lines_view, success_block, Line, LineModel};
use crate::text::{chars_of, string_from, trim_spec, trim_str};

verus! {

/// A commit message as typed: trimmed, and refused when empty.
pub open spec fn message_spec(input: Seq<char>) -> Result<Seq<char>, Seq<char>> {
    if trim_spec(input).len() == 0 {
        Err("Commit message cannot be empty"@)
    } else {
        Ok(trim_spec(input))
    }
}

/// The label before the commit message prompt: the category with a space
/// on each side.
pub fn prompt_prefix(category: &str) -> (r: String)
    ensures
        r@ == " "@ + category@ + " "@,
{
    let mut s = String::new();
    s.append(" ");
    s.append(category);
    s.append(" ");
    s
}

/// The commit message from what was typed at the message prompt, or the
/// error when nothing was typed.
pub fn prompt_message(input: &str) -> (r: Result<String, String>)
    ensures
        match r {
            Ok(m) => message_spec(input@) == Ok::<Seq<char>, Seq<char>>(m@),
            Err(e) => message_spec(input@) == Err::<Seq<char>, Seq<char>>(e@),
        },
{
    let m = trim_str(input);
    if m.unicode_len() == 0 {
        Err("Commit message cannot be empty".to_owned())
    } else {
        Ok(m)
    }
}

/// The amended message from what was typed at the amend prompt (which
/// starts with the last message); the same rule as a new message.
pub fn prompt_amend_message(input: &str) -> (r: Result<String, String>)
    ensures
        match r {
            Ok(m) => message_spec(input@) == Ok::<Seq<char>, Seq<char>>(m@),
            Err(e) => message_spec(input@) == Err::<Seq<char>, Seq<char>>(e@),
        },
{
    prompt_message(input)
}

/// A text without any of its leading `c`.
pub open spec fn strip_leading(s: Seq<char>, c: char) -> Seq<char>
    decreases s.len(),
{
    if s.len() > 0 && s[0] == c {
        strip_leading(s.drop_first(), c)
    } else {
        s
    }
}

/// The placeholder of the release prompt: the previous tag, trimmed and
/// without its leading `v`s, when anything is left.
pub open spec fn placeholder_spec(previous: Option<Seq<char>>) -> Option<Seq<char>> {
    match previous {
        Some(p) => if strip_leading(trim_spec(p), 'v').len() > 0 {
            Some(strip_leading(trim_spec(p), 'v'))
        } else {
            None
        },
        None => None,
    }
}

/// The placeholder of the release prompt.
pub fn release_placeholder(previous: Option<&str>) -> (r: Option<String>)
    ensures
        match r {
            Some(s) => placeholder_spec(match previous {
                Some(p) => Some(p@),
                None => None,
            }) == Some(s@),
            None => placeholder_spec(match previous {
                Some(p) => Some(p@),
                None => None,
            }) is None,
        },
{
    match previous {
        None => None,
        Some(p) => {
            let t = chars_of(trim_str(p).as_str());
            assert(t@.skip(0) =~= t@);
            let mut i: usize = 0;
            while i < t.len() && t[i] == 'v'
                invariant
                    i <= t@.len(),
                    strip_leading(t@, 'v') == strip_leading(t@.skip(i as int), 'v'),
                decreases t.len() - i,
            {
                assert(t@.skip(i as int).drop_first() =~= t@.skip(i as int + 1));
                i = i + 1;
            }
            assert(strip_leading(t@.skip(i as int), 'v') == t@.skip(i as int));
            if i == t.len() {
                None
            } else {
                let mut rest: Vec<char> = Vec::new();
                let mut j: usize = i;
                while j < t.len()
                    invariant
                        i <= j <= t@.len(),
                        rest@ == t@.subrange(i as int, j as int),
                    decreases t.len() - j,
                {
                    rest.push(t[j]);
                    j = j + 1;
                    assert(rest@ =~= t@.subrange(i as int, j as int));
                }
                assert(rest@ =~= t@.skip(i as int));
                Some(string_from(rest.as_slice()))
            }
        },
    }
}

/// A release tag from what was typed: trimmed, with a `v` put in front
/// unless it starts with one, and refused when empty.
pub open spec fn release_tag_spec(input: Seq<char>) -> Result<Seq<char>, Seq<char>> {
    let v = trim_spec(input);
    if v.len() == 0 {
        Err("Release version cannot be empty"@)
    } else if v[0] == 'v' {
        Ok(v)
    } else {
        Ok(seq!['v'] + v)
    }
}

/// The release tag from what was typed at the release prompt.
pub fn prompt_release_tag(input: &str) -> (r: Result<String, String>)
    ensures
        match r {
            Ok(t) => release_tag_spec(input@) == Ok::<Seq<char>, Seq<char>>(t@),
            Err(e) => release_tag_spec(input@) == Err::<Seq<char>, Seq<char>>(e@),
        },
{
    let v = trim_str(input);
    let c = chars_of(v.as_str());
    if c.len() == 0 {
        Err("Release version cannot be empty".to_owned())
    } else if c[0] == 'v' {
        Ok(v)
    } else {
        let mut t = String::new();
        t.append("v");
        t.append(v.as_str());
        proof {
            reveal_strlit("v");
            assert(t@ =~= seq!['v'] + v@);
        }
        Ok(t)
    }
}

/// What is printed after a commit: a blank line, "Committed" with the
/// message's lines under it, a blank line.
pub fn print_success(commit_msg: &str) -> (r: Vec<Line>)
    ensures
        lines_view(r@) == seq![LineModel::Blank, LineModel::Success("Committed"@)] + lines_of_details(commit_msg@)
            + seq![LineModel::Blank],
{
    success_block("Committed", commit_msg)
}

/// What is printed for an error: the message between blank lines.
pub fn print_error(msg: &str) -> (r: Vec<Line>)
    ensures
        lines_view(r@) == seq![LineModel::Blank, LineModel::Error(msg@), LineModel::Blank],
{
    let mut r: Vec<Line> = Vec::new();
    r.push(Line::Blank);
    r.push(Line::Error(msg.to_owned()));
    r.push(Line::Blank);
    assert(lines_view(r@) =~= seq![LineModel::Blank, LineModel::Error(msg@), LineModel::Blank]);
    r
}

} // verus!
