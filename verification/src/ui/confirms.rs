//! Yes/no questions: what is shown, and what each key answers.
use vstd::prelude::*;
use vstd::string::StringExecFns;

use super::keys::Key;
use crate::style::{BOLD, CYAN, DIM, RESET, TREE_LAST, TREE_MID};
use crate::text::{chars_of, concat_all, lemma_concat_all_take, trim_chars, trim_spec};

verus! {

/// How a question reads its answer.
#[derive(Debug, Clone, Copy, PartialEq, Eq, Structural)]
pub enum ConfirmStyle {
    /// The commit preview: the first key answers; y or Y say yes, and any
    /// other key says no.
    Preview,
    /// A one-line question: the first key answers; y or Y say yes, and so
    /// does Enter when `enter_yes`; any other key says no.
    Simple { enter_yes: bool },
}

/// A question as shown: its text, how many lines to clear once it is
/// answered, and how it reads its answer.
pub struct Confirm {
    pub text: String,
    pub lines: usize,
    pub style: ConfirmStyle,
}

/// The answer a key gives to a question: the first key answers.
pub open spec fn answer_spec(style: ConfirmStyle, k: Key) -> bool {
    match style {
        ConfirmStyle::Preview => k matches Key::Char { c: 'y', .. } || k matches Key::Char { c: 'Y', .. },
        ConfirmStyle::Simple { enter_yes } => k matches Key::Char { c: 'y', .. } || k matches Key::Char {
            c: 'Y',
            ..
        } || (enter_yes && k == Key::Enter),
    }
}

/// The answer a key gives to a question.
pub fn confirm_answer(style: ConfirmStyle, key: &Key) -> (r: bool)
    ensures
        r == answer_spec(style, *key),
{
    match style {
        ConfirmStyle::Preview => match key {
            Key::Char { c: 'y', .. } | Key::Char { c: 'Y', .. } => true,
            _ => false,
        },
        ConfirmStyle::Simple { enter_yes } => match key {
            Key::Char { c: 'y', .. } | Key::Char { c: 'Y', .. } => true,
            Key::Enter => enter_yes,
            _ => false,
        },
    }
}

/// A one-line question with its `[y/N]` hint.
pub open spec fn simple_spec(prompt: Seq<char>) -> Seq<char> {
    BOLD@ + prompt + RESET@ + " "@ + DIM@ + "[y/N]"@ + RESET@ + "  "@
}

fn simple_text(prompt: &str) -> (r: String)
    ensures
        r@ == simple_spec(prompt@),
{
    let mut s = String::new();
    s.append(BOLD);
    s.append(prompt);
    s.append(RESET);
    s.append(" ");
    s.append(DIM);
    s.append("[y/N]");
    s.append(RESET);
    s.append("  ");
    proof {
        assert(s@ =~= simple_spec(prompt@));
    }
    s
}

/// "Push now?": Enter says yes.
pub fn confirm_push() -> (r: Confirm)
    ensures
        r.text@ == simple_spec("\r\n  Push now?"@),
        r.lines == 1,
        r.style == (ConfirmStyle::Simple { enter_yes: true }),
{
    Confirm { text: simple_text("\r\n  Push now?"), lines: 1, style: ConfirmStyle::Simple { enter_yes: true } }
}

/// "Create branch NAME?": Enter says no.
pub fn confirm_create_branch(name: &str) -> (r: Confirm)
    ensures
        r.text@ == simple_spec("\r\n  Create branch "@ + CYAN@ + name@ + RESET@ + "?"@),
        r.lines == 1,
        r.style == (ConfirmStyle::Simple { enter_yes: false }),
{
    let mut p = String::new();
    p.append("\r\n  Create branch ");
    p.append(CYAN);
    p.append(name);
    p.append(RESET);
    p.append("?");
    Confirm { text: simple_text(p.as_str()), lines: 1, style: ConfirmStyle::Simple { enter_yes: false } }
}

/// "Confirm undo?": Enter says no.
pub fn confirm_undo() -> (r: Confirm)
    ensures
        r.text@ == simple_spec("  Confirm undo?"@),
        r.lines == 1,
        r.style == (ConfirmStyle::Simple { enter_yes: false }),
{
    Confirm { text: simple_text("  Confirm undo?"), lines: 1, style: ConfirmStyle::Simple { enter_yes: false } }
}

/// The subject line of the preview, after the emoji when there is one.
pub open spec fn subject_line(subject: Seq<char>, emoji: Seq<char>) -> Seq<char> {
    if trim_spec(emoji).len() == 0 {
        "    "@ + CYAN@ + BOLD@ + subject + RESET@ + "\r\n"@
    } else {
        "    "@ + emoji + CYAN@ + BOLD@ + subject + RESET@ + "\r\n"@
    }
}

/// A file of the preview, as a branch of a tree.
pub open spec fn file_row(f: Seq<char>, last: bool) -> Seq<char> {
    "    "@ + DIM@ + (if last {
        TREE_LAST@
    } else {
        TREE_MID@
    }) + RESET@ + " "@ + f + "\r\n"@
}

/// The rows of the files of the preview.
pub open spec fn file_rows(files: Seq<Seq<char>>) -> Seq<Seq<char>> {
    Seq::new(files.len(), |i: int| file_row(files[i], i == files.len() - 1))
}

/// The commit preview: subject, files, and the question.
pub open spec fn preview_spec(subject: Seq<char>, emoji: Seq<char>, files: Seq<Seq<char>>) -> Seq<char> {
    "\r\n"@ + "  "@ + BOLD@ + "Preview commit:"@ + RESET@ + "\r\n"@ + "\r\n"@ + subject_line(subject, emoji)
        + "\r\n"@ + "  "@ + BOLD@ + "Files:"@ + RESET@ + "\r\n"@ + concat_all(file_rows(files)) + "\r\n  "@
        + BOLD@ + "Confirm?"@ + RESET@ + " "@ + DIM@ + "[Y/n]"@ + RESET@ + "  "@
}

fn subject_text(subject: &str, emoji: &str) -> (r: String)
    ensures
        r@ == subject_line(subject@, emoji@),
{
    let mut s = String::new();
    s.append("    ");
    if trim_chars(&chars_of(emoji)).len() != 0 {
        s.append(emoji);
    }
    s.append(CYAN);
    s.append(BOLD);
    s.append(subject);
    s.append(RESET);
    s.append("\r\n");
    proof {
        assert(s@ =~= subject_line(subject@, emoji@));
    }
    s
}

fn files_text(files: &[String]) -> (r: String)
    ensures
        r@ == concat_all(file_rows(files@.map_values(|f: String| f@))),
{
    let ghost fs = files@.map_values(|f: String| f@);
    let ghost rows = file_rows(fs);
    let mut s = String::new();
    let mut i: usize = 0;
    while i < files.len()
        invariant
            i <= files@.len(),
            fs == files@.map_values(|f: String| f@),
            rows == file_rows(fs),
            s@ == concat_all(rows.take(i as int)),
        decreases files.len() - i,
    {
        let mut row = String::new();
        row.append("    ");
        row.append(DIM);
        if i == files.len() - 1 {
            row.append(TREE_LAST);
        } else {
            row.append(TREE_MID);
        }
        row.append(RESET);
        row.append(" ");
        row.append(files[i].as_str());
        row.append("\r\n");
        proof {
            assert(row@ =~= file_row(fs[i as int], i == fs.len() - 1));
            lemma_concat_all_take(rows, i as int);
        }
        s.append(row.as_str());
        i = i + 1;
    }
    assert(rows.take(files@.len() as int) =~= rows);
    s
}

/// The commit preview; it takes seven lines and one per file.
pub fn confirm_commit(subject: &str, emoji: &str, files: &[String]) -> (r: Confirm)
    requires
        files@.len() + 7 <= usize::MAX,
    ensures
        r.text@ == preview_spec(subject@, emoji@, files@.map_values(|f: String| f@)),
        r.lines == files@.len() + 7,
        r.style == ConfirmStyle::Preview,
{
    let mut s = String::new();
    s.append("\r\n");
    s.append("  ");
    s.append(BOLD);
    s.append("Preview commit:");
    s.append(RESET);
    s.append("\r\n");
    s.append("\r\n");
    s.append(subject_text(subject, emoji).as_str());
    s.append("\r\n");
    s.append("  ");
    s.append(BOLD);
    s.append("Files:");
    s.append(RESET);
    s.append("\r\n");
    s.append(files_text(files).as_str());
    s.append("\r\n  ");
    s.append(BOLD);
    s.append("Confirm?");
    s.append(RESET);
    s.append(" ");
    s.append(DIM);
    s.append("[Y/n]");
    s.append(RESET);
    s.append("  ");
    Confirm { text: s, lines: 7 + files.len(), style: ConfirmStyle::Preview }
}

} // verus!
