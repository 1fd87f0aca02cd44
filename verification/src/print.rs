//! The lines the program prints, as values; the binary gives each its
//! color and writes it.
use vstd::prelude::*;

use crate::text::{chars_of, lines_chars, lines_spec, string_from, views};

verus! {

/// A printed line.
pub enum Line {
    /// An empty line.
    Blank,
    /// `[OK]` and a bold message.
    Success(String),
    /// `[ERROR]` and a message, on the error stream.
    Error(String),
    /// `[WARN]` and a message, on the error stream.
    Warn(String),
    /// `[INFO]` and a message.
    Info(String),
    /// A dimmed line.
    Hint(String),
    /// An indented, dimmed line under a success.
    Detail(String),
    /// A bold line.
    Header(String),
    /// An indented bold line.
    Emphasis(String),
    /// A line printed as it is.
    Plain(String),
    /// A bold name and a dimmed description, indented.
    Entry(String, String),
    /// Text written to the output as it is, without a line break.
    Out(String),
    /// Text written to the error output as it is, without a line break.
    ErrOut(String),
}

/// The mathematical value of a line.
pub enum LineModel {
    Blank,
    Success(Seq<char>),
    Error(Seq<char>),
    Warn(Seq<char>),
    Info(Seq<char>),
    Hint(Seq<char>),
    Detail(Seq<char>),
    Header(Seq<char>),
    Emphasis(Seq<char>),
    Plain(Seq<char>),
    Entry(Seq<char>, Seq<char>),
    Out(Seq<char>),
    ErrOut(Seq<char>),
}

impl View for Line {
    type V = LineModel;

    open spec fn view(&self) -> LineModel {
        match self {
            Line::Blank => LineModel::Blank,
            Line::Success(s) => LineModel::Success(s@),
            Line::Error(s) => LineModel::Error(s@),
            Line::Warn(s) => LineModel::Warn(s@),
            Line::Info(s) => LineModel::Info(s@),
            Line::Hint(s) => LineModel::Hint(s@),
            Line::Detail(s) => LineModel::Detail(s@),
            Line::Header(s) => LineModel::Header(s@),
            Line::Emphasis(s) => LineModel::Emphasis(s@),
            Line::Plain(s) => LineModel::Plain(s@),
            Line::Entry(a, b) => LineModel::Entry(a@, b@),
            Line::Out(s) => LineModel::Out(s@),
            Line::ErrOut(s) => LineModel::ErrOut(s@),
        }
    }
}

/// The lines as values.
pub open spec fn lines_view(v: Seq<Line>) -> Seq<LineModel> {
    v.map_values(|l: Line| l@)
}

/// Each line of a text as a detail line.
pub open spec fn lines_of_details(details: Seq<char>) -> Seq<LineModel> {
    lines_spec(details).map_values(|l: Seq<char>| LineModel::Detail(l))
}

/// A success with each line of `details` under it.
pub fn success_with_details(msg: &str, details: &str) -> (r: Vec<Line>)
    ensures
        lines_view(r@) == seq![LineModel::Success(msg@)] + lines_of_details(details@),
{
    let ls = lines_chars(&chars_of(details));
    let mut r: Vec<Line> = Vec::new();
    r.push(Line::Success(msg.to_owned()));
    let mut i: usize = 0;
    while i < ls.len()
        invariant
            i <= ls@.len(),
            views(ls@) == lines_spec(details@),
            lines_view(r@) == seq![LineModel::Success(msg@)] + lines_of_details(details@).take(i as int),
        decreases ls.len() - i,
    {
        let ghost before = r@;
        r.push(Line::Detail(string_from(ls[i].as_slice())));
        proof {
            assert(views(ls@)[i as int] == ls@[i as int]@);
            assert(lines_view(r@) =~= lines_view(before).push(LineModel::Detail(ls@[i as int]@)));
            assert(lines_of_details(details@).take(i as int + 1) =~= lines_of_details(details@).take(i as int).push(
                LineModel::Detail(ls@[i as int]@),
            ));
            assert(lines_view(r@) =~= seq![LineModel::Success(msg@)] + lines_of_details(details@).take(
                i as int + 1,
            ));
        }
        i = i + 1;
    }
    assert(lines_of_details(details@).take(ls@.len() as int) =~= lines_of_details(details@));
    r
}

/// A success with its details between blank lines.
pub fn success_block(msg: &str, details: &str) -> (r: Vec<Line>)
    ensures
        lines_view(r@) == seq![LineModel::Blank, LineModel::Success(msg@)] + lines_of_details(details@) + seq![
            LineModel::Blank,
        ],
{
    let mut r: Vec<Line> = Vec::new();
    r.push(Line::Blank);
    let mut s = success_with_details(msg, details);
    let ghost a = r@;
    let ghost b = s@;
    r.append(&mut s);
    proof {
        lemma_lines_view_concat(a, b);
    }
    let ghost c = r@;
    r.push(Line::Blank);
    proof {
        lemma_lines_view_concat(c, seq![Line::Blank]);
        assert(r@ =~= c + seq![Line::Blank]);
        assert(lines_view(a) =~= seq![LineModel::Blank]);
        assert(lines_view(seq![Line::Blank]) =~= seq![LineModel::Blank]);
        assert(lines_view(r@) =~= seq![LineModel::Blank, LineModel::Success(msg@)] + lines_of_details(details@)
            + seq![LineModel::Blank]);
    }
    r
}

/// The values of two lists of lines written one after the other.
pub proof fn lemma_lines_view_concat(a: Seq<Line>, b: Seq<Line>)
    ensures
        lines_view(a + b) == lines_view(a) + lines_view(b),
{
    assert(lines_view(a + b) =~= lines_view(a) + lines_view(b));
}

} // verus!
