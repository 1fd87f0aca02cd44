//! Pieces of the interactive displays: rows with a cursor, headers, help
//! lines and the line a finished choice leaves behind.
use vstd::prelude::*;
use vstd::string::StringExecFns;

use crate::style::{BG_SELECT, BOLD, CYAN, DIM, NAV_ARROWS, POINTER, RESET};
use crate::text::{byte_len, pad_right, pad_right_exec};
use vstd::string::StrSliceExecFns;

verus! {

/// The selection background, on the cursor's row only.
pub open spec fn bg(cur: bool) -> Seq<char> {
    if cur {
        BG_SELECT@
    } else {
        seq![]
    }
}

/// The reset that ends the selection background, on the cursor's row only.
pub open spec fn end_bg(cur: bool) -> Seq<char> {
    if cur {
        RESET@
    } else {
        seq![]
    }
}

/// The pointer column: a colored pointer on the cursor's row, a space elsewhere.
pub open spec fn pointer(cur: bool) -> Seq<char> {
    if cur {
        CYAN@ + POINTER@ + RESET@
    } else {
        " "@
    }
}

/// The start of a row, up to its text.
pub open spec fn row_start(cur: bool) -> Seq<char> {
    "  "@ + bg(cur) + " "@ + pointer(cur) + "  "@
}

/// The end of a row, after its text.
pub open spec fn row_end(cur: bool) -> Seq<char> {
    end_bg(cur) + RESET@ + "\r\n"@
}

/// A row of a selector: the name in bold, padded to `width`, then `tail`.
pub open spec fn entry_row(cur: bool, name: Seq<char>, tail: Seq<char>, width: int) -> Seq<char> {
    row_start(cur) + BOLD@ + pad_right(name, width) + RESET@ + bg(cur) + "  "@ + tail + row_end(cur)
}

/// The header of a selector: its title, then a hint while nothing is
/// typed, else the typed filter.
pub open spec fn header_spec(title: Seq<char>, hint: Seq<char>, filter: Seq<char>) -> Seq<char> {
    if filter.len() == 0 {
        "\r\n  "@ + BOLD@ + "  "@ + title + RESET@ + " "@ + DIM@ + hint + RESET@ + "\r\n\r\n"@
    } else {
        "\r\n  "@ + BOLD@ + "  "@ + title + RESET@ + "  "@ + DIM@ + "/"@ + RESET@ + CYAN@ + filter
            + RESET@ + "\r\n\r\n"@
    }
}

/// The help line of a selector; `verb` says what typing does.
pub open spec fn footer_spec(verb: Seq<char>) -> Seq<char> {
    "\r\n  "@ + DIM@ + NAV_ARROWS@ + RESET@ + " move  "@ + DIM@ + "type"@ + RESET@ + " "@ + verb + "  "@
        + DIM@ + "enter"@ + RESET@ + " select  "@ + DIM@ + "esc"@ + RESET@ + " cancel"@
}

/// The line shown when a filter matches nothing.
pub open spec fn no_matches_spec() -> Seq<char> {
    "    "@ + DIM@ + "no matches"@ + RESET@ + "\r\n"@
}

/// What stays on screen once a choice is made: the title, then `body`.
pub open spec fn choice_spec(title: Seq<char>, body: Seq<char>) -> Seq<char> {
    "\r\n  "@ + BOLD@ + "  "@ + title + RESET@ + "  "@ + body + "\r\n\r\n"@
}

/// A chosen value, highlighted, with an optional dimmed note after it.
pub open spec fn value_spec(value: Seq<char>, note: Option<Seq<char>>) -> Seq<char> {
    CYAN@ + value + RESET@ + match note {
        Some(n) => " "@ + DIM@ + n + RESET@,
        None => seq![],
    }
}

/// The widest of the names, in bytes (0 for none).
pub open spec fn max_width(names: Seq<Seq<char>>) -> nat
    decreases names.len(),
{
    if names.len() == 0 {
        0
    } else {
        let w = byte_len(names.last()) as nat;
        let r = max_width(names.drop_last());
        if w > r {
            w
        } else {
            r
        }
    }
}

/// Appends the left part of a list row: indent, highlight and pointer when the row is under the cursor.
pub fn push_row_start(s: &mut String, cur: bool)
    ensures
        final(s)@ == old(s)@ + row_start(cur),
{
    s.append("  ");
    if cur {
        s.append(BG_SELECT);
    }
    s.append(" ");
    if cur {
        s.append(CYAN);
        s.append(POINTER);
        s.append(RESET);
    } else {
        s.append(" ");
    }
    s.append("  ");
    proof {
        assert(final(s)@ =~= old(s)@ + row_start(cur));
    }
}

/// Appends the reset codes that close a list row.
pub fn push_row_end(s: &mut String, cur: bool)
    ensures
        final(s)@ == old(s)@ + row_end(cur),
{
    if cur {
        s.append(RESET);
    }
    s.append(RESET);
    s.append("\r\n");
    proof {
        assert(final(s)@ =~= old(s)@ + row_end(cur));
    }
}

/// Appends a selector row.
pub fn push_entry_row(s: &mut String, cur: bool, name: &str, tail: &str, width: usize)
    ensures
        final(s)@ == old(s)@ + entry_row(cur, name@, tail@, width as int),
{
    push_row_start(s, cur);
    s.append(BOLD);
    s.append(pad_right_exec(name, width).as_str());
    s.append(RESET);
    if cur {
        s.append(BG_SELECT);
    }
    s.append("  ");
    s.append(tail);
    push_row_end(s, cur);
    proof {
        assert(final(s)@ =~= old(s)@ + entry_row(cur, name@, tail@, width as int));
    }
}

/// The header of a selector.
pub fn header_text(title: &str, hint: &str, filter: &str) -> (r: String)
    ensures
        r@ == header_spec(title@, hint@, filter@),
{
    let mut s = String::new();
    s.append("\r\n  ");
    s.append(BOLD);
    s.append("  ");
    s.append(title);
    s.append(RESET);
    if filter.unicode_len() == 0 {
        s.append(" ");
        s.append(DIM);
        s.append(hint);
        s.append(RESET);
    } else {
        s.append("  ");
        s.append(DIM);
        s.append("/");
        s.append(RESET);
        s.append(CYAN);
        s.append(filter);
        s.append(RESET);
    }
    s.append("\r\n\r\n");
    proof {
        assert(s@ =~= header_spec(title@, hint@, filter@));
    }
    s
}

/// The help line of a selector.
pub fn footer_text(verb: &str) -> (r: String)
    ensures
        r@ == footer_spec(verb@),
{
    let mut s = String::new();
    s.append("\r\n  ");
    s.append(DIM);
    s.append(NAV_ARROWS);
    s.append(RESET);
    s.append(" move  ");
    s.append(DIM);
    s.append("type");
    s.append(RESET);
    s.append(" ");
    s.append(verb);
    s.append("  ");
    s.append(DIM);
    s.append("enter");
    s.append(RESET);
    s.append(" select  ");
    s.append(DIM);
    s.append("esc");
    s.append(RESET);
    s.append(" cancel");
    proof {
        assert(s@ =~= footer_spec(verb@));
    }
    s
}

/// The line shown when a filter matches nothing.
pub fn no_matches_text() -> (r: String)
    ensures
        r@ == no_matches_spec(),
{
    let mut s = String::new();
    s.append("    ");
    s.append(DIM);
    s.append("no matches");
    s.append(RESET);
    s.append("\r\n");
    proof {
        assert(s@ =~= no_matches_spec());
    }
    s
}

/// What stays on screen once a choice is made.
pub fn choice_text(title: &str, body: &str) -> (r: String)
    ensures
        r@ == choice_spec(title@, body@),
{
    let mut s = String::new();
    s.append("\r\n  ");
    s.append(BOLD);
    s.append("  ");
    s.append(title);
    s.append(RESET);
    s.append("  ");
    s.append(body);
    s.append("\r\n\r\n");
    proof {
        assert(s@ =~= choice_spec(title@, body@));
    }
    s
}

/// A chosen value, highlighted, with an optional dimmed note after it.
pub fn value_text(value: &str, note: Option<&str>) -> (r: String)
    ensures
        r@ == value_spec(value@, match note {
            Some(n) => Some(n@),
            None => None,
        }),
{
    let mut s = String::new();
    s.append(CYAN);
    s.append(value);
    s.append(RESET);
    match note {
        Some(n) => {
            s.append(" ");
            s.append(DIM);
            s.append(n);
            s.append(RESET);
        },
        None => {},
    }
    proof {
        assert(s@ =~= value_spec(value@, match note {
            Some(n) => Some(n@),
            None => None,
        }));
    }
    s
}

/// The widest of the names, in bytes.
pub fn max_width_exec(names: &Vec<String>) -> (r: usize)
    ensures
        r == max_width(names@.map_values(|n: String| n@)),
{
    let ghost ns = names@.map_values(|n: String| n@);
    let mut m: usize = 0;
    let mut i: usize = 0;
    while i < names.len()
        invariant
            i <= names.len(),
            ns == names@.map_values(|n: String| n@),
            m == max_width(ns.take(i as int)),
        decreases names.len() - i,
    {
        let w = names[i].as_str().len();
        proof {
            assert(ns.take(i as int + 1).drop_last() =~= ns.take(i as int));
            assert(ns.take(i as int + 1).last() == names@[i as int]@);
        }
        if w > m {
            m = w;
        }
        i = i + 1;
    }
    assert(ns.take(names@.len() as int) =~= ns);
    m
}

} // verus!
