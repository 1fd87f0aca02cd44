//! Reading `git status --porcelain`.
use vstd::prelude::*;

use super::common::{GitOutput, owned_args, arg_views};
use super::types::{FileChange, FileStatus};
use crate::text::{chars_of, lines_chars, lines_spec, slice_chars, string_from, views};

verus! {

/// How many bytes UTF-8 needs for a character.
pub open spec fn char_utf8_len(c: char) -> nat {
    if (c as u32) < 0x80 {
        1
    } else if (c as u32) < 0x800 {
        2
    } else if (c as u32) < 0x10000 {
        3
    } else {
        4
    }
}

/// How many bytes UTF-8 needs for a text (`str::len`).
pub open spec fn utf8_len(s: Seq<char>) -> nat
    decreases s.len(),
{
    if s.len() == 0 {
        0
    } else {
        utf8_len(s.drop_last()) + char_utf8_len(s.last())
    }
}

/// The first `k` characters take exactly three bytes.
pub open spec fn three_bytes_at(line: Seq<char>, k: int) -> bool {
    0 <= k <= line.len() && utf8_len(line.take(k)) == 3
}

/// A status line can be read: it is shorter than three bytes, or its
/// third byte ends a character (else `line[3..]` would panic).
pub open spec fn status_line_ok(line: Seq<char>) -> bool {
    utf8_len(line) < 3 || exists|k: int| three_bytes_at(line, k)
}

/// Where the path of a status line starts: after the characters that
/// make up its first three bytes.
pub open spec fn path_start(line: Seq<char>) -> int {
    choose|k: int| three_bytes_at(line, k)
}

/// The status of a line, from its first two bytes (`XY`): `??`
/// untracked, an `A` added, a `D` deleted, `R` in the index renamed,
/// anything else modified. A non-ASCII first character puts no ASCII
/// letter in either byte.
pub open spec fn status_of(line: Seq<char>) -> FileStatus {
    let x = line[0];
    let y_is = |ch: char| (line[0] as u32) < 0x80 && line[1] == ch;
    if x == '?' && y_is('?') {
        FileStatus::Untracked
    } else if x == 'A' || y_is('A') {
        FileStatus::Added
    } else if x == 'D' || y_is('D') {
        FileStatus::Deleted
    } else if x == 'R' {
        FileStatus::Renamed
    } else {
        FileStatus::Modified
    }
}

/// The change a status line reports; lines under three bytes report none.
pub open spec fn status_entry(line: Seq<char>) -> Option<(Seq<char>, FileStatus)> {
    if utf8_len(line) < 3 {
        None
    } else {
        Some((line.skip(path_start(line)), status_of(line)))
    }
}

/// The changes that the lines report, in order.
pub open spec fn status_entries(lines: Seq<Seq<char>>) -> Seq<(Seq<char>, FileStatus)>
    decreases lines.len(),
{
    if lines.len() == 0 {
        seq![]
    } else {
        let rest = status_entries(lines.drop_last());
        match status_entry(lines.last()) {
            Some(e) => rest.push(e),
            None => rest,
        }
    }
}

/// The values of a list of changes.
pub open spec fn change_views(v: Seq<FileChange>) -> Seq<(Seq<char>, FileStatus)> {
    v.map_values(|c: FileChange| (c.path@, c.status))
}

/// Every line of the output can be read.
pub open spec fn status_output_ok(stdout: Seq<char>) -> bool {
    forall|i: int| 0 <= i < lines_spec(stdout).len() ==> status_line_ok(#[trigger] lines_spec(stdout)[i])
}

proof fn lemma_utf8_take_step(s: Seq<char>, k: int)
    requires
        0 <= k < s.len(),
    ensures
        utf8_len(s.take(k + 1)) == utf8_len(s.take(k)) + char_utf8_len(s[k]),
{
    assert(s.take(k + 1).drop_last() =~= s.take(k));
}

proof fn lemma_utf8_take_mono(s: Seq<char>, a: int, b: int)
    requires
        0 <= a < b <= s.len(),
    ensures
        utf8_len(s.take(a)) < utf8_len(s.take(b)),
    decreases b - a,
{
    lemma_utf8_take_step(s, b - 1);
    if a < b - 1 {
        lemma_utf8_take_mono(s, a, b - 1);
    }
}

proof fn lemma_utf8_whole(s: Seq<char>)
    ensures
        utf8_len(s.take(s.len() as int)) == utf8_len(s),
{
    assert(s.take(s.len() as int) =~= s);
}

/// The arguments of the status command.
pub fn status_args() -> (r: Vec<String>)
    ensures
        arg_views(r@) == seq!["status"@, "--porcelain"@],
{
    let r = owned_args(&["status", "--porcelain"]);
    assert(arg_views(r@) =~= seq!["status"@, "--porcelain"@]);
    r
}

/// The change one readable line reports.
fn read_status_line(line: &Vec<char>) -> (r: Option<FileChange>)
    requires
        status_line_ok(line@),
    ensures
        match r {
            Some(c) => status_entry(line@) == Some((c.path@, c.status)),
            None => status_entry(line@) is None,
        },
{
    // Count characters until three bytes are consumed.
    let mut k: usize = 0;
    let mut bytes: usize = 0;
    while k < line.len() && bytes < 3
        invariant
            k <= line.len(),
            bytes == utf8_len(line@.take(k as int)),
            k > 0 ==> utf8_len(line@.take(k - 1)) < 3,
        decreases line.len() - k,
    {
        let c = line[k];
        let n: usize = if (c as u32) < 0x80 {
            1
        } else if (c as u32) < 0x800 {
            2
        } else if (c as u32) < 0x10000 {
            3
        } else {
            4
        };
        proof {
            lemma_utf8_take_step(line@, k as int);
        }
        bytes = bytes + n;
        k = k + 1;
    }
    if bytes < 3 {
        proof {
            lemma_utf8_whole(line@);
        }
        return None;
    }
    proof {
        if k < line.len() {
            lemma_utf8_take_mono(line@, k as int, line.len() as int);
        }
        lemma_utf8_whole(line@);
    }
    assert(utf8_len(line@) >= 3);
    if bytes != 3 {
        // The third byte is inside a character; such a line is not readable.
        proof {
            let j = choose|j: int| three_bytes_at(line@, j);
            if j < k {
                if j < k - 1 {
                    lemma_utf8_take_mono(line@, j, k - 1);
                }
            } else if j > k {
                lemma_utf8_take_mono(line@, k as int, j);
            }
        }
        return None;
    }
    proof {
        assert(three_bytes_at(line@, k as int));
        let j = path_start(line@);
        assert(three_bytes_at(line@, j));
        if j < k {
            lemma_utf8_take_mono(line@, j, k as int);
        } else if j > k {
            lemma_utf8_take_mono(line@, k as int, j);
        }
        assert(j == k);
        lemma_utf8_take_step(line@, 0);
        if (line@[0] as u32) < 0x80 {
            assert(line@.take(0) =~= Seq::<char>::empty());
            assert(k >= 2) by {
                if k < 2 {
                    assert(k == 1);
                }
            }
        }
    }
    let x = line[0];
    let ascii0 = (x as u32) < 0x80;
    let status = if x == '?' && ascii0 && line[1] == '?' {
        FileStatus::Untracked
    } else if x == 'A' || (ascii0 && line[1] == 'A') {
        FileStatus::Added
    } else if x == 'D' || (ascii0 && line[1] == 'D') {
        FileStatus::Deleted
    } else if x == 'R' {
        FileStatus::Renamed
    } else {
        FileStatus::Modified
    };
    let path = slice_chars(line, k, line.len());
    assert(path@ =~= line@.skip(k as int));
    Some(FileChange { path: string_from(path.as_slice()), status })
}

fn char_len(c: char) -> (r: usize)
    ensures
        r == char_utf8_len(c),
{
    let v = c as u32;
    if v < 0x80 {
        1
    } else if v < 0x800 {
        2
    } else if v < 0x10000 {
        3
    } else {
        4
    }
}

/// Whether a status line can be read.
fn line_readable(line: &Vec<char>) -> (r: bool)
    ensures
        r == status_line_ok(line@),
{
    let ghost l = line@;
    let mut acc: usize = 0;
    let mut k: usize = 0;
    while k < line.len() && acc < 3
        invariant
            k <= l.len(),
            l == line@,
            acc == utf8_len(l.take(k as int)),
            forall|j: int| 0 <= j < k ==> utf8_len(#[trigger] l.take(j)) < 3,
        decreases line.len() - k,
    {
        proof {
            lemma_utf8_take_step(l, k as int);
        }
        acc = acc + char_len(line[k]);
        k = k + 1;
    }
    if acc < 3 {
        proof {
            assert(k == l.len());
            lemma_utf8_whole(l);
        }
        true
    } else if acc == 3 {
        assert(three_bytes_at(l, k as int));
        true
    } else {
        proof {
            if k < l.len() {
                lemma_utf8_take_mono(l, k as int, l.len() as int);
            }
            lemma_utf8_whole(l);
            assert forall|j: int| !three_bytes_at(l, j) by {
                if 0 <= j <= l.len() {
                    if j < k {
                    } else if j > k {
                        lemma_utf8_take_mono(l, k as int, j);
                    }
                }
            }
        }
        false
    }
}

/// Whether every line of a status output can be read.
pub fn status_readable(stdout: &str) -> (r: bool)
    ensures
        r == status_output_ok(stdout@),
{
    let lines = lines_chars(&chars_of(stdout));
    let ghost ls = lines_spec(stdout@);
    let mut i: usize = 0;
    while i < lines.len()
        invariant
            i <= lines@.len(),
            views(lines@) == ls,
            ls == lines_spec(stdout@),
            forall|j: int| 0 <= j < i ==> status_line_ok(#[trigger] ls[j]),
        decreases lines.len() - i,
    {
        assert(ls[i as int] == lines@[i as int]@);
        if !line_readable(&lines[i]) {
            return false;
        }
        i = i + 1;
    }
    true
}

/// The changes that `git status --porcelain` reported.
pub fn get_status(out: &GitOutput) -> (r: Result<Vec<FileChange>, String>)
    requires
        out.success ==> status_output_ok(out.stdout@),
    ensures
        match r {
            Ok(v) => out.success && change_views(v@) == status_entries(lines_spec(out.stdout@)),
            Err(e) => !out.success && e@ == "Not a git repository"@,
        },
{
    if !out.success {
        return Err("Not a git repository".to_owned());
    }
    let text = chars_of(out.stdout.as_str());
    let lines = lines_chars(&text);
    let ghost ls = lines_spec(out.stdout@);
    let mut changes: Vec<FileChange> = Vec::new();
    let mut i: usize = 0;
    while i < lines.len()
        invariant
            i <= lines.len(),
            views(lines@) == ls,
            status_output_ok(out.stdout@),
            ls == lines_spec(out.stdout@),
            change_views(changes@) == status_entries(ls.take(i as int)),
        decreases lines.len() - i,
    {
        proof {
            assert(ls[i as int] == lines@[i as int]@);
            assert(ls.take(i + 1).drop_last() =~= ls.take(i as int));
            assert(ls.take(i + 1).last() == ls[i as int]);
        }
        let ghost before = changes@;
        match read_status_line(&lines[i]) {
            Some(c) => {
                changes.push(c);
                assert(change_views(changes@) =~= change_views(before).push((c.path@, c.status)));
            },
            None => {},
        }
        i = i + 1;
    }
    assert(ls.take(i as int) =~= ls);
    Ok(changes)
}

} // verus!
