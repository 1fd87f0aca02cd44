//! The one-line description editor: what each key or paste does to the
//! text and its cursor, and how the line is drawn.
use vstd::prelude::*;
use vstd::string::StringExecFns;

use super::keys::Key;
use crate::style::{GREY, RESET};
use crate::text::{chars_of, replace_chars, replace_spec, string_from};

verus! {

/// The text being edited and the cursor, counted in characters.
pub struct Editor {
    pub buffer: Vec<char>,
    pub cursor: usize,
}

impl Editor {
    /// The cursor is within the text.
    pub open spec fn wf(&self) -> bool {
        self.cursor <= self.buffer@.len()
    }
}

/// An input to the editor: a key, or pasted text.
pub enum EditorInput {
    Key(Key),
    Paste(String),
}

/// What an input leads to.
pub enum EditorOutcome {
    /// Keep editing.
    Continue,
    /// Editing ended with this description (empty when escaped).
    Done(String),
    /// Editing was cancelled with Ctrl+C.
    Cancelled,
}

/// The mathematical value of an outcome: `None` to go on, else the
/// description or the error.
pub open spec fn outcome_view(o: EditorOutcome) -> Option<Result<Seq<char>, Seq<char>>> {
    match o {
        EditorOutcome::Continue => None,
        EditorOutcome::Done(s) => Some(Ok(s@)),
        EditorOutcome::Cancelled => Some(Err("Cancelled by user"@)),
    }
}

/// Pasted text with its line breaks made `\n`: first `\r\n`, then any
/// lone `\r`.
pub open spec fn clean_paste(t: Seq<char>) -> Seq<char> {
    replace_spec(replace_spec(t, seq!['\r', '\n'], seq!['\n']), seq!['\r'], seq!['\n'])
}

/// `ins` inserted into `b` at `at`.
pub open spec fn insert_at(b: Seq<char>, at: int, ins: Seq<char>) -> Seq<char> {
    b.take(at) + ins + b.skip(at)
}

/// What a key does: the new text, the new cursor, and the outcome.
pub open spec fn key_spec(b: Seq<char>, c: int, k: Key) -> (Seq<char>, int, Option<Result<Seq<char>, Seq<char>>>) {
    match k {
        Key::Enter | Key::Char { c: '\n', .. } | Key::Char { c: '\r', .. } => (b, c, Some(Ok(b))),
        Key::Esc => (b, c, Some(Ok(seq![]))),
        Key::Char { c: 'c', ctrl: true } => (b, c, Some(Err("Cancelled by user"@))),
        Key::Char { c: ch, .. } => (insert_at(b, c, seq![ch]), c + 1, None),
        Key::Backspace => if c > 0 {
            (b.remove(c - 1), c - 1, None)
        } else {
            (b, c, None)
        },
        Key::Delete => if c < b.len() {
            (b.remove(c), c, None)
        } else {
            (b, c, None)
        },
        Key::Left => (b, if c > 0 {
            c - 1
        } else {
            c
        }, None),
        Key::Right => (b, if c < b.len() {
            c + 1
        } else {
            c
        }, None),
        Key::Home => (b, 0, None),
        Key::End => (b, b.len() as int, None),
        _ => (b, c, None),
    }
}

/// What an input does: a key as above; a paste inserts the cleaned text
/// at the cursor and moves the cursor past it.
pub open spec fn input_spec(b: Seq<char>, c: int, i: EditorInput) -> (Seq<char>, int, Option<
    Result<Seq<char>, Seq<char>>,
>) {
    match i {
        EditorInput::Key(k) => key_spec(b, c, k),
        EditorInput::Paste(t) => {
            let cl = clean_paste(t@);
            (insert_at(b, c, cl), c + cl.len(), None)
        },
    }
}

/// An empty editor.
pub fn editor_start() -> (r: Editor)
    ensures
        r.buffer@ == Seq::<char>::empty(),
        r.cursor == 0,
{
    Editor { buffer: Vec::new(), cursor: 0 }
}

/// Pasted text with its line breaks made `\n`.
pub fn clean_paste_exec(t: &str) -> (r: Vec<char>)
    ensures
        r@ == clean_paste(t@),
{
    let crlf = vec!['\r', '\n'];
    let lf = vec!['\n'];
    let cr = vec!['\r'];
    assert(crlf@ =~= seq!['\r', '\n']);
    assert(lf@ =~= seq!['\n']);
    assert(cr@ =~= seq!['\r']);
    let a = replace_chars(&chars_of(t), &crlf, &lf);
    replace_chars(&a, &cr, &lf)
}

impl Editor {
    /// Inserts text at the cursor and moves the cursor past it.
    fn insert(&mut self, ins: &Vec<char>)
        requires
            old(self).wf(),
            old(self).buffer@.len() + ins@.len() <= usize::MAX,
        ensures
            final(self).wf(),
            final(self).buffer@ == insert_at(old(self).buffer@, old(self).cursor as int, ins@),
            final(self).cursor == old(self).cursor + ins@.len(),
    {
        let mut nb: Vec<char> = Vec::new();
        let mut i: usize = 0;
        while i < self.cursor
            invariant
                i <= self.cursor <= self.buffer@.len(),
                nb@ == self.buffer@.take(i as int),
            decreases self.cursor - i,
        {
            nb.push(self.buffer[i]);
            i = i + 1;
            assert(nb@ =~= self.buffer@.take(i as int));
        }
        let mut j: usize = 0;
        while j < ins.len()
            invariant
                j <= ins@.len(),
                self.cursor <= self.buffer@.len(),
                nb@ == self.buffer@.take(self.cursor as int) + ins@.take(j as int),
            decreases ins.len() - j,
        {
            nb.push(ins[j]);
            j = j + 1;
            assert(nb@ =~= self.buffer@.take(self.cursor as int) + ins@.take(j as int));
        }
        let mut k: usize = self.cursor;
        while k < self.buffer.len()
            invariant
                self.cursor <= k <= self.buffer@.len(),
                nb@ == self.buffer@.take(self.cursor as int) + ins@ + self.buffer@.subrange(
                    self.cursor as int,
                    k as int,
                ),
            decreases self.buffer.len() - k,
        {
            assert(ins@.take(ins@.len() as int) =~= ins@);
            nb.push(self.buffer[k]);
            k = k + 1;
            assert(nb@ =~= self.buffer@.take(self.cursor as int) + ins@ + self.buffer@.subrange(
                self.cursor as int,
                k as int,
            ));
        }
        assert(ins@.take(ins@.len() as int) =~= ins@);
        assert(self.buffer@.subrange(self.cursor as int, self.buffer@.len() as int) =~= self.buffer@.skip(
            self.cursor as int,
        ));
        self.buffer = nb;
        self.cursor = self.cursor + ins.len();
    }

    /// What an input does to the editor.
    pub fn input(&mut self, input: EditorInput) -> (r: EditorOutcome)
        requires
            old(self).wf(),
            old(self).buffer@.len() + match input {
                EditorInput::Key(_) => 1,
                EditorInput::Paste(t) => t@.len(),
            } <= usize::MAX,
        ensures
            final(self).wf(),
            (final(self).buffer@, final(self).cursor as int, outcome_view(r)) == input_spec(
                old(self).buffer@,
                old(self).cursor as int,
                input,
            ),
    {
        match input {
            EditorInput::Paste(t) => {
                let cl = clean_paste_exec(t.as_str());
                proof {
                    lemma_clean_paste_len(t@);
                }
                self.insert(&cl);
                EditorOutcome::Continue
            },
            EditorInput::Key(k) => self.key(k),
        }
    }

    /// What a key does to the editor.
    fn key(&mut self, k: Key) -> (r: EditorOutcome)
        requires
            old(self).wf(),
            old(self).buffer@.len() + 1 <= usize::MAX,
        ensures
            final(self).wf(),
            (final(self).buffer@, final(self).cursor as int, outcome_view(r)) == key_spec(
                old(self).buffer@,
                old(self).cursor as int,
                k,
            ),
    {
        match k {
            Key::Enter | Key::Char { c: '\n', .. } | Key::Char { c: '\r', .. } => {
                EditorOutcome::Done(string_from(self.buffer.as_slice()))
            },
            Key::Esc => {
                let r = String::new();
                EditorOutcome::Done(r)
            },
            Key::Char { c: 'c', ctrl: true } => EditorOutcome::Cancelled,
            Key::Char { c, .. } => {
                let ins = vec![c];
                assert(ins@ =~= seq![c]);
                self.insert(&ins);
                EditorOutcome::Continue
            },
            Key::Backspace => {
                if self.cursor > 0 {
                    self.cursor = self.cursor - 1;
                    self.buffer.remove(self.cursor);
                }
                EditorOutcome::Continue
            },
            Key::Delete => {
                if self.cursor < self.buffer.len() {
                    self.buffer.remove(self.cursor);
                }
                EditorOutcome::Continue
            },
            Key::Left => {
                if self.cursor > 0 {
                    self.cursor = self.cursor - 1;
                }
                EditorOutcome::Continue
            },
            Key::Right => {
                if self.cursor < self.buffer.len() {
                    self.cursor = self.cursor + 1;
                }
                EditorOutcome::Continue
            },
            Key::Home => {
                self.cursor = 0;
                EditorOutcome::Continue
            },
            Key::End => {
                self.cursor = self.buffer.len();
                EditorOutcome::Continue
            },
            _ => EditorOutcome::Continue,
        }
    }
}

/// Replacing never lengthens a text when the replacement is no longer
/// than what it replaces.
proof fn lemma_replace_not_longer(s: Seq<char>, from: Seq<char>, to: Seq<char>)
    requires
        from.len() > 0,
        to.len() <= from.len(),
    ensures
        replace_spec(s, from, to).len() <= s.len(),
    decreases s.len(),
{
    if s.len() >= from.len() {
        if s.take(from.len() as int) == from {
            lemma_replace_not_longer(s.skip(from.len() as int), from, to);
        } else {
            lemma_replace_not_longer(s.drop_first(), from, to);
        }
    }
}

/// Cleaning a paste never lengthens it.
proof fn lemma_clean_paste_len(t: Seq<char>)
    ensures
        clean_paste(t).len() <= t.len(),
{
    lemma_replace_not_longer(t, seq!['\r', '\n'], seq!['\n']);
    lemma_replace_not_longer(replace_spec(t, seq!['\r', '\n'], seq!['\n']), seq!['\r'], seq!['\n']);
}

// ── Drawing ──────────────────────────────────────────────

/// What stands for a line break on screen.
pub open spec fn break_mark() -> Seq<char> {
    " "@ + GREY@ + "↵"@ + RESET@ + " "@
}

/// The text as shown: each line break drawn as a mark.
pub open spec fn display_spec(b: Seq<char>) -> Seq<char> {
    replace_spec(b, seq!['\n'], break_mark())
}

/// How many columns a text takes: a line break's mark takes three.
pub open spec fn columns(b: Seq<char>) -> nat
    decreases b.len(),
{
    if b.len() == 0 {
        0
    } else {
        columns(b.drop_last()) + if b.last() == '\n' {
            3nat
        } else {
            1nat
        }
    }
}

/// The prompt before the description.
pub open spec fn prompt_spec() -> Seq<char> {
    GREY@ + "    "@ + RESET@ + "Description (optional): "@
}

/// The prompt before the description.
pub fn description_prompt() -> (r: String)
    ensures
        r@ == prompt_spec(),
{
    let mut s = String::new();
    s.append(GREY);
    s.append("    ");
    s.append(RESET);
    s.append("Description (optional): ");
    proof {
        assert(s@ =~= prompt_spec());
    }
    s
}

impl Editor {
    /// The text as drawn, and the column of the cursor after the prompt.
    pub fn render(&self) -> (r: (String, usize))
        requires
            self.wf(),
            3 * self.buffer@.len() <= usize::MAX,
        ensures
            r.0@ == display_spec(self.buffer@),
            r.1 == columns(self.buffer@.take(self.cursor as int)),
    {
        let mut mark = String::new();
        mark.append(" ");
        mark.append(GREY);
        mark.append("↵");
        mark.append(RESET);
        mark.append(" ");
        let nl = vec!['\n'];
        assert(nl@ =~= seq!['\n']);
        assert(mark@ =~= break_mark());
        let shown = replace_chars(&self.buffer, &nl, &chars_of(mark.as_str()));
        let mut col: usize = 0;
        let mut i: usize = 0;
        while i < self.cursor
            invariant
                i <= self.cursor <= self.buffer@.len(),
                3 * self.buffer@.len() <= usize::MAX,
                col == columns(self.buffer@.take(i as int)),
                col <= 3 * i,
            decreases self.cursor - i,
        {
            assert(self.buffer@.take(i as int + 1).drop_last() =~= self.buffer@.take(i as int));
            if self.buffer[i] == '\n' {
                col = col + 3;
            } else {
                col = col + 1;
            }
            i = i + 1;
        }
        (string_from(shown.as_slice()), col)
    }
}

// ── Laws ─────────────────────────────────────────────────

/// Typing a character and then erasing it gives back the text and the
/// cursor.
pub proof fn law_type_then_erase_restores(b: Seq<char>, c: int, ch: char, ctrl: bool)
    requires
        0 <= c <= b.len(),
        ch != '\n' && ch != '\r',
        !(ch == 'c' && ctrl),
    ensures
        ({
            let typed = key_spec(b, c, Key::Char { c: ch, ctrl });
            let erased = key_spec(typed.0, typed.1, Key::Backspace);
            &&& typed.2 is None
            &&& erased.0 == b
            &&& erased.1 == c
        }),
{
    let typed = key_spec(b, c, Key::Char { c: ch, ctrl });
    assert(typed.0 =~= b.take(c) + seq![ch] + b.skip(c));
    assert(typed.0.remove(c) =~= b);
}

/// A paste, once cleaned, holds no carriage return.
pub proof fn law_paste_has_no_carriage_return(t: Seq<char>)
    ensures
        !clean_paste(t).contains('\r'),
{
    lemma_replace_removes(replace_spec(t, seq!['\r', '\n'], seq!['\n']), '\r', '\n');
}

proof fn lemma_replace_removes(s: Seq<char>, a: char, b: char)
    requires
        a != b,
    ensures
        !replace_spec(s, seq![a], seq![b]).contains(a),
    decreases s.len(),
{
    if s.len() >= 1 {
        if s.take(1) == seq![a] {
            lemma_replace_removes(s.skip(1), a, b);
            let rest = replace_spec(s.skip(1), seq![a], seq![b]);
            assert(replace_spec(s, seq![a], seq![b]) == seq![b] + rest);
            assert forall|i: int| 0 <= i < (seq![b] + rest).len() implies (seq![b] + rest)[i] != a by {
                if i > 0 {
                    assert((seq![b] + rest)[i] == rest[i - 1]);
                }
            }
        } else {
            lemma_replace_removes(s.drop_first(), a, b);
            let rest = replace_spec(s.drop_first(), seq![a], seq![b]);
            assert(s[0] != a) by {
                if s[0] == a {
                    assert(s.take(1) =~= seq![a]);
                }
            }
            assert forall|i: int| 0 <= i < (seq![s[0]] + rest).len() implies (seq![s[0]] + rest)[i] != a by {
                if i > 0 {
                    assert((seq![s[0]] + rest)[i] == rest[i - 1]);
                }
            }
        }
    } else {
        assert(replace_spec(s, seq![a], seq![b]) == s);
    }
}

} // verus!
