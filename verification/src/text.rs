//! Character-level text operations with their mathematical meaning.
//!
//! Every function here works on sequences of `char`; the spec functions
//! state what the corresponding `str` operation of Rust computes.
use vstd::prelude::*;
use vstd::std_specs::iter::IteratorSpec;
use vstd::string::{StrSliceExecFns, StringExecFns};

verus! {

// ── Specifications ─────────────────────────────────────────

/// The Unicode `White_Space` property, as `char::is_whitespace` defines it.
pub open spec fn is_ws(c: char) -> bool {
    ||| c == '\t' || c == '\n' || c == '\x0B' || c == '\x0C' || c == '\r' || c == ' '
    ||| c == '\u{85}' || c == '\u{A0}' || c == '\u{1680}'
    ||| ('\u{2000}' <= c && c <= '\u{200A}')
    ||| c == '\u{2028}' || c == '\u{2029}' || c == '\u{202F}' || c == '\u{205F}'
    ||| c == '\u{3000}'
}

/// `s` with its leading whitespace removed.
pub open spec fn trim_start_spec(s: Seq<char>) -> Seq<char>
    decreases s.len(),
{
    if s.len() > 0 && is_ws(s[0]) {
        trim_start_spec(s.drop_first())
    } else {
        s
    }
}

/// `s` with its trailing whitespace removed.
pub open spec fn trim_end_spec(s: Seq<char>) -> Seq<char>
    decreases s.len(),
{
    if s.len() > 0 && is_ws(s.last()) {
        trim_end_spec(s.drop_last())
    } else {
        s
    }
}

/// `str::trim`: whitespace removed from both ends.
pub open spec fn trim_spec(s: Seq<char>) -> Seq<char> {
    trim_end_spec(trim_start_spec(s))
}

/// `p` is a prefix of `s`.
pub open spec fn starts_with_spec(s: Seq<char>, p: Seq<char>) -> bool {
    p.len() <= s.len() && s.take(p.len() as int) == p
}

/// `p` is a suffix of `s`.
pub open spec fn ends_with_spec(s: Seq<char>, p: Seq<char>) -> bool {
    p.len() <= s.len() && s.skip(s.len() - p.len()) == p
}

/// `pat` occurs in `s` at position `i`.
pub open spec fn occurs_at(s: Seq<char>, pat: Seq<char>, i: int) -> bool {
    0 <= i && i + pat.len() <= s.len() && s.subrange(i, i + pat.len()) == pat
}

/// `pat` occurs somewhere in `s` (`str::contains`).
pub open spec fn contains_spec(s: Seq<char>, pat: Seq<char>) -> bool {
    exists|i: int| occurs_at(s, pat, i)
}

/// The first position at or after `from` where `pat` occurs, if any.
pub open spec fn find_from(s: Seq<char>, pat: Seq<char>, from: int) -> Option<int>
    decreases s.len() + 1 - from,
{
    if from < 0 || from + pat.len() > s.len() {
        None
    } else if occurs_at(s, pat, from) {
        Some(from)
    } else {
        find_from(s, pat, from + 1)
    }
}

/// `str::replace` for a non-empty pattern: every occurrence of `from`,
/// found left to right without overlap, is replaced by `to`.
pub open spec fn replace_spec(s: Seq<char>, from: Seq<char>, to: Seq<char>) -> Seq<char>
    decreases s.len(),
{
    if from.len() == 0 || s.len() < from.len() {
        s
    } else if s.take(from.len() as int) == from {
        to + replace_spec(s.skip(from.len() as int), from, to)
    } else {
        seq![s[0]] + replace_spec(s.drop_first(), from, to)
    }
}

/// `str::split` by a non-empty separator: the pieces between the
/// occurrences of `sep`, found left to right without overlap.
pub open spec fn split_spec(s: Seq<char>, sep: Seq<char>) -> Seq<Seq<char>>
    decreases s.len(),
{
    if sep.len() == 0 {
        seq![s]
    } else {
        match find_from(s, sep, 0) {
            None => seq![s],
            Some(k) => if k + sep.len() <= s.len() && k >= 0 {
                seq![s.take(k)] + split_spec(s.skip(k + sep.len()), sep)
            } else {
                seq![s]
            },
        }
    }
}

/// A line without its line ending: one `\r` is dropped from a line that
/// was ended by `\n`.
pub open spec fn strip_cr(t: Seq<char>) -> Seq<char> {
    if t.len() > 0 && t.last() == '\r' {
        t.drop_last()
    } else {
        t
    }
}

/// `str::lines`: the text cut at each `\n` (a `\r` just before it is
/// dropped); a final empty piece after the last `\n` is not a line.
pub open spec fn lines_spec(s: Seq<char>) -> Seq<Seq<char>>
    decreases s.len(),
{
    if s.len() == 0 {
        seq![]
    } else {
        match find_from(s, seq!['\n'], 0) {
            None => seq![s],
            Some(k) => if 0 <= k < s.len() {
                seq![strip_cr(s.take(k))] + lines_spec(s.skip(k + 1))
            } else {
                seq![s]
            },
        }
    }
}

/// The views of a sequence of character vectors.
pub open spec fn views(v: Seq<Vec<char>>) -> Seq<Seq<char>> {
    v.map_values(|x: Vec<char>| x@)
}

/// The views of a sequence of strings.
pub open spec fn string_views(v: Seq<String>) -> Seq<Seq<char>> {
    v.map_values(|x: String| x@)
}


/// `str::split_once` on a character: the text before and after the first
/// occurrence of `c`.
pub open spec fn split_once_spec(s: Seq<char>, c: char) -> Option<(Seq<char>, Seq<char>)> {
    match find_from(s, seq![c], 0) {
        Some(k) => Some((s.take(k), s.skip(k + 1))),
        None => None,
    }
}

/// What `str::to_lowercase` returns for a string.
pub uninterp spec fn lowercase(s: Seq<char>) -> Seq<char>;

// ── Lemmas ─────────────────────────────────────────────────

/// Trimming the start drops exactly the leading whitespace run of length `a`.
pub proof fn lemma_trim_start_skip(s: Seq<char>, a: int)
    requires
        0 <= a <= s.len(),
        forall|i: int| 0 <= i < a ==> is_ws(#[trigger] s[i]),
        a == s.len() || !is_ws(s[a]),
    ensures
        trim_start_spec(s) == s.skip(a),
    decreases a,
{
    if a == 0 {
        assert(s.skip(0) =~= s);
    } else {
        let t = s.drop_first();
        assert forall|i: int| 0 <= i < a - 1 implies is_ws(#[trigger] t[i]) by {
            assert(t[i] == s[i + 1]);
        }
        lemma_trim_start_skip(t, a - 1);
        assert(t.skip(a - 1) =~= s.skip(a));
    }
}

/// Trimming the end keeps exactly the prefix before the trailing whitespace run.
pub proof fn lemma_trim_end_take(s: Seq<char>, b: int)
    requires
        0 <= b <= s.len(),
        forall|i: int| b <= i < s.len() ==> is_ws(#[trigger] s[i]),
        b == 0 || !is_ws(s[b - 1]),
    ensures
        trim_end_spec(s) == s.take(b),
    decreases s.len() - b,
{
    if b == s.len() {
        assert(s.take(b) =~= s);
    } else {
        let t = s.drop_last();
        assert forall|i: int| b <= i < t.len() implies is_ws(#[trigger] t[i]) by {
            assert(t[i] == s[i]);
        }
        lemma_trim_end_take(t, b);
        assert(t.take(b) =~= s.take(b));
    }
}

/// With no occurrence at or after `from`, the search finds nothing.
pub proof fn lemma_find_from_none(s: Seq<char>, pat: Seq<char>, from: int)
    requires
        0 <= from,
        forall|i: int| from <= i ==> !occurs_at(s, pat, i),
    ensures
        find_from(s, pat, from) is None,
    decreases s.len() + 1 - from,
{
    if from + pat.len() <= s.len() {
        lemma_find_from_none(s, pat, from + 1);
    }
}

/// The search from `from` finds the first occurrence `k`.
pub proof fn lemma_find_from_some(s: Seq<char>, pat: Seq<char>, from: int, k: int)
    requires
        0 <= from <= k,
        occurs_at(s, pat, k),
        forall|i: int| from <= i < k ==> !occurs_at(s, pat, i),
    ensures
        find_from(s, pat, from) == Some(k),
    decreases k - from,
{
    if from < k {
        lemma_find_from_some(s, pat, from + 1, k);
    }
}


/// What the search returns is an occurrence with none before it, or nothing when none exists.
pub proof fn lemma_find_from_props(s: Seq<char>, pat: Seq<char>, from: int)
    requires
        0 <= from,
    ensures
        match find_from(s, pat, from) {
            Some(k) => from <= k && occurs_at(s, pat, k) && forall|i: int|
                from <= i < k ==> !occurs_at(s, pat, i),
            None => forall|i: int| from <= i ==> !occurs_at(s, pat, i),
        },
    decreases s.len() + 1 - from,
{
    if from + pat.len() > s.len() {
    } else if occurs_at(s, pat, from) {
    } else {
        lemma_find_from_props(s, pat, from + 1);
    }
}

/// An occurrence in a suffix is an occurrence in the whole text, shifted by the dropped length.
pub proof fn lemma_occurs_skip(s: Seq<char>, pat: Seq<char>, a: int, i: int)
    requires
        0 <= a <= s.len(),
        0 <= i,
    ensures
        occurs_at(s.skip(a), pat, i) == occurs_at(s, pat, i + a),
{
    if i + pat.len() <= s.len() - a {
        assert(s.skip(a).subrange(i, i + pat.len()) =~= s.subrange(i + a, i + a + pat.len()));
    }
}

/// Searching a suffix is searching the whole text from the suffix's start.
pub proof fn lemma_find_skip(s: Seq<char>, pat: Seq<char>, a: int)
    requires
        0 <= a <= s.len(),
    ensures
        match find_from(s.skip(a), pat, 0) {
            Some(k) => find_from(s, pat, a) == Some(k + a),
            None => find_from(s, pat, a) is None,
        },
{
    lemma_find_from_props(s.skip(a), pat, 0);
    match find_from(s.skip(a), pat, 0) {
        Some(k) => {
            lemma_occurs_skip(s, pat, a, k);
            assert forall|i: int| a <= i < k + a implies !occurs_at(s, pat, i) by {
                lemma_occurs_skip(s, pat, a, i - a);
            }
            lemma_find_from_some(s, pat, a, k + a);
        },
        None => {
            assert forall|i: int| a <= i implies !occurs_at(s, pat, i) by {
                lemma_occurs_skip(s, pat, a, i - a);
            }
            lemma_find_from_none(s, pat, a);
        },
    }
}

/// A text shorter than the pattern is left unchanged by replacement.
pub proof fn lemma_replace_short(s: Seq<char>, from: Seq<char>, to: Seq<char>)
    requires
        s.len() < from.len(),
    ensures
        replace_spec(s, from, to) == s,
{
}

// ── Executable operations ──────────────────────────────────

/// `char::is_whitespace`.
pub fn is_whitespace(c: char) -> (r: bool)
    ensures
        r == is_ws(c),
{
    c == '\t' || c == '\n' || c == '\x0B' || c == '\x0C' || c == '\r' || c == ' ' || c
        == '\u{85}' || c == '\u{A0}' || c == '\u{1680}' || ('\u{2000}' <= c && c <= '\u{200A}')
        || c == '\u{2028}' || c == '\u{2029}' || c == '\u{202F}' || c == '\u{205F}' || c
        == '\u{3000}'
}

/// The characters of a string slice, in order.
pub fn chars_of(s: &str) -> (v: Vec<char>)
    ensures
        v@ == s@,
{
    let mut v: Vec<char> = Vec::new();
    for c in it: s.chars()
        invariant
            v@ == it.seq().take(it.index() as int),
    {
        v.push(c);
    }
    v
}

/// The string made of the given characters (`String::from_iter`).
#[verifier::external_body]
pub(crate) fn string_from(v: &[char]) -> (s: String)
    ensures
        s@ == v@,
{
    v.iter().collect()
}

/// `str::to_lowercase`. Its result is named `lowercase`: the Unicode
/// lowercase mapping depends on the argument alone. What that mapping is,
/// character by character, is left to the name.
#[verifier::external_body]
pub(crate) fn to_lowercase(s: &str) -> (r: String)
    ensures
        r@ == lowercase(s@),
{
    s.to_lowercase()
}

/// Equality of two string slices.
pub fn str_eq(a: &str, b: &str) -> (r: bool)
    ensures
        r == (a@ == b@),
{
    let x = chars_of(a);
    let y = chars_of(b);
    eq_chars(&x, &y)
}

/// The views of a sequence of string pairs.
pub open spec fn pair_views(v: Seq<(String, String)>) -> Seq<(Seq<char>, Seq<char>)> {
    v.map_values(|p: (String, String)| (p.0@, p.1@))
}

/// The texts of `extra` that `base` lacks added at its end, in order,
/// each once.
pub open spec fn add_missing(base: Seq<Seq<char>>, extra: Seq<Seq<char>>) -> Seq<Seq<char>>
    decreases extra.len(),
{
    if extra.len() == 0 {
        base
    } else {
        let b = add_missing(base, extra.drop_last());
        if b.contains(extra.last()) {
            b
        } else {
            b.push(extra.last())
        }
    }
}

/// Whether one of the strings is `s`.
pub fn contains_string(v: &Vec<String>, s: &str) -> (r: bool)
    ensures
        r == string_views(v@).contains(s@),
{
    let c = chars_of(s);
    let mut i: usize = 0;
    while i < v.len()
        invariant
            i <= v@.len(),
            c@ == s@,
            forall|j: int| 0 <= j < i ==> (#[trigger] v@[j])@ != s@,
        decreases v.len() - i,
    {
        if eq_chars(&chars_of(v[i].as_str()), &c) {
            assert(string_views(v@)[i as int] == s@);
            return true;
        }
        i = i + 1;
    }
    assert(!string_views(v@).contains(s@)) by {
        if string_views(v@).contains(s@) {
            let j = choose|j: int| 0 <= j < string_views(v@).len() && string_views(v@)[j] == s@;
            assert(v@[j]@ == s@);
        }
    }
    false
}

/// `base` with the texts of `extra` it lacks added at its end.
pub fn add_missing_exec(base: Vec<String>, extra: &[String]) -> (r: Vec<String>)
    ensures
        string_views(r@) == add_missing(string_views(base@), string_views(extra@)),
{
    let ghost b0 = string_views(base@);
    let ghost ex = string_views(extra@);
    let mut r = base;
    let mut i: usize = 0;
    while i < extra.len()
        invariant
            i <= extra@.len(),
            ex == string_views(extra@),
            string_views(r@) == add_missing(b0, ex.take(i as int)),
        decreases extra.len() - i,
    {
        proof {
            assert(ex.take(i as int + 1).drop_last() =~= ex.take(i as int));
            assert(ex.take(i as int + 1).last() == extra@[i as int]@);
        }
        if !contains_string(&r, extra[i].as_str()) {
            let ghost before = r@;
            r.push(extra[i].clone());
            assert(string_views(r@) =~= string_views(before).push(extra@[i as int]@));
        }
        i = i + 1;
    }
    assert(ex.take(extra@.len() as int) =~= ex);
    r
}

/// The first line of a text, or the text itself when it has none.
pub open spec fn first_line_spec(s: Seq<char>) -> Seq<char> {
    if lines_spec(s).len() > 0 {
        lines_spec(s)[0]
    } else {
        s
    }
}

/// The first line of a text, or the text itself when it has none.
pub fn first_line(s: &str) -> (r: String)
    ensures
        r@ == first_line_spec(s@),
{
    let ls = lines_chars(&chars_of(s));
    if ls.len() > 0 {
        assert(views(ls@)[0] == ls@[0]@);
        string_from(ls[0].as_slice())
    } else {
        s.to_owned()
    }
}

/// The parts with `sep` between each two.
pub open spec fn join_spec(parts: Seq<Seq<char>>, sep: Seq<char>) -> Seq<char>
    decreases parts.len(),
{
    if parts.len() == 0 {
        seq![]
    } else if parts.len() == 1 {
        parts[0]
    } else {
        join_spec(parts.drop_last(), sep) + sep + parts.last()
    }
}

/// The parts with `sep` between each two.
pub fn join_with(parts: &[String], sep: &str) -> (r: String)
    ensures
        r@ == join_spec(string_views(parts@), sep@),
{
    let ghost ps = string_views(parts@);
    let mut r = String::new();
    let mut i: usize = 0;
    while i < parts.len()
        invariant
            i <= parts@.len(),
            ps == string_views(parts@),
            r@ == join_spec(ps.take(i as int), sep@),
        decreases parts.len() - i,
    {
        proof {
            assert(ps.take(i as int + 1).drop_last() =~= ps.take(i as int));
        }
        if i > 0 {
            r.append(sep);
        } else {
            assert(r@ =~= seq![]);
        }
        r.append(parts[i].as_str());
        i = i + 1;
    }
    assert(ps.take(parts@.len() as int) =~= ps);
    r
}

/// A copy of a list of strings.
pub fn clone_strings(v: &[String]) -> (r: Vec<String>)
    ensures
        string_views(r@) == string_views(v@),
{
    let mut r: Vec<String> = Vec::new();
    let mut i: usize = 0;
    while i < v.len()
        invariant
            i <= v@.len(),
            string_views(r@) == string_views(v@).take(i as int),
        decreases v.len() - i,
    {
        let ghost before = r@;
        r.push(v[i].clone());
        assert(string_views(r@) =~= string_views(before) + seq![v@[i as int]@]);
        i = i + 1;
        assert(string_views(r@) =~= string_views(v@).take(i as int));
    }
    assert(string_views(v@).take(v@.len() as int) =~= string_views(v@));
    r
}

/// A copy of a list of pairs of strings.
pub fn clone_pairs(v: &[(String, String)]) -> (r: Vec<(String, String)>)
    ensures
        pair_views(r@) == pair_views(v@),
{
    let mut r: Vec<(String, String)> = Vec::new();
    let mut i: usize = 0;
    while i < v.len()
        invariant
            i <= v@.len(),
            pair_views(r@) == pair_views(v@).take(i as int),
        decreases v.len() - i,
    {
        let ghost before = r@;
        r.push((v[i].0.clone(), v[i].1.clone()));
        assert(pair_views(r@) =~= pair_views(before) + seq![(v@[i as int].0@, v@[i as int].1@)]);
        i = i + 1;
        assert(pair_views(r@) =~= pair_views(v@).take(i as int));
    }
    assert(pair_views(v@).take(v@.len() as int) =~= pair_views(v@));
    r
}

/// The characters `s[a..b]`.
pub fn slice_chars(s: &Vec<char>, a: usize, b: usize) -> (r: Vec<char>)
    requires
        a <= b <= s.len(),
    ensures
        r@ == s@.subrange(a as int, b as int),
{
    let mut r: Vec<char> = Vec::new();
    let mut i = a;
    while i < b
        invariant
            a <= i <= b <= s.len(),
            r@ == s@.subrange(a as int, i as int),
        decreases b - i,
    {
        r.push(s[i]);
        i = i + 1;
        assert(r@ =~= s@.subrange(a as int, i as int));
    }
    r
}

/// Concatenation of two character vectors.
pub fn concat_chars(a: &Vec<char>, b: &Vec<char>) -> (r: Vec<char>)
    ensures
        r@ == a@ + b@,
{
    let mut r = a.clone();
    let mut i: usize = 0;
    while i < b.len()
        invariant
            i <= b.len(),
            r@ == a@ + b@.take(i as int),
        decreases b.len() - i,
    {
        r.push(b[i]);
        i = i + 1;
        assert(r@ =~= a@ + b@.take(i as int));
    }
    assert(b@.take(b.len() as int) =~= b@);
    r
}

/// Appends `b` to `a`.
pub fn append_chars(a: &mut Vec<char>, b: &Vec<char>)
    ensures
        final(a)@ == old(a)@ + b@,
{
    let mut i: usize = 0;
    while i < b.len()
        invariant
            i <= b.len(),
            a@ == old(a)@ + b@.take(i as int),
        decreases b.len() - i,
    {
        a.push(b[i]);
        i = i + 1;
        assert(a@ =~= old(a)@ + b@.take(i as int));
    }
    assert(b@.take(b.len() as int) =~= b@);
}

/// Character-wise equality.
pub fn eq_chars(a: &Vec<char>, b: &Vec<char>) -> (r: bool)
    ensures
        r == (a@ == b@),
{
    if a.len() != b.len() {
        return false;
    }
    let mut i: usize = 0;
    while i < a.len()
        invariant
            a.len() == b.len(),
            i <= a.len(),
            forall|j: int| 0 <= j < i ==> a@[j] == b@[j],
        decreases a.len() - i,
    {
        if a[i] != b[i] {
            return false;
        }
        i = i + 1;
    }
    assert(a@ =~= b@);
    true
}

/// Whether `pat` occurs in `s` at position `i`.
pub fn occurs_at_exec(s: &Vec<char>, pat: &Vec<char>, i: usize) -> (r: bool)
    ensures
        r == occurs_at(s@, pat@, i as int),
{
    if i > s.len() || pat.len() > s.len() - i {
        return false;
    }
    let mut j: usize = 0;
    while j < pat.len()
        invariant
            i + pat.len() <= s.len(),
            j <= pat.len(),
            forall|k: int| 0 <= k < j ==> s@[i + k] == pat@[k],
        decreases pat.len() - j,
    {
        if s[i + j] != pat[j] {
            assert(s@.subrange(i as int, i + pat.len())[j as int] != pat@[j as int]);
            return false;
        }
        j = j + 1;
    }
    assert(s@.subrange(i as int, i + pat.len()) =~= pat@);
    true
}

/// `s` starts with `p`.
pub fn starts_with(s: &Vec<char>, p: &Vec<char>) -> (r: bool)
    ensures
        r == starts_with_spec(s@, p@),
{
    let r = occurs_at_exec(s, p, 0);
    proof {
        if p.len() <= s.len() {
            assert(s@.subrange(0, p@.len() as int) =~= s@.take(p@.len() as int));
        }
    }
    r
}

/// `s` ends with `p`.
pub fn ends_with(s: &Vec<char>, p: &Vec<char>) -> (r: bool)
    ensures
        r == ends_with_spec(s@, p@),
{
    if p.len() > s.len() {
        return false;
    }
    let r = occurs_at_exec(s, p, s.len() - p.len());
    proof {
        assert(s@.subrange(s.len() - p.len(), s.len() as int) =~= s@.skip(s.len() - p.len()));
    }
    r
}

/// The first position at or after `from` where `pat` occurs.
pub fn find_exec(s: &Vec<char>, pat: &Vec<char>, from: usize) -> (r: Option<usize>)
    ensures
        match r {
            Some(k) => find_from(s@, pat@, from as int) == Some(k as int),
            None => find_from(s@, pat@, from as int) is None,
        },
{
    if pat.len() == 0 {
        if from <= s.len() {
            proof {
                assert(s@.subrange(from as int, from as int) =~= pat@);
                lemma_find_from_some(s@, pat@, from as int, from as int);
            }
            return Some(from);
        } else {
            return None;
        }
    }
    let mut i = from;
    while pat.len() <= s.len() && i <= s.len() - pat.len()
        invariant
            from <= i,
            pat.len() > 0,
            forall|j: int| from <= j < i ==> !occurs_at(s@, pat@, j),
        decreases s.len() + 1 - i,
    {
        if occurs_at_exec(s, pat, i) {
            proof {
                lemma_find_from_some(s@, pat@, from as int, i as int);
            }
            return Some(i);
        }
        i = i + 1;
    }
    proof {
        assert forall|j: int| from <= j implies !occurs_at(s@, pat@, j) by {
            if j >= i {
                assert(j + pat.len() > s.len());
            }
        }
        lemma_find_from_none(s@, pat@, from as int);
    }
    None
}


/// `str::contains`.
pub fn contains_chars(s: &Vec<char>, pat: &Vec<char>) -> (r: bool)
    ensures
        r == contains_spec(s@, pat@),
{
    let f = find_exec(s, pat, 0);
    proof {
        lemma_find_from_props(s@, pat@, 0);
    }
    f.is_some()
}

/// `str::split_once` on a character.
pub fn split_once_char(s: &Vec<char>, c: char) -> (r: Option<(Vec<char>, Vec<char>)>)
    ensures
        match r {
            Some((a, b)) => split_once_spec(s@, c) == Some((a@, b@)),
            None => split_once_spec(s@, c) is None,
        },
{
    let pat = vec![c];
    assert(pat@ =~= seq![c]);
    match find_exec(s, &pat, 0) {
        Some(k) => {
            proof {
                lemma_find_from_props(s@, pat@, 0);
                assert(occurs_at(s@, pat@, k as int));
                assert(pat@.len() == 1);
                assert(k < s.len());
            }
            let a = slice_chars(s, 0, k);
            let b = slice_chars(s, k + 1, s.len());
            assert(a@ =~= s@.take(k as int));
            assert(b@ =~= s@.skip(k + 1));
            Some((a, b))
        },
        None => None,
    }
}

/// `str::replace` with a non-empty pattern.
pub fn replace_chars(s: &Vec<char>, from: &Vec<char>, to: &Vec<char>) -> (r: Vec<char>)
    requires
        from.len() > 0,
    ensures
        r@ == replace_spec(s@, from@, to@),
{
    let mut r: Vec<char> = Vec::new();
    let mut i: usize = 0;
    assert(s@.skip(0) =~= s@);
    while i < s.len()
        invariant
            i <= s.len(),
            from.len() > 0,
            replace_spec(s@, from@, to@) == r@ + replace_spec(s@.skip(i as int), from@, to@),
        decreases s.len() - i,
    {
        let ghost t = s@.skip(i as int);
        if occurs_at_exec(s, from, i) {
            proof {
                assert(t.take(from.len() as int) =~= s@.subrange(i as int, i + from.len()));
                assert(t.skip(from.len() as int) =~= s@.skip(i + from.len()));
            }
            let ghost r0 = r@;
            append_chars(&mut r, to);
            i = i + from.len();
            assert(r0 + (to@ + replace_spec(s@.skip(i as int), from@, to@)) =~= r@ + replace_spec(
                s@.skip(i as int),
                from@,
                to@,
            ));
        } else {
            proof {
                if t.len() >= from.len() {
                    assert(t.take(from.len() as int) =~= s@.subrange(i as int, i + from.len()));
                } else {
                    lemma_replace_short(t, from@, to@);
                    lemma_replace_short(t.drop_first(), from@, to@);
                }
                assert(t.drop_first() =~= s@.skip(i + 1));
            }
            let ghost r0 = r@;
            r.push(s[i]);
            i = i + 1;
            assert(r0 + (seq![s@[i - 1]] + replace_spec(s@.skip(i as int), from@, to@)) =~= r@
                + replace_spec(s@.skip(i as int), from@, to@));
        }
    }
    assert(s@.skip(s.len() as int) =~= Seq::<char>::empty());
    assert(r@ + Seq::<char>::empty() =~= r@);
    r
}


/// `str::split` by a non-empty separator.
pub fn split_chars(s: &Vec<char>, sep: &Vec<char>) -> (r: Vec<Vec<char>>)
    requires
        sep.len() > 0,
    ensures
        views(r@) == split_spec(s@, sep@),
{
    let mut pieces: Vec<Vec<char>> = Vec::new();
    let mut start: usize = 0;
    assert(s@.skip(0) =~= s@);
    loop
        invariant
            start <= s.len(),
            sep.len() > 0,
            split_spec(s@, sep@) == views(pieces@) + split_spec(s@.skip(start as int), sep@),
        decreases s.len() - start,
    {
        let ghost t = s@.skip(start as int);
        proof {
            lemma_find_skip(s@, sep@, start as int);
            lemma_find_from_props(s@, sep@, start as int);
        }
        match find_exec(s, sep, start) {
            Some(k) => {
                let piece = slice_chars(s, start, k);
                proof {
                    assert(t.take(k - start) =~= piece@);
                    assert(t.skip(k - start + sep.len()) =~= s@.skip(k + sep.len()));
                }
                let ghost p0 = pieces@;
                pieces.push(piece);
                start = k + sep.len();
                assert(views(pieces@) =~= views(p0) + seq![piece@]);
                assert(views(p0) + (seq![piece@] + split_spec(s@.skip(start as int), sep@))
                    =~= views(pieces@) + split_spec(s@.skip(start as int), sep@));
            },
            None => {
                let piece = slice_chars(s, start, s.len());
                assert(piece@ =~= t);
                let ghost p0 = pieces@;
                pieces.push(piece);
                assert(views(pieces@) =~= views(p0) + seq![piece@]);
                return pieces;
            },
        }
    }
}

/// `str::lines`.
pub fn lines_chars(s: &Vec<char>) -> (r: Vec<Vec<char>>)
    ensures
        views(r@) == lines_spec(s@),
{
    let nl = vec!['\n'];
    assert(nl@ =~= seq!['\n']);
    let mut lines: Vec<Vec<char>> = Vec::new();
    let mut start: usize = 0;
    assert(s@.skip(0) =~= s@);
    while start < s.len()
        invariant
            start <= s.len(),
            nl@ == seq!['\n'],
            lines_spec(s@) == views(lines@) + lines_spec(s@.skip(start as int)),
        decreases s.len() - start,
    {
        let ghost t = s@.skip(start as int);
        proof {
            lemma_find_skip(s@, nl@, start as int);
            lemma_find_from_props(s@, nl@, start as int);
        }
        match find_exec(s, &nl, start) {
            Some(k) => {
                assert(occurs_at(s@, nl@, k as int));
                let mut piece = slice_chars(s, start, k);
                assert(t.take(k - start) =~= piece@);
                if piece.len() > 0 && piece[piece.len() - 1] == '\r' {
                    piece.pop();
                }
                proof {
                    assert(t.skip(k - start + 1) =~= s@.skip(k + 1));
                }
                let ghost l0 = lines@;
                lines.push(piece);
                start = k + 1;
                assert(views(lines@) =~= views(l0) + seq![piece@]);
                assert(views(l0) + (seq![piece@] + lines_spec(s@.skip(start as int)))
                    =~= views(lines@) + lines_spec(s@.skip(start as int)));
            },
            None => {
                let piece = slice_chars(s, start, s.len());
                assert(piece@ =~= t);
                let ghost l0 = lines@;
                lines.push(piece);
                assert(views(lines@) =~= views(l0) + seq![piece@]);
                return lines;
            },
        }
    }
    assert(s@.skip(start as int) =~= Seq::<char>::empty());
    assert(views(lines@) + Seq::<Seq<char>>::empty() =~= views(lines@));
    lines
}

/// `str::trim`.
pub fn trim_chars(s: &Vec<char>) -> (r: Vec<char>)
    ensures
        r@ == trim_spec(s@),
{
    let mut a: usize = 0;
    while a < s.len() && is_whitespace(s[a])
        invariant
            a <= s.len(),
            forall|i: int| 0 <= i < a ==> is_ws(#[trigger] s@[i]),
        decreases s.len() - a,
    {
        a = a + 1;
    }
    let mut b: usize = s.len();
    while b > a && is_whitespace(s[b - 1])
        invariant
            a <= b <= s.len(),
            forall|i: int| b <= i < s.len() ==> is_ws(#[trigger] s@[i]),
        decreases b,
    {
        b = b - 1;
    }
    proof {
        lemma_trim_start_skip(s@, a as int);
        let t = s@.skip(a as int);
        assert forall|i: int| b - a <= i < t.len() implies is_ws(#[trigger] t[i]) by {
            assert(t[i] == s@[i + a]);
        }
        if b > a {
            assert(t[b - a - 1] == s@[b - 1]);
        }
        lemma_trim_end_take(t, b - a);
        assert(t.take(b - a) =~= s@.subrange(a as int, b as int));
    }
    slice_chars(s, a, b)
}

/// `str::trim` on a string.
pub fn trim_str(s: &str) -> (r: String)
    ensures
        r@ == trim_spec(s@),
{
    let v = chars_of(s);
    let t = trim_chars(&v);
    string_from(t.as_slice())
}

// ── Numbers ──────────────────────────────────────────────

/// The decimal digits of a natural number.
pub open spec fn digits_spec(n: nat) -> Seq<char>
    decreases n,
{
    if n < 10 {
        seq![(('0' as u32) + n) as char]
    } else {
        digits_spec(n / 10) + seq![(('0' as u32) + (n % 10)) as char]
    }
}

/// The digit for a value below ten.
fn digit(d: u64) -> (c: char)
    requires
        d < 10,
    ensures
        c == (('0' as u32) + d) as char,
{
    if d == 0 {
        '0'
    } else if d == 1 {
        '1'
    } else if d == 2 {
        '2'
    } else if d == 3 {
        '3'
    } else if d == 4 {
        '4'
    } else if d == 5 {
        '5'
    } else if d == 6 {
        '6'
    } else if d == 7 {
        '7'
    } else if d == 8 {
        '8'
    } else {
        '9'
    }
}

/// The decimal digits of `n`, most significant first.
pub fn digits(n: u64) -> (r: Vec<char>)
    ensures
        r@ == digits_spec(n as nat),
    decreases n,
{
    if n < 10 {
        let c = digit(n);
        let r = vec![c];
        assert(r@ =~= seq![c]);
        r
    } else {
        let mut r = digits(n / 10);
        r.push(digit(n % 10));
        r
    }
}

/// A count written in decimal.
pub fn count_text(n: usize) -> (r: String)
    ensures
        r@ == digits_spec(n as nat),
{
    let d = digits(n as u64);
    string_from(d.as_slice())
}

// ── Layout ───────────────────────────────────────────────

/// The parts written one after another.
pub open spec fn concat_all(parts: Seq<Seq<char>>) -> Seq<char>
    decreases parts.len(),
{
    if parts.len() == 0 {
        seq![]
    } else {
        concat_all(parts.drop_last()) + parts.last()
    }
}

/// Joining one part more adds it at the end.
pub proof fn lemma_concat_all_take(parts: Seq<Seq<char>>, i: int)
    requires
        0 <= i < parts.len(),
    ensures
        concat_all(parts.take(i + 1)) == concat_all(parts.take(i)) + parts[i],
{
    assert(parts.take(i + 1).drop_last() =~= parts.take(i));
}

/// `n` spaces.
pub open spec fn spaces(n: int) -> Seq<char> {
    Seq::new(if n > 0 { n as nat } else { 0 }, |i: int| ' ')
}

/// A text padded on the right with spaces to `width` characters, as the
/// formatter's `{:<width$}` does.
pub open spec fn pad_right(s: Seq<char>, width: int) -> Seq<char> {
    s + spaces(width - s.len())
}

/// How many bytes a text takes in UTF-8, as `str::len` reports it.
pub open spec fn byte_len(s: Seq<char>) -> usize {
    vstd::utf8::encode_utf8(s).len() as usize
}

/// `n` spaces.
pub fn spaces_exec(n: usize) -> (r: String)
    ensures
        r@ == spaces(n as int),
{
    let mut v: Vec<char> = Vec::new();
    let mut i: usize = 0;
    while i < n
        invariant
            i <= n,
            v@ == spaces(i as int),
        decreases n - i,
    {
        v.push(' ');
        i = i + 1;
        assert(v@ =~= spaces(i as int));
    }
    string_from(v.as_slice())
}

/// A text padded on the right with spaces to `width` characters.
pub fn pad_right_exec(s: &str, width: usize) -> (r: String)
    ensures
        r@ == pad_right(s@, width as int),
{
    let n = s.unicode_len();
    let mut r = s.to_owned();
    if n < width {
        r.append(spaces_exec(width - n).as_str());
    } else {
        assert(spaces(width - s@.len()) =~= seq![]);
        assert(r@ + spaces(width - s@.len()) =~= r@);
    }
    r
}

} // verus!
