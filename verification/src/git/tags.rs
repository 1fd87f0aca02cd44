//! Release tags.
use vstd::prelude::*;

use super::branches::opt_pair_view;
use super::common::{GitOutput, arg_views, failure_spec, outcome_trimmed, owned_args, prefixed_trimmed};
use super::push::push_remote_spec;
use crate::text::{
    chars_of, lines_chars, lines_spec, split_chars, split_spec, string_from, trim_chars, trim_spec,
    views,
};

verus! {

/// `s` without one leading `v`.
pub open spec fn strip_v(s: Seq<char>) -> Seq<char> {
    if s.len() > 0 && s[0] == 'v' {
        s.drop_first()
    } else {
        s
    }
}

/// Every character is an ASCII digit.
pub open spec fn all_digits(s: Seq<char>) -> bool {
    forall|i: int| 0 <= i < s.len() ==> '0' <= #[trigger] s[i] && s[i] <= '9'
}

/// A release tag: after trimming and an optional leading `v`, exactly
/// three non-empty runs of ASCII digits separated by dots.
pub open spec fn release_tag_spec(tag: Seq<char>) -> bool {
    let parts = split_spec(strip_v(trim_spec(tag)), "."@);
    &&& parts.len() == 3
    &&& forall|i: int| 0 <= i < 3 ==> (#[trigger] parts[i]).len() > 0 && all_digits(parts[i])
}

fn digits_only(s: &Vec<char>) -> (r: bool)
    ensures
        r == (s@.len() > 0 && all_digits(s@)),
{
    if s.len() == 0 {
        return false;
    }
    let mut i: usize = 0;
    while i < s.len()
        invariant
            i <= s.len(),
            forall|j: int| 0 <= j < i ==> '0' <= #[trigger] s@[j] && s@[j] <= '9',
        decreases s.len() - i,
    {
        if !('0' <= s[i] && s[i] <= '9') {
            return false;
        }
        i = i + 1;
    }
    true
}

/// The three dot-separated parts of a tag, after trimming and an optional
/// leading `v`.
pub open spec fn tag_parts(tag: Seq<char>) -> Seq<Seq<char>> {
    split_spec(strip_v(trim_spec(tag)), "."@)
}

/// The major, minor and patch parts of a release tag, or `None` when the
/// tag is not a release tag.
fn version_parts(tag: &str) -> (r: Option<(Vec<char>, Vec<char>, Vec<char>)>)
    ensures
        match r {
            Some((a, b, c)) => release_tag_spec(tag@) && a@ == tag_parts(tag@)[0] && b@ == tag_parts(
                tag@,
            )[1] && c@ == tag_parts(tag@)[2],
            None => !release_tag_spec(tag@),
        },
{
    proof {
        reveal_strlit(".");
    }
    let t = trim_chars(&chars_of(tag));
    let version = if t.len() > 0 && t[0] == 'v' {
        crate::text::slice_chars(&t, 1, t.len())
    } else {
        t
    };
    assert(version@ =~= strip_v(trim_spec(tag@)));
    let parts = split_chars(&version, &chars_of("."));
    if parts.len() != 3 {
        return None;
    }
    assert(views(parts@)[0] == parts@[0]@ && views(parts@)[1] == parts@[1]@ && views(parts@)[2]
        == parts@[2]@);
    let ok = digits_only(&parts[0]) && digits_only(&parts[1]) && digits_only(&parts[2]);
    proof {
        let ps = tag_parts(tag@);
        if ok {
            assert forall|i: int| 0 <= i < 3 implies (#[trigger] ps[i]).len() > 0 && all_digits(
                ps[i],
            ) by {
                if i == 0 {
                } else if i == 1 {
                } else {
                }
            }
        }
    }
    if !ok {
        return None;
    }
    let a = crate::text::slice_chars(&parts[0], 0, parts[0].len());
    let b = crate::text::slice_chars(&parts[1], 0, parts[1].len());
    let c = crate::text::slice_chars(&parts[2], 0, parts[2].len());
    assert(a@ =~= parts@[0]@ && b@ =~= parts@[1]@ && c@ =~= parts@[2]@);
    Some((a, b, c))
}

/// Whether a tag is a semantic release tag (`v1.2.3` or `1.2.3`).
pub fn is_release_tag(tag: &str) -> (r: bool)
    ensures
        r == release_tag_spec(tag@),
{
    version_parts(tag).is_some()
}

/// The value of a decimal digit.
pub open spec fn digit_value(c: char) -> int {
    c as int - '0' as int
}

/// Ten to the power `n`.
pub open spec fn pow10(n: nat) -> nat
    decreases n,
{
    if n == 0 {
        1
    } else {
        10 * pow10((n - 1) as nat)
    }
}

/// The number that a string of decimal digits stands for.
pub open spec fn decimal_value(s: Seq<char>) -> int
    decreases s.len(),
{
    if s.len() == 0 {
        0
    } else {
        digit_value(s[0]) * pow10((s.len() - 1) as nat) + decimal_value(s.drop_first())
    }
}

/// The version of a release tag: its major, minor and patch numbers.
pub open spec fn version_of(tag: Seq<char>) -> (int, int, int) {
    (decimal_value(tag_parts(tag)[0]), decimal_value(tag_parts(tag)[1]), decimal_value(tag_parts(tag)[2]))
}

/// Version `x` comes before version `y`: compared by major, then minor,
/// then patch number.
pub open spec fn version_lt(x: (int, int, int), y: (int, int, int)) -> bool {
    ||| x.0 < y.0
    ||| x.0 == y.0 && x.1 < y.1
    ||| x.0 == y.0 && x.1 == y.1 && x.2 < y.2
}

proof fn lemma_pow10_pos(n: nat)
    ensures
        pow10(n) >= 1,
    decreases n,
{
    if n > 0 {
        lemma_pow10_pos((n - 1) as nat);
    }
}

proof fn lemma_pow10_mono(m: nat, n: nat)
    requires
        m <= n,
    ensures
        pow10(m) <= pow10(n),
    decreases n,
{
    if m < n {
        lemma_pow10_mono(m, (n - 1) as nat);
        lemma_pow10_pos((n - 1) as nat);
    }
}

proof fn lemma_all_digits_skip(s: Seq<char>, k: int)
    requires
        all_digits(s),
        0 <= k <= s.len(),
    ensures
        all_digits(s.skip(k)),
{
    assert forall|i: int| 0 <= i < s.skip(k).len() implies '0' <= #[trigger] s.skip(k)[i] && s.skip(
        k,
    )[i] <= '9' by {
        assert(s.skip(k)[i] == s[i + k]);
    }
}

/// A string of `n` digits stands for less than `10^n`.
proof fn lemma_decimal_below(s: Seq<char>)
    requires
        all_digits(s),
    ensures
        0 <= decimal_value(s) < pow10(s.len()),
    decreases s.len(),
{
    if s.len() > 0 {
        let t = s.drop_first();
        lemma_all_digits_skip(s, 1);
        assert(t =~= s.skip(1));
        lemma_decimal_below(t);
        let d = digit_value(s[0]);
        let p = pow10((s.len() - 1) as nat);
        let v = decimal_value(t);
        assert('0' <= s[0] && s[0] <= '9');
        assert(0 <= d <= 9);
        assert(pow10(s.len()) == 10 * p);
        assert(0 <= d * p + v < 10 * p) by (nonlinear_arith)
            requires
                0 <= d <= 9,
                0 <= v < p,
        ;
    }
}

/// A string of `n` digits that does not start with `0` stands for at
/// least `10^(n-1)`.
proof fn lemma_decimal_at_least(s: Seq<char>)
    requires
        all_digits(s),
        s.len() > 0,
        s[0] != '0',
    ensures
        decimal_value(s) >= pow10((s.len() - 1) as nat),
{
    let t = s.drop_first();
    lemma_all_digits_skip(s, 1);
    assert(t =~= s.skip(1));
    lemma_decimal_below(t);
    let d = digit_value(s[0]);
    let p = pow10((s.len() - 1) as nat);
    assert('0' <= s[0] && s[0] <= '9');
    assert(1 <= d);
    assert(d * p >= p) by (nonlinear_arith)
        requires
            1 <= d,
            0 <= p,
    ;
}

/// Leading zeros do not change the value.
proof fn lemma_skip_zeros(s: Seq<char>, k: int)
    requires
        0 <= k <= s.len(),
        forall|j: int| 0 <= j < k ==> s[j] == '0',
    ensures
        decimal_value(s) == decimal_value(s.skip(k)),
    decreases k,
{
    if k > 0 {
        let t = s.drop_first();
        let p = pow10((s.len() - 1) as nat);
        assert(digit_value(s[0]) == 0);
        assert(digit_value(s[0]) * p == 0) by (nonlinear_arith)
            requires
                digit_value(s[0]) == 0,
        ;
        assert forall|j: int| 0 <= j < k - 1 implies t[j] == '0' by {
            assert(t[j] == s[j + 1]);
        }
        lemma_skip_zeros(t, k - 1);
        assert(t.skip(k - 1) =~= s.skip(k));
    } else {
        assert(s.skip(0) =~= s);
    }
}

/// Of two digit strings of one length that agree before position `i`
/// and differ there, the one with the smaller digit stands for less.
proof fn lemma_digits_first_difference(a: Seq<char>, b: Seq<char>, i: int)
    requires
        a.len() == b.len(),
        all_digits(a),
        all_digits(b),
        0 <= i < a.len(),
        forall|j: int| 0 <= j < i ==> a[j] == b[j],
        a[i] < b[i],
    ensures
        decimal_value(a) < decimal_value(b),
    decreases i,
{
    let ta = a.drop_first();
    let tb = b.drop_first();
    lemma_all_digits_skip(a, 1);
    lemma_all_digits_skip(b, 1);
    assert(ta =~= a.skip(1));
    assert(tb =~= b.skip(1));
    let p = pow10((a.len() - 1) as nat);
    if i == 0 {
        lemma_decimal_below(ta);
        lemma_decimal_below(tb);
        let da = digit_value(a[0]);
        let db = digit_value(b[0]);
        let va = decimal_value(ta);
        let vb = decimal_value(tb);
        assert(da + 1 <= db);
        assert(da * p + va < db * p + vb) by (nonlinear_arith)
            requires
                da + 1 <= db,
                0 <= va < p,
                0 <= vb,
        ;
    } else {
        assert forall|j: int| 0 <= j < i - 1 implies ta[j] == tb[j] by {
            assert(ta[j] == a[j + 1] && tb[j] == b[j + 1]);
        }
        assert(a[0] == b[0]);
        lemma_digits_first_difference(ta, tb, i - 1);
    }
}

fn skip_zeros(s: &Vec<char>) -> (k: usize)
    ensures
        k <= s.len(),
        forall|j: int| 0 <= j < k ==> s@[j] == '0',
        k == s.len() || s@[k as int] != '0',
{
    let mut k: usize = 0;
    while k < s.len() && s[k] == '0'
        invariant
            k <= s.len(),
            forall|j: int| 0 <= j < k ==> s@[j] == '0',
        decreases s.len() - k,
    {
        k = k + 1;
    }
    k
}

/// Compares two digit strings by the numbers they stand for: negative,
/// zero or positive as `a` is below, equal to or above `b`.
fn compare_decimal(a: &Vec<char>, b: &Vec<char>) -> (r: i8)
    requires
        all_digits(a@),
        all_digits(b@),
    ensures
        (r < 0) == (decimal_value(a@) < decimal_value(b@)),
        (r == 0) == (decimal_value(a@) == decimal_value(b@)),
{
    let za = skip_zeros(a);
    let zb = skip_zeros(b);
    let ghost sa = a@.skip(za as int);
    let ghost sb = b@.skip(zb as int);
    proof {
        lemma_skip_zeros(a@, za as int);
        lemma_skip_zeros(b@, zb as int);
        lemma_all_digits_skip(a@, za as int);
        lemma_all_digits_skip(b@, zb as int);
        lemma_decimal_below(sa);
        lemma_decimal_below(sb);
    }
    let na = a.len() - za;
    let nb = b.len() - zb;
    if na < nb {
        proof {
            lemma_pow10_mono(na as nat, (nb - 1) as nat);
            lemma_decimal_at_least(sb);
        }
        return -1;
    }
    if nb < na {
        proof {
            lemma_pow10_mono(nb as nat, (na - 1) as nat);
            lemma_decimal_at_least(sa);
        }
        return 1;
    }
    let mut i: usize = 0;
    while i < na
        invariant
            i <= na,
            na == nb,
            na == a.len() - za,
            nb == b.len() - zb,
            za <= a.len(),
            zb <= b.len(),
            sa == a@.skip(za as int),
            sb == b@.skip(zb as int),
            all_digits(sa),
            all_digits(sb),
            forall|j: int| 0 <= j < i ==> sa[j] == sb[j],
            decimal_value(a@) == decimal_value(sa),
            decimal_value(b@) == decimal_value(sb),
        decreases na - i,
    {
        let x = a[za + i];
        let y = b[zb + i];
        assert(sa[i as int] == x && sb[i as int] == y);
        if x < y {
            proof {
                lemma_digits_first_difference(sa, sb, i as int);
            }
            return -1;
        }
        if y < x {
            proof {
                assert forall|j: int| 0 <= j < i implies sb[j] == sa[j] by {}
                lemma_digits_first_difference(sb, sa, i as int);
            }
            return 1;
        }
        i = i + 1;
    }
    assert(sa =~= sb);
    0
}

/// Whether version `(a0, a1, a2)` comes before version `(b0, b1, b2)`.
fn version_before(
    a0: &Vec<char>,
    a1: &Vec<char>,
    a2: &Vec<char>,
    b0: &Vec<char>,
    b1: &Vec<char>,
    b2: &Vec<char>,
) -> (r: bool)
    requires
        all_digits(a0@),
        all_digits(a1@),
        all_digits(a2@),
        all_digits(b0@),
        all_digits(b1@),
        all_digits(b2@),
    ensures
        r == version_lt(
            (decimal_value(a0@), decimal_value(a1@), decimal_value(a2@)),
            (decimal_value(b0@), decimal_value(b1@), decimal_value(b2@)),
        ),
{
    let c0 = compare_decimal(a0, b0);
    if c0 != 0 {
        return c0 < 0;
    }
    let c1 = compare_decimal(a1, b1);
    if c1 != 0 {
        return c1 < 0;
    }
    compare_decimal(a2, b2) < 0
}

/// The arguments that list the tags, newest version first.
pub fn list_tags_args() -> (r: Vec<String>)
    ensures
        arg_views(r@) == seq!["tag"@, "--list"@, "--sort=-v:refname"@],
{
    let r = owned_args(&["tag", "--list", "--sort=-v:refname"]);
    assert(arg_views(r@) =~= seq!["tag"@, "--list"@, "--sort=-v:refname"@]);
    r
}

/// Line `j` of a listing, trimmed, is a release tag.
pub open spec fn release_line(lines: Seq<Seq<char>>, j: int) -> bool {
    release_tag_spec(trim_spec(lines[j]))
}

/// The version of line `j` of a listing.
pub open spec fn line_version(lines: Seq<Seq<char>>, j: int) -> (int, int, int) {
    version_of(trim_spec(lines[j]))
}

/// Line `k` holds the latest release: it is a release tag, no release tag
/// of the listing has a later version, and it is the first line with its
/// version.
pub open spec fn latest_at(lines: Seq<Seq<char>>, k: int) -> bool {
    &&& 0 <= k < lines.len()
    &&& release_line(lines, k)
    &&& forall|j: int|
        0 <= j < lines.len() && #[trigger] release_line(lines, j) ==> !version_lt(
            line_version(lines, k),
            line_version(lines, j),
        )
    &&& forall|j: int|
        0 <= j < k && #[trigger] release_line(lines, j) ==> version_lt(
            line_version(lines, j),
            line_version(lines, k),
        )
}

/// The latest release tag of a listing, trimmed, if it has one.
pub open spec fn latest_release(lines: Seq<Seq<char>>) -> Option<Seq<char>> {
    if exists|k: int| latest_at(lines, k) {
        Some(trim_spec(lines[choose|k: int| latest_at(lines, k)]))
    } else {
        None
    }
}

/// At most one line holds the latest release.
pub proof fn lemma_latest_unique(lines: Seq<Seq<char>>, k1: int, k2: int)
    requires
        latest_at(lines, k1),
        latest_at(lines, k2),
    ensures
        k1 == k2,
{
    if k1 < k2 {
        assert(release_line(lines, k1));
    } else if k2 < k1 {
        assert(release_line(lines, k2));
    }
}

/// The view of an optional string.
pub open spec fn opt_view(o: Option<String>) -> Option<Seq<char>> {
    match o {
        Some(s) => Some(s@),
        None => None,
    }
}

/// The latest semantic release tag (e.g. v1.2.3) in the tag listing, if
/// there is one: the release tag with the highest version, compared by
/// major, minor and patch number; of tags with one version, the first
/// listed.
pub fn latest_release_tag(out: &GitOutput) -> (r: Result<Option<String>, String>)
    ensures
        match r {
            Ok(t) => out.success && opt_view(t) == latest_release(lines_spec(out.stdout@)) && match t {
                None => forall|j: int|
                    0 <= j < lines_spec(out.stdout@).len() ==> !#[trigger] release_line(
                        lines_spec(out.stdout@),
                        j,
                    ),
                Some(s) => exists|k: int|
                    latest_at(lines_spec(out.stdout@), k) && s@ == trim_spec(
                        #[trigger] lines_spec(out.stdout@)[k],
                    ),
            },
            Err(e) => !out.success && e@ == failure_spec("Failed to list tags: "@, out.stderr@),
        },
{
    if !out.success {
        return Err(prefixed_trimmed("Failed to list tags: ", out.stderr.as_str()));
    }
    let lines = lines_chars(&chars_of(out.stdout.as_str()));
    let ghost ls = lines_spec(out.stdout@);
    let mut best: Option<String> = None;
    let ghost mut bk: int = 0;
    let mut b0: Vec<char> = Vec::new();
    let mut b1: Vec<char> = Vec::new();
    let mut b2: Vec<char> = Vec::new();
    let mut i: usize = 0;
    while i < lines.len()
        invariant
            i <= lines.len(),
            views(lines@) == ls,
            ls == lines_spec(out.stdout@),
            out.success,
            best is None ==> forall|j: int| 0 <= j < i ==> !#[trigger] release_line(ls, j),
            best is Some ==> {
                &&& 0 <= bk < i
                &&& release_line(ls, bk)
                &&& best->0@ == trim_spec(ls[bk])
                &&& all_digits(b0@) && all_digits(b1@) && all_digits(b2@)
                &&& (decimal_value(b0@), decimal_value(b1@), decimal_value(b2@)) == line_version(ls, bk)
                &&& forall|j: int|
                    0 <= j < i && #[trigger] release_line(ls, j) ==> !version_lt(
                        line_version(ls, bk),
                        line_version(ls, j),
                    )
                &&& forall|j: int|
                    0 <= j < bk && #[trigger] release_line(ls, j) ==> version_lt(
                        line_version(ls, j),
                        line_version(ls, bk),
                    )
            },
        decreases lines.len() - i,
    {
        assert(ls[i as int] == lines@[i as int]@);
        let t = trim_chars(&lines[i]);
        let s = string_from(t.as_slice());
        assert(s@ == trim_spec(ls[i as int]));
        match version_parts(s.as_str()) {
            None => {
                assert(!release_line(ls, i as int));
            },
            Some((p0, p1, p2)) => {
                proof {
                    let ps = tag_parts(s@);
                    assert(ps[0].len() > 0 && all_digits(ps[0]));
                    assert(ps[1].len() > 0 && all_digits(ps[1]));
                    assert(ps[2].len() > 0 && all_digits(ps[2]));
                    assert(release_line(ls, i as int));
                    assert(line_version(ls, i as int) == version_of(s@));
                }
                let newer = match &best {
                    None => true,
                    Some(_) => version_before(&b0, &b1, &b2, &p0, &p1, &p2),
                };
                if newer {
                    best = Some(s);
                    b0 = p0;
                    b1 = p1;
                    b2 = p2;
                    proof {
                        bk = i as int;
                    }
                }
            },
        }
        i = i + 1;
    }
    proof {
        match best {
            None => {
                if exists|k: int| latest_at(ls, k) {
                    let k = choose|k: int| latest_at(ls, k);
                    assert(release_line(ls, k));
                }
            },
            Some(_) => {
                assert(latest_at(ls, bk));
                let k = choose|k: int| latest_at(ls, k);
                lemma_latest_unique(ls, k, bk);
            },
        }
    }
    Ok(best)
}

/// The arguments that create a release tag, or the error when the tag
/// is not a release tag.
pub fn create_tag(tag: &str) -> (r: Result<Vec<String>, String>)
    ensures
        match r {
            Ok(args) => release_tag_spec(tag@) && arg_views(args@) == seq!["tag"@, tag@],
            Err(e) => !release_tag_spec(tag@) && e@ == "Tag must be semver-like (v1.2.3 or 1.2.3)"@,
        },
{
    if !is_release_tag(tag) {
        return Err("Tag must be semver-like (v1.2.3 or 1.2.3)".to_owned());
    }
    let r = owned_args(&["tag", tag]);
    assert(arg_views(r@) =~= seq!["tag"@, tag@]);
    Ok(r)
}

/// The outcome of creating a tag.
pub fn create_tag_outcome(out: &GitOutput) -> (r: Result<(), String>)
    ensures
        match r {
            Ok(()) => out.success,
            Err(e) => !out.success && e@ == failure_spec("Failed to create tag: "@, out.stderr@),
        },
{
    outcome_trimmed(out, "Failed to create tag: ")
}

/// The arguments that push a tag to the upstream's remote, or to `origin`.
pub fn push_tag_args(tag: &str, upstream: Option<(String, String)>) -> (r: Vec<String>)
    ensures
        arg_views(r@) == seq!["push"@, push_remote_spec(opt_pair_view(upstream)), tag@],
{
    let remote = match upstream {
        Some((r, _)) => r,
        None => "origin".to_owned(),
    };
    let r = owned_args(&["push", remote.as_str(), tag]);
    assert(arg_views(r@) =~= seq!["push"@, push_remote_spec(opt_pair_view(upstream)), tag@]);
    r
}

/// The outcome of pushing a tag.
pub fn push_tag(out: &GitOutput) -> (r: Result<(), String>)
    ensures
        match r {
            Ok(()) => out.success,
            Err(e) => !out.success && e@ == failure_spec("Failed to push tag: "@, out.stderr@),
        },
{
    outcome_trimmed(out, "Failed to push tag: ")
}

} // verus!
