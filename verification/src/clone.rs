//! The repository name in a clone address.
use vstd::prelude::*;

use crate::text::{chars_of, ends_with, ends_with_spec, slice_chars, string_from, trim_chars, trim_spec};

verus! {

/// What follows the last `/` of a text (all of it when it has none).
pub open spec fn last_segment(s: Seq<char>) -> Seq<char>
    decreases s.len(),
{
    if s.len() == 0 {
        s
    } else if s.last() == '/' {
        seq![]
    } else {
        last_segment(s.drop_last()).push(s.last())
    }
}

/// The repository name of an address (`https://github.com/user/repo`,
/// `github.com/user/repo.git`, `user/repo` or `repo`): its last segment,
/// without `.git`.
pub open spec fn repo_name_spec(url: Seq<char>) -> Result<Seq<char>, Seq<char>> {
    let p = last_segment(trim_spec(url));
    if p.len() == 0 {
        Err("Could not extract repository name from URL"@)
    } else if ends_with_spec(p, ".git"@) {
        Ok(p.take(p.len() - 4))
    } else {
        Ok(p)
    }
}

/// The last segment starts after the last `/`.
proof fn lemma_last_segment(s: Seq<char>, k: int)
    requires
        0 <= k <= s.len(),
        k == 0 || s[k - 1] == '/',
        forall|j: int| k <= j < s.len() ==> s[j] != '/',
    ensures
        last_segment(s) == s.skip(k),
    decreases s.len(),
{
    if s.len() == k {
        if k > 0 {
            assert(s.skip(k) =~= Seq::<char>::empty());
        } else {
            assert(s.skip(0) =~= s);
        }
    } else {
        lemma_last_segment(s.drop_last(), k);
        assert(s.skip(k) =~= s.drop_last().skip(k).push(s.last()));
    }
}

/// The repository name of a clone address, or the error when it has none.
pub fn extract_repo_name(url: &str) -> (r: Result<String, String>)
    ensures
        match r {
            Ok(n) => repo_name_spec(url@) == Ok::<Seq<char>, Seq<char>>(n@),
            Err(e) => repo_name_spec(url@) == Err::<Seq<char>, Seq<char>>(e@),
        },
{
    let t = trim_chars(&chars_of(url));
    let mut k: usize = t.len();
    while k > 0 && t[k - 1] != '/'
        invariant
            k <= t@.len(),
            forall|j: int| k <= j < t@.len() ==> t@[j] != '/',
        decreases k,
    {
        k = k - 1;
    }
    proof {
        lemma_last_segment(t@, k as int);
    }
    let p = slice_chars(&t, k, t.len());
    assert(p@ =~= t@.skip(k as int));
    if p.len() == 0 {
        return Err("Could not extract repository name from URL".to_owned());
    }
    let suffix = chars_of(".git");
    if ends_with(&p, &suffix) {
        proof {
            reveal_strlit(".git");
        }
        let name = slice_chars(&p, 0, p.len() - 4);
        assert(name@ =~= p@.take(p@.len() - 4));
        Ok(string_from(name.as_slice()))
    } else {
        Ok(string_from(p.as_slice()))
    }
}

} // verus!
