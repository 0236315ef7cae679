//! Executable character-level helpers on `&str`, each proved against the
//! spec functions of the model: prefix test, equality, first and last index
//! of a character, and substring extraction.

use vstd::prelude::*;
use vstd::string::StrSliceExecFns;

use crate::model::{find_from, has_prefix, last_slash};

verus! {

/// `s` and `t` hold the same characters.
pub(crate) fn str_eq(s: &str, t: &str) -> (r: bool)
    ensures
        r == (s@ == t@),
{
    let n = s.unicode_len();
    let m = t.unicode_len();
    if n != m {
        return false;
    }
    let mut i: usize = 0;
    while i < n
        invariant
            0 <= i <= n,
            n == s@.len(),
            n == t@.len(),
            forall|j: int| 0 <= j < i ==> s@[j] == t@[j],
        decreases n - i,
    {
        if s.get_char(i) != t.get_char(i) {
            return false;
        }
        i = i + 1;
    }
    proof {
        assert(s@ =~= t@);
    }
    true
}

/// `s` begins with the characters of `prefix`.
pub(crate) fn str_has_prefix(s: &str, prefix: &str) -> (r: bool)
    ensures
        r == has_prefix(s@, prefix@),
{
    let n = s.unicode_len();
    let m = prefix.unicode_len();
    if n < m {
        return false;
    }
    let mut i: usize = 0;
    while i < m
        invariant
            0 <= i <= m,
            m <= n,
            n == s@.len(),
            m == prefix@.len(),
            forall|j: int| 0 <= j < i ==> s@[j] == prefix@[j],
        decreases m - i,
    {
        if s.get_char(i) != prefix.get_char(i) {
            return false;
        }
        i = i + 1;
    }
    proof {
        assert(s@.take(prefix@.len() as int) =~= prefix@);
    }
    true
}

/// The least index `>= from` at which `c` occurs in `s`, if any.
pub(crate) fn find_char_from(s: &str, c: char, from: usize) -> (r: Option<usize>)
    requires
        from <= s@.len(),
    ensures
        match r {
            Some(i) => from <= i < s@.len() && find_from(s@, c, from as int) == i,
            None => find_from(s@, c, from as int) == -1,
        },
{
    let n = s.unicode_len();
    let mut i: usize = from;
    while i < n
        invariant
            from <= i <= n,
            n == s@.len(),
            find_from(s@, c, from as int) == find_from(s@, c, i as int),
        decreases n - i,
    {
        if s.get_char(i) == c {
            return Some(i);
        }
        i = i + 1;
    }
    None
}

/// The greatest index at which `'/'` occurs in `s`, if any.
pub(crate) fn rfind_slash(s: &str) -> (r: Option<usize>)
    ensures
        match r {
            Some(i) => i < s@.len() && last_slash(s@) == i,
            None => last_slash(s@) == -1,
        },
{
    let n = s.unicode_len();
    proof {
        assert(s@.take(n as int) =~= s@);
    }
    let mut i: usize = n;
    while i > 0
        invariant
            0 <= i <= n,
            n == s@.len(),
            last_slash(s@) == last_slash(s@.take(i as int)),
        decreases i,
    {
        let ghost prev = s@.take(i as int);
        proof {
            assert(prev.len() == i);
            assert(prev.drop_last() =~= s@.take(i - 1));
        }
        if s.get_char(i - 1) == '/' {
            proof {
                assert(prev[i - 1] == s@[i - 1]);
                assert(last_slash(prev) == i - 1);
            }
            return Some(i - 1);
        }
        proof {
            assert(prev[i - 1] == s@[i - 1]);
            assert(last_slash(prev) == last_slash(s@.take(i - 1)));
        }
        i = i - 1;
    }
    proof {
        assert(s@.take(0) =~= Seq::<char>::empty());
    }
    None
}

/// The characters of `s` from index `from` up to (not including) `to`, as an
/// owned `String`.
pub(crate) fn substr_string(s: &str, from: usize, to: usize) -> (r: String)
    requires
        from <= to <= s@.len(),
    ensures
        r@ == s@.subrange(from as int, to as int),
{
    let sub = s.substring_char(from, to);
    sub.to_owned()
}

} // verus!
