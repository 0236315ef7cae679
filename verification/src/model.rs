//! The mathematical model: spec functions over `Seq<char>` that say what
//! parsing, rendering, `pop` and `join` compute, together with the basic
//! lemmas about them.

use vstd::prelude::*;

verus! {

/// The characters of `"http://"`.
pub open spec fn http_prefix() -> Seq<char> {
    seq!['h', 't', 't', 'p', ':', '/', '/']
}

/// The characters of `"https://"`.
pub open spec fn https_prefix() -> Seq<char> {
    seq!['h', 't', 't', 'p', 's', ':', '/', '/']
}

/// The relative-path segment `".."`: go up one segment.
pub open spec fn up_dir() -> Seq<char> {
    seq!['.', '.']
}

/// The relative-path segment `"."`: stay in place.
pub open spec fn cur_dir() -> Seq<char> {
    seq!['.']
}

/// `s` begins with `prefix`.
pub open spec fn has_prefix(s: Seq<char>, prefix: Seq<char>) -> bool {
    s.len() >= prefix.len() && s.take(prefix.len() as int) == prefix
}

/// The least index `j >= from` with `s[j] == c`, or `-1` if there is none.
pub open spec fn find_from(s: Seq<char>, c: char, from: int) -> int
    decreases s.len() - from,
{
    if from < 0 || from >= s.len() {
        -1
    } else if s[from] == c {
        from
    } else {
        find_from(s, c, from + 1)
    }
}

/// The greatest index `j` with `p[j] == '/'`, or `-1` if there is none.
pub open spec fn last_slash(p: Seq<char>) -> int
    decreases p.len(),
{
    if p.len() == 0 {
        -1
    } else if p[p.len() - 1] == '/' {
        p.len() - 1
    } else {
        last_slash(p.drop_last())
    }
}

/// The path after removing the trailing segment: everything before the last
/// `'/'`, or the empty path when `p` holds no `'/'` at all.
pub open spec fn popped(p: Seq<char>) -> Seq<char>
    decreases p.len(),
{
    if p.len() == 0 {
        Seq::empty()
    } else if p[p.len() - 1] == '/' {
        p.drop_last()
    } else {
        popped(p.drop_last())
    }
}

/// `seg` appended to the path `p`, with a `'/'` separator when `p` is
/// non-empty.
pub open spec fn appended(p: Seq<char>, seg: Seq<char>) -> Seq<char> {
    if p.len() == 0 {
        seg
    } else {
        p + seq!['/'] + seg
    }
}

/// How many times the path `p` can be popped before it is empty.
pub open spec fn depth(p: Seq<char>) -> nat
    decreases p.len(),
    via depth_decreases
{
    if p.len() == 0 {
        0
    } else {
        1 + depth(popped(p))
    }
}

#[via_fn]
proof fn depth_decreases(p: Seq<char>) {
    if p.len() > 0 {
        lemma_popped_shorter(p);
    }
}

/// `c` split at every `'/'`, exactly as `str::split('/')` hands the pieces
/// out: the empty text gives one empty piece, and leading, trailing or
/// doubled slashes give empty pieces.
pub open spec fn parts_of(c: Seq<char>) -> Seq<Seq<char>>
    decreases c.len(),
    via parts_of_decreases
{
    let j = find_from(c, '/', 0);
    if j < 0 {
        seq![c]
    } else {
        seq![c.take(j)] + parts_of(c.skip(j + 1))
    }
}

#[via_fn]
proof fn parts_of_decreases(c: Seq<char>) {
    lemma_find_from(c, '/', 0);
}

/// The path that results from resolving the relative-path pieces `parts`, in
/// order, against the path `p`; `None` when resolution fails. An empty piece
/// fails; `".."` removes the trailing segment and fails on an empty path;
/// `"."` changes nothing; any other piece is appended.
pub open spec fn joined(p: Seq<char>, parts: Seq<Seq<char>>) -> Option<Seq<char>>
    decreases parts.len(),
{
    if parts.len() == 0 {
        Some(p)
    } else {
        let seg = parts[0];
        if seg.len() == 0 {
            None
        } else if seg == up_dir() {
            if p.len() == 0 {
                None
            } else {
                joined(popped(p), parts.drop_first())
            }
        } else if seg == cur_dir() {
            joined(p, parts.drop_first())
        } else {
            joined(appended(p, seg), parts.drop_first())
        }
    }
}

/// The host and path taken from `s`: after an `"http://"` or `"https://"`
/// prefix the text splits at the first `'/'` past the prefix, otherwise at
/// the first `':'`; `None` when the separator is missing.
pub open spec fn parsed(s: Seq<char>) -> Option<(Seq<char>, Seq<char>)> {
    if has_prefix(s, http_prefix()) {
        split_at_sep(s, '/', http_prefix().len() as int)
    } else if has_prefix(s, https_prefix()) {
        split_at_sep(s, '/', https_prefix().len() as int)
    } else {
        split_at_sep(s, ':', 0)
    }
}

/// `s` split at the first occurrence of `sep` at an index `>= from`: the text
/// before it and the text after it, or `None` if `sep` does not occur there.
pub open spec fn split_at_sep(s: Seq<char>, sep: char, from: int) -> Option<(Seq<char>, Seq<char>)> {
    let j = find_from(s, sep, from);
    if j < 0 {
        None
    } else {
        Some((s.take(j), s.skip(j + 1)))
    }
}

/// The rendered text: the host alone for an empty path, otherwise
/// `host ":" path`.
pub open spec fn rendered(host: Seq<char>, path: Seq<char>) -> Seq<char> {
    if path.len() == 0 {
        host
    } else {
        host + seq![':'] + path
    }
}

/// `find_from(s, c, from)` is the least index of `c` at or after `from`:
/// it lies in `[from, s.len())` and points at `c` unless it is `-1`, and no
/// index of `c` precedes it.
pub proof fn lemma_find_from(s: Seq<char>, c: char, from: int)
    requires
        0 <= from,
    ensures
        find_from(s, c, from) == -1 || from <= find_from(s, c, from) < s.len(),
        find_from(s, c, from) >= 0 ==> s[find_from(s, c, from)] == c,
        forall|j: int|
            from <= j < s.len() && (find_from(s, c, from) == -1 || j < find_from(s, c, from))
                ==> s[j] != c,
    decreases s.len() - from,
{
    if from < s.len() && s[from] != c {
        lemma_find_from(s, c, from + 1);
    }
}

/// `last_slash(p)` is the greatest index of `'/'` in `p`: it lies in
/// `[0, p.len())` and points at `'/'` unless it is `-1`, and no index of
/// `'/'` follows it.
pub proof fn lemma_last_slash(p: Seq<char>)
    ensures
        -1 <= last_slash(p) < p.len(),
        last_slash(p) >= 0 ==> p[last_slash(p)] == '/',
        forall|j: int| last_slash(p) < j < p.len() ==> p[j] != '/',
    decreases p.len(),
{
    if p.len() > 0 && p[p.len() - 1] != '/' {
        lemma_last_slash(p.drop_last());
        assert(forall|j: int| 0 <= j < p.len() - 1 ==> p[j] == p.drop_last()[j]);
    }
}

/// Removing the trailing segment of a non-empty path removes at least one
/// character.
pub proof fn lemma_popped_shorter(p: Seq<char>)
    requires
        p.len() > 0,
    ensures
        popped(p).len() < p.len(),
    decreases p.len(),
{
    if p[p.len() - 1] != '/' {
        if p.len() > 1 {
            lemma_popped_shorter(p.drop_last());
        } else {
            assert(p.drop_last().len() == 0);
            assert(popped(p.drop_last()) == Seq::<char>::empty());
        }
    }
}

/// `popped` truncates at the last `'/'`: everything before `last_slash(p)`
/// when `p` holds a `'/'`, and the empty path otherwise.
pub proof fn lemma_popped_take(p: Seq<char>)
    requires
        p.len() > 0,
    ensures
        last_slash(p) >= 0 ==> popped(p) == p.take(last_slash(p)),
        last_slash(p) < 0 ==> popped(p) == Seq::<char>::empty(),
    decreases p.len(),
{
    lemma_last_slash(p);
    if p[p.len() - 1] == '/' {
        assert(popped(p) =~= p.take(p.len() - 1));
    } else {
        if p.len() == 1 {
            assert(p.drop_last().len() == 0);
            assert(popped(p.drop_last()) == Seq::<char>::empty());
        } else {
            lemma_popped_take(p.drop_last());
            lemma_last_slash(p.drop_last());
            assert(last_slash(p) == last_slash(p.drop_last()));
            if last_slash(p) >= 0 {
                assert(p.drop_last().take(last_slash(p)) =~= p.take(last_slash(p)));
            }
        }
    }
}

} // verus!
