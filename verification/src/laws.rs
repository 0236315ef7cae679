//! The laws the library promises, each stated over the model and proved:
//! how parsing relates to rendering, and how `pop` and `join` relate to the
//! path's segments.

use vstd::prelude::*;

use crate::model::{
    appended, cur_dir, depth, find_from, has_prefix, http_prefix, https_prefix, joined,
    lemma_find_from, parsed, parts_of, popped, rendered, split_at_sep, up_dir,
};

verus! {

/// Parsing splits the input exactly at its separator, so rendering the
/// parsed value yields `host ':' path`: byte-for-byte the input for an
/// scp-like input with a non-empty path, and, for the `http(s)` shapes, the
/// input with the `'/'` at the host boundary turned into `':'`.
pub proof fn lemma_parse_splits_input(s: Seq<char>, host: Seq<char>, path: Seq<char>)
    requires
        parsed(s) == Some((host, path)),
    ensures
        has_prefix(s, http_prefix()) || has_prefix(s, https_prefix()) ==> s == host + seq!['/']
            + path,
        !has_prefix(s, http_prefix()) && !has_prefix(s, https_prefix()) ==> s == host + seq![':']
            + path,
        path.len() > 0 ==> rendered(host, path) == host + seq![':'] + path,
        path.len() == 0 ==> rendered(host, path) == host,
{
    if has_prefix(s, http_prefix()) {
        lemma_split_exact(s, '/', http_prefix().len() as int, host, path);
    } else if has_prefix(s, https_prefix()) {
        lemma_split_exact(s, '/', https_prefix().len() as int, host, path);
    } else {
        lemma_split_exact(s, ':', 0, host, path);
    }
}

/// A successful split really is a split: the input is the host, the
/// separator, and the path, in that order.
proof fn lemma_split_exact(s: Seq<char>, sep: char, from: int, host: Seq<char>, path: Seq<char>)
    requires
        0 <= from,
        split_at_sep(s, sep, from) == Some((host, path)),
    ensures
        s == host + seq![sep] + path,
{
    lemma_find_from(s, sep, from);
    let j = find_from(s, sep, from);
    assert(s =~= s.take(j) + seq![s[j]] + s.skip(j + 1));
}

/// `join` with the single piece `"."` changes nothing.
pub proof fn lemma_join_cur_dir(p: Seq<char>)
    ensures
        joined(p, parts_of(cur_dir())) == Some(p),
{
    lemma_find_from(cur_dir(), '/', 0);
    assert(parts_of(cur_dir()) =~= seq![cur_dir()]);
    assert(seq![cur_dir()].drop_first() =~= Seq::<Seq<char>>::empty());
    assert(joined(p, Seq::<Seq<char>>::empty()) == Some(p));
}

/// `join` with the single piece `".."` is exactly one `pop`: it removes the
/// trailing segment, and it fails exactly on the empty path.
pub proof fn lemma_join_up_dir(p: Seq<char>)
    ensures
        p.len() == 0 ==> joined(p, parts_of(up_dir())) is None,
        p.len() > 0 ==> joined(p, parts_of(up_dir())) == Some(popped(p)),
{
    lemma_find_from(up_dir(), '/', 0);
    assert(parts_of(up_dir()) =~= seq![up_dir()]);
    assert(seq![up_dir()].drop_first() =~= Seq::<Seq<char>>::empty());
    if p.len() > 0 {
        assert(joined(popped(p), Seq::<Seq<char>>::empty()) == Some(popped(p)));
    }
}

/// `join` fails whenever any piece of the relative path is empty, wherever
/// that piece stands.
pub proof fn lemma_join_empty_piece(p: Seq<char>, parts: Seq<Seq<char>>, i: int)
    requires
        0 <= i < parts.len(),
        parts[i].len() == 0,
    ensures
        joined(p, parts) is None,
    decreases i,
{
    if i > 0 {
        let seg = parts[0];
        assert(parts.drop_first()[i - 1] == parts[i]);
        if seg.len() == 0 {
        } else if seg == up_dir() {
            if p.len() > 0 {
                lemma_join_empty_piece(popped(p), parts.drop_first(), i - 1);
            }
        } else if seg == cur_dir() {
            lemma_join_empty_piece(p, parts.drop_first(), i - 1);
        } else {
            lemma_join_empty_piece(appended(p, seg), parts.drop_first(), i - 1);
        }
    }
}

/// `join` with a child that begins with `'/'` fails: its first piece is
/// empty.
pub proof fn lemma_join_leading_slash(p: Seq<char>, child: Seq<char>)
    requires
        child.len() > 0,
        child[0] == '/',
    ensures
        joined(p, parts_of(child)) is None,
{
    assert(find_from(child, '/', 0) == 0);
    assert(parts_of(child)[0] =~= child.take(0));
    lemma_join_empty_piece(p, parts_of(child), 0);
}

/// A chain of `".."` pieces longer than the path's depth makes the whole
/// `join` fail, whatever follows the chain: climbing past the root is never
/// clamped.
pub proof fn lemma_join_past_root(p: Seq<char>, parts: Seq<Seq<char>>, m: int)
    requires
        0 <= m <= parts.len(),
        forall|i: int| 0 <= i < m ==> parts[i] == up_dir(),
        depth(p) < m,
    ensures
        joined(p, parts) is None,
    decreases m,
{
    assert(parts[0] == up_dir());
    if p.len() > 0 {
        assert(depth(p) == 1 + depth(popped(p)));
        assert(forall|i: int| 0 <= i < m - 1 ==> parts.drop_first()[i] == parts[i + 1]);
        lemma_join_past_root(popped(p), parts.drop_first(), m - 1);
    }
}

/// `pop` succeeds exactly `depth(p)` times in sequence: the depth is zero
/// exactly on the empty path, and each successful pop lowers it by one.
pub proof fn lemma_pop_depth(p: Seq<char>)
    ensures
        (depth(p) == 0) <==> (p.len() == 0),
        p.len() > 0 ==> depth(popped(p)) == depth(p) - 1,
{
}

/// Appending one non-empty, slash-free segment raises the depth by one, and
/// popping afterwards removes exactly that segment, giving back the original
/// path.
pub proof fn lemma_pop_appended(p: Seq<char>, seg: Seq<char>)
    requires
        seg.len() > 0,
        forall|i: int| 0 <= i < seg.len() ==> seg[i] != '/',
    ensures
        popped(appended(p, seg)) == p,
        depth(appended(p, seg)) == depth(p) + 1,
{
    if p.len() == 0 {
        lemma_popped_no_slash(seg);
        assert(popped(appended(p, seg)) =~= p);
    } else {
        lemma_popped_after_sep(p, seg);
    }
    assert(appended(p, seg).len() > 0);
}

/// A slash-free path holds a single segment: popping it empties the path.
proof fn lemma_popped_no_slash(s: Seq<char>)
    requires
        forall|i: int| 0 <= i < s.len() ==> s[i] != '/',
    ensures
        popped(s) == Seq::<char>::empty(),
    decreases s.len(),
{
    if s.len() > 0 {
        assert(forall|i: int| 0 <= i < s.drop_last().len() ==> s.drop_last()[i] == s[i]);
        lemma_popped_no_slash(s.drop_last());
    }
}

/// Popping a path that ends in `'/'` followed by a slash-free tail truncates
/// exactly at that `'/'`.
proof fn lemma_popped_after_sep(p: Seq<char>, seg: Seq<char>)
    requires
        forall|i: int| 0 <= i < seg.len() ==> seg[i] != '/',
    ensures
        popped(p + seq!['/'] + seg) == p,
    decreases seg.len(),
{
    let whole = p + seq!['/'] + seg;
    if seg.len() == 0 {
        assert(whole[whole.len() - 1] == '/');
        assert(whole.drop_last() =~= p);
    } else {
        assert(whole[whole.len() - 1] == seg[seg.len() - 1]);
        assert(whole.drop_last() =~= p + seq!['/'] + seg.drop_last());
        assert(forall|i: int| 0 <= i < seg.drop_last().len() ==> seg.drop_last()[i] == seg[i]);
        lemma_popped_after_sep(p, seg.drop_last());
    }
}

} // verus!
