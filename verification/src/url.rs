//! The `GitUrl` value type: parsing, rendering, and the `pop` / `join`
//! navigation operations, each proved against the model.

use vstd::prelude::*;
use vstd::string::StrSliceExecFns;
use vstd::string::StringExecFns;

use crate::model::{
    appended, cur_dir, http_prefix, https_prefix, joined, lemma_popped_take, parsed, parts_of,
    popped, rendered, split_at_sep, up_dir,
};
use crate::text::{find_char_from, rfind_slash, str_eq, str_has_prefix, substr_string};

verus! {

/// The error of `GitUrl::parse`: none of the three recognized shapes
/// matched, because the required separator is missing. It carries the
/// offending input text.
#[derive(Debug)]
pub struct ParseGitUrlError(pub String);

/// A git-style remote URL, decomposed into a fixed `host` and a mutable
/// `path` of `/`-separated segments. The path may be empty, meaning "at the
/// root".
#[derive(Debug)]
pub struct GitUrl {
    host: String,
    path: String,
}

impl GitUrl {
    /// The characters of the host component.
    pub closed spec fn host_chars(&self) -> Seq<char> {
        self.host@
    }

    /// The characters of the path component.
    pub closed spec fn path_chars(&self) -> Seq<char> {
        self.path@
    }

    /// The host component. It is set at parse time and never modified by
    /// any operation.
    pub fn host(&self) -> (r: &String)
        ensures
            r@ == self.host_chars(),
    {
        &self.host
    }

    /// The path component: a `/`-joined sequence of segments, empty at the
    /// root.
    pub fn path(&self) -> (r: &String)
        ensures
            r@ == self.path_chars(),
    {
        &self.path
    }

    /// Splits `s` into host and path. After an `"http://"` or `"https://"`
    /// prefix the split is at the first `'/'` past the prefix; otherwise it
    /// is at the first `':'`. Fails, carrying `s`, exactly when that
    /// separator is missing.
    pub fn parse(s: &str) -> (r: Result<GitUrl, ParseGitUrlError>)
        ensures
            match r {
                Ok(u) => parsed(s@) == Some((u.host_chars(), u.path_chars())),
                Err(e) => parsed(s@) is None && e.0@ == s@,
            },
    {
        proof {
            reveal_strlit("http://");
            reveal_strlit("https://");
            assert("http://"@ =~= http_prefix());
            assert("https://"@ =~= https_prefix());
        }
        let n = s.unicode_len();
        if str_has_prefix(s, "http://") {
            Self::split_after(s, 7, n)
        } else if str_has_prefix(s, "https://") {
            Self::split_after(s, 8, n)
        } else {
            match find_char_from(s, ':', 0) {
                Some(j) => {
                    let host = substr_string(s, 0, j);
                    let path = substr_string(s, j + 1, n);
                    proof {
                        assert(host@ =~= s@.take(j as int));
                        assert(path@ =~= s@.skip(j as int + 1));
                    }
                    Ok(GitUrl { host, path })
                },
                None => Err(ParseGitUrlError(s.to_owned())),
            }
        }
    }

    /// The common tail of the two `http(s)` parse rules: split at the first
    /// `'/'` at or after `from`, taking the host up to it and the path after
    /// it.
    fn split_after(s: &str, from: usize, n: usize) -> (r: Result<GitUrl, ParseGitUrlError>)
        requires
            from <= s@.len(),
            n == s@.len(),
        ensures
            match r {
                Ok(u) => split_at_sep(s@, '/', from as int) == Some(
                    (u.host_chars(), u.path_chars()),
                ),
                Err(e) => split_at_sep(s@, '/', from as int) is None && e.0@ == s@,
            },
    {
        match find_char_from(s, '/', from) {
            Some(j) => {
                let host = substr_string(s, 0, j);
                let path = substr_string(s, j + 1, n);
                proof {
                    assert(host@ =~= s@.take(j as int));
                    assert(path@ =~= s@.skip(j as int + 1));
                }
                Ok(GitUrl { host, path })
            },
            None => Err(ParseGitUrlError(s.to_owned())),
        }
    }

    /// A new value with the last path segment removed, or `None` when the
    /// path is already empty.
    pub fn pop(&self) -> (r: Option<GitUrl>)
        ensures
            match r {
                Some(u) => self.path_chars().len() > 0 && u.host_chars() == self.host_chars()
                    && u.path_chars() == popped(self.path_chars()),
                None => self.path_chars().len() == 0,
            },
    {
        let mut temp = self.clone();
        if temp.pop_mut() {
            Some(temp)
        } else {
            None
        }
    }

    /// Removes the last path segment in place. Reports `false`, changing
    /// nothing, when the path is already empty.
    pub fn pop_mut(&mut self) -> (r: bool)
        ensures
            r == (old(self).path_chars().len() > 0),
            final(self).host_chars() == old(self).host_chars(),
            r ==> final(self).path_chars() == popped(old(self).path_chars()),
            !r ==> final(self).path_chars() == old(self).path_chars(),
    {
        Self::pop_helper(&mut self.path)
    }

    /// Truncates `path` at its last `'/'`, or clears it when it holds none;
    /// reports `false`, changing nothing, when `path` is already empty.
    fn pop_helper(path: &mut String) -> (r: bool)
        ensures
            r == (old(path)@.len() > 0),
            r ==> final(path)@ == popped(old(path)@),
            !r ==> final(path)@ == old(path)@,
    {
        let ghost p0 = path@;
        if path.as_str().is_empty() {
            false
        } else {
            proof {
                lemma_popped_take(p0);
            }
            match rfind_slash(path.as_str()) {
                Some(pos) => {
                    let shortened = substr_string(path.as_str(), 0, pos);
                    proof {
                        assert(shortened@ =~= p0.take(pos as int));
                    }
                    *path = shortened;
                },
                None => {
                    *path = String::new();
                },
            }
            true
        }
    }

    /// A new value with `child_path` resolved against the current path, or
    /// `None` when resolution fails.
    pub fn join(&self, child_path: &str) -> (r: Option<GitUrl>)
        ensures
            match r {
                Some(u) => joined(self.path_chars(), parts_of(child_path@)) == Some(
                    u.path_chars(),
                ) && u.host_chars() == self.host_chars(),
                None => joined(self.path_chars(), parts_of(child_path@)) is None,
            },
    {
        let mut temp = self.clone();
        if temp.join_mut(child_path) {
            Some(temp)
        } else {
            None
        }
    }

    /// Resolves `child_path` against the current path in place. Reports
    /// `false`, changing nothing, when resolution fails: on any empty piece
    /// of `child_path` (a leading, trailing or doubled slash), or on a
    /// `".."` that would climb above the root.
    pub fn join_mut(&mut self, child_path: &str) -> (r: bool)
        ensures
            r == (joined(old(self).path_chars(), parts_of(child_path@)) is Some),
            final(self).host_chars() == old(self).host_chars(),
            r ==> Some(final(self).path_chars()) == joined(
                old(self).path_chars(),
                parts_of(child_path@),
            ),
            !r ==> final(self).path_chars() == old(self).path_chars(),
    {
        match Self::resolve(self.path.as_str(), child_path) {
            Some(resolved) => {
                self.path = resolved;
                true
            },
            None => false,
        }
    }

    /// Walks the pieces of `child_path` in order over a working copy of
    /// `path`, failing on an empty piece and on a `".."` at the root.
    fn resolve(path: &str, child_path: &str) -> (r: Option<String>)
        ensures
            match r {
                Some(q) => joined(path@, parts_of(child_path@)) == Some(q@),
                None => joined(path@, parts_of(child_path@)) is None,
            },
    {
        let mut working: String = path.to_owned();
        let mut rem: &str = child_path;
        loop
            invariant
                joined(path@, parts_of(child_path@)) == joined(working@, parts_of(rem@)),
            decreases rem@.len(),
        {
            proof {
                reveal_strlit(".");
                reveal_strlit("..");
                reveal_strlit("/");
                assert("."@ =~= cur_dir());
                assert(".."@ =~= up_dir());
            }
            let ghost rem0 = rem@;
            let n = rem.unicode_len();
            let next = find_char_from(rem, '/', 0);
            let part: &str = match next {
                Some(j) => rem.substring_char(0, j),
                None => rem,
            };
            let ghost parts = parts_of(rem@);
            proof {
                match next {
                    Some(j) => {
                        assert(parts == seq![rem@.take(j as int)] + parts_of(
                            rem@.skip(j as int + 1),
                        ));
                        assert(part@ =~= rem@.take(j as int));
                        assert(parts[0] == part@);
                        assert(parts.drop_first() =~= parts_of(rem@.skip(j as int + 1)));
                    },
                    None => {
                        assert(parts == seq![rem@]);
                        assert(parts[0] == part@);
                        assert(parts.drop_first() =~= Seq::<Seq<char>>::empty());
                    },
                }
            }
            let ghost before = working@;
            if part.is_empty() {
                proof {
                    assert(joined(before, parts) is None);
                }
                return None;
            } else if str_eq(part, "..") {
                if !Self::pop_helper(&mut working) {
                    proof {
                        assert(joined(before, parts) is None);
                    }
                    return None;
                }
                proof {
                    assert(joined(before, parts) == joined(working@, parts.drop_first()));
                }
            } else if str_eq(part, ".") {
                proof {
                    assert(joined(before, parts) == joined(working@, parts.drop_first()));
                }
            } else {
                if !working.as_str().is_empty() {
                    working.append("/");
                }
                working.append(part);
                proof {
                    assert(working@ =~= appended(before, part@));
                    assert(joined(before, parts) == joined(working@, parts.drop_first()));
                }
            }
            match next {
                Some(j) => {
                    rem = rem.substring_char(j + 1, n);
                    proof {
                        assert(rem@ =~= rem0.skip(j as int + 1));
                    }
                },
                None => {
                    proof {
                        assert(joined(working@, parts.drop_first()) == Some(working@));
                    }
                    return Some(working);
                },
            }
        }
    }

    /// The rendered text: the host alone when the path is empty, otherwise
    /// `host`, `':'`, `path` — whatever separator the parsed input used.
    pub fn to_text(&self) -> (r: String)
        ensures
            r@ == rendered(self.host_chars(), self.path_chars()),
    {
        if self.path.as_str().is_empty() {
            self.host.clone()
        } else {
            proof {
                reveal_strlit(":");
            }
            let mut out = self.host.clone();
            out.append(":");
            out.append(self.path.as_str());
            proof {
                assert(out@ =~= rendered(self.host@, self.path@));
            }
            out
        }
    }
}

impl Clone for GitUrl {
    /// An identical copy: same host, same path.
    fn clone(&self) -> (r: Self)
        ensures
            r.host_chars() == self.host_chars(),
            r.path_chars() == self.path_chars(),
    {
        GitUrl { host: self.host.clone(), path: self.path.clone() }
    }
}

impl core::str::FromStr for GitUrl {
    type Err = ParseGitUrlError;

    fn from_str(s: &str) -> Result<GitUrl, ParseGitUrlError> {
        GitUrl::parse(s)
    }
}

} // verus!
