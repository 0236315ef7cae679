//! A value type for git-style remote URLs (`http://host/path`,
//! `https://host/path`, or scp-like `host:path`), with verified parsing,
//! rendering, and directory-like navigation of the path component
//! (`pop` removes the trailing segment, `join` resolves a relative path).

use vstd::prelude::*;

pub mod laws;
pub mod model;
mod text;
pub mod url;

verus! {

pub use url::GitUrl;
pub use url::ParseGitUrlError;

} // verus!
