//! File-system path text: parents, file stems and joining a relative name.
//!
//! Paths are handled as text.  Taking a path apart is the standard library's
//! job (`Path::parent`, `Path::file_stem`) and goes through the trusted items
//! below; appending a relative component is stated and proved here.

use vstd::prelude::*;
use crate::text::{chars_of, concat_str};

verus! {

/// What `Path::parent` gives for a path written as `p`, as text.
pub uninterp spec fn spec_path_parent(p: Seq<char>) -> Option<Seq<char>>;

/// What `Path::file_stem` gives for a path written as `p`, as text.
pub uninterp spec fn spec_file_stem(p: Seq<char>) -> Option<Seq<char>>;

/// Calls `Path::parent` on the path spelled by `p`.  Claimed: the result (as
/// text) depends on `p` alone and is named `spec_path_parent`.
#[verifier::external_body]
pub(crate) fn path_parent(p: &str) -> (r: Option<String>)
    ensures
        match r {
            Some(q) => spec_path_parent(p@) == Some(q@),
            None => spec_path_parent(p@) is None,
        },
{
    std::path::Path::new(p).parent().map(|q| q.to_string_lossy().into_owned())
}

/// Calls `Path::file_stem` on the path spelled by `p`.  Claimed: the result (as
/// text) depends on `p` alone and is named `spec_file_stem`.
#[verifier::external_body]
pub(crate) fn path_file_stem(p: &str) -> (r: Option<String>)
    ensures
        match r {
            Some(q) => spec_file_stem(p@) == Some(q@),
            None => spec_file_stem(p@) is None,
        },
{
    std::path::Path::new(p).file_stem().map(|q| q.to_string_lossy().into_owned())
}

/// `base` extended by the relative component `name`, with a `/` between them
/// unless `base` is empty or already ends in `/` (`Path::join` with a relative name).
pub open spec fn join_path(base: Seq<char>, name: Seq<char>) -> Seq<char> {
    if base.len() > 0 && base.last() != '/' {
        base + seq!['/'] + name
    } else {
        base + name
    }
}

/// `base` extended by the relative component `name`.
pub fn join_relative(base: &str, name: &str) -> (r: String)
    ensures
        r@ == join_path(base@, name@),
{
    let chars = chars_of(base);
    if chars.len() > 0 && chars[chars.len() - 1] != '/' {
        let with_sep = concat_str(base, "/");
        proof {
            reveal_strlit("/");
            assert("/"@ =~= seq!['/']);
        }
        let r = concat_str(with_sep.as_str(), name);
        r
    } else {
        concat_str(base, name)
    }
}

} // verus!
