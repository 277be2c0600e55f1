//! The search path of the user: how the directory of the program is put on
//! it.

use vstd::prelude::*;
use crate::text::{contains, contains_chars, from_chars, push_str, to_chars};

verus! {

/// What `str::to_lowercase` makes of a text: its lowercase form by the
/// rules of Unicode.
pub uninterp spec fn lowercase(text: Seq<char>) -> Seq<char>;

/// `str::to_lowercase`: the lowercase form of the text. It depends on the
/// text alone.
#[verifier::external_body]
fn to_lowercase(text: &str) -> (lower: String)
    ensures
        lower@ == lowercase(text@),
{
    text.to_lowercase()
}

/// The search path with `dir` at its end, after a `;`.
pub open spec fn path_with(current: Seq<char>, dir: Seq<char>) -> Seq<char> {
    current + ";"@ + dir
}

/// The search path to store so that `dir` is on it: nothing where the
/// lowercase form `dir_lower` of the directory stands in the lowercase form
/// `current_lower` of the path already.
pub fn path_unless_listed(current: &str, dir: &str, current_lower: &str, dir_lower: &str) -> (path:
    Option<String>)
    ensures
        contains(current_lower@, dir_lower@) ==> path is None,
        !contains(current_lower@, dir_lower@) ==> (path matches Some(text) && text@ == path_with(
            current@,
            dir@,
        )),
{
    let hay = to_chars(current_lower);
    let needle = to_chars(dir_lower);
    if contains_chars(&hay, &needle) {
        None
    } else {
        let mut out = to_chars(current);
        push_str(&mut out, ";");
        push_str(&mut out, dir);
        Some(from_chars(&out))
    }
}

/// The search path to store so that `dir` is on it: nothing where `dir`
/// stands in the path already, in whatever case.
pub fn add_to_path(current: &str, dir: &str) -> (path: Option<String>)
    ensures
        contains(lowercase(current@), lowercase(dir@)) ==> path is None,
        !contains(lowercase(current@), lowercase(dir@)) ==> (path matches Some(text) && text@
            == path_with(current@, dir@)),
{
    let current_lower = to_lowercase(current);
    let dir_lower = to_lowercase(dir);
    path_unless_listed(current, dir, current_lower.as_str(), dir_lower.as_str())
}

} // verus!
