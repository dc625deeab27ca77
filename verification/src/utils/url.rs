//! Joining of path and URL segments.

use crate::utils::text::{chars_of, string_of_range, strip_trailing, strip_trailing_len};
use vstd::prelude::*;

verus! {

/// `base` without its trailing slashes, then `url`, with exactly one slash
/// put between them where `url` does not bring its own.
pub open spec fn merged_url(base: Seq<char>, url: Seq<char>) -> Seq<char> {
    let head = strip_trailing(base, '/');
    if url.len() > 0 && url[0] == '/' {
        head + url
    } else {
        head + seq!['/'] + url
    }
}

/// Joins `url` onto `base` with a single slash between them.
pub fn merge_url(base: &str, url: &str) -> (merged: String)
    ensures
        merged@ == merged_url(base@, url@),
{
    let b = chars_of(base);
    let u = chars_of(url);
    let end = strip_trailing_len(&b, '/');
    let mut merged = string_of_range(&b, 0, end);
    if !(u.len() > 0 && u[0] == '/') {
        merged.push('/');
    }
    merged.append(url);
    merged
}

} // verus!
