//! Paths as text, joined as `std::path::Path::join` joins them.
use crate::text::{is_prefix, join_text};
use vstd::prelude::*;

verus! {

/// `base` joined with `name`: an absolute `name` replaces `base`; else a
/// separator is put between them unless `base` is empty or already ends with one.
pub open spec fn spec_join_path(base: Seq<char>, name: Seq<char>) -> Seq<char> {
    if is_prefix("/"@, name) {
        name
    } else if base.len() == 0 || base.last() == '/' {
        base + name
    } else {
        base + "/"@ + name
    }
}

/// Joins `name` onto `base`.
pub fn join_path(base: &str, name: &str) -> (r: String)
    ensures
        r@ == spec_join_path(base@, name@),
{
    if crate::text::starts_with(name, "/") {
        return name.to_owned();
    }
    let n = base.unicode_len();
    if n == 0 || base.get_char(n - 1) == '/' {
        join_text(base, name)
    } else {
        let mut r = join_text(base, "/");
        r.append(name);
        r
    }
}

} // verus!
