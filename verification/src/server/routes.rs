//! Which static files answer a request path.
use vstd::prelude::*;
use crate::text::str_eq;

verus! {

/// The static files to try, in order, for a request path; when none of them
/// can be served, the directory listing is the answer. The root is always
/// answered by the listing; `/404` and `/favicon.ico` try their own file and
/// then the fallback page `nothing.html`; every other path tries the fallback
/// page alone.
pub open spec fn spec_static_candidates(path: Seq<char>) -> Seq<Seq<char>> {
    if path == "/"@ {
        seq![]
    } else if path == "/404"@ {
        seq!["404.html"@, "nothing.html"@]
    } else if path == "/favicon.ico"@ {
        seq!["favicon.ico"@, "nothing.html"@]
    } else {
        seq!["nothing.html"@]
    }
}

/// The static files to try, in order, for a request path.
pub fn static_candidates(path: &str) -> (r: Vec<String>)
    ensures
        r@.map_values(|s: String| s@) == spec_static_candidates(path@),
{
    let mut out: Vec<String> = Vec::new();
    if str_eq(path, "/") {
    } else if str_eq(path, "/404") {
        out.push(String::from_str("404.html"));
        out.push(String::from_str("nothing.html"));
    } else if str_eq(path, "/favicon.ico") {
        out.push(String::from_str("favicon.ico"));
        out.push(String::from_str("nothing.html"));
    } else {
        out.push(String::from_str("nothing.html"));
    }
    assert(out@.map_values(|s: String| s@) =~= spec_static_candidates(path@));
    out
}

/// Every path but the root tries the fallback page `nothing.html`, and tries
/// it last.
pub proof fn law_fallback_page_is_last(path: Seq<char>)
    requires
        path != "/"@,
    ensures
        spec_static_candidates(path).len() >= 1,
        spec_static_candidates(path).last() == "nothing.html"@,
{
}

} // verus!
