//! Header maps of HTTP responses, as `hyper` keeps them: each header name in
//! the order it was first added, with its values in the order they were added.
use vstd::prelude::*;
use hyper::header::{HeaderName, HeaderValue};
use hyper::HeaderMap;

verus! {

#[verifier::external_type_specification]
#[verifier::external_body]
#[verifier::reject_recursive_types(T)]
pub struct ExHeaderMap<T>(HeaderMap<T>);

#[verifier::external_type_specification]
#[verifier::external_body]
pub struct ExHeaderValue(HeaderValue);

/// The entries of a header map in iteration order: each header name with its
/// values, oldest first.
pub uninterp spec fn header_entries(m: HeaderMap) -> Seq<(Seq<char>, Seq<Seq<char>>)>;

/// Whether some entry has the given name.
pub open spec fn has_header(es: Seq<(Seq<char>, Seq<Seq<char>>)>, name: Seq<char>) -> bool {
    exists|i: int| 0 <= i < es.len() && #[trigger] es[i].0 == name
}

/// The entries after `value` is appended under `name`: it goes after the
/// values the name already has, or a new entry is added last.
pub open spec fn entries_appended(
    es: Seq<(Seq<char>, Seq<Seq<char>>)>,
    name: Seq<char>,
    value: Seq<char>,
) -> Seq<(Seq<char>, Seq<Seq<char>>)> {
    if has_header(es, name) {
        let i = choose|i: int| 0 <= i < es.len() && #[trigger] es[i].0 == name;
        es.update(i, (name, es[i].1.push(value)))
    } else {
        es.push((name, seq![value]))
    }
}

/// The entries after `name` is set to `value` alone: the entry keeps its
/// place with `value` as its only value, or a new entry is added last.
pub open spec fn entries_inserted(
    es: Seq<(Seq<char>, Seq<Seq<char>>)>,
    name: Seq<char>,
    value: Seq<char>,
) -> Seq<(Seq<char>, Seq<Seq<char>>)> {
    if has_header(es, name) {
        let i = choose|i: int| 0 <= i < es.len() && #[trigger] es[i].0 == name;
        es.update(i, (name, seq![value]))
    } else {
        es.push((name, seq![value]))
    }
}

/// A header name that `HeaderName::from_static` accepts: lowercase letters,
/// digits and `-`, at least one and at most 65535 of them.
pub open spec fn is_static_header_name(s: Seq<char>) -> bool {
    &&& 0 < s.len() <= 65535
    &&& forall|i: int|
        0 <= i < s.len() ==> ('a' <= #[trigger] s[i] <= 'z') || ('0' <= s[i] <= '9') || s[i]
            == '-'
}

/// Text made of visible ASCII characters and spaces only.
pub open spec fn is_visible_ascii(s: Seq<char>) -> bool {
    forall|i: int| 0 <= i < s.len() ==> ' ' <= #[trigger] s[i] <= '~'
}

/// An empty header map: `HeaderMap::new`.
#[verifier::external_body]
pub(crate) fn header_map_new() -> (r: HeaderMap)
    ensures
        header_entries(r) == Seq::<(Seq<char>, Seq<Seq<char>>)>::empty(),
{
    HeaderMap::new()
}

/// `HeaderMap::append`, with the name made by `HeaderName::from_static` and
/// the value by `HeaderValue::from_str`. The value goes after the values the
/// name already has, or under a new entry at the end; the result tells
/// whether the name was present. The name and value conditions keep both
/// conversions from failing; below 4096 entries the map does not reach its
/// size limit, past which `append` panics.
#[verifier::external_body]
pub(crate) fn header_map_append(map: &mut HeaderMap, name: &'static str, value: &str) -> (r: bool)
    requires
        is_static_header_name(name@),
        is_visible_ascii(value@),
        header_entries(*old(map)).len() < 4096,
    ensures
        r == has_header(header_entries(*old(map)), name@),
        header_entries(*final(map)) == entries_appended(header_entries(*old(map)), name@, value@),
{
    map.append(HeaderName::from_static(name), HeaderValue::from_str(value).unwrap())
}

/// `HeaderMap::insert`, with the name made by `HeaderName::from_static` and
/// the value by `HeaderValue::from_str`. The name's entry keeps its place and
/// takes `value` as its only value, or a new entry is added at the end; the
/// result tells whether the name was present. The conditions are those of
/// `header_map_append`.
#[verifier::external_body]
pub(crate) fn header_map_insert(map: &mut HeaderMap, name: &'static str, value: &str) -> (r: bool)
    requires
        is_static_header_name(name@),
        is_visible_ascii(value@),
        header_entries(*old(map)).len() < 4096,
    ensures
        r == has_header(header_entries(*old(map)), name@),
        header_entries(*final(map)) == entries_inserted(header_entries(*old(map)), name@, value@),
{
    map.insert(HeaderName::from_static(name), HeaderValue::from_str(value).unwrap()).is_some()
}

} // verus!
