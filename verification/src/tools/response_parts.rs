//! The headers that go with a static file, chosen by its extension.
use vstd::prelude::*;
use hyper::HeaderMap;
use crate::text::{decimal, lemma_decimal_digits, push_decimal, str_eq};
use crate::tools::header_map::{
    header_entries, header_map_append, header_map_insert, header_map_new, has_header,
    is_static_header_name, is_visible_ascii,
};

verus! {

/// `mime::TEXT_HTML` as text: its source string, `text/html`.
#[verifier::external_body]
fn text_html_mime() -> (r: String)
    ensures
        r@ == seq!['t', 'e', 'x', 't', '/', 'h', 't', 'm', 'l'],
{
    mime::TEXT_HTML.as_ref().to_string()
}

/// The header entries for a file with the extension `ext`: an HTML page is
/// served as `text/html` and may be cached for an hour; an icon is served as
/// `image/x-icon` with byte ranges; anything else gets no headers.
pub open spec fn response_headers(ext: Seq<char>) -> Seq<(Seq<char>, Seq<Seq<char>>)> {
    if ext == seq!['h', 't', 'm', 'l'] {
        seq![
            (seq!['c', 'o', 'n', 't', 'e', 'n', 't', '-', 't', 'y', 'p', 'e'], seq![seq!['t', 'e', 'x', 't', '/', 'h', 't', 'm', 'l']]),
            (seq!['c', 'a', 'c', 'h', 'e', '-', 'c', 'o', 'n', 't', 'r', 'o', 'l'], seq![seq!['m', 'a', 'x', '-', 'a', 'g', 'e', '=', '3', '6', '0', '0', ',', ' ', 'p', 'u', 'b', 'l', 'i', 'c']]),
        ]
    } else if ext == seq!['i', 'c', 'o'] {
        seq![
            (seq!['c', 'o', 'n', 't', 'e', 'n', 't', '-', 't', 'y', 'p', 'e'], seq![seq!['i', 'm', 'a', 'g', 'e', '/', 'x', '-', 'i', 'c', 'o', 'n']]),
            (seq!['a', 'c', 'c', 'e', 'p', 't', '-', 'r', 'a', 'n', 'g', 'e', 's'], seq![seq!['b', 'y', 't', 'e', 's']]),
        ]
    } else {
        seq![]
    }
}

/// The response headers for a file with the extension `ext`.
pub fn make_response_parts(ext: &str) -> (r: HeaderMap)
    ensures
        header_entries(r) == response_headers(ext@),
{
    let mut header = header_map_new();
    proof {
        reveal_strlit("html");
        reveal_strlit("ico");
        assert("html"@ =~= seq!['h', 't', 'm', 'l']);
        assert("ico"@ =~= seq!['i', 'c', 'o']);
    }
    if str_eq(ext, "html") {
        let content_type = text_html_mime();
        proof {
            reveal_strlit("content-type");
            reveal_strlit("cache-control");
            reveal_strlit("max-age=3600, public");
            assert("content-type"@ =~= seq!['c', 'o', 'n', 't', 'e', 'n', 't', '-', 't', 'y', 'p', 'e']);
            assert("cache-control"@ =~= seq!['c', 'a', 'c', 'h', 'e', '-', 'c', 'o', 'n', 't', 'r', 'o', 'l']);
            assert("max-age=3600, public"@ =~= seq!['m', 'a', 'x', '-', 'a', 'g', 'e', '=', '3', '6', '0', '0', ',', ' ', 'p', 'u', 'b', 'l', 'i', 'c']);
            assert(is_static_header_name("content-type"@));
            assert(is_static_header_name("cache-control"@));
            assert(is_visible_ascii(content_type@));
            assert(is_visible_ascii("max-age=3600, public"@));
        }
        header_map_append(&mut header, "content-type", content_type.as_str());
        proof {
            assert(!has_header(header_entries(header), "cache-control"@)) by {
                assert(header_entries(header).len() == 1);
                assert(header_entries(header)[0].0 == "content-type"@);
                assert(header_entries(header)[0].0[1] != "cache-control"@[1]);
            }
        }
        header_map_append(&mut header, "cache-control", "max-age=3600, public");
        assert(header_entries(header) =~= response_headers(ext@));
    } else if str_eq(ext, "ico") {
        proof {
            reveal_strlit("content-type");
            reveal_strlit("accept-ranges");
            reveal_strlit("image/x-icon");
            reveal_strlit("bytes");
            assert("content-type"@ =~= seq!['c', 'o', 'n', 't', 'e', 'n', 't', '-', 't', 'y', 'p', 'e']);
            assert("accept-ranges"@ =~= seq!['a', 'c', 'c', 'e', 'p', 't', '-', 'r', 'a', 'n', 'g', 'e', 's']);
            assert("image/x-icon"@ =~= seq!['i', 'm', 'a', 'g', 'e', '/', 'x', '-', 'i', 'c', 'o', 'n']);
            assert("bytes"@ =~= seq!['b', 'y', 't', 'e', 's']);
            assert(is_static_header_name("content-type"@));
            assert(is_static_header_name("accept-ranges"@));
            assert(is_visible_ascii("image/x-icon"@));
            assert(is_visible_ascii("bytes"@));
        }
        header_map_insert(&mut header, "content-type", "image/x-icon");
        proof {
            assert(!has_header(header_entries(header), "accept-ranges"@)) by {
                assert(header_entries(header).len() == 1);
                assert(header_entries(header)[0].0 == "content-type"@);
                assert(header_entries(header)[0].0[0] != "accept-ranges"@[0]);
            }
        }
        header_map_insert(&mut header, "accept-ranges", "bytes");
        assert(header_entries(header) =~= response_headers(ext@));
    } else {
        assert(header_entries(header) =~= response_headers(ext@));
    }
    header
}

/// The headers of a static file with the extension `ext` whose content is
/// `content_length` bytes long: those that `make_response_parts` chooses,
/// followed by the length in decimal under `content-length`.
pub fn file_headers(ext: &str, content_length: usize) -> (r: HeaderMap)
    ensures
        header_entries(r) == response_headers(ext@).push(
            (
                seq!['c', 'o', 'n', 't', 'e', 'n', 't', '-', 'l', 'e', 'n', 'g', 't', 'h'],
                seq![decimal(content_length as nat)],
            ),
        ),
{
    let mut header = make_response_parts(ext);
    let mut length = String::new();
    push_decimal(&mut length, content_length as u64);
    proof {
        reveal_strlit("content-length");
        let name = "content-length"@;
        assert(name =~= seq!['c', 'o', 'n', 't', 'e', 'n', 't', '-', 'l', 'e', 'n', 'g', 't', 'h']);
        assert(is_static_header_name(name));
        assert(length@ =~= decimal(content_length as nat));
        lemma_decimal_digits(content_length as nat);
        assert(is_visible_ascii(length@));
        let es = header_entries(header);
        assert(!has_header(es, name)) by {
            if has_header(es, name) {
                let i = choose|i: int| 0 <= i < es.len() && #[trigger] es[i].0 == name;
                assert(es[i].0[0] == name[0]);
                assert(es[i].0[1] == name[1]);
                assert(es[i].0[8] == name[8]);
            }
        }
    }
    header_map_append(&mut header, "content-length", length.as_str());
    header
}

} // verus!
