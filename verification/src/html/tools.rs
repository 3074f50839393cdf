//! Escaping of text for HTML output and the list of void elements.
use vstd::prelude::*;
use crate::text::{push_char, str_eq};

verus! {

/// What one character of element text becomes in HTML.
pub open spec fn escape_text_char(c: char) -> Seq<char> {
    if c == '<' {
        seq!['&', 'l', 't', ';']
    } else if c == '>' {
        seq!['&', 'g', 't', ';']
    } else if c == '&' {
        seq!['&', 'a', 'm', 'p', ';']
    } else if c == '"' {
        seq!['&', 'q', 'u', 'o', 't', ';']
    } else if c == '\'' {
        seq!['&', '#', '3', '9', ';']
    } else {
        seq![c]
    }
}

/// Element text with every character escaped, in order.
pub open spec fn escape_text(s: Seq<char>) -> Seq<char>
    decreases s.len(),
{
    if s.len() == 0 {
        seq![]
    } else {
        escape_text(s.drop_last()) + escape_text_char(s.last())
    }
}

/// Escapes `<`, `>`, `&`, `"` and `'` in text that goes between tags.
pub fn escape_html_text(s: &str) -> (r: String)
    ensures
        r@ == escape_text(s@),
{
    let mut out = String::new();
    for c in iter: s.chars()
        invariant
            iter.seq() == s@,
            out@ == escape_text(s@.take(iter.index() as int)),
    {
        proof {
            assert(s@.take(iter.index() + 1).drop_last() =~= s@.take(iter.index() as int));
        }
        if c == '<' {
            proof { reveal_strlit("&lt;"); }
            out.append("&lt;");
        } else if c == '>' {
            proof { reveal_strlit("&gt;"); }
            out.append("&gt;");
        } else if c == '&' {
            proof { reveal_strlit("&amp;"); }
            out.append("&amp;");
        } else if c == '"' {
            proof { reveal_strlit("&quot;"); }
            out.append("&quot;");
        } else if c == '\'' {
            proof { reveal_strlit("&#39;"); }
            out.append("&#39;");
        } else {
            push_char(&mut out, c);
        }
    }
    proof {
        assert(s@.take(s@.len() as int) =~= s@);
    }
    out
}


/// What one character of an attribute value becomes in HTML.
pub open spec fn escape_attr_char(c: char) -> Seq<char> {
    if c == '"' {
        seq!['&', 'q', 'u', 'o', 't', ';']
    } else if c == '\'' {
        seq!['&', '#', '3', '9', ';']
    } else if c == '&' {
        seq!['&', 'a', 'm', 'p', ';']
    } else {
        seq![c]
    }
}

/// An attribute value with every character escaped, in order.
pub open spec fn escape_attr(s: Seq<char>) -> Seq<char>
    decreases s.len(),
{
    if s.len() == 0 {
        seq![]
    } else {
        escape_attr(s.drop_last()) + escape_attr_char(s.last())
    }
}

/// Escapes `"`, `'` and `&` in an attribute value; `<` and `>` stay as they are.
pub fn escape_html_attr(s: &str) -> (r: String)
    ensures
        r@ == escape_attr(s@),
{
    let mut out = String::new();
    for c in iter: s.chars()
        invariant
            iter.seq() == s@,
            out@ == escape_attr(s@.take(iter.index() as int)),
    {
        proof {
            assert(s@.take(iter.index() + 1).drop_last() =~= s@.take(iter.index() as int));
        }
        if c == '"' {
            proof { reveal_strlit("&quot;"); }
            out.append("&quot;");
        } else if c == '\'' {
            proof { reveal_strlit("&#39;"); }
            out.append("&#39;");
        } else if c == '&' {
            proof { reveal_strlit("&amp;"); }
            out.append("&amp;");
        } else {
            push_char(&mut out, c);
        }
    }
    proof {
        assert(s@.take(s@.len() as int) =~= s@);
    }
    out
}

/// The tag names of the HTML void elements, which have no closing tag.
pub open spec fn void_element_names() -> Set<Seq<char>> {
    set![
        seq!['a', 'r', 'e', 'a'],
        seq!['b', 'a', 's', 'e'],
        seq!['b', 'r'],
        seq!['c', 'o', 'l'],
        seq!['e', 'm', 'b', 'e', 'd'],
        seq!['h', 'r'],
        seq!['i', 'm', 'g'],
        seq!['i', 'n', 'p', 'u', 't'],
        seq!['l', 'i', 'n', 'k'],
        seq!['m', 'e', 't', 'a'],
        seq!['p', 'a', 'r', 'a', 'm'],
        seq!['s', 'o', 'u', 'r', 'c', 'e'],
        seq!['t', 'r', 'a', 'c', 'k'],
        seq!['w', 'b', 'r']
    ]
}

/// Whether every character is an ASCII lowercase letter.
pub open spec fn is_ascii_lowercase_word(s: Seq<char>) -> bool {
    forall|i: int| 0 <= i < s.len() ==> 'a' <= #[trigger] s[i] <= 'z'
}

/// Whether every character is an ASCII letter or digit.
pub open spec fn is_ascii_alphanumeric_word(s: Seq<char>) -> bool {
    forall|i: int|
        0 <= i < s.len() ==> ('a' <= #[trigger] s[i] <= 'z') || ('A' <= s[i] <= 'Z') || ('0' <= s[i]
            <= '9')
}

/// An ASCII upper-case letter turned into its lower-case letter; every
/// other character as it is.
pub open spec fn ascii_lower(c: char) -> char {
    if 'A' <= c <= 'Z' {
        ((c as u32) + 32) as char
    } else {
        c
    }
}

/// Every character of `s` through `ascii_lower`.
pub open spec fn ascii_lowercase(s: Seq<char>) -> Seq<char> {
    s.map_values(|c: char| ascii_lower(c))
}

/// What `str::to_lowercase` returns for a string: the Unicode lowercase mapping
/// of each character, which may change the length.
pub uninterp spec fn lowercase_of(s: Seq<char>) -> Seq<char>;

/// Lowercases a string slice: `str::to_lowercase`. The result is named by
/// `lowercase_of`. The contract also states what std documents for ASCII
/// letters and digits: `A` to `Z` become `a` to `z` (the documentation's
/// example turns `HELLO` into `hello`), and lower-case letters and digits,
/// whose Unicode lowercase mapping is themselves, stay as they are. Nothing
/// more of the Unicode case mapping is stated.
#[verifier::external_body]
fn str_to_lowercase(s: &str) -> (r: String)
    ensures
        r@ == lowercase_of(s@),
        is_ascii_alphanumeric_word(s@) ==> r@ == ascii_lowercase(s@),
{
    s.to_lowercase()
}

/// Whether `name`, taken exactly as it is, is the tag name of a void element.
pub fn is_void_name(name: &str) -> (r: bool)
    ensures
        r == void_element_names().contains(name@),
{
    proof {
        reveal_strlit("area");
        assert("area"@ =~= seq!['a', 'r', 'e', 'a']);
        reveal_strlit("base");
        assert("base"@ =~= seq!['b', 'a', 's', 'e']);
        reveal_strlit("br");
        assert("br"@ =~= seq!['b', 'r']);
        reveal_strlit("col");
        assert("col"@ =~= seq!['c', 'o', 'l']);
        reveal_strlit("embed");
        assert("embed"@ =~= seq!['e', 'm', 'b', 'e', 'd']);
        reveal_strlit("hr");
        assert("hr"@ =~= seq!['h', 'r']);
        reveal_strlit("img");
        assert("img"@ =~= seq!['i', 'm', 'g']);
        reveal_strlit("input");
        assert("input"@ =~= seq!['i', 'n', 'p', 'u', 't']);
        reveal_strlit("link");
        assert("link"@ =~= seq!['l', 'i', 'n', 'k']);
        reveal_strlit("meta");
        assert("meta"@ =~= seq!['m', 'e', 't', 'a']);
        reveal_strlit("param");
        assert("param"@ =~= seq!['p', 'a', 'r', 'a', 'm']);
        reveal_strlit("source");
        assert("source"@ =~= seq!['s', 'o', 'u', 'r', 'c', 'e']);
        reveal_strlit("track");
        assert("track"@ =~= seq!['t', 'r', 'a', 'c', 'k']);
        reveal_strlit("wbr");
        assert("wbr"@ =~= seq!['w', 'b', 'r']);
    }
    str_eq(name, "area") || str_eq(name, "base") || str_eq(name, "br") || str_eq(name, "col")
        || str_eq(name, "embed") || str_eq(name, "hr") || str_eq(name, "img") || str_eq(name, "input")
        || str_eq(name, "link") || str_eq(name, "meta") || str_eq(name, "param")
        || str_eq(name, "source") || str_eq(name, "track") || str_eq(name, "wbr")
}

/// Whether `tag`, compared without regard to case, names a void element
/// (`area`, `base`, `br`, `col`, `embed`, `hr`, `img`, `input`, `link`, `meta`,
/// `param`, `source`, `track`, `wbr`).
pub fn is_void_element(tag: &str) -> (r: bool)
    ensures
        r == void_element_names().contains(lowercase_of(tag@)),
        is_ascii_alphanumeric_word(tag@) ==> r == void_element_names().contains(ascii_lowercase(tag@)),
        is_ascii_lowercase_word(tag@) ==> r == void_element_names().contains(tag@),
{
    let lower = str_to_lowercase(tag);
    proof {
        if is_ascii_lowercase_word(tag@) {
            assert(ascii_lowercase(tag@) =~= tag@);
        }
    }
    is_void_name(lower.as_str())
}

/// Whether a character is one that text escaping rewrites.
pub open spec fn is_text_special(c: char) -> bool {
    c == '<' || c == '>' || c == '&' || c == '"' || c == '\''
}

/// Escaped text holds no `<`, `>`, `"` or `'`: it cannot open or close a tag
/// or end a quoted value.
pub proof fn law_escaped_text_is_inert(s: Seq<char>)
    ensures
        forall|i: int|
            0 <= i < escape_text(s).len() ==> #[trigger] escape_text(s)[i] != '<'
                && escape_text(s)[i] != '>' && escape_text(s)[i] != '"' && escape_text(s)[i]
                != '\'',
    decreases s.len(),
{
    if s.len() > 0 {
        law_escaped_text_is_inert(s.drop_last());
        let prev = escape_text(s.drop_last());
        let last = escape_text_char(s.last());
        assert(escape_text(s) == prev + last);
        assert forall|i: int| 0 <= i < escape_text(s).len() implies #[trigger] escape_text(s)[i]
            != '<' && escape_text(s)[i] != '>' && escape_text(s)[i] != '"' && escape_text(s)[i]
            != '\'' by {
            if i >= prev.len() {
                assert(escape_text(s)[i] == last[i - prev.len()]);
            } else {
                assert(escape_text(s)[i] == prev[i]);
            }
        }
    }
}

/// Text without `<`, `>`, `&`, `"` or `'` is written as it is.
pub proof fn law_plain_text_is_unchanged(s: Seq<char>)
    requires
        forall|i: int| 0 <= i < s.len() ==> !is_text_special(#[trigger] s[i]),
    ensures
        escape_text(s) == s,
    decreases s.len(),
{
    if s.len() > 0 {
        assert(!is_text_special(s[s.len() - 1]));
        law_plain_text_is_unchanged(s.drop_last());
        assert(escape_text(s) =~= s);
    }
}

/// `t` holds the characters of `e` from position `i` on.
pub open spec fn entity_at(t: Seq<char>, i: int, e: Seq<char>) -> bool {
    0 <= i && i + e.len() <= t.len() && t.subrange(i, i + e.len()) == e
}

/// One of the five entities that text escaping writes begins at position
/// `i` of `t`.
pub open spec fn starts_entity(t: Seq<char>, i: int) -> bool {
    ||| entity_at(t, i, escape_text_char('<'))
    ||| entity_at(t, i, escape_text_char('>'))
    ||| entity_at(t, i, escape_text_char('&'))
    ||| entity_at(t, i, escape_text_char('"'))
    ||| entity_at(t, i, escape_text_char('\''))
}

/// The character whose entity `t` begins with, if it begins with one of
/// the five.
pub open spec fn leading_entity(t: Seq<char>) -> Option<char> {
    if entity_at(t, 0, escape_text_char('<')) {
        Some('<')
    } else if entity_at(t, 0, escape_text_char('>')) {
        Some('>')
    } else if entity_at(t, 0, escape_text_char('&')) {
        Some('&')
    } else if entity_at(t, 0, escape_text_char('"')) {
        Some('"')
    } else if entity_at(t, 0, escape_text_char('\'')) {
        Some('\'')
    } else {
        None
    }
}

/// Reads text from left to right, turning each of the five entities back
/// into the character it stands for and keeping every other character.
pub open spec fn unescape_text(t: Seq<char>) -> Seq<char>
    decreases t.len(),
{
    if t.len() == 0 {
        seq![]
    } else {
        match leading_entity(t) {
            Some(c) => seq![c] + unescape_text(t.skip(escape_text_char(c).len() as int)),
            None => seq![t[0]] + unescape_text(t.skip(1)),
        }
    }
}

/// Escaping text piece by piece gives the escaping of the whole.
proof fn lemma_escape_text_concat(a: Seq<char>, b: Seq<char>)
    ensures
        escape_text(a + b) == escape_text(a) + escape_text(b),
    decreases b.len(),
{
    if b.len() == 0 {
        assert(a + b =~= a);
        assert(escape_text(a) + escape_text(b) =~= escape_text(a));
    } else {
        lemma_escape_text_concat(a, b.drop_last());
        assert((a + b).drop_last() =~= a + b.drop_last());
        assert((a + b).last() == b.last());
        assert(escape_text(a + b) =~= escape_text(a) + escape_text(b));
    }
}

/// Reading back the escaping of one character, followed by anything, gives
/// that character first.
proof fn lemma_unescape_escaped_char(c: char, rest: Seq<char>)
    ensures
        unescape_text(escape_text_char(c) + rest) == seq![c] + unescape_text(rest),
{
    let e = escape_text_char(c);
    let t = e + rest;
    assert(t.len() > 0);
    assert(t[0] == e[0]);
    if is_text_special(c) {
        assert(t.subrange(0, e.len() as int) =~= e);
        assert(t.skip(e.len() as int) =~= rest);
        if c != '<' {
            assert(!entity_at(t, 0, escape_text_char('<'))) by {
                if t.len() >= 4 {
                    assert(t.subrange(0, 4)[1] == t[1]);
                }
            }
        }
        if c != '>' {
            assert(!entity_at(t, 0, escape_text_char('>'))) by {
                if t.len() >= 4 {
                    assert(t.subrange(0, 4)[1] == t[1]);
                }
            }
        }
        if c != '&' {
            assert(!entity_at(t, 0, escape_text_char('&'))) by {
                if t.len() >= 5 {
                    assert(t.subrange(0, 5)[1] == t[1]);
                }
            }
        }
        if c != '"' {
            assert(!entity_at(t, 0, escape_text_char('"'))) by {
                if t.len() >= 6 {
                    assert(t.subrange(0, 6)[1] == t[1]);
                }
            }
        }
        assert(leading_entity(t) == Some(c));
    } else {
        assert(e =~= seq![c]);
        assert(t[0] == c);
        assert(c != '&');
        assert forall|k: int| 1 <= k <= t.len() implies #[trigger] t.subrange(0, k)[0] != '&' by {
            assert(t.subrange(0, k)[0] == t[0]);
        }
        assert(leading_entity(t) is None) by {
            if t.len() >= 4 {
                assert(t.subrange(0, 4)[0] != '&');
            }
            if t.len() >= 5 {
                assert(t.subrange(0, 5)[0] != '&');
            }
            if t.len() >= 6 {
                assert(t.subrange(0, 6)[0] != '&');
            }
        }
        assert(t.skip(1) =~= rest);
    }
}

/// Escaping can be undone: reading the five entities back, from left to
/// right, as the characters they stand for gives back the text, so texts
/// that differ are escaped differently.
pub proof fn law_escape_text_round_trip(s: Seq<char>)
    ensures
        unescape_text(escape_text(s)) == s,
    decreases s.len(),
{
    if s.len() > 0 {
        let head = seq![s[0]];
        let tail = s.skip(1);
        assert(s =~= head + tail);
        lemma_escape_text_concat(head, tail);
        assert(head.drop_last().len() == 0);
        assert(head.last() == s[0]);
        assert(escape_text(head.drop_last()).len() == 0);
        assert(escape_text(head) =~= escape_text_char(s[0]));
        lemma_unescape_escaped_char(s[0], escape_text(tail));
        law_escape_text_round_trip(tail);
        assert(unescape_text(escape_text(s)) =~= s);
    }
}

/// Every `&` in escaped text begins one of the five entities `&lt;`,
/// `&gt;`, `&amp;`, `&quot;` and `&#39;`.
pub proof fn law_escaped_ampersand_starts_entity(s: Seq<char>)
    ensures
        forall|i: int|
            0 <= i < escape_text(s).len() && #[trigger] escape_text(s)[i] == '&' ==> starts_entity(
                escape_text(s),
                i,
            ),
    decreases s.len(),
{
    if s.len() > 0 {
        law_escaped_ampersand_starts_entity(s.drop_last());
        let prev = escape_text(s.drop_last());
        let last = escape_text_char(s.last());
        let t = escape_text(s);
        assert(t == prev + last);
        assert forall|i: int| 0 <= i < t.len() && #[trigger] t[i] == '&' implies starts_entity(t, i) by {
            if i < prev.len() {
                assert(t[i] == prev[i]);
                assert(starts_entity(prev, i));
                assert forall|e: Seq<char>| entity_at(prev, i, e) implies entity_at(t, i, e) by {
                    assert(t.subrange(i, i + e.len()) =~= prev.subrange(i, i + e.len()));
                }
            } else {
                let j = i - prev.len();
                assert(t[i] == last[j]);
                assert(j == 0);
                assert(t.subrange(i, i + last.len()) =~= last);
            }
        }
    }
}

/// An escaped attribute value holds no `"` or `'`: it cannot end the quoted
/// value it is written in.
pub proof fn law_escaped_attr_is_inert(s: Seq<char>)
    ensures
        forall|i: int|
            0 <= i < escape_attr(s).len() ==> #[trigger] escape_attr(s)[i] != '"'
                && escape_attr(s)[i] != '\'',
    decreases s.len(),
{
    if s.len() > 0 {
        law_escaped_attr_is_inert(s.drop_last());
        let prev = escape_attr(s.drop_last());
        let last = escape_attr_char(s.last());
        assert(escape_attr(s) == prev + last);
        assert forall|i: int| 0 <= i < escape_attr(s).len() implies #[trigger] escape_attr(s)[i]
            != '"' && escape_attr(s)[i] != '\'' by {
            if i >= prev.len() {
                assert(escape_attr(s)[i] == last[i - prev.len()]);
            } else {
                assert(escape_attr(s)[i] == prev[i]);
            }
        }
    }
}

} // verus!
