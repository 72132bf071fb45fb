//! Header-line lookup, ad-hoc XML tag extraction, URL splitting and raw
//! HTTP request rendering.
//!
//! The XML extraction is deliberately a substring scan, not a structural
//! parser: it keeps the leftmost-first-match behaviour that varied router
//! firmware depends on, quirks included.

use vstd::prelude::*;

use crate::text::{
    count_words, find_in, find_spec, lemma_find_from_found, lemma_line_len_le, line_len_str,
    find_from_spec, lines_of, nth_word, replace_first, replace_first_str, split_ws, starts_with,
    strip_cr, trim_spec, trim_str, upper_char, upper_char_exec, upper_seq, upper_str,
};

verus! {

/// A location URL split into its three tokens.
pub struct Url {
    pub protocol: String,
    pub host: String,
    pub path: String,
}

// ---------------------------------------------------------------------------
// header-line lookup
// ---------------------------------------------------------------------------

/// The line prefix that marks a header: the upper-cased name, a colon and
/// one space.
pub open spec fn header_target(name: Seq<char>) -> Seq<char> {
    upper_seq(name) + seq![':', ' ']
}

/// What a matching header line yields: the remainder of the line after
/// the prefix, trimmed of whitespace at both ends. Meaningful only for a
/// line that starts with the prefix.
pub open spec fn header_value(line: Seq<char>, name: Seq<char>) -> Seq<char> {
    trim_spec(line.skip(header_target(name).len() as int))
}

/// The value of the first line that starts with the header prefix.
pub open spec fn find_in_lines(ls: Seq<Seq<char>>, name: Seq<char>) -> Option<Seq<char>>
    decreases ls.len(),
{
    if ls.len() == 0 {
        None
    } else if starts_with(ls[0], header_target(name)) {
        Some(header_value(ls[0], name))
    } else {
        find_in_lines(ls.drop_first(), name)
    }
}

pub open spec fn find_line_spec(name: Seq<char>, text: Seq<char>) -> Option<Seq<char>> {
    find_in_lines(lines_of(text), name)
}

/// Header lookup is insensitive to every line but the first matching one:
/// whatever stands before it (as long as nothing matches) or after it, the
/// first line that carries the prefix decides the result.
pub proof fn lemma_header_first_match(ls: Seq<Seq<char>>, name: Seq<char>, i: int)
    requires
        0 <= i < ls.len(),
        starts_with(ls[i], header_target(name)),
        forall|j: int| 0 <= j < i ==> !starts_with(#[trigger] ls[j], header_target(name)),
    ensures
        find_in_lines(ls, name) == Some(header_value(ls[i], name)),
    decreases i,
{
    if i > 0 {
        lemma_header_first_match(ls.drop_first(), name, i - 1);
    }
}

/// Discovery extracts a header deterministically from any reply that
/// carries it, whatever stands around it: the lookup on the whole reply
/// text yields the value of the first line that carries the prefix,
/// however the other headers are ordered and whatever unrelated lines
/// intervene.
pub proof fn lemma_find_line_yields_first_header(name: Seq<char>, text: Seq<char>, i: int)
    requires
        0 <= i < lines_of(text).len(),
        starts_with(lines_of(text)[i], header_target(name)),
        forall|j: int| 0 <= j < i ==> !starts_with(#[trigger] lines_of(text)[j], header_target(name)),
    ensures
        find_line_spec(name, text) == Some(header_value(lines_of(text)[i], name)),
{
    lemma_header_first_match(lines_of(text), name, i);
}

/// Without a matching line the lookup yields nothing.
pub proof fn lemma_header_no_match(ls: Seq<Seq<char>>, name: Seq<char>)
    requires
        forall|j: int| 0 <= j < ls.len() ==> !starts_with(#[trigger] ls[j], header_target(name)),
    ensures
        find_in_lines(ls, name) is None,
    decreases ls.len(),
{
    if ls.len() > 0 {
        lemma_header_no_match(ls.drop_first(), name);
    }
}

fn starts_with_target(s: &str, name: &str) -> (r: bool)
    ensures
        r == starts_with(s@, header_target(name@)),
{
    let n = s.unicode_len();
    let m = name.unicode_len();
    if n < 2 || m > n - 2 {
        return false;
    }
    let mut j: usize = 0;
    while j < m
        invariant
            j <= m,
            n == s@.len(),
            m == name@.len(),
            m + 2 <= n,
            forall|k: int| 0 <= k < j ==> s@[k] == upper_char(name@[k]),
        decreases m - j,
    {
        if s.get_char(j) != upper_char_exec(name.get_char(j)) {
            assert(!starts_with(s@, header_target(name@))) by {
                if starts_with(s@, header_target(name@)) {
                    assert(s@.subrange(0, m + 2)[j as int] == header_target(name@)[j as int]);
                }
            }
            return false;
        }
        j += 1;
    }
    if s.get_char(m) == ':' && s.get_char(m + 1) == ' ' {
        assert(s@.subrange(0, m + 2) =~= header_target(name@));
        true
    } else {
        assert(!starts_with(s@, header_target(name@))) by {
            if starts_with(s@, header_target(name@)) {
                assert(s@.subrange(0, m + 2)[m as int] == header_target(name@)[m as int]);
                assert(s@.subrange(0, m + 2)[m + 1] == header_target(name@)[m + 1]);
            }
        }
        false
    }
}

fn header_value_str(line: &str, name: &str) -> (r: String)
    requires
        starts_with(line@, header_target(name@)),
    ensures
        r@ == header_value(line@, name@),
{
    let n = line.unicode_len();
    let m = name.unicode_len();
    let rest = line.substring_char(m + 2, n);
    proof {
        assert(rest@ =~= line@.skip(m + 2));
    }
    trim_str(rest)
}

/// The first line of `text` that starts with the upper-cased `name`
/// followed by `": "`, with that prefix removed and the remainder
/// trimmed. Header names match case-insensitively
/// because the probe upper-cases the name and SSDP replies carry their
/// header names upper-cased.
pub fn find_line(name: &str, text: &str) -> (r: Option<String>)
    ensures
        match r {
            Some(v) => find_line_spec(name@, text@) == Some(v@),
            None => find_line_spec(name@, text@) is None,
        },
    decreases text@.len(),
{
    proof {
        reveal_with_fuel(find_in_lines, 3);
    }
    let n = text.unicode_len();
    if n == 0 {
        return None;
    }
    let ll = line_len_str(text);
    proof {
        lemma_line_len_le(text@);
    }
    if ll == n {
        proof {
            assert(lines_of(text@) =~= seq![text@]);
            assert(seq![text@].drop_first() =~= Seq::<Seq<char>>::empty());
        }
        if starts_with_target(text, name) {
            Some(header_value_str(text, name))
        } else {
            None
        }
    } else {
        let raw = text.substring_char(0, ll);
        proof {
            assert(raw@ =~= text@.take(ll as int));
        }
        let first = if ll > 0 && raw.get_char(ll - 1) == '\r' {
            let f = text.substring_char(0, ll - 1);
            proof {
                assert(f@ =~= strip_cr(text@.take(ll as int)));
            }
            f
        } else {
            proof {
                assert(raw@ =~= strip_cr(text@.take(ll as int)));
            }
            raw
        };
        proof {
            assert(lines_of(text@) == seq![first@] + lines_of(text@.skip(ll + 1)));
            assert((seq![first@] + lines_of(text@.skip(ll + 1)))[0] == first@);
            assert((seq![first@] + lines_of(text@.skip(ll + 1))).drop_first() =~= lines_of(
                text@.skip(ll + 1),
            ));
        }
        if starts_with_target(first, name) {
            Some(header_value_str(first, name))
        } else {
            let rest = text.substring_char(ll + 1, n);
            proof {
                assert(rest@ =~= text@.skip(ll + 1));
            }
            find_line(name, rest)
        }
    }
}

// ---------------------------------------------------------------------------
// ad-hoc XML tag extraction
// ---------------------------------------------------------------------------

pub open spec fn open_tag_of(tag: Seq<char>) -> Seq<char> {
    seq!['<'] + tag + seq!['>']
}

/// The closing pattern is built from the first whitespace-separated word
/// of the tag alone, so `<controlURL anything>` closes on `</controlURL>`.
pub open spec fn close_tag_of(tag: Seq<char>) -> Seq<char> {
    seq!['<', '/'] + split_ws(tag)[0] + seq!['>']
}

/// The characters between the leftmost `<tag>` and the first
/// `</firstWordOf(tag)>` after it; nothing when either marker is absent
/// or the tag has no word to build the closing pattern from.
pub open spec fn xml_tag_childs_spec(xml: Seq<char>, tag: Seq<char>) -> Option<Seq<char>> {
    if split_ws(tag).len() == 0 {
        None
    } else {
        match find_spec(xml, open_tag_of(tag)) {
            None => None,
            Some(x) => {
                let start = x + open_tag_of(tag).len();
                match find_spec(xml.skip(start), close_tag_of(tag)) {
                    None => None,
                    Some(y) => Some(xml.subrange(start, start + y)),
                }
            },
        }
    }
}

/// Substring-based lookup of the content of the first occurrence of a
/// tag. No nesting is understood: the leftmost opening marker and the
/// first closing marker after it decide the span.
pub fn get_xml_tag_childs(xml: &str, tag: &str) -> (r: Option<String>)
    ensures
        match r {
            Some(v) => xml_tag_childs_spec(xml@, tag@) == Some(v@),
            None => xml_tag_childs_spec(xml@, tag@) is None,
        },
{
    let first = match nth_word(tag, 0) {
        Some(w) => w,
        None => {
            return None;
        },
    };
    let open_tag = String::from_str("<").concat(tag).concat(">");
    let close_tag = String::from_str("</").concat(first.as_str()).concat(">");
    proof {
        reveal_strlit("<");
        reveal_strlit("</");
        reveal_strlit(">");
        assert(open_tag@ =~= open_tag_of(tag@));
        assert(close_tag@ =~= close_tag_of(tag@));
    }
    let n = xml.unicode_len();
    match find_in(xml, open_tag.as_str(), 0) {
        None => None,
        Some(x) => {
            proof {
                lemma_find_from_found(xml@, open_tag@, 0, x as int);
            }
            let start = x + open_tag.as_str().unicode_len();
            let rest = xml.substring_char(start, n);
            proof {
                assert(rest@ =~= xml@.skip(start as int));
            }
            match find_in(rest, close_tag.as_str(), 0) {
                None => None,
                Some(y) => {
                    proof {
                        lemma_find_from_found(rest@, close_tag@, 0, y as int);
                    }
                    Some(String::from_str(xml.substring_char(start, start + y)))
                },
            }
        },
    }
}

// ---------------------------------------------------------------------------
// URL splitting
// ---------------------------------------------------------------------------

/// The raw URL with its first `://` replaced by a space, then the first
/// `/` after that point replaced by a space too. A `/` inside the
/// protocol part never splits the URL; without any `://` the first `/`
/// anywhere is the one replaced.
pub open spec fn url_transform(s: Seq<char>) -> Seq<char> {
    match find_spec(s, seq![':', '/', '/']) {
        None => replace_first(s, seq!['/'], seq![' ']),
        Some(i) => {
            let once = s.take(i) + seq![' '] + s.skip(i + 3);
            match find_from_spec(once, seq!['/'], i + 1) {
                None => once,
                Some(j) => once.take(j) + seq![' '] + once.skip(j + 1),
            }
        },
    }
}

/// The whitespace tokens of the transformed URL: protocol, host, then the
/// rest of the path in one token.
pub open spec fn url_tokens(s: Seq<char>) -> Seq<Seq<char>> {
    split_ws(url_transform(s))
}

fn url_transform_str(url: &str) -> (r: String)
    ensures
        r@ == url_transform(url@),
{
    proof {
        reveal_strlit("://");
        reveal_strlit("/");
        reveal_strlit(" ");
        assert("://"@ =~= seq![':', '/', '/']);
        assert("/"@ =~= seq!['/']);
        assert(" "@ =~= seq![' ']);
    }
    let n = url.unicode_len();
    match find_in(url, "://", 0) {
        None => replace_first_str(url, "/", " "),
        Some(i) => {
            proof {
                lemma_find_from_found(url@, "://"@, 0, i as int);
            }
            let once = String::from_str(url.substring_char(0, i)).concat(" ").concat(
                url.substring_char(i + 3, n),
            );
            proof {
                assert(once@ =~= url@.take(i as int) + seq![' '] + url@.skip(i + 3));
            }
            let on = once.as_str().unicode_len();
            match find_in(once.as_str(), "/", i + 1) {
                None => once,
                Some(j) => {
                    proof {
                        lemma_find_from_found(once@, "/"@, i + 1, j as int);
                    }
                    let r = String::from_str(once.as_str().substring_char(0, j)).concat(
                        " ",
                    ).concat(once.as_str().substring_char(j + 1, on));
                    proof {
                        assert(r@ =~= once@.take(j as int) + seq![' '] + once@.skip(j + 1));
                    }
                    r
                },
            }
        },
    }
}

/// Whether `format_url` can split this URL: the transformed string must
/// hold at least a protocol token and a host token.
pub fn url_has_host(url: &str) -> (r: bool)
    ensures
        r == (url_tokens(url@).len() >= 2),
{
    let t = url_transform_str(url);
    count_words(t.as_str()) >= 2
}

/// Splits a location URL into protocol, host and path. The path defaults
/// to empty when the URL carries none; any `/` beyond the first is kept
/// inside the path token. A URL without protocol or host token is a
/// precondition violation — discovery treats such a reply as fatally
/// non-conformant — so the split is only defined where both exist.
pub fn format_url(url: &str) -> (r: Url)
    requires
        url_tokens(url@).len() >= 2,
    ensures
        r.protocol@ == url_tokens(url@)[0],
        r.host@ == url_tokens(url@)[1],
        r.path@ == if url_tokens(url@).len() >= 3 {
            url_tokens(url@)[2]
        } else {
            Seq::<char>::empty()
        },
{
    let t = url_transform_str(url);
    let protocol = match nth_word(t.as_str(), 0) {
        Some(w) => w,
        None => {
            proof {
                assert(false);
            }
            vstd::pervasive::unreached()
        },
    };
    let host = match nth_word(t.as_str(), 1) {
        Some(w) => w,
        None => {
            proof {
                assert(false);
            }
            vstd::pervasive::unreached()
        },
    };
    let path = match nth_word(t.as_str(), 2) {
        Some(w) => w,
        None => String::new(),
    };
    Url { protocol, host, path }
}

// ---------------------------------------------------------------------------
// raw HTTP request rendering
// ---------------------------------------------------------------------------

/// The exact bytes of a raw HTTP request: upper-cased method, the path
/// behind a single leading slash, an HTTP/1.1 request line, a HOST
/// header, then the caller-supplied header-and-body block verbatim and
/// the terminating blank line.
pub open spec fn http_request_spec(
    method: Seq<char>,
    host: Seq<char>,
    path: Seq<char>,
    other: Seq<char>,
) -> Seq<char> {
    upper_seq(method) + " /"@ + path + " HTTP/1.1\r\nHOST: "@ + host + "\r\n"@ + other
        + "\n    \r\n"@
}

/// Renders the request that one HTTP exchange writes to its connection.
pub fn http_request(method: &str, host: &str, path: &str, other: &str) -> (r: String)
    ensures
        r@ == http_request_spec(method@, host@, path@, other@),
{
    let r = upper_str(method)
        .concat(" /")
        .concat(path)
        .concat(" HTTP/1.1\r\nHOST: ")
        .concat(host)
        .concat("\r\n")
        .concat(other)
        .concat("\n    \r\n");
    proof {
        assert(r@ =~= http_request_spec(method@, host@, path@, other@));
    }
    r
}

} // verus!
