//! The request handler's computation: turn a request's URL, headers and
//! body into the finished echo page, and a failure's name into the plain
//! error text.

use vstd::prelude::*;
use crate::html::{append_escaped, contains_sub, escaped, lemma_contains_left, lemma_contains_right,
    lemma_contains_self};
use crate::template::{document_html, global_wrapper, page_head, page_html, page_tail, render_page};

verus! {

/// The decimal digit characters.
pub open spec fn dec_digit(d: u8) -> char {
    if d == 0 {
        '0'
    } else if d == 1 {
        '1'
    } else if d == 2 {
        '2'
    } else if d == 3 {
        '3'
    } else if d == 4 {
        '4'
    } else if d == 5 {
        '5'
    } else if d == 6 {
        '6'
    } else if d == 7 {
        '7'
    } else if d == 8 {
        '8'
    } else {
        '9'
    }
}

/// A byte written out in decimal, without leading zeroes.
pub open spec fn byte_decimal(b: u8) -> Seq<char> {
    if b < 10 {
        seq![dec_digit(b)]
    } else if b < 100 {
        seq![dec_digit(b / 10), dec_digit(b % 10)]
    } else {
        seq![dec_digit(b / 100), dec_digit((b / 10) % 10), dec_digit(b % 10)]
    }
}

/// The lines of a byte listing: each byte indented, in decimal, with a
/// trailing comma.
pub open spec fn byte_lines(bs: Seq<u8>) -> Seq<char>
    decreases bs.len(),
{
    if bs.len() == 0 {
        Seq::empty()
    } else {
        byte_lines(bs.drop_last()) + "    "@ + byte_decimal(bs.last()) + ",\n"@
    }
}

/// A byte list written out: empty brackets, or one bracketed line per
/// byte.
pub open spec fn byte_listing(bs: Seq<u8>) -> Seq<char> {
    if bs.len() == 0 {
        "[]"@
    } else {
        "[\n"@ + byte_lines(bs) + "]"@
    }
}

/// The list entry one header turns into: its name and value, escaped.
pub open spec fn header_html(name: Seq<char>, value: Seq<char>) -> Seq<char> {
    "<li><b>"@ + escaped(name) + ": </b>"@ + escaped(value) + "</li>"@
}

/// The header list entries, in order.
pub open spec fn headers_html(hs: Seq<(String, String)>) -> Seq<char>
    decreases hs.len(),
{
    if hs.len() == 0 {
        Seq::empty()
    } else {
        headers_html(hs.drop_last()) + header_html(hs.last().0@, hs.last().1@)
    }
}

/// The content of the echo page: the URL, the header list, and the body
/// written out as a byte listing.
pub open spec fn echo_html(url: Seq<char>, hs: Seq<(String, String)>, body: Seq<u8>) -> Seq<char> {
    "<p><b>Url: </b>"@ + escaped(url) + "</p><ul>"@ + headers_html(hs)
        + "</ul><h1>Body</h1><pre>"@ + byte_listing(body) + "</pre>"@
}

/// The whole document the handler answers with.
pub open spec fn request_page_html(
    url: Seq<char>,
    hs: Seq<(String, String)>,
    body: Seq<u8>,
) -> Seq<char> {
    document_html(page_html("Test page"@, echo_html(url, hs, body)))
}

/// The one decimal digit character for a value under ten.
fn digit_char(d: u8) -> (c: char)
    requires
        d < 10,
    ensures
        c == dec_digit(d),
{
    if d == 0 {
        '0'
    } else if d == 1 {
        '1'
    } else if d == 2 {
        '2'
    } else if d == 3 {
        '3'
    } else if d == 4 {
        '4'
    } else if d == 5 {
        '5'
    } else if d == 6 {
        '6'
    } else if d == 7 {
        '7'
    } else if d == 8 {
        '8'
    } else {
        '9'
    }
}

/// Append a byte in decimal to `out`.
fn append_byte_decimal(out: &mut String, b: u8)
    ensures
        final(out)@ == old(out)@ + byte_decimal(b),
{
    if b >= 100 {
        crate::html::push_char(out, digit_char(b / 100));
        crate::html::push_char(out, digit_char((b / 10) % 10));
        crate::html::push_char(out, digit_char(b % 10));
        proof {
            assert(old(out)@ + seq![dec_digit(b / 100)] + seq![dec_digit((b / 10) % 10)] + seq![
                dec_digit(b % 10),
            ] =~= old(out)@ + byte_decimal(b));
        }
    } else if b >= 10 {
        crate::html::push_char(out, digit_char(b / 10));
        crate::html::push_char(out, digit_char(b % 10));
        proof {
            assert(old(out)@ + seq![dec_digit(b / 10)] + seq![dec_digit(b % 10)] =~= old(out)@
                + byte_decimal(b));
        }
    } else {
        crate::html::push_char(out, digit_char(b));
    }
}

/// Turn one request into the echo page: its URL, each header's name and
/// value, and its body as a byte listing, wrapped in the page shell.
pub fn handle_request(url: &str, headers: &Vec<(String, String)>, body: &Vec<u8>) -> (r: String)
    ensures
        r@ == request_page_html(url@, headers@, body@),
{
    let mut content = String::from_str("<p><b>Url: </b>");
    append_escaped(&mut content, url);
    content.append("</p><ul>");
    let ghost list_head = content@;
    let n = headers.len();
    let mut i: usize = 0;
    while i < n
        invariant
            i <= n,
            n == headers@.len(),
            content@ == list_head + headers_html(headers@.take(i as int)),
        decreases n - i,
    {
        content.append("<li><b>");
        append_escaped(&mut content, headers[i].0.as_str());
        content.append(": </b>");
        append_escaped(&mut content, headers[i].1.as_str());
        content.append("</li>");
        proof {
            assert(headers@.take(i + 1).drop_last() =~= headers@.take(i as int));
            assert(headers@.take(i + 1).last() == headers@[i as int]);
            assert(content@ =~= list_head + headers_html(headers@.take(i + 1)));
        }
        i = i + 1;
    }
    proof {
        assert(headers@.take(n as int) =~= headers@);
    }
    content.append("</ul><h1>Body</h1><pre>");
    if body.len() == 0 {
        content.append("[]");
    } else {
        content.append("[\n");
        let ghost bytes_head = content@;
        let m = body.len();
        let mut j: usize = 0;
        while j < m
            invariant
                j <= m,
                m == body@.len(),
                content@ == bytes_head + byte_lines(body@.take(j as int)),
            decreases m - j,
        {
            content.append("    ");
            append_byte_decimal(&mut content, body[j]);
            content.append(",\n");
            proof {
                assert(body@.take(j + 1).drop_last() =~= body@.take(j as int));
                assert(body@.take(j + 1).last() == body@[j as int]);
                assert(content@ =~= bytes_head + byte_lines(body@.take(j + 1)));
            }
            j = j + 1;
        }
        proof {
            assert(body@.take(m as int) =~= body@);
        }
        content.append("]");
    }
    content.append("</pre>");
    proof {
        assert(content@ =~= echo_html(url@, headers@, body@));
    }
    let page = global_wrapper(String::from_str("Test page"), content);
    let doc = render_page(page);
    proof {
        assert(doc@ =~= request_page_html(url@, headers@, body@));
    }
    doc
}

/// The quoted, Debug-style rendering of a text; the name stands for what
/// the Debug formatting of str writes.
pub uninterp spec fn str_debug(s: Seq<char>) -> Seq<char>;

/// Relies on the Debug formatting of str: the text it writes depends on
/// the characters alone.
#[verifier::external_body]
fn str_debug_string(s: &str) -> (r: String)
    ensures
        r@ == str_debug(s@),
{
    format!("{:?}", s)
}

/// The views of an optional error name.
pub open spec fn name_view(name: Option<&str>) -> Option<Seq<char>> {
    match name {
        Option::None => Option::None,
        Option::Some(s) => Option::Some(s@),
    }
}

/// The plain error text for a failure: the failure's name written as an
/// optional value.
pub open spec fn error_text(name: Option<Seq<char>>) -> Seq<char> {
    match name {
        Option::None => "Error: None "@,
        Option::Some(s) => "Error: Some("@ + str_debug(s) + ") "@,
    }
}

/// Turn a failure's name into the plain text of the error answer.
pub fn handle_error(name: Option<&str>) -> (r: String)
    ensures
        r@ == error_text(name_view(name)),
{
    match name {
        Option::None => String::from_str("Error: None "),
        Option::Some(s) => {
            let mut out = String::from_str("Error: Some(");
            let quoted = str_debug_string(s);
            out.append(quoted.as_str());
            out.append(") ");
            proof {
                assert(out@ =~= error_text(name_view(name)));
            }
            out
        },
    }
}

/// The echo page always carries the request's URL: its escaped text
/// stands somewhere in the document.
pub proof fn lemma_page_contains_url(url: Seq<char>, hs: Seq<(String, String)>, body: Seq<u8>)
    ensures
        contains_sub(request_page_html(url, hs, body), escaped(url)),
{
    let e = escaped(url);
    let echo = echo_html(url, hs, body);
    lemma_contains_self(e);
    lemma_contains_right("<p><b>Url: </b>"@, e, e);
    lemma_contains_left("<p><b>Url: </b>"@ + e, "</p><ul>"@, e);
    lemma_contains_left("<p><b>Url: </b>"@ + e + "</p><ul>"@, headers_html(hs), e);
    lemma_contains_left(
        "<p><b>Url: </b>"@ + e + "</p><ul>"@ + headers_html(hs),
        "</ul><h1>Body</h1><pre>"@,
        e,
    );
    lemma_contains_left(
        "<p><b>Url: </b>"@ + e + "</p><ul>"@ + headers_html(hs) + "</ul><h1>Body</h1><pre>"@,
        byte_listing(body),
        e,
    );
    lemma_contains_left(
        "<p><b>Url: </b>"@ + e + "</p><ul>"@ + headers_html(hs) + "</ul><h1>Body</h1><pre>"@
            + byte_listing(body),
        "</pre>"@,
        e,
    );
    lemma_echo_to_page(echo, e);
}

/// The echo page always carries each header as sent: the escaped text of
/// its name and of its value stand somewhere in the document.
pub proof fn lemma_page_contains_header(
    url: Seq<char>,
    hs: Seq<(String, String)>,
    body: Seq<u8>,
    k: int,
)
    requires
        0 <= k < hs.len(),
    ensures
        contains_sub(request_page_html(url, hs, body), escaped(hs[k].0@)),
        contains_sub(request_page_html(url, hs, body), escaped(hs[k].1@)),
{
    lemma_headers_contain(hs, k, escaped(hs[k].0@));
    lemma_headers_contain(hs, k, escaped(hs[k].1@));
    lemma_header_list_to_page(url, hs, body, escaped(hs[k].0@));
    lemma_header_list_to_page(url, hs, body, escaped(hs[k].1@));
}

/// The echo page always carries the request's body, written out as a
/// byte listing that stands somewhere in the document.
pub proof fn lemma_page_contains_body(url: Seq<char>, hs: Seq<(String, String)>, body: Seq<u8>)
    ensures
        contains_sub(request_page_html(url, hs, body), byte_listing(body)),
{
    let listing = byte_listing(body);
    lemma_contains_self(listing);
    lemma_contains_right(
        "<p><b>Url: </b>"@ + escaped(url) + "</p><ul>"@ + headers_html(hs)
            + "</ul><h1>Body</h1><pre>"@,
        listing,
        listing,
    );
    lemma_contains_left(
        "<p><b>Url: </b>"@ + escaped(url) + "</p><ul>"@ + headers_html(hs)
            + "</ul><h1>Body</h1><pre>"@ + listing,
        "</pre>"@,
        listing,
    );
    lemma_echo_to_page(echo_html(url, hs, body), listing);
}

/// What the header list contains, the whole document contains.
proof fn lemma_header_list_to_page(
    url: Seq<char>,
    hs: Seq<(String, String)>,
    body: Seq<u8>,
    needle: Seq<char>,
)
    requires
        contains_sub(headers_html(hs), needle),
    ensures
        contains_sub(request_page_html(url, hs, body), needle),
{
    let e = escaped(url);
    lemma_contains_right("<p><b>Url: </b>"@ + e + "</p><ul>"@, headers_html(hs), needle);
    lemma_contains_left(
        "<p><b>Url: </b>"@ + e + "</p><ul>"@ + headers_html(hs),
        "</ul><h1>Body</h1><pre>"@,
        needle,
    );
    lemma_contains_left(
        "<p><b>Url: </b>"@ + e + "</p><ul>"@ + headers_html(hs) + "</ul><h1>Body</h1><pre>"@,
        byte_listing(body),
        needle,
    );
    lemma_contains_left(
        "<p><b>Url: </b>"@ + e + "</p><ul>"@ + headers_html(hs) + "</ul><h1>Body</h1><pre>"@
            + byte_listing(body),
        "</pre>"@,
        needle,
    );
    lemma_echo_to_page(echo_html(url, hs, body), needle);
}

/// What the page content contains, the whole document contains.
proof fn lemma_echo_to_page(content: Seq<char>, needle: Seq<char>)
    requires
        contains_sub(content, needle),
    ensures
        contains_sub(document_html(page_html("Test page"@, content)), needle),
{
    lemma_contains_right(page_head("Test page"@), content, needle);
    lemma_contains_left(page_head("Test page"@) + content, page_tail(), needle);
    lemma_contains_right("<!DOCTYPE html>\r\n\r\n"@, page_html("Test page"@, content), needle);
}

/// Every header's entry stands inside the rendered header list.
proof fn lemma_headers_contain(hs: Seq<(String, String)>, k: int, needle: Seq<char>)
    requires
        0 <= k < hs.len(),
        needle == escaped(hs[k].0@) || needle == escaped(hs[k].1@),
    ensures
        contains_sub(headers_html(hs), needle),
    decreases hs.len(),
{
    if k == hs.len() - 1 {
        let name = escaped(hs[k].0@);
        let value = escaped(hs[k].1@);
        if needle == name {
            lemma_contains_self(name);
            lemma_contains_right("<li><b>"@, name, needle);
            lemma_contains_left("<li><b>"@ + name, ": </b>"@, needle);
            lemma_contains_left("<li><b>"@ + name + ": </b>"@, value, needle);
        } else {
            lemma_contains_self(value);
            lemma_contains_right("<li><b>"@ + name + ": </b>"@, value, needle);
        }
        lemma_contains_left("<li><b>"@ + name + ": </b>"@ + value, "</li>"@, needle);
        lemma_contains_right(
            headers_html(hs.drop_last()),
            header_html(hs[k].0@, hs[k].1@),
            needle,
        );
    } else {
        assert(hs.drop_last()[k] == hs[k]);
        lemma_headers_contain(hs.drop_last(), k, needle);
        lemma_contains_left(
            headers_html(hs.drop_last()),
            header_html(hs.last().0@, hs.last().1@),
            needle,
        );
    }
}

} // verus!
