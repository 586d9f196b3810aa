//! The text of the request that fetches the catalogue, and the sorting of the
//! response's lines into headers and document.
use vstd::prelude::*;

use crate::text::{decimal, decimal_string, is_control, is_control_char};

verus! {

/// `s` without its control characters.
pub open spec fn strip_controls(s: Seq<char>) -> Seq<char>
    decreases s.len(),
{
    if s.len() == 0 {
        s
    } else if is_control(s.last()) {
        strip_controls(s.drop_last())
    } else {
        strip_controls(s.drop_last()).push(s.last())
    }
}

/// The JSON body that asks for the weapon documents with the query `query`.
pub open spec fn request_body(query: Seq<char>) -> Seq<char> {
    "{\"variables\":{\"input\":{\"staticDataTypes\":[\"weapons\"]}},\"query\":\""@ + strip_controls(
        query,
    ) + "\"}"@
}

/// The whole request to `host` for the query `query`.
pub open spec fn request_text(host: Seq<char>, query: Seq<char>) -> Seq<char> {
    "POST /api/elden-ring-nightreign/v1/graphql/query HTTP/1.1\r\nHost: "@ + host
        + "\r\nUser-Agent: Wget/1.25.0\r\nAccept: */*\r\nAccept-Encoding: identity\r\nConnection: close\r\nContent-Type: application/json\r\nContent-Length: "@
        + decimal(vstd::utf8::encode_utf8(request_body(query)).len()) + "\r\n\r\n"@
        + request_body(query)
}

/// The text of `s` without its control characters.
pub fn without_controls(s: &str) -> (r: String)
    ensures
        r@ == strip_controls(s@),
{
    let n = s.unicode_len();
    let mut r = String::new();
    let mut start: usize = 0;
    let mut i: usize = 0;
    assert(s@.subrange(0, 0) =~= Seq::<char>::empty());
    assert(r@ + s@.subrange(0, 0) =~= Seq::<char>::empty());
    while i < n
        invariant
            n == s@.len(),
            start <= i <= n,
            r@ + s@.subrange(start as int, i as int) == strip_controls(s@.subrange(0, i as int)),
        decreases n - i,
    {
        let c = s.get_char(i);
        assert(s@.subrange(0, i + 1).drop_last() =~= s@.subrange(0, i as int));
        assert(s@.subrange(0, i + 1).last() == c);
        if is_control_char(c) {
            r.append(s.substring_char(start, i));
            start = i + 1;
            assert(s@.subrange(start as int, i + 1) =~= Seq::<char>::empty());
            assert(r@ + s@.subrange(start as int, i + 1) =~= r@);
        } else {
            assert(s@.subrange(start as int, i + 1) =~= s@.subrange(start as int, i as int).push(
                c,
            ));
            assert(r@ + s@.subrange(start as int, i + 1) =~= (r@ + s@.subrange(
                start as int,
                i as int,
            )).push(c));
        }
        i = i + 1;
    }
    r.append(s.substring_char(start, n));
    assert(s@.subrange(0, n as int) =~= s@);
    r
}

/// The request that fetches the weapon documents from `host` with the
/// GraphQL query `query`; control characters of the query are dropped.
pub fn build_request(host: &str, query: &str) -> (r: String)
    ensures
        r@ == request_text(host@, query@),
{
    let mut body = String::from_str(
        "{\"variables\":{\"input\":{\"staticDataTypes\":[\"weapons\"]}},\"query\":\"",
    );
    body.append(without_controls(query).as_str());
    body.append("\"}");
    let length = body.as_str().as_bytes().len();
    let mut r = String::from_str(
        "POST /api/elden-ring-nightreign/v1/graphql/query HTTP/1.1\r\nHost: ",
    );
    r.append(host);
    r.append(
        "\r\nUser-Agent: Wget/1.25.0\r\nAccept: */*\r\nAccept-Encoding: identity\r\nConnection: close\r\nContent-Type: application/json\r\nContent-Length: ",
    );
    r.append(decimal_string(length as u64).as_str());
    r.append("\r\n\r\n");
    r.append(body.as_str());
    assert(r@ =~= request_text(host@, query@));
    r
}

/// `s` without a final line ending (`\r\n` or `\n`).
pub open spec fn line_text(s: Seq<char>) -> Seq<char> {
    if s.len() >= 2 && s[s.len() - 2] == '\r' && s[s.len() - 1] == '\n' {
        s.subrange(0, s.len() - 2)
    } else if s.len() >= 1 && s[s.len() - 1] == '\n' {
        s.subrange(0, s.len() - 1)
    } else {
        s
    }
}

/// Where one line of the response goes.
pub enum LineRoute {
    /// A line of the JSON document.
    Document(String),
    /// A status or header line, or a short line around the document.
    Other(String),
}

/// Sorts the response's lines: the document starts at the first line that
/// opens with `{`; from there on, lines longer than six bytes belong to it.
pub struct ResponseLines {
    pub in_document: bool,
}

impl ResponseLines {
    pub fn new() -> (r: ResponseLines)
        ensures
            !r.in_document,
    {
        ResponseLines { in_document: false }
    }

    /// Routes one line as read, with its line ending.
    pub fn route(&mut self, line: &str) -> (r: LineRoute)
        ensures
            final(self).in_document == (old(self).in_document || (line@.len() > 0 && line@[0]
                == '{')),
            match r {
                LineRoute::Document(t) => final(self).in_document && line.len() > 6
                    && t@ == line_text(line@),
                LineRoute::Other(t) => !(final(self).in_document && line.len() > 6)
                    && t@ == line_text(line@),
            },
    {
        let n = line.unicode_len();
        if n > 0 && line.get_char(0) == '{' {
            self.in_document = true;
        }
        let end = if n >= 2 && line.get_char(n - 2) == '\r' && line.get_char(n - 1) == '\n' {
            n - 2
        } else if n >= 1 && line.get_char(n - 1) == '\n' {
            n - 1
        } else {
            n
        };
        let text = String::from_str(line.substring_char(0, end));
        proof {
            if end == n {
                assert(line@.subrange(0, n as int) =~= line@);
            }
        }
        if self.in_document && line.len() > 6 {
            LineRoute::Document(text)
        } else {
            LineRoute::Other(text)
        }
    }
}

} // verus!
