//! Responses and their wire form.

use crate::http::body::{clone_bytes, Body, BodySpec};
use crate::http::header::{response_header_text, HTTPResponseHeaders, ResponseHeaderSpec};
use crate::http::{status_line, StatusCode};
use crate::text::{append_str, chars_of, lemma_lines_first, lines, string_of};
use vstd::prelude::*;
use vstd::string::StrSliceExecFns;
use vstd::utf8::{decode_utf8, encode_utf8, valid_utf8};

verus! {

/// A response: a status, headers in their order, and a body.
#[derive(Debug)]
pub struct HTTPResponse {
    status: StatusCode,
    header: Vec<HTTPResponseHeaders>,
    body: Body,
}

/// A response as a mathematical value.
pub struct ResponseSpec {
    pub status: StatusCode,
    pub header: Seq<ResponseHeaderSpec>,
    pub body: BodySpec,
}

/// The view of each header of `headers`.
pub open spec fn response_header_views(headers: Seq<HTTPResponseHeaders>) -> Seq<
    ResponseHeaderSpec,
> {
    headers.map_values(|h: HTTPResponseHeaders| h@)
}

impl View for HTTPResponse {
    type V = ResponseSpec;

    closed spec fn view(&self) -> ResponseSpec {
        ResponseSpec {
            status: self.status,
            header: response_header_views(self.header@),
            body: self.body@,
        }
    }
}

/// The header lines of a response: each header's line and a line ending.
pub open spec fn headers_text(headers: Seq<ResponseHeaderSpec>) -> Seq<char>
    decreases headers.len(),
{
    if headers.len() == 0 {
        seq![]
    } else {
        headers_text(headers.drop_last()) + response_header_text(headers.last()) + "\r\n"@
    }
}

/// The head of a response: the status line, the header lines, and an empty
/// line.
pub open spec fn response_head(status: StatusCode, headers: Seq<ResponseHeaderSpec>) -> Seq<
    char,
> {
    status_line(status) + "\r\n"@ + headers_text(headers) + "\r\n"@
}

/// The wire form of a response: its head in UTF-8, then the bytes of its body.
pub open spec fn response_bytes(r: ResponseSpec) -> Seq<u8> {
    encode_utf8(response_head(r.status, r.header)) + r.body.content
}

impl HTTPResponse {
    /// A response of these parts.
    pub fn new(status: StatusCode, header: Vec<HTTPResponseHeaders>, body: Body) -> (r:
        HTTPResponse)
        ensures
            r@ == (ResponseSpec {
                status,
                header: response_header_views(header@),
                body: body@,
            }),
    {
        HTTPResponse { status, header, body }
    }

    /// The characters of the head.
    fn head_chars(&self) -> (out: Vec<char>)
        ensures
            out@ == response_head(self@.status, self@.header),
    {
        let mut out = chars_of(self.status.to_string().as_str());
        append_str(&mut out, "\r\n");
        let ghost base = out@;
        let ghost all = response_header_views(self.header@);
        let mut i: usize = 0;
        assert(all.take(0).len() == 0);
        while i < self.header.len()
            invariant
                i <= self.header.len(),
                all == response_header_views(self.header@),
                out@ == base + headers_text(all.take(i as int)),
            decreases self.header.len() - i,
        {
            assert(all.take(i + 1).drop_last() == all.take(i as int));
            assert(all.take(i + 1).last() == self.header@[i as int]@);
            self.header[i].write_to(&mut out);
            append_str(&mut out, "\r\n");
            i += 1;
        }
        assert(all.take(self.header.len() as int) == all);
        append_str(&mut out, "\r\n");
        out
    }

    /// The response as text: the head, then the text that the body encodes.
    /// It fails where the bytes of the body are not UTF-8.
    pub fn try_to_string(&self) -> (r: Result<String, std::string::FromUtf8Error>)
        ensures
            r is Ok <==> valid_utf8(self@.body.content),
            r matches Ok(s) ==> s@ == response_head(self@.status, self@.header) + decode_utf8(
                self@.body.content,
            ),
    {
        match self.body.try_to_string() {
            Ok(text) => {
                let mut out = self.head_chars();
                append_str(&mut out, text.as_str());
                Ok(string_of(&out))
            },
            Err(e) => Err(e),
        }
    }

    /// The wire form of the response.
    pub fn to_bytes(&self) -> (bytes: Vec<u8>)
        ensures
            bytes@ == response_bytes(self@),
    {
        let head = string_of(&self.head_chars());
        let mut bytes = head.as_str().as_bytes_vec();
        let body = self.body.get_bytes();
        let ghost base = bytes@;
        let mut i: usize = 0;
        while i < body.len()
            invariant
                i <= body.len(),
                bytes@ == base + body@.take(i as int),
            decreases body.len() - i,
        {
            bytes.push(body[i]);
            i += 1;
        }
        assert(body@.take(body.len() as int) == body@);
        bytes
    }
}

/// Whether `text` holds no line feed.
pub open spec fn one_line(text: Seq<char>) -> bool {
    forall|j: int| 0 <= j < text.len() ==> text[j] != '\n'
}

/// The line of each header of `headers`.
pub open spec fn header_lines(headers: Seq<ResponseHeaderSpec>) -> Seq<Seq<char>> {
    headers.map_values(|h: ResponseHeaderSpec| response_header_text(h))
}

/// The header lines start with the line of the first header.
pub proof fn lemma_headers_text_first(headers: Seq<ResponseHeaderSpec>)
    requires
        headers.len() > 0,
    ensures
        headers_text(headers) == response_header_text(headers[0]) + "\r\n"@ + headers_text(
            headers.drop_first(),
        ),
    decreases headers.len(),
{
    let last = response_header_text(headers.last()) + "\r\n"@;
    if headers.len() == 1 {
        assert(headers.drop_last().len() == 0);
        assert(headers.drop_first().len() == 0);
        assert(headers.last() == headers[0]);
        assert(headers_text(headers.drop_last()) == Seq::<char>::empty());
        assert(headers_text(headers.drop_first()) == Seq::<char>::empty());
        assert(headers_text(headers) == Seq::<char>::empty() + response_header_text(
            headers[0],
        ) + "\r\n"@);
        assert(headers_text(headers) == response_header_text(headers[0]) + "\r\n"@
            + Seq::<char>::empty());
    } else {
        let front = headers.drop_last();
        lemma_headers_text_first(front);
        assert(front[0] == headers[0]);
        assert(front.drop_first() == headers.drop_first().drop_last());
        assert(headers.drop_first().last() == headers.last());
        let first = response_header_text(headers[0]) + "\r\n"@;
        let middle = headers_text(front.drop_first());
        assert(headers_text(headers) == (first + middle) + response_header_text(
            headers.last(),
        ) + "\r\n"@);
        assert(headers_text(headers.drop_first()) == middle + response_header_text(
            headers.last(),
        ) + "\r\n"@);
        assert((first + middle) + response_header_text(headers.last()) + "\r\n"@ == first + (
        middle + response_header_text(headers.last()) + "\r\n"@));
    }
}

/// The header lines and the empty line after them are one line for each
/// header, in the order of the headers, and one empty line.
pub proof fn lemma_header_block_lines(headers: Seq<ResponseHeaderSpec>)
    requires
        forall|i: int| 0 <= i < headers.len() ==> one_line(response_header_text(headers[i])),
    ensures
        lines(headers_text(headers) + "\r\n"@) == header_lines(headers) + seq![
            Seq::<char>::empty(),
        ],
    decreases headers.len(),
{
    reveal_strlit("\r\n");
    let crlf = seq!['\r', '\n'];
    let empty = Seq::<char>::empty();
    assert("\r\n"@ == crlf);
    if headers.len() == 0 {
        assert(headers_text(headers) + crlf == empty + crlf + empty);
        lemma_lines_first(empty, empty);
        assert(lines(empty) == Seq::<Seq<char>>::empty());
        assert(header_lines(headers) + seq![empty] == seq![empty] + Seq::<Seq<char>>::empty());
    } else {
        let first = response_header_text(headers[0]);
        let tail = headers.drop_first();
        lemma_headers_text_first(headers);
        assert forall|i: int| 0 <= i < tail.len() implies one_line(
            response_header_text(tail[i]),
        ) by {
            assert(tail[i] == headers[i + 1]);
        }
        lemma_header_block_lines(tail);
        let after = headers_text(tail) + crlf;
        assert(headers_text(headers) + crlf == first + crlf + after);
        assert(one_line(first));
        lemma_lines_first(first, after);
        assert(header_lines(headers) == seq![first] + header_lines(tail));
        assert(seq![first] + (header_lines(tail) + seq![empty]) == header_lines(headers)
            + seq![empty]);
    }
}

/// No status line holds a line feed.
pub proof fn lemma_status_line_one_line(status: StatusCode)
    ensures
        one_line(status_line(status)),
{
    reveal_strlit("HTTP/1.1 200 OK");
    reveal_strlit("HTTP/1.1 404 NOT FOUND");
    reveal_strlit("HTTP/1.1 500 INTERNAL SERVER ERROR");
    reveal_strlit("HTTP/1.1 301 MOVED PERMANENTLY");
}

/// The head of a response is, line by line, its status line, one line for
/// each header in the order of the headers, and one empty line: the status
/// line stands once, and every header stands as often as it was given.
pub proof fn lemma_response_lines(status: StatusCode, headers: Seq<ResponseHeaderSpec>)
    requires
        forall|i: int| 0 <= i < headers.len() ==> one_line(response_header_text(headers[i])),
    ensures
        lines(response_head(status, headers)) == seq![status_line(status)] + header_lines(
            headers,
        ) + seq![Seq::<char>::empty()],
{
    reveal_strlit("\r\n");
    let crlf = seq!['\r', '\n'];
    assert("\r\n"@ == crlf);
    lemma_status_line_one_line(status);
    lemma_header_block_lines(headers);
    let after = headers_text(headers) + crlf;
    assert(response_head(status, headers) == status_line(status) + crlf + after);
    lemma_lines_first(status_line(status), after);
    assert(seq![status_line(status)] + (header_lines(headers) + seq![Seq::<char>::empty()])
        == seq![status_line(status)] + header_lines(headers) + seq![Seq::<char>::empty()]);
}

} // verus!
