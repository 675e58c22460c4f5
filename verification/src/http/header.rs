//! Request and response headers, one value per header line, and the content
//! encodings that a body can be tagged with.

use crate::http::cookie::{cookie_text, parse_cookie, Cookie, CookieSpec};
use crate::http::{mime_text, parse_mime, status_line, MimeSpec, MimeType, StatusCode};
use crate::number::{decimal, parse_count, push_decimal, read_count};
use crate::text::{
    append_str, chars_of, is_space, is_text, lemma_split_pair, lemma_trim_plain,
    lemma_trim_space_before, lines, split, split_char, split_lines, split_text, string_of, trim,
    trim_text, views,
};
use vstd::prelude::*;

verus! {

/// The ways in which the content of a body can be encoded.
#[derive(Debug, PartialEq, Eq, Structural)]
pub enum ContentEncodingMethod {
    /// gzip (Lempel-Ziv coding).
    Gzip,
    /// Lempel-Ziv-Welch.
    Compress,
    /// deflate (RFC 1951) in the zlib structure (RFC 1950).
    Deflate,
    /// Brotli.
    Br,
}

/// The encoding that the text `s` names, if it names one.
pub open spec fn parse_encoding(s: Seq<char>) -> Option<ContentEncodingMethod> {
    if s == "gzip"@ {
        Some(ContentEncodingMethod::Gzip)
    } else if s == "compress"@ {
        Some(ContentEncodingMethod::Compress)
    } else if s == "deflate"@ {
        Some(ContentEncodingMethod::Deflate)
    } else if s == "br"@ {
        Some(ContentEncodingMethod::Br)
    } else {
        None
    }
}

/// The name of an encoding.
pub open spec fn encoding_text(e: ContentEncodingMethod) -> Seq<char> {
    match e {
        ContentEncodingMethod::Gzip => "gzip"@,
        ContentEncodingMethod::Compress => "compress"@,
        ContentEncodingMethod::Deflate => "deflate"@,
        ContentEncodingMethod::Br => "br"@,
    }
}

impl Clone for ContentEncodingMethod {
    fn clone(&self) -> (r: Self)
        ensures
            r == *self,
    {
        match self {
            ContentEncodingMethod::Gzip => ContentEncodingMethod::Gzip,
            ContentEncodingMethod::Compress => ContentEncodingMethod::Compress,
            ContentEncodingMethod::Deflate => ContentEncodingMethod::Deflate,
            ContentEncodingMethod::Br => ContentEncodingMethod::Br,
        }
    }
}

impl ContentEncodingMethod {
    /// Reads an encoding from the characters `v`.
    pub fn from_chars(v: &Vec<char>) -> (r: Option<ContentEncodingMethod>)
        ensures
            r == parse_encoding(v@),
    {
        if is_text(v, "gzip") {
            Some(ContentEncodingMethod::Gzip)
        } else if is_text(v, "compress") {
            Some(ContentEncodingMethod::Compress)
        } else if is_text(v, "deflate") {
            Some(ContentEncodingMethod::Deflate)
        } else if is_text(v, "br") {
            Some(ContentEncodingMethod::Br)
        } else {
            None
        }
    }

    /// Reads an encoding from its name; `None` for any other text.
    pub fn from_string(string: String) -> (r: Option<ContentEncodingMethod>)
        ensures
            r == parse_encoding(string@),
    {
        let v = chars_of(string.as_str());
        ContentEncodingMethod::from_chars(&v)
    }

    /// Appends the name of this encoding to `out`.
    pub fn write_to(&self, out: &mut Vec<char>)
        ensures
            final(out)@ == old(out)@ + encoding_text(*self),
    {
        match self {
            ContentEncodingMethod::Gzip => append_str(out, "gzip"),
            ContentEncodingMethod::Compress => append_str(out, "compress"),
            ContentEncodingMethod::Deflate => append_str(out, "deflate"),
            ContentEncodingMethod::Br => append_str(out, "br"),
        }
    }

    /// The name of this encoding.
    pub fn to_string(&self) -> (s: String)
        ensures
            s@ == encoding_text(*self),
    {
        let mut out: Vec<char> = Vec::new();
        self.write_to(&mut out);
        string_of(&out)
    }
}

/// The head of a response as a status and free-form `key:value` lines.
///
/// The typed headers of `HTTPResponseHeaders` have taken its place.
#[derive(Debug)]
pub struct HTTPResponseHeader {
    status: StatusCode,
    kv_pairs: Vec<String>,
}

/// The texts of `pairs`, with a line ending between each two.
pub open spec fn joined_lines(pairs: Seq<Seq<char>>) -> Seq<char>
    decreases pairs.len(),
{
    if pairs.len() == 0 {
        seq![]
    } else if pairs.len() == 1 {
        pairs[0]
    } else {
        joined_lines(pairs.drop_last()) + "\r\n"@ + pairs.last()
    }
}

/// The view of each string of `pairs`.
pub open spec fn string_views(pairs: Seq<String>) -> Seq<Seq<char>> {
    pairs.map_values(|p: String| p@)
}

impl HTTPResponseHeader {
    /// The status that the head starts with.
    pub closed spec fn status(&self) -> StatusCode {
        self.status
    }

    /// The `key:value` lines added so far, in their order.
    pub closed spec fn pairs(&self) -> Seq<Seq<char>> {
        string_views(self.kv_pairs@)
    }

    /// A head with the status `status` and no lines.
    pub fn new(status: StatusCode) -> (r: HTTPResponseHeader)
        ensures
            r.status() == status,
            r.pairs() == Seq::<Seq<char>>::empty(),
    {
        HTTPResponseHeader { status, kv_pairs: Vec::new() }
    }

    /// The status line, a line ending, and the lines with a line ending
    /// between each two; none after the last.
    pub fn to_string(&self) -> (s: String)
        ensures
            s@ == status_line(self.status()) + "\r\n"@ + joined_lines(self.pairs()),
    {
        let mut out = chars_of(self.status.to_string().as_str());
        append_str(&mut out, "\r\n");
        let ghost base = out@;
        let ghost all = string_views(self.kv_pairs@);
        let mut i: usize = 0;
        assert(all.take(0).len() == 0);
        while i < self.kv_pairs.len()
            invariant
                i <= self.kv_pairs.len(),
                all == string_views(self.kv_pairs@),
                out@ == base + joined_lines(all.take(i as int)),
            decreases self.kv_pairs.len() - i,
        {
            assert(all.take(i + 1).drop_last() == all.take(i as int));
            assert(all.take(i + 1).last() == self.kv_pairs@[i as int]@);
            if i > 0 {
                append_str(&mut out, "\r\n");
            } else {
                assert(all.take(1)[0] == self.kv_pairs@[0]@);
            }
            append_str(&mut out, self.kv_pairs[i].as_str());
            i += 1;
        }
        assert(all.take(self.kv_pairs.len() as int) == all);
        string_of(&out)
    }

    /// Adds the line `k:v`.
    pub fn add_kv_pair(&mut self, k: String, v: String)
        ensures
            final(self).status() == old(self).status(),
            final(self).pairs() == old(self).pairs().push(k@ + ":"@ + v@),
    {
        let mut line = chars_of(k.as_str());
        append_str(&mut line, ":");
        append_str(&mut line, v.as_str());
        let pair = string_of(&line);
        assert(string_views(self.kv_pairs@.push(pair)) == string_views(self.kv_pairs@).push(
            pair@,
        ));
        self.kv_pairs.push(pair);
    }
}

/// The headers that a response can carry.
#[derive(Debug)]
pub enum HTTPResponseHeaders {
    ContentType(MimeType),
    ContentLength(usize),
    ContentEncoding(ContentEncodingMethod),
    Server(String),
    SetCookie(Cookie),
    Location(String),
    AccessControlAllowOrigin(String),
}

/// A response header as a mathematical value.
pub enum ResponseHeaderSpec {
    ContentType(MimeSpec),
    ContentLength(usize),
    ContentEncoding(ContentEncodingMethod),
    Server(Seq<char>),
    SetCookie(CookieSpec),
    Location(Seq<char>),
    AccessControlAllowOrigin(Seq<char>),
}

impl View for HTTPResponseHeaders {
    type V = ResponseHeaderSpec;

    open spec fn view(&self) -> ResponseHeaderSpec {
        match self {
            HTTPResponseHeaders::ContentType(n) => ResponseHeaderSpec::ContentType(n@),
            HTTPResponseHeaders::ContentLength(n) => ResponseHeaderSpec::ContentLength(*n),
            HTTPResponseHeaders::ContentEncoding(n) => ResponseHeaderSpec::ContentEncoding(*n),
            HTTPResponseHeaders::Server(n) => ResponseHeaderSpec::Server(n@),
            HTTPResponseHeaders::SetCookie(n) => ResponseHeaderSpec::SetCookie(n@),
            HTTPResponseHeaders::Location(n) => ResponseHeaderSpec::Location(n@),
            HTTPResponseHeaders::AccessControlAllowOrigin(n) => {
                ResponseHeaderSpec::AccessControlAllowOrigin(n@)
            },
        }
    }
}

/// The response header that the line `s` writes, if it writes one.
///
/// The line is cut at each `:`. The first piece, trimmed, is the key; the
/// second, trimmed, is the value; further pieces do not count. A line without
/// `:`, an unknown key, or a value that its key does not take gives none.
pub open spec fn parse_response_header(s: Seq<char>) -> Option<ResponseHeaderSpec> {
    let parts = split(s, seq![':']);
    if parts.len() < 2 {
        None
    } else {
        let key = trim(parts[0]);
        let value = trim(parts[1]);
        if key == "Content-Type"@ {
            match parse_mime(value) {
                Some(m) => Some(ResponseHeaderSpec::ContentType(m)),
                None => None,
            }
        } else if key == "Content-Length"@ {
            match parse_count(value) {
                Some(n) => Some(ResponseHeaderSpec::ContentLength(n)),
                None => None,
            }
        } else if key == "Content-Encoding"@ {
            match crate::http::header::parse_encoding(value) {
                Some(e) => Some(ResponseHeaderSpec::ContentEncoding(e)),
                None => None,
            }
        } else if key == "Server"@ {
            Some(ResponseHeaderSpec::Server(value))
        } else if key == "Set-Cookie"@ {
            match parse_cookie(value) {
                Some(c) => Some(ResponseHeaderSpec::SetCookie(c)),
                None => None,
            }
        } else if key == "Location"@ {
            Some(ResponseHeaderSpec::Location(value))
        } else if key == "Access-Control-Allow-Origin"@ {
            Some(ResponseHeaderSpec::AccessControlAllowOrigin(value))
        } else {
            None
        }
    }
}

/// The line that writes a response header: its key, `: `, and its value.
pub open spec fn response_header_text(h: ResponseHeaderSpec) -> Seq<char> {
    match h {
        ResponseHeaderSpec::ContentType(n) => "Content-Type: "@ + mime_text(n),
        ResponseHeaderSpec::ContentLength(n) => "Content-Length: "@ + decimal(n as nat),
        ResponseHeaderSpec::ContentEncoding(n) => "Content-Encoding: "@ + encoding_text(n),
        ResponseHeaderSpec::Server(n) => "Server: "@ + n,
        ResponseHeaderSpec::SetCookie(n) => "Set-Cookie: "@ + cookie_text(n),
        ResponseHeaderSpec::Location(n) => "Location: "@ + n,
        ResponseHeaderSpec::AccessControlAllowOrigin(n) => "Access-Control-Allow-Origin: "@ + n,
    }
}

impl Clone for HTTPResponseHeaders {
    fn clone(&self) -> (r: Self)
        ensures
            r@ == self@,
    {
        match self {
            HTTPResponseHeaders::ContentType(n) => HTTPResponseHeaders::ContentType(n.clone()),
            HTTPResponseHeaders::ContentLength(n) => HTTPResponseHeaders::ContentLength(*n),
            HTTPResponseHeaders::ContentEncoding(n) => HTTPResponseHeaders::ContentEncoding(
                n.clone(),
            ),
            HTTPResponseHeaders::Server(n) => HTTPResponseHeaders::Server(n.clone()),
            HTTPResponseHeaders::SetCookie(n) => HTTPResponseHeaders::SetCookie(n.clone()),
            HTTPResponseHeaders::Location(n) => HTTPResponseHeaders::Location(n.clone()),
            HTTPResponseHeaders::AccessControlAllowOrigin(n) => {
                HTTPResponseHeaders::AccessControlAllowOrigin(n.clone())
            },
        }
    }
}

impl HTTPResponseHeaders {
    /// Reads a response header from one line; `None` where the line writes
    /// none.
    pub fn from_string(string: String) -> (r: Option<HTTPResponseHeaders>)
        ensures
            match r {
                Some(h) => parse_response_header(string@) == Some(h@),
                None => parse_response_header(string@) is None,
            },
    {
        let v = chars_of(string.as_str());
        let parts = split_char(&v, ':');
        if parts.len() < 2 {
            return None;
        }
        assert(views(parts@)[0] == parts@[0]@);
        assert(views(parts@)[1] == parts@[1]@);
        let key = trim_text(&parts[0]);
        let value = trim_text(&parts[1]);
        if is_text(&key, "Content-Type") {
            match MimeType::from_chars(&value) {
                Some(m) => Some(HTTPResponseHeaders::ContentType(m)),
                None => None,
            }
        } else if is_text(&key, "Content-Length") {
            match read_count(&value) {
                Some(n) => Some(HTTPResponseHeaders::ContentLength(n)),
                None => None,
            }
        } else if is_text(&key, "Content-Encoding") {
            match ContentEncodingMethod::from_chars(&value) {
                Some(e) => Some(HTTPResponseHeaders::ContentEncoding(e)),
                None => None,
            }
        } else if is_text(&key, "Server") {
            Some(HTTPResponseHeaders::Server(string_of(&value)))
        } else if is_text(&key, "Set-Cookie") {
            match Cookie::from_chars(&value) {
                Some(c) => Some(HTTPResponseHeaders::SetCookie(c)),
                None => None,
            }
        } else if is_text(&key, "Location") {
            Some(HTTPResponseHeaders::Location(string_of(&value)))
        } else if is_text(&key, "Access-Control-Allow-Origin") {
            Some(HTTPResponseHeaders::AccessControlAllowOrigin(string_of(&value)))
        } else {
            None
        }
    }

    /// Appends the line that writes this header to `out`, without a line
    /// ending.
    pub fn write_to(&self, out: &mut Vec<char>)
        ensures
            final(out)@ == old(out)@ + response_header_text(self@),
    {
        match self {
            HTTPResponseHeaders::ContentType(n) => {
                append_str(out, "Content-Type: ");
                n.write_to(out);
            },
            HTTPResponseHeaders::ContentLength(n) => {
                append_str(out, "Content-Length: ");
                push_decimal(out, *n);
            },
            HTTPResponseHeaders::ContentEncoding(n) => {
                append_str(out, "Content-Encoding: ");
                n.write_to(out);
            },
            HTTPResponseHeaders::Server(n) => {
                append_str(out, "Server: ");
                append_str(out, n.as_str());
            },
            HTTPResponseHeaders::SetCookie(n) => {
                append_str(out, "Set-Cookie: ");
                n.write_to(out);
            },
            HTTPResponseHeaders::Location(n) => {
                append_str(out, "Location: ");
                append_str(out, n.as_str());
            },
            HTTPResponseHeaders::AccessControlAllowOrigin(n) => {
                append_str(out, "Access-Control-Allow-Origin: ");
                append_str(out, n.as_str());
            },
        }
    }

    /// The line that writes this header, without a line ending.
    pub fn to_string(&self) -> (s: String)
        ensures
            s@ == response_header_text(self@),
    {
        let mut out: Vec<char> = Vec::new();
        self.write_to(&mut out);
        string_of(&out)
    }
}

/// The headers that the library reads from a request.
#[derive(Debug)]
pub enum HTTPRequestHeaders {
    ContentLength(usize),
    ContentType(MimeType),
    Accept(MimeType),
    UserAgent(String),
    Cookie(Vec<Cookie>),
    Host(String),
}

/// A request header as a mathematical value.
pub enum RequestHeaderSpec {
    ContentLength(usize),
    ContentType(MimeSpec),
    Accept(MimeSpec),
    UserAgent(Seq<char>),
    Cookie(Seq<CookieSpec>),
    Host(Seq<char>),
}

/// The view of each cookie of `cookies`.
pub open spec fn cookie_views(cookies: Seq<Cookie>) -> Seq<CookieSpec> {
    cookies.map_values(|c: Cookie| c@)
}

impl View for HTTPRequestHeaders {
    type V = RequestHeaderSpec;

    open spec fn view(&self) -> RequestHeaderSpec {
        match self {
            HTTPRequestHeaders::ContentLength(n) => RequestHeaderSpec::ContentLength(*n),
            HTTPRequestHeaders::ContentType(n) => RequestHeaderSpec::ContentType(n@),
            HTTPRequestHeaders::Accept(n) => RequestHeaderSpec::Accept(n@),
            HTTPRequestHeaders::UserAgent(n) => RequestHeaderSpec::UserAgent(n@),
            HTTPRequestHeaders::Cookie(n) => RequestHeaderSpec::Cookie(cookie_views(n@)),
            HTTPRequestHeaders::Host(n) => RequestHeaderSpec::Host(n@),
        }
    }
}

/// The cookies that the texts `segs` write, in their order; a text that
/// writes none is passed over.
pub open spec fn parse_cookies(segs: Seq<Seq<char>>) -> Seq<CookieSpec>
    decreases segs.len(),
{
    if segs.len() == 0 {
        seq![]
    } else {
        let head = parse_cookies(segs.drop_last());
        match parse_cookie(segs.last()) {
            Some(c) => head.push(c),
            None => head,
        }
    }
}

/// The request header that the line `s` writes, if it writes one.
///
/// The line is cut at each `:`. The first piece, as it stands, is the key;
/// the second, trimmed, is the value; further pieces do not count. A line
/// without `:`, an unknown key, or a value that its key does not take gives
/// none. The value of `Cookie` is cut at each `; ` into cookies.
pub open spec fn parse_request_header(s: Seq<char>) -> Option<RequestHeaderSpec> {
    let parts = split(s, seq![':']);
    if parts.len() < 2 {
        None
    } else {
        let key = parts[0];
        let value = trim(parts[1]);
        if key == "Content-Length"@ {
            match parse_count(value) {
                Some(n) => Some(RequestHeaderSpec::ContentLength(n)),
                None => None,
            }
        } else if key == "Content-Type"@ {
            match parse_mime(value) {
                Some(m) => Some(RequestHeaderSpec::ContentType(m)),
                None => None,
            }
        } else if key == "Accept"@ {
            match parse_mime(value) {
                Some(m) => Some(RequestHeaderSpec::Accept(m)),
                None => None,
            }
        } else if key == "User-Agent"@ {
            Some(RequestHeaderSpec::UserAgent(value))
        } else if key == "Cookie"@ {
            Some(RequestHeaderSpec::Cookie(parse_cookies(split(value, "; "@))))
        } else if key == "Host"@ {
            Some(RequestHeaderSpec::Host(value))
        } else {
            None
        }
    }
}

/// The request headers that the lines `ls` write, in their order; a line that
/// writes none is passed over.
pub open spec fn parse_request_headers(ls: Seq<Seq<char>>) -> Seq<RequestHeaderSpec>
    decreases ls.len(),
{
    if ls.len() == 0 {
        seq![]
    } else {
        let head = parse_request_headers(ls.drop_last());
        match parse_request_header(ls.last()) {
            Some(h) => head.push(h),
            None => head,
        }
    }
}

/// The view of each header of `headers`.
pub open spec fn request_header_views(headers: Seq<HTTPRequestHeaders>) -> Seq<
    RequestHeaderSpec,
> {
    headers.map_values(|h: HTTPRequestHeaders| h@)
}

/// A copy of the cookies `cookies`.
pub fn clone_cookies(cookies: &Vec<Cookie>) -> (r: Vec<Cookie>)
    ensures
        cookie_views(r@) == cookie_views(cookies@),
{
    let mut r: Vec<Cookie> = Vec::new();
    let mut i: usize = 0;
    while i < cookies.len()
        invariant
            i <= cookies.len(),
            cookie_views(r@) == cookie_views(cookies@).take(i as int),
        decreases cookies.len() - i,
    {
        let c = cookies[i].clone();
        assert(cookie_views(r@.push(c)) == cookie_views(r@).push(c@));
        r.push(c);
        i += 1;
    }
    assert(cookie_views(cookies@).take(cookies.len() as int) == cookie_views(cookies@));
    r
}

impl Clone for HTTPRequestHeaders {
    fn clone(&self) -> (r: Self)
        ensures
            r@ == self@,
    {
        match self {
            HTTPRequestHeaders::ContentLength(n) => HTTPRequestHeaders::ContentLength(*n),
            HTTPRequestHeaders::ContentType(n) => HTTPRequestHeaders::ContentType(n.clone()),
            HTTPRequestHeaders::Accept(n) => HTTPRequestHeaders::Accept(n.clone()),
            HTTPRequestHeaders::UserAgent(n) => HTTPRequestHeaders::UserAgent(n.clone()),
            HTTPRequestHeaders::Cookie(n) => HTTPRequestHeaders::Cookie(clone_cookies(n)),
            HTTPRequestHeaders::Host(n) => HTTPRequestHeaders::Host(n.clone()),
        }
    }
}

impl HTTPRequestHeaders {
    /// Reads the cookies of a `Cookie` header's value.
    fn cookies_from_chars(value: &Vec<char>) -> (r: Vec<Cookie>)
        ensures
            cookie_views(r@) == parse_cookies(split(value@, "; "@)),
    {
        let sep = chars_of("; ");
        let segs = split_text(value, &sep);
        let ghost texts = views(segs@);
        let mut cookies: Vec<Cookie> = Vec::new();
        let mut i: usize = 0;
        assert(cookie_views(cookies@) == Seq::<CookieSpec>::empty());
        assert(texts.take(0).len() == 0);
        while i < segs.len()
            invariant
                i <= segs.len(),
                texts == views(segs@),
                cookie_views(cookies@) == parse_cookies(texts.take(i as int)),
            decreases segs.len() - i,
        {
            assert(texts.take(i + 1).drop_last() == texts.take(i as int));
            assert(texts.take(i + 1).last() == segs@[i as int]@);
            match Cookie::from_chars(&segs[i]) {
                Some(c) => {
                    assert(cookie_views(cookies@.push(c)) == cookie_views(cookies@).push(c@));
                    cookies.push(c);
                },
                None => {},
            }
            i += 1;
        }
        assert(texts.take(segs.len() as int) == texts);
        cookies
    }

    /// Reads a request header from the characters of one line.
    pub fn from_chars(v: &Vec<char>) -> (r: Option<HTTPRequestHeaders>)
        ensures
            match r {
                Some(h) => parse_request_header(v@) == Some(h@),
                None => parse_request_header(v@) is None,
            },
    {
        let parts = split_char(v, ':');
        if parts.len() < 2 {
            return None;
        }
        assert(views(parts@)[0] == parts@[0]@);
        assert(views(parts@)[1] == parts@[1]@);
        let key = &parts[0];
        let value = trim_text(&parts[1]);
        if is_text(key, "Content-Length") {
            match read_count(&value) {
                Some(n) => Some(HTTPRequestHeaders::ContentLength(n)),
                None => None,
            }
        } else if is_text(key, "Content-Type") {
            match MimeType::from_chars(&value) {
                Some(m) => Some(HTTPRequestHeaders::ContentType(m)),
                None => None,
            }
        } else if is_text(key, "Accept") {
            match MimeType::from_chars(&value) {
                Some(m) => Some(HTTPRequestHeaders::Accept(m)),
                None => None,
            }
        } else if is_text(key, "User-Agent") {
            Some(HTTPRequestHeaders::UserAgent(string_of(&value)))
        } else if is_text(key, "Cookie") {
            Some(HTTPRequestHeaders::Cookie(HTTPRequestHeaders::cookies_from_chars(&value)))
        } else if is_text(key, "Host") {
            Some(HTTPRequestHeaders::Host(string_of(&value)))
        } else {
            None
        }
    }

    /// Reads a request header from one line; `None` where the line writes
    /// none.
    pub fn from_string(string: String) -> (r: Option<HTTPRequestHeaders>)
        ensures
            match r {
                Some(h) => parse_request_header(string@) == Some(h@),
                None => parse_request_header(string@) is None,
            },
    {
        let v = chars_of(string.as_str());
        HTTPRequestHeaders::from_chars(&v)
    }
}

/// Reads the request headers that the lines `ls[from..]` write.
pub fn headers_from_lines(ls: &Vec<Vec<char>>, from: usize) -> (out: Vec<HTTPRequestHeaders>)
    requires
        from <= ls.len(),
    ensures
        request_header_views(out@) == parse_request_headers(views(ls@).skip(from as int)),
{
    let ghost texts = views(ls@);
    let mut out: Vec<HTTPRequestHeaders> = Vec::new();
    let mut i: usize = from;
    assert(request_header_views(out@) == Seq::<RequestHeaderSpec>::empty());
    assert(texts.subrange(from as int, from as int).len() == 0);
    while i < ls.len()
        invariant
            from <= i <= ls.len(),
            texts == views(ls@),
            request_header_views(out@) == parse_request_headers(
                texts.subrange(from as int, i as int),
            ),
        decreases ls.len() - i,
    {
        let ghost upto = texts.subrange(from as int, i + 1);
        assert(upto.drop_last() == texts.subrange(from as int, i as int));
        assert(upto.last() == ls@[i as int]@);
        match HTTPRequestHeaders::from_chars(&ls[i]) {
            Some(h) => {
                assert(request_header_views(out@.push(h)) == request_header_views(out@).push(
                    h@,
                ));
                out.push(h);
            },
            None => {},
        }
        i += 1;
    }
    assert(texts.subrange(from as int, ls.len() as int) == texts.skip(from as int));
    out
}

/// Reads the request headers that the lines of `string` write; a line that
/// writes none is passed over.
pub fn req_headers_from_string(string: String) -> (out: Vec<HTTPRequestHeaders>)
    ensures
        request_header_views(out@) == parse_request_headers(lines(string@)),
{
    let v = chars_of(string.as_str());
    let ls = split_lines(&v);
    assert(views(ls@).skip(0) == views(ls@));
    headers_from_lines(&ls, 0)
}

/// The line of a `Content-Length` header reads back as that header, with the
/// same length, in a response and in a request.
pub proof fn lemma_content_length_round_trip(n: usize)
    ensures
        parse_response_header(response_header_text(ResponseHeaderSpec::ContentLength(n)))
            == Some(ResponseHeaderSpec::ContentLength(n)),
        parse_request_header(response_header_text(ResponseHeaderSpec::ContentLength(n)))
            == Some(RequestHeaderSpec::ContentLength(n)),
{
    reveal_strlit("Content-Length: ");
    reveal_strlit("Content-Length");
    reveal_strlit("Content-Type");
    let key = "Content-Length"@;
    let digits = decimal(n as nat);
    let value = seq![' '] + digits;
    let line = response_header_text(ResponseHeaderSpec::ContentLength(n));
    crate::number::lemma_decimal_digits(n as nat);
    crate::number::lemma_decimal_round_trip(n);
    assert("Content-Length: "@ == key + seq![':'] + seq![' ']);
    assert(line == key + seq![':'] + value);
    assert forall|j: int| 0 <= j < digits.len() implies digits[j] != ':' && !is_space(
        digits[j],
    ) by {
        assert(crate::number::is_digit(digits[j]));
    }
    assert forall|j: int| 0 <= j < value.len() implies value[j] != ':' by {
        if j > 0 {
            assert(value[j] == digits[j - 1]);
        }
    }
    lemma_split_pair(key, value, ':');
    let parts = split(line, seq![':']);
    assert(parts[0] == key);
    assert(parts[1] == value);
    assert(!is_space(key[0]) && !is_space(key.last()));
    lemma_trim_plain(key);
    assert(!is_space(digits[0]) && !is_space(digits.last()));
    lemma_trim_space_before(digits);
    assert(key[8] != "Content-Type"@[8]);
}

} // verus!
