//! Requests: the method, the path and the typed headers of a request text.

use crate::http::header::{
    headers_from_lines, parse_request_headers, request_header_views, HTTPRequestHeaders,
    RequestHeaderSpec,
};
use crate::text::{
    chars_of, is_space, is_text, lines, split_lines, split_words, string_of, views, words,
};
use vstd::prelude::*;
use vstd::string::StringExecFns;

verus! {

/// The failure to read a request from a text.
#[derive(Debug, PartialEq, Eq, Structural)]
pub struct HTTPRequestParsingError;

impl HTTPRequestParsingError {
    /// The message of this error.
    pub fn to_string(&self) -> (s: String)
        ensures
            s@ == "error parsing HTTP request"@,
    {
        String::from_str("error parsing HTTP request")
    }
}

/// The methods of a request.
#[derive(Debug, PartialEq, Eq, Structural)]
pub enum HTTPMethod {
    Get,
    Post,
    Head,
    Delete,
    Put,
    Connect,
    Options,
    Trace,
    Patch,
}

/// The name of a method, as it stands in a request line.
pub open spec fn method_text(m: HTTPMethod) -> Seq<char> {
    match m {
        HTTPMethod::Get => "GET"@,
        HTTPMethod::Post => "POST"@,
        HTTPMethod::Head => "HEAD"@,
        HTTPMethod::Delete => "DELETE"@,
        HTTPMethod::Put => "PUT"@,
        HTTPMethod::Connect => "CONNECT"@,
        HTTPMethod::Options => "OPTIONS"@,
        HTTPMethod::Trace => "TRACE"@,
        HTTPMethod::Patch => "PATCH"@,
    }
}

/// The method that the word `s` names, if it names one.
pub open spec fn parse_method(s: Seq<char>) -> Option<HTTPMethod> {
    if s == "GET"@ {
        Some(HTTPMethod::Get)
    } else if s == "POST"@ {
        Some(HTTPMethod::Post)
    } else if s == "HEAD"@ {
        Some(HTTPMethod::Head)
    } else if s == "DELETE"@ {
        Some(HTTPMethod::Delete)
    } else if s == "PUT"@ {
        Some(HTTPMethod::Put)
    } else if s == "CONNECT"@ {
        Some(HTTPMethod::Connect)
    } else if s == "OPTIONS"@ {
        Some(HTTPMethod::Options)
    } else if s == "TRACE"@ {
        Some(HTTPMethod::Trace)
    } else if s == "PATCH"@ {
        Some(HTTPMethod::Patch)
    } else {
        None
    }
}

impl Clone for HTTPMethod {
    fn clone(&self) -> (r: Self)
        ensures
            r == *self,
    {
        match self {
            HTTPMethod::Get => HTTPMethod::Get,
            HTTPMethod::Post => HTTPMethod::Post,
            HTTPMethod::Head => HTTPMethod::Head,
            HTTPMethod::Delete => HTTPMethod::Delete,
            HTTPMethod::Put => HTTPMethod::Put,
            HTTPMethod::Connect => HTTPMethod::Connect,
            HTTPMethod::Options => HTTPMethod::Options,
            HTTPMethod::Trace => HTTPMethod::Trace,
            HTTPMethod::Patch => HTTPMethod::Patch,
        }
    }
}

impl HTTPMethod {
    /// Reads a method from the characters of one word.
    pub fn from_chars(v: &Vec<char>) -> (r: Option<HTTPMethod>)
        ensures
            r == parse_method(v@),
    {
        if is_text(v, "GET") {
            Some(HTTPMethod::Get)
        } else if is_text(v, "POST") {
            Some(HTTPMethod::Post)
        } else if is_text(v, "HEAD") {
            Some(HTTPMethod::Head)
        } else if is_text(v, "DELETE") {
            Some(HTTPMethod::Delete)
        } else if is_text(v, "PUT") {
            Some(HTTPMethod::Put)
        } else if is_text(v, "CONNECT") {
            Some(HTTPMethod::Connect)
        } else if is_text(v, "OPTIONS") {
            Some(HTTPMethod::Options)
        } else if is_text(v, "TRACE") {
            Some(HTTPMethod::Trace)
        } else if is_text(v, "PATCH") {
            Some(HTTPMethod::Patch)
        } else {
            None
        }
    }

    /// The name of this method, as it stands in a request line.
    pub fn to_string(&self) -> (s: String)
        ensures
            s@ == method_text(*self),
    {
        match self {
            HTTPMethod::Get => String::from_str("GET"),
            HTTPMethod::Post => String::from_str("POST"),
            HTTPMethod::Head => String::from_str("HEAD"),
            HTTPMethod::Delete => String::from_str("DELETE"),
            HTTPMethod::Put => String::from_str("PUT"),
            HTTPMethod::Connect => String::from_str("CONNECT"),
            HTTPMethod::Options => String::from_str("OPTIONS"),
            HTTPMethod::Trace => String::from_str("TRACE"),
            HTTPMethod::Patch => String::from_str("PATCH"),
        }
    }
}

/// A request.
#[derive(Debug)]
pub struct HTTPRequest {
    method: HTTPMethod,
    path: String,
    header: Vec<HTTPRequestHeaders>,
    body: Option<String>,
}

/// A request as a mathematical value.
pub struct RequestSpec {
    pub method: HTTPMethod,
    pub path: Seq<char>,
    pub header: Seq<RequestHeaderSpec>,
    pub body: Option<Seq<char>>,
}

impl View for HTTPRequest {
    type V = RequestSpec;

    closed spec fn view(&self) -> RequestSpec {
        RequestSpec {
            method: self.method,
            path: self.path@,
            header: request_header_views(self.header@),
            body: match self.body {
                Some(b) => Some(b@),
                None => None,
            },
        }
    }
}

/// The request that the text `s` writes, if it writes one.
///
/// The first line must hold two words at least: the first names the method,
/// the second is the path. Every later line that writes a header gives one,
/// in the order of the lines. No body is taken from the text.
pub open spec fn parse_request(s: Seq<char>) -> Option<RequestSpec> {
    let ls = lines(s);
    if ls.len() == 0 {
        None
    } else {
        let ws = words(ls[0]);
        if ws.len() < 2 {
            None
        } else {
            match parse_method(ws[0]) {
                None => None,
                Some(method) => Some(
                    RequestSpec {
                        method,
                        path: ws[1],
                        header: parse_request_headers(ls.skip(1)),
                        body: None,
                    },
                ),
            }
        }
    }
}

/// A copy of the headers `headers`.
pub fn clone_headers(headers: &Vec<HTTPRequestHeaders>) -> (r: Vec<HTTPRequestHeaders>)
    ensures
        request_header_views(r@) == request_header_views(headers@),
{
    let mut r: Vec<HTTPRequestHeaders> = Vec::new();
    let mut i: usize = 0;
    while i < headers.len()
        invariant
            i <= headers.len(),
            request_header_views(r@) == request_header_views(headers@).take(i as int),
        decreases headers.len() - i,
    {
        let h = headers[i].clone();
        assert(request_header_views(r@.push(h)) == request_header_views(r@).push(h@));
        r.push(h);
        i += 1;
    }
    assert(request_header_views(headers@).take(headers.len() as int) == request_header_views(
        headers@,
    ));
    r
}

impl Clone for HTTPRequest {
    fn clone(&self) -> (r: Self)
        ensures
            r@ == self@,
    {
        HTTPRequest {
            method: self.method.clone(),
            path: self.path.clone(),
            header: clone_headers(&self.header),
            body: match &self.body {
                Some(b) => Some(b.clone()),
                None => None,
            },
        }
    }
}

impl HTTPRequest {
    /// A request of these parts.
    pub fn new(
        method: HTTPMethod,
        path: String,
        header: Vec<HTTPRequestHeaders>,
        body: Option<String>,
    ) -> (r: HTTPRequest)
        ensures
            r@ == (RequestSpec {
                method,
                path: path@,
                header: request_header_views(header@),
                body: match body {
                    Some(b) => Some(b@),
                    None => None,
                },
            }),
    {
        HTTPRequest { method, path, body, header }
    }

    /// Reads a request from the characters `v`.
    pub fn from_chars(v: &Vec<char>) -> (r: Result<HTTPRequest, HTTPRequestParsingError>)
        ensures
            match r {
                Ok(req) => parse_request(v@) == Some(req@),
                Err(_) => parse_request(v@) is None,
            },
    {
        let ls = split_lines(v);
        if ls.len() == 0 {
            return Err(HTTPRequestParsingError);
        }
        assert(views(ls@)[0] == ls@[0]@);
        let ws = split_words(&ls[0]);
        if ws.len() < 2 {
            return Err(HTTPRequestParsingError);
        }
        assert(views(ws@)[0] == ws@[0]@);
        assert(views(ws@)[1] == ws@[1]@);
        let method = match HTTPMethod::from_chars(&ws[0]) {
            Some(m) => m,
            None => {
                return Err(HTTPRequestParsingError);
            },
        };
        let header = headers_from_lines(&ls, 1);
        Ok(HTTPRequest::new(method, string_of(&ws[1]), header, None))
    }

    /// Reads a request from its text. It fails where the text has no first
    /// line, where that line has no two words, and where its first word names
    /// no method.
    pub fn from_string(req_string: String) -> (r: Result<HTTPRequest, HTTPRequestParsingError>)
        ensures
            match r {
                Ok(req) => parse_request(req_string@) == Some(req@),
                Err(_) => parse_request(req_string@) is None,
            },
    {
        let v = chars_of(req_string.as_str());
        HTTPRequest::from_chars(&v)
    }

    /// The path of the request.
    pub fn get_path(&self) -> (r: String)
        ensures
            r@ == self@.path,
    {
        self.path.clone()
    }

    /// The method of the request.
    pub fn get_method(&self) -> (r: HTTPMethod)
        ensures
            r == self@.method,
    {
        self.method.clone()
    }

    /// The headers of the request, in the order of their lines.
    pub fn get_header(&self) -> (r: Vec<HTTPRequestHeaders>)
        ensures
            request_header_views(r@) == self@.header,
    {
        clone_headers(&self.header)
    }
}

/// The name of a method is a word, and reads back as that method.
pub proof fn lemma_method_text(m: HTTPMethod)
    ensures
        parse_method(method_text(m)) == Some(m),
        method_text(m).len() > 0,
        forall|j: int| 0 <= j < method_text(m).len() ==> !is_space(#[trigger] method_text(m)[j]),
{
    reveal_strlit("GET");
    reveal_strlit("POST");
    reveal_strlit("HEAD");
    reveal_strlit("DELETE");
    reveal_strlit("PUT");
    reveal_strlit("CONNECT");
    reveal_strlit("OPTIONS");
    reveal_strlit("TRACE");
    reveal_strlit("PATCH");
    let t = method_text(m);
    assert("POST"@[0] != "HEAD"@[0]);
    assert("GET"@[0] != "PUT"@[0]);
    assert("DELETE"@[0] != "CONNECT"@[0]);
    assert("CONNECT"@[0] != "OPTIONS"@[0]);
    assert("TRACE"@[0] != "PATCH"@[0]);
    assert("DELETE"@[0] != "OPTIONS"@[0]);
    assert("POST"@[0] != "HEAD"@[0]);
    assert forall|j: int| 0 <= j < t.len() implies !is_space(#[trigger] t[j]) by {
        if j == 0 {
        } else if j == 1 {
        } else if j == 2 {
        } else if j == 3 {
        } else if j == 4 {
        } else if j == 5 {
        } else if j == 6 {
        }
    }
}

/// Every text that starts with a request line reads as a request with the
/// method and the path of that line: the name of a method, a space, a path, a
/// space, a version, and a line ending. The headers are those that the lines
/// after it write.
pub proof fn lemma_request_line(
    method: HTTPMethod,
    path: Seq<char>,
    version: Seq<char>,
    rest: Seq<char>,
)
    requires
        path.len() > 0,
        version.len() > 0,
        forall|j: int| 0 <= j < path.len() ==> !is_space(path[j]),
        forall|j: int| 0 <= j < version.len() ==> !is_space(version[j]),
    ensures
        parse_request(
            method_text(method) + seq![' '] + path + seq![' '] + version + seq!['\r', '\n']
                + rest,
        ) == Some(
            RequestSpec {
                method,
                path,
                header: parse_request_headers(lines(rest)),
                body: None,
            },
        ),
{
    let name = method_text(method);
    lemma_method_text(method);
    let line = name + seq![' '] + path + seq![' '] + version;
    assert(is_space('\n'));
    assert forall|j: int| 0 <= j < line.len() implies line[j] != '\n' by {
        if j < name.len() {
            assert(line[j] == name[j]);
        } else if j == name.len() {
            assert(line[j] == ' ');
        } else if j < name.len() + 1 + path.len() {
            assert(line[j] == path[j - name.len() - 1]);
        } else if j == name.len() + 1 + path.len() {
            assert(line[j] == ' ');
        } else {
            assert(line[j] == version[j - name.len() - path.len() - 2]);
        }
    }
    crate::text::lemma_lines_first(line, rest);
    crate::text::lemma_three_words(name, path, version);
    let ls = lines(line + seq!['\r', '\n'] + rest);
    assert(ls[0] == line);
    assert(ls.skip(1) == lines(rest));
    let ws = words(ls[0]);
    assert(ws[0] == name);
    assert(ws[1] == path);
}

} // verus!
