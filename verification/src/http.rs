//! The HTTP protocol model: status codes, media types, headers, cookies,
//! bodies, requests and responses, each with its text form.

pub mod body;
pub mod cookie;
pub mod header;
pub mod request;
pub mod response;

pub use crate::http::body::Body;
pub use crate::http::header::HTTPResponseHeader;

use crate::text::{chars_of, has_char, is_text, split, split_char, string_of};
use vstd::prelude::*;
use vstd::string::StringExecFns;

verus! {

/// The former name of `HTTPResponseHeader`.
pub type Header = HTTPResponseHeader;

/// The status codes that a response can carry.
#[derive(Debug, PartialEq, Eq, Structural)]
pub enum StatusCode {
    Success,
    NotFound,
    InternalServerError,
    MovedPermanently,
}

/// The status line of `code`, without its line ending.
pub open spec fn status_line(code: StatusCode) -> Seq<char> {
    match code {
        StatusCode::Success => "HTTP/1.1 200 OK"@,
        StatusCode::NotFound => "HTTP/1.1 404 NOT FOUND"@,
        StatusCode::InternalServerError => "HTTP/1.1 500 INTERNAL SERVER ERROR"@,
        StatusCode::MovedPermanently => "HTTP/1.1 301 MOVED PERMANENTLY"@,
    }
}

impl Clone for StatusCode {
    fn clone(&self) -> (r: Self)
        ensures
            r == *self,
    {
        match self {
            StatusCode::Success => StatusCode::Success,
            StatusCode::NotFound => StatusCode::NotFound,
            StatusCode::InternalServerError => StatusCode::InternalServerError,
            StatusCode::MovedPermanently => StatusCode::MovedPermanently,
        }
    }
}

impl StatusCode {
    /// The status line of this code, without its line ending.
    pub fn to_string(&self) -> (s: String)
        ensures
            s@ == status_line(*self),
    {
        match self {
            StatusCode::Success => String::from_str("HTTP/1.1 200 OK"),
            StatusCode::NotFound => String::from_str("HTTP/1.1 404 NOT FOUND"),
            StatusCode::InternalServerError => String::from_str(
                "HTTP/1.1 500 INTERNAL SERVER ERROR",
            ),
            StatusCode::MovedPermanently => String::from_str("HTTP/1.1 301 MOVED PERMANENTLY"),
        }
    }
}

/// The media types that the library knows by name, and two forms for the rest.
#[derive(Debug)]
pub enum MimeType {
    Html,
    Javascript,
    Css,
    Jpeg,
    Png,
    Pdf,
    Plaintext,
    MultipartFormData,
    WWWFormUrlencoded,
    /// Any other type, as it was written.
    Other(String),
    /// A type with a `*` in it: what stands before the first `/`, and after it.
    Wildcard(String, String),
}

/// A media type as a mathematical value.
pub enum MimeSpec {
    Html,
    Javascript,
    Css,
    Jpeg,
    Png,
    Pdf,
    Plaintext,
    MultipartFormData,
    WWWFormUrlencoded,
    Other(Seq<char>),
    Wildcard(Seq<char>, Seq<char>),
}

impl View for MimeType {
    type V = MimeSpec;

    open spec fn view(&self) -> MimeSpec {
        match self {
            MimeType::Html => MimeSpec::Html,
            MimeType::Javascript => MimeSpec::Javascript,
            MimeType::Css => MimeSpec::Css,
            MimeType::Jpeg => MimeSpec::Jpeg,
            MimeType::Png => MimeSpec::Png,
            MimeType::Pdf => MimeSpec::Pdf,
            MimeType::Plaintext => MimeSpec::Plaintext,
            MimeType::MultipartFormData => MimeSpec::MultipartFormData,
            MimeType::WWWFormUrlencoded => MimeSpec::WWWFormUrlencoded,
            MimeType::Other(n) => MimeSpec::Other(n@),
            MimeType::Wildcard(l, r) => MimeSpec::Wildcard(l@, r@),
        }
    }
}

/// The media type that the text `s` names, if it names one.
///
/// Nine names are known. Of the others, a text with a `*` in it is a wildcard
/// where it has a `/`, and a text without `*` is taken as it stands where it
/// has a `/`.
pub open spec fn parse_mime(s: Seq<char>) -> Option<MimeSpec> {
    if s == "text/html"@ {
        Some(MimeSpec::Html)
    } else if s == "text/javascript"@ {
        Some(MimeSpec::Javascript)
    } else if s == "text/css"@ {
        Some(MimeSpec::Css)
    } else if s == "image/jpeg"@ {
        Some(MimeSpec::Jpeg)
    } else if s == "image/png"@ {
        Some(MimeSpec::Png)
    } else if s == "application/pdf"@ {
        Some(MimeSpec::Pdf)
    } else if s == "text/pdf"@ {
        Some(MimeSpec::Plaintext)
    } else if s == "multipart/form-data"@ {
        Some(MimeSpec::MultipartFormData)
    } else if s == "application/x-www-form-urlencoded"@ {
        Some(MimeSpec::WWWFormUrlencoded)
    } else if s.contains('*') {
        let parts = split(s, seq!['/']);
        if parts.len() >= 2 {
            Some(MimeSpec::Wildcard(parts[0], parts[1]))
        } else {
            None
        }
    } else if s.contains('/') {
        Some(MimeSpec::Other(s))
    } else {
        None
    }
}

/// The text form of a media type.
pub open spec fn mime_text(m: MimeSpec) -> Seq<char> {
    match m {
        MimeSpec::Html => "text/html"@,
        MimeSpec::Javascript => "text/javascript"@,
        MimeSpec::Css => "text/css"@,
        MimeSpec::Jpeg => "image/jpeg"@,
        MimeSpec::Png => "image/png"@,
        MimeSpec::Pdf => "application/pdf"@,
        MimeSpec::Plaintext => "text/plain"@,
        MimeSpec::MultipartFormData => "multipart/form-data"@,
        MimeSpec::WWWFormUrlencoded => "application/x-www-form-urlencoded"@,
        MimeSpec::Other(n) => n,
        MimeSpec::Wildcard(l, r) => l + "/"@ + r,
    }
}

impl Clone for MimeType {
    fn clone(&self) -> (r: Self)
        ensures
            r@ == self@,
    {
        match self {
            MimeType::Html => MimeType::Html,
            MimeType::Javascript => MimeType::Javascript,
            MimeType::Css => MimeType::Css,
            MimeType::Jpeg => MimeType::Jpeg,
            MimeType::Png => MimeType::Png,
            MimeType::Pdf => MimeType::Pdf,
            MimeType::Plaintext => MimeType::Plaintext,
            MimeType::MultipartFormData => MimeType::MultipartFormData,
            MimeType::WWWFormUrlencoded => MimeType::WWWFormUrlencoded,
            MimeType::Other(n) => MimeType::Other(n.clone()),
            MimeType::Wildcard(l, r) => MimeType::Wildcard(l.clone(), r.clone()),
        }
    }
}

impl MimeType {
    /// Reads a media type from the characters `v`.
    pub fn from_chars(v: &Vec<char>) -> (r: Option<MimeType>)
        ensures
            match r {
                Some(m) => parse_mime(v@) == Some(m@),
                None => parse_mime(v@) is None,
            },
    {
        if is_text(v, "text/html") {
            Some(MimeType::Html)
        } else if is_text(v, "text/javascript") {
            Some(MimeType::Javascript)
        } else if is_text(v, "text/css") {
            Some(MimeType::Css)
        } else if is_text(v, "image/jpeg") {
            Some(MimeType::Jpeg)
        } else if is_text(v, "image/png") {
            Some(MimeType::Png)
        } else if is_text(v, "application/pdf") {
            Some(MimeType::Pdf)
        } else if is_text(v, "text/pdf") {
            Some(MimeType::Plaintext)
        } else if is_text(v, "multipart/form-data") {
            Some(MimeType::MultipartFormData)
        } else if is_text(v, "application/x-www-form-urlencoded") {
            Some(MimeType::WWWFormUrlencoded)
        } else if has_char(v, '*') {
            let parts = split_char(v, '/');
            if parts.len() >= 2 {
                assert(crate::text::views(parts@)[0] == parts@[0]@);
                assert(crate::text::views(parts@)[1] == parts@[1]@);
                Some(MimeType::Wildcard(string_of(&parts[0]), string_of(&parts[1])))
            } else {
                None
            }
        } else if has_char(v, '/') {
            Some(MimeType::Other(string_of(v)))
        } else {
            None
        }
    }

    /// Reads a media type from its text form; `None` where the text names none.
    pub fn from_string(string: String) -> (r: Option<MimeType>)
        ensures
            match r {
                Some(m) => parse_mime(string@) == Some(m@),
                None => parse_mime(string@) is None,
            },
    {
        let v = chars_of(string.as_str());
        MimeType::from_chars(&v)
    }

    /// Appends the text form of this type to `out`.
    pub fn write_to(&self, out: &mut Vec<char>)
        ensures
            final(out)@ == old(out)@ + mime_text(self@),
    {
        match self {
            MimeType::Html => crate::text::append_str(out, "text/html"),
            MimeType::Javascript => crate::text::append_str(out, "text/javascript"),
            MimeType::Css => crate::text::append_str(out, "text/css"),
            MimeType::Jpeg => crate::text::append_str(out, "image/jpeg"),
            MimeType::Png => crate::text::append_str(out, "image/png"),
            MimeType::Pdf => crate::text::append_str(out, "application/pdf"),
            MimeType::Plaintext => crate::text::append_str(out, "text/plain"),
            MimeType::MultipartFormData => crate::text::append_str(out, "multipart/form-data"),
            MimeType::WWWFormUrlencoded => crate::text::append_str(
                out,
                "application/x-www-form-urlencoded",
            ),
            MimeType::Other(n) => crate::text::append_str(out, n.as_str()),
            MimeType::Wildcard(l, r) => {
                crate::text::append_str(out, l.as_str());
                crate::text::append_str(out, "/");
                crate::text::append_str(out, r.as_str());
            },
        }
    }

    /// The text form of this type.
    pub fn to_string(&self) -> (s: String)
        ensures
            s@ == mime_text(self@),
    {
        let mut out: Vec<char> = Vec::new();
        self.write_to(&mut out);
        string_of(&out)
    }
}

} // verus!
