use rsweb::http::body::Body;
use rsweb::http::cookie::{Cookie, CookieAttributes, SameSiteTypes};
use rsweb::http::header::{
    req_headers_from_string, ContentEncodingMethod, HTTPRequestHeaders, HTTPResponseHeader,
    HTTPResponseHeaders,
};
use rsweb::http::request::{HTTPMethod, HTTPRequest, HTTPRequestParsingError};
use rsweb::http::response::HTTPResponse;
use rsweb::http::{MimeType, StatusCode};

#[test]
fn status_lines() {
    assert_eq!(StatusCode::Success.to_string(), "HTTP/1.1 200 OK");
    assert_eq!(StatusCode::NotFound.to_string(), "HTTP/1.1 404 NOT FOUND");
    assert_eq!(
        StatusCode::InternalServerError.to_string(),
        "HTTP/1.1 500 INTERNAL SERVER ERROR"
    );
    assert_eq!(
        StatusCode::MovedPermanently.to_string(),
        "HTTP/1.1 301 MOVED PERMANENTLY"
    );
}

#[test]
fn mime_known_names() {
    assert!(matches!(
        MimeType::from_string("text/html".to_string()),
        Some(MimeType::Html)
    ));
    assert!(matches!(
        MimeType::from_string("text/javascript".to_string()),
        Some(MimeType::Javascript)
    ));
    assert!(matches!(
        MimeType::from_string("application/x-www-form-urlencoded".to_string()),
        Some(MimeType::WWWFormUrlencoded)
    ));
    assert!(matches!(
        MimeType::from_string("text/pdf".to_string()),
        Some(MimeType::Plaintext)
    ));
}

#[test]
fn mime_other_and_wildcard() {
    match MimeType::from_string("application/json".to_string()) {
        Some(MimeType::Other(n)) => assert_eq!(n, "application/json"),
        _ => panic!("expected another type"),
    }
    match MimeType::from_string("image/*".to_string()) {
        Some(MimeType::Wildcard(l, r)) => {
            assert_eq!(l, "image");
            assert_eq!(r, "*");
        }
        _ => panic!("expected a wildcard"),
    }
    assert!(MimeType::from_string("*".to_string()).is_none());
    assert!(MimeType::from_string("plain".to_string()).is_none());
    assert!(MimeType::from_string(String::new()).is_none());
}

#[test]
fn mime_text_forms() {
    assert_eq!(MimeType::Html.to_string(), "text/html");
    assert_eq!(MimeType::Plaintext.to_string(), "text/plain");
    assert_eq!(MimeType::Pdf.to_string(), "application/pdf");
    assert_eq!(MimeType::Other("a/b".to_string()).to_string(), "a/b");
    assert_eq!(
        MimeType::Wildcard("text".to_string(), "*".to_string()).to_string(),
        "text/*"
    );
}

#[test]
fn cookie_from_text() {
    let c = Cookie::from_string("id=42; Secure; Path=/; Max-Age=60; SameSite=Lax; Flag".to_string())
        .unwrap();
    assert_eq!(
        c.to_string(),
        "id=42; Secure; Path=/; Max-Age=60; SameSite=Lax"
    );
}

#[test]
fn cookie_without_attributes() {
    let c = Cookie::from_string("a=b".to_string()).unwrap();
    assert_eq!(c.to_string(), "a=b");
    let d = Cookie::from_string("a=b; Unknown; Max-Age=soon".to_string()).unwrap();
    assert_eq!(d.to_string(), "a=b");
}

#[test]
fn cookie_needs_equals() {
    assert!(Cookie::from_string("novalue".to_string()).is_none());
    assert!(Cookie::from_string("novalue; Secure".to_string()).is_none());
    assert!(Cookie::from_string(String::new()).is_none());
}

#[test]
fn cookie_value_ends_at_second_equals() {
    let c = Cookie::from_string("a=b=c".to_string()).unwrap();
    assert_eq!(c.to_string(), "a=b");
}

#[test]
fn cookie_text_of_parts() {
    let c = Cookie::new(
        "sid".to_string(),
        "xyz".to_string(),
        Some(vec![
            CookieAttributes::HTTPOnly,
            CookieAttributes::Domain("example.org".to_string()),
            CookieAttributes::SameSite(SameSiteTypes::Unrestricted),
            CookieAttributes::MaxAge(0),
            CookieAttributes::Expires("Wed".to_string()),
        ]),
    );
    assert_eq!(
        c.to_string(),
        "sid=xyz; HttpOnly; Domain=example.org; SameSite=None; Max-Age=0; Expires=Wed"
    );
}

#[test]
fn cookie_round_trip() {
    let text = "k=v; Secure; HttpOnly; Path=/a; Domain=d; SameSite=Strict; Max-Age=12345; Expires=never";
    let c = Cookie::from_string(text.to_string()).unwrap();
    assert_eq!(c.to_string(), text);
}

#[test]
fn attribute_text_forms() {
    assert_eq!(CookieAttributes::Secure.to_string(), "Secure");
    assert_eq!(CookieAttributes::MaxAge(1200).to_string(), "Max-Age=1200");
    assert_eq!(
        CookieAttributes::SameSite(SameSiteTypes::Strict).to_string(),
        "SameSite=Strict"
    );
}

#[test]
fn encoding_names() {
    assert!(matches!(
        ContentEncodingMethod::from_string("gzip".to_string()),
        Some(ContentEncodingMethod::Gzip)
    ));
    assert!(matches!(
        ContentEncodingMethod::from_string("br".to_string()),
        Some(ContentEncodingMethod::Br)
    ));
    assert!(ContentEncodingMethod::from_string("zip".to_string()).is_none());
    assert_eq!(ContentEncodingMethod::Deflate.to_string(), "deflate");
    assert_eq!(ContentEncodingMethod::Compress.to_string(), "compress");
}

#[test]
fn response_header_lines() {
    assert_eq!(
        HTTPResponseHeaders::ContentLength(37).to_string(),
        "Content-Length: 37"
    );
    assert_eq!(
        HTTPResponseHeaders::ContentType(MimeType::Html).to_string(),
        "Content-Type: text/html"
    );
    assert_eq!(
        HTTPResponseHeaders::Location("/new".to_string()).to_string(),
        "Location: /new"
    );
    assert_eq!(
        HTTPResponseHeaders::ContentEncoding(ContentEncodingMethod::Gzip).to_string(),
        "Content-Encoding: gzip"
    );
    assert_eq!(
        HTTPResponseHeaders::AccessControlAllowOrigin("*".to_string()).to_string(),
        "Access-Control-Allow-Origin: *"
    );
}

#[test]
fn response_header_from_line() {
    match HTTPResponseHeaders::from_string("Content-Length:  12 ".to_string()) {
        Some(HTTPResponseHeaders::ContentLength(n)) => assert_eq!(n, 12),
        _ => panic!("expected a length"),
    }
    match HTTPResponseHeaders::from_string(" Server : rsweb/0.8.9".to_string()) {
        Some(HTTPResponseHeaders::Server(n)) => assert_eq!(n, "rsweb/0.8.9"),
        _ => panic!("expected a server"),
    }
    match HTTPResponseHeaders::from_string("Set-Cookie: a=b; Secure".to_string()) {
        Some(HTTPResponseHeaders::SetCookie(c)) => assert_eq!(c.to_string(), "a=b; Secure"),
        _ => panic!("expected a cookie"),
    }
    assert!(HTTPResponseHeaders::from_string("Content-Length: twelve".to_string()).is_none());
    assert!(HTTPResponseHeaders::from_string("X-Unknown: 1".to_string()).is_none());
    assert!(HTTPResponseHeaders::from_string("no colon".to_string()).is_none());
}

#[test]
fn response_header_round_trip() {
    let h = HTTPResponseHeaders::ContentLength(4096);
    match HTTPResponseHeaders::from_string(h.to_string()) {
        Some(HTTPResponseHeaders::ContentLength(n)) => assert_eq!(n, 4096),
        _ => panic!("expected a length"),
    }
}

#[test]
fn request_header_from_line() {
    match HTTPRequestHeaders::from_string("Content-Length: 5".to_string()) {
        Some(HTTPRequestHeaders::ContentLength(n)) => assert_eq!(n, 5),
        _ => panic!("expected a length"),
    }
    match HTTPRequestHeaders::from_string("Content-Length: +5".to_string()) {
        Some(HTTPRequestHeaders::ContentLength(n)) => assert_eq!(n, 5),
        _ => panic!("expected a length"),
    }
    match HTTPRequestHeaders::from_string("Accept: text/html".to_string()) {
        Some(HTTPRequestHeaders::Accept(MimeType::Html)) => {}
        _ => panic!("expected an accept header"),
    }
    match HTTPRequestHeaders::from_string("Host: localhost:8080".to_string()) {
        Some(HTTPRequestHeaders::Host(h)) => assert_eq!(h, "localhost"),
        _ => panic!("expected a host"),
    }
    match HTTPRequestHeaders::from_string("Cookie: a=b; c=d; broken".to_string()) {
        Some(HTTPRequestHeaders::Cookie(cs)) => {
            assert_eq!(cs.len(), 2);
            assert_eq!(cs[0].to_string(), "a=b");
            assert_eq!(cs[1].to_string(), "c=d");
        }
        _ => panic!("expected cookies"),
    }
    assert!(HTTPRequestHeaders::from_string(" Host: x".to_string()).is_none());
    assert!(HTTPRequestHeaders::from_string("Content-Length: -1".to_string()).is_none());
    assert!(HTTPRequestHeaders::from_string("Content-Length: ".to_string()).is_none());
    assert!(HTTPRequestHeaders::from_string(
        "Content-Length: 99999999999999999999999999999".to_string()
    )
    .is_none());
}

#[test]
fn request_headers_of_lines() {
    let hs = req_headers_from_string(
        "User-Agent: test\r\nX-Skip: 1\nHost: h\r\n\r\nContent-Length: 3".to_string(),
    );
    assert_eq!(hs.len(), 3);
    assert!(matches!(&hs[0], HTTPRequestHeaders::UserAgent(a) if a == "test"));
    assert!(matches!(&hs[1], HTTPRequestHeaders::Host(h) if h == "h"));
    assert!(matches!(&hs[2], HTTPRequestHeaders::ContentLength(3)));
}

#[test]
fn request_from_text() {
    let req = HTTPRequest::from_string(
        "GET /index.html HTTP/1.1\r\nHost: example.org\r\nUser-Agent: t\r\n\r\n".to_string(),
    )
    .unwrap();
    assert_eq!(req.get_method(), HTTPMethod::Get);
    assert_eq!(req.get_path(), "/index.html");
    let hs = req.get_header();
    assert_eq!(hs.len(), 2);
    assert!(matches!(&hs[0], HTTPRequestHeaders::Host(h) if h == "example.org"));
}

#[test]
fn request_every_method() {
    let names = [
        ("GET", HTTPMethod::Get),
        ("POST", HTTPMethod::Post),
        ("HEAD", HTTPMethod::Head),
        ("DELETE", HTTPMethod::Delete),
        ("PUT", HTTPMethod::Put),
        ("CONNECT", HTTPMethod::Connect),
        ("OPTIONS", HTTPMethod::Options),
        ("TRACE", HTTPMethod::Trace),
        ("PATCH", HTTPMethod::Patch),
    ];
    for (name, method) in names {
        let req = HTTPRequest::from_string(format!("{} / HTTP/1.1\r\n\r\n", name)).unwrap();
        assert_eq!(req.get_method(), method);
        assert_eq!(method.to_string(), name);
    }
}

#[test]
fn request_rejected() {
    assert!(HTTPRequest::from_string(String::new()).is_err());
    assert!(HTTPRequest::from_string("GET".to_string()).is_err());
    assert!(HTTPRequest::from_string("GET\r\n/ HTTP/1.1".to_string()).is_err());
    assert!(HTTPRequest::from_string("FETCH / HTTP/1.1\r\n\r\n".to_string()).is_err());
    assert!(HTTPRequest::from_string("get / HTTP/1.1\r\n\r\n".to_string()).is_err());
    assert_eq!(
        HTTPRequestParsingError.to_string(),
        "error parsing HTTP request"
    );
}

#[test]
fn request_line_spacing() {
    let req = HTTPRequest::from_string("  POST \t /a/b   HTTP/1.1\n".to_string()).unwrap();
    assert_eq!(req.get_method(), HTTPMethod::Post);
    assert_eq!(req.get_path(), "/a/b");
    assert!(req.get_header().is_empty());
}

#[test]
fn request_of_parts() {
    let req = HTTPRequest::new(
        HTTPMethod::Put,
        "/x".to_string(),
        vec![HTTPRequestHeaders::ContentLength(2)],
        Some("hi".to_string()),
    );
    assert_eq!(req.get_method(), HTTPMethod::Put);
    assert_eq!(req.get_path(), "/x");
    assert_eq!(req.get_header().len(), 1);
}

#[test]
fn response_wire_form() {
    let resp = HTTPResponse::new(
        StatusCode::Success,
        vec![
            HTTPResponseHeaders::ContentType(MimeType::Plaintext),
            HTTPResponseHeaders::ContentLength(2),
        ],
        Body::new("hi".to_string()),
    );
    let expected = "HTTP/1.1 200 OK\r\nContent-Type: text/plain\r\nContent-Length: 2\r\n\r\nhi";
    assert_eq!(resp.to_bytes(), expected.as_bytes().to_vec());
    assert_eq!(resp.try_to_string().unwrap(), expected);
}

#[test]
fn response_without_headers() {
    let resp = HTTPResponse::new(StatusCode::NotFound, Vec::new(), Body::from_bytes(Vec::new()));
    assert_eq!(
        resp.to_bytes(),
        b"HTTP/1.1 404 NOT FOUND\r\n\r\n".to_vec()
    );
}

#[test]
fn response_with_bytes_that_are_no_text() {
    let resp = HTTPResponse::new(
        StatusCode::Success,
        Vec::new(),
        Body::from_bytes(vec![0xff, 0xfe]),
    );
    assert!(resp.try_to_string().is_err());
    let mut expected = b"HTTP/1.1 200 OK\r\n\r\n".to_vec();
    expected.extend_from_slice(&[0xff, 0xfe]);
    assert_eq!(resp.to_bytes(), expected);
}

#[test]
fn response_keeps_each_header_once() {
    let headers = vec![
        HTTPResponseHeaders::Server("s".to_string()),
        HTTPResponseHeaders::Server("s".to_string()),
        HTTPResponseHeaders::Location("/l".to_string()),
    ];
    let resp = HTTPResponse::new(StatusCode::MovedPermanently, headers, Body::new(String::new()));
    let text = resp.try_to_string().unwrap();
    let lines: Vec<&str> = text.lines().collect();
    assert_eq!(
        lines,
        vec![
            "HTTP/1.1 301 MOVED PERMANENTLY",
            "Server: s",
            "Server: s",
            "Location: /l",
            ""
        ]
    );
}

#[test]
fn old_response_head() {
    let mut head = HTTPResponseHeader::new(StatusCode::Success);
    assert_eq!(head.to_string(), "HTTP/1.1 200 OK\r\n");
    head.add_kv_pair("A".to_string(), "1".to_string());
    assert_eq!(head.to_string(), "HTTP/1.1 200 OK\r\nA:1");
    head.add_kv_pair("B".to_string(), "2".to_string());
    assert_eq!(head.to_string(), "HTTP/1.1 200 OK\r\nA:1\r\nB:2");
}

#[test]
fn body_bytes_and_text() {
    let b = Body::new("héllo".to_string());
    assert_eq!(b.get_bytes(), "héllo".as_bytes().to_vec());
    assert_eq!(b.try_to_string().unwrap(), "héllo");
    let raw = Body::from_bytes(vec![1, 2, 3]);
    assert_eq!(raw.get_bytes(), vec![1, 2, 3]);
    assert_eq!(raw.decode_into_memory().unwrap(), vec![1, 2, 3]);
    assert!(Body::from_bytes(vec![0xc0]).try_to_string().is_err());
}
