use rsweb::connection::{key_of, respond_found, respond_missing, Action, Connection, Event, Stage};
use rsweb::dbuffer::DBuffer;
use rsweb::http::MimeType;
use rsweb::resource::Resource;
use rsweb::route::Router;
use std::time::SystemTime;

fn received(text: &[u8]) -> Event {
    let mut buf = DBuffer::new();
    let mut src: &[u8] = text;
    buf.read_http_request(&mut src).unwrap();
    Event::Received(buf)
}

#[test]
fn missing_page_without_fallback() {
    let mut conn = Connection::new(Router::new("/index.html".to_string()), None);
    assert!(matches!(conn.step(Event::Accepted), Action::ReadRequest));
    match conn.step(received(b"GET /missing.html HTTP/1.1\r\n\r\n")) {
        Action::Load(key) => assert_eq!(key, "missing.html"),
        _ => panic!("expected a load"),
    }
    match conn.step(Event::Loaded(None)) {
        Action::Send(resp) => {
            assert_eq!(
                resp.try_to_string().unwrap(),
                "HTTP/1.1 404 NOT FOUND\r\nContent-Type: text/html\r\nContent-Length: 22\r\nServer: rsweb/0.8.9\r\n\r\n<h1>404 Not Found</h1>"
            );
        }
        _ => panic!("expected a response"),
    }
    assert_eq!(conn.stage(), Stage::Finished);
}

#[test]
fn missing_page_with_fallback() {
    let mut conn = Connection::new(
        Router::new("/index.html".to_string()),
        Some("/404.html".to_string()),
    );
    conn.step(Event::Accepted);
    conn.step(received(b"GET /missing.html HTTP/1.1\r\n\r\n"));
    match conn.step(Event::Loaded(None)) {
        Action::Load(key) => assert_eq!(key, "404.html"),
        _ => panic!("expected a load of the fallback"),
    }
    assert_eq!(conn.stage(), Stage::LoadingFallback);
    let page = Resource::load("404.html".to_string(), b"<p>nothing here</p>".to_vec(), SystemTime::now());
    match conn.step(Event::Loaded(Some(page))) {
        Action::Send(resp) => {
            assert_eq!(
                resp.try_to_string().unwrap(),
                "HTTP/1.1 404 NOT FOUND\r\nContent-Type: text/html\r\nContent-Length: 19\r\nServer: rsweb/0.8.9\r\n\r\n<p>nothing here</p>"
            );
        }
        _ => panic!("expected a response"),
    }
}

#[test]
fn missing_page_with_missing_fallback() {
    let mut conn = Connection::new(
        Router::new("/index.html".to_string()),
        Some("/404.html".to_string()),
    );
    conn.step(Event::Accepted);
    conn.step(received(b"GET /missing.html HTTP/1.1\r\n\r\n"));
    conn.step(Event::Loaded(None));
    match conn.step(Event::Loaded(None)) {
        Action::Send(resp) => {
            let text = resp.try_to_string().unwrap();
            assert!(text.starts_with("HTTP/1.1 404 NOT FOUND\r\n"));
            assert!(text.ends_with("\r\n\r\n<h1>404 Not Found</h1>"));
        }
        _ => panic!("expected a response"),
    }
}

#[test]
fn head_of_index_has_length_and_no_body() {
    let content = b"<html><body>Hello, you!</body></html>".to_vec();
    assert_eq!(content.len(), 37);
    let mut conn = Connection::new(Router::new("/index.html".to_string()), None);
    conn.step(Event::Accepted);
    match conn.step(received(b"HEAD /index.html HTTP/1.1\r\n\r\n")) {
        Action::Load(key) => assert_eq!(key, "index.html"),
        _ => panic!("expected a load"),
    }
    let res = Resource::load("index.html".to_string(), content, SystemTime::now());
    match conn.step(Event::Loaded(Some(res))) {
        Action::Send(resp) => {
            assert_eq!(
                resp.to_bytes(),
                b"HTTP/1.1 200 OK\r\nContent-Type: text/html\r\nContent-Length: 37\r\nServer: rsweb/0.8.9\r\n\r\n".to_vec()
            );
        }
        _ => panic!("expected a response"),
    }
}

#[test]
fn get_of_index_has_the_body() {
    let mut conn = Connection::new(Router::new("/index.html".to_string()), None);
    conn.step(Event::Accepted);
    conn.step(received(b"GET /index.html HTTP/1.1\r\n\r\n"));
    let res = Resource::load("index.html".to_string(), b"<p>x</p>".to_vec(), SystemTime::now());
    match conn.step(Event::Loaded(Some(res))) {
        Action::Send(resp) => {
            assert_eq!(
                resp.to_bytes(),
                b"HTTP/1.1 200 OK\r\nContent-Type: text/html\r\nContent-Length: 8\r\nServer: rsweb/0.8.9\r\n\r\n<p>x</p>".to_vec()
            );
        }
        _ => panic!("expected a response"),
    }
}

#[test]
fn redirect_skips_the_load() {
    let mut router = Router::new("/index.html".to_string());
    router.route("/old/*".to_string(), "/new".to_string());
    let mut conn = Connection::new(router, None);
    conn.step(Event::Accepted);
    match conn.step(received(b"GET /old/x HTTP/1.1\r\n\r\n")) {
        Action::Send(resp) => {
            assert_eq!(
                resp.to_bytes(),
                b"HTTP/1.1 301 MOVED PERMANENTLY\r\nLocation: /new\r\nServer: rsweb/0.8.9\r\n\r\n".to_vec()
            );
        }
        _ => panic!("expected a redirect"),
    }
    assert_eq!(conn.stage(), Stage::Finished);
}

#[test]
fn alias_loads_its_target() {
    let mut router = Router::new("/index.html".to_string());
    router.alias("/".to_string(), "/index.html".to_string());
    let mut conn = Connection::new(router, None);
    conn.step(Event::Accepted);
    match conn.step(received(b"GET / HTTP/1.1\r\n\r\n")) {
        Action::Load(key) => assert_eq!(key, "index.html"),
        _ => panic!("expected a load"),
    }
    assert_eq!(conn.stage(), Stage::Loading);
}

#[test]
fn unreadable_request_gets_no_response() {
    let mut conn = Connection::new(Router::new("/index.html".to_string()), None);
    conn.step(Event::Accepted);
    assert!(matches!(conn.step(Event::ReadFailed), Action::Abandon));
    assert_eq!(conn.stage(), Stage::Finished);

    let mut conn = Connection::new(Router::new("/index.html".to_string()), None);
    conn.step(Event::Accepted);
    let mut buf = DBuffer::new();
    let mut src: &[u8] = b"BREW /pot HTCPCP/1.0\r\n\r\n";
    assert!(buf.read_http_request(&mut src).is_err());
    assert!(matches!(conn.step(Event::Received(buf)), Action::Abandon));

    let mut conn = Connection::new(Router::new("/index.html".to_string()), None);
    conn.step(Event::Accepted);
    let mut buf = DBuffer::new();
    let mut src: &[u8] = b"\xff\r\n\r\n";
    assert!(buf.read_http_request(&mut src).is_err());
    assert!(matches!(conn.step(Event::Received(buf)), Action::Abandon));
}

#[test]
fn unasked_event_ends_the_connection() {
    let mut conn = Connection::new(Router::new("/index.html".to_string()), None);
    assert_eq!(conn.stage(), Stage::Start);
    assert!(matches!(conn.step(Event::Loaded(None)), Action::Abandon));
    assert_eq!(conn.stage(), Stage::Finished);
    assert!(matches!(conn.step(Event::Accepted), Action::Abandon));
}

#[test]
fn keys_drop_the_first_character() {
    assert_eq!(key_of("/index.html"), "index.html");
    assert_eq!(key_of("/"), "");
    assert_eq!(key_of(""), "");
    assert_eq!(key_of("é/x"), "/x");
}

#[test]
fn responses_of_parts() {
    let res = Resource::new(vec![1, 2, 3], "a.png".to_string(), SystemTime::now(), MimeType::Png);
    let mut expected = b"HTTP/1.1 200 OK\r\nContent-Type: image/png\r\nContent-Length: 3\r\nServer: rsweb/0.8.9\r\n\r\n".to_vec();
    expected.extend_from_slice(&[1, 2, 3]);
    assert_eq!(respond_found(false, &res).to_bytes(), expected);
    assert_eq!(
        respond_missing(true, None).to_bytes(),
        b"HTTP/1.1 404 NOT FOUND\r\nContent-Type: text/html\r\nContent-Length: 22\r\nServer: rsweb/0.8.9\r\n\r\n".to_vec()
    );
}
