use rsweb::dbuffer::{DBuffer, ReadError, ReadEvent, ReadStep, RequestReader};

#[test]
fn dbuffer_create() {
    let _ = DBuffer::new();
}

#[test]
fn dbuffer_create_with_cap() {
    let _ = DBuffer::with_capacity(6);
}

#[test]
fn dbuffer_read() {
    let mut dbuffer = DBuffer::new();
    let s = String::from("hello");
    assert!(dbuffer.read_until_zero(&mut s.as_bytes()).is_ok());
}

#[test]
fn dbuffer_to_string() {
    let mut dbuffer = DBuffer::new();
    let s = String::from("hello");
    assert!(dbuffer.read_until_zero(&mut s.as_bytes()).is_ok());
    assert!(dbuffer.to_string().is_ok());
}

#[test]
fn read_until_zero_stops_before_the_zero() {
    let mut buf = DBuffer::new();
    let data: Vec<u8> = vec![b'a', b'b', 0, b'c'];
    let mut src: &[u8] = &data;
    assert_eq!(buf.read_until_zero(&mut src), Ok(2));
    assert_eq!(src, b"c");
    assert_eq!(buf.to_string().unwrap(), "ab");
}

#[test]
fn read_until_zero_takes_all_without_a_zero() {
    let mut buf = DBuffer::new();
    let mut src: &[u8] = b"hello";
    assert_eq!(buf.read_until_zero(&mut src), Ok(5));
    assert!(src.is_empty());
    assert_eq!(buf.to_string().unwrap(), "hello");
}

#[test]
fn read_until_req_end_counts_line_endings() {
    let mut buf = DBuffer::new();
    let mut src: &[u8] = b"GET /\r\n\r\nrest";
    assert_eq!(buf.read_until_req_end(&mut src), Ok(9));
    assert_eq!(src, b"rest");
    let mut loose = DBuffer::new();
    let mut src2: &[u8] = b"a\n\n\r\rb";
    assert_eq!(loose.read_until_req_end(&mut src2), Ok(5));
    assert_eq!(src2, b"b");
}

#[test]
fn read_request_without_body() {
    let mut buf = DBuffer::new();
    let text = b"GET / HTTP/1.1\r\nHost: h\r\n\r\nextra";
    let mut src: &[u8] = text;
    assert_eq!(buf.read_http_request(&mut src), Ok(27));
    assert_eq!(src, b"extra");
    assert_eq!(buf.to_string().unwrap(), "GET / HTTP/1.1\r\nHost: h\r\n\r\n");
}

#[test]
fn read_request_with_declared_body() {
    let mut buf = DBuffer::new();
    let head = "POST /f HTTP/1.1\r\nContent-Length: 5\r\n\r\n";
    let all = format!("{}helloworld", head);
    let mut src: &[u8] = all.as_bytes();
    assert_eq!(buf.read_http_request(&mut src), Ok(head.len() + 5));
    assert_eq!(src, b"world");
    assert_eq!(buf.to_string().unwrap(), format!("{}hello", head));
}

#[test]
fn read_request_with_short_body() {
    let mut buf = DBuffer::new();
    let head = "POST /f HTTP/1.1\r\nContent-Length: 50\r\n\r\n";
    let all = format!("{}abc", head);
    let mut src: &[u8] = all.as_bytes();
    assert_eq!(buf.read_http_request(&mut src), Ok(head.len() + 3));
    assert!(src.is_empty());
}

#[test]
fn read_request_without_end_of_head() {
    let mut buf = DBuffer::new();
    let mut src: &[u8] = b"GET / HTTP/1.1\r\nHost: h\r\n";
    assert_eq!(buf.read_http_request(&mut src), Ok(25));
    assert!(src.is_empty());
}

#[test]
fn read_request_needs_the_exact_end_of_head() {
    let mut buf = DBuffer::new();
    let mut src: &[u8] = b"GET / HTTP/1.1\r\n\n\r\n\r\nX";
    assert_eq!(buf.read_http_request(&mut src), Ok(21));
    assert_eq!(src, b"X");
}

#[test]
fn read_request_failures() {
    let mut buf = DBuffer::new();
    let mut src: &[u8] = b"\xff\xfe\r\n\r\n";
    assert_eq!(buf.read_http_request(&mut src), Err(ReadError::NotText));
    let mut buf2 = DBuffer::new();
    let mut src2: &[u8] = b"NOPE / HTTP/1.1\r\n\r\n";
    assert_eq!(buf2.read_http_request(&mut src2), Err(ReadError::NotRequest));
    let mut buf3 = DBuffer::new();
    let mut src3: &[u8] = b"";
    assert_eq!(buf3.read_http_request(&mut src3), Err(ReadError::NotRequest));
    assert_eq!(ReadError::NotText.to_string(), "failed to convert bytes to string");
    assert_eq!(
        ReadError::NotRequest.to_string(),
        "failed to parse header of HTTP request"
    );
}

#[test]
fn reader_fed_byte_by_byte() {
    let mut reader = RequestReader::new();
    let head = b"PUT /u HTTP/1.1\r\nContent-Length: 2\r\n\r\n";
    let mut last = None;
    for b in head.iter() {
        assert!(last.is_none());
        match reader.feed(ReadEvent::Byte(*b)) {
            ReadStep::More => {}
            ReadStep::Done(r) => last = Some(r),
        }
    }
    assert!(last.is_none());
    assert!(reader.past_head());
    assert!(matches!(reader.feed(ReadEvent::Byte(b'o')), ReadStep::More));
    match reader.feed(ReadEvent::Byte(b'k')) {
        ReadStep::Done(r) => assert_eq!(r, Ok(head.len() + 2)),
        ReadStep::More => panic!("the body was complete"),
    }
    match reader.feed(ReadEvent::Byte(b'!')) {
        ReadStep::Done(r) => assert_eq!(r, Ok(head.len() + 2)),
        ReadStep::More => panic!("the reader had ended"),
    }
    let buf = reader.into_buffer();
    assert_eq!(
        buf.to_string().unwrap(),
        "PUT /u HTTP/1.1\r\nContent-Length: 2\r\n\r\nok"
    );
}

#[test]
fn reader_source_error() {
    let mut reader = RequestReader::new();
    assert!(matches!(reader.feed(ReadEvent::Byte(b'G')), ReadStep::More));
    match reader.feed(ReadEvent::Failed) {
        ReadStep::Done(r) => assert_eq!(r, Err(ReadError::Source)),
        ReadStep::More => panic!("an error ends the reading"),
    }
}

#[test]
fn reader_body_cut_short() {
    let mut reader = RequestReader::new();
    let head = b"POST / HTTP/1.1\r\nContent-Length: 9\r\n\r\n";
    for b in head.iter() {
        assert!(matches!(reader.feed(ReadEvent::Byte(*b)), ReadStep::More));
    }
    assert!(matches!(reader.feed(ReadEvent::Byte(b'x')), ReadStep::More));
    match reader.feed(ReadEvent::Failed) {
        ReadStep::Done(r) => assert_eq!(r, Ok(head.len() + 1)),
        ReadStep::More => panic!("an error ends the body"),
    }
}
