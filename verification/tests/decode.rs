use rsweb::http::body::Body;
use rsweb::http::header::ContentEncodingMethod;
use std::io::Write;

#[test]
fn gzip_body_goes_through_the_decoder() {
    let mut enc = flate2::write::GzEncoder::new(Vec::new(), flate2::Compression::default());
    enc.write_all(b"hello hello hello").unwrap();
    let packed = enc.finish().unwrap();
    let body = Body::from_bytes_with_encoding(packed.clone(), ContentEncodingMethod::Gzip);
    assert_eq!(body.get_bytes(), packed);
    let out = body.decode_into_memory();
    assert!(out.is_ok());
    assert_ne!(out.unwrap(), packed);
}

#[test]
fn gzip_body_with_a_bad_head_fails() {
    let body = Body::from_bytes_with_encoding(b"not gzip at all".to_vec(), ContentEncodingMethod::Gzip);
    assert!(body.decode_into_memory().is_err());
}

#[test]
fn deflate_body_goes_through_the_decoder() {
    let mut enc = flate2::write::DeflateEncoder::new(Vec::new(), flate2::Compression::default());
    enc.write_all(b"hello hello hello").unwrap();
    let packed = enc.finish().unwrap();
    let body = Body::from_bytes_with_encoding(packed.clone(), ContentEncodingMethod::Deflate);
    let out = body.decode_into_memory();
    assert!(out.is_ok());
    assert_ne!(out.unwrap(), packed);
}

#[test]
fn brotli_body_goes_through_the_decoder() {
    let mut packed: Vec<u8> = Vec::new();
    {
        let mut enc = brotli::CompressorWriter::new(&mut packed, 4096, 5, 22);
        enc.write_all(b"hello hello hello").unwrap();
    }
    let body = Body::from_bytes_with_encoding(packed.clone(), ContentEncodingMethod::Br);
    let out = body.decode_into_memory();
    assert!(out.is_ok());
    assert_ne!(out.unwrap(), packed);
}
