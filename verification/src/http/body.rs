//! The body of a message: bytes, and the encoding they are tagged with.

use crate::http::header::ContentEncodingMethod;
use brotli::Decompressor;
use flate2::read::{DeflateDecoder, GzDecoder};
use std::io::{IoSliceMut, Read};
use vstd::prelude::*;
use vstd::string::StrSliceExecFns;
use vstd::utf8::{decode_utf8, encode_utf8, valid_utf8};

verus! {

/// `std::string::FromUtf8Error`: the error of `String::from_utf8`, carried and
/// never read.
#[verifier::external_type_specification]
#[verifier::external_body]
pub struct ExFromUtf8Error(std::string::FromUtf8Error);

/// `std::io::Error`: the error of a decoder, carried and never read.
#[verifier::external_type_specification]
#[verifier::external_body]
pub struct ExIoError(std::io::Error);

/// `String::from_utf8` succeeds on the byte sequences that are UTF-8, and
/// gives the text that they encode.
pub assume_specification[ String::from_utf8 ](bytes: Vec<u8>) -> (r: Result<
    String,
    std::string::FromUtf8Error,
>)
    ensures
        r is Ok <==> valid_utf8(bytes@),
        r matches Ok(s) ==> s@ == decode_utf8(bytes@),
;

/// What one vectored read of flate2's gzip decoder, into one buffer without
/// room, brings of the stream `content`: `None` where the read fails.
pub uninterp spec fn gzip_decoded(content: Seq<u8>) -> Option<Seq<u8>>;

/// What one vectored read of flate2's deflate decoder, into one buffer without
/// room, brings of the stream `content`: `None` where the read fails.
pub uninterp spec fn deflate_decoded(content: Seq<u8>) -> Option<Seq<u8>>;

/// What one vectored read of brotli's decompressor, into one buffer without
/// room, brings of the stream `content`: `None` where the read fails.
pub uninterp spec fn brotli_decoded(content: Seq<u8>) -> Option<Seq<u8>>;

/// Calls `flate2::read::GzDecoder::new` on `content` and `read_vectored` on the
/// decoder, with one buffer that has no room. The result is a function of
/// `content` alone and is named `gzip_decoded`.
#[verifier::external_body]
fn gzip_decode(content: &Vec<u8>) -> (r: Result<Vec<u8>, std::io::Error>)
    ensures
        r is Ok <==> gzip_decoded(content@) is Some,
        r matches Ok(v) ==> gzip_decoded(content@) == Some(v@),
{
    let mut decoder = GzDecoder::new(&content[..]);
    let mut v: Vec<u8> = Vec::new();
    let ios = IoSliceMut::new(&mut v);
    match decoder.read_vectored(&mut [ios]) {
        Ok(_) => Ok(v),
        Err(e) => Err(e),
    }
}

/// Calls `flate2::read::DeflateDecoder::new` on `content` and `read_vectored`
/// on the decoder, with one buffer that has no room. The result is a function
/// of `content` alone and is named `deflate_decoded`.
#[verifier::external_body]
fn deflate_decode(content: &Vec<u8>) -> (r: Result<Vec<u8>, std::io::Error>)
    ensures
        r is Ok <==> deflate_decoded(content@) is Some,
        r matches Ok(v) ==> deflate_decoded(content@) == Some(v@),
{
    let mut decoder = DeflateDecoder::new(&content[..]);
    let mut v: Vec<u8> = Vec::new();
    let ios = IoSliceMut::new(&mut v);
    match decoder.read_vectored(&mut [ios]) {
        Ok(_) => Ok(v),
        Err(e) => Err(e),
    }
}

/// Calls `brotli::Decompressor::new` on `content`, with an inner buffer of 32
/// bytes, and `read_vectored` on the decompressor, with one buffer that has no
/// room. The result is a function of `content` alone and is named
/// `brotli_decoded`.
#[verifier::external_body]
fn brotli_decode(content: &Vec<u8>) -> (r: Result<Vec<u8>, std::io::Error>)
    ensures
        r is Ok <==> brotli_decoded(content@) is Some,
        r matches Ok(v) ==> brotli_decoded(content@) == Some(v@),
{
    let mut decoder = Decompressor::new(&content[..], 32);
    let mut v: Vec<u8> = Vec::new();
    let ios = IoSliceMut::new(&mut v);
    match decoder.read_vectored(&mut [ios]) {
        Ok(_) => Ok(v),
        Err(e) => Err(e),
    }
}

/// The body of a message.
///
/// A body is never tagged with `Compress`: the library has no decoder for it.
#[derive(Debug)]
pub struct Body {
    content: Vec<u8>,
    encoding: Option<ContentEncodingMethod>,
}

/// A body as a mathematical value.
pub struct BodySpec {
    pub content: Seq<u8>,
    pub encoding: Option<ContentEncodingMethod>,
}

impl View for Body {
    type V = BodySpec;

    closed spec fn view(&self) -> BodySpec {
        BodySpec { content: self.content@, encoding: self.encoding }
    }
}

/// A copy of the bytes `bytes`.
pub fn clone_bytes(bytes: &Vec<u8>) -> (r: Vec<u8>)
    ensures
        r@ == bytes@,
{
    let mut r: Vec<u8> = Vec::new();
    let mut i: usize = 0;
    while i < bytes.len()
        invariant
            i <= bytes.len(),
            r@ == bytes@.take(i as int),
        decreases bytes.len() - i,
    {
        r.push(bytes[i]);
        i += 1;
    }
    r
}

impl Clone for Body {
    fn clone(&self) -> (r: Self)
        ensures
            r@ == self@,
    {
        proof {
            use_type_invariant(self);
        }
        Body { content: clone_bytes(&self.content), encoding: self.encoding.clone() }
    }
}

impl Body {
    #[verifier::type_invariant]
    spec fn well_formed(self) -> bool {
        self.encoding != Some(ContentEncodingMethod::Compress)
    }

    /// A body that holds the UTF-8 bytes of `content`, without an encoding.
    pub fn new(content: String) -> (r: Body)
        ensures
            r@ == (BodySpec { content: encode_utf8(content@), encoding: None }),
    {
        Body { content: content.as_str().as_bytes_vec(), encoding: None }
    }

    /// A body that holds `bytes`, without an encoding.
    pub fn from_bytes(bytes: Vec<u8>) -> (r: Body)
        ensures
            r@ == (BodySpec { content: bytes@, encoding: None }),
    {
        Body { content: bytes, encoding: None }
    }

    /// A body that holds `bytes`, tagged with `encoding`.
    pub fn from_bytes_with_encoding(bytes: Vec<u8>, encoding: ContentEncodingMethod) -> (r:
        Body)
        requires
            encoding != ContentEncodingMethod::Compress,
        ensures
            r@ == (BodySpec { content: bytes@, encoding: Some(encoding) }),
    {
        Body { content: bytes, encoding: Some(encoding) }
    }

    /// The bytes of the body, as they are held.
    pub fn get_bytes(&self) -> (r: Vec<u8>)
        ensures
            r@ == self@.content,
    {
        clone_bytes(&self.content)
    }

    /// The text that the bytes of the body encode, where they are UTF-8.
    pub fn try_to_string(&self) -> (r: Result<String, std::string::FromUtf8Error>)
        ensures
            r is Ok <==> valid_utf8(self@.content),
            r matches Ok(s) ==> s@ == decode_utf8(self@.content),
    {
        String::from_utf8(clone_bytes(&self.content))
    }

    /// Decodes the content by its encoding. A body without an encoding gives
    /// its bytes. With an encoding, the content goes to that encoding's
    /// decoder and the result is what one read of the decoder brings.
    pub fn decode_into_memory(&self) -> (r: Result<Vec<u8>, std::io::Error>)
        ensures
            self@.encoding is None ==> (r matches Ok(v) && v@ == self@.content),
            self@.encoding == Some(ContentEncodingMethod::Gzip) ==> match r {
                Ok(v) => gzip_decoded(self@.content) == Some(v@),
                Err(_) => gzip_decoded(self@.content) is None,
            },
            self@.encoding == Some(ContentEncodingMethod::Deflate) ==> match r {
                Ok(v) => deflate_decoded(self@.content) == Some(v@),
                Err(_) => deflate_decoded(self@.content) is None,
            },
            self@.encoding == Some(ContentEncodingMethod::Br) ==> match r {
                Ok(v) => brotli_decoded(self@.content) == Some(v@),
                Err(_) => brotli_decoded(self@.content) is None,
            },
    {
        proof {
            use_type_invariant(self);
        }
        match &self.encoding {
            None => Ok(clone_bytes(&self.content)),
            Some(ContentEncodingMethod::Gzip) => gzip_decode(&self.content),
            Some(ContentEncodingMethod::Deflate) => deflate_decode(&self.content),
            Some(ContentEncodingMethod::Br) => brotli_decode(&self.content),
            Some(ContentEncodingMethod::Compress) => {
                assert(false);
                Ok(Vec::new())
            },
        }
    }
}

} // verus!
