//! A growing byte buffer and the readers that fill it from a byte source,
//! among them the reader that takes one HTTP request and no byte more.

use crate::http::header::{HTTPRequestHeaders, RequestHeaderSpec};
use crate::http::request::{parse_request, HTTPRequest};
use vstd::prelude::*;
use vstd::string::StringExecFns;
use vstd::utf8::{decode_utf8, valid_utf8};

verus! {

/// Why reading a request failed.
#[derive(Debug, Clone, Copy, PartialEq, Eq, Structural)]
pub enum ReadError {
    /// The source reported an error.
    Source,
    /// The bytes read are not UTF-8.
    NotText,
    /// The text read is no request.
    NotRequest,
}

impl ReadError {
    /// The message of this error.
    pub fn to_string(&self) -> (s: String)
        ensures
            s@ == match *self {
                ReadError::Source => "failed to read from source"@,
                ReadError::NotText => "failed to convert bytes to string"@,
                ReadError::NotRequest => "failed to parse header of HTTP request"@,
            },
    {
        match self {
            ReadError::Source => String::from_str("failed to read from source"),
            ReadError::NotText => String::from_str("failed to convert bytes to string"),
            ReadError::NotRequest => String::from_str("failed to parse header of HTTP request"),
        }
    }
}

/// What one read of a single byte from a source gave.
#[derive(Debug, Clone, Copy, PartialEq, Eq, Structural)]
pub enum ReadEvent {
    /// Exactly one byte.
    Byte(u8),
    /// No byte: the end of the data, or a read that did not give exactly one
    /// byte.
    End,
    /// An error of the source.
    Failed,
}

/// What the reader of a request asks for after an event.
#[derive(Debug, Clone, Copy)]
pub enum ReadStep {
    /// One more read of a single byte.
    More,
    /// Nothing more: the request was read, with this many bytes, or reading
    /// failed.
    Done(Result<usize, ReadError>),
}

/// Takes the first byte off the in-memory source `r`.
pub fn next_byte(r: &mut &[u8]) -> (b: Option<u8>)
    ensures
        old(r)@.len() == 0 ==> b is None && final(r)@ == old(r)@,
        old(r)@.len() > 0 ==> b == Some(old(r)@[0]) && final(r)@ == old(r)@.drop_first(),
{
    if r.len() == 0 {
        None
    } else {
        let b = r[0];
        *r = vstd::slice::slice_subrange(*r, 1, r.len());
        Some(b)
    }
}

/// The position of the first zero byte of `src`, or `src.len()`.
pub open spec fn first_zero(src: Seq<u8>) -> int
    decreases src.len(),
{
    if src.len() == 0 || src[0] == 0 {
        0
    } else {
        1 + first_zero(src.drop_first())
    }
}

/// Whether `b` is a carriage return or a line feed.
pub open spec fn is_eol(b: u8) -> bool {
    b == 13 || b == 10
}

/// How many carriage returns and line feeds `s` ends with.
pub open spec fn trailing_eols(s: Seq<u8>) -> int
    decreases s.len(),
{
    if s.len() > 0 && is_eol(s.last()) {
        1 + trailing_eols(s.drop_last())
    } else {
        0
    }
}

/// The least `n` from `k` on such that `src[..n]` ends with four carriage
/// returns and line feeds, in any order; `src.len()` where there is none.
pub open spec fn eol_run_end(src: Seq<u8>, k: int) -> int
    decreases src.len() - k,
{
    if k >= src.len() {
        src.len() as int
    } else if trailing_eols(src.take(k)) >= 4 {
        k
    } else {
        eol_run_end(src, k + 1)
    }
}

/// Whether `s` ends with the four bytes that end the head of a request:
/// carriage return, line feed, carriage return, line feed.
pub open spec fn ends_head(s: Seq<u8>) -> bool {
    let n = s.len() as int;
    n >= 4 && s[n - 4] == 13 && s[n - 3] == 10 && s[n - 2] == 13 && s[n - 1] == 10
}

/// The least `n` from `k` on such that `src[..n]` ends the head of a request;
/// `src.len()` where there is none.
pub open spec fn head_end(src: Seq<u8>, k: int) -> int
    decreases src.len() - k,
{
    if k >= src.len() {
        src.len() as int
    } else if ends_head(src.take(k)) {
        k
    } else {
        head_end(src, k + 1)
    }
}

/// The length of the head of the request that `src` starts with: up to and
/// with the first empty line, or all of `src` where it has none.
pub open spec fn head_len(src: Seq<u8>) -> int {
    head_end(src, 0)
}

/// `head_end` is the least position at which the head ends.
pub proof fn lemma_head_end_least(src: Seq<u8>, k: int)
    requires
        0 <= k <= src.len(),
    ensures
        k <= head_end(src, k) <= src.len(),
        forall|j: int| k <= j < head_end(src, k) ==> !ends_head(#[trigger] src.take(j)),
        head_end(src, k) < src.len() ==> ends_head(src.take(head_end(src, k))),
    decreases src.len() - k,
{
    if k < src.len() && !ends_head(src.take(k)) {
        lemma_head_end_least(src, k + 1);
    }
}

/// How much of the end of a head `s` ends with: 3 for a carriage return, a
/// line feed and a carriage return, 2 for the first two of them, 1 for a
/// carriage return, else 0.
pub open spec fn head_progress(s: Seq<u8>) -> int {
    let n = s.len() as int;
    if n >= 3 && s[n - 3] == 13 && s[n - 2] == 10 && s[n - 1] == 13 {
        3
    } else if n >= 2 && s[n - 2] == 13 && s[n - 1] == 10 {
        2
    } else if n >= 1 && s[n - 1] == 13 {
        1
    } else {
        0
    }
}

/// The progress after one more byte; 4 where the head has ended.
fn advance_progress(progress: u8, b: u8, Ghost(s): Ghost<Seq<u8>>) -> (next: u8)
    requires
        progress == head_progress(s),
    ensures
        next == 4 <==> ends_head(s.push(b)),
        next != 4 ==> next == head_progress(s.push(b)),
        next <= 4,
{
    let ghost t = s.push(b);
    assert(forall|i: int| 0 <= i < s.len() ==> t[i] == s[i]);
    if b == 13 {
        if progress == 2 {
            3
        } else {
            1
        }
    } else if b == 10 {
        if progress == 1 {
            2
        } else if progress == 3 {
            4
        } else {
            0
        }
    } else {
        0
    }
}

/// The length that the first `Content-Length` header of `headers` declares; 0
/// where there is none.
pub open spec fn content_length(headers: Seq<RequestHeaderSpec>) -> usize
    decreases headers.len(),
{
    if headers.len() == 0 {
        0
    } else {
        match headers[0] {
            RequestHeaderSpec::ContentLength(n) => n,
            _ => content_length(headers.drop_first()),
        }
    }
}

/// What the bytes of a head say of the body: its declared length, or why the
/// head cannot be read.
pub open spec fn declared_length(head: Seq<u8>) -> Result<usize, ReadError> {
    if !valid_utf8(head) {
        Err(ReadError::NotText)
    } else {
        match parse_request(decode_utf8(head)) {
            None => Err(ReadError::NotRequest),
            Some(req) => Ok(content_length(req.header)),
        }
    }
}

/// The length that the first `Content-Length` header of `headers` declares.
pub fn content_length_of(headers: &Vec<HTTPRequestHeaders>) -> (n: usize)
    ensures
        n == content_length(crate::http::header::request_header_views(headers@)),
{
    let ghost all = crate::http::header::request_header_views(headers@);
    let mut i: usize = 0;
    assert(all.skip(0) == all);
    while i < headers.len()
        invariant
            i <= headers.len(),
            all == crate::http::header::request_header_views(headers@),
            content_length(all) == content_length(all.skip(i as int)),
        decreases headers.len() - i,
    {
        assert(all.skip(i as int)[0] == headers@[i as int]@);
        assert(all.skip(i as int).drop_first() == all.skip(i + 1));
        match &headers[i] {
            HTTPRequestHeaders::ContentLength(n) => {
                return *n;
            },
            _ => {},
        }
        i += 1;
    }
    0
}

/// Reads the head `head` far enough to know the declared length of the body.
pub fn read_declared_length(head: &Vec<u8>) -> (r: Result<usize, ReadError>)
    ensures
        r == declared_length(head@),
{
    let text = match String::from_utf8(crate::http::body::clone_bytes(head)) {
        Ok(t) => t,
        Err(_) => {
            return Err(ReadError::NotText);
        },
    };
    match HTTPRequest::from_string(text) {
        Ok(req) => Ok(content_length_of(&req.get_header())),
        Err(_) => Err(ReadError::NotRequest),
    }
}

/// A growing byte buffer.
pub struct DBuffer {
    buffer: Vec<u8>,
}

impl View for DBuffer {
    type V = Seq<u8>;

    closed spec fn view(&self) -> Seq<u8> {
        self.buffer@
    }
}

/// The least of `a` and `b`.
pub open spec fn least(a: int, b: int) -> int {
    if a <= b {
        a
    } else {
        b
    }
}

impl DBuffer {
    /// An empty buffer.
    pub fn new() -> (r: DBuffer)
        ensures
            r@ == Seq::<u8>::empty(),
    {
        DBuffer { buffer: Vec::new() }
    }

    /// An empty buffer with room for `cap` bytes.
    pub fn with_capacity(cap: usize) -> (r: DBuffer)
        ensures
            r@ == Seq::<u8>::empty(),
    {
        DBuffer { buffer: Vec::with_capacity(cap) }
    }

    /// Reads from `r` up to its first zero byte and keeps what stands before
    /// it. The zero byte is taken off the source and not kept. Returns the
    /// number of bytes kept.
    #[verifier::loop_isolation(false)]
    pub fn read_until_zero(&mut self, r: &mut &[u8]) -> (res: Result<usize, ReadError>)
        ensures
            res == Ok::<usize, ReadError>(first_zero(old(r)@) as usize),
            final(self)@ == old(self)@ + old(r)@.take(first_zero(old(r)@)),
            final(r)@ == old(r)@.skip(least(first_zero(old(r)@) + 1, old(r)@.len() as int)),
    {
        let ghost src = r@;
        let ghost before = self@;
        let _total: usize = r.len();
        let mut counter: usize = 0;
        assert(src.skip(0) == src);
        loop
            invariant
                counter <= src.len(),
                r@ == src.skip(counter as int),
                self@ == before + src.take(counter as int),
                first_zero(src) == counter + first_zero(src.skip(counter as int)),
            decreases src.len() - counter,
        {
            let ghost rest = r@;
            match next_byte(r) {
                None => {
                    return Ok(counter);
                },
                Some(b) => {
                    assert(b == src[counter as int]);
                    assert(rest.drop_first() == src.skip(counter + 1));
                    if b == 0 {
                        return Ok(counter);
                    }
                    self.buffer.push(b);
                    assert(src.take(counter + 1) == src.take(counter as int).push(b));
                    counter += 1;
                },
            }
        }
    }

    /// Reads from `r` until four carriage returns and line feeds have come in
    /// a row, in any order, and keeps all that was read. Returns the number
    /// of bytes read.
    ///
    /// This reader takes `\n\n\r\r` for the end of a head; `read_http_request`
    /// does not.
    #[verifier::loop_isolation(false)]
    pub fn read_until_req_end(&mut self, r: &mut &[u8]) -> (res: Result<usize, ReadError>)
        ensures
            res == Ok::<usize, ReadError>(eol_run_end(old(r)@, 0) as usize),
            final(self)@ == old(self)@ + old(r)@.take(eol_run_end(old(r)@, 0)),
            final(r)@ == old(r)@.skip(eol_run_end(old(r)@, 0)),
            0 <= eol_run_end(old(r)@, 0) <= old(r)@.len(),
    {
        let ghost src = r@;
        let ghost before = self@;
        let _total: usize = r.len();
        let mut counter: usize = 0;
        let mut run: u8 = 0;
        assert(src.skip(0) == src);
        assert(src.take(0).len() == 0);
        loop
            invariant
                counter <= src.len(),
                r@ == src.skip(counter as int),
                self@ == before + src.take(counter as int),
                run == trailing_eols(src.take(counter as int)),
                run < 4,
                eol_run_end(src, 0) == eol_run_end(src, counter as int),
            decreases src.len() - counter,
        {
            let ghost rest = r@;
            match next_byte(r) {
                None => {
                    return Ok(counter);
                },
                Some(b) => {
                    assert(b == src[counter as int]);
                    assert(rest.drop_first() == src.skip(counter + 1));
                    assert(src.take(counter + 1) == src.take(counter as int).push(b));
                    assert(src.take(counter + 1).drop_last() == src.take(counter as int));
                    if b == 13 || b == 10 {
                        run += 1;
                    } else {
                        run = 0;
                    }
                    self.buffer.push(b);
                    counter += 1;
                    assert(run == trailing_eols(src.take(counter as int)));
                    if run == 4 {
                        assert(eol_run_end(src, counter as int) == counter);
                        return Ok(counter);
                    }
                },
            }
        }
    }

    /// Reads one HTTP request from `r`: its head, up to and with the first
    /// empty line, and after it as many bytes as the head's first
    /// `Content-Length` header declares, or as many as the source still has,
    /// if those are fewer. Returns the number of bytes read, all of which are
    /// kept.
    ///
    /// The head is read as text together with what the buffer held before.
    /// Where that is not UTF-8, or is no request, reading stops after the head
    /// and fails.
    #[verifier::loop_isolation(false)]
    pub fn read_http_request(&mut self, r: &mut &[u8]) -> (res: Result<usize, ReadError>)
        ensures
            ({
                let src = old(r)@;
                let h = head_len(src);
                let head = old(self)@ + src.take(h);
                match declared_length(head) {
                    Err(e) => {
                        &&& res == Err::<usize, ReadError>(e)
                        &&& final(self)@ == head
                        &&& final(r)@ == src.skip(h)
                    },
                    Ok(l) => {
                        let n = h + least(l as int, src.len() - h);
                        &&& res == Ok::<usize, ReadError>(n as usize)
                        &&& final(self)@ == old(self)@ + src.take(n)
                        &&& final(r)@ == src.skip(n)
                    },
                }
            }),
            0 <= head_len(old(r)@) <= old(r)@.len(),
    {
        let ghost src = r@;
        let ghost before = self@;
        let _total: usize = r.len();
        proof {
            lemma_head_end_least(src, 0);
        }
        let mut taken: Vec<u8> = Vec::new();
        core::mem::swap(&mut self.buffer, &mut taken);
        let mut reader = RequestReader::resume(DBuffer { buffer: taken });
        let mut count: usize = 0;
        assert(src.skip(0) == src);
        assert(src.take(0) == Seq::<u8>::empty());
        assert(before + src.take(0) == before);
        loop
            invariant
                count <= src.len(),
                r@ == src.skip(count as int),
                reader.wf(),
                reader.buffer() == before + src.take(count as int),
                reader.start() == before.len(),
                reader.phase() is Head,
                head_len(src) == head_end(src, count as int),
                !ends_head(src.take(count as int)),
            decreases src.len() - count,
        {
            let ghost rest = r@;
            match next_byte(r) {
                Some(b) => {
                    proof {
                        assert(rest.drop_first() == src.skip(count + 1));
                        assert(src.take(count + 1) == src.take(count as int).push(b));
                        assert(before + src.take(count + 1) == (before + src.take(
                            count as int,
                        )).push(b));
                        assert((before + src.take(count + 1)).skip(before.len() as int)
                            == src.take(count + 1));
                        assert(head_end(src, count as int) == head_end(src, count + 1));
                    }
                    let step = reader.feed(ReadEvent::Byte(b));
                    count += 1;
                    if reader.past_head() {
                        assert(ends_head(src.take(count as int)));
                        assert(head_len(src) == count);
                        match step {
                            ReadStep::Done(res) => {
                                let DBuffer { buffer } = reader.into_buffer();
                                self.buffer = buffer;
                                return res;
                            },
                            ReadStep::More => {
                                break;
                            },
                        }
                    }
                },
                None => {
                    proof {
                        assert(src.take(count as int) == src);
                        assert(head_len(src) == count);
                    }
                    let step = reader.feed(ReadEvent::End);
                    match step {
                        ReadStep::Done(res) => {
                            let DBuffer { buffer } = reader.into_buffer();
                            self.buffer = buffer;
                            return res;
                        },
                        ReadStep::More => {
                            break;
                        },
                    }
                },
            }
        }
        let ghost h = head_len(src);
        let ghost l = declared_length(before + src.take(h))->Ok_0;
        assert(count == h);
        loop
            invariant
                count <= src.len(),
                r@ == src.skip(count as int),
                reader.wf(),
                reader.buffer() == before + src.take(count as int),
                reader.start() == before.len(),
                declared_length(before + src.take(h)) == Ok::<usize, ReadError>(l),
                l > 0,
                reader.phase() matches ReadPhase::Body { head, left } && head == h && 0 < left
                    <= l && count == h + (l - left),
            decreases src.len() - count,
        {
            let ghost rest = r@;
            match next_byte(r) {
                Some(b) => {
                    proof {
                        assert(rest.drop_first() == src.skip(count + 1));
                        assert(src.take(count + 1) == src.take(count as int).push(b));
                        assert(before + src.take(count + 1) == (before + src.take(
                            count as int,
                        )).push(b));
                    }
                    let step = reader.feed(ReadEvent::Byte(b));
                    count += 1;
                    match step {
                        ReadStep::Done(res) => {
                            assert(count == h + l);
                            let DBuffer { buffer } = reader.into_buffer();
                            self.buffer = buffer;
                            return res;
                        },
                        ReadStep::More => {},
                    }
                },
                None => {
                    let step = reader.feed(ReadEvent::End);
                    match step {
                        ReadStep::Done(res) => {
                            assert(count == src.len());
                            let DBuffer { buffer } = reader.into_buffer();
                            self.buffer = buffer;
                            return res;
                        },
                        ReadStep::More => {
                            assert(false);
                        },
                    }
                },
            }
        }
    }

    /// The text that the bytes of the buffer encode, where they are UTF-8.
    pub fn to_string(&self) -> (r: Result<String, std::string::FromUtf8Error>)
        ensures
            r is Ok <==> valid_utf8(self@),
            r matches Ok(s) ==> s@ == decode_utf8(self@),
    {
        String::from_utf8(crate::http::body::clone_bytes(&self.buffer))
    }
}

/// Where the reader of a request stands.
#[derive(Debug, Clone, Copy)]
pub enum ReadPhase {
    /// In the head.
    Head,
    /// In the body, after a head of `head` bytes, with `left` bytes to come.
    Body { head: usize, left: usize },
    /// At the end, with this result.
    Finished(Result<usize, ReadError>),
}

/// The reader of one request, for a source that only its owner can read.
///
/// The owner reads one byte at a time and hands each outcome to `feed`, which
/// keeps the byte and says whether another read is wanted. The reader asks
/// for no byte beyond the request: it stops at the empty line that ends the
/// head, or, where the head declares a length, that many bytes after it.
pub struct RequestReader {
    buffer: Vec<u8>,
    start: usize,
    progress: u8,
    phase: ReadPhase,
}

/// The reader after the head has ended, with `buffer` read so far, of which
/// the request starts at `start`.
pub open spec fn phase_after_head(buffer: Seq<u8>, start: int) -> ReadPhase {
    match declared_length(buffer) {
        Err(e) => ReadPhase::Finished(Err(e)),
        Ok(l) => if l == 0 {
            ReadPhase::Finished(Ok((buffer.len() - start) as usize))
        } else {
            ReadPhase::Body { head: (buffer.len() - start) as usize, left: l }
        },
    }
}

/// The bytes that the reader holds after `event`, having held `buffer` in
/// `phase`.
pub open spec fn buffer_after(buffer: Seq<u8>, phase: ReadPhase, event: ReadEvent) -> Seq<u8> {
    match (phase, event) {
        (ReadPhase::Head, ReadEvent::Byte(b)) => buffer.push(b),
        (ReadPhase::Body { .. }, ReadEvent::Byte(b)) => buffer.push(b),
        _ => buffer,
    }
}

/// The phase of the reader after `event`, having held `buffer`, of which the
/// request starts at `start`, in `phase`.
pub open spec fn phase_after(buffer: Seq<u8>, start: int, phase: ReadPhase, event: ReadEvent)
    -> ReadPhase {
    match phase {
        ReadPhase::Head => match event {
            ReadEvent::Byte(b) => if ends_head(buffer.push(b).skip(start)) {
                phase_after_head(buffer.push(b), start)
            } else {
                ReadPhase::Head
            },
            ReadEvent::End => phase_after_head(buffer, start),
            ReadEvent::Failed => ReadPhase::Finished(Err(ReadError::Source)),
        },
        ReadPhase::Body { head, left } => match event {
            ReadEvent::Byte(b) => if left <= 1 {
                ReadPhase::Finished(Ok((buffer.len() + 1 - start) as usize))
            } else {
                ReadPhase::Body { head, left: (left - 1) as usize }
            },
            _ => ReadPhase::Finished(Ok((buffer.len() - start) as usize)),
        },
        ReadPhase::Finished(res) => ReadPhase::Finished(res),
    }
}

impl RequestReader {
    /// The bytes held: what the buffer held at the start, and what was read.
    pub closed spec fn buffer(&self) -> Seq<u8> {
        self.buffer@
    }

    /// Where in the buffer the request starts.
    pub closed spec fn start(&self) -> int {
        self.start as int
    }

    /// Where the reader stands.
    pub closed spec fn phase(&self) -> ReadPhase {
        self.phase
    }

    /// The reader's invariant.
    pub closed spec fn wf(&self) -> bool {
        &&& self.start <= self.buffer@.len()
        &&& self.phase is Head ==> self.progress == head_progress(
            self.buffer@.skip(self.start as int),
        ) && !ends_head(self.buffer@.skip(self.start as int))
        &&& self.phase matches ReadPhase::Body { head, left } ==> left > 0
    }

    /// A reader at the start of a request, with nothing read.
    pub fn new() -> (r: RequestReader)
        ensures
            r.wf(),
            r.buffer() == Seq::<u8>::empty(),
            r.start() == 0,
            r.phase() == ReadPhase::Head,
    {
        let r = RequestReader { buffer: Vec::new(), start: 0, progress: 0, phase: ReadPhase::Head };
        assert(r.buffer@.skip(0) == r.buffer@);
        r
    }

    /// A reader at the start of a request that keeps what `buffer` holds and
    /// reads on behind it.
    pub fn resume(buffer: DBuffer) -> (r: RequestReader)
        ensures
            r.wf(),
            r.buffer() == buffer@,
            r.start() == buffer@.len(),
            r.phase() == ReadPhase::Head,
    {
        let DBuffer { buffer } = buffer;
        let start = buffer.len();
        let r = RequestReader { buffer, start, progress: 0, phase: ReadPhase::Head };
        assert(r.buffer@.skip(start as int).len() == 0);
        r
    }

    /// Ends the head: reads it, and goes on to the body or to the end.
    fn end_head(&mut self)
        requires
            old(self).start <= old(self).buffer@.len(),
        ensures
            final(self).buffer == old(self).buffer,
            final(self).start == old(self).start,
            final(self).phase == phase_after_head(old(self).buffer@, old(self).start as int),
            final(self).wf(),
    {
        self.phase = match read_declared_length(&self.buffer) {
            Err(e) => ReadPhase::Finished(Err(e)),
            Ok(l) => if l == 0 {
                ReadPhase::Finished(Ok(self.buffer.len() - self.start))
            } else {
                ReadPhase::Body { head: self.buffer.len() - self.start, left: l }
            },
        };
    }

    /// Takes the outcome of one read of a single byte, and says whether
    /// another read is wanted. A byte that comes while one is wanted is kept.
    /// After the end, every event is passed over and the result is said again.
    pub fn feed(&mut self, event: ReadEvent) -> (step: ReadStep)
        requires
            old(self).wf(),
        ensures
            final(self).wf(),
            final(self).start() == old(self).start(),
            final(self).buffer() == buffer_after(old(self).buffer(), old(self).phase(), event),
            final(self).phase() == phase_after(
                old(self).buffer(),
                old(self).start(),
                old(self).phase(),
                event,
            ),
            step == match final(self).phase() {
                ReadPhase::Finished(res) => ReadStep::Done(res),
                _ => ReadStep::More,
            },
    {
        match self.phase {
            ReadPhase::Head => match event {
                ReadEvent::Byte(b) => {
                    let ghost seen = self.buffer@.skip(self.start as int);
                    let next = advance_progress(self.progress, b, Ghost(seen));
                    self.buffer.push(b);
                    assert(self.buffer@.skip(self.start as int) == seen.push(b));
                    if next == 4 {
                        self.end_head();
                    } else {
                        self.progress = next;
                    }
                },
                ReadEvent::End => {
                    self.end_head();
                },
                ReadEvent::Failed => {
                    self.phase = ReadPhase::Finished(Err(ReadError::Source));
                },
            },
            ReadPhase::Body { head, left } => match event {
                ReadEvent::Byte(b) => {
                    self.buffer.push(b);
                    if left <= 1 {
                        self.phase = ReadPhase::Finished(Ok(self.buffer.len() - self.start));
                    } else {
                        self.phase = ReadPhase::Body { head, left: left - 1 };
                    }
                },
                _ => {
                    self.phase = ReadPhase::Finished(Ok(self.buffer.len() - self.start));
                },
            },
            ReadPhase::Finished(_) => {},
        }
        match self.phase {
            ReadPhase::Finished(res) => ReadStep::Done(res),
            _ => ReadStep::More,
        }
    }

    /// Whether the reader has left the head.
    pub fn past_head(&self) -> (b: bool)
        ensures
            b == !(self.phase() is Head),
    {
        match self.phase {
            ReadPhase::Head => false,
            _ => true,
        }
    }

    /// The buffer with all that was read.
    pub fn into_buffer(self) -> (r: DBuffer)
        ensures
            r@ == self.buffer(),
    {
        DBuffer { buffer: self.buffer }
    }
}

/// The bytes that a reader holds and the phase it is in after it was fed the
/// bytes `bytes`, one event for each, in their order, having held `buffer` in
/// `phase`.
pub open spec fn fed(buffer: Seq<u8>, start: int, phase: ReadPhase, bytes: Seq<u8>) -> (
    Seq<u8>,
    ReadPhase,
)
    decreases bytes.len(),
{
    if bytes.len() == 0 {
        (buffer, phase)
    } else {
        let (b, p) = fed(buffer, start, phase, bytes.drop_last());
        let event = ReadEvent::Byte(bytes.last());
        (buffer_after(b, p, event), phase_after(b, start, p, event))
    }
}

/// A new reader that was fed the first `k` bytes of `src`.
pub open spec fn fed_prefix(src: Seq<u8>, k: int) -> (Seq<u8>, ReadPhase) {
    fed(Seq::<u8>::empty(), 0, ReadPhase::Head, src.take(k))
}

/// As long as the head has not ended, the reader keeps every byte and stays
/// in the head.
pub proof fn lemma_reader_in_head(src: Seq<u8>, k: int)
    requires
        0 <= k <= src.len(),
        forall|j: int| 0 <= j <= k ==> !ends_head(#[trigger] src.take(j)),
    ensures
        fed_prefix(src, k) == (src.take(k), ReadPhase::Head),
    decreases k,
{
    if k == 0 {
        assert(src.take(0) == Seq::<u8>::empty());
    } else {
        lemma_reader_in_head(src, k - 1);
        assert(src.take(k).drop_last() == src.take(k - 1));
        assert(src.take(k).last() == src[k - 1]);
        assert(src.take(k - 1).push(src[k - 1]) == src.take(k));
        assert(src.take(k).skip(0) == src.take(k));
    }
}

/// At the end of the head the reader reads the head and goes on as the head
/// says.
pub proof fn lemma_reader_at_head_end(src: Seq<u8>)
    requires
        ends_head(src.take(head_len(src))),
    ensures
        fed_prefix(src, head_len(src)) == (
            src.take(head_len(src)),
            phase_after_head(src.take(head_len(src)), 0),
        ),
{
    let h = head_len(src);
    lemma_head_end_least(src, 0);
    assert(src.take(0).len() == 0);
    lemma_reader_in_head(src, h - 1);
    assert(src.take(h).drop_last() == src.take(h - 1));
    assert(src.take(h).last() == src[h - 1]);
    assert(src.take(h - 1).push(src[h - 1]) == src.take(h));
    assert(src.take(h).skip(0) == src.take(h));
}

/// In the body the reader keeps every byte, counts down, and ends with the
/// last byte that was declared.
pub proof fn lemma_reader_in_body(src: Seq<u8>, l: usize, m: int)
    requires
        src.len() <= usize::MAX,
        ends_head(src.take(head_len(src))),
        declared_length(src.take(head_len(src))) == Ok::<usize, ReadError>(l),
        0 <= m <= l,
        l > 0,
        head_len(src) + m <= src.len(),
    ensures
        fed_prefix(src, head_len(src) + m).0 == src.take(head_len(src) + m),
        m < l ==> fed_prefix(src, head_len(src) + m).1 == (ReadPhase::Body {
            head: head_len(src) as usize,
            left: (l - m) as usize,
        }),
        m == l ==> fed_prefix(src, head_len(src) + m).1 == ReadPhase::Finished(
            Ok((head_len(src) + l) as usize),
        ),
    decreases m,
{
    let h = head_len(src);
    lemma_head_end_least(src, 0);
    if m == 0 {
        lemma_reader_at_head_end(src);
    } else {
        lemma_reader_in_body(src, l, m - 1);
        let k = h + m;
        assert(src.take(k).drop_last() == src.take(k - 1));
        assert(src.take(k).last() == src[k - 1]);
        assert(src.take(k - 1).push(src[k - 1]) == src.take(k));
    }
}

/// The reader takes a request whole and no byte more: fed the bytes of `src`,
/// whose head is complete and declares `l` bytes that `src` has, it asks for
/// more until it has taken the head and `l` bytes, and ends there with their
/// number.
pub proof fn lemma_reader_reads_request(src: Seq<u8>, l: usize)
    requires
        src.len() <= usize::MAX,
        ends_head(src.take(head_len(src))),
        declared_length(src.take(head_len(src))) == Ok::<usize, ReadError>(l),
        head_len(src) + l <= src.len(),
    ensures
        forall|k: int|
            0 <= k < head_len(src) + l ==> !(#[trigger] fed_prefix(src, k).1 is Finished),
        fed_prefix(src, head_len(src) + l) == (
            src.take(head_len(src) + l),
            ReadPhase::Finished(Ok((head_len(src) + l) as usize)),
        ),
{
    let h = head_len(src);
    lemma_head_end_least(src, 0);
    assert forall|k: int| 0 <= k < h + l implies !(#[trigger] fed_prefix(src, k).1 is Finished) by {
        if k < h {
            assert(src.take(0).len() == 0);
            lemma_reader_in_head(src, k);
        } else {
            lemma_reader_in_body(src, l, k - h);
        }
    }
    if l == 0 {
        lemma_reader_at_head_end(src);
    } else {
        lemma_reader_in_body(src, l, l as int);
    }
}

} // verus!
