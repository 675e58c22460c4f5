//! The handling of one connection: one request, one response.
//!
//! The library touches no socket and no file. A connection is a short
//! exchange: it says what it needs, its owner does that and answers with
//! what came of it, and in the end the connection says which response to
//! send, or that none is sent. The rules stand in `connection_step`.

use crate::dbuffer::DBuffer;
use crate::http::body::{Body, BodySpec};
use crate::http::header::{HTTPResponseHeaders, ResponseHeaderSpec};
use crate::http::request::{parse_request, HTTPMethod, HTTPRequest};
use crate::http::response::{response_header_views, HTTPResponse, ResponseSpec};
use crate::http::{MimeSpec, MimeType, StatusCode};
use crate::resource::{Resource, ResourceSpec};
use crate::route::{resolve, Entry, Route, RouteSpec, Router};
use crate::text::{chars_of, slice_of, string_of};
use crate::RSWEB_SERVER_STR;
use vstd::prelude::*;
use vstd::string::StringExecFns;
use vstd::utf8::{decode_utf8, encode_utf8, valid_utf8};

verus! {

/// Where a connection stands.
#[derive(Debug, Clone, Copy, PartialEq, Eq, Structural)]
pub enum Stage {
    /// The connection was not yet taken up.
    Start,
    /// The request is being read.
    Reading,
    /// The resource that the request asks for is being loaded.
    Loading,
    /// The resource was not there; the page for that case is being loaded.
    LoadingFallback,
    /// The connection has said what to send.
    Finished,
}

/// What the owner of a connection reports.
pub enum Event {
    /// The connection was accepted and, where it is encrypted, the handshake
    /// is done.
    Accepted,
    /// The request could not be read.
    ReadFailed,
    /// The request was read into this buffer.
    Received(DBuffer),
    /// The load that was asked for ended with this resource, or with a miss.
    Loaded(Option<Resource>),
}

/// What a connection asks of its owner.
pub enum Action {
    /// Read one request.
    ReadRequest,
    /// Load the resource with this key.
    Load(String),
    /// Send this response and close the connection.
    Send(HTTPResponse),
    /// Send nothing and close the connection.
    Abandon,
}

/// An event as a mathematical value.
pub enum EventSpec {
    Accepted,
    ReadFailed,
    Received(Seq<u8>),
    Loaded(Option<ResourceSpec>),
}

/// An action as a mathematical value.
pub enum ActionSpec {
    ReadRequest,
    Load(Seq<char>),
    Send(ResponseSpec),
    Abandon,
}

impl View for Event {
    type V = EventSpec;

    open spec fn view(&self) -> EventSpec {
        match self {
            Event::Accepted => EventSpec::Accepted,
            Event::ReadFailed => EventSpec::ReadFailed,
            Event::Received(b) => EventSpec::Received(b@),
            Event::Loaded(r) => EventSpec::Loaded(
                match r {
                    Some(res) => Some(res@),
                    None => None,
                },
            ),
        }
    }
}

impl View for Action {
    type V = ActionSpec;

    open spec fn view(&self) -> ActionSpec {
        match self {
            Action::ReadRequest => ActionSpec::ReadRequest,
            Action::Load(k) => ActionSpec::Load(k@),
            Action::Send(r) => ActionSpec::Send(r@),
            Action::Abandon => ActionSpec::Abandon,
        }
    }
}

/// A connection as a mathematical value.
pub struct ConnectionSpec {
    pub routes: Seq<Entry>,
    pub aliases: Seq<Entry>,
    /// The path of the page to serve with status 404, where one is set.
    pub notfound_page: Option<Seq<char>>,
    pub stage: Stage,
    /// Whether the request was a `HEAD`: the response then has no body.
    pub head_only: bool,
}

/// The key under which the resource at the request path `path` is loaded:
/// the path without its first character, the `/`.
pub open spec fn resource_key(path: Seq<char>) -> Seq<char> {
    if path.len() > 0 {
        path.drop_first()
    } else {
        path
    }
}

/// The body of a 404 response where no other is set.
pub open spec fn default_notfound_body() -> Seq<u8> {
    encode_utf8("<h1>404 Not Found</h1>"@)
}

/// The body that goes out: none in answer to a `HEAD`.
pub open spec fn body_sent(head_only: bool, content: Seq<u8>) -> BodySpec {
    BodySpec {
        content: if head_only {
            seq![]
        } else {
            content
        },
        encoding: None,
    }
}

/// The response that serves `res`: status 200, the headers `Content-Type`,
/// `Content-Length` and `Server`, and the content. The length is that of the
/// content, also where the body is left out in answer to a `HEAD`.
pub open spec fn found_response(head_only: bool, res: ResourceSpec) -> ResponseSpec {
    ResponseSpec {
        status: StatusCode::Success,
        header: seq![
            ResponseHeaderSpec::ContentType(res.mime_type),
            ResponseHeaderSpec::ContentLength(res.content.len() as usize),
            ResponseHeaderSpec::Server(RSWEB_SERVER_STR@),
        ],
        body: body_sent(head_only, res.content),
    }
}

/// The response to a request for what is not there: status 404, the headers
/// `Content-Type: text/html`, `Content-Length` and `Server`, and `page`.
pub open spec fn missing_response(head_only: bool, page: Seq<u8>) -> ResponseSpec {
    ResponseSpec {
        status: StatusCode::NotFound,
        header: seq![
            ResponseHeaderSpec::ContentType(MimeSpec::Html),
            ResponseHeaderSpec::ContentLength(page.len() as usize),
            ResponseHeaderSpec::Server(RSWEB_SERVER_STR@),
        ],
        body: body_sent(head_only, page),
    }
}

/// A connection that has ended.
pub open spec fn ended(c: ConnectionSpec) -> ConnectionSpec {
    ConnectionSpec { stage: Stage::Finished, ..c }
}

/// What a connection makes of the request that the bytes `bytes` write.
///
/// Bytes that are not UTF-8, and a text that is no request, get no response.
/// A path that a redirect matches gets the redirect. Any other path has its
/// resource loaded: under the target of the first alias that matches, or
/// under the path itself.
pub open spec fn on_request(c: ConnectionSpec, bytes: Seq<u8>) -> (ConnectionSpec, ActionSpec) {
    if !valid_utf8(bytes) {
        (ended(c), ActionSpec::Abandon)
    } else {
        match parse_request(decode_utf8(bytes)) {
            None => (ended(c), ActionSpec::Abandon),
            Some(req) => {
                let loading = ConnectionSpec {
                    stage: Stage::Loading,
                    head_only: req.method == HTTPMethod::Head,
                    ..c
                };
                match resolve(c.routes, c.aliases, req.path) {
                    Some(RouteSpec::Route(resp)) => (ended(c), ActionSpec::Send(resp)),
                    Some(RouteSpec::Alias(target)) => (
                        loading,
                        ActionSpec::Load(resource_key(target)),
                    ),
                    None => (loading, ActionSpec::Load(resource_key(req.path))),
                }
            },
        }
    }
}

/// One step of a connection: the connection and the action after `event`.
///
/// An accepted connection reads its request. A request that cannot be read
/// gets no response. A resource that was loaded is served with status 200. A
/// miss is answered with status 404: with the page set for that case, once
/// it has been loaded, or else with the default body. An event that the
/// stage did not ask for ends the connection without a response.
pub open spec fn connection_step(c: ConnectionSpec, event: EventSpec) -> (
    ConnectionSpec,
    ActionSpec,
) {
    match (c.stage, event) {
        (Stage::Start, EventSpec::Accepted) => (
            ConnectionSpec { stage: Stage::Reading, ..c },
            ActionSpec::ReadRequest,
        ),
        (Stage::Reading, EventSpec::Received(bytes)) => on_request(c, bytes),
        (Stage::Loading, EventSpec::Loaded(Some(res))) => (
            ended(c),
            ActionSpec::Send(found_response(c.head_only, res)),
        ),
        (Stage::Loading, EventSpec::Loaded(None)) => match c.notfound_page {
            Some(page) => (
                ConnectionSpec { stage: Stage::LoadingFallback, ..c },
                ActionSpec::Load(resource_key(page)),
            ),
            None => (
                ended(c),
                ActionSpec::Send(missing_response(c.head_only, default_notfound_body())),
            ),
        },
        (Stage::LoadingFallback, EventSpec::Loaded(Some(res))) => (
            ended(c),
            ActionSpec::Send(missing_response(c.head_only, res.content)),
        ),
        (Stage::LoadingFallback, EventSpec::Loaded(None)) => (
            ended(c),
            ActionSpec::Send(missing_response(c.head_only, default_notfound_body())),
        ),
        _ => (ended(c), ActionSpec::Abandon),
    }
}

/// The key under which the resource at the request path `path` is loaded.
pub fn key_of(path: &str) -> (key: String)
    ensures
        key@ == resource_key(path@),
{
    let v = chars_of(path);
    if v.len() > 0 {
        string_of(&slice_of(&v, 1, v.len()))
    } else {
        String::new()
    }
}

/// The headers of a response with a body of the type `mime` and of `length`
/// bytes.
fn content_headers(mime: MimeType, length: usize) -> (header: Vec<HTTPResponseHeaders>)
    ensures
        response_header_views(header@) == seq![
            ResponseHeaderSpec::ContentType(mime@),
            ResponseHeaderSpec::ContentLength(length),
            ResponseHeaderSpec::Server(RSWEB_SERVER_STR@),
        ],
{
    let mut header: Vec<HTTPResponseHeaders> = Vec::new();
    header.push(HTTPResponseHeaders::ContentType(mime));
    header.push(HTTPResponseHeaders::ContentLength(length));
    header.push(HTTPResponseHeaders::Server(String::from_str(RSWEB_SERVER_STR)));
    header
}

/// The body that goes out: none in answer to a `HEAD`.
fn body_for(head_only: bool, content: Vec<u8>) -> (body: Body)
    ensures
        body@ == body_sent(head_only, content@),
{
    if head_only {
        Body::from_bytes(Vec::new())
    } else {
        Body::from_bytes(content)
    }
}

/// The response that serves `res`.
pub fn respond_found(head_only: bool, res: &Resource) -> (r: HTTPResponse)
    ensures
        r@ == found_response(head_only, res@),
{
    let content = res.get_content();
    let header = content_headers(res.get_mime(), content.len());
    HTTPResponse::new(StatusCode::Success, header, body_for(head_only, content))
}

/// The response to a request for what is not there, with the bytes of the
/// page set for that case, or without one.
pub fn respond_missing(head_only: bool, page: Option<Vec<u8>>) -> (r: HTTPResponse)
    ensures
        r@ == missing_response(
            head_only,
            match page {
                Some(p) => p@,
                None => default_notfound_body(),
            },
        ),
{
    let content = match page {
        Some(p) => p,
        None => Body::new(String::from_str("<h1>404 Not Found</h1>")).get_bytes(),
    };
    let header = content_headers(MimeType::Html, content.len());
    HTTPResponse::new(StatusCode::NotFound, header, body_for(head_only, content))
}

/// The handling of one connection.
pub struct Connection {
    router: Router,
    notfound_page: Option<String>,
    stage: Stage,
    head_only: bool,
}

impl View for Connection {
    type V = ConnectionSpec;

    closed spec fn view(&self) -> ConnectionSpec {
        ConnectionSpec {
            routes: self.router@.routes,
            aliases: self.router@.aliases,
            notfound_page: match self.notfound_page {
                Some(p) => Some(p@),
                None => None,
            },
            stage: self.stage,
            head_only: self.head_only,
        }
    }
}

impl Connection {
    /// A connection at its start, routed by `router`. `notfound_page` is the
    /// path of the page to serve with status 404, where one is set.
    pub fn new(router: Router, notfound_page: Option<String>) -> (c: Connection)
        ensures
            c@ == (ConnectionSpec {
                routes: router@.routes,
                aliases: router@.aliases,
                notfound_page: match notfound_page {
                    Some(p) => Some(p@),
                    None => None,
                },
                stage: Stage::Start,
                head_only: false,
            }),
    {
        Connection { router, notfound_page, stage: Stage::Start, head_only: false }
    }

    /// Where the connection stands.
    pub fn stage(&self) -> (s: Stage)
        ensures
            s == self@.stage,
    {
        self.stage
    }

    /// Takes up the request held in `buffer`.
    fn take_request(&mut self, buffer: DBuffer) -> (action: Action)
        ensures
            (final(self)@, action@) == on_request(old(self)@, buffer@),
    {
        self.stage = Stage::Finished;
        let text = match buffer.to_string() {
            Ok(t) => t,
            Err(_) => {
                return Action::Abandon;
            },
        };
        let req = match HTTPRequest::from_string(text) {
            Ok(r) => r,
            Err(_) => {
                return Action::Abandon;
            },
        };
        let path = req.get_path();
        match self.router.lookup(path.clone()) {
            Some(Route::Route(resp)) => Action::Send(resp),
            Some(Route::Alias(target)) => {
                self.stage = Stage::Loading;
                self.head_only = req.get_method() == HTTPMethod::Head;
                Action::Load(key_of(target.as_str()))
            },
            None => {
                self.stage = Stage::Loading;
                self.head_only = req.get_method() == HTTPMethod::Head;
                Action::Load(key_of(path.as_str()))
            },
        }
    }

    /// Takes the connection one step on: see `connection_step`.
    pub fn step(&mut self, event: Event) -> (action: Action)
        ensures
            (final(self)@, action@) == connection_step(old(self)@, event@),
    {
        match (self.stage, event) {
            (Stage::Start, Event::Accepted) => {
                self.stage = Stage::Reading;
                Action::ReadRequest
            },
            (Stage::Reading, Event::Received(buffer)) => self.take_request(buffer),
            (Stage::Loading, Event::Loaded(Some(res))) => {
                self.stage = Stage::Finished;
                Action::Send(respond_found(self.head_only, &res))
            },
            (Stage::Loading, Event::Loaded(None)) => match &self.notfound_page {
                Some(page) => {
                    let key = key_of(page.as_str());
                    self.stage = Stage::LoadingFallback;
                    Action::Load(key)
                },
                None => {
                    self.stage = Stage::Finished;
                    Action::Send(respond_missing(self.head_only, None))
                },
            },
            (Stage::LoadingFallback, Event::Loaded(Some(res))) => {
                self.stage = Stage::Finished;
                Action::Send(respond_missing(self.head_only, Some(res.get_content())))
            },
            (Stage::LoadingFallback, Event::Loaded(None)) => {
                self.stage = Stage::Finished;
                Action::Send(respond_missing(self.head_only, None))
            },
            _ => {
                self.stage = Stage::Finished;
                Action::Abandon
            },
        }
    }
}

} // verus!
