//! The router: redirects and aliases, keyed by wildcard patterns.

use crate::http::body::{Body, BodySpec};
use crate::http::header::{HTTPResponseHeaders, ResponseHeaderSpec};
use crate::http::response::{HTTPResponse, ResponseSpec};
use crate::http::StatusCode;
use crate::RSWEB_SERVER_STR;
use vstd::prelude::*;
use vstd::string::StringExecFns;
use wildmatch::WildMatch;

verus! {

/// Whether the wildcard pattern `pattern` matches the whole of `text`: `?`
/// stands for any one character, `*` for any run of characters, the empty run
/// too, and every other character for itself.
pub open spec fn wildcard_matches(pattern: Seq<char>, text: Seq<char>) -> bool
    decreases pattern.len(), text.len(),
{
    if pattern.len() == 0 {
        text.len() == 0
    } else if pattern[0] == '*' {
        wildcard_matches(pattern.drop_first(), text) || (text.len() > 0 && wildcard_matches(
            pattern,
            text.drop_first(),
        ))
    } else {
        text.len() > 0 && (pattern[0] == '?' || pattern[0] == text[0]) && wildcard_matches(
            pattern.drop_first(),
            text.drop_first(),
        )
    }
}

/// Calls `wildmatch::WildMatch::new` on `pattern` and `matches` on `text`.
/// The crate documents the match as one of the whole text, with `?` for
/// exactly one character and `*` for any number of characters, and without
/// escapes; the contract says so.
#[verifier::external_body]
fn wild_match(pattern: &str, text: &str) -> (b: bool)
    ensures
        b == wildcard_matches(pattern@, text@),
{
    WildMatch::new(pattern).matches(text)
}

/// What the router makes of a path.
pub enum Route {
    /// A redirect: this response goes to the client as it is.
    Route(HTTPResponse),
    /// An alias: the resource at this path is served in place of the one
    /// asked for.
    Alias(String),
}

/// An outcome of the router as a mathematical value.
pub enum RouteSpec {
    Route(ResponseSpec),
    Alias(Seq<char>),
}

impl View for Route {
    type V = RouteSpec;

    open spec fn view(&self) -> RouteSpec {
        match self {
            Route::Route(r) => RouteSpec::Route(r@),
            Route::Alias(a) => RouteSpec::Alias(a@),
        }
    }
}

/// One entry of a map of the router: a pattern and its target.
pub type Entry = (Seq<char>, Seq<char>);

/// The view of each entry of `entries`.
pub open spec fn entry_views(entries: Seq<(String, String)>) -> Seq<Entry> {
    entries.map_values(|e: (String, String)| (e.0@, e.1@))
}

/// Whether no pattern stands twice in `entries`.
pub open spec fn distinct_keys(entries: Seq<Entry>) -> bool {
    forall|i: int, j: int|
        0 <= i < j < entries.len() ==> (#[trigger] entries[i]).0 != (#[trigger] entries[j]).0
}

/// The position of the entry of `entries` with the pattern `key`, or
/// `entries.len()` where there is none.
pub open spec fn key_index(entries: Seq<Entry>, key: Seq<char>) -> int
    decreases entries.len(),
{
    if entries.len() == 0 || entries[0].0 == key {
        0
    } else {
        1 + key_index(entries.drop_first(), key)
    }
}

/// `entries` with `key` set to `value`: an entry with that pattern keeps its
/// place and takes the new target; else a new entry comes last.
pub open spec fn put(entries: Seq<Entry>, key: Seq<char>, value: Seq<char>) -> Seq<Entry> {
    let i = key_index(entries, key);
    if 0 <= i < entries.len() {
        entries.update(i, (key, value))
    } else {
        entries.push((key, value))
    }
}

/// The target of the first entry of `entries` whose pattern matches `path`.
pub open spec fn first_match(entries: Seq<Entry>, path: Seq<char>) -> Option<Seq<char>>
    decreases entries.len(),
{
    if entries.len() == 0 {
        None
    } else if wildcard_matches(entries[0].0, path) {
        Some(entries[0].1)
    } else {
        first_match(entries.drop_first(), path)
    }
}

/// The response that redirects to `target`: status 301, the headers
/// `Location` and `Server`, and an empty body.
pub open spec fn redirect(target: Seq<char>) -> ResponseSpec {
    ResponseSpec {
        status: StatusCode::MovedPermanently,
        header: seq![
            ResponseHeaderSpec::Location(target),
            ResponseHeaderSpec::Server(RSWEB_SERVER_STR@),
        ],
        body: BodySpec { content: seq![], encoding: None },
    }
}

/// What the router with the redirects `routes` and the aliases `aliases`
/// makes of `path`: the first redirect that matches, else the first alias
/// that matches, else nothing.
pub open spec fn resolve(routes: Seq<Entry>, aliases: Seq<Entry>, path: Seq<char>) -> Option<
    RouteSpec,
> {
    match first_match(routes, path) {
        Some(target) => Some(RouteSpec::Route(redirect(target))),
        None => match first_match(aliases, path) {
            Some(target) => Some(RouteSpec::Alias(target)),
            None => None,
        },
    }
}

/// `key_index` stays inside `entries` or is its length, and no entry before
/// it has the pattern.
pub proof fn lemma_key_index(entries: Seq<Entry>, key: Seq<char>)
    ensures
        0 <= key_index(entries, key) <= entries.len(),
        key_index(entries, key) < entries.len() ==> entries[key_index(entries, key)].0 == key,
        forall|j: int| 0 <= j < key_index(entries, key) ==> (#[trigger] entries[j]).0 != key,
    decreases entries.len(),
{
    if entries.len() == 0 || entries[0].0 == key {
    } else {
        lemma_key_index(entries.drop_first(), key);
        let rest = entries.drop_first();
        assert forall|j: int| 0 <= j < key_index(entries, key) implies (#[trigger] entries[j]).0
            != key by {
            if j > 0 {
                assert(entries[j] == rest[j - 1]);
            }
        }
    }
}

/// Setting a pattern keeps the patterns distinct.
pub proof fn lemma_put_distinct(entries: Seq<Entry>, key: Seq<char>, value: Seq<char>)
    requires
        distinct_keys(entries),
    ensures
        distinct_keys(put(entries, key, value)),
{
    lemma_key_index(entries, key);
    let after = put(entries, key, value);
    let k = key_index(entries, key);
    assert forall|i: int, j: int| 0 <= i < j < after.len() implies (#[trigger] after[i]).0 != (
    #[trigger] after[j]).0 by {
        if k < entries.len() {
            assert(after[i].0 == entries[i].0);
            assert(after[j].0 == entries[j].0);
        } else if j < entries.len() {
            assert(after[i] == entries[i]);
            assert(after[j] == entries[j]);
        } else {
            assert(after[i] == entries[i]);
        }
    }
}

/// Sets `key` to `value` in `entries`.
fn put_entry(entries: &mut Vec<(String, String)>, key: String, value: String)
    ensures
        entry_views(final(entries)@) == put(entry_views(old(entries)@), key@, value@),
{
    let ghost all = entry_views(entries@);
    let mut i: usize = 0;
    assert(all.skip(0) == all);
    while i < entries.len()
        invariant
            i <= entries.len(),
            entries@ == old(entries)@,
            all == entry_views(entries@),
            key_index(all, key@) == i + key_index(all.skip(i as int), key@),
        decreases entries.len() - i,
    {
        assert(all.skip(i as int)[0] == all[i as int]);
        assert(all.skip(i as int).drop_first() == all.skip(i + 1));
        if entries[i].0 == key {
            entries.set(i, (key, value));
            assert(entry_views(entries@) == all.update(i as int, (key@, value@)));
            return;
        }
        i += 1;
    }
    assert(entry_views(entries@.push((key, value))) == all.push((key@, value@)));
    entries.push((key, value));
}

/// The target of the first entry of `entries` whose pattern matches `path`.
fn find_match<'a>(entries: &'a Vec<(String, String)>, path: &str) -> (r: Option<&'a String>)
    ensures
        match r {
            Some(target) => first_match(entry_views(entries@), path@) == Some(target@),
            None => first_match(entry_views(entries@), path@) is None,
        },
{
    let ghost all = entry_views(entries@);
    let mut i: usize = 0;
    assert(all.skip(0) == all);
    while i < entries.len()
        invariant
            i <= entries.len(),
            all == entry_views(entries@),
            first_match(all, path@) == first_match(all.skip(i as int), path@),
        decreases entries.len() - i,
    {
        assert(all.skip(i as int)[0] == all[i as int]);
        assert(all.skip(i as int).drop_first() == all.skip(i + 1));
        if wild_match(entries[i].0.as_str(), path) {
            return Some(&entries[i].1);
        }
        i += 1;
    }
    None
}

/// A copy of the entries `entries`.
fn clone_entries(entries: &Vec<(String, String)>) -> (r: Vec<(String, String)>)
    ensures
        entry_views(r@) == entry_views(entries@),
{
    let mut r: Vec<(String, String)> = Vec::new();
    let mut i: usize = 0;
    while i < entries.len()
        invariant
            i <= entries.len(),
            entry_views(r@) == entry_views(entries@).take(i as int),
        decreases entries.len() - i,
    {
        let e = (entries[i].0.clone(), entries[i].1.clone());
        assert(entry_views(r@.push(e)) == entry_views(r@).push((e.0@, e.1@)));
        r.push(e);
        i += 1;
    }
    assert(entry_views(entries@).take(entries.len() as int) == entry_views(entries@));
    r
}

/// The router: a map of redirects and a map of aliases. Each map keeps its
/// entries in the order in which their patterns were first set, and holds no
/// pattern twice.
pub struct Router {
    routemap: Vec<(String, String)>,
    aliasmap: Vec<(String, String)>,
}

/// A router as a mathematical value.
pub struct RouterSpec {
    pub routes: Seq<Entry>,
    pub aliases: Seq<Entry>,
}

impl View for Router {
    type V = RouterSpec;

    closed spec fn view(&self) -> RouterSpec {
        RouterSpec { routes: entry_views(self.routemap@), aliases: entry_views(self.aliasmap@) }
    }
}

impl Clone for Router {
    fn clone(&self) -> (r: Self)
        ensures
            r@ == self@,
    {
        proof {
            use_type_invariant(self);
        }
        Router {
            routemap: clone_entries(&self.routemap),
            aliasmap: clone_entries(&self.aliasmap),
        }
    }
}

impl Router {
    #[verifier::type_invariant]
    spec fn well_formed(self) -> bool {
        distinct_keys(entry_views(self.routemap@)) && distinct_keys(entry_views(self.aliasmap@))
    }

    /// A router without entries. The index page is not an entry: give it an
    /// alias where `/` shall serve it.
    pub fn new(index: String) -> (r: Router)
        ensures
            r@ == (RouterSpec { routes: seq![], aliases: seq![] }),
    {
        let r = Router { routemap: Vec::new(), aliasmap: Vec::new() };
        assert(entry_views(r.routemap@) == Seq::<Entry>::empty());
        assert(entry_views(r.aliasmap@) == Seq::<Entry>::empty());
        r
    }

    /// Sets the redirect of the pattern `from` to `to`. A pattern that was set
    /// before keeps its place and takes the new target.
    pub fn route(&mut self, from: String, to: String)
        ensures
            final(self)@.routes == put(old(self)@.routes, from@, to@),
            final(self)@.aliases == old(self)@.aliases,
            distinct_keys(final(self)@.routes),
            distinct_keys(final(self)@.aliases),
    {
        proof {
            use_type_invariant(&*self);
            lemma_put_distinct(entry_views(self.routemap@), from@, to@);
        }
        let mut entries: Vec<(String, String)> = Vec::new();
        assert(entry_views(entries@) == Seq::<Entry>::empty());
        core::mem::swap(&mut self.routemap, &mut entries);
        put_entry(&mut entries, from, to);
        self.routemap = entries;
    }

    /// Sets the alias of the pattern `key` to `alias`. A pattern that was set
    /// before keeps its place and takes the new target.
    pub fn alias(&mut self, key: String, alias: String)
        ensures
            final(self)@.aliases == put(old(self)@.aliases, key@, alias@),
            final(self)@.routes == old(self)@.routes,
            distinct_keys(final(self)@.routes),
            distinct_keys(final(self)@.aliases),
    {
        proof {
            use_type_invariant(&*self);
            lemma_put_distinct(entry_views(self.aliasmap@), key@, alias@);
        }
        let mut entries: Vec<(String, String)> = Vec::new();
        assert(entry_views(entries@) == Seq::<Entry>::empty());
        core::mem::swap(&mut self.aliasmap, &mut entries);
        put_entry(&mut entries, key, alias);
        self.aliasmap = entries;
    }

    /// Looks `pattern` up, the path of a request. The redirects come first:
    /// the first whose pattern matches gives a 301 response to its target.
    /// Else the first alias whose pattern matches gives its target. "First"
    /// is by the order in which the patterns were first set.
    pub fn lookup(&self, pattern: String) -> (r: Option<Route>)
        ensures
            match r {
                Some(route) => resolve(self@.routes, self@.aliases, pattern@) == Some(route@),
                None => resolve(self@.routes, self@.aliases, pattern@) is None,
            },
    {
        match find_match(&self.routemap, pattern.as_str()) {
            Some(target) => {
                let mut header: Vec<HTTPResponseHeaders> = Vec::new();
                header.push(HTTPResponseHeaders::Location(target.clone()));
                header.push(HTTPResponseHeaders::Server(String::from_str(RSWEB_SERVER_STR)));
                assert(crate::http::response::response_header_views(header@) == seq![
                    ResponseHeaderSpec::Location(target@),
                    ResponseHeaderSpec::Server(RSWEB_SERVER_STR@),
                ]);
                let body = Body::from_bytes(Vec::new());
                Some(Route::Route(HTTPResponse::new(StatusCode::MovedPermanently, header, body)))
            },
            None => match find_match(&self.aliasmap, pattern.as_str()) {
                Some(target) => Some(Route::Alias(target.clone())),
                None => None,
            },
        }
    }
}

} // verus!
