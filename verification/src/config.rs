//! The settings of the servers, and what they come to where a setting is
//! left out.

use crate::http::header::string_views;
use crate::route::{put, Entry, Router};
use crate::text::{chars_of, find, find_from, slice_of, split, split_char, string_of, views};
use vstd::prelude::*;
use vstd::string::StringExecFns;

verus! {

/// The settings of a process: a plain server, an encrypted one, or both.
pub struct Config {
    pub http: Option<HTTPConfig>,
    pub ssl: Option<SslConfig>,
}

/// The settings of the plain server.
pub struct HTTPConfig {
    pub port: usize,
    pub ip: String,
    pub threads: Option<usize>,
    pub resources: Resource,
    pub logfile: Option<String>,
    pub allowed_methods: Option<Vec<String>>,
}

/// The settings of the encrypted server.
pub struct SslConfig {
    pub private_key: String,
    pub certificate_chain: String,
    pub port: usize,
    pub ip: String,
    pub threads: Option<usize>,
    pub resources: Resource,
    pub logfile: Option<String>,
    pub allowed_methods: Option<Vec<String>>,
}

/// The settings of what a server serves.
pub struct Resource {
    pub root: String,
    pub index: Option<String>,
    /// Redirects, each written `from:to`.
    pub routes: Option<Vec<String>>,
    /// Aliases, each written `from:to`.
    pub aliases: Option<Vec<String>>,
    pub resource_cache: Option<bool>,
    pub cache_capacity: Option<usize>,
    pub notfound_page: Option<String>,
}

/// The redirect that the text `s` writes: what stands before its first `:`,
/// and all that stands after it. A text without `:`, or with nothing on one
/// side of it, writes none.
pub open spec fn route_entry(s: Seq<char>) -> Option<Entry> {
    let i = find(s, seq![':']);
    if 0 < i && i + 1 < s.len() {
        Some((s.take(i), s.skip(i + 1)))
    } else {
        None
    }
}

/// The alias that the text `s` writes: what stands before its first `:`, and
/// what stands between that and the next `:`, or the end. A text without
/// `:`, or with nothing on one side of it, writes none.
pub open spec fn alias_entry(s: Seq<char>) -> Option<Entry> {
    let parts = split(s, seq![':']);
    if parts.len() >= 2 && parts[0].len() > 0 && parts[1].len() > 0 {
        Some((parts[0], parts[1]))
    } else {
        None
    }
}

/// The map that setting the redirects `texts` one after the other gives; a
/// text that writes none is passed over.
pub open spec fn routes_of(texts: Seq<Seq<char>>) -> Seq<Entry>
    decreases texts.len(),
{
    if texts.len() == 0 {
        seq![]
    } else {
        let head = routes_of(texts.drop_last());
        match route_entry(texts.last()) {
            Some((from, to)) => put(head, from, to),
            None => head,
        }
    }
}

/// The map that setting the aliases `texts` one after the other gives; a
/// text that writes none is passed over.
pub open spec fn aliases_of(texts: Seq<Seq<char>>) -> Seq<Entry>
    decreases texts.len(),
{
    if texts.len() == 0 {
        seq![]
    } else {
        let head = aliases_of(texts.drop_last());
        match alias_entry(texts.last()) {
            Some((from, to)) => put(head, from, to),
            None => head,
        }
    }
}

/// The texts of a list that may be left out: none where it is.
pub open spec fn listed(list: Option<Vec<String>>) -> Seq<Seq<char>> {
    match list {
        Some(l) => string_views(l@),
        None => seq![],
    }
}

/// Reads a redirect written `from:to`.
pub fn parse_route(entry: &str) -> (r: Option<(String, String)>)
    ensures
        match r {
            Some((from, to)) => route_entry(entry@) == Some((from@, to@)),
            None => route_entry(entry@) is None,
        },
{
    let v = chars_of(entry);
    let mut sep: Vec<char> = Vec::new();
    sep.push(':');
    assert(sep@ == seq![':']);
    assert(v@.skip(0) == v@);
    let at = find_from(&v, &sep, 0);
    if 0 < at && at < v.len() && at + 1 < v.len() {
        let from = slice_of(&v, 0, at);
        let to = slice_of(&v, at + 1, v.len());
        assert(from@ == v@.take(at as int));
        assert(to@ == v@.skip(at + 1));
        Some((string_of(&from), string_of(&to)))
    } else {
        None
    }
}

/// Reads an alias written `from:to`.
pub fn parse_alias(entry: &str) -> (r: Option<(String, String)>)
    ensures
        match r {
            Some((from, to)) => alias_entry(entry@) == Some((from@, to@)),
            None => alias_entry(entry@) is None,
        },
{
    let v = chars_of(entry);
    let parts = split_char(&v, ':');
    if parts.len() >= 2 {
        assert(views(parts@)[0] == parts@[0]@);
        assert(views(parts@)[1] == parts@[1]@);
        if parts[0].len() > 0 && parts[1].len() > 0 {
            return Some((string_of(&parts[0]), string_of(&parts[1])));
        }
    }
    None
}

/// The number of threads of a server that sets none.
pub const DEFAULT_THREADS: usize = 4;

/// The number of entries that a cache has room for where none is set.
pub const DEFAULT_CACHE_CAPACITY: usize = 10;

/// The number of threads to run: 4 where none is set.
pub fn thread_count(threads: Option<usize>) -> (n: usize)
    ensures
        n == match threads {
            Some(t) => t,
            None => DEFAULT_THREADS,
        },
{
    match threads {
        Some(t) => t,
        None => DEFAULT_THREADS,
    }
}

/// The file to log to: the one of the command line, else the one of the
/// settings, else `/var/log/rsweb/latest.log`.
pub fn log_file(from_cli: &Option<String>, from_config: &Option<String>) -> (path: String)
    ensures
        path@ == match *from_cli {
            Some(p) => p@,
            None => match *from_config {
                Some(p) => p@,
                None => "/var/log/rsweb/latest.log"@,
            },
        },
{
    match from_cli {
        Some(p) => p.clone(),
        None => match from_config {
            Some(p) => p.clone(),
            None => String::from_str("/var/log/rsweb/latest.log"),
        },
    }
}

impl Resource {
    /// The index page: `/index.html` where none is set.
    pub fn index_page(&self) -> (page: String)
        ensures
            page@ == match self.index {
                Some(p) => p@,
                None => "/index.html"@,
            },
    {
        match &self.index {
            Some(p) => p.clone(),
            None => String::from_str("/index.html"),
        }
    }

    /// Whether the cache is in use: it is where nothing is set.
    pub fn uses_cache(&self) -> (b: bool)
        ensures
            b == match self.resource_cache {
                Some(c) => c,
                None => true,
            },
    {
        match self.resource_cache {
            Some(c) => c,
            None => true,
        }
    }

    /// The number of entries that the cache has room for: 10 where none is
    /// set.
    pub fn capacity(&self) -> (n: usize)
        ensures
            n == match self.cache_capacity {
                Some(c) => c,
                None => DEFAULT_CACHE_CAPACITY,
            },
    {
        match self.cache_capacity {
            Some(c) => c,
            None => DEFAULT_CACHE_CAPACITY,
        }
    }

    /// The router of these settings: the redirects and the aliases are set
    /// one after the other, in the order in which they are listed.
    pub fn router(&self) -> (r: Router)
        ensures
            r@.routes == routes_of(listed(self.routes)),
            r@.aliases == aliases_of(listed(self.aliases)),
    {
        let mut r = Router::new(self.index_page());
        match &self.routes {
            None => {},
            Some(list) => {
                let ghost texts = string_views(list@);
                let mut i: usize = 0;
                assert(texts.take(0).len() == 0);
                while i < list.len()
                    invariant
                        i <= list.len(),
                        texts == string_views(list@),
                        r@.routes == routes_of(texts.take(i as int)),
                        r@.aliases == Seq::<Entry>::empty(),
                    decreases list.len() - i,
                {
                    assert(texts.take(i + 1).drop_last() == texts.take(i as int));
                    assert(texts.take(i + 1).last() == list@[i as int]@);
                    match parse_route(list[i].as_str()) {
                        Some((from, to)) => {
                            r.route(from, to);
                        },
                        None => {},
                    }
                    i += 1;
                }
                assert(texts.take(list.len() as int) == texts);
            },
        }
        match &self.aliases {
            None => {},
            Some(list) => {
                let ghost texts = string_views(list@);
                let ghost routes = r@.routes;
                let mut i: usize = 0;
                assert(texts.take(0).len() == 0);
                while i < list.len()
                    invariant
                        i <= list.len(),
                        texts == string_views(list@),
                        r@.aliases == aliases_of(texts.take(i as int)),
                        r@.routes == routes,
                    decreases list.len() - i,
                {
                    assert(texts.take(i + 1).drop_last() == texts.take(i as int));
                    assert(texts.take(i + 1).last() == list@[i as int]@);
                    match parse_alias(list[i].as_str()) {
                        Some((from, to)) => {
                            r.alias(from, to);
                        },
                        None => {},
                    }
                    i += 1;
                }
                assert(texts.take(list.len() as int) == texts);
            },
        }
        r
    }
}

} // verus!
