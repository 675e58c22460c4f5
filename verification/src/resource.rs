//! Resources and their cache.
//!
//! The library reads no file and no clock. A load is a short exchange: the
//! loader says what it needs to know of the file system, its caller finds
//! that out and answers, and the loader then says what to serve. The rule of
//! the cache stands in `load_step`.

use crate::http::body::clone_bytes;
use crate::http::{MimeSpec, MimeType};
use crate::text::{chars_of, is_text};
use std::path::Path;
use std::time::SystemTime;
use vstd::hash_map::StringHashMap;
use vstd::prelude::*;

verus! {

/// `std::time::SystemTime`: a point in time, carried and never read.
#[verifier::external_type_specification]
#[verifier::external_body]
pub struct ExSystemTime(SystemTime);

/// The extension that `std::path::Path::extension` finds in the path `path`,
/// on the platform that the library is built for.
pub uninterp spec fn path_extension(path: Seq<char>) -> Option<Seq<char>>;

/// Calls `std::path::Path::new` on `path` and `extension` on the result. The
/// extension of a path is a function of its text and is named
/// `path_extension`.
#[verifier::external_body]
fn extension_of(path: &str) -> (r: Option<String>)
    ensures
        match r {
            Some(e) => path_extension(path@) == Some(e@),
            None => path_extension(path@) is None,
        },
{
    Path::new(path).extension().map(|e| e.to_string_lossy().into_owned())
}

/// The media type that goes with a file extension: plain text for a missing
/// or unknown one.
pub open spec fn mime_of_extension(ext: Option<Seq<char>>) -> MimeSpec {
    match ext {
        None => MimeSpec::Plaintext,
        Some(e) => if e == "html"@ || e == "htm"@ {
            MimeSpec::Html
        } else if e == "js"@ {
            MimeSpec::Javascript
        } else if e == "css"@ {
            MimeSpec::Css
        } else if e == "jpeg"@ || e == "jpg"@ {
            MimeSpec::Jpeg
        } else if e == "png"@ {
            MimeSpec::Png
        } else if e == "pdf"@ {
            MimeSpec::Pdf
        } else {
            MimeSpec::Plaintext
        },
    }
}

/// The media type of the file at `path`, by its extension.
pub open spec fn mime_of_path(path: Seq<char>) -> MimeSpec {
    mime_of_extension(path_extension(path))
}

/// The media type that goes with the file extension `ext`.
pub fn mime_for_extension(ext: &Option<String>) -> (m: MimeType)
    ensures
        m@ == mime_of_extension(
            match *ext {
                Some(e) => Some(e@),
                None => None,
            },
        ),
{
    match ext {
        None => MimeType::Plaintext,
        Some(e) => {
            let v = chars_of(e.as_str());
            if is_text(&v, "html") || is_text(&v, "htm") {
                MimeType::Html
            } else if is_text(&v, "js") {
                MimeType::Javascript
            } else if is_text(&v, "css") {
                MimeType::Css
            } else if is_text(&v, "jpeg") || is_text(&v, "jpg") {
                MimeType::Jpeg
            } else if is_text(&v, "png") {
                MimeType::Png
            } else if is_text(&v, "pdf") {
                MimeType::Pdf
            } else {
                MimeType::Plaintext
            }
        },
    }
}

/// The media type of the file at `path`, by its extension.
pub fn mime_for_path(path: &str) -> (m: MimeType)
    ensures
        m@ == mime_of_path(path@),
{
    let ext = extension_of(path);
    mime_for_extension(&ext)
}

/// A file held in memory: its bytes, the path it came from, when it was
/// loaded, and its media type.
pub struct Resource {
    content: Vec<u8>,
    path: String,
    accessed: SystemTime,
    mime_type: MimeType,
}

/// A resource as a mathematical value.
pub struct ResourceSpec {
    pub content: Seq<u8>,
    pub path: Seq<char>,
    pub accessed: SystemTime,
    pub mime_type: MimeSpec,
}

impl View for Resource {
    type V = ResourceSpec;

    closed spec fn view(&self) -> ResourceSpec {
        ResourceSpec {
            content: self.content@,
            path: self.path@,
            accessed: self.accessed,
            mime_type: self.mime_type@,
        }
    }
}

/// The resource that a file at `path` with the bytes `content`, loaded at
/// `accessed`, makes.
pub open spec fn file_resource(path: Seq<char>, content: Seq<u8>, accessed: SystemTime)
    -> ResourceSpec {
    ResourceSpec { content, path, accessed, mime_type: mime_of_path(path) }
}

impl Clone for Resource {
    fn clone(&self) -> (r: Self)
        ensures
            r@ == self@,
    {
        Resource {
            content: clone_bytes(&self.content),
            path: self.path.clone(),
            accessed: self.accessed,
            mime_type: self.mime_type.clone(),
        }
    }
}

impl Resource {
    /// A resource of these parts.
    pub fn new(content: Vec<u8>, path: String, accessed: SystemTime, mime_type: MimeType) -> (r:
        Resource)
        ensures
            r@ == (ResourceSpec {
                content: content@,
                path: path@,
                accessed,
                mime_type: mime_type@,
            }),
    {
        Resource { content, path, accessed, mime_type }
    }

    /// The resource that the file at `path` makes, read at `accessed` with
    /// the bytes `content`. Its media type goes by the extension of `path`.
    pub fn load(path: String, content: Vec<u8>, accessed: SystemTime) -> (r: Resource)
        ensures
            r@ == file_resource(path@, content@, accessed),
    {
        let mime_type = mime_for_path(path.as_str());
        Resource { content, path, accessed, mime_type }
    }

    /// The bytes of the resource.
    pub fn get_content(&self) -> (r: Vec<u8>)
        ensures
            r@ == self@.content,
    {
        clone_bytes(&self.content)
    }

    /// When the resource was loaded.
    pub fn get_accessed(&self) -> (r: SystemTime)
        ensures
            r == self@.accessed,
    {
        self.accessed
    }

    /// The path that the resource came from.
    pub fn get_path(&self) -> (r: String)
        ensures
            r@ == self@.path,
    {
        self.path.clone()
    }

    /// The media type of the resource.
    pub fn get_mime(&self) -> (r: MimeType)
        ensures
            r@ == self@.mime_type,
    {
        self.mime_type.clone()
    }
}

/// Where a load stands.
#[derive(Debug, Clone, Copy, PartialEq, Eq, Structural)]
pub enum LoadStage {
    /// Nothing was asked yet.
    Start,
    /// The ages of the file and of the cached entry were asked for.
    Checking,
    /// The file was asked for, to take the place of a stale entry.
    Reloading,
    /// The file was asked for, and no entry will be made.
    Reading,
    /// The load has ended.
    Finished,
}

/// One load in progress: the path, and where the load stands.
pub struct LoadState {
    pub path: String,
    pub stage: LoadStage,
}

/// What the caller of a load found out.
pub enum LoadEvent {
    /// The load begins.
    Begin,
    /// The ages that were asked for, in nanoseconds: how long ago the file
    /// was modified, then how long ago the entry was loaded. `None` where the
    /// file or the clock gave no answer.
    Ages(Option<(u128, u128)>),
    /// The bytes of the file that was asked for, and the time of the read.
    /// `None` where the file is missing or cannot be read.
    File(Option<(Vec<u8>, SystemTime)>),
}

/// What a load asks of its caller.
pub enum LoadAction {
    /// Measure how long ago the file at `path` was modified and how long ago
    /// `accessed` was, and answer with `LoadEvent::Ages`.
    MeasureAges { path: String, accessed: SystemTime },
    /// Read the file at `path` and answer with `LoadEvent::File`.
    ReadFile { path: String },
    /// The load has ended with this result: a resource, or a miss.
    Return(Option<Resource>),
}

/// A load in progress as a mathematical value.
pub struct LoadStateSpec {
    pub path: Seq<char>,
    pub stage: LoadStage,
}

/// An event of a load as a mathematical value.
pub enum LoadEventSpec {
    Begin,
    Ages(Option<(u128, u128)>),
    File(Option<(Seq<u8>, SystemTime)>),
}

/// An action of a load as a mathematical value.
pub enum LoadActionSpec {
    MeasureAges { path: Seq<char>, accessed: SystemTime },
    ReadFile { path: Seq<char> },
    Return(Option<ResourceSpec>),
}

impl View for LoadState {
    type V = LoadStateSpec;

    open spec fn view(&self) -> LoadStateSpec {
        LoadStateSpec { path: self.path@, stage: self.stage }
    }
}

impl View for LoadEvent {
    type V = LoadEventSpec;

    open spec fn view(&self) -> LoadEventSpec {
        match self {
            LoadEvent::Begin => LoadEventSpec::Begin,
            LoadEvent::Ages(a) => LoadEventSpec::Ages(*a),
            LoadEvent::File(f) => LoadEventSpec::File(file_view(*f)),
        }
    }
}

impl View for LoadAction {
    type V = LoadActionSpec;

    open spec fn view(&self) -> LoadActionSpec {
        match self {
            LoadAction::MeasureAges { path, accessed } => LoadActionSpec::MeasureAges {
                path: path@,
                accessed: *accessed,
            },
            LoadAction::ReadFile { path } => LoadActionSpec::ReadFile { path: path@ },
            LoadAction::Return(r) => LoadActionSpec::Return(
                match r {
                    Some(res) => Some(res@),
                    None => None,
                },
            ),
        }
    }
}

/// A loader as a mathematical value.
pub struct LoaderSpec {
    pub cache: Map<Seq<char>, ResourceSpec>,
    /// The number of entries that the cache was made for.
    pub capacity: usize,
    pub root: Seq<char>,
    pub use_cache: bool,
}

/// Whether a cached entry is stale: the file was modified a shorter time ago
/// than the entry was loaded. Without an answer the entry counts as fresh.
pub open spec fn is_stale(ages: Option<(u128, u128)>) -> bool {
    match ages {
        Some((file_age, entry_age)) => file_age < entry_age,
        None => false,
    }
}

/// One step of a load: the loader, the state and the action after `event`.
///
/// With the cache in use and the path in it, a load first asks for the ages;
/// a stale entry is read anew, takes the place of the old one and is served,
/// and a fresh one is served as it is. Any other load reads the file and
/// serves it without making an entry. A file that cannot be read is a miss
/// and leaves the cache as it was. An event that the state did not ask for
/// ends the load with a miss.
pub open spec fn load_step(loader: LoaderSpec, state: LoadStateSpec, event: LoadEventSpec) -> (
    LoaderSpec,
    LoadStateSpec,
    LoadActionSpec,
) {
    let path = state.path;
    let finished = LoadStateSpec { path, stage: LoadStage::Finished };
    match (state.stage, event) {
        (LoadStage::Start, LoadEventSpec::Begin) => {
            if loader.use_cache && loader.cache.contains_key(path) {
                (
                    loader,
                    LoadStateSpec { path, stage: LoadStage::Checking },
                    LoadActionSpec::MeasureAges { path, accessed: loader.cache[path].accessed },
                )
            } else {
                (
                    loader,
                    LoadStateSpec { path, stage: LoadStage::Reading },
                    LoadActionSpec::ReadFile { path },
                )
            }
        },
        (LoadStage::Checking, LoadEventSpec::Ages(ages)) => {
            if !loader.cache.contains_key(path) {
                (loader, finished, LoadActionSpec::Return(None))
            } else if is_stale(ages) {
                (
                    loader,
                    LoadStateSpec { path, stage: LoadStage::Reloading },
                    LoadActionSpec::ReadFile { path },
                )
            } else {
                (loader, finished, LoadActionSpec::Return(Some(loader.cache[path])))
            }
        },
        (LoadStage::Reloading, LoadEventSpec::File(Some((content, at)))) => {
            let fresh = file_resource(path, content, at);
            (
                LoaderSpec { cache: loader.cache.insert(path, fresh), ..loader },
                finished,
                LoadActionSpec::Return(Some(fresh)),
            )
        },
        (LoadStage::Reading, LoadEventSpec::File(Some((content, at)))) => {
            (loader, finished, LoadActionSpec::Return(Some(file_resource(path, content, at))))
        },
        _ => (loader, finished, LoadActionSpec::Return(None)),
    }
}

/// What a whole load of `path` comes to, where the caller would answer the
/// question for the ages with `ages` and the one for the file with `file`: the
/// loader after it, and what is served.
pub open spec fn load_outcome(
    loader: LoaderSpec,
    path: Seq<char>,
    ages: Option<(u128, u128)>,
    file: Option<(Seq<u8>, SystemTime)>,
) -> (LoaderSpec, Option<ResourceSpec>) {
    if loader.use_cache && loader.cache.contains_key(path) && !is_stale(ages) {
        (loader, Some(loader.cache[path]))
    } else {
        match file {
            None => (loader, None),
            Some((content, at)) => {
                let fresh = file_resource(path, content, at);
                if loader.use_cache && loader.cache.contains_key(path) {
                    (LoaderSpec { cache: loader.cache.insert(path, fresh), ..loader }, Some(fresh))
                } else {
                    (loader, Some(fresh))
                }
            },
        }
    }
}

/// The bytes and the time of a file that was read, as mathematical values.
pub open spec fn file_view(file: Option<(Vec<u8>, SystemTime)>) -> Option<(Seq<u8>, SystemTime)> {
    match file {
        Some((content, at)) => Some((content@, at)),
        None => None,
    }
}

/// What preloading `path` comes to: the loader after it, and the text given
/// back. With the cache in use and a file whose bytes are UTF-8, the file
/// becomes the entry of `path` and its text is given back. Else nothing
/// changes and the text is empty.
pub open spec fn preload_outcome(
    loader: LoaderSpec,
    path: Seq<char>,
    file: Option<(Seq<u8>, SystemTime)>,
) -> (LoaderSpec, Seq<char>) {
    match file {
        Some((content, at)) => if loader.use_cache && vstd::utf8::valid_utf8(content) {
            (
                LoaderSpec {
                    cache: loader.cache.insert(path, file_resource(path, content, at)),
                    ..loader
                },
                vstd::utf8::decode_utf8(content),
            )
        } else {
            (loader, Seq::<char>::empty())
        },
        None => (loader, Seq::<char>::empty()),
    }
}

/// The loader of resources, with its cache.
///
/// The cache maps a path to the resource that was loaded from it. One loader
/// serves all connections: it is shared, not copied, so that an entry made
/// for one connection is there for the next.
pub struct ResourceLoader {
    resource_cache: StringHashMap<Resource>,
    capacity: usize,
    resource_root: String,
    use_cache: bool,
}

/// The view of each resource of `cache`.
pub open spec fn cache_views(cache: Map<Seq<char>, Resource>) -> Map<Seq<char>, ResourceSpec> {
    cache.map_values(|r: Resource| r@)
}

impl View for ResourceLoader {
    type V = LoaderSpec;

    closed spec fn view(&self) -> LoaderSpec {
        LoaderSpec {
            cache: cache_views(self.resource_cache@),
            capacity: self.capacity,
            root: self.resource_root@,
            use_cache: self.use_cache,
        }
    }
}

impl ResourceLoader {
    /// A loader with an empty cache that has room for `capacity` entries,
    /// for the files under `root`. `use_cache` says whether the cache is used
    /// at all.
    pub fn new(capacity: usize, root: String, use_cache: bool) -> (r: ResourceLoader)
        ensures
            r@ == (LoaderSpec { cache: Map::empty(), capacity, root: root@, use_cache }),
    {
        let r = ResourceLoader {
            resource_cache: StringHashMap::with_capacity(capacity),
            capacity,
            resource_root: root,
            use_cache,
        };
        assert(cache_views(r.resource_cache@) == Map::<Seq<char>, ResourceSpec>::empty());
        r
    }

    /// The state in which a load of `path` begins. The first event of a load
    /// is `LoadEvent::Begin`.
    pub fn begin(path: String) -> (state: LoadState)
        ensures
            state@ == (LoadStateSpec { path: path@, stage: LoadStage::Start }),
    {
        LoadState { path, stage: LoadStage::Start }
    }

    /// Takes a load one step on: from the state of the load and what its
    /// caller found out to the next state and what to do next. The rule is
    /// `load_step`; a whole load comes to `load_outcome`.
    pub fn load(&mut self, state: LoadState, event: LoadEvent) -> (r: (LoadState, LoadAction))
        ensures
            (final(self)@, r.0@, r.1@) == load_step(old(self)@, state@, event@),
    {
        let LoadState { path, stage } = state;
        match (stage, event) {
            (LoadStage::Start, LoadEvent::Begin) => {
                if self.use_cache {
                    match self.resource_cache.get(path.as_str()) {
                        Some(entry) => {
                            let accessed = entry.get_accessed();
                            return (
                                LoadState { path: path.clone(), stage: LoadStage::Checking },
                                LoadAction::MeasureAges { path, accessed },
                            );
                        },
                        None => {},
                    }
                }
                (
                    LoadState { path: path.clone(), stage: LoadStage::Reading },
                    LoadAction::ReadFile { path },
                )
            },
            (LoadStage::Checking, LoadEvent::Ages(ages)) => {
                let stale = match ages {
                    Some((file_age, entry_age)) => file_age < entry_age,
                    None => false,
                };
                match self.resource_cache.get(path.as_str()) {
                    None => (
                        LoadState { path, stage: LoadStage::Finished },
                        LoadAction::Return(None),
                    ),
                    Some(entry) => {
                        if stale {
                            (
                                LoadState { path: path.clone(), stage: LoadStage::Reloading },
                                LoadAction::ReadFile { path },
                            )
                        } else {
                            let served = entry.clone();
                            (
                                LoadState { path, stage: LoadStage::Finished },
                                LoadAction::Return(Some(served)),
                            )
                        }
                    },
                }
            },
            (LoadStage::Reloading, LoadEvent::File(Some((content, at)))) => {
                let fresh = Resource::load(path.clone(), content, at);
                let served = fresh.clone();
                let ghost before = self.resource_cache@;
                self.resource_cache.insert(path.clone(), fresh);
                assert(cache_views(before.insert(path@, fresh)) == cache_views(before).insert(
                    path@,
                    fresh@,
                ));
                (LoadState { path, stage: LoadStage::Finished }, LoadAction::Return(Some(served)))
            },
            (LoadStage::Reading, LoadEvent::File(Some((content, at)))) => {
                let fresh = Resource::load(path.clone(), content, at);
                (LoadState { path, stage: LoadStage::Finished }, LoadAction::Return(Some(fresh)))
            },
            _ => (LoadState { path, stage: LoadStage::Finished }, LoadAction::Return(None)),
        }
    }

    /// Puts the file at `path` into the cache ahead of any load, and gives
    /// its text. `file` holds the bytes of the file and the time of the read,
    /// or `None` where the file is missing or cannot be read.
    ///
    /// With the cache out of use, without the file, and with bytes that are
    /// not UTF-8, nothing is cached and the text is empty.
    pub fn preload(&mut self, path: String, file: Option<(Vec<u8>, SystemTime)>) -> (text:
        String)
        ensures
            (final(self)@, text@) == preload_outcome(old(self)@, path@, file_view(file)),
    {
        if !self.use_cache {
            return String::new();
        }
        match file {
            None => String::new(),
            Some((content, at)) => {
                match String::from_utf8(clone_bytes(&content)) {
                    Err(_) => String::new(),
                    Ok(text) => {
                        let fresh = Resource::load(path.clone(), content, at);
                        let ghost before = self.resource_cache@;
                        self.resource_cache.insert(path, fresh);
                        assert(cache_views(before.insert(path@, fresh)) == cache_views(
                            before,
                        ).insert(path@, fresh@));
                        text
                    },
                }
            },
        }
    }

    /// Whether the cache is in use.
    pub fn uses_cache(&self) -> (b: bool)
        ensures
            b == self@.use_cache,
    {
        self.use_cache
    }

    /// The directory under which the files to preload stand.
    pub fn root(&self) -> (r: String)
        ensures
            r@ == self@.root,
    {
        self.resource_root.clone()
    }
}

/// A load serves what `load_outcome` says: the steps of a load, with the
/// answers `ages` and `file` given where they are asked for, end with its
/// result and leave its loader.
pub proof fn lemma_load_steps(
    loader: LoaderSpec,
    path: Seq<char>,
    ages: Option<(u128, u128)>,
    file: Option<(Seq<u8>, SystemTime)>,
)
    ensures
        ({
            let start = LoadStateSpec { path, stage: LoadStage::Start };
            let (l1, s1, a1) = load_step(loader, start, LoadEventSpec::Begin);
            let (l2, s2, a2) = match a1 {
                LoadActionSpec::MeasureAges { .. } => load_step(l1, s1, LoadEventSpec::Ages(ages)),
                _ => load_step(l1, s1, LoadEventSpec::File(file)),
            };
            let (l3, s3, a3) = match a2 {
                LoadActionSpec::ReadFile { .. } => load_step(l2, s2, LoadEventSpec::File(file)),
                _ => (l2, s2, a2),
            };
            a3 == LoadActionSpec::Return(load_outcome(loader, path, ages, file).1) && l3
                == load_outcome(loader, path, ages, file).0
        }),
{
}

/// The cache serves new content exactly when the entry is stale: with the
/// cache in use and `path` in it, and a file that can be read, a load serves
/// the file as it now is if the file was modified a shorter time ago than the
/// entry was loaded, and the entry as it was cached if not.
pub proof fn lemma_reload_exactly_when_stale(
    loader: LoaderSpec,
    path: Seq<char>,
    file_age: u128,
    entry_age: u128,
    content: Seq<u8>,
    at: SystemTime,
)
    requires
        loader.use_cache,
        loader.cache.contains_key(path),
    ensures
        ({
            let served = load_outcome(
                loader,
                path,
                Some((file_age, entry_age)),
                Some((content, at)),
            ).1;
            &&& file_age < entry_age ==> served == Some(file_resource(path, content, at))
            &&& !(file_age < entry_age) ==> served == Some(loader.cache[path])
        }),
{
}

} // verus!
