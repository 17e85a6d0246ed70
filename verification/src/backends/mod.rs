//! The per-source backends and their common capability interface.
//!
//! A backend holds an immutable snapshot of the page text fetched at
//! construction and never refetches implicitly. The network itself stays
//! outside this crate: a driver fetches each URL a backend names (through the
//! retry layer of [`crate::fetch`]) and hands the status and body in as a
//! [`FetchResponse`]; everything the backend then does with the text is
//! verified here, with the CSS selection, regular expressions and timestamp
//! parsing behind the trusted wrappers of [`crate::html`],
//! [`crate::relib`] and [`crate::timestamp`].
use crate::chapter::Chapter;
use crate::errors::BackendError;
use crate::order::ChapterOrderingFn;
use crate::order::OrderingMethod;
use vstd::prelude::*;

pub mod freewebnovel;
pub mod libread;
pub mod royalroad;

pub use freewebnovel::FreeWebNovel;
pub use libread::LibRead;
pub use royalroad::RoyalRoad;

verus! {

/// One HTTP response, as the fetch driver hands it in: the status code and
/// the body text.
pub struct FetchResponse {
    /// The HTTP status code.
    pub status: u16,
    /// The response body.
    pub body: String,
}

impl FetchResponse {
    /// A 2xx status.
    pub open spec fn is_success(&self) -> bool {
        200 <= self.status < 300
    }

    /// Whether the status is a 2xx success.
    pub fn success(&self) -> (r: bool)
        ensures
            r == self.is_success(),
    {
        200 <= self.status && self.status < 300
    }
}

/// The bodies of a response list.
pub open spec fn bodies_of(rs: Seq<FetchResponse>) -> Seq<Seq<char>> {
    rs.map_values(|r: FetchResponse| r.body@)
}

/// Holds when every response in the list is a success.
pub open spec fn all_success(rs: Seq<FetchResponse>) -> bool {
    forall|i: int| 0 <= i < rs.len() ==> (#[trigger] rs[i]).is_success()
}

/// A lightweight chapter descriptor: 1-based position and title. Enough to
/// detect collisions or renumbering against local storage without fetching
/// chapter bodies.
pub type ChapterListElem = (usize, String);

/// The view of a chapter list.
pub open spec fn list_view(l: Seq<ChapterListElem>) -> Seq<(usize, Seq<char>)> {
    l.map_values(|e: ChapterListElem| (e.0, e.1@))
}

/// The capability interface every source backend implements: detection
/// patterns, construction from fetched pages, metadata accessors, chapter
/// listing, per-chapter work and ordering. Everything network-shaped takes
/// or returns plain values; the driver does the fetching.
pub trait Backend: Sized {
    /// The URL patterns this backend claims.
    spec fn spec_regexps() -> Seq<Seq<char>>;

    /// The stable name of this backend kind.
    spec fn spec_name() -> Seq<char>;

    /// Which attribute this backend orders chapters by.
    spec fn spec_ordering() -> OrderingMethod;

    /// How many pages construction consumes.
    spec fn spec_pages_needed() -> int;

    /// The fiction URL this instance was built for.
    spec fn spec_url(&self) -> Seq<char>;

    /// The page texts this instance holds.
    spec fn spec_pages(&self) -> Seq<Seq<char>>;

    /// Internal consistency of an instance.
    spec fn wf(&self) -> bool;

    /// The fiction title, when the expected markup is present.
    spec fn spec_title(&self) -> Option<Seq<char>>;

    /// The URL-derived stable identifier, when the URL has the expected
    /// shape.
    spec fn spec_identifier(&self) -> Option<Seq<char>>;

    /// The cover image URL, when the expected markup is present.
    spec fn spec_cover_url(&self) -> Option<Seq<char>>;

    /// The author list, when the expected markup is present.
    spec fn spec_authors(&self) -> Option<Seq<Seq<char>>>;

    /// The chapter listing, when the expected markup is present.
    spec fn spec_chapter_list(&self) -> Option<Seq<(usize, Seq<char>)>>;

    /// Whether `n` is a listed 1-based chapter position.
    spec fn spec_in_range(&self, n: int) -> bool;

    /// The URL of the chapter at a listed position, when the listing carries
    /// one.
    spec fn spec_chapter_url(&self, n: int) -> Option<Seq<char>>;

    /// The chapter built from the fetched page text for position `n`, when
    /// everything on it parses.
    spec fn spec_chapter_from(&self, n: int, page: Seq<char>) -> Option<crate::chapter::ChapterView>;

    /// The URL patterns this backend claims, for the dispatcher.
    fn get_backend_regexps() -> (r: Vec<String>)
        ensures
            r.deep_view() == Self::spec_regexps(),
    ;

    /// A short stable identifier for this backend kind, usable as a durable
    /// tag.
    fn get_backend_name() -> (r: &'static str)
        ensures
            r@ == Self::spec_name(),
    ;

    /// A comparator recovering true chapter order independent of the
    /// positional index.
    fn get_ordering_function() -> (r: ChapterOrderingFn)
        ensures
            r.spec_method() == Self::spec_ordering(),
    ;

    /// The URLs whose pages construction needs, in the order [`Backend::new`]
    /// expects them.
    fn initial_page_urls(url: &str) -> (r: Vec<String>)
        ensures
            r.deep_view().len() == Self::spec_pages_needed(),
    ;

    /// Builds an instance from the fetched initial pages: succeeds exactly
    /// when the right number of pages arrived and every one is a success,
    /// failing with the first non-success status otherwise.
    fn new(url: &str, responses: Vec<FetchResponse>) -> (r: Result<Self, BackendError>)
        ensures
            match r {
                Ok(b) => {
                    &&& b.wf()
                    &&& b.spec_url() == url@
                    &&& responses@.len() == Self::spec_pages_needed()
                    &&& all_success(responses@)
                    &&& b.spec_pages() == bodies_of(responses@)
                },
                Err(e) => {
                    &&& !(responses@.len() == Self::spec_pages_needed() && all_success(
                        responses@,
                    ))
                    &&& (e is RequestFailed || e is ParseError)
                    &&& (e is ParseError ==> responses@.len() != Self::spec_pages_needed())
                    &&& (e matches BackendError::RequestFailed { status: st, .. } ==> {
                        &&& responses@.len() == Self::spec_pages_needed()
                        &&& exists|i: int|
                            #![trigger responses@[i]]
                            {
                                &&& 0 <= i < responses@.len()
                                &&& !responses@[i].is_success()
                                &&& responses@[i].status == st
                                &&& forall|t: int|
                                    0 <= t < i ==> (#[trigger] responses@[t]).is_success()
                            }
                    })
                },
            },
            responses@.len() == Self::spec_pages_needed() && all_success(responses@) ==> r is Ok,
    ;

    /// The fiction URL this backend was constructed for.
    fn url(&self) -> (r: String)
        requires
            self.wf(),
        ensures
            r@ == self.spec_url(),
    ;

    /// The fiction title.
    fn title(&self) -> (r: Result<String, BackendError>)
        requires
            self.wf(),
        ensures
            match r {
                Ok(t) => self.spec_title() == Some(t@),
                Err(e) => self.spec_title() is None && e is ParseError,
            },
    ;

    /// A stable identifier derived from the URL alone — no network access —
    /// that survives a title change.
    fn immutable_identifier(&self) -> (r: Result<String, BackendError>)
        requires
            self.wf(),
        ensures
            match r {
                Ok(t) => self.spec_identifier() == Some(t@),
                Err(e) => self.spec_identifier() is None && e is ParseError,
            },
    ;

    /// The cover image URL.
    fn cover_url(&self) -> (r: Result<String, BackendError>)
        requires
            self.wf(),
        ensures
            match r {
                Ok(t) => self.spec_cover_url() == Some(t@),
                Err(e) => self.spec_cover_url() is None && e is ParseError,
            },
    ;

    /// The authors of the fiction.
    fn get_authors(&self) -> (r: Result<Vec<String>, BackendError>)
        requires
            self.wf(),
        ensures
            match r {
                Ok(v) => self.spec_authors() == Some(v.deep_view()),
                Err(e) => self.spec_authors() is None && e is ParseError,
            },
    ;

    /// The chapter listing visible on the already-fetched page(s), without
    /// fetching chapter bodies. Its entries are the 1-based positions in
    /// ascending order, each with its title.
    fn get_chapter_list(&self) -> (r: Result<Vec<ChapterListElem>, BackendError>)
        requires
            self.wf(),
        ensures
            match r {
                Ok(v) => self.spec_chapter_list() == Some(list_view(v@)),
                Err(e) => self.spec_chapter_list() is None && e is ParseError,
            },
            self.spec_chapter_list() matches Some(l) ==> (forall|n: int|
                self.spec_in_range(n) <==> 1 <= n <= l.len()),
            self.spec_chapter_list() matches Some(l) ==> (forall|i: int|
                0 <= i < l.len() ==> (#[trigger] l[i]).0 == i + 1),
    ;

    /// The URL to fetch for the chapter at 1-based position `n`: fails with
    /// `UnknownChapter(n)` exactly when `n` is zero or past the listing.
    fn chapter_url(&self, chapter_number: usize) -> (r: Result<String, BackendError>)
        requires
            self.wf(),
        ensures
            match r {
                Ok(u) => self.spec_in_range(chapter_number as int) && self.spec_chapter_url(
                    chapter_number as int,
                ) == Some(u@),
                Err(e) => match e {
                    BackendError::UnknownChapter(k) => k == chapter_number && !self.spec_in_range(
                        chapter_number as int,
                    ),
                    BackendError::ParseError(_) => self.spec_in_range(chapter_number as int)
                        && self.spec_chapter_url(chapter_number as int) is None,
                    _ => false,
                },
            },
    ;

    /// Builds the chapter at position `n` out of its fetched page: the
    /// position is revalidated, a non-success response fails with its
    /// status, and the extracted fields land in a canonicalised
    /// [`Chapter`] whose `index` is `n` and whose `fiction_url` is this
    /// backend's URL.
    fn chapter_from_response(&self, chapter_number: usize, response: &FetchResponse) -> (r: Result<
        Chapter,
        BackendError,
    >)
        requires
            self.wf(),
        ensures
            match r {
                Ok(c) => {
                    &&& self.spec_in_range(chapter_number as int)
                    &&& response.is_success()
                    &&& self.spec_chapter_from(chapter_number as int, response.body@) == Some(c@)
                    &&& c@.index == chapter_number
                    &&& c@.fiction_url == self.spec_url()
                    &&& c.wf()
                },
                Err(e) => match e {
                    BackendError::UnknownChapter(k) => k == chapter_number && !self.spec_in_range(
                        chapter_number as int,
                    ),
                    BackendError::RequestFailed { status, .. } => self.spec_in_range(
                        chapter_number as int,
                    ) && !response.is_success() && status == response.status,
                    BackendError::ParseError(_) | BackendError::DateParseError(_) => self
                        .spec_in_range(chapter_number as int) && response.is_success()
                        && self.spec_chapter_from(chapter_number as int, response.body@) is None,
                    _ => false,
                },
            },
    ;

    /// Listed chapter positions are 1-based: position zero is never in
    /// range, whatever state the listing is in, so a request for chapter
    /// zero fails with `UnknownChapter(0)` unconditionally.
    proof fn lemma_in_range_positive(&self, n: int)
        ensures
            self.spec_in_range(n) ==> n >= 1,
    ;

    /// The stable identifier is a function of the stored URL alone: two
    /// instances built for the same URL agree on it, whatever page text
    /// they hold — so it survives a title change and costs no fetch.
    proof fn lemma_identifier_url_pure(&self, other: &Self)
        requires
            self.spec_url() == other.spec_url(),
        ensures
            self.spec_identifier() == other.spec_identifier(),
    ;

    /// The total chapter count. The default is the length of
    /// [`Backend::get_chapter_list`]; a backend may override it with a
    /// cheaper count, which must agree.
    fn get_chapter_count(&self) -> (r: Result<usize, BackendError>)
        requires
            self.wf(),
        ensures
            match r {
                Ok(n) => self.spec_chapter_list() matches Some(l) && n == l.len(),
                Err(e) => self.spec_chapter_list() is None && e is ParseError,
            },
    {
        match self.get_chapter_list() {
            Ok(l) => Ok(l.len()),
            Err(e) => Err(e),
        }
    }

    /// Builds the chapters at positions `1..=responses.len()`, in ascending
    /// position order, one fetched page per position, failing fast: the
    /// error returned is [`Backend::chapter_from_response`]'s error at the
    /// least position that does not build, every earlier position having
    /// built.
    fn chapters_from_responses(&self, responses: &Vec<FetchResponse>) -> (r: Result<
        Vec<Chapter>,
        BackendError,
    >)
        requires
            self.wf(),
            forall|i: int| 0 <= i < responses@.len() ==> #[trigger] self.spec_in_range(i + 1),
        ensures
            match r {
                Ok(v) => {
                    &&& v@.len() == responses@.len()
                    &&& forall|i: int|
                        0 <= i < v@.len() ==> self.spec_chapter_from(
                            i + 1,
                            responses@[i].body@,
                        ) == Some((#[trigger] v@[i])@)
                    &&& forall|i: int|
                        0 <= i < v@.len() ==> (#[trigger] v@[i])@.index == i + 1 && v@[i]@.fiction_url
                            == self.spec_url() && v@[i].wf()
                },
                Err(e) => exists|j: int|
                    #![trigger responses@[j]]
                    {
                        &&& 0 <= j < responses@.len()
                        &&& forall|t: int|
                            0 <= t < j ==> (#[trigger] responses@[t]).is_success()
                                && self.spec_chapter_from(t + 1, responses@[t].body@) is Some
                        &&& !(responses@[j].is_success() && self.spec_chapter_from(
                            j + 1,
                            responses@[j].body@,
                        ) is Some)
                        &&& (!responses@[j].is_success() ==> (e matches
                            BackendError::RequestFailed { status: st, .. } && st
                            == responses@[j].status))
                        &&& (responses@[j].is_success() ==> (e is ParseError
                            || e is DateParseError) && self.spec_chapter_from(
                            j + 1,
                            responses@[j].body@,
                        ) is None)
                    },
            },
    {
        let mut out: Vec<Chapter> = Vec::new();
        let n = responses.len();
        let mut i: usize = 0;
        while i < n
            invariant
                n == responses@.len(),
                0 <= i <= n,
                self.wf(),
                forall|t: int| 0 <= t < n ==> #[trigger] self.spec_in_range(t + 1),
                out@.len() == i,
                forall|t: int|
                    0 <= t < i ==> (#[trigger] responses@[t]).is_success()
                        && self.spec_chapter_from(t + 1, responses@[t].body@) is Some,
                forall|t: int|
                    0 <= t < i ==> self.spec_chapter_from(t + 1, responses@[t].body@) == Some((
                    #[trigger] out@[t])@),
                forall|t: int|
                    0 <= t < i ==> (#[trigger] out@[t])@.index == t + 1 && out@[t]@.fiction_url
                        == self.spec_url() && out@[t].wf(),
            decreases n - i,
        {
            match self.chapter_from_response(i + 1, &responses[i]) {
                Ok(c) => {
                    out.push(c);
                },
                Err(e) => {
                    proof {
                        assert(self.spec_in_range(i + 1));
                        let j = i as int;
                        assert(!(responses@[j].is_success() && self.spec_chapter_from(
                            j + 1,
                            responses@[j].body@,
                        ) is Some));
                    }
                    return Err(e);
                },
            }
            i += 1;
        }
        Ok(out)
    }
}

/// The compute half of fetching a cover image: a success status yields the
/// raw bytes, anything else the status as a failure.
pub fn cover_from_response(status: u16, body: Vec<u8>) -> (r: Result<Vec<u8>, BackendError>)
    ensures
        match r {
            Ok(bytes) => 200 <= status < 300 && bytes@ == body@,
            Err(e) => !(200 <= status < 300) && (e matches BackendError::RequestFailed {
                status: st,
                ..
            } && st == status),
        },
{
    if 200 <= status && status < 300 {
        Ok(body)
    } else {
        Err(
            BackendError::RequestFailed {
                message: String::from_str("could not download cover image"),
                status,
                body: String::new(),
            },
        )
    }
}

/// The listing entry a chapter stands for: its position and its title.
/// Fails with `MissingChapterInformation`, the offending chapter attached,
/// exactly when the chapter has no title.
pub fn chapter_list_elem(c: &Chapter) -> (r: Result<ChapterListElem, BackendError>)
    ensures
        match r {
            Ok(e) => c@.title == Some(e.1@) && e.0 == c@.index,
            Err(er) => c@.title is None && (er matches BackendError::MissingChapterInformation {
                chapter,
                ..
            } && chapter@ == c@),
        },
{
    match c.title() {
        Some(t) => Ok((c.index(), t.clone())),
        None => Err(
            BackendError::MissingChapterInformation {
                msg: String::from_str("Could not find a valid title"),
                chapter: Box::new(c.clone()),
            },
        ),
    }
}

} // verus!

verus! {

/// The URL patterns of the registered backend kinds, in registration order:
/// RoyalRoad first, then LibRead, then FreeWebNovel. Registration order is
/// part of the dispatch contract, not an implementation detail.
pub open spec fn registered_patterns(k: int) -> Seq<Seq<char>> {
    if k == 0 {
        RoyalRoad::spec_regexps()
    } else if k == 1 {
        LibRead::spec_regexps()
    } else {
        FreeWebNovel::spec_regexps()
    }
}

/// How many initial pages the kind registered at position `k` consumes at
/// construction.
pub open spec fn pages_needed_of(k: int) -> int {
    if k == 0 {
        RoyalRoad::spec_pages_needed()
    } else if k == 1 {
        LibRead::spec_pages_needed()
    } else {
        FreeWebNovel::spec_pages_needed()
    }
}

/// Whether the kind registered at position `k` claims `url`: one of its
/// patterns matches.
pub open spec fn kind_matches(k: int, url: Seq<char>) -> bool {
    exists|i: int|
        0 <= i < registered_patterns(k).len() && crate::relib::re_is_match(
            #[trigger] registered_patterns(k)[i],
            url,
        ) == Some(true)
}

/// Which registered kind handles `url`: the first, in registration order,
/// with a matching pattern.
pub open spec fn spec_detect(url: Seq<char>) -> Option<int> {
    if kind_matches(0, url) {
        Some(0)
    } else if kind_matches(1, url) {
        Some(1)
    } else if kind_matches(2, url) {
        Some(2)
    } else {
        None
    }
}

/// Dispatcher determinism: when several registered kinds claim a URL, the
/// one registered earliest always wins.
pub proof fn lemma_dispatch_first_registered_wins(url: Seq<char>, a: int)
    requires
        0 <= a <= 2,
        kind_matches(a, url),
    ensures
        spec_detect(url) matches Some(k) && 0 <= k <= a,
{
}

/// Enum listing all available backends. A new backend is detected from a URL
/// with [`Backends::detect`] and constructed with [`Backend::new`].
pub enum Backends {
    /// A placeholder backend that matches no URL; the default.
    Dumb,
    /// A RoyalRoad backend.
    RoyalRoad(RoyalRoad),
    /// A LibRead backend.
    LibRead(LibRead),
    /// A FreeWebNovel backend.
    FreeWebNovel(FreeWebNovel),
}

impl Backends {
    /// The registration position of this variant's kind (-1 for the
    /// placeholder).
    pub open spec fn kind_index(&self) -> int {
        match self {
            Backends::Dumb => -1,
            Backends::RoyalRoad(_) => 0,
            Backends::LibRead(_) => 1,
            Backends::FreeWebNovel(_) => 2,
        }
    }

    /// Picks the backend kind for a URL: kinds are tried in registration
    /// order, and within a kind its patterns in the order given; the first
    /// match wins. The returned variant holds a default instance; construct
    /// a usable one with [`Backend::new`].
    pub fn detect(url: &str) -> (r: Result<Backends, BackendError>)
        ensures
            match r {
                Ok(b) => spec_detect(url@) == Some(b.kind_index()),
                Err(e) => spec_detect(url@) is None && (e matches
                    BackendError::NoMatchingBackendFound(u) && u@ == url@),
            },
    {
        if patterns_match(&RoyalRoad::get_backend_regexps(), url) {
            proof {
                assert(kind_matches(0, url@));
            }
            return Ok(Backends::RoyalRoad(RoyalRoad::default()));
        }
        if patterns_match(&LibRead::get_backend_regexps(), url) {
            proof {
                assert(kind_matches(1, url@));
            }
            return Ok(Backends::LibRead(LibRead::default()));
        }
        if patterns_match(&FreeWebNovel::get_backend_regexps(), url) {
            proof {
                assert(kind_matches(2, url@));
            }
            return Ok(Backends::FreeWebNovel(FreeWebNovel::default()));
        }
        Err(BackendError::NoMatchingBackendFound(String::from_str(url)))
    }


    /// Builds a backend for a URL: detects the kind as [`Backends::detect`]
    /// does, then constructs it from the fetched pages as [`Backend::new`]
    /// does. `NoMatchingBackendFound` comes exactly when no registered
    /// pattern matches; on detection success the result is the detected
    /// kind's construction result, no later kind being tried as a fallback.
    pub fn new(url: &str, responses: Vec<FetchResponse>) -> (r: Result<Backends, BackendError>)
        ensures
            match r {
                Ok(b) => {
                    &&& spec_detect(url@) == Some(b.kind_index())
                    &&& b.wf_instance()
                    &&& b.spec_url() == url@
                    &&& responses@.len() == pages_needed_of(b.kind_index())
                    &&& all_success(responses@)
                },
                Err(e) => {
                    &&& (spec_detect(url@) is None <==> e is NoMatchingBackendFound)
                    &&& (e matches BackendError::NoMatchingBackendFound(u) ==> u@ == url@)
                    &&& (spec_detect(url@) matches Some(k) ==> {
                        &&& !(responses@.len() == pages_needed_of(k) && all_success(responses@))
                        &&& (e is RequestFailed || e is ParseError)
                        &&& (e is ParseError ==> responses@.len() != pages_needed_of(k))
                        &&& (e matches BackendError::RequestFailed { status: st, .. } ==> {
                            &&& responses@.len() == pages_needed_of(k)
                            &&& exists|i: int|
                                #![trigger responses@[i]]
                                {
                                    &&& 0 <= i < responses@.len()
                                    &&& !responses@[i].is_success()
                                    &&& responses@[i].status == st
                                    &&& forall|t: int|
                                        0 <= t < i ==> (
                                        #[trigger] responses@[t]).is_success()
                                }
                        })
                    })
                },
            },
            (spec_detect(url@) matches Some(k) && responses@.len() == pages_needed_of(k)
                && all_success(responses@)) ==> r is Ok,
    {
        let kind = match Backends::detect(url) {
            Ok(k) => k,
            Err(e) => {
                return Err(e);
            },
        };
        match kind {
            Backends::Dumb => vstd::pervasive::unreached(),
            Backends::RoyalRoad(_) => match RoyalRoad::new(url, responses) {
                Ok(b) => Ok(Backends::RoyalRoad(b)),
                Err(e) => Err(e),
            },
            Backends::LibRead(_) => match LibRead::new(url, responses) {
                Ok(b) => Ok(Backends::LibRead(b)),
                Err(e) => Err(e),
            },
            Backends::FreeWebNovel(_) => match FreeWebNovel::new(url, responses) {
                Ok(b) => Ok(Backends::FreeWebNovel(b)),
                Err(e) => Err(e),
            },
        }
    }

    /// Internal consistency of the held instance; the placeholder has none.
    pub open spec fn wf_instance(&self) -> bool {
        match self {
            Backends::Dumb => false,
            Backends::RoyalRoad(b) => b.wf(),
            Backends::LibRead(b) => b.wf(),
            Backends::FreeWebNovel(b) => b.wf(),
        }
    }

    /// The fiction URL of the held instance.
    pub open spec fn spec_url(&self) -> Seq<char> {
        match self {
            Backends::Dumb => Seq::empty(),
            Backends::RoyalRoad(b) => b.spec_url(),
            Backends::LibRead(b) => b.spec_url(),
            Backends::FreeWebNovel(b) => b.spec_url(),
        }
    }

    /// The fiction title of the held instance, when its markup is present.
    pub open spec fn spec_title(&self) -> Option<Seq<char>> {
        match self {
            Backends::Dumb => None,
            Backends::RoyalRoad(b) => b.spec_title(),
            Backends::LibRead(b) => b.spec_title(),
            Backends::FreeWebNovel(b) => b.spec_title(),
        }
    }

    /// The URL-derived stable identifier of the held instance.
    pub open spec fn spec_identifier(&self) -> Option<Seq<char>> {
        match self {
            Backends::Dumb => None,
            Backends::RoyalRoad(b) => b.spec_identifier(),
            Backends::LibRead(b) => b.spec_identifier(),
            Backends::FreeWebNovel(b) => b.spec_identifier(),
        }
    }

    /// The cover image URL of the held instance.
    pub open spec fn spec_cover_url(&self) -> Option<Seq<char>> {
        match self {
            Backends::Dumb => None,
            Backends::RoyalRoad(b) => b.spec_cover_url(),
            Backends::LibRead(b) => b.spec_cover_url(),
            Backends::FreeWebNovel(b) => b.spec_cover_url(),
        }
    }

    /// The author list of the held instance.
    pub open spec fn spec_authors(&self) -> Option<Seq<Seq<char>>> {
        match self {
            Backends::Dumb => None,
            Backends::RoyalRoad(b) => b.spec_authors(),
            Backends::LibRead(b) => b.spec_authors(),
            Backends::FreeWebNovel(b) => b.spec_authors(),
        }
    }

    /// The chapter listing of the held instance.
    pub open spec fn spec_chapter_list(&self) -> Option<Seq<(usize, Seq<char>)>> {
        match self {
            Backends::Dumb => None,
            Backends::RoyalRoad(b) => b.spec_chapter_list(),
            Backends::LibRead(b) => b.spec_chapter_list(),
            Backends::FreeWebNovel(b) => b.spec_chapter_list(),
        }
    }

    /// Whether `n` is a listed 1-based chapter position of the held
    /// instance.
    pub open spec fn spec_in_range(&self, n: int) -> bool {
        match self {
            Backends::Dumb => false,
            Backends::RoyalRoad(b) => b.spec_in_range(n),
            Backends::LibRead(b) => b.spec_in_range(n),
            Backends::FreeWebNovel(b) => b.spec_in_range(n),
        }
    }

    /// The URL of the chapter at a listed position of the held instance.
    pub open spec fn spec_chapter_url(&self, n: int) -> Option<Seq<char>> {
        match self {
            Backends::Dumb => None,
            Backends::RoyalRoad(b) => b.spec_chapter_url(n),
            Backends::LibRead(b) => b.spec_chapter_url(n),
            Backends::FreeWebNovel(b) => b.spec_chapter_url(n),
        }
    }

    /// The chapter the held instance builds from the fetched page text for
    /// position `n`, when everything on it parses.
    pub open spec fn spec_chapter_from(&self, n: int, page: Seq<char>) -> Option<
        crate::chapter::ChapterView,
    > {
        match self {
            Backends::Dumb => None,
            Backends::RoyalRoad(b) => b.spec_chapter_from(n, page),
            Backends::LibRead(b) => b.spec_chapter_from(n, page),
            Backends::FreeWebNovel(b) => b.spec_chapter_from(n, page),
        }
    }

    /// Chapter positions are 1-based for every backend kind: position zero
    /// is never in range, so a request for chapter zero fails with
    /// `UnknownChapter(0)` unconditionally.
    pub proof fn lemma_in_range_positive(&self, n: int)
        ensures
            self.spec_in_range(n) ==> n >= 1,
    {
        match self {
            Backends::Dumb => {},
            Backends::RoyalRoad(b) => b.lemma_in_range_positive(n),
            Backends::LibRead(b) => b.lemma_in_range_positive(n),
            Backends::FreeWebNovel(b) => b.lemma_in_range_positive(n),
        }
    }

    /// The stable identifier is a function of the backend kind and the
    /// stored URL alone: two instances of one kind built for the same URL
    /// agree on it, whatever page text they hold, so it survives a title
    /// change and costs no fetch.
    pub proof fn lemma_identifier_url_pure(&self, other: &Backends)
        requires
            self.kind_index() == other.kind_index(),
            self.spec_url() == other.spec_url(),
        ensures
            self.spec_identifier() == other.spec_identifier(),
    {
        match (self, other) {
            (Backends::RoyalRoad(a), Backends::RoyalRoad(b)) => a.lemma_identifier_url_pure(b),
            (Backends::LibRead(a), Backends::LibRead(b)) => a.lemma_identifier_url_pure(b),
            (Backends::FreeWebNovel(a), Backends::FreeWebNovel(b)) => a.lemma_identifier_url_pure(
                b,
            ),
            _ => {},
        }
    }

    /// The fiction URL this backend was constructed for, by the held kind.
    pub fn url(&self) -> (r: String)
        requires
            self.wf_instance(),
        ensures
            r@ == self.spec_url(),
    {
        match self {
            Backends::Dumb => vstd::pervasive::unreached(),
            Backends::RoyalRoad(b) => b.url(),
            Backends::LibRead(b) => b.url(),
            Backends::FreeWebNovel(b) => b.url(),
        }
    }

    /// The fiction title, by the held kind.
    pub fn title(&self) -> (r: Result<String, BackendError>)
        requires
            self.wf_instance(),
        ensures
            match r {
                Ok(t) => self.spec_title() == Some(t@),
                Err(e) => self.spec_title() is None && e is ParseError,
            },
    {
        match self {
            Backends::Dumb => vstd::pervasive::unreached(),
            Backends::RoyalRoad(b) => b.title(),
            Backends::LibRead(b) => b.title(),
            Backends::FreeWebNovel(b) => b.title(),
        }
    }

    /// The URL-derived stable identifier, by the held kind.
    pub fn immutable_identifier(&self) -> (r: Result<String, BackendError>)
        requires
            self.wf_instance(),
        ensures
            match r {
                Ok(t) => self.spec_identifier() == Some(t@),
                Err(e) => self.spec_identifier() is None && e is ParseError,
            },
    {
        match self {
            Backends::Dumb => vstd::pervasive::unreached(),
            Backends::RoyalRoad(b) => b.immutable_identifier(),
            Backends::LibRead(b) => b.immutable_identifier(),
            Backends::FreeWebNovel(b) => b.immutable_identifier(),
        }
    }

    /// The cover image URL, by the held kind.
    pub fn cover_url(&self) -> (r: Result<String, BackendError>)
        requires
            self.wf_instance(),
        ensures
            match r {
                Ok(t) => self.spec_cover_url() == Some(t@),
                Err(e) => self.spec_cover_url() is None && e is ParseError,
            },
    {
        match self {
            Backends::Dumb => vstd::pervasive::unreached(),
            Backends::RoyalRoad(b) => b.cover_url(),
            Backends::LibRead(b) => b.cover_url(),
            Backends::FreeWebNovel(b) => b.cover_url(),
        }
    }

    /// The authors of the fiction, by the held kind.
    pub fn get_authors(&self) -> (r: Result<Vec<String>, BackendError>)
        requires
            self.wf_instance(),
        ensures
            match r {
                Ok(v) => self.spec_authors() == Some(v.deep_view()),
                Err(e) => self.spec_authors() is None && e is ParseError,
            },
    {
        match self {
            Backends::Dumb => vstd::pervasive::unreached(),
            Backends::RoyalRoad(b) => b.get_authors(),
            Backends::LibRead(b) => b.get_authors(),
            Backends::FreeWebNovel(b) => b.get_authors(),
        }
    }

    /// The chapter listing on the already-fetched page(s), by the held
    /// kind: the 1-based positions in ascending order, each with its title.
    pub fn get_chapter_list(&self) -> (r: Result<Vec<ChapterListElem>, BackendError>)
        requires
            self.wf_instance(),
        ensures
            match r {
                Ok(v) => self.spec_chapter_list() == Some(list_view(v@)),
                Err(e) => self.spec_chapter_list() is None && e is ParseError,
            },
            self.spec_chapter_list() matches Some(l) ==> (forall|n: int|
                self.spec_in_range(n) <==> 1 <= n <= l.len()),
            self.spec_chapter_list() matches Some(l) ==> (forall|i: int|
                0 <= i < l.len() ==> (#[trigger] l[i]).0 == i + 1),
    {
        match self {
            Backends::Dumb => vstd::pervasive::unreached(),
            Backends::RoyalRoad(b) => b.get_chapter_list(),
            Backends::LibRead(b) => b.get_chapter_list(),
            Backends::FreeWebNovel(b) => b.get_chapter_list(),
        }
    }

    /// The total chapter count, by the held kind.
    pub fn get_chapter_count(&self) -> (r: Result<usize, BackendError>)
        requires
            self.wf_instance(),
        ensures
            match r {
                Ok(n) => self.spec_chapter_list() matches Some(l) && n == l.len(),
                Err(e) => self.spec_chapter_list() is None && e is ParseError,
            },
    {
        match self {
            Backends::Dumb => vstd::pervasive::unreached(),
            Backends::RoyalRoad(b) => b.get_chapter_count(),
            Backends::LibRead(b) => b.get_chapter_count(),
            Backends::FreeWebNovel(b) => b.get_chapter_count(),
        }
    }

    /// The URL to fetch for the chapter at 1-based position `n`, by the
    /// held kind: fails with `UnknownChapter(n)` exactly when `n` is zero
    /// or past the listing.
    pub fn chapter_url(&self, chapter_number: usize) -> (r: Result<String, BackendError>)
        requires
            self.wf_instance(),
        ensures
            match r {
                Ok(u) => self.spec_in_range(chapter_number as int) && self.spec_chapter_url(
                    chapter_number as int,
                ) == Some(u@),
                Err(e) => match e {
                    BackendError::UnknownChapter(k) => k == chapter_number && !self.spec_in_range(
                        chapter_number as int,
                    ),
                    BackendError::ParseError(_) => self.spec_in_range(chapter_number as int)
                        && self.spec_chapter_url(chapter_number as int) is None,
                    _ => false,
                },
            },
    {
        match self {
            Backends::Dumb => vstd::pervasive::unreached(),
            Backends::RoyalRoad(b) => b.chapter_url(chapter_number),
            Backends::LibRead(b) => b.chapter_url(chapter_number),
            Backends::FreeWebNovel(b) => b.chapter_url(chapter_number),
        }
    }

    /// Builds the chapter at position `n` out of its fetched page, by the
    /// held kind.
    pub fn chapter_from_response(&self, chapter_number: usize, response: &FetchResponse) -> (r:
        Result<Chapter, BackendError>)
        requires
            self.wf_instance(),
        ensures
            match r {
                Ok(c) => {
                    &&& self.spec_in_range(chapter_number as int)
                    &&& response.is_success()
                    &&& self.spec_chapter_from(chapter_number as int, response.body@) == Some(c@)
                    &&& c@.index == chapter_number
                    &&& c@.fiction_url == self.spec_url()
                    &&& c.wf()
                },
                Err(e) => match e {
                    BackendError::UnknownChapter(k) => k == chapter_number && !self.spec_in_range(
                        chapter_number as int,
                    ),
                    BackendError::RequestFailed { status, .. } => self.spec_in_range(
                        chapter_number as int,
                    ) && !response.is_success() && status == response.status,
                    BackendError::ParseError(_) | BackendError::DateParseError(_) => self
                        .spec_in_range(chapter_number as int) && response.is_success()
                        && self.spec_chapter_from(chapter_number as int, response.body@) is None,
                    _ => false,
                },
            },
    {
        match self {
            Backends::Dumb => vstd::pervasive::unreached(),
            Backends::RoyalRoad(b) => b.chapter_from_response(chapter_number, response),
            Backends::LibRead(b) => b.chapter_from_response(chapter_number, response),
            Backends::FreeWebNovel(b) => b.chapter_from_response(chapter_number, response),
        }
    }

    /// Builds the chapters at positions `1..=responses.len()`, by the held
    /// kind, failing fast as [`Backend::chapters_from_responses`] does.
    pub fn chapters_from_responses(&self, responses: &Vec<FetchResponse>) -> (r: Result<
        Vec<Chapter>,
        BackendError,
    >)
        requires
            self.wf_instance(),
            forall|i: int| 0 <= i < responses@.len() ==> #[trigger] self.spec_in_range(i + 1),
        ensures
            match r {
                Ok(v) => {
                    &&& v@.len() == responses@.len()
                    &&& forall|i: int|
                        0 <= i < v@.len() ==> self.spec_chapter_from(
                            i + 1,
                            responses@[i].body@,
                        ) == Some((#[trigger] v@[i])@)
                    &&& forall|i: int|
                        0 <= i < v@.len() ==> (#[trigger] v@[i])@.index == i + 1 && v@[i]@.fiction_url
                            == self.spec_url() && v@[i].wf()
                },
                Err(e) => exists|j: int|
                    #![trigger responses@[j]]
                    {
                        &&& 0 <= j < responses@.len()
                        &&& forall|t: int|
                            0 <= t < j ==> (#[trigger] responses@[t]).is_success()
                                && self.spec_chapter_from(t + 1, responses@[t].body@) is Some
                        &&& !(responses@[j].is_success() && self.spec_chapter_from(
                            j + 1,
                            responses@[j].body@,
                        ) is Some)
                        &&& (!responses@[j].is_success() ==> (e matches
                            BackendError::RequestFailed { status: st, .. } && st
                            == responses@[j].status))
                        &&& (responses@[j].is_success() ==> (e is ParseError
                            || e is DateParseError) && self.spec_chapter_from(
                            j + 1,
                            responses@[j].body@,
                        ) is None)
                    },
            },
    {
        match self {
            Backends::Dumb => vstd::pervasive::unreached(),
            Backends::RoyalRoad(b) => {
                proof {
                    assert forall|i: int| 0 <= i < responses@.len() implies #[trigger] b
                        .spec_in_range(i + 1) by {
                        assert(self.spec_in_range(i + 1));
                    }
                }
                b.chapters_from_responses(responses)
            },
            Backends::LibRead(b) => {
                proof {
                    assert forall|i: int| 0 <= i < responses@.len() implies #[trigger] b
                        .spec_in_range(i + 1) by {
                        assert(self.spec_in_range(i + 1));
                    }
                }
                b.chapters_from_responses(responses)
            },
            Backends::FreeWebNovel(b) => {
                proof {
                    assert forall|i: int| 0 <= i < responses@.len() implies #[trigger] b
                        .spec_in_range(i + 1) by {
                        assert(self.spec_in_range(i + 1));
                    }
                }
                b.chapters_from_responses(responses)
            },
        }
    }

    /// The regexps of the underlying backend kind; the placeholder claims
    /// nothing.
    pub fn get_backend_regexps(&self) -> (r: Vec<String>)
        ensures
            self.kind_index() >= 0 ==> r.deep_view() == registered_patterns(self.kind_index()),
            self.kind_index() < 0 ==> r.deep_view().len() == 0,
    {
        match self {
            Backends::Dumb => Vec::new(),
            Backends::RoyalRoad(_) => RoyalRoad::get_backend_regexps(),
            Backends::LibRead(_) => LibRead::get_backend_regexps(),
            Backends::FreeWebNovel(_) => FreeWebNovel::get_backend_regexps(),
        }
    }

    /// The name of the underlying backend kind.
    pub fn get_backend_name(&self) -> (r: &'static str)
        ensures
            match self {
                Backends::Dumb => r@ == "dummy"@,
                Backends::RoyalRoad(_) => r@ == RoyalRoad::spec_name(),
                Backends::LibRead(_) => r@ == LibRead::spec_name(),
                Backends::FreeWebNovel(_) => r@ == FreeWebNovel::spec_name(),
            },
    {
        match self {
            Backends::Dumb => "dummy",
            Backends::RoyalRoad(_) => RoyalRoad::get_backend_name(),
            Backends::LibRead(_) => LibRead::get_backend_name(),
            Backends::FreeWebNovel(_) => FreeWebNovel::get_backend_name(),
        }
    }

    /// The ordering function of the underlying backend kind.
    pub fn get_ordering_function(&self) -> (r: ChapterOrderingFn)
        requires
            !(self matches Backends::Dumb),
        ensures
            match self {
                Backends::Dumb => true,
                Backends::RoyalRoad(_) => r.spec_method() == RoyalRoad::spec_ordering(),
                Backends::LibRead(_) => r.spec_method() == LibRead::spec_ordering(),
                Backends::FreeWebNovel(_) => r.spec_method() == FreeWebNovel::spec_ordering(),
            },
    {
        match self {
            Backends::Dumb => vstd::pervasive::unreached(),
            Backends::RoyalRoad(_) => RoyalRoad::get_ordering_function(),
            Backends::LibRead(_) => LibRead::get_ordering_function(),
            Backends::FreeWebNovel(_) => FreeWebNovel::get_ordering_function(),
        }
    }
}

/// Whether any of the given patterns matches the URL (an invalid pattern
/// matches nothing).
fn patterns_match(patterns: &Vec<String>, url: &str) -> (r: bool)
    ensures
        r == exists|i: int|
            0 <= i < patterns.deep_view().len() && crate::relib::re_is_match(
                #[trigger] patterns.deep_view()[i],
                url@,
            ) == Some(true),
{
    let n = patterns.len();
    let mut i: usize = 0;
    while i < n
        invariant
            n == patterns@.len(),
            0 <= i <= n,
            forall|t: int|
                0 <= t < i ==> crate::relib::re_is_match(
                    #[trigger] patterns.deep_view()[t],
                    url@,
                ) != Some(true),
        decreases n - i,
    {
        proof {
            assert(patterns.deep_view()[i as int] == patterns@[i as int]@);
        }
        match crate::relib::regex_is_match(patterns[i].as_str(), url) {
            Some(true) => {
                return true;
            },
            _ => {},
        }
        i += 1;
    }
    false
}

} // verus!
