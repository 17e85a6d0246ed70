//! The RoyalRoad backend: chapters carry publication timestamps and
//! source-internal ids, and chapter pages are cleared of the site's
//! anti-theft insert lines before extraction.
use crate::backends::all_success;
use crate::backends::bodies_of;
use crate::backends::Backend;
use crate::backends::ChapterListElem;
use crate::backends::FetchResponse;
use crate::chapter::lemma_find_key_is;
use crate::chapter::meta_upsert;
use crate::chapter::Chapter;
use crate::chapter::ChapterView;
use crate::errors::BackendError;
use crate::html::first_attr;
use crate::html::first_inner;
use crate::html::html_select;
use crate::html::select_first_attr;
use crate::html::select_first_inner;
use crate::html::select_in_document;
use crate::order::ChapterOrderingFn;
use crate::order::OrderingMethod;
use crate::relib::re_capture;
use crate::relib::re_replace_first;
use crate::relib::regex_capture;
use crate::relib::regex_replace_first;
use crate::strutil::spec_trim;
use crate::strutil::trim_str;
use crate::timestamp::rfc3339_parse;
use crate::timestamp::Timestamp;
use vstd::prelude::*;

verus! {

/// The URL pattern this backend claims; group 1 is the fiction id, group 2
/// the title slug.
pub const RR_URL_PATTERN: &'static str =
    "https?://www\\.royalroad\\.com/fiction/(\\d+)/([\\w\\-]+)";

/// Identifies a chapter URL; group 1 is the fiction id, group 3 the chapter
/// id.
pub const RR_CHAPTER_URL_PATTERN: &'static str =
    "https?://www\\.royalroad\\.com/fiction/(\\d+)/([\\w-]+)/chapter/(\\d+)/([\\w-]+)";

/// Selector for a chapter's link in the fiction page's chapter table.
pub const RR_CHAPTER_TITLE_SELECTOR: &'static str =
    "table#chapters tbody tr.chapter-row td:first-child a";

/// Selector for a chapter's publication time in the chapter table.
pub const RR_CHAPTER_CREATED_AT_SELECTOR: &'static str =
    "table#chapters tbody tr.chapter-row td:last-child time";

/// Selector for the fiction's authors.
pub const RR_AUTHORS_SELECTOR: &'static str = "meta[property='books:author']";

/// Selector for a chapter page's title.
pub const RR_PAGE_TITLE_SELECTOR: &'static str = "div.row.fic-header div.row div h1.font-white";

/// Selector for a chapter page's content.
pub const RR_PAGE_CONTENT_SELECTOR: &'static str =
    "div.page-container div.page-content-wrapper div.page-content div.container.chapter-page div div div.portlet-body div.chapter-inner.chapter-content";

/// Selector for the fiction's title.
pub const RR_FICTION_TITLE_SELECTOR: &'static str =
    "div.row.fic-header div.fic-title div.col h1.font-white";

/// Selector for the fiction's cover image.
pub const RR_COVER_SELECTOR: &'static str = "meta[property='og:image']";

/// Anti-theft insert lines the site adds for readers outside it; curated
/// configuration the backend strips before extraction, expected to need
/// updates independent of the architecture.
pub const RR_ANTI_THEFT_PATTERN_A: &'static str =
    "<p( class=\".*\")?>This content has been misappropriated from Royal Road; report any instances of this story if found elsewhere.</p>";

/// The second curated anti-theft insert line.
pub const RR_ANTI_THEFT_PATTERN_B: &'static str =
    "<p( class=\".*\")?>Find this and other great novels on the author's preferred platform. Support original creators!</p>";

/// Strips the site's paragraph class attributes.
pub const RR_P_CLASS_PATTERN: &'static str = "<p class=\".*\">";

/// A chapter page after the anti-theft lines are removed and the paragraph
/// classes stripped.
pub open spec fn rr_cleaned(page: Seq<char>) -> Seq<char> {
    re_replace_first(
        RR_P_CLASS_PATTERN@,
        re_replace_first(
            RR_ANTI_THEFT_PATTERN_B@,
            re_replace_first(RR_ANTI_THEFT_PATTERN_A@, page, ""@),
            ""@,
        ),
        "<p>"@,
    )
}

/// The identifier a fiction URL carries: title slug, a dash, fiction id.
pub open spec fn rr_identifier(url: Seq<char>) -> Option<Seq<char>> {
    match re_capture(RR_URL_PATTERN@, url, 1) {
        None => None,
        Some(id) => match re_capture(RR_URL_PATTERN@, url, 2) {
            None => None,
            Some(slug) => Some(slug + "-"@ + id),
        },
    }
}

/// The listing of the fiction page: per chapter row, the link's `href` and
/// its inner HTML (the raw title).
pub open spec fn rr_listing(page: Seq<char>) -> Option<Seq<(Option<Seq<char>>, Seq<char>)>> {
    html_select(page, RR_CHAPTER_TITLE_SELECTOR@, "href"@)
}

/// The chapter list of the fiction page: position and trimmed title.
pub open spec fn rr_chapter_list(page: Seq<char>) -> Option<Seq<(usize, Seq<char>)>> {
    match rr_listing(page) {
        None => None,
        Some(v) => Some(Seq::new(v.len(), |i: int| (((i + 1) as usize), spec_trim(v[i].1)))),
    }
}

/// The metadata of a chapter URL: its chapter id and fiction id.
pub open spec fn rr_chapter_metadata(curl: Seq<char>) -> Option<Seq<(Seq<char>, Seq<char>)>> {
    match re_capture(RR_CHAPTER_URL_PATTERN@, curl, 3) {
        None => None,
        Some(cid) => match re_capture(RR_CHAPTER_URL_PATTERN@, curl, 1) {
            None => None,
            Some(fid) => Some(seq![("chapter_id"@, cid), ("fiction_id"@, fid)]),
        },
    }
}

/// A backend for the RoyalRoad site.
pub struct RoyalRoad {
    url: String,
    page: String,
}


/// An empty instance: no URL, no page text. Usable only as a placeholder for
/// detection; construct a real one with [`Backend::new`].
impl Default for RoyalRoad {
    fn default() -> (r: RoyalRoad)
        ensures
            r.wf(),
            r.spec_url().len() == 0,
    {
        RoyalRoad { url: String::new(), page: String::new() }
    }
}

impl Backend for RoyalRoad {
    open spec fn spec_regexps() -> Seq<Seq<char>> {
        seq![RR_URL_PATTERN@]
    }

    open spec fn spec_name() -> Seq<char> {
        "royalroad"@
    }

    open spec fn spec_ordering() -> OrderingMethod {
        OrderingMethod::PublishedAt
    }

    open spec fn spec_pages_needed() -> int {
        1
    }

    closed spec fn spec_url(&self) -> Seq<char> {
        self.url@
    }

    closed spec fn spec_pages(&self) -> Seq<Seq<char>> {
        seq![self.page@]
    }

    closed spec fn wf(&self) -> bool {
        true
    }

    closed spec fn spec_title(&self) -> Option<Seq<char>> {
        first_inner(self.page@, RR_FICTION_TITLE_SELECTOR@)
    }

    closed spec fn spec_identifier(&self) -> Option<Seq<char>> {
        rr_identifier(self.url@)
    }

    closed spec fn spec_cover_url(&self) -> Option<Seq<char>> {
        first_attr(self.page@, RR_COVER_SELECTOR@, "content"@)
    }

    closed spec fn spec_authors(&self) -> Option<Seq<Seq<char>>> {
        match html_select(self.page@, RR_AUTHORS_SELECTOR@, "content"@) {
            None => None,
            Some(v) => if v.len() > 0 && (forall|i: int|
                0 <= i < v.len() ==> (#[trigger] v[i]).0 is Some) {
                Some(Seq::new(v.len(), |i: int| v[i].0->0))
            } else {
                None
            },
        }
    }

    closed spec fn spec_chapter_list(&self) -> Option<Seq<(usize, Seq<char>)>> {
        rr_chapter_list(self.page@)
    }

    closed spec fn spec_in_range(&self, n: int) -> bool {
        rr_listing(self.page@) matches Some(v) && 1 <= n <= v.len()
    }

    closed spec fn spec_chapter_url(&self, n: int) -> Option<Seq<char>> {
        match rr_listing(self.page@) {
            Some(v) => match v[n - 1].0 {
                Some(h) => Some("https://www.royalroad.com"@ + h),
                None => None,
            },
            None => None,
        }
    }

    closed spec fn spec_chapter_from(&self, n: int, page: Seq<char>) -> Option<ChapterView> {
        match self.spec_chapter_url(n) {
            None => None,
            Some(curl) => {
                let cleaned = rr_cleaned(page);
                match first_inner(cleaned, RR_PAGE_TITLE_SELECTOR@) {
                    None => None,
                    Some(t) => match first_inner(cleaned, RR_PAGE_CONTENT_SELECTOR@) {
                        None => None,
                        Some(content) => match rr_chapter_metadata(curl) {
                            None => None,
                            Some(md) => match first_attr_at(
                                self.page@,
                                RR_CHAPTER_CREATED_AT_SELECTOR@,
                                n - 1,
                            ) {
                                None => None,
                                Some(ds) => match rfc3339_parse(ds) {
                                    None => None,
                                    Some(p) => Some(
                                        ChapterView {
                                            index: n as usize,
                                            title: Some(spec_trim(t)),
                                            content: crate::html::dom_normalize(content),
                                            chapter_url: curl,
                                            fiction_url: self.url@,
                                            published_at: Some(
                                                Timestamp { secs: p.0, nanos: p.1 },
                                            ),
                                            metadata: md,
                                        },
                                    ),
                                },
                            },
                        },
                    },
                }
            },
        }
    }

    fn get_backend_regexps() -> (r: Vec<String>) {
        let mut r: Vec<String> = Vec::new();
        r.push(String::from_str(RR_URL_PATTERN));
        proof {
            assert(r.deep_view() =~= Self::spec_regexps());
        }
        r
    }

    fn get_backend_name() -> (r: &'static str) {
        "royalroad"
    }

    fn get_ordering_function() -> (r: ChapterOrderingFn) {
        ChapterOrderingFn::new(OrderingMethod::PublishedAt)
    }

    fn initial_page_urls(url: &str) -> (r: Vec<String>) {
        let mut r: Vec<String> = Vec::new();
        r.push(String::from_str(url));
        r
    }

    fn new(url: &str, responses: Vec<FetchResponse>) -> (r: Result<Self, BackendError>) {
        if responses.len() != 1 {
            return Err(
                BackendError::ParseError(String::from_str("expected exactly one fetched page")),
            );
        }
        let resp = &responses[0];
        if !resp.success() {
            proof {
                assert(!responses@[0].is_success());
            }
            return Err(
                BackendError::RequestFailed {
                    message: String::from_str("could not fetch fiction url"),
                    status: resp.status,
                    body: resp.body.clone(),
                },
            );
        }
        let b = RoyalRoad { url: String::from_str(url), page: resp.body.clone() };
        proof {
            assert(b.spec_pages() =~= bodies_of(responses@));
            assert(all_success(responses@)) by {
                assert(responses@[0].is_success());
            }
        }
        Ok(b)
    }

    proof fn lemma_in_range_positive(&self, n: int) {
    }

    proof fn lemma_identifier_url_pure(&self, other: &Self) {
    }

    fn url(&self) -> (r: String) {
        self.url.clone()
    }

    fn title(&self) -> (r: Result<String, BackendError>) {
        match select_first_inner(self.page.as_str(), RR_FICTION_TITLE_SELECTOR) {
            Some(t) => Ok(t),
            None => Err(BackendError::ParseError(String::from_str("failed to get title"))),
        }
    }

    fn immutable_identifier(&self) -> (r: Result<String, BackendError>) {
        let id = match regex_capture(RR_URL_PATTERN, self.url.as_str(), 1) {
            Some(id) => id,
            None => {
                return Err(BackendError::ParseError(String::from_str("unable to parse url")));
            },
        };
        match regex_capture(RR_URL_PATTERN, self.url.as_str(), 2) {
            Some(slug) => {
                let mut r = slug;
                r.append("-");
                r.append(id.as_str());
                proof {
                    reveal_strlit("-");
                }
                Ok(r)
            },
            None => Err(BackendError::ParseError(String::from_str("unable to parse url"))),
        }
    }

    fn cover_url(&self) -> (r: Result<String, BackendError>) {
        match select_first_attr(self.page.as_str(), RR_COVER_SELECTOR, "content") {
            Some(t) => Ok(t),
            None => Err(
                BackendError::ParseError(String::from_str("could not find fiction cover url")),
            ),
        }
    }

    fn get_authors(&self) -> (r: Result<Vec<String>, BackendError>) {
        let sel = match select_in_document(self.page.as_str(), RR_AUTHORS_SELECTOR, "content") {
            Some(s) => s,
            None => {
                return Err(BackendError::ParseError(String::from_str("bad author selector")));
            },
        };
        let ghost sv = html_select(self.page@, RR_AUTHORS_SELECTOR@, "content"@)->0;
        let n = sel.len();
        if n == 0 {
            return Err(
                BackendError::ParseError(String::from_str("resulting author list is empty")),
            );
        }
        let mut out: Vec<String> = Vec::new();
        let mut i: usize = 0;
        while i < n
            invariant
                n == sel@.len(),
                0 <= i <= n,
                sv == sel@.map_values(|p: (Option<String>, String)| crate::html::pair_view(p)),
                html_select(self.page@, RR_AUTHORS_SELECTOR@, "content"@) == Some(sv),
                out@.len() == i,
                forall|t: int| 0 <= t < i ==> (#[trigger] sv[t]).0 is Some,
                forall|t: int| 0 <= t < i ==> out.deep_view()[t] == (#[trigger] sv[t]).0->0,
            decreases n - i,
        {
            proof {
                assert(sv[i as int] == crate::html::pair_view(sel@[i as int]));
            }
            match &sel[i].0 {
                Some(a) => {
                    out.push(a.clone());
                    proof {
                        assert(forall|k: int|
                            0 <= k < out@.len() ==> #[trigger] out.deep_view()[k] == out@[k]@);
                    }
                },
                None => {
                    return Err(
                        BackendError::ParseError(
                            String::from_str("author element without a content attribute"),
                        ),
                    );
                },
            }
            i += 1;
        }
        proof {
            assert(out.deep_view() =~= Seq::new(sv.len(), |i: int| sv[i].0->0));
        }
        Ok(out)
    }

    fn get_chapter_list(&self) -> (r: Result<Vec<ChapterListElem>, BackendError>) {
        let sel = match select_in_document(self.page.as_str(), RR_CHAPTER_TITLE_SELECTOR, "href") {
            Some(s) => s,
            None => {
                return Err(
                    BackendError::ParseError(String::from_str("bad chapter list selector")),
                );
            },
        };
        let ghost sv = rr_listing(self.page@)->0;
        let n = sel.len();
        let mut out: Vec<ChapterListElem> = Vec::new();
        let mut i: usize = 0;
        while i < n
            invariant
                n == sel@.len(),
                0 <= i <= n,
                sv == sel@.map_values(|p: (Option<String>, String)| crate::html::pair_view(p)),
                rr_listing(self.page@) == Some(sv),
                out@.len() == i,
                forall|t: int|
                    0 <= t < i ==> crate::backends::list_view(out@)[t] == (
                    ((t + 1) as usize),
                    spec_trim((#[trigger] sv[t]).1),
                ),
            decreases n - i,
        {
            proof {
                assert(sv[i as int] == crate::html::pair_view(sel@[i as int]));
            }
            let t = trim_str(sel[i].1.as_str());
            out.push((i + 1, t));
            i += 1;
        }
        proof {
            let l = rr_chapter_list(self.page@)->0;
            assert(crate::backends::list_view(out@) =~= l);
            assert forall|k: int| self.spec_in_range(k) <==> 1 <= k <= l.len() by {}
        }
        Ok(out)
    }

    fn chapter_url(&self, chapter_number: usize) -> (r: Result<String, BackendError>) {
        if chapter_number == 0 {
            return Err(BackendError::UnknownChapter(chapter_number));
        }
        let sel = match select_in_document(self.page.as_str(), RR_CHAPTER_TITLE_SELECTOR, "href") {
            Some(s) => s,
            None => {
                return Err(BackendError::UnknownChapter(chapter_number));
            },
        };
        if chapter_number > sel.len() {
            return Err(BackendError::UnknownChapter(chapter_number));
        }
        proof {
            assert(rr_listing(self.page@)->0[chapter_number - 1] == crate::html::pair_view(
                sel@[chapter_number - 1],
            ));
        }
        match &sel[chapter_number - 1].0 {
            Some(h) => {
                let mut u = String::from_str("https://www.royalroad.com");
                u.append(h.as_str());
                Ok(u)
            },
            None => Err(
                BackendError::ParseError(String::from_str("chapter link without an href")),
            ),
        }
    }

    fn chapter_from_response(&self, chapter_number: usize, response: &FetchResponse) -> (r: Result<
        Chapter,
        BackendError,
    >) {
        let curl = match self.chapter_url(chapter_number) {
            Ok(u) => {
                if !response.success() {
                    return Err(
                        BackendError::RequestFailed {
                            message: String::from_str("could not get chapter page"),
                            status: response.status,
                            body: response.body.clone(),
                        },
                    );
                }
                u
            },
            Err(BackendError::UnknownChapter(k)) => {
                return Err(BackendError::UnknownChapter(k));
            },
            Err(e) => {
                if !response.success() {
                    return Err(
                        BackendError::RequestFailed {
                            message: String::from_str("could not get chapter page"),
                            status: response.status,
                            body: response.body.clone(),
                        },
                    );
                }
                return Err(e);
            },
        };
        // strip the curated anti-theft lines, then the paragraph classes
        let c1 = regex_replace_first(RR_ANTI_THEFT_PATTERN_A, response.body.as_str(), "");
        let c2 = regex_replace_first(RR_ANTI_THEFT_PATTERN_B, c1.as_str(), "");
        let cleaned = regex_replace_first(RR_P_CLASS_PATTERN, c2.as_str(), "<p>");
        let t = match select_first_inner(cleaned.as_str(), RR_PAGE_TITLE_SELECTOR) {
            Some(t) => t,
            None => {
                return Err(
                    BackendError::ParseError(String::from_str("could not find chapter title")),
                );
            },
        };
        let content = match select_first_inner(cleaned.as_str(), RR_PAGE_CONTENT_SELECTOR) {
            Some(c) => c,
            None => {
                return Err(
                    BackendError::ParseError(String::from_str("could not find chapter content")),
                );
            },
        };
        let cid = match regex_capture(RR_CHAPTER_URL_PATTERN, curl.as_str(), 3) {
            Some(v) => v,
            None => {
                return Err(
                    BackendError::ParseError(String::from_str("chapter url has unexpected shape")),
                );
            },
        };
        let fid = match regex_capture(RR_CHAPTER_URL_PATTERN, curl.as_str(), 1) {
            Some(v) => v,
            None => {
                return Err(
                    BackendError::ParseError(String::from_str("chapter url has unexpected shape")),
                );
            },
        };
        let ds = match select_attr_at(
            self.page.as_str(),
            RR_CHAPTER_CREATED_AT_SELECTOR,
            "datetime",
            chapter_number - 1,
        ) {
            Some(v) => v,
            None => {
                return Err(
                    BackendError::ParseError(String::from_str("chapter has no publication time")),
                );
            },
        };
        let at = match crate::timestamp::parse_rfc3339(ds.as_str()) {
            Some(ts) => ts,
            None => {
                return Err(
                    BackendError::DateParseError(
                        String::from_str("publication time is not an RFC 3339 timestamp"),
                    ),
                );
            },
        };
        let mut c = Chapter::default();
        c.set_index(chapter_number);
        c.set_title(Some(trim_str(t.as_str())));
        c.set_chapter_url(curl);
        c.set_fiction_url(self.url.clone());
        c.set_published_at(Some(at));
        proof {
            assert(c@.metadata =~= Seq::<(Seq<char>, Seq<char>)>::empty());
        }
        c.add_metadata(String::from_str("chapter_id"), cid);
        c.add_metadata(String::from_str("fiction_id"), fid);
        c.set_content(content.as_str());
        proof {
            reveal_strlit("chapter_id");
            reveal_strlit("fiction_id");
            let md = rr_chapter_metadata(curl@)->0;
            assert(meta_upsert(Seq::empty(), "chapter_id"@, md[0].1) =~= seq![md[0]]);
            assert("chapter_id"@ != "fiction_id"@) by {
                assert("chapter_id"@[0] != "fiction_id"@[0]);
            }
            lemma_find_key_is(seq![md[0]], "fiction_id"@, 1);
            assert(meta_upsert(seq![md[0]], "fiction_id"@, md[1].1) =~= md);
            let n = chapter_number as int;
            let cs = rr_cleaned(response.body@);
            assert(cleaned@ == cs);
            assert(self.spec_chapter_url(n) == Some(curl@));
            assert(first_inner(cs, RR_PAGE_TITLE_SELECTOR@) == Some(t@));
            assert(first_inner(cs, RR_PAGE_CONTENT_SELECTOR@) == Some(content@));
            assert(rr_chapter_metadata(curl@) == Some(md));
            assert(first_attr_at(self.page@, RR_CHAPTER_CREATED_AT_SELECTOR@, n - 1) == Some(ds@));
            assert(rfc3339_parse(ds@) == Some((at.secs, at.nanos)));
            assert(c@.metadata == md);
            assert(c@.title == Some(spec_trim(t@)));
            assert(c@.content == crate::html::dom_normalize(content@));
            assert(c@.published_at == Some(Timestamp { secs: at.secs, nanos: at.nanos }));
            assert(self.spec_chapter_from(chapter_number as int, response.body@) == Some(c@));
        }
        Ok(c)
    }
}

/// The given attribute of the `idx`-th element the selector matches.
pub open spec fn first_attr_at(page: Seq<char>, sel: Seq<char>, idx: int) -> Option<Seq<char>> {
    match html_select(page, sel, "datetime"@) {
        Some(v) => if 0 <= idx < v.len() {
            v[idx].0
        } else {
            None
        },
        None => None,
    }
}

/// The given attribute of the element at `idx` among the selector's matches.
fn select_attr_at(page: &str, sel: &str, attr: &str, idx: usize) -> (r: Option<String>)
    requires
        attr@ == "datetime"@,
    ensures
        match r {
            Some(t) => first_attr_at(page@, sel@, idx as int) == Some(t@),
            None => first_attr_at(page@, sel@, idx as int) is None,
        },
{
    match select_in_document(page, sel, attr) {
        None => None,
        Some(v) => {
            if idx < v.len() {
                proof {
                    assert(html_select(page@, sel@, "datetime"@)->0[idx as int]
                        == crate::html::pair_view(v@[idx as int]));
                }
                v[idx].0.clone()
            } else {
                None
            }
        },
    }
}

} // verus!
