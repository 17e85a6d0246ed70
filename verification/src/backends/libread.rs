//! The LibRead backend: another frontend of the FreeWebNovel page layout,
//! sharing its extraction helpers.
use crate::backends::all_success;
use crate::backends::bodies_of;
use crate::backends::freewebnovel::authors_of;
use crate::backends::freewebnovel::chapter_list_of;
use crate::backends::freewebnovel::cover_url_of;
use crate::backends::freewebnovel::fwn_authors_from;
use crate::backends::freewebnovel::fwn_chapter_list;
use crate::backends::freewebnovel::fwn_listing;
use crate::backends::freewebnovel::last_url_segment;
use crate::backends::freewebnovel::title_of;
use crate::backends::freewebnovel::FWN_AUTHORS_SELECTOR;
use crate::backends::freewebnovel::FWN_CHAPTER_CONTENT_SELECTOR;
use crate::backends::freewebnovel::FWN_CHAPTER_LIST_SELECTOR;
use crate::backends::freewebnovel::FWN_CHAPTER_TITLE_SELECTOR;
use crate::backends::freewebnovel::FWN_COVER_SELECTOR;
use crate::backends::freewebnovel::FWN_TITLE_SELECTOR;
use crate::backends::Backend;
use crate::backends::ChapterListElem;
use crate::backends::FetchResponse;
use crate::chapter::Chapter;
use crate::chapter::ChapterView;
use crate::errors::BackendError;
use crate::html::first_inner;
use crate::html::html_select;
use crate::html::select_first_inner;
use crate::html::select_two_in_document;
use crate::order::ChapterOrderingFn;
use crate::order::OrderingMethod;
use crate::strutil::rfind_char;
use vstd::prelude::*;

verus! {

/// The URL pattern this backend claims.
pub const LR_URL_PATTERN: &'static str = "https?://libread\\.com/libread/\\w+";

/// A backend for the LibRead site, which serves the FreeWebNovel layout.
pub struct LibRead {
    url: String,
    page: String,
}


/// An empty instance: no URL, no page text. Usable only as a placeholder for
/// detection; construct a real one with [`Backend::new`].
impl Default for LibRead {
    fn default() -> (r: LibRead)
        ensures
            r.wf(),
            r.spec_url().len() == 0,
    {
        LibRead { url: String::new(), page: String::new() }
    }
}

impl Backend for LibRead {
    open spec fn spec_regexps() -> Seq<Seq<char>> {
        seq![LR_URL_PATTERN@]
    }

    open spec fn spec_name() -> Seq<char> {
        "libread"@
    }

    open spec fn spec_ordering() -> OrderingMethod {
        OrderingMethod::TitleChapterNumber
    }

    open spec fn spec_pages_needed() -> int {
        1
    }

    closed spec fn spec_url(&self) -> Seq<char> {
        self.url@
    }

    closed spec fn spec_pages(&self) -> Seq<Seq<char>> {
        seq![self.page@]
    }

    closed spec fn wf(&self) -> bool {
        true
    }

    closed spec fn spec_title(&self) -> Option<Seq<char>> {
        first_inner(self.page@, FWN_TITLE_SELECTOR@)
    }

    closed spec fn spec_identifier(&self) -> Option<Seq<char>> {
        Some(self.url@.subrange(rfind_char(self.url@, '/') + 1, self.url@.len() as int))
    }

    closed spec fn spec_cover_url(&self) -> Option<Seq<char>> {
        crate::html::first_attr(self.page@, FWN_COVER_SELECTOR@, "content"@)
    }

    closed spec fn spec_authors(&self) -> Option<Seq<Seq<char>>> {
        match html_select(self.page@, FWN_AUTHORS_SELECTOR@, "href"@) {
            Some(s) => Some(fwn_authors_from(s)),
            None => None,
        }
    }

    closed spec fn spec_chapter_list(&self) -> Option<Seq<(usize, Seq<char>)>> {
        fwn_chapter_list(self.page@)
    }

    closed spec fn spec_in_range(&self, n: int) -> bool {
        fwn_listing(self.page@) matches Some(v) && 1 <= n <= v.len()
    }

    closed spec fn spec_chapter_url(&self, n: int) -> Option<Seq<char>> {
        match fwn_listing(self.page@) {
            Some(v) => match v[n - 1].1 {
                Some(h) => Some("https://libread.com"@ + h),
                None => None,
            },
            None => None,
        }
    }

    closed spec fn spec_chapter_from(&self, n: int, page: Seq<char>) -> Option<ChapterView> {
        match self.spec_chapter_url(n) {
            None => None,
            Some(curl) => match first_inner(page, FWN_CHAPTER_TITLE_SELECTOR@) {
                None => None,
                Some(t) => match first_inner(page, FWN_CHAPTER_CONTENT_SELECTOR@) {
                    None => None,
                    Some(content) => Some(
                        ChapterView {
                            index: n as usize,
                            title: Some(t),
                            content: crate::html::dom_normalize(content),
                            chapter_url: curl,
                            fiction_url: self.url@,
                            published_at: None,
                            metadata: Seq::empty(),
                        },
                    ),
                },
            },
        }
    }

    fn get_backend_regexps() -> (r: Vec<String>) {
        let mut r: Vec<String> = Vec::new();
        r.push(String::from_str(LR_URL_PATTERN));
        proof {
            assert(r.deep_view() =~= Self::spec_regexps());
        }
        r
    }

    fn get_backend_name() -> (r: &'static str) {
        "libread"
    }

    fn get_ordering_function() -> (r: ChapterOrderingFn) {
        ChapterOrderingFn::new(OrderingMethod::TitleChapterNumber)
    }

    fn initial_page_urls(url: &str) -> (r: Vec<String>) {
        let mut r: Vec<String> = Vec::new();
        r.push(String::from_str(url));
        r
    }

    fn new(url: &str, responses: Vec<FetchResponse>) -> (r: Result<Self, BackendError>) {
        if responses.len() != 1 {
            return Err(
                BackendError::ParseError(String::from_str("expected exactly one fetched page")),
            );
        }
        let resp = &responses[0];
        if !resp.success() {
            proof {
                assert(!responses@[0].is_success());
            }
            return Err(
                BackendError::RequestFailed {
                    message: String::from_str("could not fetch fiction url"),
                    status: resp.status,
                    body: resp.body.clone(),
                },
            );
        }
        let b = LibRead { url: String::from_str(url), page: resp.body.clone() };
        proof {
            assert(b.spec_pages() =~= bodies_of(responses@));
            assert(all_success(responses@)) by {
                assert(responses@[0].is_success());
            }
        }
        Ok(b)
    }

    proof fn lemma_in_range_positive(&self, n: int) {
    }

    proof fn lemma_identifier_url_pure(&self, other: &Self) {
    }

    fn url(&self) -> (r: String) {
        self.url.clone()
    }

    fn title(&self) -> (r: Result<String, BackendError>) {
        title_of(self.page.as_str())
    }

    fn immutable_identifier(&self) -> (r: Result<String, BackendError>) {
        Ok(last_url_segment(self.url.as_str()))
    }

    fn cover_url(&self) -> (r: Result<String, BackendError>) {
        cover_url_of(self.page.as_str())
    }

    fn get_authors(&self) -> (r: Result<Vec<String>, BackendError>) {
        authors_of(self.page.as_str())
    }

    fn get_chapter_list(&self) -> (r: Result<Vec<ChapterListElem>, BackendError>) {
        let r = chapter_list_of(self.page.as_str());
        proof {
            if fwn_chapter_list(self.page@) is Some {
                let v = fwn_listing(self.page@)->0;
                let l = fwn_chapter_list(self.page@)->0;
                assert(l.len() == v.len());
                assert forall|n: int| self.spec_in_range(n) <==> 1 <= n <= l.len() by {}
                if r is Ok {
                    let out = r->Ok_0;
                    assert(l == crate::backends::list_view(out@));
                    assert(l.len() == out@.len() && out@.len() == out.len());
                    assert forall|i: int| 0 <= i < l.len() implies (#[trigger] l[i]).0 == i
                        + 1 by {
                        assert(i + 1 <= l.len() <= usize::MAX);
                    }
                } else {
                    assert(false);
                }
            }
        }
        r
    }

    fn chapter_url(&self, chapter_number: usize) -> (r: Result<String, BackendError>) {
        if chapter_number == 0 {
            return Err(BackendError::UnknownChapter(chapter_number));
        }
        let sel = match select_two_in_document(
            self.page.as_str(),
            FWN_CHAPTER_LIST_SELECTOR,
            "title",
            "href",
        ) {
            Some(s) => s,
            None => {
                return Err(BackendError::UnknownChapter(chapter_number));
            },
        };
        if chapter_number > sel.len() {
            return Err(BackendError::UnknownChapter(chapter_number));
        }
        proof {
            assert(fwn_listing(self.page@)->0[chapter_number - 1] == crate::html::triple_view(
                sel@[chapter_number - 1],
            ));
        }
        match &sel[chapter_number - 1].1 {
            Some(h) => {
                let mut u = String::from_str("https://libread.com");
                u.append(h.as_str());
                Ok(u)
            },
            None => Err(
                BackendError::ParseError(String::from_str("chapter link without an href")),
            ),
        }
    }

    fn chapter_from_response(&self, chapter_number: usize, response: &FetchResponse) -> (r: Result<
        Chapter,
        BackendError,
    >) {
        let curl = match self.chapter_url(chapter_number) {
            Ok(u) => {
                if !response.success() {
                    return Err(
                        BackendError::RequestFailed {
                            message: String::from_str("could not get chapter page"),
                            status: response.status,
                            body: response.body.clone(),
                        },
                    );
                }
                u
            },
            Err(BackendError::UnknownChapter(k)) => {
                return Err(BackendError::UnknownChapter(k));
            },
            Err(e) => {
                if !response.success() {
                    return Err(
                        BackendError::RequestFailed {
                            message: String::from_str("could not get chapter page"),
                            status: response.status,
                            body: response.body.clone(),
                        },
                    );
                }
                return Err(e);
            },
        };
        let t = match select_first_inner(response.body.as_str(), FWN_CHAPTER_TITLE_SELECTOR) {
            Some(t) => t,
            None => {
                return Err(
                    BackendError::ParseError(String::from_str("could not find chapter title")),
                );
            },
        };
        let content = match select_first_inner(
            response.body.as_str(),
            FWN_CHAPTER_CONTENT_SELECTOR,
        ) {
            Some(c) => c,
            None => {
                return Err(
                    BackendError::ParseError(String::from_str("could not find chapter content")),
                );
            },
        };
        let mut c = Chapter::default();
        c.set_index(chapter_number);
        c.set_title(Some(t));
        c.set_chapter_url(curl);
        c.set_fiction_url(self.url.clone());
        c.set_content(content.as_str());
        proof {
            assert(c@.metadata =~= Seq::<(Seq<char>, Seq<char>)>::empty());
            assert(self.spec_chapter_from(chapter_number as int, response.body@) == Some(c@));
        }
        Ok(c)
    }
}

} // verus!
