//! The FreeWebNovel backend. Its page helpers are shared with the LibRead
//! backend, whose site is another frontend of the same layout.
use crate::backends::all_success;
use crate::backends::bodies_of;
use crate::backends::Backend;
use crate::backends::ChapterListElem;
use crate::backends::FetchResponse;
use crate::chapter::Chapter;
use crate::chapter::ChapterView;
use crate::errors::BackendError;
use crate::html::first_inner;
use crate::html::html_select;
use crate::html::html_select2;
use crate::html::select_first_inner;
use crate::html::select_two_in_document;
use crate::order::ChapterOrderingFn;
use crate::order::OrderingMethod;
use crate::strutil::has_prefix;
use crate::strutil::has_suffix;
use crate::strutil::rfind_char;
use crate::strutil::char_rfind;
use crate::strutil::strip_suffix_str;
use crate::strutil::substring_of;
use vstd::prelude::*;

verus! {

/// Selector for the fiction title.
pub const FWN_TITLE_SELECTOR: &'static str = "h1.tit";

/// Selector for author links.
pub const FWN_AUTHORS_SELECTOR: &'static str = "a.a1";

/// Selector for the chapter list entries.
pub const FWN_CHAPTER_LIST_SELECTOR: &'static str = "div.m-newest2 ul#idData li a.con";

/// Selector for a chapter page's title.
pub const FWN_CHAPTER_TITLE_SELECTOR: &'static str = "div.top span.chapter";

/// Selector for a chapter page's content.
pub const FWN_CHAPTER_CONTENT_SELECTOR: &'static str = "div.txt div#article";

/// Selector for the cover image URL.
pub const FWN_COVER_SELECTOR: &'static str = "meta[property='og:image']";

/// The URL pattern this backend claims.
pub const FWN_URL_PATTERN: &'static str = "https?://freewebnovel\\.com/[\\w-]+\\.html";

/// The listing elements of a FreeWebNovel-layout page: per chapter link, its
/// `title` attribute, its `href` attribute and its inner HTML.
pub open spec fn fwn_listing(page: Seq<char>) -> Option<
    Seq<(Option<Seq<char>>, Option<Seq<char>>, Seq<char>)>,
> {
    html_select2(page, FWN_CHAPTER_LIST_SELECTOR@, "title"@, "href"@)
}

/// The authors among the author links: those whose `href` sits under
/// `/author/` or `/authors/`.
pub open spec fn fwn_authors_from(
    s: Seq<(Option<Seq<char>>, Seq<char>)>,
) -> Seq<Seq<char>>
    decreases s.len(),
{
    if s.len() == 0 {
        Seq::empty()
    } else {
        let keep = match s[0].0 {
            Some(h) => has_prefix(h, "/author/"@) || has_prefix(h, "/authors/"@),
            None => false,
        };
        if keep {
            seq![s[0].1] + fwn_authors_from(s.drop_first())
        } else {
            fwn_authors_from(s.drop_first())
        }
    }
}

/// The chapter list a FreeWebNovel-layout page shows: position `i + 1` with
/// the link's `title` attribute, when every link carries one.
pub open spec fn fwn_chapter_list(page: Seq<char>) -> Option<Seq<(usize, Seq<char>)>> {
    match fwn_listing(page) {
        None => None,
        Some(v) => if forall|i: int| 0 <= i < v.len() ==> (#[trigger] v[i]).0 is Some {
            Some(Seq::new(v.len(), |i: int| (((i + 1) as usize), v[i].0->0)))
        } else {
            None
        },
    }
}

/// The identifier a FreeWebNovel URL carries: its last path segment without
/// the `.html` suffix.
pub open spec fn fwn_identifier(url: Seq<char>) -> Option<Seq<char>> {
    let seg = url.subrange(rfind_char(url, '/') + 1, url.len() as int);
    if has_suffix(seg, ".html"@) {
        Some(seg.subrange(0, seg.len() - ".html"@.len()))
    } else {
        None
    }
}

/// The last path segment of a URL.
pub(crate) fn last_url_segment(url: &str) -> (r: String)
    ensures
        r@ == url@.subrange(rfind_char(url@, '/') + 1, url@.len() as int),
{
    let n = crate::strutil::str_char_len(url);
    match char_rfind(url, '/') {
        Some(i) => substring_of(url, i + 1, n),
        None => substring_of(url, 0, n),
    }
}

/// Shared title extraction for the FreeWebNovel page layout.
pub(crate) fn title_of(page: &str) -> (r: Result<String, BackendError>)
    ensures
        match r {
            Ok(t) => first_inner(page@, FWN_TITLE_SELECTOR@) == Some(t@),
            Err(e) => first_inner(page@, FWN_TITLE_SELECTOR@) is None && e is ParseError,
        },
{
    match select_first_inner(page, FWN_TITLE_SELECTOR) {
        Some(t) => Ok(t),
        None => Err(BackendError::ParseError(String::from_str("could not get a title"))),
    }
}

/// Shared cover extraction for the FreeWebNovel page layout.
pub(crate) fn cover_url_of(page: &str) -> (r: Result<String, BackendError>)
    ensures
        match r {
            Ok(t) => crate::html::first_attr(page@, FWN_COVER_SELECTOR@, "content"@) == Some(t@),
            Err(e) => crate::html::first_attr(page@, FWN_COVER_SELECTOR@, "content"@) is None
                && e is ParseError,
        },
{
    match crate::html::select_first_attr(page, FWN_COVER_SELECTOR, "content") {
        Some(t) => Ok(t),
        None => Err(BackendError::ParseError(String::from_str("could not find cover url"))),
    }
}

/// Shared author extraction for the FreeWebNovel page layout.
pub(crate) fn authors_of(page: &str) -> (r: Result<Vec<String>, BackendError>)
    ensures
        match r {
            Ok(v) => html_select(page@, FWN_AUTHORS_SELECTOR@, "href"@) matches Some(s)
                && v.deep_view() == fwn_authors_from(s),
            Err(e) => html_select(page@, FWN_AUTHORS_SELECTOR@, "href"@) is None && e is ParseError,
        },
{
    let sel = match crate::html::select_in_document(page, FWN_AUTHORS_SELECTOR, "href") {
        Some(s) => s,
        None => {
            return Err(BackendError::ParseError(String::from_str("bad author selector")));
        },
    };
    let ghost sv = html_select(page@, FWN_AUTHORS_SELECTOR@, "href"@)->0;
    let mut out: Vec<String> = Vec::new();
    let n = sel.len();
    let mut i: usize = 0;
    proof {
        assert(sv.skip(0) =~= sv);
    }
    while i < n
        invariant
            n == sel@.len(),
            0 <= i <= n,
            sv == sel@.map_values(|p: (Option<String>, String)| crate::html::pair_view(p)),
            html_select(page@, FWN_AUTHORS_SELECTOR@, "href"@) == Some(sv),
            fwn_authors_from(sv) == out.deep_view() + fwn_authors_from(sv.skip(i as int)),
        decreases n - i,
    {
        let ghost rest = sv.skip(i as int);
        proof {
            assert(rest[0] == sv[i as int]);
            assert(sv[i as int] == crate::html::pair_view(sel@[i as int]));
            assert(rest.drop_first() =~= sv.skip(i as int + 1));
        }
        let keep = match &sel[i].0 {
            Some(h) => crate::strutil::starts_with_str(h.as_str(), "/author/")
                || crate::strutil::starts_with_str(h.as_str(), "/authors/"),
            None => false,
        };
        if keep {
            let ghost prev_dv = out.deep_view();
            out.push(sel[i].1.clone());
            proof {
                assert(forall|k: int|
                    0 <= k < out@.len() ==> #[trigger] out.deep_view()[k] == out@[k]@);
                assert(forall|k: int|
                    0 <= k < prev_dv.len() ==> #[trigger] prev_dv[k] == out@[k]@);
                assert(out.deep_view() =~= prev_dv.push(sel@[i as int].1@));
                assert(fwn_authors_from(rest) == seq![rest[0].1] + fwn_authors_from(
                    rest.drop_first(),
                ));
                assert(prev_dv + (seq![rest[0].1] + fwn_authors_from(rest.drop_first()))
                    =~= out.deep_view() + fwn_authors_from(rest.drop_first()));
            }
        } else {
            proof {
                assert(fwn_authors_from(rest) == fwn_authors_from(rest.drop_first()));
            }
        }
        i += 1;
    }
    proof {
        assert(sv.skip(n as int) =~= Seq::<(Option<Seq<char>>, Seq<char>)>::empty());
        assert(fwn_authors_from(sv.skip(n as int)) =~= Seq::<Seq<char>>::empty());
        assert(out.deep_view() + fwn_authors_from(sv.skip(n as int)) =~= out.deep_view());
    }
    Ok(out)
}

/// Shared chapter-list extraction for the FreeWebNovel page layout.
pub(crate) fn chapter_list_of(page: &str) -> (r: Result<Vec<ChapterListElem>, BackendError>)
    ensures
        match r {
            Ok(v) => fwn_chapter_list(page@) == Some(crate::backends::list_view(v@)),
            Err(e) => fwn_chapter_list(page@) is None && e is ParseError,
        },
{
    let sel = match select_two_in_document(page, FWN_CHAPTER_LIST_SELECTOR, "title", "href") {
        Some(s) => s,
        None => {
            return Err(BackendError::ParseError(String::from_str("bad chapter list selector")));
        },
    };
    let ghost sv = fwn_listing(page@)->0;
    let mut out: Vec<ChapterListElem> = Vec::new();
    let n = sel.len();
    let mut i: usize = 0;
    while i < n
        invariant
            n == sel@.len(),
            0 <= i <= n,
            sv == sel@.map_values(
                |p: (Option<String>, Option<String>, String)| crate::html::triple_view(p),
            ),
            fwn_listing(page@) == Some(sv),
            out@.len() == i,
            forall|t: int| 0 <= t < i ==> (#[trigger] sv[t]).0 is Some,
            forall|t: int|
                0 <= t < i ==> crate::backends::list_view(out@)[t] == (
                ((t + 1) as usize),
                (#[trigger] sv[t]).0->0,
            ),
        decreases n - i,
    {
        proof {
            assert(sv[i as int] == crate::html::triple_view(sel@[i as int]));
        }
        match &sel[i].0 {
            Some(t) => {
                out.push((i + 1, t.clone()));
            },
            None => {
                proof {
                    assert((sv[i as int]).0 is None);
                }
                return Err(
                    BackendError::ParseError(
                        String::from_str("chapter link without a title attribute"),
                    ),
                );
            },
        }
        i += 1;
    }
    proof {
        assert forall|t: int| 0 <= t < sv.len() implies (#[trigger] sv[t]).0 is Some by {}
        assert(crate::backends::list_view(out@) =~= Seq::new(
            sv.len(),
            |i: int| (((i + 1) as usize), sv[i].0->0),
        ));
    }
    Ok(out)
}

/// An implementation of [`Backend`] for the FreeWebNovel site layout.
pub struct FreeWebNovel {
    url: String,
    page: String,
}

impl FreeWebNovel {
    /// The fiction page text this instance holds.
    pub closed spec fn spec_page(&self) -> Seq<char> {
        self.page@
    }
}


/// An empty instance: no URL, no page text. Usable only as a placeholder for
/// detection; construct a real one with [`Backend::new`].
impl Default for FreeWebNovel {
    fn default() -> (r: FreeWebNovel)
        ensures
            r.wf(),
            r.spec_url().len() == 0,
    {
        FreeWebNovel { url: String::new(), page: String::new() }
    }
}

impl Backend for FreeWebNovel {
    open spec fn spec_regexps() -> Seq<Seq<char>> {
        seq![FWN_URL_PATTERN@]
    }

    open spec fn spec_name() -> Seq<char> {
        "freewebnovel"@
    }

    open spec fn spec_ordering() -> OrderingMethod {
        OrderingMethod::TitleChapterNumber
    }

    open spec fn spec_pages_needed() -> int {
        1
    }

    closed spec fn spec_url(&self) -> Seq<char> {
        self.url@
    }

    closed spec fn spec_pages(&self) -> Seq<Seq<char>> {
        seq![self.page@]
    }

    closed spec fn wf(&self) -> bool {
        true
    }

    closed spec fn spec_title(&self) -> Option<Seq<char>> {
        first_inner(self.page@, FWN_TITLE_SELECTOR@)
    }

    closed spec fn spec_identifier(&self) -> Option<Seq<char>> {
        fwn_identifier(self.url@)
    }

    closed spec fn spec_cover_url(&self) -> Option<Seq<char>> {
        crate::html::first_attr(self.page@, FWN_COVER_SELECTOR@, "content"@)
    }

    closed spec fn spec_authors(&self) -> Option<Seq<Seq<char>>> {
        match html_select(self.page@, FWN_AUTHORS_SELECTOR@, "href"@) {
            Some(s) => Some(fwn_authors_from(s)),
            None => None,
        }
    }

    closed spec fn spec_chapter_list(&self) -> Option<Seq<(usize, Seq<char>)>> {
        fwn_chapter_list(self.page@)
    }

    closed spec fn spec_in_range(&self, n: int) -> bool {
        fwn_listing(self.page@) matches Some(v) && 1 <= n <= v.len()
    }

    closed spec fn spec_chapter_url(&self, n: int) -> Option<Seq<char>> {
        match fwn_listing(self.page@) {
            Some(v) => match v[n - 1].1 {
                Some(h) => Some("https://freewebnovel.com"@ + h),
                None => None,
            },
            None => None,
        }
    }

    closed spec fn spec_chapter_from(&self, n: int, page: Seq<char>) -> Option<ChapterView> {
        match self.spec_chapter_url(n) {
            None => None,
            Some(curl) => match first_inner(page, FWN_CHAPTER_TITLE_SELECTOR@) {
                None => None,
                Some(t) => match first_inner(page, FWN_CHAPTER_CONTENT_SELECTOR@) {
                    None => None,
                    Some(content) => Some(
                        ChapterView {
                            index: n as usize,
                            title: Some(t),
                            content: crate::html::dom_normalize(content),
                            chapter_url: curl,
                            fiction_url: self.url@,
                            published_at: None,
                            metadata: Seq::empty(),
                        },
                    ),
                },
            },
        }
    }

    fn get_backend_regexps() -> (r: Vec<String>) {
        let mut r: Vec<String> = Vec::new();
        r.push(String::from_str(FWN_URL_PATTERN));
        proof {
            assert(r.deep_view() =~= Self::spec_regexps());
        }
        r
    }

    fn get_backend_name() -> (r: &'static str) {
        "freewebnovel"
    }

    fn get_ordering_function() -> (r: ChapterOrderingFn) {
        ChapterOrderingFn::new(OrderingMethod::TitleChapterNumber)
    }

    fn initial_page_urls(url: &str) -> (r: Vec<String>) {
        let mut r: Vec<String> = Vec::new();
        r.push(String::from_str(url));
        r
    }

    fn new(url: &str, responses: Vec<FetchResponse>) -> (r: Result<Self, BackendError>) {
        if responses.len() != 1 {
            return Err(
                BackendError::ParseError(String::from_str("expected exactly one fetched page")),
            );
        }
        let resp = &responses[0];
        if !resp.success() {
            proof {
                assert(!responses@[0].is_success());
            }
            return Err(
                BackendError::RequestFailed {
                    message: String::from_str("could not fetch fiction url"),
                    status: resp.status,
                    body: resp.body.clone(),
                },
            );
        }
        let b = FreeWebNovel { url: String::from_str(url), page: resp.body.clone() };
        proof {
            assert(b.spec_pages() =~= bodies_of(responses@));
            assert(all_success(responses@)) by {
                assert(responses@[0].is_success());
            }
        }
        Ok(b)
    }

    proof fn lemma_in_range_positive(&self, n: int) {
    }

    proof fn lemma_identifier_url_pure(&self, other: &Self) {
    }

    fn url(&self) -> (r: String) {
        self.url.clone()
    }

    fn title(&self) -> (r: Result<String, BackendError>) {
        title_of(self.page.as_str())
    }

    fn immutable_identifier(&self) -> (r: Result<String, BackendError>) {
        let seg = last_url_segment(self.url.as_str());
        match strip_suffix_str(seg.as_str(), ".html") {
            Some(t) => Ok(t),
            None => Err(
                BackendError::ParseError(String::from_str("fiction url has no .html suffix")),
            ),
        }
    }

    fn cover_url(&self) -> (r: Result<String, BackendError>) {
        cover_url_of(self.page.as_str())
    }

    fn get_authors(&self) -> (r: Result<Vec<String>, BackendError>) {
        authors_of(self.page.as_str())
    }

    fn get_chapter_list(&self) -> (r: Result<Vec<ChapterListElem>, BackendError>) {
        let r = chapter_list_of(self.page.as_str());
        proof {
            if fwn_chapter_list(self.page@) is Some {
                let v = fwn_listing(self.page@)->0;
                let l = fwn_chapter_list(self.page@)->0;
                assert(l.len() == v.len());
                assert forall|n: int| self.spec_in_range(n) <==> 1 <= n <= l.len() by {}
                if r is Ok {
                    let out = r->Ok_0;
                    assert(l == crate::backends::list_view(out@));
                    assert(l.len() == out@.len() && out@.len() == out.len());
                    assert forall|i: int| 0 <= i < l.len() implies (#[trigger] l[i]).0 == i
                        + 1 by {
                        assert(i + 1 <= l.len() <= usize::MAX);
                    }
                } else {
                    assert(false);
                }
            }
        }
        r
    }

    fn chapter_url(&self, chapter_number: usize) -> (r: Result<String, BackendError>) {
        if chapter_number == 0 {
            return Err(BackendError::UnknownChapter(chapter_number));
        }
        let sel = match select_two_in_document(
            self.page.as_str(),
            FWN_CHAPTER_LIST_SELECTOR,
            "title",
            "href",
        ) {
            Some(s) => s,
            None => {
                return Err(BackendError::UnknownChapter(chapter_number));
            },
        };
        if chapter_number > sel.len() {
            return Err(BackendError::UnknownChapter(chapter_number));
        }
        proof {
            assert(fwn_listing(self.page@)->0[chapter_number - 1] == crate::html::triple_view(
                sel@[chapter_number - 1],
            ));
        }
        match &sel[chapter_number - 1].1 {
            Some(h) => {
                let mut u = String::from_str("https://freewebnovel.com");
                u.append(h.as_str());
                Ok(u)
            },
            None => Err(
                BackendError::ParseError(String::from_str("chapter link without an href")),
            ),
        }
    }

    fn chapter_from_response(&self, chapter_number: usize, response: &FetchResponse) -> (r: Result<
        Chapter,
        BackendError,
    >) {
        let curl = match self.chapter_url(chapter_number) {
            Ok(u) => {
                if !response.success() {
                    return Err(
                        BackendError::RequestFailed {
                            message: String::from_str("could not get chapter page"),
                            status: response.status,
                            body: response.body.clone(),
                        },
                    );
                }
                u
            },
            Err(BackendError::UnknownChapter(k)) => {
                return Err(BackendError::UnknownChapter(k));
            },
            Err(e) => {
                if !response.success() {
                    return Err(
                        BackendError::RequestFailed {
                            message: String::from_str("could not get chapter page"),
                            status: response.status,
                            body: response.body.clone(),
                        },
                    );
                }
                return Err(e);
            },
        };
        let t = match select_first_inner(response.body.as_str(), FWN_CHAPTER_TITLE_SELECTOR) {
            Some(t) => t,
            None => {
                return Err(
                    BackendError::ParseError(String::from_str("could not find chapter title")),
                );
            },
        };
        let content = match select_first_inner(
            response.body.as_str(),
            FWN_CHAPTER_CONTENT_SELECTOR,
        ) {
            Some(c) => c,
            None => {
                return Err(
                    BackendError::ParseError(String::from_str("could not find chapter content")),
                );
            },
        };
        let mut c = Chapter::default();
        c.set_index(chapter_number);
        c.set_title(Some(t));
        c.set_chapter_url(curl);
        c.set_fiction_url(self.url.clone());
        c.set_content(content.as_str());
        proof {
            assert(c@.metadata =~= Seq::<(Seq<char>, Seq<char>)>::empty());
            assert(self.spec_chapter_from(chapter_number as int, response.body@) == Some(c@));
        }
        Ok(c)
    }

    fn get_chapter_count(&self) -> (r: Result<usize, BackendError>) {
        let sel = match select_two_in_document(
            self.page.as_str(),
            FWN_CHAPTER_LIST_SELECTOR,
            "title",
            "href",
        ) {
            Some(s) => s,
            None => {
                return Err(
                    BackendError::ParseError(String::from_str("bad chapter list selector")),
                );
            },
        };
        let mut i: usize = 0;
        let n = sel.len();
        while i < n
            invariant
                n == sel@.len(),
                0 <= i <= n,
                fwn_listing(self.page@) == Some(
                    sel@.map_values(
                        |p: (Option<String>, Option<String>, String)| crate::html::triple_view(p),
                    ),
                ),
                forall|t: int| 0 <= t < i ==> (#[trigger] fwn_listing(self.page@)->0[t]).0 is Some,
            decreases n - i,
        {
            proof {
                assert(fwn_listing(self.page@)->0[i as int] == crate::html::triple_view(
                    sel@[i as int],
                ));
            }
            match &sel[i].0 {
                Some(_) => {},
                None => {
                    return Err(
                        BackendError::ParseError(
                            String::from_str("chapter link without a title attribute"),
                        ),
                    );
                },
            }
            i += 1;
        }
        proof {
            let v = fwn_listing(self.page@)->0;
            assert(fwn_chapter_list(self.page@)->0.len() == v.len());
        }
        Ok(n)
    }
}

} // verus!
