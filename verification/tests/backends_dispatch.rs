use libwebnovel::backends::chapter_list_elem;
use libwebnovel::backends::Backend;
use libwebnovel::backends::Backends;
use libwebnovel::backends::FetchResponse;
use libwebnovel::backends::FreeWebNovel;
use libwebnovel::chapter::Chapter;
use libwebnovel::errors::BackendError;
use libwebnovel::relib::regex_capture;

const FICTION_PAGE: &str = "<html><head><meta property=\"og:image\" content=\"https://img.example/c.jpg\"></head><body><h1 class=\"tit\">My Novel</h1><a class=\"a1\" href=\"/author/alice\">Alice</a><a class=\"a1\" href=\"/somewhere\">Not An Author</a><div class=\"m-newest2\"><ul id=\"idData\"><li><a class=\"con\" title=\"Chapter 1: A\" href=\"/my-novel/chapter-1\"></a></li><li><a class=\"con\" title=\"Chapter 2: B\" href=\"/my-novel/chapter-2\"></a></li></ul></div></body></html>";

const CHAPTER_PAGE: &str = "<html><body><div class=\"top\"><span class=\"chapter\">Chapter 1: A</span></div><div class=\"txt\"><div id=\"article\"><p>Hello there.</p></div></div></body></html>";

fn fwn() -> FreeWebNovel {
    FreeWebNovel::new(
        "https://freewebnovel.com/my-novel.html",
        vec![FetchResponse { status: 200, body: FICTION_PAGE.to_string() }],
    )
    .unwrap()
}

#[test]
fn construction_rejects_a_failed_fetch() {
    let r = FreeWebNovel::new(
        "https://freewebnovel.com/my-novel.html",
        vec![FetchResponse { status: 503, body: "busy".to_string() }],
    );
    assert!(matches!(r, Err(BackendError::RequestFailed { status: 503, .. })));
}

#[test]
fn metadata_accessors_read_the_snapshot() {
    let b = fwn();
    assert_eq!(b.title().unwrap(), "My Novel");
    assert_eq!(b.cover_url().unwrap(), "https://img.example/c.jpg");
    assert_eq!(b.get_authors().unwrap(), vec!["Alice".to_string()]);
    assert_eq!(b.immutable_identifier().unwrap(), "my-novel");
    assert_eq!(b.url(), "https://freewebnovel.com/my-novel.html");
}

#[test]
fn chapter_zero_is_unknown() {
    let b = fwn();
    assert!(matches!(b.chapter_url(0), Err(BackendError::UnknownChapter(0))));
}

#[test]
fn a_position_past_the_listing_is_unknown() {
    let b = fwn();
    assert_eq!(b.get_chapter_count().unwrap(), 2);
    assert!(matches!(b.chapter_url(3), Err(BackendError::UnknownChapter(3))));
}

#[test]
fn chapter_count_matches_the_listing() {
    let b = fwn();
    let list = b.get_chapter_list().unwrap();
    assert_eq!(b.get_chapter_count().unwrap(), list.len());
    assert_eq!(list[0], (1, "Chapter 1: A".to_string()));
    assert_eq!(list[1], (2, "Chapter 2: B".to_string()));
}

#[test]
fn a_chapter_builds_from_its_page_and_survives_the_format() {
    let b = fwn();
    assert_eq!(
        b.chapter_url(1).unwrap(),
        "https://freewebnovel.com/my-novel/chapter-1"
    );
    let c = b
        .chapter_from_response(
            1,
            &FetchResponse { status: 200, body: CHAPTER_PAGE.to_string() },
        )
        .unwrap();
    assert_eq!(c.index(), 1);
    assert_eq!(c.title(), &Some("Chapter 1: A".to_string()));
    assert_eq!(c.content(), "<p>Hello there.</p>");
    assert_eq!(c.fiction_url(), "https://freewebnovel.com/my-novel.html");
    assert!(c.is_encodable());
    let back = Chapter::from_str(&c.to_string()).unwrap();
    assert_eq!(c, back);
}

#[test]
fn a_failed_chapter_fetch_carries_its_status() {
    let b = fwn();
    let r = b.chapter_from_response(1, &FetchResponse { status: 429, body: String::new() });
    assert!(matches!(r, Err(BackendError::RequestFailed { status: 429, .. })));
}

#[test]
fn a_chapter_page_without_content_is_a_parse_error() {
    let b = fwn();
    let r = b.chapter_from_response(
        1,
        &FetchResponse { status: 200, body: "<html><body></body></html>".to_string() },
    );
    assert!(matches!(r, Err(BackendError::ParseError(_))));
}

#[test]
fn detection_picks_the_claiming_backend() {
    let rr = Backends::detect("https://www.royalroad.com/fiction/21220/mother-of-learning").unwrap();
    assert_eq!(rr.get_backend_name(), "royalroad");
    let lr = Backends::detect("https://libread.com/libread/the-guide-33024").unwrap();
    assert_eq!(lr.get_backend_name(), "libread");
    let fw = Backends::detect("https://freewebnovel.com/my-novel.html").unwrap();
    assert_eq!(fw.get_backend_name(), "freewebnovel");
}

#[test]
fn an_unclaimed_url_has_no_backend() {
    let r = Backends::detect("https://example.org/not-a-novel");
    assert!(matches!(r, Err(BackendError::NoMatchingBackendFound(_))));
}

#[test]
fn the_identifier_comes_from_the_url_alone() {
    // deriving a stable key from a URL is one capture, no network access
    let id = regex_capture(
        "https://example\\.com/novel/([\\w-]+)",
        "https://example.com/novel/my-story-123",
        1,
    );
    assert_eq!(id, Some("my-story-123".to_string()));
}

#[test]
fn dispatcher_construction_builds_the_detected_kind() {
    let b = Backends::new(
        "https://freewebnovel.com/my-novel.html",
        vec![FetchResponse { status: 200, body: FICTION_PAGE.to_string() }],
    )
    .unwrap();
    assert_eq!(b.get_backend_name(), "freewebnovel");
    assert_eq!(b.url(), "https://freewebnovel.com/my-novel.html");
    assert_eq!(b.title().unwrap(), "My Novel");
    assert_eq!(b.cover_url().unwrap(), "https://img.example/c.jpg");
    assert_eq!(b.get_authors().unwrap(), vec!["Alice".to_string()]);
    assert_eq!(b.immutable_identifier().unwrap(), "my-novel");
    let list = b.get_chapter_list().unwrap();
    assert_eq!(b.get_chapter_count().unwrap(), list.len());
    assert_eq!(list[0], (1, "Chapter 1: A".to_string()));
    assert_eq!(
        b.chapter_url(1).unwrap(),
        "https://freewebnovel.com/my-novel/chapter-1"
    );
    assert!(matches!(b.chapter_url(0), Err(BackendError::UnknownChapter(0))));
    let c = b
        .chapter_from_response(
            1,
            &FetchResponse { status: 200, body: CHAPTER_PAGE.to_string() },
        )
        .unwrap();
    assert_eq!(c.title(), &Some("Chapter 1: A".to_string()));
}

#[test]
fn dispatcher_construction_fails_like_the_kind() {
    let r = Backends::new(
        "https://freewebnovel.com/my-novel.html",
        vec![FetchResponse { status: 503, body: "busy".to_string() }],
    );
    assert!(matches!(r, Err(BackendError::RequestFailed { status: 503, .. })));
    let none = Backends::new(
        "https://example.org/not-a-novel",
        vec![FetchResponse { status: 200, body: String::new() }],
    );
    assert!(matches!(none, Err(BackendError::NoMatchingBackendFound(_))));
}

#[test]
fn batch_building_fails_fast_with_the_first_bad_status() {
    let b = fwn();
    let ok = b
        .chapters_from_responses(&vec![
            FetchResponse { status: 200, body: CHAPTER_PAGE.to_string() },
            FetchResponse { status: 200, body: CHAPTER_PAGE.to_string() },
        ])
        .unwrap();
    assert_eq!(ok.len(), 2);
    assert_eq!(ok[1].index(), 2);
    let r = b.chapters_from_responses(&vec![
        FetchResponse { status: 200, body: CHAPTER_PAGE.to_string() },
        FetchResponse { status: 500, body: String::new() },
    ]);
    assert!(matches!(r, Err(BackendError::RequestFailed { status: 500, .. })));
}

#[test]
fn a_chapter_yields_its_listing_entry() {
    let b = fwn();
    let c = b
        .chapter_from_response(
            2,
            &FetchResponse { status: 200, body: CHAPTER_PAGE.to_string() },
        )
        .unwrap();
    assert_eq!(chapter_list_elem(&c).unwrap(), (2, "Chapter 1: A".to_string()));
    let untitled = Chapter::default();
    assert!(matches!(
        chapter_list_elem(&untitled),
        Err(BackendError::MissingChapterInformation { .. })
    ));
}

#[test]
fn royalroad_identifier_is_slug_then_id() {
    let b = libwebnovel::backends::RoyalRoad::new(
        "https://www.royalroad.com/fiction/21220/mother-of-learning",
        vec![FetchResponse { status: 200, body: "<html></html>".to_string() }],
    )
    .unwrap();
    assert_eq!(b.immutable_identifier().unwrap(), "mother-of-learning-21220");
}
