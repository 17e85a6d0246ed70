use libwebnovel::chapter::Chapter;
use libwebnovel::timestamp::Timestamp;

fn sample_chapter(content: &str) -> Chapter {
    let mut chapter = Chapter::default();
    chapter.set_title(Some("title".to_string()));
    chapter.set_chapter_url("https://chapter.url/".to_string());
    chapter.set_fiction_url("https://fiction.url".to_string());
    chapter.set_index(1);
    chapter.set_published_at(None);
    chapter.add_metadata("authors".to_string(), "Ye Fei Ran, 叶斐然".to_string());
    chapter.set_content(content);
    chapter
}

#[test]
fn test_chapter_display() {
    let chapter = sample_chapter("<p>Test content</p>");
    let s = chapter.to_string();
    let expected = [
        "<!--",
        "index: 1",
        "chapter_url: https://chapter.url/",
        "fiction_url: https://fiction.url",
        "published_at: not_found",
        "metadata:",
        "  authors: Ye Fei Ran, 叶斐然",
        "-->",
        "<h1 class=\"mainTitle\">title</h1>",
        "<div class=\"content\">",
        "<p>Test content</p>",
        "</div>",
    ]
    .join("\n");
    assert_eq!(s, expected);
}

#[test]
fn test_chapter_to_string_and_back() {
    let chapter = sample_chapter("<p>test content</p>");
    let s = chapter.to_string();
    let chapter_2 = Chapter::from_str(&s).unwrap();
    assert_eq!(chapter, chapter_2);
}

#[test]
fn round_trip_keeps_every_field() {
    // encoding a chapter and decoding it gives the chapter back
    let mut chapter = Chapter::default();
    chapter.set_index(1);
    chapter.set_title(Some("Ch.1".to_string()));
    chapter.set_chapter_url("u1".to_string());
    chapter.set_fiction_url("f1".to_string());
    chapter.set_published_at(None);
    chapter.add_metadata("authors".to_string(), "A, B".to_string());
    chapter.set_content("<p>x</p>");
    assert!(chapter.is_encodable());
    let decoded = Chapter::from_str(&chapter.to_string()).unwrap();
    assert_eq!(chapter, decoded);
}

#[test]
fn round_trip_keeps_a_timestamp() {
    let mut chapter = Chapter::default();
    chapter.set_index(7);
    chapter.set_chapter_url("https://c".to_string());
    chapter.set_fiction_url("https://f".to_string());
    let at = Timestamp::new(1634458171, 0).unwrap();
    chapter.set_published_at(Some(at));
    chapter.set_content("<p>y</p>");
    assert!(chapter.is_encodable());
    let s = chapter.to_string();
    assert!(s.contains("published_at: 2021-10-17T08:09:31+00:00"));
    let decoded = Chapter::from_str(&s).unwrap();
    assert_eq!(chapter, decoded);
    assert_eq!(decoded.published_at(), &Some(at));
}

#[test]
fn decode_reads_the_documented_layout() {
    let chapter_str = [
        "",
        "<!--",
        "index: 1",
        "chapter_url: https://read.freewebnovel.me/the-guide-to-conquering-earthlings/chapter-1",
        "fiction_url: https://freewebnovel.com/the-guide-to-conquering-earthlings.html",
        "published_at: not_found",
        "metadata:",
        "  authors: Ye Fei Ran, 叶斐然",
        "-->",
        "<h1 class=\"mainTitle\">Chapter 1: 01</h1>",
        "<div class=\"content\">",
        "<p>this is some sample content, whatever man.</p>",
        "</div>",
    ]
    .join("\n");
    let chapter = Chapter::from_str(&chapter_str).unwrap();
    assert_eq!(chapter.title(), &Some("Chapter 1: 01".to_string()));
    assert_eq!(chapter.index(), 1);
    assert_eq!(
        chapter.chapter_url(),
        "https://read.freewebnovel.me/the-guide-to-conquering-earthlings/chapter-1"
    );
    assert_eq!(
        chapter.fiction_url(),
        "https://freewebnovel.com/the-guide-to-conquering-earthlings.html"
    );
    assert!(chapter.published_at().is_none());
    assert_eq!(
        chapter.content(),
        "<p>this is some sample content, whatever man.</p>"
    );
    assert_eq!(
        chapter.get_metadata("authors"),
        Some(&"Ye Fei Ran, 叶斐然".to_string())
    );
}

#[test]
fn decode_rejects_a_missing_index() {
    let s = "<!--\nchapter_url: u\nfiction_url: f\n-->\n<div class=\"content\">\nx\n</div>";
    assert!(Chapter::from_str(s).is_err());
}

#[test]
fn decode_rejects_a_bad_timestamp() {
    let s = "<!--\nindex: 1\nchapter_url: u\nfiction_url: f\npublished_at: yesterday\n-->\n<div class=\"content\">\nx\n</div>";
    assert!(Chapter::from_str(s).is_err());
}

#[test]
fn content_is_renormalised() {
    // structurally equivalent markup is stored identically
    let mut chapter = Chapter::default();
    chapter.set_content("<p>x</p>   ");
    assert_eq!(chapter.content(), "<p>x</p>");
}

#[test]
fn a_title_with_a_newline_is_not_encodable() {
    let mut chapter = Chapter::default();
    chapter.set_title(Some("a\nb".to_string()));
    assert!(!chapter.is_encodable());
}

#[test]
fn add_metadata_replaces_in_place() {
    let mut chapter = Chapter::default();
    chapter.add_metadata("k".to_string(), "v1".to_string());
    chapter.add_metadata("k".to_string(), "v2".to_string());
    assert_eq!(chapter.metadata().len(), 1);
    assert_eq!(chapter.get_metadata("k"), Some(&"v2".to_string()));
}
