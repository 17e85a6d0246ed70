use libwebnovel::chapter::Chapter;
use libwebnovel::fetch::FibonacciIterator;
use libwebnovel::fetch::SessionOutcome;
use libwebnovel::fetch::simulate_fetch;
use libwebnovel::order::sort_chapters;
use libwebnovel::order::ChapterOrderingFn;
use libwebnovel::order::OrderingMethod;
use libwebnovel::timestamp::Timestamp;

#[test]
fn test_fibonacci() {
    let mut iter = FibonacciIterator::new();
    let mut values: Vec<usize> = Vec::new();
    for _ in 0..10 {
        values.push(iter.next().unwrap());
    }
    assert_eq!(values, vec![0, 1, 1, 2, 3, 5, 8, 13, 21, 34]);
}

#[test]
fn rate_limits_then_success_sums_the_waits() {
    // three 429s then a success: waits 0 + 1 + 1 seconds
    let r = simulate_fetch(&vec![429, 429, 429, 200]);
    assert_eq!(r.outcome, SessionOutcome::Delivered(200));
    assert_eq!(r.total_wait, 2);
    assert_eq!(r.requests, 4);
}

#[test]
fn a_non_rate_limit_failure_is_delivered_at_once() {
    let r = simulate_fetch(&vec![404, 200]);
    assert_eq!(r.outcome, SessionOutcome::Delivered(404));
    assert_eq!(r.total_wait, 0);
    assert_eq!(r.requests, 1);
}

#[test]
fn sustained_rate_limiting_exhausts_after_twelve_requests() {
    // the twelfth 429 would need an 89-second wait, over the ceiling:
    // the responses after it are never requested
    let responses: Vec<u16> = vec![429; 20];
    let r = simulate_fetch(&responses);
    assert_eq!(r.outcome, SessionOutcome::Exhausted);
    assert_eq!(r.total_wait, 143);
    assert_eq!(r.requests, 12);
}

fn titled(title: Option<&str>, index: usize) -> Chapter {
    let mut c = Chapter::default();
    c.set_index(index);
    if let Some(t) = title {
        c.set_title(Some(t.to_string()));
    }
    c
}

#[test]
fn sorting_by_title_number_ignores_the_index() {
    let f = ChapterOrderingFn::new(OrderingMethod::TitleChapterNumber);
    let shuffled = vec![
        titled(Some("Chapter 10: j"), 1),
        titled(Some("Chapter 1: a"), 9),
        titled(Some("Chapter 2: b"), 5),
    ];
    let sorted = sort_chapters(&f, shuffled);
    let titles: Vec<&str> = sorted
        .iter()
        .map(|c| c.title().as_ref().unwrap().as_str())
        .collect();
    assert_eq!(titles, vec!["Chapter 1: a", "Chapter 2: b", "Chapter 10: j"]);
}

#[test]
fn a_chapter_without_a_readable_number_sorts_last() {
    let f = ChapterOrderingFn::new(OrderingMethod::TitleChapterNumber);
    let shuffled = vec![
        titled(Some("Epilogue"), 1),
        titled(Some("Chapter 3"), 2),
        titled(Some("Chapter 1"), 3),
    ];
    let sorted = sort_chapters(&f, shuffled);
    assert_eq!(sorted[0].title(), &Some("Chapter 1".to_string()));
    assert_eq!(sorted[1].title(), &Some("Chapter 3".to_string()));
    assert_eq!(sorted[2].title(), &Some("Epilogue".to_string()));
}

#[test]
fn sorting_by_publication_time_recovers_source_order() {
    let f = ChapterOrderingFn::new(OrderingMethod::PublishedAt);
    let mut a = Chapter::default();
    a.set_published_at(Some(Timestamp::new(200, 0).unwrap()));
    let mut b = Chapter::default();
    b.set_published_at(Some(Timestamp::new(100, 0).unwrap()));
    let mut c = Chapter::default();
    c.set_published_at(Some(Timestamp::new(100, 5).unwrap()));
    let sorted = sort_chapters(&f, vec![a, b, c]);
    assert_eq!(sorted[0].published_at(), &Some(Timestamp::new(100, 0).unwrap()));
    assert_eq!(sorted[1].published_at(), &Some(Timestamp::new(100, 5).unwrap()));
    assert_eq!(sorted[2].published_at(), &Some(Timestamp::new(200, 0).unwrap()));
}

#[test]
fn comparator_is_consistent_with_the_keys() {
    let f = ChapterOrderingFn::new(OrderingMethod::TitleChapterNumber);
    let a = titled(Some("Chapter 1"), 1);
    let b = titled(Some("Chapter 2"), 2);
    assert_eq!(f.compare(&a, &b), std::cmp::Ordering::Less);
    assert_eq!(f.compare(&b, &a), std::cmp::Ordering::Greater);
    assert_eq!(f.compare(&a, &a), std::cmp::Ordering::Equal);
}
