//! Stable chapter ordering, independent of the positional `index` field.
//!
//! Each backend orders chapters by an attribute intrinsic to its source:
//! either a chapter number parsed out of the title text, or the publication
//! timestamp. A chapter whose attribute cannot be read compares as larger
//! than every chapter whose attribute can, consistently, so reconciling
//! chapters fetched at different times never depends on a possibly stale
//! index.
use crate::chapter::Chapter;
use crate::chapter::ChapterView;
use crate::relib::re_capture;
use crate::relib::regex_capture;
use crate::strutil::parse_usize_dec;
use crate::strutil::spec_parse_usize;
use vstd::multiset::Multiset;
use vstd::prelude::*;

verus! {

/// The regular expression that reads a chapter number out of a title.
pub const TITLE_NUMBER_PATTERN: &'static str = "Chapter (\\d+)";

/// Which intrinsic attribute a backend orders its chapters by.
#[derive(Clone, Copy, Debug, PartialEq, Eq, Structural)]
pub enum OrderingMethod {
    /// The number parsed out of the title by `Chapter (\d+)`, as on sources
    /// that number their chapter titles.
    TitleChapterNumber,
    /// The publication timestamp, as on sources that date every chapter.
    PublishedAt,
}

/// The value a title-number parse yields: the captured digits as a `u32`.
pub open spec fn spec_parse_u32(s: Seq<char>) -> Option<usize> {
    match spec_parse_usize(s) {
        Some(v) => if v <= u32::MAX as usize {
            Some(v)
        } else {
            None
        },
        None => None,
    }
}

/// The ordering attribute of a chapter under the given method, when it can be
/// read.
pub open spec fn order_key(m: OrderingMethod, c: ChapterView) -> Option<int> {
    match m {
        OrderingMethod::TitleChapterNumber => match c.title {
            None => None,
            Some(t) => match re_capture(TITLE_NUMBER_PATTERN@, t, 1) {
                None => None,
                Some(d) => match spec_parse_u32(d) {
                    None => None,
                    Some(v) => Some(v as int),
                },
            },
        },
        OrderingMethod::PublishedAt => match c.published_at {
            None => None,
            Some(ts) => Some(ts.as_nanos()),
        },
    }
}

/// Chapter order under a method: by the attribute, a missing attribute
/// sorting after every present one.
pub open spec fn key_le(m: OrderingMethod, a: ChapterView, b: ChapterView) -> bool {
    match (order_key(m, a), order_key(m, b)) {
        (Some(x), Some(y)) => x <= y,
        (Some(_), None) => true,
        (None, Some(_)) => false,
        (None, None) => true,
    }
}

/// A two-argument comparator over chapters, as a backend hands it out.
pub struct ChapterOrderingFn {
    method: OrderingMethod,
}

impl ChapterOrderingFn {
    /// Which attribute this comparator reads.
    pub closed spec fn spec_method(&self) -> OrderingMethod {
        self.method
    }

    /// Builds the comparator for a method.
    pub fn new(method: OrderingMethod) -> (r: ChapterOrderingFn)
        ensures
            r.spec_method() == method,
    {
        ChapterOrderingFn { method }
    }

    /// The ordering attribute of one chapter, when it can be read.
    pub fn key_of(&self, c: &Chapter) -> (r: Option<i128>)
        ensures
            match r {
                Some(v) => order_key(self.spec_method(), c@) == Some(v as int),
                None => order_key(self.spec_method(), c@) is None,
            },
    {
        match self.method {
            OrderingMethod::TitleChapterNumber => match c.title() {
                None => None,
                Some(t) => match regex_capture(TITLE_NUMBER_PATTERN, t.as_str(), 1) {
                    None => None,
                    Some(d) => match parse_usize_dec(d.as_str()) {
                        None => None,
                        Some(v) => {
                            if v <= u32::MAX as usize {
                                Some(v as i128)
                            } else {
                                None
                            }
                        },
                    },
                },
            },
            OrderingMethod::PublishedAt => match c.published_at() {
                None => None,
                Some(ts) => {
                    let secs: i128 = ts.secs as i128;
                    let nanos: i128 = ts.nanos as i128;
                    Some(secs * 1_000_000_000 + nanos)
                },
            },
        }
    }

    /// Does `a` come no later than `b` in source order?
    pub fn le(&self, a: &Chapter, b: &Chapter) -> (r: bool)
        ensures
            r == key_le(self.spec_method(), a@, b@),
    {
        match (self.key_of(a), self.key_of(b)) {
            (Some(x), Some(y)) => x <= y,
            (Some(_), None) => true,
            (None, Some(_)) => false,
            (None, None) => true,
        }
    }

    /// Three-way comparison of two chapters in source order, with chapters
    /// whose attribute cannot be read comparing as the largest value.
    pub fn compare(&self, a: &Chapter, b: &Chapter) -> (r: core::cmp::Ordering)
        ensures
            (r == core::cmp::Ordering::Less) ==> (key_le(self.spec_method(), a@, b@) && !key_le(
                self.spec_method(),
                b@,
                a@,
            )),
            (r == core::cmp::Ordering::Greater) ==> (!key_le(self.spec_method(), a@, b@) && key_le(
                self.spec_method(),
                b@,
                a@,
            )),
            (r == core::cmp::Ordering::Equal) ==> (key_le(self.spec_method(), a@, b@) && key_le(
                self.spec_method(),
                b@,
                a@,
            )),
    {
        let ab = self.le(a, b);
        let ba = self.le(b, a);
        if ab && ba {
            core::cmp::Ordering::Equal
        } else if ab {
            core::cmp::Ordering::Less
        } else {
            proof {
                lemma_key_le_total(self.spec_method(), a@, b@);
            }
            core::cmp::Ordering::Greater
        }
    }
}

/// The order is total.
pub proof fn lemma_key_le_total(m: OrderingMethod, a: ChapterView, b: ChapterView)
    ensures
        key_le(m, a, b) || key_le(m, b, a),
{
}

/// The order is transitive.
pub proof fn lemma_key_le_trans(m: OrderingMethod, a: ChapterView, b: ChapterView, c: ChapterView)
    requires
        key_le(m, a, b),
        key_le(m, b, c),
    ensures
        key_le(m, a, c),
{
}

/// Ordering law: sorting chapters with a backend's comparator arranges them
/// by the source-intrinsic attribute — title number or publication instant —
/// whatever their `index` fields say, and keeps exactly the same chapters.
/// Chapters without a readable attribute gather at the end.
pub fn sort_chapters(f: &ChapterOrderingFn, chapters: Vec<Chapter>) -> (r: Vec<Chapter>)
    ensures
        r@.to_multiset() == chapters@.to_multiset(),
        forall|i: int, j: int|
            0 <= i < j < r@.len() ==> key_le(f.spec_method(), (#[trigger] r@[i])@, (
            #[trigger] r@[j])@),
{
    broadcast use vstd::seq_lib::group_to_multiset_ensures;

    let ghost m = f.spec_method();
    let mut rest = chapters;
    let mut result: Vec<Chapter> = Vec::new();
    proof {
        assert(result@.to_multiset().add(rest@.to_multiset()) =~= chapters@.to_multiset());
    }
    while rest.len() > 0
        invariant
            result@.to_multiset().add(rest@.to_multiset()) == chapters@.to_multiset(),
            forall|i: int, j: int|
                0 <= i < j < result@.len() ==> key_le(m, (#[trigger] result@[i])@, (
                #[trigger] result@[j])@),
            forall|i: int, j: int|
                0 <= i < result@.len() && 0 <= j < rest@.len() ==> key_le(
                    m,
                    (#[trigger] result@[i])@,
                    (#[trigger] rest@[j])@,
                ),
            m == f.spec_method(),
        decreases rest@.len(),
    {
        // find the least remaining chapter
        let mut mi: usize = 0;
        let mut k: usize = 1;
        let n = rest.len();
        while k < n
            invariant
                n == rest@.len(),
                0 <= mi < k <= n,
                forall|j: int| 0 <= j < k ==> key_le(m, rest@[mi as int]@, (#[trigger] rest@[j])@),
                m == f.spec_method(),
            decreases n - k,
        {
            if !f.le(&rest[mi], &rest[k]) {
                proof {
                    lemma_key_le_total(m, rest@[mi as int]@, rest@[k as int]@);
                    assert forall|j: int| 0 <= j < k + 1 implies key_le(
                        m,
                        rest@[k as int]@,
                        (#[trigger] rest@[j])@,
                    ) by {
                        if j < k {
                            lemma_key_le_trans(m, rest@[k as int]@, rest@[mi as int]@, rest@[j]@);
                        }
                    }
                }
                mi = k;
            } else {
                proof {
                    assert(key_le(m, rest@[mi as int]@, rest@[k as int]@));
                }
            }
            k += 1;
        }
        let ghost old_rest = rest@;
        let ghost old_result = result@;
        let c = rest.remove(mi);
        result.push(c);
        proof {
            vstd::seq_lib::to_multiset_remove::<Chapter>(old_rest, mi as int);
            vstd::seq_lib::to_multiset_build::<Chapter>(old_result, c);
            assert(old_rest.remove(mi as int).to_multiset() =~= old_rest.to_multiset().remove(c));
            assert(old_result.push(c).to_multiset() =~= old_result.to_multiset().insert(c));
            vstd::seq_lib::to_multiset_contains::<Chapter>(old_rest, c);
            assert(old_rest.to_multiset().count(c) > 0) by {
                assert(old_rest[mi as int] == c);
                assert(old_rest.contains(c));
            }
            assert(result@.to_multiset().add(rest@.to_multiset()) =~= old_result.to_multiset().add(
                old_rest.to_multiset(),
            ));
            // the appended chapter stays below everything left
            assert forall|i: int, j: int|
                0 <= i < result@.len() && 0 <= j < rest@.len() implies key_le(
                m,
                (#[trigger] result@[i])@,
                (#[trigger] rest@[j])@,
            ) by {
                let orig_j = if j < mi {
                    j
                } else {
                    j + 1
                };
                assert(rest@[j] == old_rest[orig_j]);
                if i < old_result.len() {
                    assert(result@[i] == old_result[i]);
                } else {
                    assert(result@[i] == c);
                }
            }
            assert forall|i: int, j: int|
                0 <= i < j < result@.len() implies key_le(m, (#[trigger] result@[i])@, (
            #[trigger] result@[j])@) by {
                if j == result@.len() - 1 {
                    assert(result@[j] == c);
                    assert(old_rest[mi as int] == c);
                    assert(result@[i] == old_result[i]);
                } else {
                    assert(result@[i] == old_result[i] && result@[j] == old_result[j]);
                }
            }
        }
    }
    proof {
        assert(rest@.to_multiset() =~= Multiset::<Chapter>::empty());
        assert(result@.to_multiset().add(rest@.to_multiset()) =~= result@.to_multiset());
    }
    result
}

} // verus!
