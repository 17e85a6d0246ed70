//! The canonical chapter record and its durable text encoding.
//!
//! A chapter's content is always held in canonical fragment form: every way
//! of setting it passes through the parse-and-serialise pass of
//! [`crate::html::normalize_fragment`], so structurally equivalent markup
//! compares equal.
use crate::html::dom_normalize;
use crate::html::normalize_fragment;
use crate::strutil::str_eq;
use crate::timestamp::Timestamp;
use vstd::prelude::*;

verus! {

/// The mathematical value of a [`Chapter`].
pub ghost struct ChapterView {
    /// 1-based position in the source's chapter sequence at fetch time.
    pub index: usize,
    /// Title, if the source gave one.
    pub title: Option<Seq<char>>,
    /// Canonicalised HTML fragment.
    pub content: Seq<char>,
    /// Canonical source URL of the chapter.
    pub chapter_url: Seq<char>,
    /// URL of the parent work.
    pub fiction_url: Seq<char>,
    /// Publication instant, if the source gave one.
    pub published_at: Option<Timestamp>,
    /// Open key/value pairs added by a backend, keys unique.
    pub metadata: Seq<(Seq<char>, Seq<char>)>,
}

/// Holds when no two entries of `m` share a key.
pub open spec fn unique_keys(m: Seq<(Seq<char>, Seq<char>)>) -> bool {
    forall|i: int, j: int| 0 <= i < j < m.len() ==> (#[trigger] m[i]).0 != (#[trigger] m[j]).0
}

/// Index of the first entry of `m` with key `k` (`m.len()` if there is none).
pub open spec fn find_key(m: Seq<(Seq<char>, Seq<char>)>, k: Seq<char>) -> int
    decreases m.len(),
{
    if m.len() == 0 {
        0
    } else if m[0].0 == k {
        0
    } else {
        1 + find_key(m.drop_first(), k)
    }
}

/// The value stored under `k` in `m`, if any.
pub open spec fn assoc(m: Seq<(Seq<char>, Seq<char>)>, k: Seq<char>) -> Option<Seq<char>> {
    let i = find_key(m, k);
    if 0 <= i < m.len() {
        Some(m[i].1)
    } else {
        None
    }
}

/// `m` with the value under `k` replaced by `v`, or with `(k, v)` appended
/// when `k` is absent.
pub open spec fn meta_upsert(
    m: Seq<(Seq<char>, Seq<char>)>,
    k: Seq<char>,
    v: Seq<char>,
) -> Seq<(Seq<char>, Seq<char>)> {
    let i = find_key(m, k);
    if 0 <= i < m.len() {
        m.update(i, (k, v))
    } else {
        m.push((k, v))
    }
}

pub proof fn lemma_find_key_bounds(m: Seq<(Seq<char>, Seq<char>)>, k: Seq<char>)
    ensures
        0 <= find_key(m, k) <= m.len(),
        forall|t: int| 0 <= t < find_key(m, k) ==> (#[trigger] m[t]).0 != k,
        find_key(m, k) < m.len() ==> m[find_key(m, k)].0 == k,
    decreases m.len(),
{
    if m.len() > 0 && m[0].0 != k {
        lemma_find_key_bounds(m.drop_first(), k);
        assert forall|t: int| 0 <= t < find_key(m, k) implies (#[trigger] m[t]).0 != k by {
            if t > 0 {
                assert(m.drop_first()[t - 1] == m[t]);
            }
        }
        if find_key(m, k) < m.len() {
            assert(m.drop_first()[find_key(m, k) - 1] == m[find_key(m, k)]);
        }
    }
}

/// A position whose predecessors all miss and that hits (or is the end) pins
/// `find_key` down.
pub proof fn lemma_find_key_is(m: Seq<(Seq<char>, Seq<char>)>, k: Seq<char>, i: int)
    requires
        0 <= i <= m.len(),
        forall|t: int| 0 <= t < i ==> (#[trigger] m[t]).0 != k,
        i < m.len() ==> m[i].0 == k,
    ensures
        find_key(m, k) == i,
{
    lemma_find_key_bounds(m, k);
    if find_key(m, k) < i {
        assert(m[find_key(m, k)].0 != k);
    }
    if i < find_key(m, k) {
        assert(m[i].0 != k);
    }
}

/// Upserting keeps keys unique.
pub proof fn lemma_meta_upsert_unique(m: Seq<(Seq<char>, Seq<char>)>, k: Seq<char>, v: Seq<char>)
    requires
        unique_keys(m),
    ensures
        unique_keys(meta_upsert(m, k, v)),
{
    lemma_find_key_bounds(m, k);
    let i = find_key(m, k);
    let r = meta_upsert(m, k, v);
    if i < m.len() {
        assert forall|a: int, b: int| 0 <= a < b < r.len() implies (#[trigger] r[a]).0 != (
        #[trigger] r[b]).0 by {
            assert(m[a].0 == if a == i {
                k
            } else {
                r[a].0
            });
            assert(m[b].0 == if b == i {
                k
            } else {
                r[b].0
            });
        }
    } else {
        assert forall|a: int, b: int| 0 <= a < b < r.len() implies (#[trigger] r[a]).0 != (
        #[trigger] r[b]).0 by {
            if b < m.len() {
                assert(r[a] == m[a] && r[b] == m[b]);
            } else {
                assert(r[b] == (k, v));
                assert(r[a] == m[a]);
                assert(m[a].0 != k);
            }
        }
    }
}

/// A chapter of a webnovel, as one source hands it over.
#[derive(Debug)]
pub struct Chapter {
    index: usize,
    title: Option<String>,
    content: String,
    chapter_url: String,
    fiction_url: String,
    published_at: Option<Timestamp>,
    metadata: Vec<(String, String)>,
}

/// The view of a metadata vector.
pub open spec fn meta_view(m: Seq<(String, String)>) -> Seq<(Seq<char>, Seq<char>)> {
    m.map_values(|p: (String, String)| (p.0@, p.1@))
}

pub(crate) proof fn lemma_meta_view_push(m: Seq<(String, String)>, p: (String, String))
    ensures
        meta_view(m.push(p)) =~= meta_view(m) + seq![(p.0@, p.1@)],
{
    assert forall|k: int| 0 <= k < m.len() + 1 implies meta_view(m.push(p))[k] == (meta_view(m)
        + seq![(p.0@, p.1@)])[k] by {
        if k < m.len() {
            assert(m.push(p)[k] == m[k]);
        } else {
            assert(m.push(p)[k] == p);
        }
    }
}

pub(crate) proof fn lemma_meta_view_update(m: Seq<(String, String)>, i: int, p: (String, String))
    requires
        0 <= i < m.len(),
    ensures
        meta_view(m.update(i, p)) =~= meta_view(m).update(i, (p.0@, p.1@)),
{
    assert forall|k: int| 0 <= k < m.len() implies meta_view(m.update(i, p))[k] == meta_view(
        m,
    ).update(i, (p.0@, p.1@))[k] by {
        if k == i {
            assert(m.update(i, p)[k] == p);
        } else {
            assert(m.update(i, p)[k] == m[k]);
        }
    }
}

impl View for Chapter {
    type V = ChapterView;

    closed spec fn view(&self) -> ChapterView {
        ChapterView {
            index: self.index,
            title: match self.title {
                Some(t) => Some(t@),
                None => None,
            },
            content: self.content@,
            chapter_url: self.chapter_url@,
            fiction_url: self.fiction_url@,
            published_at: self.published_at,
            metadata: meta_view(self.metadata@),
        }
    }
}

impl Chapter {
    /// Internal consistency: metadata keys are unique and the content came
    /// out of the normalising pass.
    pub open spec fn wf(&self) -> bool {
        unique_keys(self@.metadata) && (self@.content.len() == 0 || is_normalized_content(
            self@.content,
        ))
    }

    /// 1-based position of this chapter at fetch time. Not a permanent
    /// identity: reconcile chapters fetched at different times with the
    /// backend's ordering function instead.
    pub fn index(&self) -> (r: usize)
        ensures
            r == self@.index,
    {
        self.index
    }

    /// Title of this chapter, if any.
    pub fn title(&self) -> (r: &Option<String>)
        ensures
            match r {
                Some(t) => self@.title == Some(t@),
                None => self@.title is None,
            },
    {
        &self.title
    }

    /// Canonicalised HTML content of this chapter.
    pub fn content(&self) -> (r: &String)
        ensures
            r@ == self@.content,
    {
        &self.content
    }

    /// Where this chapter can be found.
    pub fn chapter_url(&self) -> (r: &String)
        ensures
            r@ == self@.chapter_url,
    {
        &self.chapter_url
    }

    /// Where the fiction this chapter is from can be found.
    pub fn fiction_url(&self) -> (r: &String)
        ensures
            r@ == self@.fiction_url,
    {
        &self.fiction_url
    }

    /// When this chapter was published, if known.
    pub fn published_at(&self) -> (r: &Option<Timestamp>)
        ensures
            *r == self@.published_at,
    {
        &self.published_at
    }

    /// The backend-specific metadata pairs, in insertion order.
    pub fn metadata(&self) -> (r: &Vec<(String, String)>)
        ensures
            meta_view(r@) == self@.metadata,
    {
        &self.metadata
    }

    /// The metadata value stored under `key`, if any.
    pub fn get_metadata(&self, key: &str) -> (r: Option<&String>)
        ensures
            match r {
                Some(v) => assoc(self@.metadata, key@) == Some(v@),
                None => assoc(self@.metadata, key@) is None,
            },
    {
        let n = self.metadata.len();
        let mut i: usize = 0;
        while i < n
            invariant
                n == self.metadata.len(),
                0 <= i <= n,
                forall|t: int| 0 <= t < i ==> (#[trigger] self@.metadata[t]).0 != key@,
            decreases n - i,
        {
            if str_eq(self.metadata[i].0.as_str(), key) {
                proof {
                    lemma_find_key_is(self@.metadata, key@, i as int);
                }
                return Some(&self.metadata[i].1);
            }
            proof {
                assert(self@.metadata[i as int].0 == self.metadata@[i as int].0@);
            }
            i += 1;
        }
        proof {
            lemma_find_key_is(self@.metadata, key@, n as int);
        }
        None
    }

    /// Sets the positional index.
    pub fn set_index(&mut self, index: usize)
        ensures
            final(self)@ == (ChapterView { index, ..old(self)@ }),
    {
        self.index = index;
    }

    /// Sets or clears the title.
    pub fn set_title(&mut self, title: Option<String>)
        ensures
            final(self)@ == (ChapterView {
                title: match title {
                    Some(t) => Some(t@),
                    None => None,
                },
                ..old(self)@
            }),
    {
        self.title = title;
    }

    /// Sets the chapter URL.
    pub fn set_chapter_url(&mut self, url: String)
        ensures
            final(self)@ == (ChapterView { chapter_url: url@, ..old(self)@ }),
    {
        self.chapter_url = url;
    }

    /// Sets the parent fiction URL.
    pub fn set_fiction_url(&mut self, url: String)
        ensures
            final(self)@ == (ChapterView { fiction_url: url@, ..old(self)@ }),
    {
        self.fiction_url = url;
    }

    /// Sets or clears the publication instant.
    pub fn set_published_at(&mut self, at: Option<Timestamp>)
        ensures
            final(self)@ == (ChapterView { published_at: at, ..old(self)@ }),
    {
        self.published_at = at;
    }

    /// Replaces the whole metadata set. The keys must be unique, as they are
    /// in everything a backend or the decoder produces.
    pub fn set_metadata(&mut self, metadata: Vec<(String, String)>)
        requires
            unique_keys(meta_view(metadata@)),
        ensures
            final(self)@ == (ChapterView { metadata: meta_view(metadata@), ..old(self)@ }),
            unique_keys(final(self)@.metadata),
    {
        self.metadata = metadata;
    }

    /// Sets the content, normalising it through an HTML fragment
    /// parse-and-serialise pass so structurally equivalent markup is stored
    /// identically.
    pub fn set_content(&mut self, content: &str)
        ensures
            final(self)@ == (ChapterView { content: dom_normalize(content@), ..old(self)@ }),
            is_normalized_content(final(self)@.content),
    {
        self.content = normalize_fragment(content);
        proof {
            assert(self@.content == dom_normalize(content@));
        }
    }

    /// Adds a key/value pair to the chapter's metadata, replacing the value
    /// in place when the key is already present.
    pub fn add_metadata(&mut self, key: String, value: String)
        ensures
            final(self)@ == (ChapterView {
                metadata: meta_upsert(old(self)@.metadata, key@, value@),
                ..old(self)@
            }),
            unique_keys(old(self)@.metadata) ==> unique_keys(final(self)@.metadata),
    {
        proof {
            if unique_keys(old(self)@.metadata) {
                lemma_meta_upsert_unique(old(self)@.metadata, key@, value@);
            }
        }
        let n = self.metadata.len();
        let mut i: usize = 0;
        while i < n
            invariant
                n == self.metadata.len(),
                *self == *old(self),
                0 <= i <= n,
                forall|t: int| 0 <= t < i ==> (#[trigger] self@.metadata[t]).0 != key@,
            decreases n - i,
        {
            if str_eq(self.metadata[i].0.as_str(), key.as_str()) {
                proof {
                    lemma_find_key_is(self@.metadata, key@, i as int);
                }
                let ghost before = self.metadata@;
                let p = (key, value);
                self.metadata.set(i, p);
                proof {
                    if unique_keys(old(self)@.metadata) {
                        lemma_meta_upsert_unique(old(self)@.metadata, key@, value@);
                    }
                    lemma_meta_view_update(before, i as int, p);
                    assert(final(self)@.metadata =~= meta_upsert(
                        old(self)@.metadata,
                        p.0@,
                        p.1@,
                    ));
                }
                return ;
            }
            proof {
                assert(self@.metadata[i as int].0 == self.metadata@[i as int].0@);
            }
            i += 1;
        }
        proof {
            lemma_find_key_is(self@.metadata, key@, n as int);
        }
        let ghost before = self.metadata@;
        let p = (key, value);
        self.metadata.push(p);
        proof {
            lemma_meta_view_push(before, p);
            assert(final(self)@.metadata =~= meta_upsert(old(self)@.metadata, p.0@, p.1@));
        }
    }
}

/// Content as the library stores it: the output of one HTML fragment
/// parse-and-serialise pass over some source text. The pass need not be
/// idempotent, so this is weaker than [`crate::html::is_canonical_fragment`];
/// that stronger, fixed-point fact is only ever established at run time, by
/// renormalising and comparing (see `Chapter::is_encodable`).
pub open spec fn is_normalized_content(s: Seq<char>) -> bool {
    exists|raw: Seq<char>| s == crate::html::dom_normalize(raw)
}

impl Default for Chapter {
    /// The empty chapter: index 0, no title, empty everything.
    fn default() -> (r: Chapter)
        ensures
            r@.index == 0,
            r@.title is None,
            r@.content.len() == 0,
            r@.chapter_url.len() == 0,
            r@.fiction_url.len() == 0,
            r@.published_at is None,
            r@.metadata.len() == 0,
            r.wf(),
    {
        let r = Chapter {
            index: 0,
            title: None,
            content: String::new(),
            chapter_url: String::new(),
            fiction_url: String::new(),
            published_at: None,
            metadata: Vec::new(),
        };
        proof {
            assert(r@.metadata =~~= Seq::<(Seq<char>, Seq<char>)>::empty());
        }
        r
    }
}

impl Clone for Chapter {
    /// A field-for-field copy.
    fn clone(&self) -> (r: Chapter)
        ensures
            r@ == self@,
    {
        let r = Chapter {
            index: self.index,
            title: match &self.title {
                Some(t) => Some(t.clone()),
                None => None,
            },
            content: self.content.clone(),
            chapter_url: self.chapter_url.clone(),
            fiction_url: self.fiction_url.clone(),
            published_at: self.published_at,
            metadata: clone_meta(&self.metadata),
        };
        proof {
            assert(r@.metadata =~~= self@.metadata);
        }
        r
    }
}

fn clone_meta(m: &Vec<(String, String)>) -> (r: Vec<(String, String)>)
    ensures
        meta_view(r@) == meta_view(m@),
{
    let mut r: Vec<(String, String)> = Vec::new();
    let n = m.len();
    let mut i: usize = 0;
    while i < n
        invariant
            n == m.len(),
            0 <= i <= n,
            meta_view(r@) == meta_view(m@).subrange(0, i as int),
        decreases n - i,
    {
        let p = (m[i].0.clone(), m[i].1.clone());
        let ghost old_r = r@;
        r.push(p);
        proof {
            lemma_meta_view_push(old_r, p);
            assert((p.0@, p.1@) == meta_view(m@)[i as int]);
            assert(meta_view(r@) =~= meta_view(m@).subrange(0, i as int + 1));
        }
        i += 1;
    }
    proof {
        assert(meta_view(m@).subrange(0, n as int) =~~= meta_view(m@));
    }
    r
}

impl PartialEq for Chapter {
    /// Field equality; content is compared as stored, which is canonical
    /// form, so structurally equivalent markup compares equal.
    fn eq(&self, other: &Chapter) -> (r: bool) {
        if self.index != other.index {
            return false;
        }
        let titles_eq = match (&self.title, &other.title) {
            (Some(a), Some(b)) => str_eq(a.as_str(), b.as_str()),
            (None, None) => true,
            _ => false,
        };
        if !titles_eq {
            return false;
        }
        if !str_eq(self.content.as_str(), other.content.as_str()) {
            return false;
        }
        if !str_eq(self.chapter_url.as_str(), other.chapter_url.as_str()) {
            return false;
        }
        if !str_eq(self.fiction_url.as_str(), other.fiction_url.as_str()) {
            return false;
        }
        let at_eq = match (&self.published_at, &other.published_at) {
            (Some(a), Some(b)) => a.secs == b.secs && a.nanos == b.nanos,
            (None, None) => true,
            _ => false,
        };
        if !at_eq {
            return false;
        }
        if self.metadata.len() != other.metadata.len() {
            assert(self@.metadata.len() != other@.metadata.len());
            return false;
        }
        let n = self.metadata.len();
        let mut i: usize = 0;
        while i < n
            invariant
                n == self.metadata.len() == other.metadata.len(),
                0 <= i <= n,
                forall|t: int|
                    0 <= t < i ==> (#[trigger] self@.metadata[t]) == other@.metadata[t],
            decreases n - i,
        {
            if !str_eq(self.metadata[i].0.as_str(), other.metadata[i].0.as_str()) || !str_eq(
                self.metadata[i].1.as_str(),
                other.metadata[i].1.as_str(),
            ) {
                proof {
                    assert(self@.metadata[i as int] == (
                        self.metadata@[i as int].0@,
                        self.metadata@[i as int].1@,
                    ));
                    assert(other@.metadata[i as int] == (
                        other.metadata@[i as int].0@,
                        other.metadata@[i as int].1@,
                    ));
                }
                return false;
            }
            proof {
                assert(self@.metadata[i as int] == (
                    self.metadata@[i as int].0@,
                    self.metadata@[i as int].1@,
                ));
                assert(other@.metadata[i as int] == (
                    other.metadata@[i as int].0@,
                    other.metadata@[i as int].1@,
                ));
            }
            i += 1;
        }
        proof {
            assert(self@.metadata =~~= other@.metadata);
            assert(self@ == other@);
        }
        true
    }
}

impl vstd::std_specs::cmp::PartialEqSpecImpl for Chapter {
    open spec fn obeys_eq_spec() -> bool {
        true
    }

    open spec fn eq_spec(&self, other: &Chapter) -> bool {
        self@ == other@
    }
}

/// Returned when parsing a chapter out of its durable text form fails.
#[derive(Debug)]
pub struct ChapterParseError {
    message: String,
}

impl ChapterParseError {
    /// The message this error was created with.
    pub closed spec fn spec_message(&self) -> Seq<char> {
        self.message@
    }

    /// Creates a new error from a given message.
    pub fn new(message: String) -> (r: ChapterParseError)
        ensures
            r.spec_message() == message@,
    {
        ChapterParseError { message }
    }

    /// The human-readable description of what failed.
    pub fn message(&self) -> (r: &String)
        ensures
            r@ == self.spec_message(),
    {
        &self.message
    }
}

} // verus!
