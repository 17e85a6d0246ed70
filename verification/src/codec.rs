//! The durable text form of a [`Chapter`]: a header block between `<!--` and
//! `-->` holding the scalar fields and a nested, two-space-indented metadata
//! block, an optional title line, and the content between
//! `<div class="content">` and a final `</div>`.
use crate::chapter::assoc;
use crate::chapter::find_key;
use crate::chapter::lemma_meta_view_push;
use crate::chapter::lemma_meta_view_update;
use crate::chapter::lemma_find_key_is;
use crate::chapter::lemma_meta_upsert_unique;
use crate::chapter::meta_upsert;
use crate::chapter::meta_view;
use crate::chapter::unique_keys;
use crate::chapter::Chapter;
use crate::chapter::ChapterView;
use crate::html::dom_normalize;
use crate::strutil::find_char;
use crate::strutil::char_find;
use crate::strutil::has_prefix;
use crate::strutil::starts_with_str;
use crate::strutil::strip_prefix_str;
use crate::strutil::substring_of;
use crate::strutil::trim_end_matches_str;
use crate::strutil::trim_str;
use crate::strutil::spec_trim;
use crate::strutil::spec_trim_end_matches;
use crate::timestamp::rfc3339_parse;
use crate::strutil::dec_str;
use crate::strutil::spec_parse_usize;
use crate::strutil::join_nl;
use crate::strutil::spec_lines;
use crate::strutil::split_lines;
use crate::strutil::join_lines;
use crate::strutil::usize_to_dec;
use crate::timestamp::rfc3339_of;
use crate::timestamp::Timestamp;
use crate::timestamp::format_rfc3339;
use vstd::prelude::*;

verus! {

/// The text of the `published_at` header line's value.
pub open spec fn published_text(pa: Option<Timestamp>) -> Seq<char> {
    match pa {
        Some(t) => rfc3339_of(t.secs as int, t.nanos as int),
        None => "not_found"@,
    }
}

/// One line of the nested metadata block.
pub open spec fn meta_line(p: (Seq<char>, Seq<char>)) -> Seq<char> {
    "  "@ + p.0 + ": "@ + p.1
}

/// The title line, when the chapter has a title.
pub open spec fn title_lines(title: Option<Seq<char>>) -> Seq<Seq<char>> {
    match title {
        Some(t) => seq!["<h1 class=\"mainTitle\">"@ + t + "</h1>"@],
        None => Seq::empty(),
    }
}

/// Every line of the encoding, in order. The content contributes the lines of
/// itself plus a trailing newline, so an empty content still occupies one
/// (empty) line between the opening and closing `div` markers.
pub open spec fn enc_lines(c: ChapterView) -> Seq<Seq<char>> {
    seq![
        "<!--"@,
        "index: "@ + dec_str(c.index as int),
        "chapter_url: "@ + c.chapter_url,
        "fiction_url: "@ + c.fiction_url,
        "published_at: "@ + published_text(c.published_at),
        "metadata:"@,
    ] + c.metadata.map_values(|p: (Seq<char>, Seq<char>)| meta_line(p)) + seq!["-->"@]
        + title_lines(c.title) + seq!["<div class=\"content\">"@] + spec_lines(
        c.content + seq!['\n'],
    ) + seq!["</div>"@]
}

/// The encoding itself: the lines joined with single newlines, with no
/// trailing newline.
pub open spec fn spec_encode(c: ChapterView) -> Seq<char> {
    join_nl(enc_lines(c))
}

impl Chapter {
    /// Renders this chapter in its durable text form.
    pub fn to_string(&self) -> (r: String)
        ensures
            r@ == spec_encode(self@),
    {
        let ghost target = enc_lines(self@);
        let mut ls: Vec<String> = Vec::new();
        ls.push(String::from_str("<!--"));
        let mut l = String::from_str("index: ");
        l.append(usize_to_dec(self.index()).as_str());
        ls.push(l);
        let mut l = String::from_str("chapter_url: ");
        l.append(self.chapter_url().as_str());
        ls.push(l);
        let mut l = String::from_str("fiction_url: ");
        l.append(self.fiction_url().as_str());
        ls.push(l);
        let mut l = String::from_str("published_at: ");
        match self.published_at() {
            Some(t) => {
                let t2 = *t;
                l.append(format_rfc3339(&t2).as_str());
            },
            None => {
                l.append("not_found");
            },
        }
        ls.push(l);
        ls.push(String::from_str("metadata:"));
        proof {
            assert(ls.deep_view() =~= target.take(6));
        }
        let m = self.metadata();
        let n = m.len();
        let mut i: usize = 0;
        while i < n
            invariant
                n == m.len(),
                0 <= i <= n,
                crate::chapter::meta_view(m@) == self@.metadata,
                target == enc_lines(self@),
                ls.deep_view() == target.take(6 + i),
            decreases n - i,
        {
            let mut l = String::from_str("  ");
            l.append(m[i].0.as_str());
            l.append(": ");
            l.append(m[i].1.as_str());
            proof {
                assert(self@.metadata[i as int] == (m@[i as int].0@, m@[i as int].1@));
                assert(l@ == meta_line(self@.metadata[i as int]));
                assert(target[6 + i] == self@.metadata.map_values(
                    |p: (Seq<char>, Seq<char>)| meta_line(p),
                )[i as int]);
            }
            let ghost prev = ls@;
            let ghost prev_dv = ls.deep_view();
            ls.push(l);
            proof {
                assert(forall|k: int| 0 <= k < prev.len() ==> #[trigger] prev_dv[k] == prev[k]@);
                assert(forall|k: int|
                    0 <= k < ls@.len() ==> #[trigger] ls.deep_view()[k] == ls@[k]@);
                assert(ls.deep_view() =~= prev_dv.push(l@));
                assert(ls.deep_view() =~= target.take(6 + i as int + 1));
            }
            i += 1;
        }
        ls.push(String::from_str("-->"));
        let ghost mcount = self@.metadata.len() as int;
        proof {
            assert(target[6 + mcount] == "-->"@);
            assert(ls.deep_view() =~= target.take(6 + mcount + 1));
        }
        match self.title() {
            Some(t) => {
                let mut l = String::from_str("<h1 class=\"mainTitle\">");
                l.append(t.as_str());
                l.append("</h1>");
                proof {
                    assert(title_lines(self@.title) =~= seq![l@]);
                    assert(target[7 + mcount] == l@);
                }
                ls.push(l);
            },
            None => {
                proof {
                    assert(title_lines(self@.title) =~= Seq::<Seq<char>>::empty());
                }
            },
        }
        let ghost tcount = title_lines(self@.title).len() as int;
        proof {
            assert(ls.deep_view() =~= target.take(7 + mcount + tcount));
        }
        ls.push(String::from_str("<div class=\"content\">"));
        proof {
            assert(target[7 + mcount + tcount] == "<div class=\"content\">"@);
            assert(ls.deep_view() =~= target.take(8 + mcount + tcount));
        }
        let mut body = self.content().clone();
        body.append("\n");
        proof {
            reveal_strlit("\n");
            assert("\n"@ =~= seq!['\n']);
            assert(body@ == self@.content + seq!['\n']);
        }
        let body_lines = split_lines(body.as_str());
        let bn = body_lines.len();
        let ghost blines = spec_lines(self@.content + seq!['\n']);
        let mut j: usize = 0;
        while j < bn
            invariant
                bn == body_lines.len(),
                0 <= j <= bn,
                body_lines.deep_view() == blines,
                target == enc_lines(self@),
                blines == spec_lines(self@.content + seq!['\n']),
                mcount == self@.metadata.len(),
                tcount == title_lines(self@.title).len() as int,
                ls.deep_view() == target.take(8 + mcount + tcount + j),
            decreases bn - j,
        {
            let piece = body_lines[j].clone();
            proof {
                assert(piece@ == blines[j as int]);
                assert(target[8 + mcount + tcount + j] == blines[j as int]);
            }
            let ghost prev = ls@;
            let ghost prev_dv = ls.deep_view();
            ls.push(piece);
            proof {
                assert(forall|k: int| 0 <= k < prev.len() ==> #[trigger] prev_dv[k] == prev[k]@);
                assert(forall|k: int|
                    0 <= k < ls@.len() ==> #[trigger] ls.deep_view()[k] == ls@[k]@);
                assert(ls.deep_view() =~= prev_dv.push(piece@));
                assert(ls.deep_view() =~= target.take(8 + mcount + tcount + j + 1));
            }
            j += 1;
        }
        ls.push(String::from_str("</div>"));
        proof {
            assert(target[8 + mcount + tcount + blines.len()] == "</div>"@);
            assert(ls.deep_view() =~= target.take(
                8 + mcount + tcount + blines.len() as int + 1,
            ));
            assert(target.take(target.len() as int) =~= target);
        }
        join_lines(&ls)
    }
}

} // verus!

verus! {

/// Parser state while walking the lines of the durable form, mirroring one
/// step per line.
pub ghost struct DecodeState {
    /// Between a `<!--` line and a `-->` line.
    pub in_cd: bool,
    /// Inside the nested metadata block of the header.
    pub in_meta: bool,
    /// After the `<div class="content">` line.
    pub in_content: bool,
    /// Header fields seen so far.
    pub cd: Seq<(Seq<char>, Seq<char>)>,
    /// Metadata entries seen so far.
    pub meta: Seq<(Seq<char>, Seq<char>)>,
    /// Title, when a title line was seen.
    pub title: Option<Seq<char>>,
    /// Raw content lines captured so far.
    pub content_lines: Seq<Seq<char>>,
}

/// The state before any line is read.
pub open spec fn init_state() -> DecodeState {
    DecodeState {
        in_cd: false,
        in_meta: false,
        in_content: false,
        cd: Seq::empty(),
        meta: Seq::empty(),
        title: None,
        content_lines: Seq::empty(),
    }
}

/// One line of decoding. A `<!--` or `-->` line toggles the header; inside
/// the header, `metadata:` opens the nested block, a two-space indent keeps
/// it open, and a line with a colon contributes a trimmed key/value pair;
/// outside it, a `<h1 class="mainTitle">` line sets the title (with every
/// trailing `</h1>` removed), a `<div class="content">` line starts content
/// capture, and later lines are captured verbatim.
pub open spec fn dstep(st: DecodeState, line: Seq<char>) -> DecodeState {
    if has_prefix(line, "<!--"@) {
        DecodeState { in_cd: true, ..st }
    } else if has_prefix(line, "-->"@) {
        DecodeState { in_cd: false, ..st }
    } else if st.in_cd {
        if has_prefix(line, "metadata:"@) {
            DecodeState { in_meta: true, ..st }
        } else {
            let im = st.in_meta && has_prefix(line, "  "@);
            let t = spec_trim(line);
            let ci = find_char(t, ':');
            if 0 <= ci < t.len() {
                let k = spec_trim(t.subrange(0, ci));
                let v = spec_trim(t.subrange(ci + 1, t.len() as int));
                if im {
                    DecodeState { in_meta: im, meta: meta_upsert(st.meta, k, v), ..st }
                } else {
                    DecodeState { in_meta: im, cd: meta_upsert(st.cd, k, v), ..st }
                }
            } else {
                DecodeState { in_meta: im, ..st }
            }
        }
    } else if has_prefix(line, "<h1 class=\"mainTitle\">"@) {
        DecodeState {
            title: Some(
                spec_trim_end_matches(
                    line.subrange("<h1 class=\"mainTitle\">"@.len() as int, line.len() as int),
                    "</h1>"@,
                ),
            ),
            ..st
        }
    } else if has_prefix(line, "<div class=\"content\">"@) {
        DecodeState { in_content: true, ..st }
    } else if st.in_content {
        DecodeState { content_lines: st.content_lines.push(line), ..st }
    } else {
        st
    }
}

/// The state after reading all of `ls`, line by line.
pub open spec fn dfold(ls: Seq<Seq<char>>) -> DecodeState
    decreases ls.len(),
{
    if ls.len() == 0 {
        init_state()
    } else {
        dstep(dfold(ls.drop_last()), ls.last())
    }
}

/// Folding one more line is one step.
pub proof fn lemma_dfold_step(ls: Seq<Seq<char>>, i: int)
    requires
        0 <= i < ls.len(),
    ensures
        dfold(ls.take(i + 1)) == dstep(dfold(ls.take(i)), ls[i]),
{
    assert(ls.take(i + 1).drop_last() =~= ls.take(i));
    assert(ls.take(i + 1).last() == ls[i]);
}

/// Both key/value stores of the fold keep their keys unique.
pub proof fn lemma_dfold_unique(ls: Seq<Seq<char>>)
    ensures
        unique_keys(dfold(ls).cd),
        unique_keys(dfold(ls).meta),
    decreases ls.len(),
{
    if ls.len() > 0 {
        lemma_dfold_unique(ls.drop_last());
        let st = dfold(ls.drop_last());
        let line = ls.last();
        if !has_prefix(line, "<!--"@) && !has_prefix(line, "-->"@) && st.in_cd && !has_prefix(
            line,
            "metadata:"@,
        ) {
            let t = spec_trim(line);
            let ci = find_char(t, ':');
            if 0 <= ci < t.len() {
                let k = spec_trim(t.subrange(0, ci));
                let v = spec_trim(t.subrange(ci + 1, t.len() as int));
                lemma_meta_upsert_unique(st.meta, k, v);
                lemma_meta_upsert_unique(st.cd, k, v);
            }
        }
    }
}

/// The captured content lines without the final `</div>` line.
pub open spec fn content_body(ls: Seq<Seq<char>>) -> Seq<Seq<char>> {
    if ls.len() > 0 && ls.last() == "</div>"@ {
        ls.drop_last()
    } else {
        ls
    }
}

/// What decoding yields: `None` exactly when `index` is absent or not a
/// decimal number, `chapter_url` or `fiction_url` is absent, or
/// `published_at` is present, is not the literal `not_found`, and does not
/// parse as RFC 3339. The captured content is renormalised as an HTML
/// fragment.
pub open spec fn spec_decode(s: Seq<char>) -> Option<ChapterView> {
    let st = dfold(spec_lines(s));
    let content = dom_normalize(join_nl(content_body(st.content_lines)));
    match assoc(st.cd, "index"@) {
        None => None,
        Some(iv) => match spec_parse_usize(iv) {
            None => None,
            Some(index) => match assoc(st.cd, "chapter_url"@) {
                None => None,
                Some(cu) => match assoc(st.cd, "fiction_url"@) {
                    None => None,
                    Some(fu) => {
                        let pa = match assoc(st.cd, "published_at"@) {
                            None => Some(None),
                            Some(v) => if v == "not_found"@ {
                                Some(None)
                            } else {
                                match rfc3339_parse(v) {
                                    Some(p) => Some(Some(Timestamp { secs: p.0, nanos: p.1 })),
                                    None => None,
                                }
                            },
                        };
                        match pa {
                            None => None,
                            Some(published_at) => Some(
                                ChapterView {
                                    index,
                                    title: st.title,
                                    content,
                                    chapter_url: cu,
                                    fiction_url: fu,
                                    published_at,
                                    metadata: st.meta,
                                },
                            ),
                        }
                    },
                },
            },
        },
    }
}

/// Inserts or replaces a key in a metadata vector, as
/// [`crate::chapter::meta_upsert`] describes.
fn vec_upsert(m: &mut Vec<(String, String)>, key: String, value: String)
    ensures
        meta_view(final(m)@) == meta_upsert(meta_view(old(m)@), key@, value@),
{
    let n = m.len();
    let mut i: usize = 0;
    while i < n
        invariant
            n == m.len(),
            *m == *old(m),
            0 <= i <= n,
            forall|t: int| 0 <= t < i ==> (#[trigger] meta_view(m@)[t]).0 != key@,
        decreases n - i,
    {
        if crate::strutil::str_eq(m[i].0.as_str(), key.as_str()) {
            proof {
                lemma_find_key_is(meta_view(m@), key@, i as int);
            }
            let ghost before = m@;
            let p = (key, value);
            m.set(i, p);
            proof {
                lemma_meta_view_update(before, i as int, p);
                assert(meta_view(final(m)@) =~= meta_upsert(meta_view(old(m)@), p.0@, p.1@));
            }
            return ;
        }
        proof {
            assert(meta_view(m@)[i as int].0 == m@[i as int].0@);
        }
        i += 1;
    }
    proof {
        lemma_find_key_is(meta_view(m@), key@, n as int);
    }
    let ghost before = m@;
    let p = (key, value);
    m.push(p);
    proof {
        lemma_meta_view_push(before, p);
        assert(meta_view(final(m)@) =~= meta_upsert(meta_view(old(m)@), p.0@, p.1@));
    }
}

/// Looks a key up in a metadata vector, as [`crate::chapter::assoc`]
/// describes.
fn vec_assoc(m: &Vec<(String, String)>, key: &str) -> (r: Option<String>)
    ensures
        match r {
            Some(v) => assoc(meta_view(m@), key@) == Some(v@),
            None => assoc(meta_view(m@), key@) is None,
        },
{
    let n = m.len();
    let mut i: usize = 0;
    while i < n
        invariant
            n == m.len(),
            0 <= i <= n,
            forall|t: int| 0 <= t < i ==> (#[trigger] meta_view(m@)[t]).0 != key@,
        decreases n - i,
    {
        if crate::strutil::str_eq(m[i].0.as_str(), key) {
            proof {
                lemma_find_key_is(meta_view(m@), key@, i as int);
            }
            return Some(m[i].1.clone());
        }
        proof {
            assert(meta_view(m@)[i as int].0 == m@[i as int].0@);
        }
        i += 1;
    }
    proof {
        lemma_find_key_is(meta_view(m@), key@, n as int);
    }
    None
}

} // verus!

verus! {

impl Chapter {
    /// Parses a chapter out of its durable text form, failing exactly when
    /// [`spec_decode`] yields nothing: a missing or non-decimal `index`, a
    /// missing `chapter_url` or `fiction_url`, or a `published_at` that is
    /// neither `not_found` nor a parsable RFC 3339 timestamp.
    pub fn from_str(s: &str) -> (r: Result<Chapter, crate::chapter::ChapterParseError>)
        ensures
            match r {
                Ok(c) => spec_decode(s@) == Some(c@) && c.wf(),
                Err(_) => spec_decode(s@) is None,
            },
    {
        let lines = split_lines(s);
        let ghost ls = spec_lines(s@);
        let n = lines.len();
        let mut in_cd = false;
        let mut in_meta = false;
        let mut in_content = false;
        let mut cd: Vec<(String, String)> = Vec::new();
        let mut meta: Vec<(String, String)> = Vec::new();
        let mut title: Option<String> = None;
        let mut content_lines: Vec<String> = Vec::new();
        let mut i: usize = 0;
        proof {
            assert(ls.take(0) =~= Seq::<Seq<char>>::empty());
            assert(meta_view(cd@) =~= Seq::<(Seq<char>, Seq<char>)>::empty());
            assert(meta_view(meta@) =~= Seq::<(Seq<char>, Seq<char>)>::empty());
            assert(content_lines.deep_view() =~= Seq::<Seq<char>>::empty());
        }
        while i < n
            invariant
                n == lines.len(),
                0 <= i <= n,
                lines.deep_view() == ls,
                in_cd == dfold(ls.take(i as int)).in_cd,
                in_meta == dfold(ls.take(i as int)).in_meta,
                in_content == dfold(ls.take(i as int)).in_content,
                meta_view(cd@) == dfold(ls.take(i as int)).cd,
                meta_view(meta@) == dfold(ls.take(i as int)).meta,
                (match title {
                    Some(t) => dfold(ls.take(i as int)).title == Some(t@),
                    None => dfold(ls.take(i as int)).title is None,
                }),
                content_lines.deep_view() == dfold(ls.take(i as int)).content_lines,
            decreases n - i,
        {
            proof {
                lemma_dfold_step(ls, i as int);
                assert(lines.deep_view()[i as int] == lines@[i as int]@);
            }
            let ghost st = dfold(ls.take(i as int));
            let line = &lines[i];
            if starts_with_str(line.as_str(), "<!--") {
                in_cd = true;
            } else if starts_with_str(line.as_str(), "-->") {
                in_cd = false;
            } else if in_cd {
                if starts_with_str(line.as_str(), "metadata:") {
                    in_meta = true;
                } else {
                    if !starts_with_str(line.as_str(), "  ") && in_meta {
                        in_meta = false;
                    }
                    let t = trim_str(line.as_str());
                    match char_find(t.as_str(), ':') {
                        Some(ci) => {
                            let tn = crate::strutil::str_char_len(t.as_str());
                            let k = trim_str(substring_of(t.as_str(), 0, ci).as_str());
                            let v = trim_str(substring_of(t.as_str(), ci + 1, tn).as_str());
                            if in_meta {
                                vec_upsert(&mut meta, k, v);
                            } else {
                                vec_upsert(&mut cd, k, v);
                            }
                        },
                        None => {},
                    }
                }
            } else {
                match strip_prefix_str(line.as_str(), "<h1 class=\"mainTitle\">") {
                    Some(rest) => {
                        proof {
                            reveal_strlit("</h1>");
                        }
                        title = Some(trim_end_matches_str(rest.as_str(), "</h1>"));
                    },
                    None => {
                        if starts_with_str(line.as_str(), "<div class=\"content\">") {
                            in_content = true;
                        } else if in_content {
                            let ghost prev = content_lines@;
                            let ghost prev_dv = content_lines.deep_view();
                            content_lines.push(line.clone());
                            proof {
                                assert(forall|k: int|
                                    0 <= k < prev.len() ==> #[trigger] prev_dv[k] == prev[k]@);
                                assert(forall|k: int|
                                    0 <= k < content_lines@.len()
                                        ==> #[trigger] content_lines.deep_view()[k]
                                        == content_lines@[k]@);
                                assert(content_lines.deep_view() =~= prev_dv.push(
                                    lines@[i as int]@,
                                ));
                            }
                        }
                    },
                }
            }
            i += 1;
        }
        proof {
            assert(ls.take(n as int) =~= ls);
            lemma_dfold_unique(ls);
        }
        let ghost st = dfold(ls);
        let index: usize = match vec_assoc(&cd, "index") {
            Some(v) => match crate::strutil::parse_usize_dec(v.as_str()) {
                Some(ix) => ix,
                None => {
                    return Err(
                        crate::chapter::ChapterParseError::new(
                            String::from_str("invalid chapter index"),
                        ),
                    );
                },
            },
            None => {
                return Err(
                    crate::chapter::ChapterParseError::new(
                        String::from_str("invalid chapter index"),
                    ),
                );
            },
        };
        let chapter_url = match vec_assoc(&cd, "chapter_url") {
            Some(v) => v,
            None => {
                return Err(
                    crate::chapter::ChapterParseError::new(
                        String::from_str("invalid chapter url"),
                    ),
                );
            },
        };
        let fiction_url = match vec_assoc(&cd, "fiction_url") {
            Some(v) => v,
            None => {
                return Err(
                    crate::chapter::ChapterParseError::new(
                        String::from_str("invalid fiction url"),
                    ),
                );
            },
        };
        let published_at: Option<Timestamp> = match vec_assoc(&cd, "published_at") {
            None => None,
            Some(v) => {
                if crate::strutil::str_eq(v.as_str(), "not_found") {
                    None
                } else {
                    match crate::timestamp::parse_rfc3339(v.as_str()) {
                        Some(ts) => Some(ts),
                        None => {
                            return Err(
                                crate::chapter::ChapterParseError::new(
                                    String::from_str("invalid published_at timestamp"),
                                ),
                            );
                        },
                    }
                }
            },
        };
        let mut body = content_lines;
        let bn = body.len();
        if bn > 0 && crate::strutil::str_eq(body[bn - 1].as_str(), "</div>") {
            let ghost prev_dv = body.deep_view();
            let ghost prev = body@;
            body.pop();
            proof {
                assert(forall|k: int|
                    0 <= k < prev.len() ==> #[trigger] prev_dv[k] == prev[k]@);
                assert(prev_dv.last() == "</div>"@);
                assert(body.deep_view() =~= prev_dv.drop_last());
                assert(body.deep_view() =~= content_body(st.content_lines));
            }
        } else {
            proof {
                if st.content_lines.len() > 0 {
                    assert(body.deep_view().last() == body@[bn - 1]@);
                }
                assert(body.deep_view() =~= content_body(st.content_lines));
            }
        }
        let joined = join_lines(&body);
        let mut c = Chapter::default();
        c.set_index(index);
        c.set_title(title);
        c.set_chapter_url(chapter_url);
        c.set_fiction_url(fiction_url);
        c.set_published_at(published_at);
        c.set_metadata(meta);
        c.set_content(joined.as_str());
        proof {
            assert(spec_decode(s@) == Some(c@));
        }
        Ok(c)
    }
}

} // verus!
