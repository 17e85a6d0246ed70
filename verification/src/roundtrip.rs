//! The round-trip law of the durable chapter format: decoding an encoding
//! gives the chapter back, field for field, for every chapter whose fields
//! fit on the format's lines (see [`encodable`]).
use crate::chapter::assoc;
use crate::chapter::find_key;
use crate::chapter::lemma_find_key_is;
use crate::chapter::meta_upsert;
use crate::chapter::unique_keys;
use crate::chapter::Chapter;
use crate::chapter::ChapterView;
use crate::codec::content_body;
use crate::codec::dfold;
use crate::codec::dstep;
use crate::codec::enc_lines;
use crate::codec::init_state;
use crate::codec::meta_line;
use crate::codec::published_text;
use crate::codec::spec_decode;
use crate::codec::spec_encode;
use crate::codec::title_lines;
use crate::codec::DecodeState;
use crate::html::is_canonical_fragment;
use crate::html::normalize_fragment;
use crate::strutil::all_no_newline;
use crate::strutil::char_find;
use crate::strutil::dec_str;
use crate::strutil::ends_with_str;
use crate::strutil::find_char;
use crate::strutil::has_prefix;
use crate::strutil::has_suffix;
use crate::strutil::is_space_char;
use crate::strutil::join_nl;
use crate::strutil::lemma_dec_str_roundtrip;
use crate::strutil::lemma_find_char_is;
use crate::strutil::lemma_join_of_lines_nl;
use crate::strutil::lemma_lines_no_newline;
use crate::strutil::lemma_lines_of_join;
use crate::strutil::lemma_trim_end_matches_roundtrip;
use crate::strutil::lemma_trim_is;
use crate::strutil::lemma_trim_stable_ends;
use crate::strutil::no_newline;
use crate::strutil::spec_lines;
use crate::strutil::spec_trim;
use crate::strutil::split_lines;
use crate::strutil::starts_with_str;
use crate::strutil::str_eq;
use crate::strutil::trim_stable;
use crate::strutil::trim_str;
use crate::timestamp::rfc3339_of;
use crate::timestamp::rfc3339_parse;
use crate::timestamp::Timestamp;
use vstd::prelude::*;

verus! {

/// A metadata entry that survives the format: its key has no colon and no
/// newline and trims to itself, and its value has no newline and trims to
/// itself.
pub open spec fn meta_entry_ok(p: (Seq<char>, Seq<char>)) -> bool {
    &&& no_newline(p.0)
    &&& trim_stable(p.0)
    &&& (forall|i: int| 0 <= i < p.0.len() ==> p.0[i] != ':')
    &&& no_newline(p.1)
    &&& trim_stable(p.1)
}

/// A content line that the decoder captures verbatim: it does not look like a
/// header delimiter, a title line or the content opener.
pub open spec fn content_line_ok(l: Seq<char>) -> bool {
    &&& !has_prefix(l, "<!--"@)
    &&& !has_prefix(l, "-->"@)
    &&& !has_prefix(l, "<h1 class=\"mainTitle\">"@)
    &&& !has_prefix(l, "<div class=\"content\">"@)
}

/// A publication instant that survives the format: it is in the renderable
/// range and its RFC 3339 rendering has no whitespace, is not the literal
/// `not_found`, and parses back to the same instant (the facts the chrono
/// wrappers state of every rendering they produce).
pub open spec fn published_ok(pa: Option<Timestamp>) -> bool {
    match pa {
        None => true,
        Some(ts) => {
            let r = rfc3339_of(ts.secs as int, ts.nanos as int);
            &&& ts.wf()
            &&& no_newline(r)
            &&& trim_stable(r)
            &&& r != "not_found"@
            &&& rfc3339_parse(r) == Some((ts.secs, ts.nanos))
        },
    }
}

/// A chapter whose encoding decodes back to it: every text field fits on its
/// line of the format. [`Chapter::is_encodable`] checks this at run time;
/// everything a backend builds from ordinary page text satisfies it unless
/// the content itself contains a line that mimics one of the format's
/// markers.
pub open spec fn encodable(c: ChapterView) -> bool {
    &&& match c.title {
        None => true,
        Some(t) => no_newline(t) && !has_suffix(t, "</h1>"@),
    }
    &&& no_newline(c.chapter_url)
    &&& trim_stable(c.chapter_url)
    &&& no_newline(c.fiction_url)
    &&& trim_stable(c.fiction_url)
    &&& unique_keys(c.metadata)
    &&& (forall|i: int| 0 <= i < c.metadata.len() ==> meta_entry_ok(#[trigger] c.metadata[i]))
    &&& is_canonical_fragment(c.content)
    &&& (c.content.len() > 0 ==> c.content[c.content.len() - 1] != '\n')
    &&& (forall|i: int|
        0 <= i < spec_lines(c.content + seq!['\n']).len() ==> content_line_ok(
            #[trigger] spec_lines(c.content + seq!['\n'])[i],
        ))
    &&& published_ok(c.published_at)
}

/// The decode fold started from an arbitrary state.
pub open spec fn dfold_from(st: DecodeState, ls: Seq<Seq<char>>) -> DecodeState
    decreases ls.len(),
{
    if ls.len() == 0 {
        st
    } else {
        dstep(dfold_from(st, ls.drop_last()), ls.last())
    }
}

proof fn lemma_dfold_from_init(ls: Seq<Seq<char>>)
    ensures
        dfold(ls) == dfold_from(init_state(), ls),
    decreases ls.len(),
{
    if ls.len() > 0 {
        lemma_dfold_from_init(ls.drop_last());
    }
}

proof fn lemma_dfold_from_app(st: DecodeState, a: Seq<Seq<char>>, b: Seq<Seq<char>>)
    ensures
        dfold_from(st, a + b) == dfold_from(dfold_from(st, a), b),
    decreases b.len(),
{
    if b.len() == 0 {
        assert(a + b =~= a);
    } else {
        lemma_dfold_from_app(st, a, b.drop_last());
        assert((a + b).drop_last() =~= a + b.drop_last());
        assert((a + b).last() == b.last());
    }
}

/// Splitting a `key: value` line, optionally behind the metadata block's
/// two-space indent, recovers the trimmed key and value.
proof fn lemma_kv_split(k: Seq<char>, v: Seq<char>, line: Seq<char>, indent: bool)
    requires
        line == if indent {
            "  "@ + k + ": "@ + v
        } else {
            k + ": "@ + v
        },
        forall|i: int| 0 <= i < k.len() ==> k[i] != ':',
        trim_stable(k),
        trim_stable(v),
    ensures
        ({
            let t = spec_trim(line);
            let ci = find_char(t, ':');
            &&& 0 <= ci < t.len()
            &&& spec_trim(t.subrange(0, ci)) == k
            &&& spec_trim(t.subrange(ci + 1, t.len() as int)) == v
        }),
{
    reveal_strlit("  ");
    reveal_strlit(": ");
    let pad: int = if indent {
        2
    } else {
        0
    };
    let klen = k.len() as int;
    let vlen = v.len() as int;
    assert(line.len() == pad + klen + 2 + vlen);
    assert forall|i: int| 0 <= i < klen implies line[pad + i] == k[i] by {}
    assert(line[pad + klen] == ':');
    assert(line[pad + klen + 1] == ' ');
    assert forall|i: int| 0 <= i < vlen implies line[pad + klen + 2 + i] == v[i] by {}
    if k.len() > 0 {
        lemma_trim_stable_ends(k);
    }
    if v.len() > 0 {
        lemma_trim_stable_ends(v);
    }
    let j: int = if vlen > 0 {
        line.len() as int
    } else {
        line.len() - 1
    };
    lemma_trim_is(line, pad, j);
    let t = spec_trim(line);
    assert(t == line.subrange(pad, j));
    assert(t.len() == j - pad);
    // the first colon of the trimmed line closes the key
    assert forall|i: int| 0 <= i < klen implies t[i] != ':' by {
        assert(t[i] == line[pad + i]);
    }
    assert(t[klen] == line[pad + klen]);
    lemma_find_char_is(t, ':', klen);
    assert(t.subrange(0, klen) =~= k);
    if vlen > 0 {
        assert(t.subrange(klen + 1, t.len() as int) =~= seq![' '] + v);
        let u = seq![' '] + v;
        lemma_trim_is(u, 1, u.len() as int);
        assert(u.subrange(1, u.len() as int) =~= v);
    } else {
        assert(t.subrange(klen + 1, t.len() as int) =~= Seq::<char>::empty());
        lemma_trim_is(Seq::<char>::empty(), 0, 0);
        assert(spec_trim(t.subrange(klen + 1, t.len() as int)) =~= v);
    }
}

} // verus!

verus! {

/// Reading a header `key: value` line inside the header block stores the
/// pair among the chapter fields.
proof fn lemma_dstep_header_kv(st: DecodeState, k: Seq<char>, v: Seq<char>)
    requires
        st.in_cd,
        !st.in_meta,
        k.len() > 0,
        k[0] != '<' && k[0] != '-' && k[0] != 'm',
        forall|i: int| 0 <= i < k.len() ==> k[i] != ':',
        trim_stable(k),
        trim_stable(v),
    ensures
        dstep(st, k + ": "@ + v) == (DecodeState { cd: meta_upsert(st.cd, k, v), ..st }),
{
    let line = k + ": "@ + v;
    assert(line[0] == k[0]);
    proof_line_not_marker(line);
    reveal_strlit("metadata:");
    if has_prefix(line, "metadata:"@) {
        assert(line[0] == "metadata:"@[0]);
        assert("metadata:"@[0] == 'm');
    }
    lemma_kv_split(k, v, line, false);
}

/// Reading an indented `key: value` line inside the metadata block stores
/// the pair among the metadata.
proof fn lemma_dstep_meta_kv(st: DecodeState, k: Seq<char>, v: Seq<char>)
    requires
        st.in_cd,
        st.in_meta,
        forall|i: int| 0 <= i < k.len() ==> k[i] != ':',
        trim_stable(k),
        trim_stable(v),
    ensures
        dstep(st, "  "@ + k + ": "@ + v) == (DecodeState { meta: meta_upsert(st.meta, k, v), ..st }),
{
    let line = "  "@ + k + ": "@ + v;
    reveal_strlit("  ");
    assert(line[0] == ' ');
    proof_line_not_marker(line);
    reveal_strlit("metadata:");
    if has_prefix(line, "metadata:"@) {
        assert(line[0] == "metadata:"@[0]);
        assert("metadata:"@[0] == 'm');
    }
    assert(line.subrange(0, 2) =~= "  "@);
    assert(has_prefix(line, "  "@));
    lemma_kv_split(k, v, line, true);
}

/// A line whose first character is neither `<` nor `-` is neither header
/// delimiter.
proof fn proof_line_not_marker(line: Seq<char>)
    requires
        line.len() > 0,
        line[0] != '<' && line[0] != '-',
    ensures
        !has_prefix(line, "<!--"@),
        !has_prefix(line, "-->"@),
{
    reveal_strlit("<!--");
    reveal_strlit("-->");
    if has_prefix(line, "<!--"@) {
        assert(line.subrange(0, 4)[0] == line[0]);
    }
    if has_prefix(line, "-->"@) {
        assert(line.subrange(0, 3)[0] == line[0]);
    }
}

/// Reading the metadata block's lines appends the entries in order.
proof fn lemma_fold_meta(st: DecodeState, m: Seq<(Seq<char>, Seq<char>)>)
    requires
        st.in_cd,
        st.in_meta,
        forall|i: int| 0 <= i < m.len() ==> meta_entry_ok(#[trigger] m[i]),
        unique_keys(st.meta + m),
    ensures
        dfold_from(st, m.map_values(|p: (Seq<char>, Seq<char>)| meta_line(p))) == (DecodeState {
            meta: st.meta + m,
            ..st
        }),
    decreases m.len(),
{
    let lines = m.map_values(|p: (Seq<char>, Seq<char>)| meta_line(p));
    if m.len() == 0 {
        assert(lines =~= Seq::<Seq<char>>::empty());
        assert(st.meta + m =~= st.meta);
    } else {
        let p0 = m[0];
        let rest = m.drop_first();
        let l0 = meta_line(p0);
        assert(meta_entry_ok(p0));
        let restlines = rest.map_values(|p: (Seq<char>, Seq<char>)| meta_line(p));
        assert forall|i: int| 0 <= i < restlines.len() implies restlines[i] == lines[i + 1] by {
            assert(rest[i] == m[i + 1]);
        }
        assert(lines =~= seq![l0] + restlines);
        lemma_dfold_from_app(st, seq![l0], restlines);
        assert(seq![l0].drop_last() =~= Seq::<Seq<char>>::empty());
        assert(dfold_from(st, Seq::<Seq<char>>::empty()) == st);
        assert(dfold_from(st, seq![l0]) == dstep(st, l0));
        lemma_dstep_meta_kv(st, p0.0, p0.1);
        // the key is new, so the upsert appends
        assert forall|t: int| 0 <= t < st.meta.len() implies (#[trigger] st.meta[t]).0 != p0.0 by {
            assert((st.meta + m)[t] == st.meta[t]);
            assert((st.meta + m)[st.meta.len() as int] == p0);
        }
        lemma_find_key_is(st.meta, p0.0, st.meta.len() as int);
        let st1 = DecodeState { meta: st.meta.push(p0), ..st };
        assert(dstep(st, l0) == st1);
        assert(st.meta.push(p0) + rest =~= st.meta + m);
        assert forall|i: int| 0 <= i < rest.len() implies meta_entry_ok(#[trigger] rest[i]) by {
            assert(rest[i] == m[i + 1]);
        }
        lemma_fold_meta(st1, rest);
        assert(dfold_from(st1, restlines) == (DecodeState { meta: st1.meta + rest, ..st1 }));
    }
}

/// Capturing content lines appends them in order.
proof fn lemma_fold_content(st: DecodeState, ls: Seq<Seq<char>>)
    requires
        !st.in_cd,
        st.in_content,
        forall|i: int| 0 <= i < ls.len() ==> content_line_ok(#[trigger] ls[i]),
    ensures
        dfold_from(st, ls) == (DecodeState { content_lines: st.content_lines + ls, ..st }),
    decreases ls.len(),
{
    if ls.len() == 0 {
        assert(st.content_lines + ls =~= st.content_lines);
    } else {
        let front = ls.drop_last();
        assert forall|i: int| 0 <= i < front.len() implies content_line_ok(#[trigger] front[i]) by {
            assert(front[i] == ls[i]);
        }
        lemma_fold_content(st, front);
        assert(content_line_ok(ls.last()));
        assert((st.content_lines + front).push(ls.last()) =~= st.content_lines + ls);
    }
}

} // verus!

verus! {

proof fn lemma_fold_one(st: DecodeState, l: Seq<char>)
    ensures
        dfold_from(st, seq![l]) == dstep(st, l),
{
    assert(seq![l].drop_last() =~= Seq::<Seq<char>>::empty());
    assert(dfold_from(st, Seq::<Seq<char>>::empty()) == st);
}

proof fn lemma_fold_snoc(st: DecodeState, a: Seq<Seq<char>>, l: Seq<char>)
    ensures
        dfold_from(st, a.push(l)) == dstep(dfold_from(st, a), l),
{
    assert(a.push(l).drop_last() =~= a);
    assert(a.push(l).last() == l);
}

proof fn lemma_no_nl_concat(a: Seq<Seq<char>>, b: Seq<Seq<char>>)
    requires
        all_no_newline(a),
        all_no_newline(b),
    ensures
        all_no_newline(a + b),
{
    assert forall|i: int| 0 <= i < (a + b).len() implies no_newline(#[trigger] (a + b)[i]) by {
        if i < a.len() {
            assert((a + b)[i] == a[i]);
        } else {
            assert((a + b)[i] == b[i - a.len()]);
        }
    }
}

proof fn lemma_no_nl_chars(a: Seq<char>, b: Seq<char>)
    requires
        no_newline(a),
        no_newline(b),
    ensures
        no_newline(a + b),
{
    assert forall|i: int| 0 <= i < (a + b).len() implies (a + b)[i] != '\n' by {
        if i < a.len() {
            assert((a + b)[i] == a[i]);
        } else {
            assert((a + b)[i] == b[i - a.len()]);
        }
    }
}

/// A decimal rendering has no newline and trims to itself.
proof fn lemma_dec_str_text(n: int)
    requires
        n >= 0,
    ensures
        no_newline(dec_str(n)),
        trim_stable(dec_str(n)),
{
    crate::strutil::lemma_dec_str_digits(n);
    let s = dec_str(n);
    assert forall|i: int| 0 <= i < s.len() implies s[i] != '\n' && !is_space_char(s[i]) by {
        assert(crate::strutil::is_digit_char(s[i]));
    }
    crate::strutil::lemma_trim_stable_characterization(s);
}

/// Decoding an encoding gives the chapter back, field for field. The content
/// comes back through one more canonicalisation pass, which changes nothing
/// because an encodable chapter's content is already canonical; the metadata
/// comes back in encoding order, so even its order survives.
#[verifier::rlimit(100)]
pub proof fn lemma_encode_decode_roundtrip(c: ChapterView)
    requires
        encodable(c),
    ensures
        spec_decode(spec_encode(c)) == Some(c),
{
    reveal_strlit("<!--");
    reveal_strlit("-->");
    reveal_strlit("index: ");
    reveal_strlit("index");
    reveal_strlit("chapter_url: ");
    reveal_strlit("chapter_url");
    reveal_strlit("fiction_url: ");
    reveal_strlit("fiction_url");
    reveal_strlit("published_at: ");
    reveal_strlit("published_at");
    reveal_strlit("metadata:");
    reveal_strlit("not_found");
    reveal_strlit(": ");
    reveal_strlit("  ");
    reveal_strlit("<h1 class=\"mainTitle\">");
    reveal_strlit("</h1>");
    reveal_strlit("<div class=\"content\">");
    reveal_strlit("</div>");
    let l0 = "<!--"@;
    let l1 = "index: "@ + dec_str(c.index as int);
    let l2 = "chapter_url: "@ + c.chapter_url;
    let l3 = "fiction_url: "@ + c.fiction_url;
    let l4 = "published_at: "@ + published_text(c.published_at);
    let l5 = "metadata:"@;
    let h6 = seq![l0, l1, l2, l3, l4, l5];
    let ml = c.metadata.map_values(|p: (Seq<char>, Seq<char>)| meta_line(p));
    let arr = seq!["-->"@];
    let tl = title_lines(c.title);
    let dl = seq!["<div class=\"content\">"@];
    let cl = spec_lines(c.content + seq!['\n']);
    let zl = seq!["</div>"@];
    let bigl = h6 + ml + arr + tl + dl + cl + zl;
    assert(enc_lines(c) == bigl);

    // the rendered timestamp line value
    lemma_dec_str_text(c.index as int);
    assert(no_newline(published_text(c.published_at)) && trim_stable(
        published_text(c.published_at),
    ) && published_text(c.published_at) != "not_found"@ || c.published_at is None) by {
        if c.published_at is Some {
            assert(published_ok(c.published_at));
        }
    }
    assert(c.published_at is None ==> published_text(c.published_at) == "not_found"@);
    assert(no_newline("not_found"@));
    crate::strutil::lemma_trim_stable_characterization("not_found"@);

    // Part A: the lines of the encoding are exactly enc_lines(c)
    assert(no_newline(l0));
    assert(no_newline("index: "@));
    lemma_no_nl_chars("index: "@, dec_str(c.index as int));
    assert(no_newline("chapter_url: "@));
    lemma_no_nl_chars("chapter_url: "@, c.chapter_url);
    assert(no_newline("fiction_url: "@));
    lemma_no_nl_chars("fiction_url: "@, c.fiction_url);
    assert(no_newline("published_at: "@));
    assert(no_newline(published_text(c.published_at)));
    lemma_no_nl_chars("published_at: "@, published_text(c.published_at));
    assert(no_newline(l5));
    assert(all_no_newline(h6)) by {
        assert(h6[0] == l0 && h6[1] == l1 && h6[2] == l2 && h6[3] == l3 && h6[4] == l4 && h6[5]
            == l5);
    }
    assert(all_no_newline(ml)) by {
        assert forall|i: int| 0 <= i < ml.len() implies no_newline(#[trigger] ml[i]) by {
            assert(meta_entry_ok(c.metadata[i]));
            assert(no_newline("  "@));
            assert(no_newline(": "@));
            lemma_no_nl_chars("  "@, c.metadata[i].0);
            lemma_no_nl_chars("  "@ + c.metadata[i].0, ": "@);
            lemma_no_nl_chars("  "@ + c.metadata[i].0 + ": "@, c.metadata[i].1);
            assert(ml[i] == meta_line(c.metadata[i]));
        }
    }
    assert(all_no_newline(arr)) by {
        assert(no_newline("-->"@));
        assert(arr[0] == "-->"@);
    }
    assert(all_no_newline(tl)) by {
        match c.title {
            Some(t) => {
                assert(no_newline("<h1 class=\"mainTitle\">"@));
                assert(no_newline("</h1>"@));
                lemma_no_nl_chars("<h1 class=\"mainTitle\">"@, t);
                lemma_no_nl_chars("<h1 class=\"mainTitle\">"@ + t, "</h1>"@);
                assert(tl[0] == "<h1 class=\"mainTitle\">"@ + t + "</h1>"@);
            },
            None => {},
        }
    }
    assert(all_no_newline(dl)) by {
        assert(no_newline("<div class=\"content\">"@));
        assert(dl[0] == "<div class=\"content\">"@);
    }
    lemma_lines_no_newline(c.content + seq!['\n']);
    assert(all_no_newline(zl)) by {
        assert(no_newline("</div>"@));
        assert(zl[0] == "</div>"@);
    }
    lemma_no_nl_concat(h6, ml);
    lemma_no_nl_concat(h6 + ml, arr);
    lemma_no_nl_concat(h6 + ml + arr, tl);
    lemma_no_nl_concat(h6 + ml + arr + tl, dl);
    lemma_no_nl_concat(h6 + ml + arr + tl + dl, cl);
    lemma_no_nl_concat(h6 + ml + arr + tl + dl + cl, zl);
    assert(bigl.last() == "</div>"@) by {
        assert(bigl.len() == h6.len() + ml.len() + arr.len() + tl.len() + dl.len() + cl.len()
            + zl.len());
        assert(bigl[bigl.len() - 1] == zl[0]);
    }
    assert("</div>"@.len() == 6);
    lemma_lines_of_join(bigl);
    assert(spec_lines(spec_encode(c)) == bigl);

    // Part B: folding the lines gives the expected parser state
    let s0 = init_state();
    lemma_dfold_from_init(bigl);
    lemma_dfold_from_app(s0, h6 + ml + arr + tl + dl + cl, zl);
    lemma_dfold_from_app(s0, h6 + ml + arr + tl + dl, cl);
    lemma_dfold_from_app(s0, h6 + ml + arr + tl, dl);
    lemma_dfold_from_app(s0, h6 + ml + arr, tl);
    lemma_dfold_from_app(s0, h6 + ml, arr);
    lemma_dfold_from_app(s0, h6, ml);

    // the six header lines
    let e = Seq::<Seq<char>>::empty();
    assert(dfold_from(s0, e) == s0);
    assert(h6 =~= e.push(l0).push(l1).push(l2).push(l3).push(l4).push(l5));
    lemma_fold_snoc(s0, e, l0);
    lemma_fold_snoc(s0, e.push(l0), l1);
    lemma_fold_snoc(s0, e.push(l0).push(l1), l2);
    lemma_fold_snoc(s0, e.push(l0).push(l1).push(l2), l3);
    lemma_fold_snoc(s0, e.push(l0).push(l1).push(l2).push(l3), l4);
    lemma_fold_snoc(s0, e.push(l0).push(l1).push(l2).push(l3).push(l4), l5);
    // opening delimiter
    assert(l0.subrange(0, 4) =~= "<!--"@);
    assert(has_prefix(l0, "<!--"@));
    let s1 = dstep(s0, l0);
    assert(s1 == (DecodeState { in_cd: true, ..s0 }));
    // the four header fields
    assert(l1 =~= "index"@ + ": "@ + dec_str(c.index as int));
    crate::strutil::lemma_trim_stable_characterization("index"@);
    lemma_dstep_header_kv(s1, "index"@, dec_str(c.index as int));
    let s2 = dstep(s1, l1);
    let cd1 = meta_upsert(s1.cd, "index"@, dec_str(c.index as int));
    assert(cd1 =~= seq![("index"@, dec_str(c.index as int))]);
    assert(l2 =~= "chapter_url"@ + ": "@ + c.chapter_url);
    crate::strutil::lemma_trim_stable_characterization("chapter_url"@);
    lemma_dstep_header_kv(s2, "chapter_url"@, c.chapter_url);
    let s3 = dstep(s2, l2);
    lemma_find_key_is(cd1, "chapter_url"@, 1);
    let cd2 = meta_upsert(cd1, "chapter_url"@, c.chapter_url);
    assert(cd2 =~= seq![("index"@, dec_str(c.index as int)), ("chapter_url"@, c.chapter_url)]);
    assert(l3 =~= "fiction_url"@ + ": "@ + c.fiction_url);
    crate::strutil::lemma_trim_stable_characterization("fiction_url"@);
    lemma_dstep_header_kv(s3, "fiction_url"@, c.fiction_url);
    let s4 = dstep(s3, l3);
    lemma_find_key_is(cd2, "fiction_url"@, 2);
    let cd3 = meta_upsert(cd2, "fiction_url"@, c.fiction_url);
    assert(cd3 =~= seq![
        ("index"@, dec_str(c.index as int)),
        ("chapter_url"@, c.chapter_url),
        ("fiction_url"@, c.fiction_url),
    ]);
    assert(l4 =~= "published_at"@ + ": "@ + published_text(c.published_at));
    crate::strutil::lemma_trim_stable_characterization("published_at"@);
    lemma_dstep_header_kv(s4, "published_at"@, published_text(c.published_at));
    let s5 = dstep(s4, l4);
    lemma_find_key_is(cd3, "published_at"@, 3);
    let cd4 = meta_upsert(cd3, "published_at"@, published_text(c.published_at));
    assert(cd4 =~= seq![
        ("index"@, dec_str(c.index as int)),
        ("chapter_url"@, c.chapter_url),
        ("fiction_url"@, c.fiction_url),
        ("published_at"@, published_text(c.published_at)),
    ]);
    // the metadata block opener
    proof_line_not_marker(l5);
    assert(l5.subrange(0, 9) =~= "metadata:"@);
    assert(has_prefix(l5, "metadata:"@));
    let s6 = dstep(s5, l5);
    assert(s6 == (DecodeState { in_meta: true, ..s5 }));
    assert(dfold_from(s0, h6) == s6);
    // the metadata lines
    assert(s6.meta + c.metadata =~= c.metadata);
    lemma_fold_meta(s6, c.metadata);
    let s7 = dfold_from(s6, ml);
    assert(s7 == (DecodeState { meta: s6.meta + c.metadata, ..s6 }));
    // the closing delimiter
    lemma_fold_one(s7, "-->"@);
    assert(!has_prefix("-->"@, "<!--"@));
    assert("-->"@.subrange(0, 3) =~= "-->"@);
    assert(has_prefix("-->"@, "-->"@));
    let s8 = dstep(s7, "-->"@);
    assert(s8 == (DecodeState { in_cd: false, ..s7 }));
    // the title line, when there is one
    let s9 = dfold_from(s8, tl);
    match c.title {
        Some(t) => {
            let lt = "<h1 class=\"mainTitle\">"@ + t + "</h1>"@;
            assert(tl =~= seq![lt]);
            lemma_fold_one(s8, lt);
            assert(lt[0] == '<' && lt[1] == 'h');
            assert(!has_prefix(lt, "<!--"@)) by {
                if has_prefix(lt, "<!--"@) {
                    assert(lt.subrange(0, 4)[1] == lt[1]);
                }
            }
            assert(!has_prefix(lt, "-->"@)) by {
                if has_prefix(lt, "-->"@) {
                    assert(lt.subrange(0, 3)[0] == lt[0]);
                }
            }
            assert(lt.subrange(0, 22) =~= "<h1 class=\"mainTitle\">"@);
            assert(has_prefix(lt, "<h1 class=\"mainTitle\">"@));
            assert(lt.subrange(22, lt.len() as int) =~= t + "</h1>"@);
            lemma_trim_end_matches_roundtrip(t, "</h1>"@);
            assert(s9 == (DecodeState { title: Some(t), ..s8 }));
        },
        None => {
            assert(tl =~= Seq::<Seq<char>>::empty());
            assert(s9 == s8);
            assert(s9.title == c.title);
        },
    }
    // the content opener
    let ld = "<div class=\"content\">"@;
    lemma_fold_one(s9, ld);
    assert(ld[0] == '<' && ld[1] == 'd');
    assert(!has_prefix(ld, "<!--"@)) by {
        if has_prefix(ld, "<!--"@) {
            assert(ld.subrange(0, 4)[1] == ld[1]);
        }
    }
    assert(!has_prefix(ld, "-->"@)) by {
        if has_prefix(ld, "-->"@) {
            assert(ld.subrange(0, 3)[0] == ld[0]);
        }
    }
    assert(!has_prefix(ld, "<h1 class=\"mainTitle\">"@)) by {
        assert("<h1 class=\"mainTitle\">"@.len() == 22);
        assert(ld.len() == 21);
    }
    assert(ld.subrange(0, 21) =~= ld);
    assert(has_prefix(ld, "<div class=\"content\">"@));
    let s10 = dstep(s9, ld);
    assert(s10 == (DecodeState { in_content: true, ..s9 }));
    // the content lines
    lemma_fold_content(s10, cl);
    let s11 = dfold_from(s10, cl);
    assert(s11 == (DecodeState { content_lines: s10.content_lines + cl, ..s10 }));
    assert(s11.content_lines =~= cl);
    // the closing div line
    let lz = "</div>"@;
    lemma_fold_one(s11, lz);
    assert(lz[0] == '<' && lz[1] == '/');
    assert(!has_prefix(lz, "<!--"@)) by {
        if has_prefix(lz, "<!--"@) {
            assert(lz.subrange(0, 4)[1] == lz[1]);
        }
    }
    assert(!has_prefix(lz, "-->"@)) by {
        if has_prefix(lz, "-->"@) {
            assert(lz.subrange(0, 3)[0] == lz[0]);
        }
    }
    assert(!has_prefix(lz, "<h1 class=\"mainTitle\">"@)) by {
        assert(lz.len() == 6);
    }
    assert(!has_prefix(lz, "<div class=\"content\">"@)) by {
        assert(lz.len() == 6);
        assert("<div class=\"content\">"@.len() == 21);
    }
    let s12 = dstep(s11, lz);
    assert(s12 == (DecodeState { content_lines: s11.content_lines.push(lz), ..s11 }));
    assert(dfold(bigl) == s12);

    // Part C: reassembling the fields from the final state
    let st = dfold(spec_lines(spec_encode(c)));
    assert(st == s12);
    assert(st.cd == cd4);
    lemma_find_key_is(cd4, "index"@, 0);
    assert(assoc(st.cd, "index"@) == Some(dec_str(c.index as int)));
    lemma_dec_str_roundtrip(c.index);
    lemma_find_key_is(cd4, "chapter_url"@, 1);
    assert(assoc(st.cd, "chapter_url"@) == Some(c.chapter_url));
    lemma_find_key_is(cd4, "fiction_url"@, 2);
    assert(assoc(st.cd, "fiction_url"@) == Some(c.fiction_url));
    lemma_find_key_is(cd4, "published_at"@, 3);
    assert(assoc(st.cd, "published_at"@) == Some(published_text(c.published_at)));
    // the content joins back and renormalises to itself
    assert(st.content_lines.len() > 0 && st.content_lines.last() == "</div>"@);
    assert(content_body(st.content_lines) =~= cl);
    lemma_join_of_lines_nl(c.content);
    assert(join_nl(content_body(st.content_lines)) == c.content);
    assert(crate::html::dom_normalize(c.content) == c.content);
    // the timestamp comes back
    match c.published_at {
        None => {
            assert(published_text(c.published_at) == "not_found"@);
        },
        Some(ts) => {
            assert(published_text(c.published_at) != "not_found"@);
            assert(rfc3339_parse(published_text(c.published_at)) == Some((ts.secs, ts.nanos)));
            assert(Timestamp { secs: ts.secs, nanos: ts.nanos } == ts);
        },
    }
    assert(st.meta == c.metadata);
    assert(st.title == c.title);
    assert(spec_decode(spec_encode(c)) == Some(c));
}

} // verus!

verus! {

/// Does `s` lack newlines?
fn has_no_newline(s: &str) -> (r: bool)
    ensures
        r == no_newline(s@),
{
    match char_find(s, '\n') {
        Some(_) => false,
        None => {
            proof {
                crate::strutil::lemma_find_char_bounds(s@, '\n');
            }
            true
        },
    }
}

/// Does trimming `s` leave it unchanged?
fn is_trim_stable(s: &str) -> (r: bool)
    ensures
        r == trim_stable(s@),
{
    let t = trim_str(s);
    str_eq(t.as_str(), s)
}

impl Chapter {
    /// Checks that this chapter survives the durable format: that
    /// [`encodable`] holds of it, so that by
    /// [`lemma_encode_decode_roundtrip`] parsing its rendering gives it back.
    /// Everything hinges on line discipline: no embedded newlines, no colon
    /// in a metadata key, values that trimming leaves alone, and no content
    /// line that mimics a marker of the format.
    pub fn is_encodable(&self) -> (r: bool)
        ensures
            r == encodable(self@),
    {
        let title_ok = match self.title() {
            None => true,
            Some(t) => has_no_newline(t.as_str()) && !ends_with_str(t.as_str(), "</h1>"),
        };
        if !title_ok {
            return false;
        }
        if !has_no_newline(self.chapter_url().as_str()) || !is_trim_stable(
            self.chapter_url().as_str(),
        ) {
            return false;
        }
        if !has_no_newline(self.fiction_url().as_str()) || !is_trim_stable(
            self.fiction_url().as_str(),
        ) {
            return false;
        }
        let m = self.metadata();
        let n = m.len();
        let mut i: usize = 0;
        while i < n
            invariant
                n == m.len(),
                crate::chapter::meta_view(m@) == self@.metadata,
                0 <= i <= n,
                forall|a: int, b: int|
                    0 <= a < b < n && a < i ==> (#[trigger] self@.metadata[a]).0 != (
                    #[trigger] self@.metadata[b]).0,
                forall|t: int| 0 <= t < i ==> meta_entry_ok(#[trigger] self@.metadata[t]),
            decreases n - i,
        {
            proof {
                assert(self@.metadata[i as int] == (m@[i as int].0@, m@[i as int].1@));
            }
            let key = &m[i].0;
            let value = &m[i].1;
            if !has_no_newline(key.as_str()) || !is_trim_stable(key.as_str()) || !has_no_newline(
                value.as_str(),
            ) || !is_trim_stable(value.as_str()) {
                return false;
            }
            match char_find(key.as_str(), ':') {
                Some(_) => {
                    return false;
                },
                None => {
                    proof {
                        crate::strutil::lemma_find_char_bounds(key@, ':');
                    }
                },
            }
            let mut j: usize = i + 1;
            while j < n
                invariant
                    n == m.len(),
                    crate::chapter::meta_view(m@) == self@.metadata,
                    0 <= i < j <= n,
                    forall|b: int|
                        i < b < j ==> (#[trigger] self@.metadata[b]).0 != self@.metadata[i as int].0,
                decreases n - j,
            {
                proof {
                    assert(self@.metadata[j as int] == (m@[j as int].0@, m@[j as int].1@));
                }
                if str_eq(m[i].0.as_str(), m[j].0.as_str()) {
                    proof {
                        assert(!unique_keys(self@.metadata)) by {
                            assert((self@.metadata[i as int]).0 == (self@.metadata[j as int]).0);
                        }
                    }
                    return false;
                }
                j += 1;
            }
            i += 1;
        }
        if !str_eq(normalize_fragment(self.content().as_str()).as_str(), self.content().as_str()) {
            return false;
        }
        let clen = crate::strutil::str_char_len(self.content().as_str());
        if clen > 0 && self.content().as_str().get_char(clen - 1) == '\n' {
            return false;
        }
        let mut body = self.content().clone();
        body.append("\n");
        proof {
            reveal_strlit("\n");
            assert("\n"@ =~= seq!['\n']);
            assert(body@ == self@.content + seq!['\n']);
        }
        let body_lines = split_lines(body.as_str());
        let bn = body_lines.len();
        let mut k: usize = 0;
        while k < bn
            invariant
                bn == body_lines.len(),
                body_lines.deep_view() == spec_lines(self@.content + seq!['\n']),
                0 <= k <= bn,
                forall|t: int|
                    0 <= t < k ==> content_line_ok(
                        #[trigger] spec_lines(self@.content + seq!['\n'])[t],
                    ),
            decreases bn - k,
        {
            let line = &body_lines[k];
            proof {
                assert(body_lines.deep_view()[k as int] == body_lines@[k as int]@);
            }
            if starts_with_str(line.as_str(), "<!--") || starts_with_str(line.as_str(), "-->")
                || starts_with_str(line.as_str(), "<h1 class=\"mainTitle\">") || starts_with_str(
                line.as_str(),
                "<div class=\"content\">",
            ) {
                return false;
            }
            k += 1;
        }
        match self.published_at() {
            None => true,
            Some(ts) => {
                let ts2 = *ts;
                if 0 <= ts2.secs && ts2.secs <= crate::timestamp::MAX_TIMESTAMP_SECS && ts2.nanos
                    < 1_000_000_000 {
                    let rendered = crate::timestamp::format_rfc3339(&ts2);
                    proof {
                        let rv = rendered@;
                        assert forall|t: int| 0 <= t < rv.len() implies rv[t] != '\n' by {
                            assert(!is_space_char(rv[t]));
                        }
                        if rv.len() > 0 {
                            crate::strutil::lemma_trim_stable_characterization(rv);
                        }
                        assert(published_ok(self@.published_at));
                    }
                    true
                } else {
                    false
                }
            },
        }
    }
}

} // verus!
