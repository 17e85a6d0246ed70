//! Character-level string helpers shared by the chapter codec and the
//! backends: line splitting and joining, trimming, prefix and suffix tests,
//! and decimal printing and parsing, each with an exact specification.
use vstd::prelude::*;

verus! {

/// The whitespace characters recognised by [`spec_trim`].
pub open spec fn is_space_char(c: char) -> bool {
    c == ' ' || c == '\t' || c == '\r' || c == '\n'
}

/// Holds when `s` contains no newline character.
pub open spec fn no_newline(s: Seq<char>) -> bool {
    forall|i: int| 0 <= i < s.len() ==> s[i] != '\n'
}

/// Index of the first character of `s` that is not whitespace (`s.len()` if all are).
pub open spec fn first_non_space(s: Seq<char>) -> int
    decreases s.len(),
{
    if s.len() == 0 {
        0
    } else if is_space_char(s[0]) {
        1 + first_non_space(s.drop_first())
    } else {
        0
    }
}

/// Exclusive end of the last character of `s` that is not whitespace (0 if all are).
pub open spec fn last_non_space_end(s: Seq<char>) -> int
    decreases s.len(),
{
    if s.len() == 0 {
        0
    } else if is_space_char(s.last()) {
        last_non_space_end(s.drop_last())
    } else {
        s.len() as int
    }
}

/// `s` with leading and trailing whitespace removed.
pub open spec fn spec_trim(s: Seq<char>) -> Seq<char> {
    let i = first_non_space(s);
    let j = last_non_space_end(s);
    if i < j {
        s.subrange(i, j)
    } else {
        Seq::empty()
    }
}

/// Holds when trimming `s` leaves it unchanged.
pub open spec fn trim_stable(s: Seq<char>) -> bool {
    spec_trim(s) == s
}

/// Holds when `p` is a prefix of `s`.
pub open spec fn has_prefix(s: Seq<char>, p: Seq<char>) -> bool {
    p.len() <= s.len() && s.subrange(0, p.len() as int) == p
}

/// Holds when `p` is a suffix of `s`.
pub open spec fn has_suffix(s: Seq<char>, p: Seq<char>) -> bool {
    p.len() <= s.len() && s.subrange(s.len() - p.len(), s.len() as int) == p
}

pub proof fn lemma_first_non_space_bounds(s: Seq<char>)
    ensures
        0 <= first_non_space(s) <= s.len(),
        forall|k: int| 0 <= k < first_non_space(s) ==> is_space_char(s[k]),
        first_non_space(s) < s.len() ==> !is_space_char(s[first_non_space(s)]),
    decreases s.len(),
{
    if s.len() > 0 && is_space_char(s[0]) {
        lemma_first_non_space_bounds(s.drop_first());
        assert forall|k: int| 0 <= k < first_non_space(s) implies is_space_char(s[k]) by {
            if k > 0 {
                assert(s.drop_first()[k - 1] == s[k]);
            }
        }
        if first_non_space(s) < s.len() {
            assert(s.drop_first()[first_non_space(s) - 1] == s[first_non_space(s)]);
        }
    }
}

pub proof fn lemma_last_non_space_end_bounds(s: Seq<char>)
    ensures
        0 <= last_non_space_end(s) <= s.len(),
        forall|k: int| last_non_space_end(s) <= k < s.len() ==> is_space_char(s[k]),
        last_non_space_end(s) > 0 ==> !is_space_char(s[last_non_space_end(s) - 1]),
    decreases s.len(),
{
    if s.len() > 0 && is_space_char(s.last()) {
        lemma_last_non_space_end_bounds(s.drop_last());
        assert forall|k: int| last_non_space_end(s) <= k < s.len() implies is_space_char(s[k]) by {
            if k < s.len() - 1 {
                assert(s.drop_last()[k] == s[k]);
            }
        }
        if last_non_space_end(s) > 0 {
            assert(s.drop_last()[last_non_space_end(s) - 1] == s[last_non_space_end(s) - 1]);
        }
    }
}

/// A sequence whose ends are not whitespace is its own trim.
pub proof fn lemma_trim_stable_characterization(s: Seq<char>)
    requires
        s.len() == 0 || (!is_space_char(s[0]) && !is_space_char(s[s.len() - 1])),
    ensures
        trim_stable(s),
{
    if s.len() > 0 {
        assert(first_non_space(s) == 0);
        lemma_last_non_space_end_bounds(s);
        if last_non_space_end(s) < s.len() {
            assert(is_space_char(s[s.len() - 1]));
        }
        assert(s.subrange(0, s.len() as int) =~= s);
    } else {
        assert(spec_trim(s) =~= s);
    }
}

/// Length of an exec string slice, counted in characters.
pub fn str_char_len(s: &str) -> (n: usize)
    ensures
        n == s@.len(),
{
    s.unicode_len()
}

/// Character-for-character equality of two string slices.
pub fn str_eq(a: &str, b: &str) -> (r: bool)
    ensures
        r == (a@ == b@),
{
    let an: usize = a.unicode_len();
    let bn: usize = b.unicode_len();
    if an != bn {
        assert(a@ != b@);
        return false;
    }
    let mut i: usize = 0;
    while i < an
        invariant
            an == a@.len() == b@.len(),
            0 <= i <= an,
            forall|k: int| 0 <= k < i ==> a@[k] == b@[k],
        decreases an - i,
    {
        if a.get_char(i) != b.get_char(i) {
            return false;
        }
        i += 1;
    }
    assert(a@ =~= b@);
    true
}

/// Does `s` start with `p`?
pub fn starts_with_str(s: &str, p: &str) -> (r: bool)
    ensures
        r == has_prefix(s@, p@),
{
    let sn: usize = s.unicode_len();
    let pn: usize = p.unicode_len();
    if pn > sn {
        return false;
    }
    let mut i: usize = 0;
    while i < pn
        invariant
            sn == s@.len(),
            pn == p@.len(),
            pn <= sn,
            0 <= i <= pn,
            forall|k: int| 0 <= k < i ==> s@[k] == p@[k],
        decreases pn - i,
    {
        if s.get_char(i) != p.get_char(i) {
            assert(s@.subrange(0, p@.len() as int)[i as int] == s@[i as int]);
            return false;
        }
        i += 1;
    }
    assert(s@.subrange(0, p@.len() as int) =~= p@);
    true
}

/// Does `s` end with `p`?
pub fn ends_with_str(s: &str, p: &str) -> (r: bool)
    ensures
        r == has_suffix(s@, p@),
{
    let sn: usize = s.unicode_len();
    let pn: usize = p.unicode_len();
    if pn > sn {
        return false;
    }
    let off: usize = sn - pn;
    let mut i: usize = 0;
    while i < pn
        invariant
            sn == s@.len(),
            pn == p@.len(),
            pn <= sn,
            off == sn - pn,
            0 <= i <= pn,
            forall|k: int| 0 <= k < i ==> s@[off + k] == p@[k],
        decreases pn - i,
    {
        if s.get_char(off + i) != p.get_char(i) {
            assert(s@.subrange(s@.len() - p@.len(), s@.len() as int)[i as int] == s@[off + i]);
            return false;
        }
        i += 1;
    }
    assert(s@.subrange(s@.len() - p@.len(), s@.len() as int) =~= p@);
    true
}

/// The substring of `s` from `from` (inclusive) to `to` (exclusive), as an owned string.
pub fn substring_of(s: &str, from: usize, to: usize) -> (r: String)
    requires
        from <= to <= s@.len(),
    ensures
        r@ == s@.subrange(from as int, to as int),
{
    String::from_str(s.substring_char(from, to))
}

/// `s` without the prefix `p`, when `p` is a prefix of it.
pub fn strip_prefix_str(s: &str, p: &str) -> (r: Option<String>)
    ensures
        match r {
            Some(t) => has_prefix(s@, p@) && t@ == s@.subrange(p@.len() as int, s@.len() as int),
            None => !has_prefix(s@, p@),
        },
{
    if starts_with_str(s, p) {
        let sn: usize = s.unicode_len();
        let pn: usize = p.unicode_len();
        Some(substring_of(s, pn, sn))
    } else {
        None
    }
}

/// `s` without the suffix `p`, when `p` is a suffix of it.
pub fn strip_suffix_str(s: &str, p: &str) -> (r: Option<String>)
    ensures
        match r {
            Some(t) => has_suffix(s@, p@) && t@ == s@.subrange(0, s@.len() - p@.len()),
            None => !has_suffix(s@, p@),
        },
{
    if ends_with_str(s, p) {
        let sn: usize = s.unicode_len();
        let pn: usize = p.unicode_len();
        Some(substring_of(s, 0, sn - pn))
    } else {
        None
    }
}

/// Index of the first occurrence of `c` in `s` (`s.len()` if there is none).
pub open spec fn find_char(s: Seq<char>, c: char) -> int
    decreases s.len(),
{
    if s.len() == 0 {
        0
    } else if s[0] == c {
        0
    } else {
        1 + find_char(s.drop_first(), c)
    }
}

pub proof fn lemma_find_char_bounds(s: Seq<char>, c: char)
    ensures
        0 <= find_char(s, c) <= s.len(),
        forall|k: int| 0 <= k < find_char(s, c) ==> s[k] != c,
        find_char(s, c) < s.len() ==> s[find_char(s, c)] == c,
    decreases s.len(),
{
    if s.len() > 0 && s[0] != c {
        lemma_find_char_bounds(s.drop_first(), c);
        assert forall|k: int| 0 <= k < find_char(s, c) implies s[k] != c by {
            if k > 0 {
                assert(s.drop_first()[k - 1] == s[k]);
            }
        }
        if find_char(s, c) < s.len() {
            assert(s.drop_first()[find_char(s, c) - 1] == s[find_char(s, c)]);
        }
    }
}

/// A position before the first occurrence with a hit at it pins `find_char` down.
pub proof fn lemma_find_char_is(s: Seq<char>, c: char, i: int)
    requires
        0 <= i <= s.len(),
        forall|k: int| 0 <= k < i ==> s[k] != c,
        i < s.len() ==> s[i] == c,
    ensures
        find_char(s, c) == i,
{
    lemma_find_char_bounds(s, c);
    if find_char(s, c) < i {
        assert(s[find_char(s, c)] != c);
    }
    if i < find_char(s, c) {
        assert(s[i] != c);
    }
}

/// First occurrence of `c` in an exec string.
pub fn char_find(s: &str, c: char) -> (r: Option<usize>)
    ensures
        match r {
            Some(i) => i == find_char(s@, c) && i < s@.len() && s@[i as int] == c,
            None => find_char(s@, c) == s@.len(),
        },
{
    let n: usize = s.unicode_len();
    let mut i: usize = 0;
    while i < n
        invariant
            n == s@.len(),
            0 <= i <= n,
            forall|k: int| 0 <= k < i ==> s@[k] != c,
        decreases n - i,
    {
        if s.get_char(i) == c {
            proof {
                lemma_find_char_is(s@, c, i as int);
            }
            return Some(i);
        }
        i += 1;
    }
    proof {
        lemma_find_char_is(s@, c, n as int);
    }
    None
}

/// `s` with leading and trailing whitespace removed, as an owned string.
pub fn trim_str(s: &str) -> (r: String)
    ensures
        r@ == spec_trim(s@),
{
    let n: usize = s.unicode_len();
    let mut i: usize = 0;
    while i < n && is_space_exec(s.get_char(i))
        invariant
            n == s@.len(),
            0 <= i <= n,
            forall|k: int| 0 <= k < i ==> is_space_char(s@[k]),
        decreases n - i,
    {
        i += 1;
    }
    proof {
        lemma_first_is(s@, i as int);
    }
    let mut j: usize = n;
    while j > i && is_space_exec(s.get_char(j - 1))
        invariant
            n == s@.len(),
            i <= j <= n,
            i == first_non_space(s@),
            forall|k: int| j <= k < n ==> is_space_char(s@[k]),
            i < n ==> !is_space_char(s@[i as int]),
        decreases j,
    {
        j -= 1;
    }
    proof {
        if j > i {
            lemma_last_is(s@, j as int);
        } else {
            // everything from i on is whitespace, so the trim is empty
            lemma_last_non_space_end_bounds(s@);
            if last_non_space_end(s@) > first_non_space(s@) {
                assert(is_space_char(s@[last_non_space_end(s@) - 1]));
            }
        }
    }
    substring_of(s, i, j)
}

fn is_space_exec(c: char) -> (r: bool)
    ensures
        r == is_space_char(c),
{
    c == ' ' || c == '\t' || c == '\r' || c == '\n'
}

proof fn lemma_first_is(s: Seq<char>, i: int)
    requires
        0 <= i <= s.len(),
        forall|k: int| 0 <= k < i ==> is_space_char(s[k]),
        i < s.len() ==> !is_space_char(s[i]),
    ensures
        first_non_space(s) == i,
{
    lemma_first_non_space_bounds(s);
    if first_non_space(s) < i {
        assert(!is_space_char(s[first_non_space(s)]));
    }
    if i < first_non_space(s) {
        assert(is_space_char(s[i]));
    }
}

proof fn lemma_last_is(s: Seq<char>, j: int)
    requires
        0 < j <= s.len(),
        forall|k: int| j <= k < s.len() ==> is_space_char(s[k]),
        !is_space_char(s[j - 1]),
    ensures
        last_non_space_end(s) == j,
{
    lemma_last_non_space_end_bounds(s);
    if last_non_space_end(s) < j {
        assert(is_space_char(s[j - 1]));
    }
    if j < last_non_space_end(s) {
        assert(!is_space_char(s[last_non_space_end(s) - 1]));
    }
}

} // verus!

verus! {

/// The lines of `s`: pieces separated by `'\n'`, a trailing newline adding no
/// empty final line.
pub open spec fn spec_lines(s: Seq<char>) -> Seq<Seq<char>>
    decreases s.len(),
{
    if s.len() == 0 {
        Seq::empty()
    } else {
        let i = find_char(s, '\n');
        if 0 <= i < s.len() {
            seq![s.subrange(0, i)] + spec_lines(s.subrange(i + 1, s.len() as int))
        } else {
            seq![s]
        }
    }
}

/// The elements of `ls` joined with a single `'\n'` between them.
pub open spec fn join_nl(ls: Seq<Seq<char>>) -> Seq<char>
    decreases ls.len(),
{
    if ls.len() == 0 {
        Seq::empty()
    } else if ls.len() == 1 {
        ls[0]
    } else {
        ls[0] + seq!['\n'] + join_nl(ls.drop_first())
    }
}

/// Holds when no element of `ls` contains a newline.
pub open spec fn all_no_newline(ls: Seq<Seq<char>>) -> bool {
    forall|i: int| 0 <= i < ls.len() ==> no_newline(#[trigger] ls[i])
}

/// Splitting a newline-joined list of newline-free lines recovers the list,
/// provided the final line is not empty.
pub proof fn lemma_lines_of_join(ls: Seq<Seq<char>>)
    requires
        all_no_newline(ls),
        ls.len() > 0 ==> ls.last().len() > 0,
    ensures
        spec_lines(join_nl(ls)) == ls,
    decreases ls.len(),
{
    if ls.len() == 0 {
    } else if ls.len() == 1 {
        let s = ls[0];
        if s.len() > 0 {
            lemma_find_char_bounds(s, '\n');
            assert(find_char(s, '\n') == s.len());
            assert(spec_lines(s) =~= ls);
        }
    } else {
        let s = join_nl(ls);
        let head = ls[0];
        let rest = join_nl(ls.drop_first());
        assert(s == head + seq!['\n'] + rest);
        assert(s.len() == head.len() + 1 + rest.len());
        assert forall|k: int| 0 <= k < head.len() implies s[k] != '\n' by {
            assert(s[k] == head[k]);
        }
        assert(s[head.len() as int] == '\n');
        lemma_find_char_is(s, '\n', head.len() as int);
        assert(s.subrange(0, head.len() as int) =~= head);
        assert(s.subrange(head.len() as int + 1, s.len() as int) =~= rest);
        lemma_lines_of_join(ls.drop_first());
        assert(spec_lines(s) =~= seq![head] + ls.drop_first());
        assert(seq![head] + ls.drop_first() =~= ls);
    }
}

/// Joining the lines of `s + "\n"` recovers `s`, provided `s` does not end
/// with a newline.
pub proof fn lemma_join_of_lines_nl(s: Seq<char>)
    requires
        s.len() == 0 || s.last() != '\n',
    ensures
        join_nl(spec_lines(s + seq!['\n'])) == s,
    decreases s.len(),
{
    let t = s + seq!['\n'];
    let i = find_char(t, '\n');
    lemma_find_char_bounds(t, '\n');
    assert(t[t.len() - 1] == '\n');
    assert(i < t.len());
    if i == s.len() {
        // no newline inside s itself
        assert(t.subrange(i + 1, t.len() as int) =~= Seq::<char>::empty());
        assert(spec_lines(Seq::<char>::empty()) == Seq::<Seq<char>>::empty());
        assert(spec_lines(t) == seq![t.subrange(0, i)] + spec_lines(
            t.subrange(i + 1, t.len() as int),
        ));
        assert(spec_lines(t) =~= seq![t.subrange(0, i)]);
        assert(t.subrange(0, i) =~= s);
    } else {
        assert(i < s.len());
        assert(t[i] == s[i]);
        let head = s.subrange(0, i);
        let tail = s.subrange(i + 1, s.len() as int);
        assert(t.subrange(0, i) =~= head);
        assert(t.subrange(i + 1, t.len() as int) =~= tail + seq!['\n']);
        if tail.len() == 0 {
            assert(s[s.len() - 1] == s[i]);
            assert(false);
        }
        assert(tail.last() == s.last());
        lemma_join_of_lines_nl(tail);
        let inner = spec_lines(tail + seq!['\n']);
        assert(spec_lines(t) =~= seq![head] + inner);
        if inner.len() == 0 {
            assert(join_nl(inner) =~= Seq::<char>::empty());
            assert(tail.len() == 0);
            assert(false);
        }
        assert((seq![head] + inner).drop_first() =~= inner);
        assert(join_nl(seq![head] + inner) =~= head + seq!['\n'] + join_nl(inner));
        assert(head + seq!['\n'] + tail =~= s);
    }
}

/// Every line produced by `spec_lines` is newline-free.
pub proof fn lemma_lines_no_newline(s: Seq<char>)
    ensures
        all_no_newline(spec_lines(s)),
    decreases s.len(),
{
    if s.len() > 0 {
        let i = find_char(s, '\n');
        lemma_find_char_bounds(s, '\n');
        if i == s.len() {
            assert(no_newline(s));
            assert(spec_lines(s)[0] == s);
        } else {
            lemma_lines_no_newline(s.subrange(i + 1, s.len() as int));
            let head = s.subrange(0, i);
            assert(no_newline(head));
            assert forall|k: int| 0 <= k < spec_lines(s).len() implies no_newline(
                #[trigger] spec_lines(s)[k],
            ) by {
                if k > 0 {
                    assert(spec_lines(s)[k] == spec_lines(s.subrange(i + 1, s.len() as int))[k
                        - 1]);
                }
            }
        }
    }
}

/// The lines of an exec string.
pub fn split_lines(s: &str) -> (r: Vec<String>)
    ensures
        r.deep_view() == spec_lines(s@),
{
    let n: usize = s.unicode_len();
    let mut r: Vec<String> = Vec::new();
    let mut pos: usize = 0;
    proof {
        assert(s@.subrange(0, n as int) =~= s@);
        assert(r.deep_view() =~= Seq::<Seq<char>>::empty());
        assert(r.deep_view() + spec_lines(s@) =~= spec_lines(s@));
    }
    while pos < n
        invariant
            n == s@.len(),
            0 <= pos <= n,
            r.deep_view() + spec_lines(s@.subrange(pos as int, n as int)) == spec_lines(s@),
        decreases n - pos,
    {
        let ghost rest = s@.subrange(pos as int, n as int);
        let mut k: usize = pos;
        while k < n && s.get_char(k) != '\n'
            invariant
                n == s@.len(),
                pos <= k <= n,
                forall|t: int| pos <= t < k ==> s@[t] != '\n',
            decreases n - k,
        {
            k += 1;
        }
        proof {
            assert forall|t: int| 0 <= t < k - pos implies rest[t] != '\n' by {
                assert(rest[t] == s@[pos + t]);
            }
            if k < n {
                assert(rest[k - pos] == s@[k as int]);
            }
            lemma_find_char_is(rest, '\n', k - pos);
        }
        let piece = substring_of(s, pos, k);
        proof {
            assert(piece@ =~= rest.subrange(0, (k - pos) as int));
        }
        r.push(piece);
        if k < n {
            proof {
                assert(rest.subrange((k - pos) as int + 1, rest.len() as int) =~= s@.subrange(
                    k as int + 1,
                    n as int,
                ));
                assert(spec_lines(rest) =~= seq![piece@] + spec_lines(
                    s@.subrange(k as int + 1, n as int),
                ));
                assert(r.deep_view().drop_last() + (seq![piece@] + spec_lines(
                    s@.subrange(k as int + 1, n as int),
                )) =~= r.deep_view() + spec_lines(s@.subrange(k as int + 1, n as int)));
            }
            pos = k + 1;
            proof {
                if pos == n {
                    assert(spec_lines(s@.subrange(pos as int, n as int)) =~= Seq::<
                        Seq<char>,
                    >::empty());
                    assert(r.deep_view() + spec_lines(s@.subrange(pos as int, n as int))
                        =~= r.deep_view());
                }
            }
        } else {
            proof {
                assert(k == n);
                assert(rest =~= piece@);
                assert(spec_lines(rest) =~= seq![piece@]);
                assert(r.deep_view().drop_last() + seq![piece@] =~= r.deep_view());
            }
            pos = n;
            proof {
                assert(spec_lines(s@.subrange(pos as int, n as int)) =~= Seq::<Seq<char>>::empty());
                assert(r.deep_view() + spec_lines(s@.subrange(pos as int, n as int))
                    =~= r.deep_view());
            }
        }
    }
    proof {
        assert(s@.subrange(pos as int, n as int) =~= Seq::<char>::empty());
        assert(spec_lines(s@.subrange(pos as int, n as int)) =~= Seq::<Seq<char>>::empty());
        assert(r.deep_view() + spec_lines(s@.subrange(pos as int, n as int)) =~= r.deep_view());
    }
    r
}

/// The elements of `v` joined with a single `'\n'` between them.
pub fn join_lines(v: &Vec<String>) -> (r: String)
    ensures
        r@ == join_nl(v.deep_view()),
{
    let mut r = String::new();
    let n = v.len();
    let mut i: usize = 0;
    while i < n
        invariant
            n == v.len(),
            0 <= i <= n,
            i == 0 ==> r@ == Seq::<char>::empty(),
            0 < i <= n ==> join_nl(v.deep_view()) == r@ + tail_join(v.deep_view(), i as int),
        decreases n - i,
    {
        if i > 0 {
            r.append("\n");
            proof {
                reveal_strlit("\n");
            }
        }
        r.append(v[i].as_str());
        proof {
            lemma_tail_join_step(v.deep_view(), i as int);
            if i == 0 {
                lemma_tail_join_head(v.deep_view());
            }
        }
        i += 1;
    }
    proof {
        if n == 0 {
        } else {
            assert(tail_join(v.deep_view(), n as int) =~= Seq::<char>::empty());
        }
    }
    r
}

/// The joined suffix of `ls` starting at element `i`, preceded by a newline.
pub open spec fn tail_join(ls: Seq<Seq<char>>, i: int) -> Seq<char>
    decreases ls.len() - i,
{
    if i < 0 || i >= ls.len() {
        Seq::empty()
    } else {
        seq!['\n'] + ls[i] + tail_join(ls, i + 1)
    }
}

proof fn lemma_tail_join_head(ls: Seq<Seq<char>>)
    requires
        ls.len() > 0,
    ensures
        join_nl(ls) == ls[0] + tail_join(ls, 1),
    decreases ls.len(),
{
    if ls.len() == 1 {
        assert(tail_join(ls, 1) =~= Seq::<char>::empty());
        assert(ls[0] + tail_join(ls, 1) =~= ls[0]);
    } else {
        lemma_tail_join_head(ls.drop_first());
        lemma_tail_join_shift(ls, 1);
        assert(ls[0] + seq!['\n'] + (ls.drop_first()[0] + tail_join(ls.drop_first(), 1)) =~= ls[0]
            + tail_join(ls, 1));
    }
}

proof fn lemma_tail_join_shift(ls: Seq<Seq<char>>, i: int)
    requires
        1 <= i,
        ls.len() > 0,
    ensures
        tail_join(ls.drop_first(), i - 1) == tail_join(ls, i),
    decreases ls.len() - i,
{
    if i >= ls.len() {
    } else {
        lemma_tail_join_shift(ls, i + 1);
        assert(ls.drop_first()[i - 1] == ls[i]);
        assert(tail_join(ls, i) == seq!['\n'] + ls[i] + tail_join(ls, i + 1));
        assert(tail_join(ls.drop_first(), i - 1) == seq!['\n'] + ls.drop_first()[i - 1]
            + tail_join(ls.drop_first(), i));
    }
}

proof fn lemma_tail_join_step(ls: Seq<Seq<char>>, i: int)
    requires
        0 <= i < ls.len(),
    ensures
        i > 0 ==> tail_join(ls, i) == seq!['\n'] + ls[i] + tail_join(ls, i + 1),
{
}

} // verus!

verus! {

/// The decimal digit character for a value in 0..10.
pub open spec fn dec_digit(d: int) -> char {
    if d == 0 {
        '0'
    } else if d == 1 {
        '1'
    } else if d == 2 {
        '2'
    } else if d == 3 {
        '3'
    } else if d == 4 {
        '4'
    } else if d == 5 {
        '5'
    } else if d == 6 {
        '6'
    } else if d == 7 {
        '7'
    } else if d == 8 {
        '8'
    } else {
        '9'
    }
}

/// The value of a decimal digit character, or -1 for any other character.
pub open spec fn digit_val(c: char) -> int {
    if c == '0' {
        0
    } else if c == '1' {
        1
    } else if c == '2' {
        2
    } else if c == '3' {
        3
    } else if c == '4' {
        4
    } else if c == '5' {
        5
    } else if c == '6' {
        6
    } else if c == '7' {
        7
    } else if c == '8' {
        8
    } else if c == '9' {
        9
    } else {
        -1
    }
}

/// Holds when `c` is a decimal digit.
pub open spec fn is_digit_char(c: char) -> bool {
    digit_val(c) >= 0
}

/// The decimal rendering of `n`, most significant digit first.
pub open spec fn dec_str(n: int) -> Seq<char>
    decreases n,
{
    if n < 10 {
        seq![dec_digit(n)]
    } else {
        dec_str(n / 10) + seq![dec_digit(n % 10)]
    }
}

/// The value of a digit sequence read most significant digit first.
pub open spec fn digits_val(s: Seq<char>) -> int
    decreases s.len(),
{
    if s.len() == 0 {
        0
    } else {
        digits_val(s.drop_last()) * 10 + digit_val(s.last())
    }
}

/// Holds when every character of `s` is a decimal digit.
pub open spec fn all_digits(s: Seq<char>) -> bool {
    forall|i: int| 0 <= i < s.len() ==> is_digit_char(#[trigger] s[i])
}

/// `s` without one leading `'+'`, if it has one.
pub open spec fn plus_stripped(s: Seq<char>) -> Seq<char> {
    if s.len() > 0 && s[0] == '+' {
        s.drop_first()
    } else {
        s
    }
}

/// What `parse_usize_dec` yields: the value of an all-digit sequence (after an
/// optional leading `'+'`) when it fits a `usize`, and nothing otherwise.
pub open spec fn spec_parse_usize(s: Seq<char>) -> Option<usize> {
    let t = plus_stripped(s);
    if t.len() > 0 && all_digits(t) && digits_val(t) <= usize::MAX {
        Some(digits_val(t) as usize)
    } else {
        None
    }
}

pub proof fn lemma_dec_str_digits(n: int)
    requires
        n >= 0,
    ensures
        dec_str(n).len() >= 1,
        all_digits(dec_str(n)),
        digits_val(dec_str(n)) == n,
    decreases n,
{
    if n < 10 {
        assert(dec_str(n) =~= seq![dec_digit(n)]);
        assert(seq![dec_digit(n)].drop_last() =~= Seq::<char>::empty());
        assert(digits_val(seq![dec_digit(n)]) == digits_val(Seq::<char>::empty()) * 10 + digit_val(
            dec_digit(n),
        ));
    } else {
        lemma_dec_str_digits(n / 10);
        let s = dec_str(n);
        let hi = dec_str(n / 10);
        assert(s == hi + seq![dec_digit(n % 10)]);
        assert forall|i: int| 0 <= i < s.len() implies is_digit_char(#[trigger] s[i]) by {
            if i < hi.len() {
                assert(s[i] == hi[i]);
            }
        }
        assert(s.drop_last() =~= hi);
        assert(digits_val(s) == digits_val(hi) * 10 + digit_val(dec_digit(n % 10)));
        assert(digit_val(dec_digit(n % 10)) == n % 10);
        assert(n / 10 * 10 + n % 10 == n);
    }
}

/// Printing a value in decimal and parsing the result gives the value back.
pub proof fn lemma_dec_str_roundtrip(n: usize)
    ensures
        spec_parse_usize(dec_str(n as int)) == Some(n),
{
    lemma_dec_str_digits(n as int);
    let s = dec_str(n as int);
    assert(s[0] != '+');
}

/// `n` rendered in decimal.
pub fn usize_to_dec(n: usize) -> (r: String)
    ensures
        r@ == dec_str(n as int),
{
    let mut digits: Vec<char> = Vec::new();
    let mut m: usize = n;
    proof {
        assert(dec_str(n as int) + Seq::<char>::empty() =~= dec_str(n as int));
    }
    while m >= 10
        invariant
            dec_str(n as int) == dec_str(m as int) + digits@,
            forall|i: int| 0 <= i < digits@.len() ==> is_digit_char(#[trigger] digits@[i]),
        decreases m,
    {
        let d: usize = m % 10;
        let c: char = digit_char_of(d);
        let ghost old_digits = digits@;
        digits.insert(0, c);
        proof {
            assert(digits@ =~= seq![c] + old_digits);
            assert(dec_str(m as int) == dec_str(m as int / 10) + seq![dec_digit(m as int % 10)]);
            assert(dec_str(m as int / 10) + (seq![c] + old_digits) =~= dec_str(m as int)
                + old_digits);
        }
        m = m / 10;
    }
    let c: char = digit_char_of(m);
    let ghost old_digits = digits@;
    digits.insert(0, c);
    proof {
        assert(digits@ =~= seq![c] + old_digits);
        assert(dec_str(m as int) =~= seq![c]);
        assert(seq![c] + old_digits =~= dec_str(m as int) + old_digits);
        assert(digits@ == dec_str(n as int));
    }
    let mut r = String::new();
    let mut i: usize = 0;
    while i < digits.len()
        invariant
            r@ == digits@.subrange(0, i as int),
            0 <= i <= digits@.len(),
            digits@ == dec_str(n as int),
            forall|k: int| 0 <= k < digits@.len() ==> is_digit_char(#[trigger] digits@[k]),
        decreases digits@.len() - i,
    {
        let c2 = digits[i];
        push_digit_char(&mut r, c2);
        proof {
            assert(r@ =~= digits@.subrange(0, i as int + 1));
        }
        i += 1;
    }
    proof {
        assert(digits@.subrange(0, digits@.len() as int) =~= digits@);
    }
    r
}

fn digit_char_of(d: usize) -> (c: char)
    requires
        d < 10,
    ensures
        c == dec_digit(d as int),
{
    if d == 0 {
        '0'
    } else if d == 1 {
        '1'
    } else if d == 2 {
        '2'
    } else if d == 3 {
        '3'
    } else if d == 4 {
        '4'
    } else if d == 5 {
        '5'
    } else if d == 6 {
        '6'
    } else if d == 7 {
        '7'
    } else if d == 8 {
        '8'
    } else {
        '9'
    }
}

fn push_digit_char(r: &mut String, c: char)
    requires
        is_digit_char(c),
    ensures
        final(r)@ == old(r)@ + seq![c],
{
    if c == '0' {
        r.append("0");
        proof {
            reveal_strlit("0");
            assert(r@ =~= old(r)@ + seq![c]);
        }
    } else if c == '1' {
        r.append("1");
        proof {
            reveal_strlit("1");
            assert(r@ =~= old(r)@ + seq![c]);
        }
    } else if c == '2' {
        r.append("2");
        proof {
            reveal_strlit("2");
            assert(r@ =~= old(r)@ + seq![c]);
        }
    } else if c == '3' {
        r.append("3");
        proof {
            reveal_strlit("3");
            assert(r@ =~= old(r)@ + seq![c]);
        }
    } else if c == '4' {
        r.append("4");
        proof {
            reveal_strlit("4");
            assert(r@ =~= old(r)@ + seq![c]);
        }
    } else if c == '5' {
        r.append("5");
        proof {
            reveal_strlit("5");
            assert(r@ =~= old(r)@ + seq![c]);
        }
    } else if c == '6' {
        r.append("6");
        proof {
            reveal_strlit("6");
            assert(r@ =~= old(r)@ + seq![c]);
        }
    } else if c == '7' {
        r.append("7");
        proof {
            reveal_strlit("7");
            assert(r@ =~= old(r)@ + seq![c]);
        }
    } else if c == '8' {
        r.append("8");
        proof {
            reveal_strlit("8");
            assert(r@ =~= old(r)@ + seq![c]);
        }
    } else {
        r.append("9");
        proof {
            reveal_strlit("9");
            assert(r@ =~= old(r)@ + seq![c]);
        }
    }
}

fn digit_of_char(c: char) -> (d: Option<usize>)
    ensures
        match d {
            Some(v) => digit_val(c) == v && v < 10,
            None => !is_digit_char(c),
        },
{
    if c == '0' {
        Some(0)
    } else if c == '1' {
        Some(1)
    } else if c == '2' {
        Some(2)
    } else if c == '3' {
        Some(3)
    } else if c == '4' {
        Some(4)
    } else if c == '5' {
        Some(5)
    } else if c == '6' {
        Some(6)
    } else if c == '7' {
        Some(7)
    } else if c == '8' {
        Some(8)
    } else if c == '9' {
        Some(9)
    } else {
        None
    }
}

proof fn lemma_digits_val_take_step(s: Seq<char>, i: int)
    requires
        0 <= i < s.len(),
    ensures
        digits_val(s.subrange(0, i + 1)) == digits_val(s.subrange(0, i)) * 10 + digit_val(s[i]),
{
    let t = s.subrange(0, i + 1);
    assert(t.drop_last() =~= s.subrange(0, i));
    assert(t.last() == s[i]);
}

proof fn lemma_digits_val_monotone(s: Seq<char>, i: int)
    requires
        0 <= i <= s.len(),
        all_digits(s),
    ensures
        digits_val(s.subrange(0, i)) <= digits_val(s),
    decreases s.len() - i,
{
    if i == s.len() {
        assert(s.subrange(0, i) =~= s);
    } else {
        lemma_digits_val_take_step(s, i);
        lemma_digits_val_nonneg(s.subrange(0, i));
        assert(digit_val(s[i]) >= 0);
        lemma_digits_val_monotone(s, i + 1);
    }
}

proof fn lemma_digits_val_nonneg(s: Seq<char>)
    ensures
        all_digits(s) ==> digits_val(s) >= 0,
    decreases s.len(),
{
    if s.len() > 0 {
        lemma_digits_val_nonneg(s.drop_last());
        assert(all_digits(s) ==> all_digits(s.drop_last())) by {
            if all_digits(s) {
                assert forall|i: int| 0 <= i < s.drop_last().len() implies is_digit_char(
                    #[trigger] s.drop_last()[i],
                ) by {
                    assert(s.drop_last()[i] == s[i]);
                }
            }
        }
    }
}

/// Parses a decimal integer, with an optional leading `'+'`, rejecting
/// anything else and any value that does not fit a `usize`.
pub fn parse_usize_dec(s: &str) -> (r: Option<usize>)
    ensures
        r == spec_parse_usize(s@),
{
    let n: usize = s.unicode_len();
    let mut start: usize = 0;
    if n > 0 && s.get_char(0) == '+' {
        start = 1;
    }
    if start == n {
        proof {
            assert(plus_stripped(s@).len() == 0);
        }
        return None;
    }
    let ghost t = plus_stripped(s@);
    proof {
        assert(t =~= s@.subrange(start as int, n as int));
    }
    let mut val: usize = 0;
    let mut i: usize = start;
    while i < n
        invariant
            n == s@.len(),
            start <= i <= n,
            t == plus_stripped(s@),
            t == s@.subrange(start as int, n as int),
            all_digits(t.subrange(0, (i - start) as int)),
            val == digits_val(t.subrange(0, (i - start) as int)),
        decreases n - i,
    {
        let c = s.get_char(i);
        proof {
            assert(t[(i - start) as int] == s@[i as int]);
        }
        match digit_of_char(c) {
            None => {
                proof {
                    assert(!all_digits(t)) by {
                        assert(t[(i - start) as int] == s@[i as int]);
                    }
                    assert(spec_parse_usize(s@) is None);
                }
                return None;
            },
            Some(d) => {
                proof {
                    lemma_digits_val_take_step(t, (i - start) as int);
                }
                if val > usize::MAX / 10 || (val == usize::MAX / 10 && d > usize::MAX % 10) {
                    proof {
                        assert(digits_val(t.subrange(0, (i - start) as int + 1)) == val * 10 + d);
                        assert(usize::MAX == (usize::MAX / 10) * 10 + usize::MAX % 10);
                        assert(digits_val(t.subrange(0, (i - start) as int + 1)) > usize::MAX);
                        if all_digits(t) {
                            lemma_digits_val_monotone(t, (i - start) as int + 1);
                            assert(digits_val(t) > usize::MAX);
                        }
                        assert(spec_parse_usize(s@) is None);
                    }
                    return None;
                }
                val = val * 10 + d;
            },
        }
        i += 1;
    }
    proof {
        assert(t.subrange(0, (n - start) as int) =~= t);
        assert(t.len() > 0);
        assert(t[0] == s@[start as int]);
    }
    Some(val)
}

} // verus!

verus! {

/// `s` with every copy of the non-empty suffix `pat` removed from its end.
pub open spec fn spec_trim_end_matches(s: Seq<char>, pat: Seq<char>) -> Seq<char>
    decreases s.len(),
{
    if pat.len() > 0 && has_suffix(s, pat) {
        spec_trim_end_matches(s.subrange(0, s.len() - pat.len()), pat)
    } else {
        s
    }
}

/// Appending `pat` to a sequence that does not end with it and trimming gives
/// the sequence back.
pub proof fn lemma_trim_end_matches_roundtrip(t: Seq<char>, pat: Seq<char>)
    requires
        pat.len() > 0,
        !has_suffix(t, pat),
    ensures
        spec_trim_end_matches(t + pat, pat) == t,
{
    let s = t + pat;
    assert(s.subrange(s.len() - pat.len(), s.len() as int) =~= pat);
    assert(has_suffix(s, pat));
    assert(s.subrange(0, s.len() - pat.len()) =~= t);
    assert(spec_trim_end_matches(t, pat) == t);
    assert(spec_trim_end_matches(s, pat) == spec_trim_end_matches(
        s.subrange(0, s.len() - pat.len()),
        pat,
    ));
}

/// Removes every copy of `pat` from the end of `s`.
pub fn trim_end_matches_str(s: &str, pat: &str) -> (r: String)
    requires
        pat@.len() > 0,
    ensures
        r@ == spec_trim_end_matches(s@, pat@),
{
    let mut cur: String = String::from_str(s);
    loop
        invariant
            pat@.len() > 0,
            spec_trim_end_matches(cur@, pat@) == spec_trim_end_matches(s@, pat@),
        decreases cur@.len(),
    {
        match strip_suffix_str(cur.as_str(), pat) {
            Some(shorter) => {
                cur = shorter;
            },
            None => {
                return cur;
            },
        }
    }
}

} // verus!

verus! {

/// Witness positions for the ends of the trim pin `spec_trim` down.
pub proof fn lemma_trim_is(s: Seq<char>, i: int, j: int)
    requires
        0 <= i <= j <= s.len(),
        forall|k: int| 0 <= k < i ==> is_space_char(s[k]),
        forall|k: int| j <= k < s.len() ==> is_space_char(s[k]),
        i < j ==> !is_space_char(s[i]) && !is_space_char(s[j - 1]),
    ensures
        i < j ==> spec_trim(s) == s.subrange(i, j),
        i == j ==> spec_trim(s) == Seq::<char>::empty(),
{
    lemma_first_non_space_bounds(s);
    lemma_last_non_space_end_bounds(s);
    if i < j {
        if first_non_space(s) < i {
            assert(is_space_char(s[first_non_space(s)]));
        }
        if i < first_non_space(s) {
            assert(is_space_char(s[i]));
        }
        if last_non_space_end(s) < j {
            assert(is_space_char(s[j - 1]));
        }
        if j < last_non_space_end(s) {
            assert(is_space_char(s[last_non_space_end(s) - 1]));
        }
    } else {
        // everything is whitespace
        assert forall|k: int| 0 <= k < s.len() implies is_space_char(s[k]) by {}
        if last_non_space_end(s) > 0 {
            assert(is_space_char(s[last_non_space_end(s) - 1]));
        }
        assert(last_non_space_end(s) == 0);
    }
}

/// A non-empty trim-stable sequence has non-whitespace ends.
pub proof fn lemma_trim_stable_ends(s: Seq<char>)
    requires
        trim_stable(s),
        s.len() > 0,
    ensures
        !is_space_char(s[0]),
        !is_space_char(s[s.len() - 1]),
{
    lemma_first_non_space_bounds(s);
    lemma_last_non_space_end_bounds(s);
    let i = first_non_space(s);
    let j = last_non_space_end(s);
    if i >= j {
        assert(spec_trim(s).len() == 0);
    } else {
        assert(spec_trim(s).len() == j - i);
        assert(i == 0 && j == s.len());
    }
}

} // verus!

verus! {

/// Index of the last occurrence of `c` in `s` (-1 if there is none).
pub open spec fn rfind_char(s: Seq<char>, c: char) -> int
    decreases s.len(),
{
    if s.len() == 0 {
        -1
    } else if s.last() == c {
        s.len() - 1
    } else {
        rfind_char(s.drop_last(), c)
    }
}

pub proof fn lemma_rfind_char_bounds(s: Seq<char>, c: char)
    ensures
        -1 <= rfind_char(s, c) < s.len(),
        forall|k: int| rfind_char(s, c) < k < s.len() ==> s[k] != c,
        rfind_char(s, c) >= 0 ==> s[rfind_char(s, c)] == c,
    decreases s.len(),
{
    if s.len() > 0 && s.last() != c {
        lemma_rfind_char_bounds(s.drop_last(), c);
        assert forall|k: int| rfind_char(s, c) < k < s.len() implies s[k] != c by {
            if k < s.len() - 1 {
                assert(s.drop_last()[k] == s[k]);
            }
        }
        if rfind_char(s, c) >= 0 {
            assert(s.drop_last()[rfind_char(s, c)] == s[rfind_char(s, c)]);
        }
    }
}

/// A position that hits with nothing after it pins `rfind_char` down.
pub proof fn lemma_rfind_char_is(s: Seq<char>, c: char, i: int)
    requires
        -1 <= i < s.len(),
        forall|k: int| i < k < s.len() ==> s[k] != c,
        i >= 0 ==> s[i] == c,
    ensures
        rfind_char(s, c) == i,
{
    lemma_rfind_char_bounds(s, c);
    if rfind_char(s, c) < i {
        assert(s[i] != c);
    }
    if i < rfind_char(s, c) {
        assert(s[rfind_char(s, c)] != c);
    }
}

/// Last occurrence of `c` in an exec string.
pub fn char_rfind(s: &str, c: char) -> (r: Option<usize>)
    ensures
        match r {
            Some(i) => i == rfind_char(s@, c) && i < s@.len() && s@[i as int] == c,
            None => rfind_char(s@, c) == -1,
        },
{
    let n: usize = s.unicode_len();
    let mut i: usize = n;
    while i > 0
        invariant
            n == s@.len(),
            0 <= i <= n,
            forall|k: int| i <= k < n ==> s@[k] != c,
        decreases i,
    {
        if s.get_char(i - 1) == c {
            proof {
                lemma_rfind_char_is(s@, c, i - 1);
            }
            return Some(i - 1);
        }
        i -= 1;
    }
    proof {
        lemma_rfind_char_is(s@, c, -1);
    }
    None
}

} // verus!
