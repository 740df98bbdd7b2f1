//! Character-sequence utilities shared by the protocol codec, the prompt
//! cleaner and the highlighter.
//!
//! Text is handled as `Vec<char>`, whose view is the same `Seq<char>` that
//! `String` and `&str` have, so every contract here speaks the same language
//! as the public string-typed functions.

use vstd::prelude::*;

verus! {

/// Lower-cased code point of `c`, folding only the ASCII letters.
pub open spec fn lc32(c: char) -> u32 {
    if 65 <= c as u32 && c as u32 <= 90 {
        (c as u32 + 32) as u32
    } else {
        c as u32
    }
}

/// ASCII whitespace: space, tab, line feed, vertical tab, form feed,
/// carriage return.
pub open spec fn is_space(c: char) -> bool {
    c == ' ' || ('\t' <= c && c <= '\r')
}

/// `a` and `b` are equal after folding ASCII letter case.
pub open spec fn eq_ci(a: Seq<char>, b: Seq<char>) -> bool {
    a.len() == b.len() && (forall|i: int| 0 <= i < a.len() ==> lc32(a[i]) == lc32(b[i]))
}

/// `needle` occurs in `hay` at position `k`, up to ASCII case.
pub open spec fn match_at_ci(hay: Seq<char>, needle: Seq<char>, k: int) -> bool {
    0 <= k && k + needle.len() <= hay.len() && eq_ci(
        hay.subrange(k, k + needle.len() as int),
        needle,
    )
}

/// `needle` occurs somewhere in `hay`, up to ASCII case.
pub open spec fn seq_contains_ci(hay: Seq<char>, needle: Seq<char>) -> bool {
    exists|k: int| match_at_ci(hay, needle, k)
}

/// `needle` occurs in `hay` at position `k`, exactly.
pub open spec fn match_at(hay: Seq<char>, needle: Seq<char>, k: int) -> bool {
    0 <= k && k + needle.len() <= hay.len() && hay.subrange(k, k + needle.len() as int)
        == needle
}

/// `needle` occurs somewhere in `hay`, exactly.
pub open spec fn seq_contains(hay: Seq<char>, needle: Seq<char>) -> bool {
    exists|k: int| match_at(hay, needle, k)
}

/// `s` starts with `p`, exactly.
pub open spec fn starts_with(s: Seq<char>, p: Seq<char>) -> bool {
    match_at(s, p, 0)
}

/// `s` starts with `p`, up to ASCII case.
pub open spec fn starts_with_ci(s: Seq<char>, p: Seq<char>) -> bool {
    match_at_ci(s, p, 0)
}

/// `s` ends with `p`, exactly.
pub open spec fn ends_with(s: Seq<char>, p: Seq<char>) -> bool {
    match_at(s, p, s.len() - p.len())
}

/// `s` without leading ASCII whitespace.
pub open spec fn spec_trim_start(s: Seq<char>) -> Seq<char>
    decreases s.len(),
{
    if s.len() > 0 && is_space(s[0]) {
        spec_trim_start(s.drop_first())
    } else {
        s
    }
}

/// `s` without trailing ASCII whitespace.
pub open spec fn spec_trim_end(s: Seq<char>) -> Seq<char>
    decreases s.len(),
{
    if s.len() > 0 && is_space(s[s.len() - 1]) {
        spec_trim_end(s.drop_last())
    } else {
        s
    }
}

/// `s` without leading and trailing ASCII whitespace.
pub open spec fn spec_trim(s: Seq<char>) -> Seq<char> {
    spec_trim_end(spec_trim_start(s))
}

/// Index of the first occurrence of `c` in `s`, or `s.len()` if absent.
pub open spec fn find_char(s: Seq<char>, c: char) -> int
    decreases s.len(),
{
    if s.len() == 0 {
        0
    } else if s[0] == c {
        0
    } else {
        1 + find_char(s.drop_first(), c)
    }
}

pub proof fn lemma_find_char_bounds(s: Seq<char>, c: char)
    ensures
        0 <= find_char(s, c) <= s.len(),
        find_char(s, c) < s.len() ==> s[find_char(s, c)] == c,
        forall|i: int| 0 <= i < find_char(s, c) ==> s[i] != c,
    decreases s.len(),
{
    if s.len() == 0 {
    } else if s[0] == c {
    } else {
        lemma_find_char_bounds(s.drop_first(), c);
        assert forall|i: int| 0 <= i < find_char(s, c) implies s[i] != c by {
            if i > 0 {
                assert(s.drop_first()[i - 1] == s[i]);
            }
        }
    }
}

/// A line with a final carriage return removed, as `str::lines` does.
pub open spec fn strip_cr(l: Seq<char>) -> Seq<char> {
    if l.len() > 0 && l[l.len() - 1] == '\r' {
        l.drop_last()
    } else {
        l
    }
}

/// The lines of `s`, split at `'\n'`, each without a trailing `'\r'`, with
/// no empty line after a final newline — the semantics of `str::lines`.
pub open spec fn spec_lines(s: Seq<char>) -> Seq<Seq<char>>
    decreases s.len(),
    via spec_lines_decreases
{
    if s.len() == 0 {
        seq![]
    } else {
        let i = find_char(s, '\n');
        if i == s.len() {
            seq![strip_cr(s)]
        } else {
            seq![strip_cr(s.subrange(0, i))] + spec_lines(s.subrange(i + 1, s.len() as int))
        }
    }
}

#[via_fn]
proof fn spec_lines_decreases(s: Seq<char>) {
    lemma_find_char_bounds(s, '\n');
}

/// Relies on `char::is_alphanumeric`: whether `c` is in one of the Unicode
/// `Alphabetic`, `Nd`, `Nl` or `No` classes — a fixed classification of the
/// character alone.
pub uninterp spec fn alphanumeric(c: char) -> bool;

pub assume_specification[ char::is_alphanumeric ](c: char) -> (r: bool)
    ensures
        r == alphanumeric(c),
;

/// Relies on `String::push`: appends the given character to the end of the
/// string.
#[verifier::external_body]
pub(crate) fn push_char(s: &mut String, c: char)
    ensures
        final(s)@ == old(s)@.push(c),
{
    s.push(c);
}

/// The characters of `s`, one by one.
pub fn chars_of(s: &str) -> (r: Vec<char>)
    ensures
        r@ == s@,
{
    let n = s.unicode_len();
    let mut r: Vec<char> = Vec::new();
    let mut i: usize = 0;
    while i < n
        invariant
            n == s@.len(),
            i <= n,
            r@ == s@.subrange(0, i as int),
        decreases n - i,
    {
        r.push(s.get_char(i));
        i += 1;
        proof {
            assert(r@ =~= s@.subrange(0, i as int));
        }
    }
    proof {
        assert(r@ =~= s@);
    }
    r
}

/// The string spelling out `v`.
pub fn string_of(v: &Vec<char>) -> (r: String)
    ensures
        r@ == v@,
{
    let mut r = String::new();
    let mut i: usize = 0;
    while i < v.len()
        invariant
            i <= v@.len(),
            r@ == v@.subrange(0, i as int),
        decreases v@.len() - i,
    {
        push_char(&mut r, v[i]);
        i += 1;
        proof {
            assert(r@ =~= v@.subrange(0, i as int));
        }
    }
    proof {
        assert(r@ =~= v@);
    }
    r
}

/// Append all of `src` to `dst`.
pub fn append_chars(dst: &mut Vec<char>, src: &Vec<char>)
    ensures
        final(dst)@ == old(dst)@ + src@,
{
    let mut i: usize = 0;
    while i < src.len()
        invariant
            i <= src@.len(),
            dst@ == old(dst)@ + src@.subrange(0, i as int),
        decreases src@.len() - i,
    {
        dst.push(src[i]);
        i += 1;
        proof {
            assert(dst@ =~= old(dst)@ + src@.subrange(0, i as int));
        }
    }
    proof {
        assert(dst@ =~= old(dst)@ + src@);
    }
}

/// The characters of `v` from `from` to `to`, exclusive.
pub fn subvec(v: &Vec<char>, from: usize, to: usize) -> (r: Vec<char>)
    requires
        from <= to <= v@.len(),
    ensures
        r@ == v@.subrange(from as int, to as int),
{
    let mut r: Vec<char> = Vec::new();
    let mut i: usize = from;
    while i < to
        invariant
            from <= i <= to <= v@.len(),
            r@ == v@.subrange(from as int, i as int),
        decreases to - i,
    {
        r.push(v[i]);
        i += 1;
        proof {
            assert(r@ =~= v@.subrange(from as int, i as int));
        }
    }
    r
}

/// The lower-cased code point of `c`, as `lc32` gives it.
pub fn lower_code(c: char) -> (r: u32)
    ensures
        r == lc32(c),
{
    let u = c as u32;
    if 65 <= u && u <= 90 {
        u + 32
    } else {
        u
    }
}

/// Whether `c` is ASCII whitespace.
pub fn space(c: char) -> (r: bool)
    ensures
        r == is_space(c),
{
    c == ' ' || ('\t' <= c && c <= '\r')
}

/// Whether `needle` stands at position `k` of `hay`, up to ASCII case.
pub fn matches_at_ci(hay: &Vec<char>, needle: &Vec<char>, k: usize) -> (r: bool)
    requires
        k + needle@.len() <= hay@.len(),
    ensures
        r == match_at_ci(hay@, needle@, k as int),
{
    let n = needle.len();
    let hn = hay.len();
    let mut j: usize = 0;
    while j < n
        invariant
            n == needle@.len(),
            hn == hay@.len(),
            k + n <= hay@.len(),
            j <= n,
            forall|i: int| 0 <= i < j ==> lc32(hay@[k + i]) == lc32(needle@[i]),
        decreases n - j,
    {
        if lower_code(hay[k + j]) != lower_code(needle[j]) {
            proof {
                let sub = hay@.subrange(k as int, k + n as int);
                assert(lc32(sub[j as int]) != lc32(needle@[j as int]));
            }
            return false;
        }
        j += 1;
    }
    proof {
        let sub = hay@.subrange(k as int, k + n as int);
        assert forall|i: int| 0 <= i < n implies lc32(sub[i]) == lc32(needle@[i]) by {
            assert(sub[i] == hay@[k + i]);
        }
    }
    true
}

/// Whether `needle` stands at position `k` of `hay`, exactly.
pub fn matches_at(hay: &Vec<char>, needle: &Vec<char>, k: usize) -> (r: bool)
    requires
        k + needle@.len() <= hay@.len(),
    ensures
        r == match_at(hay@, needle@, k as int),
{
    let n = needle.len();
    let hn = hay.len();
    let mut j: usize = 0;
    while j < n
        invariant
            n == needle@.len(),
            hn == hay@.len(),
            k + n <= hay@.len(),
            j <= n,
            forall|i: int| 0 <= i < j ==> hay@[k + i] == needle@[i],
        decreases n - j,
    {
        if hay[k + j] != needle[j] {
            proof {
                let sub = hay@.subrange(k as int, k + n as int);
                assert(sub[j as int] != needle@[j as int]);
            }
            return false;
        }
        j += 1;
    }
    proof {
        assert(hay@.subrange(k as int, k + n as int) =~= needle@);
    }
    true
}

/// Whether `needle` occurs anywhere in `hay`, up to ASCII case.
pub fn contains_ci(hay: &Vec<char>, needle: &Vec<char>) -> (r: bool)
    ensures
        r == seq_contains_ci(hay@, needle@),
{
    if needle.len() > hay.len() {
        return false;
    }
    if needle.len() == 0 {
        proof {
            assert(hay@.subrange(0, 0) =~= needle@);
            assert(match_at_ci(hay@, needle@, 0));
        }
        return true;
    }
    let hn = hay.len();
    let last = hn - needle.len();
    let mut k: usize = 0;
    while k <= last
        invariant
            hn == hay@.len(),
            1 <= needle@.len() <= hay@.len(),
            last == hay@.len() - needle@.len(),
            k <= last + 1,
            forall|j: int| 0 <= j < k ==> !match_at_ci(hay@, needle@, j),
        decreases last + 1 - k,
    {
        if matches_at_ci(hay, needle, k) {
            return true;
        }
        k += 1;
    }
    false
}

/// Whether `needle` occurs anywhere in `hay`, exactly.
pub fn contains_seq(hay: &Vec<char>, needle: &Vec<char>) -> (r: bool)
    ensures
        r == seq_contains(hay@, needle@),
{
    if needle.len() > hay.len() {
        return false;
    }
    if needle.len() == 0 {
        proof {
            assert(hay@.subrange(0, 0) =~= needle@);
            assert(match_at(hay@, needle@, 0));
        }
        return true;
    }
    let hn = hay.len();
    let last = hn - needle.len();
    let mut k: usize = 0;
    while k <= last
        invariant
            hn == hay@.len(),
            1 <= needle@.len() <= hay@.len(),
            last == hay@.len() - needle@.len(),
            k <= last + 1,
            forall|j: int| 0 <= j < k ==> !match_at(hay@, needle@, j),
        decreases last + 1 - k,
    {
        if matches_at(hay, needle, k) {
            return true;
        }
        k += 1;
    }
    false
}

/// Whether `s` starts with `p`, exactly.
pub fn has_prefix(s: &Vec<char>, p: &Vec<char>) -> (r: bool)
    ensures
        r == starts_with(s@, p@),
{
    if p.len() > s.len() {
        return false;
    }
    matches_at(s, p, 0)
}

/// Whether `s` starts with `p`, up to ASCII case.
pub fn has_prefix_ci(s: &Vec<char>, p: &Vec<char>) -> (r: bool)
    ensures
        r == starts_with_ci(s@, p@),
{
    if p.len() > s.len() {
        return false;
    }
    matches_at_ci(s, p, 0)
}

/// Whether `s` ends with `p`, exactly.
pub fn has_suffix(s: &Vec<char>, p: &Vec<char>) -> (r: bool)
    ensures
        r == ends_with(s@, p@),
{
    if p.len() > s.len() {
        return false;
    }
    matches_at(s, p, s.len() - p.len())
}

/// Whether `a` equals `b`, exactly.
pub fn eq_chars(a: &Vec<char>, b: &Vec<char>) -> (r: bool)
    ensures
        r == (a@ == b@),
{
    if a.len() != b.len() {
        return false;
    }
    let r = matches_at(a, b, 0);
    proof {
        assert(a@.subrange(0, b@.len() as int) =~= a@);
        if r {
            assert(a@ == b@);
        }
    }
    r
}

/// Whether `a` equals `b`, up to ASCII case.
pub fn eq_chars_ci(a: &Vec<char>, b: &Vec<char>) -> (r: bool)
    ensures
        r == eq_ci(a@, b@),
{
    if a.len() != b.len() {
        return false;
    }
    matches_at_ci(a, b, 0)
}

proof fn lemma_trim_start_skip(s: Seq<char>, i: int)
    requires
        0 <= i <= s.len(),
        forall|j: int| 0 <= j < i ==> is_space(s[j]),
    ensures
        spec_trim_start(s) == spec_trim_start(s.skip(i)),
    decreases i,
{
    if i > 0 {
        assert(is_space(s[0]));
        assert(s.drop_first() =~= s.skip(1));
        lemma_trim_start_skip(s.skip(1), i - 1);
        assert(s.skip(1).skip(i - 1) =~= s.skip(i));
    } else {
        assert(s.skip(0) =~= s);
    }
}

proof fn lemma_trim_end_take(s: Seq<char>, j: int)
    requires
        0 <= j <= s.len(),
        forall|k: int| j <= k < s.len() ==> is_space(s[k]),
    ensures
        spec_trim_end(s) == spec_trim_end(s.take(j)),
    decreases s.len() - j,
{
    if j < s.len() {
        assert(is_space(s[s.len() - 1]));
        assert(s.drop_last() =~= s.take(s.len() - 1));
        lemma_trim_end_take(s.take(s.len() - 1), j);
        assert(s.take(s.len() - 1).take(j) =~= s.take(j));
    } else {
        assert(s.take(j) =~= s);
    }
}

/// `s` without leading and trailing ASCII whitespace.
pub fn trim_chars(s: &Vec<char>) -> (r: Vec<char>)
    ensures
        r@ == spec_trim(s@),
{
    let n = s.len();
    let mut i: usize = 0;
    while i < n && space(s[i])
        invariant
            n == s@.len(),
            i <= n,
            forall|j: int| 0 <= j < i ==> is_space(s@[j]),
        decreases n - i,
    {
        i += 1;
    }
    proof {
        lemma_trim_start_skip(s@, i as int);
        if i < n {
            assert(spec_trim_start(s@.skip(i as int)) == s@.skip(i as int));
        } else {
            assert(s@.skip(i as int) =~= Seq::<char>::empty());
        }
    }
    let mut j: usize = n;
    while j > i && space(s[j - 1])
        invariant
            n == s@.len(),
            i <= j <= n,
            forall|k: int| j <= k < n ==> is_space(s@[k]),
        decreases j,
    {
        j -= 1;
    }
    let r = subvec(s, i, j);
    proof {
        let t = s@.skip(i as int);
        lemma_trim_end_take(t, j - i as int);
        assert(t.take(j - i as int) =~= s@.subrange(i as int, j as int));
        if j > i {
            assert(s@.subrange(i as int, j as int)[j - i - 1 as int] == s@[j - 1]);
            assert(spec_trim_end(s@.subrange(i as int, j as int)) == s@.subrange(
                i as int,
                j as int,
            ));
        } else {
            assert(s@.subrange(i as int, j as int) =~= Seq::<char>::empty());
        }
    }
    r
}

/// `s` without leading ASCII whitespace.
pub fn trim_start_exec(s: &Vec<char>) -> (r: Vec<char>)
    ensures
        r@ == spec_trim_start(s@),
{
    let n = s.len();
    let mut i: usize = 0;
    proof {
        assert(s@.skip(0) =~= s@);
    }
    while i < n && space(s[i])
        invariant
            n == s@.len(),
            i <= n,
            spec_trim_start(s@) == spec_trim_start(s@.skip(i as int)),
        decreases n - i,
    {
        proof {
            let t = s@.skip(i as int);
            assert(t[0] == s@[i as int]);
            assert(t.drop_first() =~= s@.skip(i + 1));
        }
        i += 1;
    }
    proof {
        let t = s@.skip(i as int);
        if i < n {
            assert(t[0] == s@[i as int]);
        } else {
            assert(t =~= Seq::<char>::empty());
        }
        assert(spec_trim_start(t) == t);
    }
    subvec(s, i, n)
}

/// `s` without trailing ASCII whitespace.
pub fn trim_end_exec(s: &Vec<char>) -> (r: Vec<char>)
    ensures
        r@ == spec_trim_end(s@),
{
    let n = s.len();
    let mut j: usize = n;
    proof {
        assert(s@.take(n as int) =~= s@);
    }
    while j > 0 && space(s[j - 1])
        invariant
            n == s@.len(),
            j <= n,
            spec_trim_end(s@) == spec_trim_end(s@.take(j as int)),
        decreases j,
    {
        proof {
            let t = s@.take(j as int);
            assert(t[t.len() - 1] == s@[j - 1]);
            assert(t.drop_last() =~= s@.take(j - 1));
        }
        j -= 1;
    }
    proof {
        let t = s@.take(j as int);
        if j > 0 {
            assert(t[t.len() - 1] == s@[j - 1]);
        } else {
            assert(t =~= Seq::<char>::empty());
        }
        assert(spec_trim_end(t) == t);
    }
    subvec(s, 0, j)
}

/// Index of the first occurrence of `c` at or after `start`, or the length
/// if there is none.
pub fn find_from(v: &Vec<char>, start: usize, c: char) -> (r: usize)
    requires
        start <= v@.len(),
    ensures
        start <= r <= v@.len(),
        r - start == find_char(v@.skip(start as int), c),
{
    let n = v.len();
    let mut i: usize = start;
    while i < n && v[i] != c
        invariant
            n == v@.len(),
            start <= i <= n,
            find_char(v@.skip(start as int), c) == (i - start) + find_char(
                v@.skip(i as int),
                c,
            ),
        decreases n - i,
    {
        proof {
            let t = v@.skip(i as int);
            assert(t[0] == v@[i as int]);
            assert(t.drop_first() =~= v@.skip(i + 1));
        }
        i += 1;
    }
    proof {
        let t = v@.skip(i as int);
        if i < n {
            assert(t[0] == v@[i as int]);
        } else {
            assert(t =~= Seq::<char>::empty());
        }
    }
    i
}

/// The views of a list of lines.
pub open spec fn views_of(s: Seq<Vec<char>>) -> Seq<Seq<char>> {
    s.map_values(|l: Vec<char>| l@)
}

/// The lines of `v`, as `spec_lines` gives them.
pub fn split_lines(v: &Vec<char>) -> (r: Vec<Vec<char>>)
    ensures
        views_of(r@) == spec_lines(v@),
        r@.len() == spec_lines(v@).len(),
        forall|i: int| 0 <= i < r@.len() ==> r@[i]@ == spec_lines(v@)[i],
{
    let n = v.len();
    let mut out: Vec<Vec<char>> = Vec::new();
    let mut start: usize = 0;
    proof {
        assert(v@.skip(0) =~= v@);
        assert(views_of(out@) + spec_lines(v@.skip(0)) =~= spec_lines(v@));
    }
    while start < n
        invariant
            n == v@.len(),
            start <= n,
            views_of(out@) + spec_lines(v@.skip(start as int)) =~= spec_lines(v@),
        decreases n - start,
    {
        let ghost old_out = out@;
        let ghost t = v@.skip(start as int);
        let nl = find_from(v, start, '\n');
        proof {
            lemma_find_char_bounds(t, '\n');
        }
        let line = if nl > start && v[nl - 1] == '\r' {
            subvec(v, start, nl - 1)
        } else {
            subvec(v, start, nl)
        };
        let ghost i = find_char(t, '\n');
        proof {
            if nl == n {
                assert(i == t.len());
                assert(strip_cr(t) =~= line@) by {
                    assert(t =~= v@.subrange(start as int, n as int));
                    if t.len() > 0 && t[t.len() - 1] == '\r' {
                        assert(t.drop_last() =~= v@.subrange(start as int, n - 1));
                    }
                }
                assert(spec_lines(t) =~= seq![line@]);
            } else {
                assert(t.subrange(0, i) =~= v@.subrange(start as int, nl as int));
                assert(strip_cr(t.subrange(0, i)) =~= line@) by {
                    let u = t.subrange(0, i);
                    if u.len() > 0 && u[u.len() - 1] == '\r' {
                        assert(u.drop_last() =~= v@.subrange(start as int, nl - 1));
                    }
                }
                assert(t.subrange(i + 1, t.len() as int) =~= v@.skip(nl + 1));
                assert(spec_lines(t) =~= seq![line@] + spec_lines(v@.skip(nl + 1)));
            }
        }
        out.push(line);
        proof {
            assert(views_of(out@) =~= views_of(old_out) + seq![line@]);
        }
        if nl == n {
            start = n;
            proof {
                assert(v@.skip(n as int) =~= Seq::<char>::empty());
                assert(views_of(out@) + spec_lines(v@.skip(start as int)) =~= spec_lines(v@));
            }
        } else {
            start = nl + 1;
            proof {
                assert(views_of(out@) + spec_lines(v@.skip(start as int)) =~= spec_lines(v@));
            }
        }
    }
    proof {
        assert(v@.skip(start as int) =~= Seq::<char>::empty());
        assert(views_of(out@) =~= spec_lines(v@));
    }
    out
}

} // verus!
