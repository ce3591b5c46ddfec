//! Character-level text utilities with exact specifications.
//!
//! Text is handled as a sequence of `char`s. A piece of a text is named by a
//! span `(start, end)` of character positions; `spans_view` turns spans back into
//! the pieces they name.
use vstd::prelude::*;

verus! {

broadcast use vstd::seq_lib::group_seq_properties;

/// Unicode `White_Space` property, the set that `char::is_whitespace` tests.
pub open spec fn is_ws(c: char) -> bool {
    let u = c as u32;
    ||| 0x09 <= u <= 0x0d
    ||| u == 0x20
    ||| u == 0x85
    ||| u == 0xa0
    ||| u == 0x1680
    ||| 0x2000 <= u <= 0x200a
    ||| u == 0x2028
    ||| u == 0x2029
    ||| u == 0x202f
    ||| u == 0x205f
    ||| u == 0x3000
}

/// Whether `c` is Unicode whitespace (`char::is_whitespace`).
pub fn is_whitespace(c: char) -> (b: bool)
    ensures
        b == is_ws(c),
{
    let u = c as u32;
    (0x09 <= u && u <= 0x0d) || u == 0x20 || u == 0x85 || u == 0xa0 || u == 0x1680 || (0x2000
        <= u && u <= 0x200a) || u == 0x2028 || u == 0x2029 || u == 0x202f || u == 0x205f || u
        == 0x3000
}

/// Appends one character to a string (`String::push`).
#[verifier::external_body]
pub(crate) fn push_char(s: &mut String, c: char)
    ensures
        final(s)@ == old(s)@.push(c),
{
    s.push(c);
}

/// The characters of a string slice, in order.
pub fn to_chars(s: &str) -> (v: Vec<char>)
    ensures
        v@ == s@,
{
    let mut v: Vec<char> = Vec::new();
    for c in it: s.chars()
        invariant
            v@ == it.seq().take(it.index() as int),
    {
        v.push(c);
    }
    v
}

/// A string holding the characters `v[lo..hi]`.
pub fn string_of(v: &Vec<char>, lo: usize, hi: usize) -> (s: String)
    requires
        lo <= hi <= v@.len(),
    ensures
        s@ == v@.subrange(lo as int, hi as int),
{
    let mut s = String::new();
    let mut i = lo;
    while i < hi
        invariant
            lo <= i <= hi <= v@.len(),
            s@ == v@.subrange(lo as int, i as int),
        decreases hi - i,
    {
        push_char(&mut s, v[i]);
        assert(v@.subrange(lo as int, i + 1) =~= v@.subrange(lo as int, i as int).push(v@[i as int]));
        i += 1;
    }
    s
}

/// A string holding the characters of `v`.
pub fn string_of_all(v: &Vec<char>) -> (s: String)
    ensures
        s@ == v@,
{
    let s = string_of(v, 0, v.len());
    assert(v@.subrange(0, v@.len() as int) =~= v@);
    s
}

/// Appends `v[lo..hi]` to `out`.
pub fn extend_from(out: &mut Vec<char>, v: &Vec<char>, lo: usize, hi: usize)
    requires
        lo <= hi <= v@.len(),
    ensures
        final(out)@ == old(out)@ + v@.subrange(lo as int, hi as int),
{
    let ghost start = out@;
    let mut i = lo;
    while i < hi
        invariant
            lo <= i <= hi <= v@.len(),
            out@ == start + v@.subrange(lo as int, i as int),
        decreases hi - i,
    {
        out.push(v[i]);
        assert(v@.subrange(lo as int, i + 1) =~= v@.subrange(lo as int, i as int).push(v@[i as int]));
        i += 1;
    }
}

/// Appends all of `v` to `out`.
pub fn extend_all(out: &mut Vec<char>, v: &Vec<char>)
    ensures
        final(out)@ == old(out)@ + v@,
{
    extend_from(out, v, 0, v.len());
    assert(v@.subrange(0, v@.len() as int) =~= v@);
}

/// Appends the characters of a string slice to `out`.
pub fn extend_str(out: &mut Vec<char>, s: &str)
    ensures
        final(out)@ == old(out)@ + s@,
{
    let v = to_chars(s);
    extend_all(out, &v);
}

// ---------------------------------------------------------------------------
// Trimming
// ---------------------------------------------------------------------------

/// `s` without its leading whitespace.
pub open spec fn trim_start(s: Seq<char>) -> Seq<char>
    decreases s.len(),
{
    if s.len() > 0 && is_ws(s[0]) {
        trim_start(s.drop_first())
    } else {
        s
    }
}

/// `s` without its trailing whitespace.
pub open spec fn trim_end(s: Seq<char>) -> Seq<char>
    decreases s.len(),
{
    if s.len() > 0 && is_ws(s.last()) {
        trim_end(s.drop_last())
    } else {
        s
    }
}

/// `s` without leading and trailing whitespace (`str::trim`).
pub open spec fn trim(s: Seq<char>) -> Seq<char> {
    trim_end(trim_start(s))
}

/// `s` holds a character that is not whitespace (its trimmed text is not empty).
pub open spec fn has_text(s: Seq<char>) -> bool {
    exists|j: int| 0 <= j < s.len() && !is_ws(#[trigger] s[j])
}

proof fn lemma_trim_start_first(s: Seq<char>)
    ensures
        trim_start(s).len() > 0 ==> !is_ws(trim_start(s)[0]),
    decreases s.len(),
{
    if s.len() > 0 && is_ws(s[0]) {
        lemma_trim_start_first(s.drop_first());
    }
}

proof fn lemma_trim_end_first(t: Seq<char>)
    requires
        t.len() > 0,
        !is_ws(t[0]),
    ensures
        trim_end(t).len() > 0,
        trim_end(t)[0] == t[0],
    decreases t.len(),
{
    if t.len() > 1 && is_ws(t.last()) {
        lemma_trim_end_first(t.drop_last());
    }
}

/// A text whose trimmed text is not empty has text.
pub proof fn lemma_trim_has_text(s: Seq<char>)
    ensures
        trim(s).len() > 0 ==> has_text(trim(s)),
{
    lemma_trim_start_first(s);
    let t = trim_start(s);
    if t.len() > 0 {
        lemma_trim_end_first(t);
        assert(!is_ws(trim(s)[0]));
    }
}

/// Text on either side of a join is text of the whole.
pub proof fn lemma_concat_has_text(a: Seq<char>, b: Seq<char>)
    ensures
        has_text(a) ==> has_text(a + b),
        has_text(b) ==> has_text(a + b),
{
    if has_text(a) {
        let j = choose|j: int| 0 <= j < a.len() && !is_ws(#[trigger] a[j]);
        assert((a + b)[j] == a[j]);
    }
    if has_text(b) {
        let j = choose|j: int| 0 <= j < b.len() && !is_ws(#[trigger] b[j]);
        assert((a + b)[a.len() + j] == b[j]);
    }
}

/// Parts joined with the last one holding text hold text.
pub proof fn lemma_join_has_text(parts: Seq<Seq<char>>, sep: Seq<char>)
    requires
        parts.len() > 0,
        has_text(parts.last()),
    ensures
        has_text(join(parts, sep)),
{
    if parts.len() > 1 {
        lemma_concat_has_text(join(parts.drop_last(), sep) + sep, parts.last());
    }
}

/// The position where `v[lo..hi]` starts once leading whitespace is removed.
pub fn trim_start_index(v: &Vec<char>, lo: usize, hi: usize) -> (r: usize)
    requires
        lo <= hi <= v@.len(),
    ensures
        lo <= r <= hi,
        v@.subrange(r as int, hi as int) == trim_start(v@.subrange(lo as int, hi as int)),
{
    let mut i = lo;
    while i < hi && is_whitespace(v[i])
        invariant
            lo <= i <= hi <= v@.len(),
            trim_start(v@.subrange(i as int, hi as int)) == trim_start(
                v@.subrange(lo as int, hi as int),
            ),
        decreases hi - i,
    {
        assert(v@.subrange(i as int, hi as int).drop_first() =~= v@.subrange(i + 1, hi as int));
        i += 1;
    }
    i
}

/// The position where `v[lo..hi]` ends once trailing whitespace is removed.
pub fn trim_end_index(v: &Vec<char>, lo: usize, hi: usize) -> (r: usize)
    requires
        lo <= hi <= v@.len(),
    ensures
        lo <= r <= hi,
        v@.subrange(lo as int, r as int) == trim_end(v@.subrange(lo as int, hi as int)),
{
    let mut j = hi;
    while j > lo && is_whitespace(v[j - 1])
        invariant
            lo <= j <= hi <= v@.len(),
            trim_end(v@.subrange(lo as int, j as int)) == trim_end(
                v@.subrange(lo as int, hi as int),
            ),
        decreases j - lo,
    {
        assert(v@.subrange(lo as int, j as int).drop_last() =~= v@.subrange(lo as int, j - 1));
        j -= 1;
    }
    j
}

/// The span of `v[lo..hi]` once surrounding whitespace is removed.
pub fn trim_span(v: &Vec<char>, lo: usize, hi: usize) -> (r: (usize, usize))
    requires
        lo <= hi <= v@.len(),
    ensures
        lo <= r.0 <= r.1 <= hi,
        v@.subrange(r.0 as int, r.1 as int) == trim(v@.subrange(lo as int, hi as int)),
{
    let a = trim_start_index(v, lo, hi);
    let b = trim_end_index(v, a, hi);
    (a, b)
}

/// `v` without surrounding whitespace.
pub fn trim_chars(v: &Vec<char>) -> (r: Vec<char>)
    ensures
        r@ == trim(v@),
{
    let (a, b) = trim_span(v, 0, v.len());
    assert(v@.subrange(0, v@.len() as int) =~= v@);
    let mut r = Vec::new();
    extend_from(&mut r, v, a, b);
    r
}

// ---------------------------------------------------------------------------
// Spans
// ---------------------------------------------------------------------------

/// The pieces of `s` that the spans name.
pub open spec fn spans_view(s: Seq<char>, spans: Seq<(int, int)>) -> Seq<Seq<char>> {
    spans.map_values(|p: (int, int)| s.subrange(p.0, p.1))
}

/// Executable spans read as integer pairs.
pub open spec fn int_spans(spans: Seq<(usize, usize)>) -> Seq<(int, int)> {
    spans.map_values(|p: (usize, usize)| (p.0 as int, p.1 as int))
}

/// Every span lies inside `0..n` and is not reversed.
pub open spec fn spans_within(spans: Seq<(int, int)>, n: int) -> bool {
    forall|i: int| #![trigger spans[i]] 0 <= i < spans.len() ==> 0 <= spans[i].0 <= spans[i].1 <= n
}

// ---------------------------------------------------------------------------
// Tokens: maximal runs of characters that are not separators
// ---------------------------------------------------------------------------

/// Which characters separate tokens.
#[derive(Clone, Copy, PartialEq, Eq, Structural)]
pub enum SepKind {
    /// Unicode whitespace (`str::split_whitespace`).
    Whitespace,
    /// The hyphen-minus `-`.
    Dash,
}

/// Whether `c` separates tokens of kind `k`.
pub open spec fn is_sep(k: SepKind, c: char) -> bool {
    match k {
        SepKind::Whitespace => is_ws(c),
        SepKind::Dash => c == '-',
    }
}

/// Whether `c` separates tokens of kind `k`.
pub fn is_separator(k: SepKind, c: char) -> (b: bool)
    ensures
        b == is_sep(k, c),
{
    match k {
        SepKind::Whitespace => is_whitespace(c),
        SepKind::Dash => c == '-',
    }
}

/// The spans of the maximal runs of non-separator characters of `s`, in order.
pub open spec fn token_spans(s: Seq<char>, k: SepKind) -> Seq<(int, int)>
    decreases s.len(),
{
    if s.len() == 0 {
        seq![]
    } else {
        let p = token_spans(s.drop_last(), k);
        let n = s.len() - 1;
        if is_sep(k, s[n]) {
            p
        } else if n > 0 && !is_sep(k, s[n - 1]) {
            p.update(p.len() - 1, (p.last().0, n + 1))
        } else {
            p.push((n, n + 1))
        }
    }
}

/// The tokens of `s` (for whitespace: `str::split_whitespace`).
pub open spec fn tokens(s: Seq<char>, k: SepKind) -> Seq<Seq<char>> {
    spans_view(s, token_spans(s, k))
}

/// The words of `s` (`str::split_whitespace`).
pub open spec fn words(s: Seq<char>) -> Seq<Seq<char>> {
    tokens(s, SepKind::Whitespace)
}

/// The number of words of `s` (`str::split_whitespace().count()`).
pub open spec fn word_count(s: Seq<char>) -> nat {
    token_spans(s, SepKind::Whitespace).len()
}

/// Shape facts about the token spans: in range, non-empty, ordered, and the last
/// one ends at the end of `s` exactly when `s` ends in a token character.
pub proof fn lemma_token_spans_shape(s: Seq<char>, k: SepKind)
    ensures
        spans_within(token_spans(s, k), s.len() as int),
        forall|i: int|
            0 <= i < token_spans(s, k).len() ==> #[trigger] token_spans(s, k)[i].0
                < token_spans(s, k)[i].1,
        forall|i: int|
            0 <= i < token_spans(s, k).len() - 1 ==> #[trigger] token_spans(s, k)[i].1
                < token_spans(s, k)[i + 1].0,
        s.len() > 0 && !is_sep(k, s.last()) ==> token_spans(s, k).len() > 0
            && token_spans(s, k).last().1 == s.len(),
        token_spans(s, k).len() > 0 ==> token_spans(s, k).last().1 <= s.len(),
        s.len() > 0 && is_sep(k, s.last()) && token_spans(s, k).len() > 0 ==> token_spans(
            s,
            k,
        ).last().1 < s.len(),
    decreases s.len(),
{
    if s.len() > 0 {
        lemma_token_spans_shape(s.drop_last(), k);
    }
}

/// Every character inside a token span is a token character.
pub proof fn lemma_token_chars(s: Seq<char>, k: SepKind)
    ensures
        forall|i: int, j: int|
            #![trigger token_spans(s, k)[i], s[j]]
            0 <= i < token_spans(s, k).len() && token_spans(s, k)[i].0 <= j < token_spans(s, k)[i].1
                ==> !is_sep(k, s[j]),
    decreases s.len(),
{
    if s.len() > 0 {
        let init = s.drop_last();
        lemma_token_chars(init, k);
        lemma_token_spans_shape(init, k);
        let p = token_spans(init, k);
        let n = s.len() - 1;
        assert forall|i: int, j: int|
            #![trigger token_spans(s, k)[i], s[j]]
            0 <= i < token_spans(s, k).len() && token_spans(s, k)[i].0 <= j < token_spans(s, k)[i].1
                implies !is_sep(k, s[j]) by {
            if j < n {
                assert(s[j] == init[j]);
                if i < p.len() {
                    let q = p[i];
                    if token_spans(s, k)[i] != q {
                        assert(i == p.len() - 1);
                        assert(q.0 <= j);
                        if j < q.1 {
                            assert(!is_sep(k, init[j]));
                        } else {
                            // the span grew over characters past its old end: only `n`
                            assert(q.1 <= n);
                            assert(q.1 == n) by {
                                assert(!is_sep(k, s[n - 1]));
                            }
                        }
                    } else {
                        assert(!is_sep(k, init[j]));
                    }
                }
            }
        }
    }
}

/// A text without separators, not empty, is one token.
pub proof fn lemma_single_token(w: Seq<char>, k: SepKind)
    requires
        w.len() > 0,
        forall|j: int| 0 <= j < w.len() ==> !is_sep(k, #[trigger] w[j]),
    ensures
        token_spans(w, k).len() == 1,
    decreases w.len(),
{
    let init = w.drop_last();
    assert(!is_sep(k, w[w.len() - 1]));
    if w.len() > 1 {
        assert forall|j: int| 0 <= j < init.len() implies !is_sep(k, #[trigger] init[j]) by {
            assert(init[j] == w[j]);
        }
        lemma_single_token(init, k);
        assert(!is_sep(k, w[w.len() - 2]));
    } else {
        assert(init.len() == 0);
        assert(token_spans(init, k).len() == 0);
    }
}

/// A separator and then a token add one token.
pub proof fn lemma_tokens_after_separator(x: Seq<char>, sep: char, w: Seq<char>, k: SepKind)
    requires
        is_sep(k, sep),
        w.len() > 0,
        forall|j: int| 0 <= j < w.len() ==> !is_sep(k, #[trigger] w[j]),
    ensures
        token_spans(x.push(sep) + w, k).len() == token_spans(x, k).len() + 1,
    decreases w.len(),
{
    let y = x.push(sep);
    assert(y.drop_last() =~= x);
    if w.len() == 1 {
        assert((y + w).drop_last() =~= y);
        assert((y + w)[y.len() as int] == w[0]);
    } else {
        let init = w.drop_last();
        assert forall|j: int| 0 <= j < init.len() implies !is_sep(k, #[trigger] init[j]) by {
            assert(init[j] == w[j]);
        }
        lemma_tokens_after_separator(x, sep, init, k);
        assert((y + w).drop_last() =~= y + init);
        let n = (y + w).len() - 1;
        assert((y + w)[n] == w[w.len() - 1]);
        assert((y + w)[n - 1] == w[w.len() - 2]);
        lemma_token_spans_shape(y + init, k);
    }
}

/// Every word is non-empty and holds no whitespace.
pub proof fn lemma_words_are_words(s: Seq<char>)
    ensures
        forall|i: int| 0 <= i < words(s).len() ==> (#[trigger] words(s)[i]).len() > 0,
        forall|i: int, j: int|
            0 <= i < words(s).len() && 0 <= j < words(s)[i].len() ==> !is_ws(#[trigger] words(s)[i][j]),
{
    let k = SepKind::Whitespace;
    lemma_token_spans_shape(s, k);
    lemma_token_chars(s, k);
    let sp = token_spans(s, k);
    assert forall|i: int| 0 <= i < words(s).len() implies (#[trigger] words(s)[i]).len() > 0 by {
        assert(sp[i].0 < sp[i].1);
    }
    assert forall|i: int, j: int|
        0 <= i < words(s).len() && 0 <= j < words(s)[i].len() implies !is_ws(#[trigger] words(s)[i][j]) by {
        assert(words(s)[i][j] == s[sp[i].0 + j]);
        assert(!is_sep(k, s[sp[i].0 + j]));
    }
}

/// Words joined by single spaces make that many words.
pub proof fn lemma_joined_word_count(ws: Seq<Seq<char>>)
    requires
        forall|i: int| 0 <= i < ws.len() ==> (#[trigger] ws[i]).len() > 0,
        forall|i: int, j: int| 0 <= i < ws.len() && 0 <= j < ws[i].len() ==> !is_ws(#[trigger] ws[i][j]),
    ensures
        word_count(join(ws, " "@)) == ws.len(),
    decreases ws.len(),
{
    let k = SepKind::Whitespace;
    if ws.len() == 1 {
        assert(ws[0].len() > 0);
        assert forall|j: int| 0 <= j < ws[0].len() implies !is_sep(k, #[trigger] ws[0][j]) by {}
        lemma_single_token(ws[0], k);
    } else if ws.len() >= 2 {
        let init = ws.drop_last();
        assert forall|i: int| 0 <= i < init.len() implies (#[trigger] init[i]).len() > 0 by {
            assert(init[i] == ws[i]);
        }
        assert forall|i: int, j: int| 0 <= i < init.len() && 0 <= j < init[i].len() implies !is_ws(
            #[trigger] init[i][j],
        ) by {
            assert(init[i] == ws[i]);
        }
        lemma_joined_word_count(init);
        let last = ws.last();
        assert(last == ws[ws.len() - 1]);
        assert(last.len() > 0);
        assert forall|j: int| 0 <= j < last.len() implies !is_sep(k, #[trigger] last[j]) by {
            assert(!is_ws(ws[ws.len() - 1][j]));
        }
        reveal_strlit(" ");
        assert(join(init, " "@) + " "@ + last =~= join(init, " "@).push(' ') + last);
        lemma_tokens_after_separator(join(init, " "@), ' ', last, k);
    }
}

// ---------------------------------------------------------------------------
// Words across joins
// ---------------------------------------------------------------------------

/// The words of each text in turn.
pub open spec fn all_words(ts: Seq<Seq<char>>) -> Seq<Seq<char>>
    decreases ts.len(),
{
    if ts.len() == 0 {
        seq![]
    } else {
        all_words(ts.drop_last()) + words(ts.last())
    }
}

/// `s` is whitespace only.
pub open spec fn all_ws(s: Seq<char>) -> bool {
    forall|i: int| 0 <= i < s.len() ==> is_ws(#[trigger] s[i])
}

/// Spans moved `d` positions to the right.
pub open spec fn shift_spans(sp: Seq<(int, int)>, d: int) -> Seq<(int, int)> {
    sp.map_values(|p: (int, int)| (p.0 + d, p.1 + d))
}

proof fn lemma_spans_view_prefix(a: Seq<char>, b: Seq<char>, sp: Seq<(int, int)>)
    requires
        spans_within(sp, a.len() as int),
    ensures
        spans_view(a + b, sp) == spans_view(a, sp),
{
    assert forall|i: int| 0 <= i < sp.len() implies spans_view(a + b, sp)[i] == spans_view(a, sp)[i] by {
        assert((a + b).subrange(sp[i].0, sp[i].1) =~= a.subrange(sp[i].0, sp[i].1));
    }
    assert(spans_view(a + b, sp) =~= spans_view(a, sp));
}

proof fn lemma_spans_view_suffix(a: Seq<char>, b: Seq<char>, sp: Seq<(int, int)>)
    requires
        spans_within(sp, b.len() as int),
    ensures
        spans_view(a + b, shift_spans(sp, a.len() as int)) == spans_view(b, sp),
{
    let d = a.len() as int;
    let sh = shift_spans(sp, d);
    assert forall|i: int| 0 <= i < sp.len() implies spans_view(a + b, sh)[i] == spans_view(b, sp)[i] by {
        assert(sh[i] == (sp[i].0 + d, sp[i].1 + d));
        assert((a + b).subrange(sp[i].0 + d, sp[i].1 + d) =~= b.subrange(sp[i].0, sp[i].1));
    }
    assert(spans_view(a + b, sh) =~= spans_view(b, sp));
}

proof fn lemma_token_spans_append_seps(a: Seq<char>, s: Seq<char>, k: SepKind)
    requires
        forall|i: int| 0 <= i < s.len() ==> is_sep(k, #[trigger] s[i]),
    ensures
        token_spans(a + s, k) == token_spans(a, k),
    decreases s.len(),
{
    if s.len() == 0 {
        assert(a + s =~= a);
    } else {
        let s0 = s.drop_last();
        assert forall|i: int| 0 <= i < s0.len() implies is_sep(k, #[trigger] s0[i]) by {
            assert(s0[i] == s[i]);
        }
        lemma_token_spans_append_seps(a, s0, k);
        assert((a + s).drop_last() =~= a + s0);
        assert((a + s)[(a + s).len() - 1] == s[s.len() - 1]);
    }
}

proof fn lemma_token_spans_concat(a: Seq<char>, b: Seq<char>, k: SepKind)
    requires
        a.len() == 0 || is_sep(k, a.last()),
    ensures
        token_spans(a + b, k) == token_spans(a, k) + shift_spans(token_spans(b, k), a.len() as int),
    decreases b.len(),
{
    let d = a.len() as int;
    let ta = token_spans(a, k);
    if b.len() == 0 {
        assert(a + b =~= a);
        assert(ta + shift_spans(token_spans(b, k), d) =~= ta);
    } else {
        let b0 = b.drop_last();
        lemma_token_spans_concat(a, b0, k);
        lemma_token_spans_shape(b0, k);
        let s = a + b;
        let n = s.len() - 1;
        assert(s.drop_last() =~= a + b0);
        assert(s[n] == b.last());
        if b0.len() > 0 {
            assert(s[n - 1] == b0.last());
        } else if d > 0 {
            assert(s[n - 1] == a.last());
        }
        let p0 = token_spans(b0, k);
        let p = token_spans(a + b0, k);
        assert(p == ta + shift_spans(p0, d));
        if is_sep(k, b.last()) {
        } else if n > 0 && !is_sep(k, s[n - 1]) {
            assert(b0.len() > 0);
            assert(p0.len() > 0);
            let q0 = p0.update(p0.len() - 1, (p0.last().0, b0.len() as int + 1));
            assert(token_spans(b, k) == q0);
            assert(p.update(p.len() - 1, (p.last().0, n + 1)) =~= ta + shift_spans(q0, d));
        } else {
            assert(b0.len() > 0 ==> is_sep(k, b0.last()));
            assert(token_spans(b, k) == p0.push((b0.len() as int, b0.len() as int + 1)));
            assert(p.push((n, n + 1)) =~= ta + shift_spans(p0.push((b0.len() as int, b0.len() as int + 1)), d));
        }
    }
}

/// Whitespace after a text adds no words.
pub proof fn lemma_words_append_ws(a: Seq<char>, s: Seq<char>)
    requires
        all_ws(s),
    ensures
        words(a + s) == words(a),
{
    let k = SepKind::Whitespace;
    lemma_token_spans_append_seps(a, s, k);
    lemma_token_spans_shape(a, k);
    lemma_spans_view_prefix(a, s, token_spans(a, k));
}

/// Whitespace alone has no words.
pub proof fn lemma_words_of_ws(s: Seq<char>)
    requires
        all_ws(s),
    ensures
        words(s) == Seq::<Seq<char>>::empty(),
{
    lemma_words_append_ws(seq![], s);
    assert(Seq::<char>::empty() + s =~= s);
    assert(words(seq![]) =~= Seq::<Seq<char>>::empty());
}

/// After a text that ends in whitespace (or is empty), the words of what
/// follows come after its own.
pub proof fn lemma_words_concat(a: Seq<char>, b: Seq<char>)
    requires
        a.len() == 0 || is_ws(a.last()),
    ensures
        words(a + b) == words(a) + words(b),
{
    let k = SepKind::Whitespace;
    lemma_token_spans_concat(a, b, k);
    lemma_token_spans_shape(a, k);
    lemma_token_spans_shape(b, k);
    let ta = token_spans(a, k);
    let sb = shift_spans(token_spans(b, k), a.len() as int);
    lemma_spans_view_prefix(a, b, ta);
    lemma_spans_view_suffix(a, b, token_spans(b, k));
    assert(spans_view(a + b, ta + sb) =~= spans_view(a + b, ta) + spans_view(a + b, sb));
}

/// Whitespace between two texts separates their words.
pub proof fn lemma_words_around_ws(a: Seq<char>, s: Seq<char>, b: Seq<char>)
    requires
        s.len() > 0,
        all_ws(s),
    ensures
        words(a + s + b) == words(a) + words(b),
{
    assert((a + s).last() == s.last());
    lemma_words_concat(a + s, b);
    lemma_words_append_ws(a, s);
}

proof fn lemma_words_trim_start(s: Seq<char>)
    ensures
        words(trim_start(s)) == words(s),
    decreases s.len(),
{
    if s.len() > 0 && is_ws(s[0]) {
        lemma_words_trim_start(s.drop_first());
        let h = seq![s[0]];
        assert(h + s.drop_first() =~= s);
        lemma_words_concat(h, s.drop_first());
        lemma_words_of_ws(h);
        assert(Seq::<Seq<char>>::empty() + words(s.drop_first()) =~= words(s.drop_first()));
    }
}

proof fn lemma_words_trim_end(s: Seq<char>)
    ensures
        words(trim_end(s)) == words(s),
    decreases s.len(),
{
    if s.len() > 0 && is_ws(s.last()) {
        lemma_words_trim_end(s.drop_last());
        assert(s.drop_last() + seq![s.last()] =~= s);
        lemma_words_append_ws(s.drop_last(), seq![s.last()]);
    }
}

/// Trimming keeps the words.
pub proof fn lemma_words_trim(s: Seq<char>)
    ensures
        words(trim(s)) == words(s),
{
    lemma_words_trim_start(s);
    lemma_words_trim_end(trim_start(s));
}

/// The words of one text.
pub proof fn lemma_all_words_single(x: Seq<char>)
    ensures
        all_words(seq![x]) == words(x),
{
    assert(seq![x].drop_last() =~= Seq::<Seq<char>>::empty());
    assert(seq![x].last() == x);
    assert(all_words(Seq::<Seq<char>>::empty()) + words(x) =~= words(x));
}

/// The words of texts laid end to end.
pub proof fn lemma_all_words_concat(x: Seq<Seq<char>>, y: Seq<Seq<char>>)
    ensures
        all_words(x + y) == all_words(x) + all_words(y),
    decreases y.len(),
{
    if y.len() == 0 {
        assert(x + y =~= x);
        assert(all_words(x) + all_words(y) =~= all_words(x));
    } else {
        lemma_all_words_concat(x, y.drop_last());
        assert((x + y).drop_last() =~= x + y.drop_last());
        assert((x + y).last() == y.last());
        assert(all_words(x) + all_words(y.drop_last()) + words(y.last()) =~= all_words(x) + (
        all_words(y.drop_last()) + words(y.last())));
    }
}

/// Texts joined by whitespace have the words of the texts, in order.
pub proof fn lemma_words_of_join(ts: Seq<Seq<char>>, sep: Seq<char>)
    requires
        sep.len() > 0,
        all_ws(sep),
    ensures
        words(join(ts, sep)) == all_words(ts),
    decreases ts.len(),
{
    if ts.len() == 0 {
        assert(words(seq![]) =~= Seq::<Seq<char>>::empty());
    } else if ts.len() == 1 {
        assert(all_words(ts.drop_last()) =~= Seq::<Seq<char>>::empty());
        assert(ts.last() == ts[0]);
        assert(all_words(ts) =~= words(ts[0]));
    } else {
        lemma_words_of_join(ts.drop_last(), sep);
        lemma_words_around_ws(join(ts.drop_last(), sep), sep, ts.last());
    }
}

/// A word is its own one word.
pub proof fn lemma_word_is_one_word(w: Seq<char>)
    requires
        w.len() > 0,
        forall|j: int| 0 <= j < w.len() ==> !is_ws(#[trigger] w[j]),
    ensures
        words(w) == seq![w],
    decreases w.len(),
{
    let k = SepKind::Whitespace;
    assert(token_spans(w, k) == seq![(0int, w.len() as int)]) by {
        lemma_word_spans(w);
    }
    assert(words(w) =~= seq![w.subrange(0, w.len() as int)]);
    assert(w.subrange(0, w.len() as int) =~= w);
}

proof fn lemma_word_spans(w: Seq<char>)
    requires
        w.len() > 0,
        forall|j: int| 0 <= j < w.len() ==> !is_ws(#[trigger] w[j]),
    ensures
        token_spans(w, SepKind::Whitespace) == seq![(0int, w.len() as int)],
    decreases w.len(),
{
    let init = w.drop_last();
    assert(!is_ws(w[w.len() - 1]));
    if w.len() > 1 {
        assert forall|j: int| 0 <= j < init.len() implies !is_ws(#[trigger] init[j]) by {
            assert(init[j] == w[j]);
        }
        lemma_word_spans(init);
        assert(!is_ws(w[w.len() - 2]));
        assert(seq![(0int, init.len() as int)].update(0, (0int, w.len() as int)) =~= seq![(0int, w.len() as int)]);
    } else {
        assert(token_spans(init, SepKind::Whitespace) =~= Seq::<(int, int)>::empty());
        assert(Seq::<(int, int)>::empty().push((0int, 1int)) =~= seq![(0int, 1int)]);
    }
}

/// Words taken one by one have themselves as their words.
pub proof fn lemma_all_words_of_words(ws: Seq<Seq<char>>)
    requires
        forall|i: int| 0 <= i < ws.len() ==> (#[trigger] ws[i]).len() > 0,
        forall|i: int, j: int| 0 <= i < ws.len() && 0 <= j < ws[i].len() ==> !is_ws(#[trigger] ws[i][j]),
    ensures
        all_words(ws) == ws,
    decreases ws.len(),
{
    if ws.len() > 0 {
        let init = ws.drop_last();
        assert forall|i: int| 0 <= i < init.len() implies (#[trigger] init[i]).len() > 0 by {
            assert(init[i] == ws[i]);
        }
        assert forall|i: int, j: int| 0 <= i < init.len() && 0 <= j < init[i].len() implies !is_ws(
            #[trigger] init[i][j],
        ) by {
            assert(init[i] == ws[i]);
        }
        lemma_all_words_of_words(init);
        let last = ws.last();
        assert(last == ws[ws.len() - 1]);
        assert forall|j: int| 0 <= j < last.len() implies !is_ws(#[trigger] last[j]) by {
            assert(!is_ws(ws[ws.len() - 1][j]));
        }
        lemma_word_is_one_word(last);
        assert(init + seq![last] =~= ws);
    }
}

/// The token spans of `v`.
pub fn token_spans_of(v: &Vec<char>, k: SepKind) -> (r: Vec<(usize, usize)>)
    ensures
        int_spans(r@) == token_spans(v@, k),
{
    let mut r: Vec<(usize, usize)> = Vec::new();
    let mut i: usize = 0;
    while i < v.len()
        invariant
            i <= v@.len(),
            int_spans(r@) == token_spans(v@.take(i as int), k),
        decreases v@.len() - i,
    {
        let ghost pre = v@.take(i as int);
        let ghost cur = v@.take(i + 1);
        assert(cur.drop_last() =~= pre);
        proof {
            lemma_token_spans_shape(pre, k);
        }
        if is_separator(k, v[i]) {
        } else if i > 0 && !is_separator(k, v[i - 1]) {
            let last = r.len() - 1;
            let start = r[last].0;
            r.set(last, (start, i + 1));
            assert(int_spans(r@) =~= token_spans(cur, k));
        } else {
            r.push((i, i + 1));
            assert(int_spans(r@) =~= token_spans(cur, k));
        }
        i += 1;
    }
    assert(v@.take(v@.len() as int) =~= v@);
    r
}

/// The number of words of `v`.
pub fn count_words(v: &Vec<char>) -> (n: usize)
    ensures
        n == word_count(v@),
{
    let mut n: usize = 0;
    let mut i: usize = 0;
    while i < v.len()
        invariant
            i <= v@.len(),
            n == word_count(v@.take(i as int)),
            n <= i,
        decreases v@.len() - i,
    {
        let ghost pre = v@.take(i as int);
        let ghost cur = v@.take(i + 1);
        assert(cur.drop_last() =~= pre);
        proof {
            lemma_token_spans_shape(pre, SepKind::Whitespace);
        }
        if !is_whitespace(v[i]) && (i == 0 || is_whitespace(v[i - 1])) {
            n += 1;
        }
        i += 1;
    }
    assert(v@.take(v@.len() as int) =~= v@);
    n
}


// ---------------------------------------------------------------------------
// Splitting at a character, and lines
// ---------------------------------------------------------------------------

/// The spans of the pieces of `s` between consecutive occurrences of `sep`
/// (`str::split` with a `char`): one more piece than there are separators.
pub open spec fn split_char_spans(s: Seq<char>, sep: char) -> Seq<(int, int)>
    decreases s.len(),
{
    if s.len() == 0 {
        seq![(0, 0)]
    } else {
        let p = split_char_spans(s.drop_last(), sep);
        let n = s.len() - 1;
        if s[n] == sep {
            p.push((n + 1, n + 1))
        } else {
            p.update(p.len() - 1, (p.last().0, n + 1))
        }
    }
}

/// Shape facts about the pieces between separators: at least one, in range,
/// the last ending at the end, and each other one ending at a separator.
pub proof fn lemma_split_char_spans_shape(s: Seq<char>, sep: char)
    ensures
        split_char_spans(s, sep).len() >= 1,
        split_char_spans(s, sep).last().1 == s.len(),
        spans_within(split_char_spans(s, sep), s.len() as int),
        forall|i: int|
            0 <= i < split_char_spans(s, sep).len() - 1 ==> #[trigger] split_char_spans(s, sep)[i].1
                < s.len() && s[split_char_spans(s, sep)[i].1] == sep,
    decreases s.len(),
{
    if s.len() > 0 {
        let t = s.drop_last();
        lemma_split_char_spans_shape(t, sep);
        let p = split_char_spans(t, sep);
        let q = split_char_spans(s, sep);
        assert forall|i: int| 0 <= i < q.len() - 1 implies #[trigger] q[i].1 < s.len() && s[q[i].1]
            == sep by {
            if i < p.len() - 1 {
                assert(q[i] == p[i]);
                let j = p[i].1;
                assert(j < t.len() && t[j] == sep);
                assert(t[j] == s.subrange(0, s.len() - 1)[j]);
                assert(s[j] == t[j]);
            } else {
                assert(q[i] == p.last());
            }
        }
    }
}

/// The spans of the pieces of `v` between occurrences of `sep`.
pub fn split_char_spans_of(v: &Vec<char>, sep: char) -> (r: Vec<(usize, usize)>)
    ensures
        int_spans(r@) == split_char_spans(v@, sep),
{
    let mut r: Vec<(usize, usize)> = Vec::new();
    r.push((0, 0));
    assert(int_spans(r@) =~= split_char_spans(v@.take(0), sep));
    let mut i: usize = 0;
    while i < v.len()
        invariant
            i <= v@.len(),
            int_spans(r@) == split_char_spans(v@.take(i as int), sep),
        decreases v@.len() - i,
    {
        let ghost pre = v@.take(i as int);
        let ghost cur = v@.take(i + 1);
        assert(cur.drop_last() =~= pre);
        proof {
            lemma_split_char_spans_shape(pre, sep);
        }
        if v[i] == sep {
            r.push((i + 1, i + 1));
        } else {
            let last = r.len() - 1;
            let start = r[last].0;
            r.set(last, (start, i + 1));
        }
        assert(int_spans(r@) =~= split_char_spans(cur, sep));
        i += 1;
    }
    assert(v@.take(v@.len() as int) =~= v@);
    r
}

/// A piece followed by a newline loses one trailing carriage return.
pub open spec fn strip_cr(s: Seq<char>, sp: (int, int)) -> (int, int) {
    if sp.1 > sp.0 && s[sp.1 - 1] == '\r' {
        (sp.0, sp.1 - 1)
    } else {
        sp
    }
}

/// Each span with one trailing `\r` removed.
pub open spec fn strip_crs(s: Seq<char>, spans: Seq<(int, int)>) -> Seq<(int, int)> {
    Seq::new(spans.len(), |i: int| strip_cr(s, spans[i]))
}

/// The spans of the lines of `s` (`str::lines`): the pieces between newlines,
/// each piece that a newline ends without one trailing `\r`, and no final empty
/// piece.
pub open spec fn line_spans(s: Seq<char>) -> Seq<(int, int)> {
    let p = split_char_spans(s, '\n');
    let k = p.len() - 1;
    let body = strip_crs(s, p.take(k));
    if p[k].0 == p[k].1 {
        body
    } else {
        body.push(p[k])
    }
}

/// The lines of `s` (`str::lines`).
pub open spec fn lines(s: Seq<char>) -> Seq<Seq<char>> {
    spans_view(s, line_spans(s))
}

/// Line spans lie inside the text.
pub proof fn lemma_line_spans_within(s: Seq<char>)
    ensures
        spans_within(line_spans(s), s.len() as int),
{
    lemma_split_char_spans_shape(s, '\n');
}

/// The spans of the lines of `v`.
pub fn line_spans_of(v: &Vec<char>) -> (r: Vec<(usize, usize)>)
    ensures
        int_spans(r@) == line_spans(v@),
        spans_within(int_spans(r@), v@.len() as int),
{
    let p = split_char_spans_of(v, '\n');
    proof {
        lemma_split_char_spans_shape(v@, '\n');
        lemma_line_spans_within(v@);
    }
    let k = p.len() - 1;
    let mut r: Vec<(usize, usize)> = Vec::new();
    let mut i: usize = 0;
    while i < k
        invariant
            k == p@.len() - 1,
            int_spans(p@) == split_char_spans(v@, '\n'),
            spans_within(int_spans(p@), v@.len() as int),
            i <= k,
            int_spans(r@) == strip_crs(v@, int_spans(p@).take(i as int)),
        decreases k - i,
    {
        let (a, b) = p[i];
        assert(int_spans(p@)[i as int] == (a as int, b as int));
        let ghost old_r = int_spans(r@);
        if b > a && v[b - 1] == '\r' {
            r.push((a, b - 1));
        } else {
            r.push((a, b));
        }
        assert(int_spans(r@) =~= old_r.push(strip_cr(v@, int_spans(p@)[i as int])));
        assert(int_spans(r@) =~= strip_crs(v@, int_spans(p@).take(i + 1)));
        i += 1;
    }
    let (a, b) = p[k];
    assert(int_spans(p@)[k as int] == (a as int, b as int));
    if a != b {
        r.push((a, b));
        assert(int_spans(r@) =~= line_spans(v@));
    } else {
        assert(int_spans(r@) =~= line_spans(v@));
    }
    r
}

// ---------------------------------------------------------------------------
// Finding a pattern, and splitting at a pattern
// ---------------------------------------------------------------------------

/// `p` occurs in `s` at position `i`.
pub open spec fn matches_at(s: Seq<char>, p: Seq<char>, i: int) -> bool {
    0 <= i && i + p.len() <= s.len() && s.subrange(i, i + p.len()) == p
}

/// The first position at or after `lo` where `p` occurs in `s`, or -1 if none.
pub open spec fn first_match_from(s: Seq<char>, p: Seq<char>, lo: int) -> int
    decreases s.len() + 1 - lo,
{
    if lo < 0 || lo + p.len() > s.len() {
        -1
    } else if matches_at(s, p, lo) {
        lo
    } else {
        first_match_from(s, p, lo + 1)
    }
}

/// The first match from `lo` is a match, and nothing between `lo` and it is.
pub proof fn lemma_first_match(s: Seq<char>, p: Seq<char>, lo: int)
    requires
        0 <= lo,
    ensures
        first_match_from(s, p, lo) == -1 || (lo <= first_match_from(s, p, lo) && matches_at(
            s,
            p,
            first_match_from(s, p, lo),
        )),
        forall|j: int|
            lo <= j && (first_match_from(s, p, lo) == -1 || j < first_match_from(s, p, lo))
                ==> !#[trigger] matches_at(s, p, j),
    decreases s.len() + 1 - lo,
{
    if lo + p.len() > s.len() {
    } else if matches_at(s, p, lo) {
    } else {
        lemma_first_match(s, p, lo + 1);
    }
}

/// The first match from `lo` is at `m` when `p` occurs at `m` and nowhere
/// between `lo` and `m`.
pub proof fn lemma_first_match_at(s: Seq<char>, p: Seq<char>, lo: int, m: int)
    requires
        0 <= lo <= m,
        matches_at(s, p, m),
        forall|j: int| lo <= j < m ==> !#[trigger] matches_at(s, p, j),
    ensures
        first_match_from(s, p, lo) == m,
    decreases m - lo,
{
    if lo < m {
        assert(!matches_at(s, p, lo));
        lemma_first_match_at(s, p, lo + 1, m);
    }
}

/// An occurrence makes `p` contained in `s`.
pub proof fn lemma_match_contains(s: Seq<char>, p: Seq<char>, i: int)
    requires
        matches_at(s, p, i),
    ensures
        contains_seq(s, p),
{
    lemma_first_match(s, p, 0);
}

/// What a text contains, a text around it contains too.
pub proof fn lemma_contains_in_concat(x: Seq<char>, a: Seq<char>, y: Seq<char>, p: Seq<char>)
    requires
        contains_seq(a, p),
    ensures
        contains_seq(x + a + y, p),
{
    lemma_first_match(a, p, 0);
    let m = first_match_from(a, p, 0);
    let s = x + a + y;
    assert(s.subrange(x.len() + m, x.len() + m + p.len()) =~= a.subrange(m, m + p.len()));
    lemma_match_contains(s, p, x.len() + m);
}

/// Whether `p` occurs in `v` at position `i`.
pub fn matches_here(v: &Vec<char>, p: &Vec<char>, i: usize) -> (b: bool)
    ensures
        b == matches_at(v@, p@, i as int),
{
    if i > v.len() || p.len() > v.len() - i {
        return false;
    }
    let end = i + p.len();
    let mut k: usize = 0;
    while k < p.len()
        invariant
            end == i + p@.len(),
            end <= v@.len(),
            k <= p@.len(),
            v@.subrange(i as int, i + k) == p@.take(k as int),
        decreases p@.len() - k,
    {
        if v[i + k] != p[k] {
            assert(v@.subrange(i as int, i + p@.len())[k as int] != p@[k as int]);
            return false;
        }
        assert(v@.subrange(i as int, i + k + 1) =~= v@.subrange(i as int, i + k).push(v@[i + k]));
        assert(p@.take(k + 1) =~= p@.take(k as int).push(p@[k as int]));
        k += 1;
    }
    assert(p@.take(p@.len() as int) =~= p@);
    true
}

/// The first position at or after `lo` where `p` occurs in `v` (`str::find`).
pub fn find_from(v: &Vec<char>, p: &Vec<char>, lo: usize) -> (r: Option<usize>)
    ensures
        match r {
            Some(i) => i as int == first_match_from(v@, p@, lo as int),
            None => first_match_from(v@, p@, lo as int) == -1,
        },
{
    let mut i = lo;
    while i <= v.len() && p.len() <= v.len() - i
        invariant
            lo <= i,
            first_match_from(v@, p@, i as int) == first_match_from(v@, p@, lo as int),
        decreases v@.len() + 1 - i,
    {
        if matches_here(v, p, i) {
            return Some(i);
        }
        if i == v.len() {
            assert(first_match_from(v@, p@, i as int) == first_match_from(v@, p@, i + 1));
            return None;
        }
        i += 1;
    }
    None
}

/// The spans of the pieces of `s[lo..]` between non-overlapping occurrences of
/// `p`, found from left to right (`str::split` with a string pattern).
pub open spec fn split_pat_spans(s: Seq<char>, p: Seq<char>, lo: int) -> Seq<(int, int)>
    decreases s.len() - lo,
    when 0 <= lo <= s.len() && p.len() > 0
{
    let m = first_match_from(s, p, lo);
    if m < 0 {
        seq![(lo, s.len() as int)]
    } else {
        proof {
            lemma_first_match(s, p, lo);
        }
        seq![(lo, m)] + split_pat_spans(s, p, m + p.len())
    }
}

/// The pieces of `s` between occurrences of `p` (`str::split`).
pub open spec fn split_pat(s: Seq<char>, p: Seq<char>) -> Seq<Seq<char>> {
    spans_view(s, split_pat_spans(s, p, 0))
}

/// The pieces between occurrences of a pattern lie inside the text.
pub proof fn lemma_split_pat_within(s: Seq<char>, p: Seq<char>, lo: int)
    requires
        0 <= lo <= s.len(),
        p.len() > 0,
    ensures
        spans_within(split_pat_spans(s, p, lo), s.len() as int),
    decreases s.len() - lo,
{
    lemma_first_match(s, p, lo);
    let m = first_match_from(s, p, lo);
    if m >= 0 {
        lemma_split_pat_within(s, p, m + p.len());
        let rest = split_pat_spans(s, p, m + p.len());
        assert(split_pat_spans(s, p, lo) == seq![(lo, m)] + rest);
    }
}

/// The spans of the pieces of `v` between occurrences of `p`.
pub fn split_pat_spans_of(v: &Vec<char>, p: &Vec<char>) -> (r: Vec<(usize, usize)>)
    requires
        p@.len() > 0,
    ensures
        int_spans(r@) == split_pat_spans(v@, p@, 0),
        spans_within(int_spans(r@), v@.len() as int),
{
    let mut r: Vec<(usize, usize)> = Vec::new();
    let mut pos: usize = 0;
    let vl = v.len();
    proof {
        lemma_split_pat_within(v@, p@, 0);
    }
    loop
        invariant
            vl == v@.len(),
            p@.len() > 0,
            pos <= v@.len(),
            int_spans(r@) + split_pat_spans(v@, p@, pos as int) == split_pat_spans(v@, p@, 0),
        decreases v@.len() - pos,
    {
        proof {
            lemma_first_match(v@, p@, pos as int);
        }
        match find_from(v, p, pos) {
            None => {
                r.push((pos, v.len()));
                assert(int_spans(r@) =~= split_pat_spans(v@, p@, 0));
                proof {
                    lemma_split_pat_within(v@, p@, 0);
                }
                return r;
            },
            Some(m) => {
                assert(matches_at(v@, p@, m as int));
                let ghost old_r = int_spans(r@);
                r.push((pos, m));
                let ghost rest = split_pat_spans(v@, p@, m + p@.len());
                assert(split_pat_spans(v@, p@, pos as int) == seq![(pos as int, m as int)] + rest);
                assert(int_spans(r@) + rest =~= old_r + split_pat_spans(v@, p@, pos as int));
                pos = m + p.len();
            },
        }
    }
}

// ---------------------------------------------------------------------------
// Joining
// ---------------------------------------------------------------------------

/// The parts separated by `sep` (`[T]::join`).
pub open spec fn join(parts: Seq<Seq<char>>, sep: Seq<char>) -> Seq<char>
    decreases parts.len(),
{
    if parts.len() == 0 {
        seq![]
    } else if parts.len() == 1 {
        parts[0]
    } else {
        join(parts.drop_last(), sep) + sep + parts.last()
    }
}

/// The pieces `spans[lo..hi]` of `v` joined by `sep`.
pub fn join_spans(v: &Vec<char>, spans: &Vec<(usize, usize)>, lo: usize, hi: usize, sep: &Vec<char>) -> (r: Vec<char>)
    requires
        lo <= hi <= spans@.len(),
        spans_within(int_spans(spans@), v@.len() as int),
    ensures
        r@ == join(spans_view(v@, int_spans(spans@).subrange(lo as int, hi as int)), sep@),
{
    let mut r: Vec<char> = Vec::new();
    let mut i = lo;
    assert(spans_view(v@, int_spans(spans@).subrange(lo as int, lo as int)) =~= Seq::<Seq<char>>::empty());
    while i < hi
        invariant
            lo <= i <= hi <= spans@.len(),
            spans_within(int_spans(spans@), v@.len() as int),
            r@ == join(spans_view(v@, int_spans(spans@).subrange(lo as int, i as int)), sep@),
        decreases hi - i,
    {
        let ghost prev = spans_view(v@, int_spans(spans@).subrange(lo as int, i as int));
        let ghost next = spans_view(v@, int_spans(spans@).subrange(lo as int, i + 1));
        assert(next.drop_last() =~= prev);
        let (a, b) = spans[i];
        assert(int_spans(spans@)[i as int] == (a as int, b as int));
        if i > lo {
            extend_all(&mut r, sep);
        }
        extend_from(&mut r, v, a, b);
        assert(next.last() == v@.subrange(a as int, b as int));
        assert(r@ =~= join(next, sep@));
        i += 1;
    }
    r
}

/// The views of a vector of strings.
pub open spec fn string_views(v: Seq<String>) -> Seq<Seq<char>> {
    v.map_values(|s: String| s@)
}

/// The strings joined by `sep` (`[String]::join`).
pub fn join_strings(parts: &Vec<String>, sep: &str) -> (r: String)
    ensures
        r@ == join(string_views(parts@), sep@),
{
    let mut out: Vec<char> = Vec::new();
    let mut i: usize = 0;
    while i < parts.len()
        invariant
            i <= parts@.len(),
            out@ == join(string_views(parts@).take(i as int), sep@),
        decreases parts@.len() - i,
    {
        let ghost prev = string_views(parts@).take(i as int);
        let ghost next = string_views(parts@).take(i + 1);
        assert(next.drop_last() =~= prev);
        if i > 0 {
            extend_str(&mut out, sep);
        }
        extend_str(&mut out, parts[i].as_str());
        assert(out@ =~= join(next, sep@));
        i += 1;
    }
    assert(string_views(parts@).take(parts@.len() as int) =~= string_views(parts@));
    string_of_all(&out)
}


// ---------------------------------------------------------------------------
// Prefixes
// ---------------------------------------------------------------------------

/// Whether `v` begins with the characters of `p` (`str::starts_with`).
pub fn starts_with(v: &Vec<char>, p: &str) -> (b: bool)
    ensures
        b == p@.is_prefix_of(v@),
{
    let pc = to_chars(p);
    if pc.len() > v.len() {
        return false;
    }
    let b = matches_here(v, &pc, 0);
    assert(v@.subrange(0, pc@.len() as int) =~= v@.take(pc@.len() as int));
    b
}


// ---------------------------------------------------------------------------
// Numbers
// ---------------------------------------------------------------------------

/// The ASCII digit for `d` (`0 <= d < 10`).
pub open spec fn digit_char(d: int) -> char {
    (48 + d) as char
}

/// The decimal representation of `n`, without leading zeros (`usize::to_string`).
pub open spec fn decimal(n: nat) -> Seq<char>
    decreases n,
{
    if n < 10 {
        seq![digit_char(n as int)]
    } else {
        decimal(n / 10).push(digit_char((n % 10) as int))
    }
}

/// Appends the decimal representation of `n` to `out`.
pub fn push_decimal(out: &mut Vec<char>, n: usize)
    ensures
        final(out)@ == old(out)@ + decimal(n as nat),
    decreases n,
{
    if n >= 10 {
        push_decimal(out, n / 10);
    }
    let d = (n % 10) as u8;
    let c = (48u8 + d) as char;
    assert(c == digit_char((n % 10) as int));
    out.push(c);
    assert(out@ =~= old(out)@ + decimal(n as nat));
}

/// The decimal representation of `n`.
pub fn decimal_string(n: usize) -> (s: String)
    ensures
        s@ == decimal(n as nat),
{
    let mut v: Vec<char> = Vec::new();
    push_decimal(&mut v, n);
    assert(v@ =~= decimal(n as nat));
    string_of_all(&v)
}


// ---------------------------------------------------------------------------
// Counting and small character classes
// ---------------------------------------------------------------------------

/// The number of leading copies of `c` in `s`.
pub open spec fn count_leading(s: Seq<char>, c: char) -> nat
    decreases s.len(),
{
    if s.len() > 0 && s[0] == c {
        1 + count_leading(s.drop_first(), c)
    } else {
        0
    }
}

/// The number of copies of `c` at the start of `v[lo..hi]`.
pub fn count_leading_in(v: &Vec<char>, lo: usize, hi: usize, c: char) -> (n: usize)
    requires
        lo <= hi <= v@.len(),
    ensures
        lo + n <= hi,
        n == count_leading(v@.subrange(lo as int, hi as int), c),
{
    let mut j = lo;
    while j < hi && v[j] == c
        invariant
            lo <= j <= hi <= v@.len(),
            count_leading(v@.subrange(lo as int, hi as int), c) == (j - lo) + count_leading(
                v@.subrange(j as int, hi as int),
                c,
            ),
        decreases hi - j,
    {
        assert(v@.subrange(j as int, hi as int).drop_first() =~= v@.subrange(j + 1, hi as int));
        j += 1;
    }
    j - lo
}

/// An ASCII decimal digit.
pub open spec fn is_digit(c: char) -> bool {
    48 <= (c as u32) <= 57
}

/// An ASCII letter or digit.
pub open spec fn is_ascii_alnum(c: char) -> bool {
    ||| 48 <= (c as u32) <= 57
    ||| 65 <= (c as u32) <= 90
    ||| 97 <= (c as u32) <= 122
}

/// `char::to_ascii_lowercase`.
pub open spec fn ascii_lower(c: char) -> char {
    if 65 <= (c as u32) <= 90 {
        ((c as u32) + 32) as char
    } else {
        c
    }
}

/// `c` lowercased if it is an ASCII capital (`char::to_ascii_lowercase`).
pub fn to_ascii_lower(c: char) -> (r: char)
    ensures
        r == ascii_lower(c),
{
    let u = c as u32;
    if 65 <= u && u <= 90 {
        let l = (u + 32) as u8;
        l as char
    } else {
        c
    }
}

/// Whether `c` is an ASCII digit.
pub fn is_ascii_digit(c: char) -> (b: bool)
    ensures
        b == is_digit(c),
{
    let u = c as u32;
    48 <= u && u <= 57
}


/// Whether two string slices hold the same characters.
pub fn str_eq(a: &str, b: &str) -> (r: bool)
    ensures
        r == (a@ == b@),
{
    let va = to_chars(a);
    let vb = to_chars(b);
    if va.len() != vb.len() {
        assert(a@.len() != b@.len());
        return false;
    }
    let mut i: usize = 0;
    while i < va.len()
        invariant
            va@ == a@,
            vb@ == b@,
            va@.len() == vb@.len(),
            i <= va@.len(),
            forall|j: int| 0 <= j < i ==> va@[j] == vb@[j],
        decreases va@.len() - i,
    {
        if va[i] != vb[i] {
            assert(a@[i as int] != b@[i as int]);
            return false;
        }
        i += 1;
    }
    assert(va@ =~= vb@);
    true
}


/// Every character is ASCII.
pub open spec fn all_ascii(s: Seq<char>) -> bool {
    forall|i: int| 0 <= i < s.len() ==> (#[trigger] s[i] as u32) < 128
}


/// `p` occurs somewhere in `s` (`str::contains`).
pub open spec fn contains_seq(s: Seq<char>, p: Seq<char>) -> bool {
    first_match_from(s, p, 0) >= 0
}

/// `s` ends with `p` (`str::ends_with`).
pub open spec fn ends_with_seq(s: Seq<char>, p: Seq<char>) -> bool {
    p.len() <= s.len() && s.skip(s.len() - p.len()) == p
}

/// Whether `p` occurs in `v`.
pub fn contains(v: &Vec<char>, p: &str) -> (b: bool)
    ensures
        b == contains_seq(v@, p@),
{
    let pc = to_chars(p);
    find_from(v, &pc, 0).is_some()
}

/// Whether `v` ends with `p`.
pub fn ends_with(v: &Vec<char>, p: &str) -> (b: bool)
    ensures
        b == ends_with_seq(v@, p@),
{
    let pc = to_chars(p);
    if pc.len() > v.len() {
        return false;
    }
    let b = matches_here(v, &pc, v.len() - pc.len());
    assert(v@.subrange(v@.len() - pc@.len(), v@.len() as int) =~= v@.skip(v@.len() - pc@.len()));
    b
}

} // verus!
