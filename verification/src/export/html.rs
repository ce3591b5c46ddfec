//! Rendering markdown as a self-contained HTML document.
use crate::text::{
    count_leading, count_leading_in, decimal, extend_all, extend_from, extend_str,
    first_match_from, int_spans, is_ascii_alnum, is_ascii_digit, is_digit, join, join_spans,
    ascii_lower, line_spans_of, lines, spans_view, spans_within, starts_with, string_of_all,
    to_ascii_lower, to_chars, token_spans, token_spans_of, tokens, trim, trim_span, trim_start,
    trim_start_index, find_from, lemma_first_match, push_decimal, SepKind, contains_seq,
    matches_at, lemma_match_contains, lemma_contains_in_concat, digit_char, lemma_token_spans_shape,
};
use vstd::prelude::*;

verus! {

broadcast use vstd::seq_lib::group_seq_properties;

/// The style sheet of exported documents.
pub const CSS: &'static str = r#"
body {
    font-family: Georgia, 'Times New Roman', serif;
    line-height: 1.6;
    max-width: 42em;
    margin: 2em auto;
    padding: 0 1em;
    color: #333;
}
h1, h2, h3 { margin-top: 1.5em; }
h1 { font-size: 1.8em; }
h2 { font-size: 1.4em; }
h3 { font-size: 1.2em; }
nav#toc { margin-bottom: 2em; }
nav#toc ul { list-style: none; padding-left: 0; }
nav#toc li { margin: 0.3em 0; }
"#;

/// The kind of block that is open while rendering.
#[derive(Clone, Copy, PartialEq, Eq, Structural)]
pub enum BlockState {
    Paragraph,
    UnorderedList,
    OrderedList,
}

// ---------------------------------------------------------------------------
// Escaping
// ---------------------------------------------------------------------------

/// The HTML text for one character.
pub open spec fn escape_char(c: char) -> Seq<char> {
    if c == '&' {
        "&amp;"@
    } else if c == '<' {
        "&lt;"@
    } else if c == '>' {
        "&gt;"@
    } else if c == '"' {
        "&quot;"@
    } else {
        seq![c]
    }
}

/// `s` with `&`, `<`, `>` and `"` replaced by their entities.
pub open spec fn spec_escape_html(s: Seq<char>) -> Seq<char>
    decreases s.len(),
{
    if s.len() == 0 {
        seq![]
    } else {
        spec_escape_html(s.drop_last()) + escape_char(s.last())
    }
}

/// Escaped text holds no markup: no `<`, `>` or `"` is left in it.
pub proof fn lemma_escaped_has_no_markup(s: Seq<char>)
    ensures
        forall|i: int|
            0 <= i < spec_escape_html(s).len() ==> {
                let c = #[trigger] spec_escape_html(s)[i];
                c != '<' && c != '>' && c != '"'
            },
    decreases s.len(),
{
    reveal_strlit("&amp;");
    reveal_strlit("&lt;");
    reveal_strlit("&gt;");
    reveal_strlit("&quot;");
    if s.len() > 0 {
        lemma_escaped_has_no_markup(s.drop_last());
        let a = spec_escape_html(s.drop_last());
        let b = escape_char(s.last());
        assert forall|i: int| 0 <= i < b.len() implies b[i] != '<' && b[i] != '>' && b[i] != '"' by {}
        assert forall|i: int| 0 <= i < (a + b).len() implies {
            let c = #[trigger] (a + b)[i];
            c != '<' && c != '>' && c != '"'
        } by {
            if i < a.len() {
                assert((a + b)[i] == a[i]);
            } else {
                assert((a + b)[i] == b[i - a.len()]);
            }
        }
    }
}

/// Appends `v[lo..hi]` escaped to `out`.
pub fn push_escaped(out: &mut Vec<char>, v: &Vec<char>, lo: usize, hi: usize)
    requires
        lo <= hi <= v@.len(),
    ensures
        final(out)@ == old(out)@ + spec_escape_html(v@.subrange(lo as int, hi as int)),
{
    let ghost start = out@;
    let mut i = lo;
    assert(v@.subrange(lo as int, lo as int) =~= Seq::<char>::empty());
    assert(start + spec_escape_html(Seq::<char>::empty()) =~= start);
    while i < hi
        invariant
            lo <= i <= hi <= v@.len(),
            out@ == start + spec_escape_html(v@.subrange(lo as int, i as int)),
        decreases hi - i,
    {
        let c = v[i];
        if c == '&' {
            extend_str(out, "&amp;");
        } else if c == '<' {
            extend_str(out, "&lt;");
        } else if c == '>' {
            extend_str(out, "&gt;");
        } else if c == '"' {
            extend_str(out, "&quot;");
        } else {
            out.push(c);
        }
        assert(v@.subrange(lo as int, i + 1).drop_last() =~= v@.subrange(lo as int, i as int));
        assert(out@ =~= start + spec_escape_html(v@.subrange(lo as int, i + 1)));
        i += 1;
    }
}

/// `text` with `&`, `<`, `>` and `"` replaced by their entities.
pub fn escape_html(text: &str) -> (r: String)
    ensures
        r@ == spec_escape_html(text@),
{
    let v = to_chars(text);
    let mut out: Vec<char> = Vec::new();
    push_escaped(&mut out, &v, 0, v.len());
    assert(v@.subrange(0, v@.len() as int) =~= v@);
    string_of_all(&out)
}

// ---------------------------------------------------------------------------
// Slugs
// ---------------------------------------------------------------------------

/// Whether `char::is_alphanumeric` holds of `c` (Unicode `Alphabetic` or `Numeric`).
pub uninterp spec fn spec_is_alphanumeric(c: char) -> bool;

/// `char::is_alphanumeric`. Its result is named by `spec_is_alphanumeric`; for
/// ASCII characters it is stated: exactly the letters and digits. Which other
/// characters count is left to the Unicode tables of std and not stated.
#[verifier::external_body]
fn is_alphanumeric(c: char) -> (b: bool)
    ensures
        b == spec_is_alphanumeric(c),
        (c as u32) < 128 ==> (b <==> is_ascii_alnum(c)),
{
    c.is_alphanumeric()
}

/// Whether a character is a letter or digit: for ASCII, exactly `a`-`z`,
/// `A`-`Z` and `0`-`9`; beyond ASCII, as `char::is_alphanumeric` says.
pub open spec fn is_letter_or_digit(c: char) -> bool {
    if (c as u32) < 128 {
        is_ascii_alnum(c)
    } else {
        spec_is_alphanumeric(c)
    }
}

/// A character of a slug: letters and digits (lowercased), a dash otherwise.
pub open spec fn slug_char(c: char) -> char {
    if is_letter_or_digit(c) {
        ascii_lower(c)
    } else {
        '-'
    }
}

/// The slug of a title: its runs of letters and digits, ASCII-lowercased,
/// joined by single dashes.
pub open spec fn spec_slugify(text: Seq<char>) -> Seq<char> {
    let m = text.map_values(|c: char| slug_char(c));
    join(tokens(m, SepKind::Dash), "-"@)
}

/// The slug of `v[lo..hi]`.
pub fn slugify_span(v: &Vec<char>, lo: usize, hi: usize) -> (r: Vec<char>)
    requires
        lo <= hi <= v@.len(),
    ensures
        r@ == spec_slugify(v@.subrange(lo as int, hi as int)),
{
    let ghost t = v@.subrange(lo as int, hi as int);
    let mut m: Vec<char> = Vec::new();
    let mut i = lo;
    while i < hi
        invariant
            lo <= i <= hi <= v@.len(),
            t == v@.subrange(lo as int, hi as int),
            m@ == t.take(i - lo).map_values(|c: char| slug_char(c)),
        decreases hi - i,
    {
        let c = v[i];
        let mc = if is_alphanumeric(c) { to_ascii_lower(c) } else { '-' };
        assert(mc == slug_char(c));
        m.push(mc);
        assert(t.take(i + 1 - lo) =~= t.take(i - lo).push(c));
        assert(m@ =~= t.take(i + 1 - lo).map_values(|c: char| slug_char(c)));
        i += 1;
    }
    assert(t.take(hi - lo) =~= t);
    let spans = token_spans_of(&m, SepKind::Dash);
    proof {
        crate::text::lemma_token_spans_shape(m@, SepKind::Dash);
    }
    let dash = to_chars("-");
    let r = join_spans(&m, &spans, 0, spans.len(), &dash);
    assert(int_spans(spans@).subrange(0, spans@.len() as int) =~= int_spans(spans@));
    r
}

/// The slug of a title, used as its anchor.
pub fn slugify(text: &str) -> (r: String)
    ensures
        r@ == spec_slugify(text@),
{
    let v = to_chars(text);
    let s = slugify_span(&v, 0, v.len());
    assert(v@.subrange(0, v@.len() as int) =~= v@);
    string_of_all(&s)
}

// ---------------------------------------------------------------------------
// Line classification
// ---------------------------------------------------------------------------

/// A header line: one to three `#`s, a space, then the (trimmed) text.
pub open spec fn spec_html_header(line: Seq<char>) -> Option<(int, Seq<char>)> {
    let t = trim_start(line);
    let h = count_leading(t, '#') as int;
    let rest = t.skip(h);
    if h == 0 || h > 3 || !(rest.len() > 0 && rest[0] == ' ') {
        None
    } else {
        Some((h, trim(rest)))
    }
}

/// A bullet: `- ` or `* ` and the (trimmed) item text.
pub open spec fn spec_unordered_item(line: Seq<char>) -> Option<Seq<char>> {
    if "- "@.is_prefix_of(line) || "* "@.is_prefix_of(line) {
        Some(trim(line.skip(2)))
    } else {
        None
    }
}

/// A numbered item: digits (possibly none) up to the first `. `, and the
/// (trimmed) item text after it.
pub open spec fn spec_ordered_item(line: Seq<char>) -> Option<Seq<char>> {
    let d = first_match_from(line, ". "@, 0);
    if d < 0 {
        None
    } else if forall|i: int| 0 <= i < d ==> is_digit(#[trigger] line[i]) {
        Some(trim(line.skip(d + 2)))
    } else {
        None
    }
}

/// The header in `v[lo..hi]`: its level and the span of its text.
fn html_header_span(v: &Vec<char>, lo: usize, hi: usize) -> (r: Option<(usize, usize, usize)>)
    requires
        lo <= hi <= v@.len(),
    ensures
        match r {
            Some((h, a, b)) => lo <= a <= b <= hi && spec_html_header(
                v@.subrange(lo as int, hi as int),
            ) == Some((h as int, v@.subrange(a as int, b as int))),
            None => spec_html_header(v@.subrange(lo as int, hi as int)) is None,
        },
{
    let s = trim_start_index(v, lo, hi);
    let h = count_leading_in(v, s, hi, '#');
    let j = s + h;
    assert(v@.subrange(s as int, hi as int).skip(h as int) =~= v@.subrange(j as int, hi as int));
    if h == 0 || h > 3 || !(j < hi && v[j] == ' ') {
        return None;
    }
    let (a, b) = trim_span(v, j, hi);
    Some((h, a, b))
}

/// The bullet item text in `v[lo..hi]`.
fn unordered_item_span(v: &Vec<char>, lo: usize, hi: usize) -> (r: Option<(usize, usize)>)
    requires
        lo <= hi <= v@.len(),
    ensures
        match r {
            Some((a, b)) => lo <= a <= b <= hi && spec_unordered_item(
                v@.subrange(lo as int, hi as int),
            ) == Some(v@.subrange(a as int, b as int)),
            None => spec_unordered_item(v@.subrange(lo as int, hi as int)) is None,
        },
{
    proof {
        reveal_strlit("- ");
        reveal_strlit("* ");
    }
    let ghost line = v@.subrange(lo as int, hi as int);
    if hi - lo >= 2 && (v[lo] == '-' || v[lo] == '*') && v[lo + 1] == ' ' {
        assert("- "@.is_prefix_of(line) || "* "@.is_prefix_of(line));
        assert(line.skip(2) =~= v@.subrange(lo + 2, hi as int));
        let (a, b) = trim_span(v, lo + 2, hi);
        Some((a, b))
    } else {
        assert(!("- "@.is_prefix_of(line)) && !("* "@.is_prefix_of(line))) by {
            if "- "@.is_prefix_of(line) {
                assert(line[0] == "- "@[0] && line[1] == "- "@[1]);
            }
            if "* "@.is_prefix_of(line) {
                assert(line[0] == "* "@[0] && line[1] == "* "@[1]);
            }
        }
        None
    }
}

/// The numbered item text in `v[lo..hi]`.
fn ordered_item_span(v: &Vec<char>, lo: usize, hi: usize, dot_space: &Vec<char>) -> (r: Option<(usize, usize)>)
    requires
        lo <= hi <= v@.len(),
        dot_space@ == ". "@,
    ensures
        match r {
            Some((a, b)) => lo <= a <= b <= hi && spec_ordered_item(
                v@.subrange(lo as int, hi as int),
            ) == Some(v@.subrange(a as int, b as int)),
            None => spec_ordered_item(v@.subrange(lo as int, hi as int)) is None,
        },
{
    proof {
        reveal_strlit(". ");
    }
    let mut line: Vec<char> = Vec::new();
    extend_from(&mut line, v, lo, hi);
    assert(line@ =~= v@.subrange(lo as int, hi as int));
    proof {
        lemma_first_match(line@, dot_space@, 0);
    }
    let d = match find_from(&line, dot_space, 0) {
        Some(d) => d,
        None => return None,
    };
    let ghost dd = d as int;
    assert(d + 2 <= line@.len());
    let mut i: usize = 0;
    while i < d
        invariant
            dd == d,
            dd == first_match_from(line@, dot_space@, 0),
            dot_space@ == ". "@,
            line@ == v@.subrange(lo as int, hi as int),
            lo <= hi <= v@.len(),
            d + 2 <= line@.len(),
            i <= d,
            forall|k: int| 0 <= k < i ==> is_digit(#[trigger] line@[k]),
        decreases d - i,
    {
        if !is_ascii_digit(line[i]) {
            assert(!is_digit(line@[i as int]));
            assert(!is_digit(v@.subrange(lo as int, hi as int)[i as int]));
            assert(first_match_from(v@.subrange(lo as int, hi as int), ". "@, 0) == d);
            assert(!(forall|k: int|
                0 <= k < d ==> is_digit(#[trigger] v@.subrange(lo as int, hi as int)[k])));
            return None;
        }
        i += 1;
    }
    let (a, b) = trim_span(v, lo + d + 2, hi);
    assert(line@.skip(d + 2) =~= v@.subrange(lo + d + 2, hi as int));
    Some((a, b))
}

// ---------------------------------------------------------------------------
// Rendering
// ---------------------------------------------------------------------------

/// The rendering so far and the open block.
pub struct HtmlState {
    pub out: Seq<char>,
    pub block: Option<BlockState>,
}

/// `out` with the open block closed.
pub open spec fn close_spec(out: Seq<char>, block: Option<BlockState>) -> Seq<char> {
    match block {
        Some(BlockState::Paragraph) => out + "</p>\n"@,
        Some(BlockState::UnorderedList) => out + "</ul>\n"@,
        Some(BlockState::OrderedList) => out + "</ol>\n"@,
        None => out,
    }
}

/// The HTML of a header.
pub open spec fn header_html(level: int, text: Seq<char>) -> Seq<char> {
    "<h"@ + decimal(level as nat) + " id=\""@ + spec_slugify(text) + "\">"@ + spec_escape_html(
        text,
    ) + "</h"@ + decimal(level as nat) + ">\n"@
}

/// The HTML of a list item.
pub open spec fn item_html(text: Seq<char>) -> Seq<char> {
    "  <li>"@ + spec_escape_html(text) + "</li>\n"@
}

/// Rendering one line (trimmed): a blank line closes the open block; a header
/// stands alone; list items open or continue their list; other lines open or
/// continue a paragraph.
pub open spec fn html_step(st: HtmlState, line: Seq<char>) -> HtmlState {
    let t = trim(line);
    if t.len() == 0 {
        HtmlState { out: close_spec(st.out, st.block), block: None }
    } else if spec_html_header(t) is Some {
        let (level, text) = spec_html_header(t)->0;
        HtmlState { out: close_spec(st.out, st.block) + header_html(level, text), block: None }
    } else if spec_unordered_item(t) is Some {
        let pre = if st.block != Some(BlockState::UnorderedList) {
            close_spec(st.out, st.block) + "<ul>\n"@
        } else {
            st.out
        };
        HtmlState {
            out: pre + item_html(spec_unordered_item(t)->0),
            block: Some(BlockState::UnorderedList),
        }
    } else if spec_ordered_item(t) is Some {
        let pre = if st.block != Some(BlockState::OrderedList) {
            close_spec(st.out, st.block) + "<ol>\n"@
        } else {
            st.out
        };
        HtmlState {
            out: pre + item_html(spec_ordered_item(t)->0),
            block: Some(BlockState::OrderedList),
        }
    } else {
        let pre = if st.block != Some(BlockState::Paragraph) {
            close_spec(st.out, st.block) + "<p>"@
        } else {
            st.out + "\n"@
        };
        HtmlState { out: pre + spec_escape_html(t), block: Some(BlockState::Paragraph) }
    }
}

/// The rendering after the given lines.
pub open spec fn html_scan(ls: Seq<Seq<char>>) -> HtmlState
    decreases ls.len(),
{
    if ls.len() == 0 {
        HtmlState { out: seq![], block: None }
    } else {
        html_step(html_scan(ls.drop_last()), ls.last())
    }
}

/// The HTML fragment of a markdown text.
pub open spec fn spec_md_to_html(md: Seq<char>) -> Seq<char> {
    let st = html_scan(lines(md));
    close_spec(st.out, st.block)
}

fn close_block(out: &mut Vec<char>, block: &mut Option<BlockState>)
    ensures
        final(out)@ == close_spec(old(out)@, *old(block)),
        *final(block) == None::<BlockState>,
{
    match *block {
        Some(BlockState::Paragraph) => extend_str(out, "</p>\n"),
        Some(BlockState::UnorderedList) => extend_str(out, "</ul>\n"),
        Some(BlockState::OrderedList) => extend_str(out, "</ol>\n"),
        None => {},
    }
    *block = None;
}

/// Opens a list of the given kind unless it is the open block.
fn open_list(out: &mut Vec<char>, block: &mut Option<BlockState>, kind: BlockState)
    requires
        kind != BlockState::Paragraph,
    ensures
        final(out)@ == (if *old(block) != Some(kind) {
            close_spec(old(out)@, *old(block)) + (if kind == BlockState::UnorderedList {
                "<ul>\n"@
            } else {
                "<ol>\n"@
            })
        } else {
            old(out)@
        }),
        *final(block) == Some(kind),
{
    if *block != Some(kind) {
        close_block(out, block);
        if kind == BlockState::UnorderedList {
            extend_str(out, "<ul>\n");
        } else {
            extend_str(out, "<ol>\n");
        }
        *block = Some(kind);
    }
}

/// Appends a list item holding `v[a..b]`.
fn push_item(out: &mut Vec<char>, v: &Vec<char>, a: usize, b: usize)
    requires
        a <= b <= v@.len(),
    ensures
        final(out)@ == old(out)@ + item_html(v@.subrange(a as int, b as int)),
{
    extend_str(out, "  <li>");
    push_escaped(out, v, a, b);
    extend_str(out, "</li>\n");
    assert(out@ =~= old(out)@ + item_html(v@.subrange(a as int, b as int)));
}

/// Appends the header of the given level with text `v[a..b]`.
fn push_header(out: &mut Vec<char>, v: &Vec<char>, h: usize, a: usize, b: usize)
    requires
        a <= b <= v@.len(),
    ensures
        final(out)@ == old(out)@ + header_html(h as int, v@.subrange(a as int, b as int)),
{
    extend_str(out, "<h");
    push_decimal(out, h);
    extend_str(out, " id=\"");
    let slug = slugify_span(v, a, b);
    extend_all(out, &slug);
    extend_str(out, "\">");
    push_escaped(out, v, a, b);
    extend_str(out, "</h");
    push_decimal(out, h);
    extend_str(out, ">\n");
    assert(out@ =~= old(out)@ + header_html(h as int, v@.subrange(a as int, b as int)));
}

/// Renders one line whose trimmed text is `v[a..b]`.
fn render_line(
    out: &mut Vec<char>,
    block: &mut Option<BlockState>,
    v: &Vec<char>,
    a: usize,
    b: usize,
    dot_space: &Vec<char>,
    Ghost(line): Ghost<Seq<char>>,
)
    requires
        a <= b <= v@.len(),
        trim(line) == v@.subrange(a as int, b as int),
        dot_space@ == ". "@,
    ensures
        final(out)@ == html_step(HtmlState { out: old(out)@, block: *old(block) }, line).out,
        *final(block) == html_step(HtmlState { out: old(out)@, block: *old(block) }, line).block,
{
    let ghost t = v@.subrange(a as int, b as int);
    assert(t.subrange(0, t.len() as int) =~= t);
    assert(v@.subrange(a as int, b as int).subrange(0, (b - a) as int) =~= t);
    if a == b {
        close_block(out, block);
        return;
    }
    match html_header_span(v, a, b) {
        Some((h, ta, tb)) => {
            close_block(out, block);
            push_header(out, v, h, ta, tb);
            return;
        },
        None => {},
    }
    match unordered_item_span(v, a, b) {
        Some((ia, ib)) => {
            open_list(out, block, BlockState::UnorderedList);
            push_item(out, v, ia, ib);
            return;
        },
        None => {},
    }
    match ordered_item_span(v, a, b, dot_space) {
        Some((ia, ib)) => {
            open_list(out, block, BlockState::OrderedList);
            push_item(out, v, ia, ib);
            return;
        },
        None => {},
    }
    if *block != Some(BlockState::Paragraph) {
        close_block(out, block);
        extend_str(out, "<p>");
        *block = Some(BlockState::Paragraph);
    } else {
        extend_str(out, "\n");
    }
    push_escaped(out, v, a, b);
}

/// Convert markdown text to an HTML fragment (no document wrapper): `#` to `###`
/// headers, paragraphs separated by blank lines, and simple lists.
pub fn md_to_html_fragment(md: &str) -> (r: String)
    ensures
        r@ == spec_md_to_html(md@),
{
    let v = to_chars(md);
    let spans = line_spans_of(&v);
    let dot_space = to_chars(". ");
    let ghost ls = lines(v@);
    let mut out: Vec<char> = Vec::new();
    let mut block: Option<BlockState> = None;
    let mut i: usize = 0;
    assert(ls.take(0) =~= Seq::<Seq<char>>::empty());
    while i < spans.len()
        invariant
            dot_space@ == ". "@,
            ls == lines(v@),
            ls == spans_view(v@, int_spans(spans@)),
            spans_within(int_spans(spans@), v@.len() as int),
            i <= spans@.len(),
            out@ == html_scan(ls.take(i as int)).out,
            block == html_scan(ls.take(i as int)).block,
        decreases spans@.len() - i,
    {
        let (lo, hi) = spans[i];
        assert(int_spans(spans@)[i as int] == (lo as int, hi as int));
        assert(ls.take(i + 1).drop_last() =~= ls.take(i as int));
        assert(ls.take(i + 1).last() == v@.subrange(lo as int, hi as int));
        let (a, b) = trim_span(&v, lo, hi);
        render_line(&mut out, &mut block, &v, a, b, &dot_space, Ghost(v@.subrange(lo as int, hi as int)));
        i += 1;
    }
    assert(ls.take(spans@.len() as int) =~= ls);
    close_block(&mut out, &mut block);
    string_of_all(&out)
}


// ---------------------------------------------------------------------------
// Table of contents and document
// ---------------------------------------------------------------------------

// ---------------------------------------------------------------------------
// The table of contents links to the body
// ---------------------------------------------------------------------------

/// `a` begins `b`.
pub open spec fn begins(a: Seq<char>, b: Seq<char>) -> bool {
    a.len() <= b.len() && b.subrange(0, a.len() as int) == a
}

proof fn lemma_step_extends(st: HtmlState, line: Seq<char>)
    ensures
        begins(st.out, close_spec(st.out, st.block)),
        begins(st.out, html_step(st, line).out),
{
    let c = close_spec(st.out, st.block);
    assert(c.subrange(0, st.out.len() as int) =~= st.out);
    let r = html_step(st, line).out;
    assert(begins(st.out, r)) by {
        assert(r.subrange(0, st.out.len() as int) =~= st.out);
    }
}

proof fn lemma_scan_begins(ls: Seq<Seq<char>>, i: int)
    requires
        0 <= i <= ls.len(),
    ensures
        begins(html_scan(ls.take(i)).out, html_scan(ls).out),
    decreases ls.len() - i,
{
    if i == ls.len() {
        assert(ls.take(i) =~= ls);
        assert(html_scan(ls).out.subrange(0, html_scan(ls).out.len() as int) =~= html_scan(ls).out);
    } else {
        lemma_scan_begins(ls, i + 1);
        assert(ls.take(i + 1).drop_last() =~= ls.take(i));
        let st = html_scan(ls.take(i));
        lemma_step_extends(st, ls.take(i + 1).last());
        let a = st.out;
        let b = html_scan(ls.take(i + 1)).out;
        let c = html_scan(ls).out;
        assert(c.subrange(0, a.len() as int) =~= b.subrange(0, a.len() as int));
    }
}

proof fn lemma_toc_entry_line(ls: Seq<Seq<char>>, k: int) -> (i: int)
    requires
        0 <= k < toc_scan(ls).len(),
    ensures
        0 <= i < ls.len(),
        spec_html_header(trim(ls[i])) == Some((2int, toc_scan(ls)[k].1)),
        toc_scan(ls)[k].0 == spec_slugify(toc_scan(ls)[k].1),
    decreases ls.len(),
{
    let init = ls.drop_last();
    let p = toc_scan(init);
    if k < p.len() {
        let i = lemma_toc_entry_line(init, k);
        assert(init[i] == ls[i]);
        i
    } else {
        (ls.len() - 1) as int
    }
}

/// The table of contents links into the body: for every entry, the body
/// renders its title as a second-level header whose id is the entry's slug.
pub proof fn lemma_toc_links_resolve(md: Seq<char>, k: int)
    requires
        0 <= k < spec_toc_entries(md).len(),
    ensures
        spec_toc_entries(md)[k].0 == spec_slugify(spec_toc_entries(md)[k].1),
        contains_seq(spec_md_to_html(md), header_html(2, spec_toc_entries(md)[k].1)),
{
    let ls = lines(md);
    let text = spec_toc_entries(md)[k].1;
    let i = lemma_toc_entry_line(ls, k);
    let pre = html_scan(ls.take(i));
    assert(ls.take(i + 1).drop_last() =~= ls.take(i));
    assert(ls.take(i + 1).last() == ls[i]);
    let t = trim(ls[i]);
    assert(t.len() > 0) by {
        if t.len() == 0 {
            assert(trim_start(t) == t);
            assert(count_leading(trim_start(t), '#') == 0);
        }
    }
    let h = header_html(2, text);
    let c = close_spec(pre.out, pre.block);
    let out = html_scan(ls.take(i + 1)).out;
    assert(out == c + h);
    let p = c.len() as int;
    assert(out.subrange(p, p + h.len()) =~= h);
    lemma_scan_begins(ls, i + 1);
    let st = html_scan(ls);
    lemma_step_extends(st, seq![]);
    let f = spec_md_to_html(md);
    assert(f.subrange(p, p + h.len()) =~= out.subrange(p, p + h.len())) by {
        assert(f.subrange(0, st.out.len() as int) == st.out);
        assert(st.out.subrange(0, out.len() as int) == out);
    }
    assert(matches_at(f, h, p));
    lemma_first_match(f, h, 0);
}

/// A trimmed line that continues or opens a paragraph: not blank, not a
/// header, not a list item.
pub open spec fn paragraph_line(t: Seq<char>) -> bool {
    t.len() > 0 && spec_html_header(t) is None && spec_unordered_item(t) is None
        && spec_ordered_item(t) is None
}

proof fn lemma_rendered_tail_contained(md: Seq<char>, i: int, x: Seq<char>, q: Seq<char>)
    requires
        0 <= i < lines(md).len(),
        html_scan(lines(md).take(i + 1)).out == x + q,
    ensures
        contains_seq(spec_md_to_html(md), q),
{
    let ls = lines(md);
    let out = html_scan(ls.take(i + 1)).out;
    let p = x.len() as int;
    assert(out.subrange(p, p + q.len()) =~= q);
    lemma_scan_begins(ls, i + 1);
    let st = html_scan(ls);
    lemma_step_extends(st, seq![]);
    let f = spec_md_to_html(md);
    assert(f.subrange(p, p + q.len()) =~= out.subrange(p, p + q.len())) by {
        assert(f.subrange(0, st.out.len() as int) == st.out);
        assert(st.out.subrange(0, out.len() as int) == out);
    }
    lemma_match_contains(f, q, p);
}

proof fn lemma_list_line_not_blank(t: Seq<char>)
    ensures
        spec_unordered_item(t) is Some || spec_ordered_item(t) is Some ==> t.len() > 0,
{
    reveal_strlit("- ");
    reveal_strlit("* ");
    reveal_strlit(". ");
}

proof fn lemma_paragraph_before(md: Seq<char>, i: int) -> (pre0: Seq<char>)
    requires
        0 < i < lines(md).len(),
        paragraph_line(trim(lines(md)[i - 1])),
    ensures
        html_scan(lines(md).take(i)).out == pre0 + spec_escape_html(trim(lines(md)[i - 1])),
        html_scan(lines(md).take(i)).block == Some(BlockState::Paragraph),
{
    let ls = lines(md);
    let t0 = trim(ls[i - 1]);
    assert(ls.take(i).drop_last() =~= ls.take(i - 1));
    assert(ls.take(i).last() == ls[i - 1]);
    let st0 = html_scan(ls.take(i - 1));
    if st0.block != Some(BlockState::Paragraph) {
        close_spec(st0.out, st0.block) + "<p>"@
    } else {
        st0.out + "\n"@
    }
}

#[verifier::spinoff_prover]
proof fn lemma_bullet_rendered(md: Seq<char>, i: int)
    requires
        0 <= i < lines(md).len(),
    ensures
        ({
            let ls = lines(md);
            let t = trim(ls[i]);
            let out = spec_md_to_html(md);
            &&& spec_html_header(t) is None && spec_unordered_item(t) is Some ==> contains_seq(
                out,
                item_html(spec_unordered_item(t)->0),
            )
            &&& i > 0 && paragraph_line(trim(ls[i - 1])) && spec_html_header(t) is None
                && spec_unordered_item(t) is Some ==> contains_seq(
                out,
                spec_escape_html(trim(ls[i - 1])) + "</p>\n"@ + "<ul>\n"@ + item_html(
                    spec_unordered_item(t)->0,
                ),
            )
        }),
{
    let ls = lines(md);
    let t = trim(ls[i]);
    if spec_html_header(t) is None && spec_unordered_item(t) is Some {
        lemma_list_line_not_blank(t);
        assert(ls.take(i + 1).drop_last() =~= ls.take(i));
        assert(ls.take(i + 1).last() == ls[i]);
        let st = html_scan(ls.take(i));
        let out = html_scan(ls.take(i + 1)).out;
        assert(html_scan(ls.take(i + 1)) == html_step(st, ls[i]));
        let item = item_html(spec_unordered_item(t)->0);
        let pre = if st.block != Some(BlockState::UnorderedList) {
            close_spec(st.out, st.block) + "<ul>\n"@
        } else {
            st.out
        };
        assert(out == pre + item);
        lemma_rendered_tail_contained(md, i, pre, item);
        if i > 0 && paragraph_line(trim(ls[i - 1])) {
            let pre0 = lemma_paragraph_before(md, i);
            let q = spec_escape_html(trim(ls[i - 1])) + "</p>\n"@ + "<ul>\n"@ + item;
            assert(out =~= pre0 + q);
            lemma_rendered_tail_contained(md, i, pre0, q);
        }
    }
}

#[verifier::spinoff_prover]
proof fn lemma_numbered_rendered(md: Seq<char>, i: int)
    requires
        0 <= i < lines(md).len(),
    ensures
        ({
            let ls = lines(md);
            let t = trim(ls[i]);
            let out = spec_md_to_html(md);
            &&& spec_html_header(t) is None && spec_unordered_item(t) is None && spec_ordered_item(t) is Some
                ==> contains_seq(out, item_html(spec_ordered_item(t)->0))
            &&& i > 0 && paragraph_line(trim(ls[i - 1])) && spec_html_header(t) is None
                && spec_unordered_item(t) is None && spec_ordered_item(t) is Some ==> contains_seq(
                out,
                spec_escape_html(trim(ls[i - 1])) + "</p>\n"@ + "<ol>\n"@ + item_html(
                    spec_ordered_item(t)->0,
                ),
            )
        }),
{
    let ls = lines(md);
    let t = trim(ls[i]);
    if spec_html_header(t) is None && spec_unordered_item(t) is None && spec_ordered_item(t) is Some {
        lemma_list_line_not_blank(t);
        assert(ls.take(i + 1).drop_last() =~= ls.take(i));
        assert(ls.take(i + 1).last() == ls[i]);
        let st = html_scan(ls.take(i));
        let out = html_scan(ls.take(i + 1)).out;
        let item = item_html(spec_ordered_item(t)->0);
        let pre = if st.block != Some(BlockState::OrderedList) {
            close_spec(st.out, st.block) + "<ol>\n"@
        } else {
            st.out
        };
        assert(out == pre + item);
        lemma_rendered_tail_contained(md, i, pre, item);
        if i > 0 && paragraph_line(trim(ls[i - 1])) {
            let pre0 = lemma_paragraph_before(md, i);
            let q = spec_escape_html(trim(ls[i - 1])) + "</p>\n"@ + "<ol>\n"@ + item;
            assert(out =~= pre0 + q);
            lemma_rendered_tail_contained(md, i, pre0, q);
        }
    }
}

/// Every list line is rendered as a list item, whatever block was open before
/// it: a `- `/`* ` line (not a header) as an item, a numbered line as an item;
/// and a list line right after a paragraph line closes that paragraph with
/// `</p>` and opens its list.
pub proof fn lemma_list_lines_rendered(md: Seq<char>, i: int)
    requires
        0 <= i < lines(md).len(),
    ensures
        ({
            let ls = lines(md);
            let t = trim(ls[i]);
            let out = spec_md_to_html(md);
            &&& spec_html_header(t) is None && spec_unordered_item(t) is Some ==> contains_seq(
                out,
                item_html(spec_unordered_item(t)->0),
            )
            &&& spec_html_header(t) is None && spec_unordered_item(t) is None && spec_ordered_item(t) is Some
                ==> contains_seq(out, item_html(spec_ordered_item(t)->0))
            &&& i > 0 && paragraph_line(trim(ls[i - 1])) && spec_html_header(t) is None
                && spec_unordered_item(t) is Some ==> contains_seq(
                out,
                spec_escape_html(trim(ls[i - 1])) + "</p>\n"@ + "<ul>\n"@ + item_html(
                    spec_unordered_item(t)->0,
                ),
            )
            &&& i > 0 && paragraph_line(trim(ls[i - 1])) && spec_html_header(t) is None
                && spec_unordered_item(t) is None && spec_ordered_item(t) is Some ==> contains_seq(
                out,
                spec_escape_html(trim(ls[i - 1])) + "</p>\n"@ + "<ol>\n"@ + item_html(
                    spec_ordered_item(t)->0,
                ),
            )
        }),
{
    lemma_bullet_rendered(md, i);
    lemma_numbered_rendered(md, i);
}

/// The `##` headers of a markdown text, as (slug, title) pairs in order.
pub open spec fn toc_scan(ls: Seq<Seq<char>>) -> Seq<(Seq<char>, Seq<char>)>
    decreases ls.len(),
{
    if ls.len() == 0 {
        seq![]
    } else {
        let p = toc_scan(ls.drop_last());
        match spec_html_header(trim(ls.last())) {
            Some((level, text)) => if level == 2 {
                p.push((spec_slugify(text), text))
            } else {
                p
            },
            None => p,
        }
    }
}

/// The `##` headers of a markdown text, as (slug, title) pairs in order.
pub open spec fn spec_toc_entries(md: Seq<char>) -> Seq<(Seq<char>, Seq<char>)> {
    toc_scan(lines(md))
}

/// The views of string pairs.
pub open spec fn pair_views(v: Seq<(String, String)>) -> Seq<(Seq<char>, Seq<char>)> {
    v.map_values(|e: (String, String)| (e.0@, e.1@))
}

/// The `##` headers of a markdown text, as (slug, title) pairs.
pub fn extract_toc_entries(md: &str) -> (r: Vec<(String, String)>)
    ensures
        pair_views(r@) == spec_toc_entries(md@),
{
    let v = to_chars(md);
    let spans = line_spans_of(&v);
    let ghost ls = lines(v@);
    let mut r: Vec<(String, String)> = Vec::new();
    let mut i: usize = 0;
    assert(ls.take(0) =~= Seq::<Seq<char>>::empty());
    while i < spans.len()
        invariant
            ls == lines(v@),
            ls == spans_view(v@, int_spans(spans@)),
            spans_within(int_spans(spans@), v@.len() as int),
            i <= spans@.len(),
            pair_views(r@) == toc_scan(ls.take(i as int)),
        decreases spans@.len() - i,
    {
        let (lo, hi) = spans[i];
        assert(int_spans(spans@)[i as int] == (lo as int, hi as int));
        assert(ls.take(i + 1).drop_last() =~= ls.take(i as int));
        assert(ls.take(i + 1).last() == v@.subrange(lo as int, hi as int));
        let (a, b) = trim_span(&v, lo, hi);
        match html_header_span(&v, a, b) {
            Some((h, ta, tb)) => {
                assert(v@.subrange(a as int, b as int) == trim(v@.subrange(lo as int, hi as int)));
                if h == 2 {
                    let slug = slugify_span(&v, ta, tb);
                    let ghost before = pair_views(r@);
                    r.push((string_of_all(&slug), crate::text::string_of(&v, ta, tb)));
                    assert(pair_views(r@) =~= before.push(
                        (
                            spec_slugify(v@.subrange(ta as int, tb as int)),
                            v@.subrange(ta as int, tb as int),
                        ),
                    ));
                }
            },
            None => {},
        }
        i += 1;
    }
    assert(ls.take(spans@.len() as int) =~= ls);
    r
}

/// The list items of the table of contents.
pub open spec fn toc_items(entries: Seq<(Seq<char>, Seq<char>)>) -> Seq<char>
    decreases entries.len(),
{
    if entries.len() == 0 {
        seq![]
    } else {
        toc_items(entries.drop_last()) + "  <li><a href=\"#"@ + entries.last().0 + "\">"@
            + spec_escape_html(entries.last().1) + "</a></li>\n"@
    }
}

/// The navigation block of a table of contents; empty without entries.
pub open spec fn spec_toc_html(entries: Seq<(Seq<char>, Seq<char>)>) -> Seq<char> {
    if entries.len() == 0 {
        seq![]
    } else {
        "<nav id=\"toc\">\n<h2>Contents</h2>\n<ul>\n"@ + toc_items(entries) + "</ul>\n</nav>\n"@
    }
}

/// The HTML of a table of contents.
pub fn build_toc_html(entries: &Vec<(String, String)>) -> (r: String)
    ensures
        r@ == spec_toc_html(pair_views(entries@)),
{
    if entries.len() == 0 {
        return String::new();
    }
    let ghost ev = pair_views(entries@);
    let mut out: Vec<char> = Vec::new();
    extend_str(&mut out, "<nav id=\"toc\">\n<h2>Contents</h2>\n<ul>\n");
    let ghost head = out@;
    let mut i: usize = 0;
    assert(ev.take(0) =~= Seq::<(Seq<char>, Seq<char>)>::empty());
    while i < entries.len()
        invariant
            ev == pair_views(entries@),
            i <= entries@.len(),
            out@ == head + toc_items(ev.take(i as int)),
        decreases entries@.len() - i,
    {
        assert(ev.take(i + 1).drop_last() =~= ev.take(i as int));
        assert(ev.take(i + 1).last() == ev[i as int]);
        extend_str(&mut out, "  <li><a href=\"#");
        extend_str(&mut out, entries[i].0.as_str());
        extend_str(&mut out, "\">");
        let title = to_chars(entries[i].1.as_str());
        push_escaped(&mut out, &title, 0, title.len());
        assert(title@.subrange(0, title@.len() as int) =~= title@);
        extend_str(&mut out, "</a></li>\n");
        assert(out@ =~= head + toc_items(ev.take(i + 1)));
        i += 1;
    }
    assert(ev.take(entries@.len() as int) =~= ev);
    extend_str(&mut out, "</ul>\n</nav>\n");
    assert(out@ =~= spec_toc_html(ev));
    string_of_all(&out)
}

/// Title used when the document has none.
pub const DEFAULT_TITLE: &'static str = "Distill Export";

/// The start of an HTML document, up to its title.
pub const DOC_HEAD: &'static str = "<!DOCTYPE html>\n<html lang=\"en\">\n<head>\n<meta charset=\"utf-8\">\n<meta name=\"viewport\" content=\"width=device-width, initial-scale=1\">\n<title>";

/// The opening tag of the table of contents.
pub const TOC_NAV_OPEN: &'static str = "<nav id=\"toc\">";

/// A complete HTML document: title, inline style, table of contents and body.
pub open spec fn spec_full_html(content: Seq<char>, title: Option<Seq<char>>) -> Seq<char> {
    let t = match title {
        Some(t) => t,
        None => DEFAULT_TITLE@,
    };
    DOC_HEAD@ + spec_escape_html(t) + "</title>\n<style>"@ + CSS@ + "</style>\n</head>\n<body>\n"@
        + spec_toc_html(spec_toc_entries(content)) + spec_md_to_html(content)
        + "</body>\n</html>\n"@
}

/// The link of a table of contents entry to the header with this slug.
pub open spec fn toc_link(slug: Seq<char>) -> Seq<char> {
    "<a href=\"#"@ + slug + "\">"@
}

proof fn lemma_toc_items_link(entries: Seq<(Seq<char>, Seq<char>)>, k: int)
    requires
        0 <= k < entries.len(),
    ensures
        contains_seq(toc_items(entries), toc_link(entries[k].0)),
    decreases entries.len(),
{
    reveal_strlit("  <li><a href=\"#");
    reveal_strlit("<a href=\"#");
    let init = entries.drop_last();
    let head = toc_items(init);
    let e = entries.last();
    let rest = "  <li><a href=\"#"@ + e.0 + "\">"@ + spec_escape_html(e.1) + "</a></li>\n"@;
    assert(toc_items(entries) == head + rest);
    if k == entries.len() - 1 {
        let link = toc_link(e.0);
        assert(rest.subrange(6, 6 + link.len() as int) =~= link);
        lemma_match_contains(rest, link, 6);
        lemma_contains_in_concat(head, rest, seq![], link);
        assert(head + rest + seq![] =~= head + rest);
    } else {
        assert(init[k] == entries[k]);
        lemma_toc_items_link(init, k);
        lemma_contains_in_concat(seq![], head, rest, toc_link(entries[k].0));
        assert(seq![] + head + rest =~= head + rest);
    }
}

// ---------------------------------------------------------------------------
// No navigation block but the table of contents
// ---------------------------------------------------------------------------

/// Text without `<`.
pub open spec fn lt_free(s: Seq<char>) -> bool {
    forall|i: int| 0 <= i < s.len() ==> #[trigger] s[i] != '<'
}

/// Every `<` of `s` opens a tag whose name does not begin with `n`: the next
/// character is in `s` and is not `n`.
pub open spec fn no_n_tag(s: Seq<char>) -> bool {
    forall|i: int| 0 <= i < s.len() && #[trigger] s[i] == '<' ==> i + 1 < s.len() && s[i + 1] != 'n'
}

proof fn lemma_lt_free_concat(a: Seq<char>, b: Seq<char>)
    requires
        lt_free(a),
        lt_free(b),
    ensures
        lt_free(a + b),
{
    assert forall|i: int| 0 <= i < (a + b).len() implies #[trigger] (a + b)[i] != '<' by {
        if i < a.len() {
            assert((a + b)[i] == a[i]);
        } else {
            assert((a + b)[i] == b[i - a.len()]);
        }
    }
}

proof fn lemma_no_n_tag_concat(a: Seq<char>, b: Seq<char>)
    requires
        no_n_tag(a),
        no_n_tag(b),
    ensures
        no_n_tag(a + b),
{
    let s = a + b;
    assert forall|i: int| 0 <= i < s.len() && #[trigger] s[i] == '<' implies i + 1 < s.len() && s[i + 1] != 'n' by {
        if i < a.len() {
            assert(s[i] == a[i]);
            assert(s[i + 1] == a[i + 1]);
        } else {
            assert(s[i] == b[i - a.len()]);
            assert(s[i + 1] == b[i + 1 - a.len()]);
        }
    }
}

/// The fixed pieces of markup hold no `<n`.
proof fn lemma_markup_pieces()
    ensures
        no_n_tag("</p>\n"@),
        no_n_tag("</ul>\n"@),
        no_n_tag("</ol>\n"@),
        no_n_tag("<ul>\n"@),
        no_n_tag("<ol>\n"@),
        no_n_tag("<p>"@),
        no_n_tag("\n"@),
        no_n_tag("<h"@),
        no_n_tag(" id=\""@),
        no_n_tag("\">"@),
        no_n_tag("</h"@),
        no_n_tag(">\n"@),
        no_n_tag("  <li>"@),
        no_n_tag("</li>\n"@),
        no_n_tag(DOC_HEAD@),
        no_n_tag("</title>\n<style>"@),
        lt_free(CSS@),
        no_n_tag("</style>\n</head>\n<body>\n"@),
        no_n_tag("</body>\n</html>\n"@),
{
    reveal_strlit("</p>\n");
    reveal_strlit("</ul>\n");
    reveal_strlit("</ol>\n");
    reveal_strlit("<ul>\n");
    reveal_strlit("<ol>\n");
    reveal_strlit("<p>");
    reveal_strlit("\n");
    reveal_strlit("<h");
    reveal_strlit(" id=\"");
    reveal_strlit("\">");
    reveal_strlit("</h");
    reveal_strlit(">\n");
    reveal_strlit("  <li>");
    reveal_strlit("</li>\n");
    reveal_strlit("<!DOCTYPE html>\n<html lang=\"en\">\n<head>\n<meta charset=\"utf-8\">\n<meta name=\"viewport\" content=\"width=device-width, initial-scale=1\">\n<title>");
    reveal_strlit("</title>\n<style>");
    reveal_strlit(r#"
body {
    font-family: Georgia, 'Times New Roman', serif;
    line-height: 1.6;
    max-width: 42em;
    margin: 2em auto;
    padding: 0 1em;
    color: #333;
}
h1, h2, h3 { margin-top: 1.5em; }
h1 { font-size: 1.8em; }
h2 { font-size: 1.4em; }
h3 { font-size: 1.2em; }
nav#toc { margin-bottom: 2em; }
nav#toc ul { list-style: none; padding-left: 0; }
nav#toc li { margin: 0.3em 0; }
"#);
    reveal_strlit("</style>\n</head>\n<body>\n");
    reveal_strlit("</body>\n</html>\n");
}

proof fn lemma_escaped_lt_free(s: Seq<char>)
    ensures
        lt_free(spec_escape_html(s)),
{
    lemma_escaped_has_no_markup(s);
}

proof fn lemma_decimal_lt_free(n: nat)
    ensures
        lt_free(decimal(n)),
    decreases n,
{
    if n >= 10 {
        lemma_decimal_lt_free(n / 10);
        let d = decimal(n / 10);
        let r = d.push(digit_char((n % 10) as int));
        assert forall|i: int| 0 <= i < r.len() implies #[trigger] r[i] != '<' by {
            if i < d.len() {
                assert(r[i] == d[i]);
            }
        }
    }
}

proof fn lemma_join_lt_free(parts: Seq<Seq<char>>, sep: Seq<char>)
    requires
        forall|i: int| 0 <= i < parts.len() ==> lt_free(#[trigger] parts[i]),
        lt_free(sep),
    ensures
        lt_free(join(parts, sep)),
    decreases parts.len(),
{
    if parts.len() == 1 {
        assert(lt_free(parts[0]));
    } else if parts.len() > 1 {
        let init = parts.drop_last();
        assert forall|i: int| 0 <= i < init.len() implies lt_free(#[trigger] init[i]) by {
            assert(init[i] == parts[i]);
        }
        lemma_join_lt_free(init, sep);
        assert(lt_free(parts.last()));
        lemma_lt_free_concat(join(init, sep), sep);
        lemma_lt_free_concat(join(init, sep) + sep, parts.last());
    }
}

proof fn lemma_slug_lt_free(text: Seq<char>)
    ensures
        lt_free(spec_slugify(text)),
{
    let m = text.map_values(|c: char| slug_char(c));
    assert forall|j: int| 0 <= j < m.len() implies #[trigger] m[j] != '<' by {
        let c = text[j];
        assert(m[j] == slug_char(c));
        if is_letter_or_digit(c) {
            if 65 <= (c as u32) <= 90 {
                assert((ascii_lower(c) as u32) == (c as u32) + 32);
            } else {
                assert(ascii_lower(c) == c);
            }
        }
    }
    let k = SepKind::Dash;
    let sp = token_spans(m, k);
    let ts = tokens(m, k);
    lemma_token_spans_shape(m, k);
    assert forall|i: int| 0 <= i < ts.len() implies lt_free(#[trigger] ts[i]) by {
        assert(ts[i] == m.subrange(sp[i].0, sp[i].1));
        assert forall|j: int| 0 <= j < ts[i].len() implies #[trigger] ts[i][j] != '<' by {
            assert(ts[i][j] == m[sp[i].0 + j]);
        }
    }
    reveal_strlit("-");
    lemma_join_lt_free(ts, "-"@);
}

proof fn lemma_header_no_n_tag(level: int, text: Seq<char>)
    ensures
        no_n_tag(header_html(level, text)),
{
    lemma_markup_pieces();
    let d = decimal(level as nat);
    let slug = spec_slugify(text);
    let esc = spec_escape_html(text);
    lemma_decimal_lt_free(level as nat);
    lemma_slug_lt_free(text);
    lemma_escaped_lt_free(text);
    let a1 = "<h"@ + d;
    lemma_no_n_tag_concat("<h"@, d);
    lemma_no_n_tag_concat(a1, " id=\""@);
    lemma_no_n_tag_concat(a1 + " id=\""@, slug);
    let a2 = a1 + " id=\""@ + slug;
    lemma_no_n_tag_concat(a2, "\">"@);
    lemma_no_n_tag_concat(a2 + "\">"@, esc);
    let a3 = a2 + "\">"@ + esc;
    lemma_no_n_tag_concat(a3, "</h"@);
    lemma_no_n_tag_concat(a3 + "</h"@, d);
    lemma_no_n_tag_concat(a3 + "</h"@ + d, ">\n"@);
}

proof fn lemma_item_no_n_tag(text: Seq<char>)
    ensures
        no_n_tag(item_html(text)),
{
    lemma_markup_pieces();
    lemma_escaped_lt_free(text);
    lemma_no_n_tag_concat("  <li>"@, spec_escape_html(text));
    lemma_no_n_tag_concat("  <li>"@ + spec_escape_html(text), "</li>\n"@);
}

proof fn lemma_close_no_n_tag(out: Seq<char>, block: Option<BlockState>)
    requires
        no_n_tag(out),
    ensures
        no_n_tag(close_spec(out, block)),
{
    lemma_markup_pieces();
    lemma_no_n_tag_concat(out, "</p>\n"@);
    lemma_no_n_tag_concat(out, "</ul>\n"@);
    lemma_no_n_tag_concat(out, "</ol>\n"@);
}

proof fn lemma_step_no_n_tag(st: HtmlState, line: Seq<char>)
    requires
        no_n_tag(st.out),
    ensures
        no_n_tag(html_step(st, line).out),
{
    lemma_markup_pieces();
    let t = trim(line);
    let c = close_spec(st.out, st.block);
    lemma_close_no_n_tag(st.out, st.block);
    if t.len() == 0 {
    } else if spec_html_header(t) is Some {
        let (level, text) = spec_html_header(t)->0;
        lemma_header_no_n_tag(level, text);
        lemma_no_n_tag_concat(c, header_html(level, text));
    } else if spec_unordered_item(t) is Some {
        lemma_no_n_tag_concat(c, "<ul>\n"@);
        lemma_item_no_n_tag(spec_unordered_item(t)->0);
        lemma_no_n_tag_concat(c + "<ul>\n"@, item_html(spec_unordered_item(t)->0));
        lemma_no_n_tag_concat(st.out, item_html(spec_unordered_item(t)->0));
    } else if spec_ordered_item(t) is Some {
        lemma_no_n_tag_concat(c, "<ol>\n"@);
        lemma_item_no_n_tag(spec_ordered_item(t)->0);
        lemma_no_n_tag_concat(c + "<ol>\n"@, item_html(spec_ordered_item(t)->0));
        lemma_no_n_tag_concat(st.out, item_html(spec_ordered_item(t)->0));
    } else {
        lemma_escaped_lt_free(t);
        lemma_no_n_tag_concat(c, "<p>"@);
        lemma_no_n_tag_concat(c + "<p>"@, spec_escape_html(t));
        lemma_no_n_tag_concat(st.out, "\n"@);
        lemma_no_n_tag_concat(st.out + "\n"@, spec_escape_html(t));
    }
}

proof fn lemma_scan_no_n_tag(ls: Seq<Seq<char>>)
    ensures
        no_n_tag(html_scan(ls).out),
    decreases ls.len(),
{
    if ls.len() > 0 {
        lemma_scan_no_n_tag(ls.drop_last());
        lemma_step_no_n_tag(html_scan(ls.drop_last()), ls.last());
    }
}

/// The rendered markdown holds no tag whose name begins with `n`, so no
/// navigation block.
proof fn lemma_body_no_n_tag(md: Seq<char>)
    ensures
        no_n_tag(spec_md_to_html(md)),
{
    let st = html_scan(lines(md));
    lemma_scan_no_n_tag(lines(md));
    lemma_close_no_n_tag(st.out, st.block);
}

proof fn lemma_title_in_page(content: Seq<char>, title: Option<Seq<char>>)
    ensures
        ({
            let t = match title {
                Some(t) => t,
                None => DEFAULT_TITLE@,
            };
            contains_seq(spec_full_html(content, title), "<title>"@ + spec_escape_html(t) + "</title>"@)
        }),
{
    let t = match title {
        Some(t) => t,
        None => DEFAULT_TITLE@,
    };
    let esc = spec_escape_html(t);
    let page = spec_full_html(content, title);
    reveal_strlit("<!DOCTYPE html>\n<html lang=\"en\">\n<head>\n<meta charset=\"utf-8\">\n<meta name=\"viewport\" content=\"width=device-width, initial-scale=1\">\n<title>");
    reveal_strlit("<title>");
    reveal_strlit("</title>");
    reveal_strlit("</title>\n<style>");
    let tt = "<title>"@ + esc + "</title>"@;
    let m = DOC_HEAD@.len() - 7;
    let rest = "</title>\n<style>"@ + CSS@ + "</style>\n</head>\n<body>\n"@
        + spec_toc_html(spec_toc_entries(content)) + spec_md_to_html(content) + "</body>\n</html>\n"@;
    assert(page =~= DOC_HEAD@ + esc + rest);
    assert(DOC_HEAD@.subrange(m, m + 7) =~= "<title>"@);
    assert(rest.subrange(0, 8) =~= "</title>"@);
    assert(page.subrange(m, m + tt.len()) =~= tt);
    lemma_match_contains(page, tt, m);
}

proof fn lemma_style_in_page(content: Seq<char>, title: Option<Seq<char>>)
    ensures
        contains_seq(spec_full_html(content, title), CSS@),
{
    let t = match title {
        Some(t) => t,
        None => DEFAULT_TITLE@,
    };
    let page = spec_full_html(content, title);
    let before = DOC_HEAD@ + spec_escape_html(t) + "</title>\n<style>"@;
    let after = "</style>\n</head>\n<body>\n"@ + spec_toc_html(spec_toc_entries(content))
        + spec_md_to_html(content) + "</body>\n</html>\n"@;
    assert(CSS@.subrange(0, CSS@.len() as int) =~= CSS@);
    lemma_match_contains(CSS@, CSS@, 0);
    lemma_contains_in_concat(before, CSS@, after, CSS@);
    assert(before + CSS@ + after =~= page);
}

proof fn lemma_nav_in_page(content: Seq<char>, title: Option<Seq<char>>)
    ensures
        contains_seq(spec_full_html(content, title), TOC_NAV_OPEN@) <==> spec_toc_entries(content).len() > 0,
{
    let entries = spec_toc_entries(content);
    let toc = spec_toc_html(entries);
    let body = spec_md_to_html(content);
    let tail = "</body>\n</html>\n"@;
    let t = match title {
        Some(t) => t,
        None => DEFAULT_TITLE@,
    };
    let head = DOC_HEAD@ + spec_escape_html(t) + "</title>\n<style>"@ + CSS@ + "</style>\n</head>\n<body>\n"@;
    let page = spec_full_html(content, title);
    reveal_strlit("<nav id=\"toc\">");
    let nav = TOC_NAV_OPEN@;
    if entries.len() > 0 {
        reveal_strlit("<nav id=\"toc\">\n<h2>Contents</h2>\n<ul>\n");
        let nav_head = "<nav id=\"toc\">\n<h2>Contents</h2>\n<ul>\n"@;
        assert(nav_head.subrange(0, nav.len() as int) =~= nav);
        lemma_match_contains(nav_head, nav, 0);
        lemma_contains_in_concat(seq![], nav_head, toc_items(entries) + "</ul>\n</nav>\n"@, nav);
        assert(seq![] + nav_head + (toc_items(entries) + "</ul>\n</nav>\n"@) =~= toc);
        lemma_contains_in_concat(head, toc, body + tail, nav);
        assert(head + toc + (body + tail) =~= page);
    } else {
        lemma_markup_pieces();
        lemma_escaped_lt_free(t);
        lemma_body_no_n_tag(content);
        lemma_no_n_tag_concat(DOC_HEAD@, spec_escape_html(t));
        lemma_no_n_tag_concat(DOC_HEAD@ + spec_escape_html(t), "</title>\n<style>"@);
        lemma_no_n_tag_concat(DOC_HEAD@ + spec_escape_html(t) + "</title>\n<style>"@, CSS@);
        lemma_no_n_tag_concat(
            DOC_HEAD@ + spec_escape_html(t) + "</title>\n<style>"@ + CSS@,
            "</style>\n</head>\n<body>\n"@,
        );
        lemma_no_n_tag_concat(head, body);
        lemma_no_n_tag_concat(head + body, tail);
        assert(toc =~= Seq::<char>::empty());
        assert(page =~= head + body + tail);
        if contains_seq(page, nav) {
            lemma_first_match(page, nav, 0);
            let m = first_match_from(page, nav, 0);
            assert(page.subrange(m, m + nav.len()) == nav);
            assert(page[m] == nav[0]);
            assert(page[m + 1] == nav[1]);
        }
    }
}

proof fn lemma_links_in_page(content: Seq<char>, title: Option<Seq<char>>)
    ensures
        ({
            let entries = spec_toc_entries(content);
            let page = spec_full_html(content, title);
            forall|k: int|
                0 <= k < entries.len() ==> contains_seq(page, toc_link(#[trigger] entries[k].0))
                    && contains_seq(page, header_html(2, entries[k].1)) && entries[k].0
                    == spec_slugify(entries[k].1)
        }),
{
    let entries = spec_toc_entries(content);
    let toc = spec_toc_html(entries);
    let body = spec_md_to_html(content);
    let tail = "</body>\n</html>\n"@;
    let t = match title {
        Some(t) => t,
        None => DEFAULT_TITLE@,
    };
    let head = DOC_HEAD@ + spec_escape_html(t) + "</title>\n<style>"@ + CSS@ + "</style>\n</head>\n<body>\n"@;
    let page = spec_full_html(content, title);
    assert(page =~= head + toc + body + tail);
    reveal_strlit("<nav id=\"toc\">\n<h2>Contents</h2>\n<ul>\n");
    assert forall|k: int| 0 <= k < entries.len() implies contains_seq(page, toc_link(#[trigger] entries[k].0))
        && contains_seq(page, header_html(2, entries[k].1)) && entries[k].0 == spec_slugify(entries[k].1) by {
        let link = toc_link(entries[k].0);
        lemma_toc_items_link(entries, k);
        let nav_head = "<nav id=\"toc\">\n<h2>Contents</h2>\n<ul>\n"@;
        let nav_tail = "</ul>\n</nav>\n"@;
        lemma_contains_in_concat(nav_head, toc_items(entries), nav_tail, link);
        lemma_contains_in_concat(head, toc, body + tail, link);
        assert(head + toc + (body + tail) =~= page);
        lemma_toc_links_resolve(content, k);
        lemma_contains_in_concat(head + toc, body, tail, header_html(2, entries[k].1));
    }
}

/// A full page is, in order: the head with the escaped title (or the default
/// title) and the style; the table of contents, present exactly when the text
/// has `##` headers; the body; the end of the document. The page holds a
/// `<nav id="toc">` exactly when the text has such headers: the body never
/// opens one, whatever the text says. The escaped title stands between
/// `<title>` and `</title>`, and the style sheet is inlined. Each entry of the table
/// links with its slug, and the body carries that slug as the id of the
/// entry's header.
#[verifier::spinoff_prover]
pub proof fn lemma_full_page(content: Seq<char>, title: Option<Seq<char>>)
    ensures
        ({
            let entries = spec_toc_entries(content);
            let toc = spec_toc_html(entries);
            let t = match title {
                Some(t) => t,
                None => DEFAULT_TITLE@,
            };
            let head = DOC_HEAD@ + spec_escape_html(t) + "</title>\n<style>"@ + CSS@
                + "</style>\n</head>\n<body>\n"@;
            let page = spec_full_html(content, title);
            &&& page == head + toc + spec_md_to_html(content) + "</body>\n</html>\n"@
            &&& (toc.len() > 0 <==> entries.len() > 0)
            &&& contains_seq(page, "<title>"@ + spec_escape_html(t) + "</title>"@)
            &&& contains_seq(page, CSS@)
            &&& (contains_seq(page, TOC_NAV_OPEN@) <==> entries.len() > 0)
            &&& forall|k: int|
                0 <= k < entries.len() ==> contains_seq(page, toc_link(#[trigger] entries[k].0))
                    && contains_seq(page, header_html(2, entries[k].1)) && entries[k].0
                    == spec_slugify(entries[k].1)
        }),
{
    let entries = spec_toc_entries(content);
    let toc = spec_toc_html(entries);
    let body = spec_md_to_html(content);
    let tail = "</body>\n</html>\n"@;
    let t = match title {
        Some(t) => t,
        None => DEFAULT_TITLE@,
    };
    let head = DOC_HEAD@ + spec_escape_html(t) + "</title>\n<style>"@ + CSS@ + "</style>\n</head>\n<body>\n"@;
    let page = spec_full_html(content, title);
    assert(page =~= head + toc + body + tail);
    reveal_strlit("<nav id=\"toc\">\n<h2>Contents</h2>\n<ul>\n");
    lemma_links_in_page(content, title);
    lemma_title_in_page(content, title);
    lemma_style_in_page(content, title);
    lemma_nav_in_page(content, title);
}

/// The view of an optional string slice.
pub open spec fn opt_view(o: Option<&str>) -> Option<Seq<char>> {
    match o {
        Some(s) => Some(s@),
        None => None,
    }
}

/// A complete HTML document for the distilled text.
pub fn build_full_html(content: &str, title: Option<&str>) -> (r: String)
    ensures
        r@ == spec_full_html(content@, opt_view(title)),
{
    let title_text = match title {
        Some(t) => t,
        None => DEFAULT_TITLE,
    };
    let entries = extract_toc_entries(content);
    let toc = build_toc_html(&entries);
    let body = md_to_html_fragment(content);
    let mut out: Vec<char> = Vec::new();
    extend_str(&mut out, DOC_HEAD);
    let tv = to_chars(title_text);
    push_escaped(&mut out, &tv, 0, tv.len());
    assert(tv@.subrange(0, tv@.len() as int) =~= tv@);
    extend_str(&mut out, "</title>\n<style>");
    extend_str(&mut out, CSS);
    extend_str(&mut out, "</style>\n</head>\n<body>\n");
    extend_str(&mut out, toc.as_str());
    extend_str(&mut out, body.as_str());
    extend_str(&mut out, "</body>\n</html>\n");
    assert(out@ =~= spec_full_html(content@, opt_view(title)));
    string_of_all(&out)
}

} // verus!
