//! Splitting a document into chunks along its headers, paragraphs and words.
pub mod chunk;

pub use chunk::{Chunk, ChunkView};
use crate::mode::{estimate_tokens_chars, spec_estimate_tokens};
use crate::text::{
    count_leading, string_of_all, extend_all, extend_from, lemma_token_spans_shape, split_pat, split_pat_spans_of,
    lemma_joined_word_count, lemma_words_are_words, word_count, is_ws, has_text, lemma_trim_has_text,
    lemma_concat_has_text, lemma_join_has_text, all_words, all_ws, lemma_words_of_join, lemma_words_trim,
    lemma_words_around_ws, lemma_all_words_concat, lemma_all_words_of_words, lemma_all_words_single, lemma_first_match,
    first_match_from, split_pat_spans,
    token_spans, token_spans_of, words, SepKind, int_spans, join, join_spans, line_spans, line_spans_of, lines, spans_view, spans_within,
    string_of, string_views, to_chars, trim, trim_chars, trim_span, trim_start, trim_start_index,
};
use vstd::prelude::*;

verus! {

broadcast use vstd::seq_lib::group_seq_properties;

/// Above this many estimated tokens a section is split.
pub const MAX_CHUNK_TOKENS: usize = 5000;

/// Below this many estimated tokens a chunk is merged into its neighbour.
pub const MIN_CHUNK_TOKENS: usize = 500;

/// Words per chunk when a paragraph is split by words: `MAX_CHUNK_TOKENS / 1.3`.
pub const WORDS_PER_CHUNK: usize = 3846;

// ---------------------------------------------------------------------------
// Headers
// ---------------------------------------------------------------------------

/// A markdown header line: its level (1 to 6 `#`s after leading whitespace)
/// and its title (the rest, trimmed, not empty).
pub open spec fn spec_parse_header(line: Seq<char>) -> Option<(int, Seq<char>)> {
    let t = trim_start(line);
    let level = count_leading(t, '#');
    let rest = trim(t.skip(level as int));
    if 1 <= level <= 6 && rest.len() > 0 {
        Some((level as int, rest))
    } else {
        None
    }
}

/// The header in `v[lo..hi]`, as its level and the span of its title.
fn parse_header_span(v: &Vec<char>, lo: usize, hi: usize) -> (r: Option<(usize, usize, usize)>)
    requires
        lo <= hi <= v@.len(),
    ensures
        match r {
            Some((level, a, b)) => lo <= a <= b <= hi && spec_parse_header(
                v@.subrange(lo as int, hi as int),
            ) == Some((level as int, v@.subrange(a as int, b as int))),
            None => spec_parse_header(v@.subrange(lo as int, hi as int)) is None,
        },
{
    let a = trim_start_index(v, lo, hi);
    let ghost t = v@.subrange(a as int, hi as int);
    let mut j = a;
    while j < hi && v[j] == '#'
        invariant
            a <= j <= hi <= v@.len(),
            t == v@.subrange(a as int, hi as int),
            count_leading(t, '#') == (j - a) + count_leading(v@.subrange(j as int, hi as int), '#'),
        decreases hi - j,
    {
        assert(v@.subrange(j as int, hi as int).drop_first() =~= v@.subrange(j + 1, hi as int));
        j += 1;
    }
    let level = j - a;
    assert(t.skip(level as int) =~= v@.subrange(j as int, hi as int));
    let (b, e) = trim_span(v, j, hi);
    if 1 <= level && level <= 6 && e > b {
        Some((level, b, e))
    } else {
        None
    }
}

/// Parses a markdown header line into its level and title.
pub fn parse_header(line: &str) -> (r: Option<(usize, String)>)
    ensures
        match r {
            Some((level, title)) => spec_parse_header(line@) == Some((level as int, title@)),
            None => spec_parse_header(line@) is None,
        },
{
    let v = to_chars(line);
    assert(v@.subrange(0, v@.len() as int) =~= v@);
    match parse_header_span(&v, 0, v.len()) {
        Some((level, a, b)) => Some((level, string_of(&v, a, b))),
        None => None,
    }
}


// ---------------------------------------------------------------------------
// Sections
// ---------------------------------------------------------------------------

/// The text under one header, with the titles of the headers above it.
pub struct Section {
    pub header_path: Vec<String>,
    pub content: Vec<char>,
}

/// The mathematical value of a section.
pub struct SectionView {
    pub header_path: Seq<Seq<char>>,
    pub content: Seq<char>,
}

/// The view of a section.
pub open spec fn section_view(s: Section) -> SectionView {
    SectionView { header_path: string_views(s.header_path@), content: s.content@ }
}

/// The views of sections.
pub open spec fn section_views(s: Seq<Section>) -> Seq<SectionView> {
    s.map_values(|x: Section| section_view(x))
}

/// The state while reading the document line by line.
pub struct HeaderScan {
    /// Sections completed so far.
    pub sections: Seq<SectionView>,
    /// Open headers as (level, title), outermost first.
    pub stack: Seq<(int, Seq<char>)>,
    /// Lines read since the last header.
    pub lines: Seq<Seq<char>>,
    /// Titles of the open headers when the last header was read.
    pub path: Seq<Seq<char>>,
}

/// `sections` with the pending lines added as a section, if they hold any text.
pub open spec fn flush_section(
    sections: Seq<SectionView>,
    path: Seq<Seq<char>>,
    lines: Seq<Seq<char>>,
) -> Seq<SectionView> {
    let content = trim(join(lines, "\n"@));
    if content.len() > 0 {
        sections.push(SectionView { header_path: path, content })
    } else {
        sections
    }
}

/// The header stack without the headers at `level` or deeper at its top.
pub open spec fn pop_deeper(stack: Seq<(int, Seq<char>)>, level: int) -> Seq<(int, Seq<char>)>
    decreases stack.len(),
{
    if stack.len() > 0 && stack.last().0 >= level {
        pop_deeper(stack.drop_last(), level)
    } else {
        stack
    }
}

/// The titles of the open headers.
pub open spec fn stack_titles(stack: Seq<(int, Seq<char>)>) -> Seq<Seq<char>> {
    stack.map_values(|e: (int, Seq<char>)| e.1)
}

/// Reading one line: a header closes the pending section and updates the stack;
/// any other line is added to the pending section.
pub open spec fn header_step(st: HeaderScan, line: Seq<char>) -> HeaderScan {
    match spec_parse_header(line) {
        Some((level, title)) => {
            let stack = pop_deeper(st.stack, level).push((level, title));
            HeaderScan {
                sections: flush_section(st.sections, st.path, st.lines),
                stack,
                lines: seq![],
                path: stack_titles(stack),
            }
        },
        None => HeaderScan {
            sections: st.sections,
            stack: st.stack,
            lines: st.lines.push(line),
            path: st.path,
        },
    }
}

/// The state after reading the given lines.
pub open spec fn header_scan(lines: Seq<Seq<char>>) -> HeaderScan
    decreases lines.len(),
{
    if lines.len() == 0 {
        HeaderScan { sections: seq![], stack: seq![], lines: seq![], path: seq![] }
    } else {
        header_step(header_scan(lines.drop_last()), lines.last())
    }
}

/// The sections of a document: the text between markdown headers, trimmed, with
/// the path of enclosing header titles; sections without text are dropped.
pub open spec fn spec_split_by_headers(text: Seq<char>) -> Seq<SectionView> {
    let st = header_scan(lines(text));
    flush_section(st.sections, st.path, st.lines)
}

/// The view of a header stack.
pub open spec fn stack_view(stack: Seq<(usize, String)>) -> Seq<(int, Seq<char>)> {
    stack.map_values(|e: (usize, String)| (e.0 as int, e.1@))
}

/// A copy of a vector of strings.
pub fn clone_strings(v: &Vec<String>) -> (r: Vec<String>)
    ensures
        string_views(r@) == string_views(v@),
{
    let mut r: Vec<String> = Vec::new();
    let mut i: usize = 0;
    while i < v.len()
        invariant
            i <= v@.len(),
            string_views(r@) == string_views(v@).take(i as int),
        decreases v@.len() - i,
    {
        let ghost old_r = string_views(r@);
        let c = v[i].clone();
        r.push(c);
        assert(string_views(r@) =~= old_r.push(v@[i as int]@));
        assert(string_views(r@) =~= string_views(v@).take(i + 1));
        i += 1;
    }
    assert(string_views(v@).take(v@.len() as int) =~= string_views(v@));
    r
}

/// The titles of the header stack.
fn titles_of(stack: &Vec<(usize, String)>) -> (r: Vec<String>)
    ensures
        string_views(r@) == stack_titles(stack_view(stack@)),
{
    let mut r: Vec<String> = Vec::new();
    let mut i: usize = 0;
    while i < stack.len()
        invariant
            i <= stack@.len(),
            string_views(r@) == stack_titles(stack_view(stack@)).take(i as int),
        decreases stack@.len() - i,
    {
        let ghost old_r = string_views(r@);
        let c = stack[i].1.clone();
        r.push(c);
        assert(string_views(r@) =~= old_r.push(stack@[i as int].1@));
        assert(string_views(r@) =~= stack_titles(stack_view(stack@)).take(i + 1));
        i += 1;
    }
    assert(stack_titles(stack_view(stack@)).take(stack@.len() as int) =~= stack_titles(
        stack_view(stack@),
    ));
    r
}

/// Adds the pending lines to `sections` as a section, if they hold any text.
fn flush_into(
    sections: &mut Vec<Section>,
    path: &Vec<String>,
    v: &Vec<char>,
    pending: &Vec<(usize, usize)>,
    nl: &Vec<char>,
)
    requires
        nl@ == "\n"@,
        spans_within(int_spans(pending@), v@.len() as int),
    ensures
        section_views(final(sections)@) == flush_section(
            section_views(old(sections)@),
            string_views(path@),
            spans_view(v@, int_spans(pending@)),
        ),
{
    let joined = join_spans(v, pending, 0, pending.len(), nl);
    assert(int_spans(pending@).subrange(0, pending@.len() as int) =~= int_spans(pending@));
    let content = trim_chars(&joined);
    if content.len() > 0 {
        let ghost old_views = section_views(sections@);
        sections.push(Section { header_path: clone_strings(path), content });
        assert(section_views(sections@) =~= old_views.push(
            SectionView {
                header_path: string_views(path@),
                content: trim(join(spans_view(v@, int_spans(pending@)), "\n"@)),
            },
        ));
    }
}

/// Splits a document into sections at its markdown headers.
pub fn split_by_headers(v: &Vec<char>) -> (r: Vec<Section>)
    ensures
        section_views(r@) == spec_split_by_headers(v@),
{
    let lines_sp = line_spans_of(v);
    let nl = to_chars("\n");
    let mut sections: Vec<Section> = Vec::new();
    let mut stack: Vec<(usize, String)> = Vec::new();
    let mut pending: Vec<(usize, usize)> = Vec::new();
    let mut path: Vec<String> = Vec::new();
    let ghost all = lines(v@);
    let mut i: usize = 0;
    assert(spans_view(v@, int_spans(pending@)) =~= Seq::<Seq<char>>::empty());
    assert(all.take(0) =~= Seq::<Seq<char>>::empty());
    while i < lines_sp.len()
        invariant
            nl@ == "\n"@,
            all == lines(v@),
            all == spans_view(v@, int_spans(lines_sp@)),
            int_spans(lines_sp@) == line_spans(v@),
            spans_within(int_spans(lines_sp@), v@.len() as int),
            i <= lines_sp@.len(),
            spans_within(int_spans(pending@), v@.len() as int),
            section_views(sections@) == header_scan(all.take(i as int)).sections,
            stack_view(stack@) == header_scan(all.take(i as int)).stack,
            spans_view(v@, int_spans(pending@)) == header_scan(all.take(i as int)).lines,
            string_views(path@) == header_scan(all.take(i as int)).path,
        decreases lines_sp@.len() - i,
    {
        let (lo, hi) = lines_sp[i];
        assert(int_spans(lines_sp@)[i as int] == (lo as int, hi as int));
        let ghost line = v@.subrange(lo as int, hi as int);
        assert(all.take(i + 1).drop_last() =~= all.take(i as int));
        assert(all.take(i + 1).last() == line);
        let ghost st = header_scan(all.take(i as int));
        match parse_header_span(v, lo, hi) {
            Some((level, a, b)) => {
                flush_into(&mut sections, &path, v, &pending, &nl);
                pending = Vec::new();
                assert(spans_view(v@, int_spans(pending@)) =~= Seq::<Seq<char>>::empty());
                while stack.len() > 0 && stack[stack.len() - 1].0 >= level
                    invariant
                        pop_deeper(stack_view(stack@), level as int) == pop_deeper(st.stack, level as int),
                    decreases stack@.len(),
                {
                    assert(stack_view(stack@).drop_last() =~= stack_view(stack@.drop_last()));
                    stack.pop();
                }
                let title = string_of(v, a, b);
                let ghost popped = stack_view(stack@);
                stack.push((level, title));
                assert(stack_view(stack@) =~= popped.push((level as int, v@.subrange(a as int, b as int))));
                path = titles_of(&stack);
            },
            None => {
                let ghost old_pending = spans_view(v@, int_spans(pending@));
                let ghost old_spans = int_spans(pending@);
                pending.push((lo, hi));
                assert(int_spans(pending@) =~= old_spans.push((lo as int, hi as int)));
                assert(spans_view(v@, int_spans(pending@)) =~= old_pending.push(line));
            },
        }
        i += 1;
    }
    assert(all.take(lines_sp@.len() as int) =~= all);
    flush_into(&mut sections, &path, v, &pending, &nl);
    sections
}


// ---------------------------------------------------------------------------
// Paragraphs and words
// ---------------------------------------------------------------------------

/// The views of character vectors.
pub open spec fn char_views(v: Seq<Vec<char>>) -> Seq<Seq<char>> {
    v.map_values(|x: Vec<char>| x@)
}

/// The words of `text` in runs of `WORDS_PER_CHUNK`, each run joined by spaces.
pub open spec fn word_chunks(text: Seq<char>) -> Seq<Seq<char>> {
    let w = words(text);
    let n = w.len() as int;
    let per = WORDS_PER_CHUNK as int;
    Seq::new(
        ((n + per - 1) / per) as nat,
        |i: int| join(w.subrange(i * per, if (i + 1) * per < n { (i + 1) * per } else { n }), " "@),
    )
}

/// Splits `v` into runs of at most `WORDS_PER_CHUNK` words.
pub fn split_by_words(v: &Vec<char>) -> (r: Vec<Vec<char>>)
    ensures
        char_views(r@) == word_chunks(v@),
{
    let spans = token_spans_of(v, SepKind::Whitespace);
    proof {
        lemma_token_spans_shape(v@, SepKind::Whitespace);
    }
    let sp = to_chars(" ");
    let n = spans.len();
    let ghost w = words(v@);
    let ghost total = ((n + 3845) / 3846) as nat;
    assert(word_chunks(v@).len() == total);
    let mut r: Vec<Vec<char>> = Vec::new();
    let mut pos: usize = 0;
    while pos < n
        invariant
            n == spans@.len(),
            int_spans(spans@) == token_spans(v@, SepKind::Whitespace),
            spans_within(int_spans(spans@), v@.len() as int),
            w == spans_view(v@, int_spans(spans@)),
            w.len() == n,
            total == (n + 3845) / 3846,
            word_chunks(v@).len() == total,
            sp@ == " "@,
            pos < n ==> pos == r@.len() * 3846,
            pos <= n,
            pos < n ==> r@.len() < total,
            pos == n ==> r@.len() == total,
            char_views(r@) == word_chunks(v@).take(r@.len() as int),
        decreases n - pos,
    {
        let end = if n - pos > WORDS_PER_CHUNK { pos + WORDS_PER_CHUNK } else { n };
        let piece = join_spans(v, &spans, pos, end, &sp);
        assert(spans_view(v@, int_spans(spans@).subrange(pos as int, end as int)) =~= w.subrange(
            pos as int,
            end as int,
        ));
        let ghost k = r@.len() as int;
        assert(word_chunks(v@)[k] == join(
            w.subrange(k * 3846, if (k + 1) * 3846 < n { (k + 1) * 3846 } else { n as int }),
            " "@,
        ));
        assert(piece@ == word_chunks(v@)[k]);
        let ghost old_r = char_views(r@);
        r.push(piece);
        assert(char_views(r@) =~= old_r.push(piece@));
        assert(char_views(r@) =~= word_chunks(v@).take(k + 1));
        proof {
            if end < n {
                assert(k + 1 < total) by (nonlinear_arith)
                    requires
                        (k + 1) * 3846 < n,
                        total == (n + 3845) / 3846,
                ;
            } else {
                assert(k + 1 == total) by (nonlinear_arith)
                    requires
                        k * 3846 < n,
                        n <= (k + 1) * 3846,
                        total == (n + 3845) / 3846,
                ;
            }
        }
        pos = end;
    }
    assert(word_chunks(v@).take(total as int) =~= word_chunks(v@));
    r
}

/// The state while reading paragraphs: finished chunks and the text gathered so far.
pub struct ParaScan {
    pub chunks: Seq<Seq<char>>,
    pub current: Seq<char>,
}

/// Reading one paragraph (trimmed; empty ones are skipped). Paragraphs gather
/// into the current text while it stays within `MAX_CHUNK_TOKENS`; a paragraph
/// too large on its own is split by words.
pub open spec fn para_step(st: ParaScan, para: Seq<char>) -> ParaScan {
    let p = trim(para);
    let max = MAX_CHUNK_TOKENS as int;
    if p.len() == 0 {
        st
    } else if spec_estimate_tokens(p) > max && st.current.len() == 0 {
        ParaScan { chunks: st.chunks + word_chunks(p), current: st.current }
    } else {
        let combined = if st.current.len() == 0 {
            p
        } else {
            st.current + "\n\n"@ + p
        };
        if spec_estimate_tokens(combined) > max && st.current.len() > 0 {
            if spec_estimate_tokens(p) > max {
                ParaScan { chunks: st.chunks.push(st.current) + word_chunks(p), current: seq![] }
            } else {
                ParaScan { chunks: st.chunks.push(st.current), current: p }
            }
        } else {
            ParaScan { chunks: st.chunks, current: combined }
        }
    }
}

/// The state after reading the given paragraphs.
pub open spec fn para_scan(paras: Seq<Seq<char>>) -> ParaScan
    decreases paras.len(),
{
    if paras.len() == 0 {
        ParaScan { chunks: seq![], current: seq![] }
    } else {
        para_step(para_scan(paras.drop_last()), paras.last())
    }
}

/// The chunk texts of a section: its blank-line-separated paragraphs gathered
/// up to `MAX_CHUNK_TOKENS`, and paragraphs larger than that split by words.
pub open spec fn spec_split_by_paragraphs(content: Seq<char>) -> Seq<Seq<char>> {
    let st = para_scan(split_pat(content, "\n\n"@));
    if st.current.len() > 0 {
        st.chunks.push(st.current)
    } else {
        st.chunks
    }
}

/// Appends the word runs of `p` to `out`.
fn push_word_chunks(out: &mut Vec<Vec<char>>, p: &Vec<char>)
    ensures
        char_views(final(out)@) == char_views(old(out)@) + word_chunks(p@),
{
    let mut parts = split_by_words(p);
    let ghost old_out = char_views(out@);
    let ghost parts_v = char_views(parts@);
    let ghost start = out@.len();
    let mut i: usize = 0;
    while i < parts.len()
        invariant
            char_views(parts@) == parts_v,
            parts_v == word_chunks(p@),
            i <= parts@.len(),
            out@.len() == start + i,
            char_views(out@) == old_out + parts_v.take(i as int),
        decreases parts@.len() - i,
    {
        let ghost before = char_views(out@);
        let piece = parts[i].clone();
        assert(piece@ == parts_v[i as int]);
        out.push(piece);
        assert(char_views(out@) =~= before.push(parts_v[i as int]));
        assert(parts_v.take(i + 1) =~= parts_v.take(i as int).push(parts_v[i as int]));
        i += 1;
    }
    assert(parts_v.take(parts@.len() as int) =~= parts_v);
}

/// `a`, a blank line, then `b`.
fn concat_blank(a: &Vec<char>, b: &Vec<char>, sep: &Vec<char>) -> (r: Vec<char>)
    requires
        sep@ == "\n\n"@,
    ensures
        r@ == a@ + "\n\n"@ + b@,
{
    let mut r: Vec<char> = Vec::new();
    extend_all(&mut r, a);
    extend_all(&mut r, sep);
    extend_all(&mut r, b);
    assert(r@ =~= a@ + "\n\n"@ + b@);
    r
}

/// Splits the text of a section into chunk texts along paragraphs.
pub fn split_by_paragraphs(content: &Vec<char>) -> (r: Vec<Vec<char>>)
    ensures
        char_views(r@) == spec_split_by_paragraphs(content@),
{
    let sep = to_chars("\n\n");
    proof {
        reveal_strlit("\n\n");
    }
    let spans = split_pat_spans_of(content, &sep);
    let ghost paras = spans_view(content@, int_spans(spans@));
    let mut chunks: Vec<Vec<char>> = Vec::new();
    let mut current: Vec<char> = Vec::new();
    let mut i: usize = 0;
    assert(paras.take(0) =~= Seq::<Seq<char>>::empty());
    assert(char_views(chunks@) =~= Seq::<Seq<char>>::empty());
    while i < spans.len()
        invariant
            sep@ == "\n\n"@,
            paras == spans_view(content@, int_spans(spans@)),
            paras == split_pat(content@, "\n\n"@),
            spans_within(int_spans(spans@), content@.len() as int),
            i <= spans@.len(),
            char_views(chunks@) == para_scan(paras.take(i as int)).chunks,
            current@ == para_scan(paras.take(i as int)).current,
        decreases spans@.len() - i,
    {
        let (lo, hi) = spans[i];
        assert(int_spans(spans@)[i as int] == (lo as int, hi as int));
        assert(paras.take(i + 1).drop_last() =~= paras.take(i as int));
        assert(paras.take(i + 1).last() == content@.subrange(lo as int, hi as int));
        let (a, b) = trim_span(content, lo, hi);
        let mut p: Vec<char> = Vec::new();
        extend_from(&mut p, content, a, b);
        assert(p@ =~= content@.subrange(a as int, b as int));
        let ghost st = para_scan(paras.take(i as int));
        if p.len() == 0 {
        } else {
            let pt = estimate_tokens_chars(&p);
            if pt > MAX_CHUNK_TOKENS && current.len() == 0 {
                push_word_chunks(&mut chunks, &p);
            } else {
                let combined = if current.len() == 0 {
                    p.clone()
                } else {
                    concat_blank(&current, &p, &sep)
                };
                let ct = estimate_tokens_chars(&combined);
                if ct > MAX_CHUNK_TOKENS && current.len() > 0 {
                    let ghost before = char_views(chunks@);
                    let cur = current.clone();
                    chunks.push(cur);
                    assert(char_views(chunks@) =~= before.push(st.current));
                    if pt > MAX_CHUNK_TOKENS {
                        push_word_chunks(&mut chunks, &p);
                        current = Vec::new();
                        assert(current@ =~= Seq::<char>::empty());
                    } else {
                        current = p;
                    }
                } else {
                    current = combined;
                }
            }
        }
        i += 1;
    }
    assert(paras.take(spans@.len() as int) =~= paras);
    if current.len() > 0 {
        let ghost before = char_views(chunks@);
        chunks.push(current);
        assert(char_views(chunks@) =~= before.push(para_scan(paras).current));
    }
    chunks
}


// ---------------------------------------------------------------------------
// Chunks before numbering
// ---------------------------------------------------------------------------

/// A chunk before it is numbered, with its token estimate.
pub struct Piece {
    pub header_path: Vec<String>,
    pub content: Vec<char>,
    pub tokens: usize,
}

/// The mathematical value of a piece.
pub struct PieceView {
    pub header_path: Seq<Seq<char>>,
    pub content: Seq<char>,
}

/// The view of a piece.
pub open spec fn piece_view(p: Piece) -> PieceView {
    PieceView { header_path: string_views(p.header_path@), content: p.content@ }
}

/// The views of pieces.
pub open spec fn piece_views(s: Seq<Piece>) -> Seq<PieceView> {
    s.map_values(|p: Piece| piece_view(p))
}

/// Every piece carries the token estimate of its text.
pub open spec fn pieces_wf(s: Seq<Piece>) -> bool {
    forall|i: int| 0 <= i < s.len() ==> (#[trigger] s[i]).tokens == spec_estimate_tokens(s[i].content@)
}

/// The chunks of one section: the whole section if it is small enough, else
/// its paragraph chunks.
pub open spec fn section_pieces(sec: SectionView) -> Seq<PieceView> {
    if spec_estimate_tokens(sec.content) > MAX_CHUNK_TOKENS as int {
        spec_split_by_paragraphs(sec.content).map_values(
            |c: Seq<char>| PieceView { header_path: sec.header_path, content: c },
        )
    } else {
        seq![PieceView { header_path: sec.header_path, content: sec.content }]
    }
}

/// The pieces of all sections, in order.
pub open spec fn all_pieces(secs: Seq<SectionView>) -> Seq<PieceView>
    decreases secs.len(),
{
    if secs.len() == 0 {
        seq![]
    } else {
        all_pieces(secs.drop_last()) + section_pieces(secs.last())
    }
}

fn make_piece(path: &Vec<String>, content: Vec<char>) -> (p: Piece)
    ensures
        piece_view(p) == (PieceView { header_path: string_views(path@), content: content@ }),
        p.tokens == spec_estimate_tokens(p.content@),
{
    let tokens = estimate_tokens_chars(&content);
    Piece { header_path: clone_strings(path), content, tokens }
}

fn push_piece(out: &mut Vec<Piece>, p: Piece)
    requires
        pieces_wf(old(out)@),
        p.tokens == spec_estimate_tokens(p.content@),
    ensures
        pieces_wf(final(out)@),
        piece_views(final(out)@) == piece_views(old(out)@).push(piece_view(p)),
{
    let ghost before = out@;
    out.push(p);
    assert(piece_views(out@) =~= piece_views(before).push(piece_view(p)));
    assert(forall|i: int| 0 <= i < before.len() ==> out@[i] == before[i]);
}

/// The chunks of all sections, in order.
fn pieces_of_sections(secs: &Vec<Section>) -> (r: Vec<Piece>)
    ensures
        pieces_wf(r@),
        piece_views(r@) == all_pieces(section_views(secs@)),
{
    let mut r: Vec<Piece> = Vec::new();
    let mut i: usize = 0;
    let ghost sv = section_views(secs@);
    while i < secs.len()
        invariant
            sv == section_views(secs@),
            i <= secs@.len(),
            pieces_wf(r@),
            piece_views(r@) == all_pieces(sv.take(i as int)),
        decreases secs@.len() - i,
    {
        assert(sv.take(i + 1).drop_last() =~= sv.take(i as int));
        let sec = &secs[i];
        let ghost secv = sv[i as int];
        assert(secv == section_view(secs@[i as int]));
        let ghost base = piece_views(r@);
        let tokens = estimate_tokens_chars(&sec.content);
        if tokens > MAX_CHUNK_TOKENS {
            let parts = split_by_paragraphs(&sec.content);
            let ghost pv = char_views(parts@);
            let mut j: usize = 0;
            while j < parts.len()
                invariant
                    pv == char_views(parts@),
                    pv == spec_split_by_paragraphs(secv.content),
                    secv.header_path == string_views(sec.header_path@),
                    j <= parts@.len(),
                    pieces_wf(r@),
                    piece_views(r@) == base + pv.take(j as int).map_values(
                        |c: Seq<char>| PieceView { header_path: secv.header_path, content: c },
                    ),
                decreases parts@.len() - j,
            {
                let piece = make_piece(&sec.header_path, parts[j].clone());
                push_piece(&mut r, piece);
                assert(pv.take(j + 1) =~= pv.take(j as int).push(pv[j as int]));
                assert(piece_views(r@) =~= base + pv.take(j + 1).map_values(
                    |c: Seq<char>| PieceView { header_path: secv.header_path, content: c },
                ));
                j += 1;
            }
            assert(pv.take(parts@.len() as int) =~= pv);
        } else {
            let piece = make_piece(&sec.header_path, sec.content.clone());
            push_piece(&mut r, piece);
        }
        assert(piece_views(r@) =~= all_pieces(sv.take(i + 1)));
        i += 1;
    }
    assert(sv.take(secs@.len() as int) =~= sv);
    r
}

// ---------------------------------------------------------------------------
// Chunk size
// ---------------------------------------------------------------------------

/// The text's estimate is within `MAX_CHUNK_TOKENS`.
pub open spec fn within_max(c: Seq<char>) -> bool {
    spec_estimate_tokens(c) <= MAX_CHUNK_TOKENS as int
}

proof fn lemma_word_chunks_within_max(text: Seq<char>)
    ensures
        forall|i: int| 0 <= i < word_chunks(text).len() ==> within_max(#[trigger] word_chunks(text)[i]),
{
    let w = words(text);
    let n = w.len() as int;
    let per = WORDS_PER_CHUNK as int;
    lemma_words_are_words(text);
    assert forall|i: int| 0 <= i < word_chunks(text).len() implies within_max(#[trigger] word_chunks(text)[i]) by {
        let lo = i * per;
        let hi = if (i + 1) * per < n {
            (i + 1) * per
        } else {
            n
        };
        assert(lo < n) by (nonlinear_arith)
            requires
                0 <= i < (n + per - 1) / per,
                per == 3846,
                n >= 0,
                lo == i * per,
        ;
        assert((i + 1) * per == lo + per) by (nonlinear_arith)
            requires
                lo == i * per,
        ;
        assert(0 <= lo) by (nonlinear_arith)
            requires
                0 <= i,
                lo == i * per,
                per == 3846,
        ;
        let g = w.subrange(lo, hi);
        assert forall|x: int| 0 <= x < g.len() implies (#[trigger] g[x]).len() > 0 by {
            assert(g[x] == w[lo + x]);
        }
        assert forall|x: int, j: int| 0 <= x < g.len() && 0 <= j < g[x].len() implies !is_ws(
            #[trigger] g[x][j],
        ) by {
            assert(g[x] == w[lo + x]);
            assert(!is_ws(w[lo + x][j]));
        }
        lemma_joined_word_count(g);
        assert(word_chunks(text)[i] == join(g, " "@));
        assert(word_count(join(g, " "@)) <= 3846);
    }
}

proof fn lemma_para_scan_within_max(paras: Seq<Seq<char>>)
    ensures
        forall|i: int|
            0 <= i < para_scan(paras).chunks.len() ==> within_max(#[trigger] para_scan(paras).chunks[i]),
        within_max(para_scan(paras).current),
    decreases paras.len(),
{
    if paras.len() == 0 {
        assert(word_count(Seq::<char>::empty()) == 0);
    } else {
        let init = paras.drop_last();
        lemma_para_scan_within_max(init);
        let st = para_scan(init);
        let p = trim(paras.last());
        lemma_word_chunks_within_max(p);
        let r = para_scan(paras);
        assert(r == para_step(st, paras.last()));
        let wc = word_chunks(p);
        assert forall|i: int| 0 <= i < r.chunks.len() implies within_max(#[trigger] r.chunks[i]) by {
            if i < st.chunks.len() {
                assert(r.chunks[i] == st.chunks[i]);
            } else if r.chunks == st.chunks + wc {
                assert(r.chunks[i] == wc[i - st.chunks.len()]);
            } else if r.chunks == st.chunks.push(st.current) + wc {
                if i > st.chunks.len() {
                    assert(r.chunks[i] == wc[i - st.chunks.len() - 1]);
                }
            }
        }
        if st.current.len() == 0 {
            assert(word_count(st.current) == 0);
        }
    }
}

/// Splitting respects the chunk size: every chunk that splitting at headers,
/// paragraphs and words makes, before small chunks are merged and overlap is
/// added, has at most `MAX_CHUNK_TOKENS` estimated tokens.
pub proof fn lemma_split_within_max(text: Seq<char>)
    ensures
        forall|i: int|
            0 <= i < all_pieces(spec_split_by_headers(text)).len() ==> within_max(
                #[trigger] all_pieces(spec_split_by_headers(text))[i].content,
            ),
{
    lemma_all_pieces_within_max(spec_split_by_headers(text));
}

proof fn lemma_all_pieces_within_max(secs: Seq<SectionView>)
    ensures
        forall|i: int| 0 <= i < all_pieces(secs).len() ==> within_max(#[trigger] all_pieces(secs)[i].content),
    decreases secs.len(),
{
    if secs.len() > 0 {
        let init = secs.drop_last();
        lemma_all_pieces_within_max(init);
        let sec = secs.last();
        let a = all_pieces(init);
        let b = section_pieces(sec);
        if spec_estimate_tokens(sec.content) > MAX_CHUNK_TOKENS as int {
            let st = para_scan(split_pat(sec.content, "\n\n"@));
            lemma_para_scan_within_max(split_pat(sec.content, "\n\n"@));
            let ps = spec_split_by_paragraphs(sec.content);
            assert forall|j: int| 0 <= j < ps.len() implies within_max(#[trigger] ps[j]) by {
                if j < st.chunks.len() {
                    assert(ps[j] == st.chunks[j]);
                }
            }
            assert forall|j: int| 0 <= j < b.len() implies within_max(#[trigger] b[j].content) by {
                assert(b[j].content == ps[j]);
            }
        }
        assert forall|i: int| 0 <= i < all_pieces(secs).len() implies within_max(
            #[trigger] all_pieces(secs)[i].content,
        ) by {
            if i < a.len() {
                assert(all_pieces(secs)[i] == a[i]);
            } else {
                assert(all_pieces(secs)[i] == b[i - a.len()]);
            }
        }
    }
}

// ---------------------------------------------------------------------------
// Merging small chunks
// ---------------------------------------------------------------------------

/// The outermost header title, if any.
pub open spec fn top_header(path: Seq<Seq<char>>) -> Option<Seq<char>> {
    if path.len() > 0 {
        Some(path[0])
    } else {
        None
    }
}

/// Piece `a` with the text of `b` added after a blank line.
pub open spec fn absorb(a: PieceView, b: PieceView) -> PieceView {
    PieceView { header_path: a.header_path, content: a.content + "\n\n"@ + b.content }
}

/// `a` is below `MIN_CHUNK_TOKENS` and under the same outermost header as `b`.
pub open spec fn mergeable(a: PieceView, b: PieceView) -> bool {
    spec_estimate_tokens(a.content) < MIN_CHUNK_TOKENS as int && top_header(a.header_path)
        == top_header(b.header_path)
}

/// Joining `b` to `a` stays within `MAX_CHUNK_TOKENS`.
pub open spec fn merge_fits(a: PieceView, b: PieceView) -> bool {
    within_max(absorb(a, b).content)
}

/// Adding one chunk: it is absorbed by the last chunk if that one is small,
/// under the same outermost header, and the two together stay within
/// `MAX_CHUNK_TOKENS`.
pub open spec fn merge_step(merged: Seq<PieceView>, c: PieceView) -> Seq<PieceView> {
    if merged.len() > 0 && mergeable(merged.last(), c) && merge_fits(merged.last(), c) {
        merged.update(merged.len() - 1, absorb(merged.last(), c))
    } else {
        merged.push(c)
    }
}

/// The chunks after merging forward, one by one.
pub open spec fn merge_scan(cs: Seq<PieceView>) -> Seq<PieceView>
    decreases cs.len(),
{
    if cs.len() == 0 {
        seq![]
    } else {
        merge_step(merge_scan(cs.drop_last()), cs.last())
    }
}

/// Small chunks merged forward; then a small last chunk merged into the one
/// before it, under the same outermost header; no merge goes past
/// `MAX_CHUNK_TOKENS`.
pub open spec fn spec_merge_small_chunks(cs: Seq<PieceView>) -> Seq<PieceView> {
    let m = merge_scan(cs);
    let n = m.len();
    if n >= 2 && mergeable(m[n - 1], m[n - 2]) && merge_fits(m[n - 2], m[n - 1]) {
        m.take(n - 1).update(n - 2, absorb(m[n - 2], m[n - 1]))
    } else {
        m
    }
}

/// The texts of a sequence of chunks.
pub open spec fn piece_texts(ps: Seq<PieceView>) -> Seq<Seq<char>> {
    ps.map_values(|p: PieceView| p.content)
}

proof fn lemma_merge_step_keeps_text(m: Seq<PieceView>, c: PieceView)
    ensures
        join(piece_texts(merge_step(m, c)), "\n\n"@) == join(piece_texts(m.push(c)), "\n\n"@),
        merge_step(m, c).len() > 0,
{
    let sep = "\n\n"@;
    if m.len() > 0 && mergeable(m.last(), c) && merge_fits(m.last(), c) {
        let n = m.len() as int;
        let r = merge_step(m, c);
        let pushed = piece_texts(m.push(c));
        assert(pushed.drop_last() =~= piece_texts(m));
        assert(pushed.last() == c.content);
        if n == 1 {
            assert(piece_texts(m).drop_last().len() == 0);
            assert(join(piece_texts(m), sep) == m[0].content);
            assert(join(piece_texts(r), sep) == absorb(m[0], c).content);
        } else {
            assert(piece_texts(r).drop_last() =~= piece_texts(m).drop_last());
            assert(piece_texts(r).last() == m.last().content + sep + c.content);
            assert(piece_texts(m).last() == m.last().content);
            let a = join(piece_texts(m).drop_last(), sep);
            let l = m.last().content;
            assert(join(piece_texts(r), sep) == a + sep + (l + sep + c.content));
            assert(join(piece_texts(m), sep) == a + sep + l);
            assert(join(pushed, sep) == join(piece_texts(m), sep) + sep + c.content);
            assert(a + sep + (l + sep + c.content) =~= a + sep + l + sep + c.content);
        }
    } else {
    }
}

proof fn lemma_merge_scan_keeps_text(cs: Seq<PieceView>)
    ensures
        join(piece_texts(merge_scan(cs)), "\n\n"@) == join(piece_texts(cs), "\n\n"@),
        merge_scan(cs).len() > 0 <==> cs.len() > 0,
    decreases cs.len(),
{
    let sep = "\n\n"@;
    if cs.len() > 0 {
        let init = cs.drop_last();
        lemma_merge_scan_keeps_text(init);
        let m = merge_scan(init);
        lemma_merge_step_keeps_text(m, cs.last());
        let pushed = piece_texts(m.push(cs.last()));
        assert(pushed.drop_last() =~= piece_texts(m));
        assert(piece_texts(cs).drop_last() =~= piece_texts(init));
        if m.len() == 0 {
            assert(pushed.len() == 1);
            assert(piece_texts(cs).len() == 1);
        }
    }
}

/// Merging small chunks loses and adds no text: the merged chunks, joined by
/// blank lines, are the chunks joined by blank lines; and there are chunks
/// after merging exactly when there were before.
pub proof fn lemma_merge_keeps_text(cs: Seq<PieceView>)
    ensures
        join(piece_texts(spec_merge_small_chunks(cs)), "\n\n"@) == join(piece_texts(cs), "\n\n"@),
        spec_merge_small_chunks(cs).len() > 0 <==> cs.len() > 0,
        spec_merge_small_chunks(cs).len() <= cs.len(),
{
    let sep = "\n\n"@;
    lemma_merge_scan_keeps_text(cs);
    lemma_merge_scan_shrinks(cs);
    let m = merge_scan(cs);
    let n = m.len() as int;
    if n >= 2 && mergeable(m[n - 1], m[n - 2]) && merge_fits(m[n - 2], m[n - 1]) {
        let r = m.take(n - 1).update(n - 2, absorb(m[n - 2], m[n - 1]));
        let tm = piece_texts(m);
        assert(tm.drop_last() =~= piece_texts(m.take(n - 1)));
        if n == 2 {
            assert(piece_texts(r) =~= seq![m[0].content + sep + m[1].content]);
            assert(tm.drop_last().len() == 1);
            assert(join(tm.drop_last(), sep) == m[0].content);
        } else {
            assert(piece_texts(r).drop_last() =~= tm.drop_last().drop_last());
            assert(piece_texts(r).last() == m[n - 2].content + sep + m[n - 1].content);
            assert(tm.drop_last().last() == m[n - 2].content);
            let a = join(tm.drop_last().drop_last(), sep);
            let x = m[n - 2].content;
            let y = m[n - 1].content;
            assert(join(piece_texts(r), sep) == a + sep + (x + sep + y));
            assert(join(tm.drop_last(), sep) == a + sep + x);
            assert(tm.last() == y);
            assert(join(tm, sep) == join(tm.drop_last(), sep) + sep + y);
            assert(a + sep + (x + sep + y) =~= a + sep + x + sep + y);
        }
    }
}

proof fn lemma_merge_scan_shrinks(cs: Seq<PieceView>)
    ensures
        merge_scan(cs).len() <= cs.len(),
    decreases cs.len(),
{
    if cs.len() > 0 {
        lemma_merge_scan_shrinks(cs.drop_last());
    }
}

fn same_top(a: &Vec<String>, b: &Vec<String>) -> (r: bool)
    ensures
        r == (top_header(string_views(a@)) == top_header(string_views(b@))),
{
    if a.len() == 0 {
        b.len() == 0
    } else if b.len() == 0 {
        false
    } else {
        a[0] == b[0]
    }
}

fn merge_small_chunks(cs: Vec<Piece>) -> (r: Vec<Piece>)
    requires
        pieces_wf(cs@),
    ensures
        pieces_wf(r@),
        piece_views(r@) == spec_merge_small_chunks(piece_views(cs@)),
{
    let sep = to_chars("\n\n");
    let ghost cv = piece_views(cs@);
    let mut merged: Vec<Piece> = Vec::new();
    let mut i: usize = 0;
    while i < cs.len()
        invariant
            sep@ == "\n\n"@,
            cv == piece_views(cs@),
            pieces_wf(cs@),
            i <= cs@.len(),
            pieces_wf(merged@),
            piece_views(merged@) == merge_scan(cv.take(i as int)),
        decreases cs@.len() - i,
    {
        assert(cv.take(i + 1).drop_last() =~= cv.take(i as int));
        let c = &cs[i];
        assert(cv.take(i + 1).last() == piece_view(*c));
        let n = merged.len();
        let mut absorbed = false;
        if n > 0 && merged[n - 1].tokens < MIN_CHUNK_TOKENS && same_top(
            &merged[n - 1].header_path,
            &c.header_path,
        ) {
            let content = concat_blank(&merged[n - 1].content, &c.content, &sep);
            let tokens = estimate_tokens_chars(&content);
            if tokens <= MAX_CHUNK_TOKENS {
                let ghost before = piece_views(merged@);
                let last = merged.pop().unwrap();
                assert(piece_view(last) == before.last());
                let joined = Piece { header_path: last.header_path, content, tokens };
                assert(piece_view(joined) == absorb(before.last(), cv[i as int]));
                push_piece(&mut merged, joined);
                assert(piece_views(merged@) =~= before.update(before.len() - 1, absorb(before.last(), cv[i as int])));
                absorbed = true;
            }
        }
        if !absorbed {
            let p = Piece {
                header_path: clone_strings(&c.header_path),
                content: c.content.clone(),
                tokens: c.tokens,
            };
            push_piece(&mut merged, p);
        }
        i += 1;
    }
    assert(cv.take(cs@.len() as int) =~= cv);
    let n = merged.len();
    if n >= 2 && merged[n - 1].tokens < MIN_CHUNK_TOKENS && same_top(
        &merged[n - 1].header_path,
        &merged[n - 2].header_path,
    ) {
        let content = concat_blank(&merged[n - 2].content, &merged[n - 1].content, &sep);
        let tokens = estimate_tokens_chars(&content);
        if tokens <= MAX_CHUNK_TOKENS {
            let ghost m = piece_views(merged@);
            let last = merged.pop().unwrap();
            let prev = merged.pop().unwrap();
            assert(piece_view(last) == m[n - 1]);
            assert(piece_view(prev) == m[n - 2]);
            let joined = Piece { header_path: prev.header_path, content, tokens };
            assert(piece_view(joined) == absorb(m[n - 2], m[n - 1]));
            push_piece(&mut merged, joined);
            assert(piece_views(merged@) =~= m.take(n - 1).update(n - 2, absorb(m[n - 2], m[n - 1])));
        }
    }
    merged
}

/// `b` after `a` is left as it is by the forward merge: `a` is not small, or
/// they are under different outermost headers, or `a` cannot absorb `b`
/// within `MAX_CHUNK_TOKENS`.
pub open spec fn kept_apart(a: PieceView, b: PieceView) -> bool {
    !(mergeable(a, b) && merge_fits(a, b))
}

proof fn lemma_word_count_grows(a: Seq<char>, b: Seq<char>)
    ensures
        word_count(a + b) >= word_count(a),
    decreases b.len(),
{
    if b.len() == 0 {
        assert(a + b =~= a);
    } else {
        lemma_word_count_grows(a, b.drop_last());
        assert((a + b).drop_last() =~= a + b.drop_last());
        lemma_token_spans_shape(a + b.drop_last(), SepKind::Whitespace);
    }
}

proof fn lemma_absorb_keeps_apart(x: PieceView, y: PieceView, c: PieceView)
    requires
        kept_apart(x, y),
    ensures
        kept_apart(x, absorb(y, c)),
{
    let sep = "\n\n"@;
    let short = x.content + sep + y.content;
    let long = x.content + sep + (y.content + sep + c.content);
    assert(long =~= short + (sep + c.content));
    lemma_word_count_grows(short, sep + c.content);
}

proof fn lemma_merge_scan_apart(cs: Seq<PieceView>)
    ensures
        forall|i: int|
            0 <= i < merge_scan(cs).len() - 1 ==> kept_apart(#[trigger] merge_scan(cs)[i], merge_scan(cs)[i + 1]),
    decreases cs.len(),
{
    if cs.len() > 0 {
        let init = cs.drop_last();
        lemma_merge_scan_apart(init);
        let m = merge_scan(init);
        let c = cs.last();
        let r = merge_scan(cs);
        assert(r == merge_step(m, c));
        let n = m.len() as int;
        if n > 0 && mergeable(m.last(), c) && merge_fits(m.last(), c) {
            if n >= 2 {
                lemma_absorb_keeps_apart(m[n - 2], m[n - 1], c);
            }
            assert forall|i: int| 0 <= i < r.len() - 1 implies kept_apart(#[trigger] r[i], r[i + 1]) by {
                assert(r[i] == m[i]);
                if i + 1 != n - 1 {
                    assert(r[i + 1] == m[i + 1]);
                }
            }
        } else {
            assert forall|i: int| 0 <= i < r.len() - 1 implies kept_apart(#[trigger] r[i], r[i + 1]) by {
                assert(r[i] == m[i]);
                if i + 1 < n {
                    assert(r[i + 1] == m[i + 1]);
                }
            }
        }
    }
}

/// Merging goes as far as its rules allow: in the merged chunks, a chunk
/// below `MIN_CHUNK_TOKENS` is followed only by one under another outermost
/// header, or by one it could not absorb within `MAX_CHUNK_TOKENS`.
pub proof fn lemma_merged_neighbours_apart(cs: Seq<PieceView>)
    ensures
        forall|i: int|
            0 <= i < spec_merge_small_chunks(cs).len() - 1 ==> kept_apart(
                #[trigger] spec_merge_small_chunks(cs)[i],
                spec_merge_small_chunks(cs)[i + 1],
            ),
{
    lemma_merge_scan_apart(cs);
    let m = merge_scan(cs);
    let n = m.len() as int;
    let r = spec_merge_small_chunks(cs);
    if n >= 2 && mergeable(m[n - 1], m[n - 2]) && merge_fits(m[n - 2], m[n - 1]) {
        if n >= 3 {
            lemma_absorb_keeps_apart(m[n - 3], m[n - 2], m[n - 1]);
        }
        assert forall|i: int| 0 <= i < r.len() - 1 implies kept_apart(#[trigger] r[i], r[i + 1]) by {
            assert(r[i] == m[i]);
            if i + 1 != n - 2 {
                assert(r[i + 1] == m[i + 1]);
            }
        }
    } else {
        assert forall|i: int| 0 <= i < r.len() - 1 implies kept_apart(#[trigger] r[i], r[i + 1]) by {
            assert(r[i] == m[i]);
            assert(r[i + 1] == m[i + 1]);
        }
    }
}

/// After merging, the last chunk is settled: it is not a small chunk that
/// shares the outermost header with the chunk before it and fits with it
/// within `MAX_CHUNK_TOKENS`. Together with the neighbours kept apart, no
/// small chunk is left that could still be merged into the one before it.
pub proof fn lemma_last_chunk_settled(cs: Seq<PieceView>)
    ensures
        ({
            let r = spec_merge_small_chunks(cs);
            let n = r.len();
            n >= 2 ==> !(mergeable(r[n - 1], r[n - 2]) && merge_fits(r[n - 2], r[n - 1]))
        }),
{
    lemma_merge_scan_apart(cs);
    let m = merge_scan(cs);
    let n = m.len() as int;
    if n >= 2 && mergeable(m[n - 1], m[n - 2]) && merge_fits(m[n - 2], m[n - 1]) {
        let r = spec_merge_small_chunks(cs);
        assert(kept_apart(m[n - 2], m[n - 1]));
        assert(top_header(m[n - 2].header_path) == top_header(m[n - 1].header_path));
        assert(spec_estimate_tokens(m[n - 2].content) >= MIN_CHUNK_TOKENS as int);
        let a = m[n - 2].content;
        lemma_word_count_grows(a, "\n\n"@ + m[n - 1].content);
        assert(a + "\n\n"@ + m[n - 1].content =~= a + ("\n\n"@ + m[n - 1].content));
        assert(r[r.len() - 1] == absorb(m[n - 2], m[n - 1]));
        assert(spec_estimate_tokens(absorb(m[n - 2], m[n - 1]).content) >= MIN_CHUNK_TOKENS as int);
    }
}

proof fn lemma_merge_scan_within_max(cs: Seq<PieceView>)
    requires
        forall|i: int| 0 <= i < cs.len() ==> within_max(#[trigger] cs[i].content),
    ensures
        forall|i: int| 0 <= i < merge_scan(cs).len() ==> within_max(#[trigger] merge_scan(cs)[i].content),
    decreases cs.len(),
{
    if cs.len() > 0 {
        let init = cs.drop_last();
        assert forall|i: int| 0 <= i < init.len() implies within_max(#[trigger] init[i].content) by {
            assert(init[i] == cs[i]);
        }
        lemma_merge_scan_within_max(init);
        let m = merge_scan(init);
        let c = cs.last();
        assert(c == cs[cs.len() - 1]);
        assert(within_max(c.content));
        let r = merge_scan(cs);
        assert(r == merge_step(m, c));
        assert forall|i: int| 0 <= i < r.len() implies within_max(#[trigger] r[i].content) by {
            if m.len() > 0 && mergeable(m.last(), c) && merge_fits(m.last(), c) {
                if i != m.len() - 1 {
                    assert(r[i] == m[i]);
                }
            } else {
                if i < m.len() {
                    assert(r[i] == m[i]);
                }
            }
        }
    }
}

/// The chunks of a document before overlap is added: split, then merged.
pub open spec fn chunk_cores(text: Seq<char>) -> Seq<PieceView> {
    spec_merge_small_chunks(all_pieces(spec_split_by_headers(text)))
}

/// Chunks respect the size limit: each chunk of a document, without the
/// overlap copied in front of it from the chunk before, has at most
/// `MAX_CHUNK_TOKENS` estimated tokens. The first chunk has no overlap; every
/// other one is the overlap of the chunk before, a blank line, and its own
/// text.
pub proof fn lemma_chunks_within_max(text: Seq<char>)
    ensures
        spec_segment(text).len() == chunk_cores(text).len(),
        forall|i: int| 0 <= i < chunk_cores(text).len() ==> within_max(#[trigger] chunk_cores(text)[i].content),
        spec_segment(text).len() > 0 ==> spec_segment(text)[0].content == chunk_cores(text)[0].content,
        forall|i: int|
            0 < i < spec_segment(text).len() ==> #[trigger] spec_segment(text)[i].content == overlap_text(
                chunk_cores(text)[i - 1].content,
            ) + "\n\n"@ + chunk_cores(text)[i].content,
{
    let pieces = all_pieces(spec_split_by_headers(text));
    lemma_split_within_max(text);
    lemma_merge_scan_within_max(pieces);
    let m = merge_scan(pieces);
    let n = m.len() as int;
    let r = chunk_cores(text);
    assert forall|i: int| 0 <= i < r.len() implies within_max(#[trigger] r[i].content) by {
        if n >= 2 && mergeable(m[n - 1], m[n - 2]) && merge_fits(m[n - 2], m[n - 1]) {
            if i != n - 2 {
                assert(r[i] == m[i]);
            }
        } else {
            assert(r[i] == m[i]);
        }
    }
}

// ---------------------------------------------------------------------------
// Overlap
// ---------------------------------------------------------------------------

/// The last tenth (rounded up, at least one) of the words of `content`, joined by spaces.
pub open spec fn overlap_text(content: Seq<char>) -> Seq<char> {
    let w = words(content);
    let n = w.len() as int;
    let k = if (n + 9) / 10 > 1 { (n + 9) / 10 } else { 1 };
    let start = if n >= k { n - k } else { 0 };
    join(w.subrange(start, n), " "@)
}

/// Each chunk after the first begins with the overlap of the chunk before it.
pub open spec fn spec_add_overlap(cs: Seq<PieceView>) -> Seq<PieceView> {
    Seq::new(
        cs.len(),
        |i: int|
            if i == 0 {
                cs[0]
            } else {
                PieceView {
                    header_path: cs[i].header_path,
                    content: overlap_text(cs[i - 1].content) + "\n\n"@ + cs[i].content,
                }
            },
    )
}

/// The overlap is the last tenth of a chunk's words, rounded up and at least
/// one (all of them when the chunk has fewer), joined by single spaces.
pub proof fn lemma_overlap_words(content: Seq<char>)
    ensures
        ({
            let n = word_count(content) as int;
            let k = if (n + 9) / 10 > 1 {
                (n + 9) / 10
            } else {
                1
            };
            word_count(overlap_text(content)) == (if n >= k {
                k
            } else {
                n
            })
        }),
{
    let w = words(content);
    let n = w.len() as int;
    let k = if (n + 9) / 10 > 1 {
        (n + 9) / 10
    } else {
        1
    };
    let start = if n >= k {
        n - k
    } else {
        0
    };
    lemma_words_are_words(content);
    let g = w.subrange(start, n);
    assert forall|x: int| 0 <= x < g.len() implies (#[trigger] g[x]).len() > 0 by {
        assert(g[x] == w[start + x]);
    }
    assert forall|x: int, j: int| 0 <= x < g.len() && 0 <= j < g[x].len() implies !is_ws(#[trigger] g[x][j]) by {
        assert(g[x] == w[start + x]);
        assert(!is_ws(w[start + x][j]));
    }
    lemma_joined_word_count(g);
}

fn overlap_of(content: &Vec<char>) -> (r: Vec<char>)
    ensures
        r@ == overlap_text(content@),
{
    let spans = token_spans_of(content, SepKind::Whitespace);
    proof {
        lemma_token_spans_shape(content@, SepKind::Whitespace);
    }
    let sp = to_chars(" ");
    let n = spans.len();
    let mut k = n / 10 + if n % 10 == 0 { 0 } else { 1 };
    assert(k == (n + 9) / 10);
    if k < 1 {
        k = 1;
    }
    let start = if n >= k { n - k } else { 0 };
    let r = join_spans(content, &spans, start, n, &sp);
    assert(spans_view(content@, int_spans(spans@).subrange(start as int, n as int)) =~= words(
        content@,
    ).subrange(start as int, n as int));
    r
}

fn add_overlap(cs: Vec<Piece>) -> (r: Vec<Piece>)
    requires
        pieces_wf(cs@),
    ensures
        pieces_wf(r@),
        piece_views(r@) == spec_add_overlap(piece_views(cs@)),
{
    let sep = to_chars("\n\n");
    let ghost cv = piece_views(cs@);
    let mut r: Vec<Piece> = Vec::new();
    let mut i: usize = 0;
    while i < cs.len()
        invariant
            sep@ == "\n\n"@,
            cv == piece_views(cs@),
            pieces_wf(cs@),
            i <= cs@.len(),
            pieces_wf(r@),
            piece_views(r@) == spec_add_overlap(cv).take(i as int),
        decreases cs@.len() - i,
    {
        let c = &cs[i];
        let p = if i == 0 {
            Piece {
                header_path: clone_strings(&c.header_path),
                content: c.content.clone(),
                tokens: c.tokens,
            }
        } else {
            let ov = overlap_of(&cs[i - 1].content);
            let content = concat_blank(&ov, &c.content, &sep);
            make_piece(&c.header_path, content)
        };
        assert(piece_view(p) == spec_add_overlap(cv)[i as int]);
        push_piece(&mut r, p);
        assert(piece_views(r@) =~= spec_add_overlap(cv).take(i + 1));
        i += 1;
    }
    assert(spec_add_overlap(cv).take(cs@.len() as int) =~= spec_add_overlap(cv));
    r
}

// ---------------------------------------------------------------------------
// Segmentation
// ---------------------------------------------------------------------------

/// The chunks of a document, before numbering: sections split at headers, large
/// sections split at paragraphs and words, small chunks merged, and overlap added.
pub open spec fn spec_segment(text: Seq<char>) -> Seq<PieceView> {
    spec_add_overlap(spec_merge_small_chunks(all_pieces(spec_split_by_headers(text))))
}

/// Chunk `i` of the segmentation of `text`.
pub open spec fn segment_chunk(text: Seq<char>, i: int) -> ChunkView {
    ChunkView {
        index: i,
        header_path: spec_segment(text)[i].header_path,
        content: spec_segment(text)[i].content,
        token_estimate: spec_estimate_tokens(spec_segment(text)[i].content),
    }
}

/// Splits a document into numbered chunks for compression.
pub fn segment(text: &str) -> (r: Vec<Chunk>)
    ensures
        r@.len() == spec_segment(text@).len(),
        forall|i: int| 0 <= i < r@.len() ==> #[trigger] r@[i]@ == segment_chunk(text@, i),
        forall|i: int| 0 <= i < r@.len() ==> has_text(#[trigger] r@[i].content@),
{
    proof {
        lemma_chunks_have_text(text@);
    }
    let v = to_chars(text);
    let sections = split_by_headers(&v);
    let pieces = pieces_of_sections(&sections);
    let merged = merge_small_chunks(pieces);
    let overlapped = add_overlap(merged);
    let ghost sv = piece_views(overlapped@);
    let mut r: Vec<Chunk> = Vec::new();
    let mut i: usize = 0;
    while i < overlapped.len()
        invariant
            sv == piece_views(overlapped@),
            sv == spec_segment(text@),
            pieces_wf(overlapped@),
            i <= overlapped@.len(),
            r@.len() == i,
            forall|j: int| 0 <= j < i ==> #[trigger] r@[j]@ == segment_chunk(text@, j),
        decreases overlapped@.len() - i,
    {
        let p = &overlapped[i];
        assert(piece_view(*p) == sv[i as int]);
        let c = Chunk {
            index: i,
            header_path: clone_strings(&p.header_path),
            content: string_of_all(&p.content),
            token_estimate: p.tokens,
        };
        r.push(c);
        i += 1;
    }
    assert forall|i: int| 0 <= i < r@.len() implies has_text(#[trigger] r@[i].content@) by {
        assert(r@[i]@ == segment_chunk(text@, i));
        assert(has_text(spec_segment(text@)[i].content));
    }
    r
}

// ---------------------------------------------------------------------------
// No blank chunks
// ---------------------------------------------------------------------------

proof fn lemma_scan_sections_have_text(ls: Seq<Seq<char>>)
    ensures
        forall|i: int|
            0 <= i < header_scan(ls).sections.len() ==> has_text(#[trigger] header_scan(ls).sections[i].content),
    decreases ls.len(),
{
    if ls.len() > 0 {
        let init = ls.drop_last();
        lemma_scan_sections_have_text(init);
        let st = header_scan(init);
        lemma_trim_has_text(join(st.lines, "\n"@));
    }
}

proof fn lemma_sections_have_text(text: Seq<char>)
    ensures
        forall|i: int|
            0 <= i < spec_split_by_headers(text).len() ==> has_text(#[trigger] spec_split_by_headers(text)[i].content),
{
    let st = header_scan(lines(text));
    lemma_scan_sections_have_text(lines(text));
    lemma_trim_has_text(join(st.lines, "\n"@));
}

proof fn lemma_word_chunks_have_text(text: Seq<char>)
    ensures
        forall|i: int| 0 <= i < word_chunks(text).len() ==> has_text(#[trigger] word_chunks(text)[i]),
{
    let w = words(text);
    let n = w.len() as int;
    let per = WORDS_PER_CHUNK as int;
    lemma_words_are_words(text);
    assert forall|i: int| 0 <= i < word_chunks(text).len() implies has_text(#[trigger] word_chunks(text)[i]) by {
        let lo = i * per;
        let hi = if (i + 1) * per < n {
            (i + 1) * per
        } else {
            n
        };
        assert(lo < n) by (nonlinear_arith)
            requires
                0 <= i < (n + per - 1) / per,
                per == 3846,
                n >= 0,
                lo == i * per,
        ;
        assert((i + 1) * per == lo + per) by (nonlinear_arith)
            requires
                lo == i * per,
        ;
        assert(0 <= lo) by (nonlinear_arith)
            requires
                0 <= i,
                lo == i * per,
                per == 3846,
        ;
        let g = w.subrange(lo, hi);
        let last = g.last();
        assert(last == w[hi - 1]);
        assert(last.len() > 0);
        assert(!is_ws(last[0]));
        assert(has_text(last));
        lemma_join_has_text(g, " "@);
        assert(word_chunks(text)[i] == join(g, " "@));
    }
}

proof fn lemma_para_scan_has_text(paras: Seq<Seq<char>>)
    ensures
        forall|i: int|
            0 <= i < para_scan(paras).chunks.len() ==> has_text(#[trigger] para_scan(paras).chunks[i]),
        para_scan(paras).current.len() > 0 ==> has_text(para_scan(paras).current),
    decreases paras.len(),
{
    if paras.len() > 0 {
        let init = paras.drop_last();
        lemma_para_scan_has_text(init);
        let st = para_scan(init);
        let p = trim(paras.last());
        lemma_trim_has_text(paras.last());
        lemma_word_chunks_have_text(p);
        lemma_concat_has_text(st.current + "\n\n"@, p);
        let r = para_scan(paras);
        assert(r == para_step(st, paras.last()));
        let wc = word_chunks(p);
        assert forall|i: int| 0 <= i < r.chunks.len() implies has_text(#[trigger] r.chunks[i]) by {
            if i < st.chunks.len() {
                assert(r.chunks[i] == st.chunks[i]);
            } else if r.chunks == st.chunks + wc {
                assert(r.chunks[i] == wc[i - st.chunks.len()]);
            } else if r.chunks == st.chunks.push(st.current) + wc {
                if i > st.chunks.len() {
                    assert(r.chunks[i] == wc[i - st.chunks.len() - 1]);
                }
            }
        }
    }
}

proof fn lemma_pieces_have_text(secs: Seq<SectionView>)
    requires
        forall|i: int| 0 <= i < secs.len() ==> has_text(#[trigger] secs[i].content),
    ensures
        forall|i: int| 0 <= i < all_pieces(secs).len() ==> has_text(#[trigger] all_pieces(secs)[i].content),
    decreases secs.len(),
{
    if secs.len() > 0 {
        let init = secs.drop_last();
        assert forall|i: int| 0 <= i < init.len() implies has_text(#[trigger] init[i].content) by {
            assert(init[i] == secs[i]);
        }
        lemma_pieces_have_text(init);
        let sec = secs.last();
        assert(sec == secs[secs.len() - 1]);
        let a = all_pieces(init);
        let b = section_pieces(sec);
        if spec_estimate_tokens(sec.content) > MAX_CHUNK_TOKENS as int {
            let st = para_scan(split_pat(sec.content, "\n\n"@));
            lemma_para_scan_has_text(split_pat(sec.content, "\n\n"@));
            let ps = spec_split_by_paragraphs(sec.content);
            assert forall|j: int| 0 <= j < b.len() implies has_text(#[trigger] b[j].content) by {
                assert(b[j].content == ps[j]);
                if j < st.chunks.len() {
                    assert(ps[j] == st.chunks[j]);
                }
            }
        }
        assert forall|i: int| 0 <= i < all_pieces(secs).len() implies has_text(
            #[trigger] all_pieces(secs)[i].content,
        ) by {
            if i < a.len() {
                assert(all_pieces(secs)[i] == a[i]);
            } else {
                assert(all_pieces(secs)[i] == b[i - a.len()]);
            }
        }
    }
}

proof fn lemma_merge_scan_has_text(cs: Seq<PieceView>)
    requires
        forall|i: int| 0 <= i < cs.len() ==> has_text(#[trigger] cs[i].content),
    ensures
        forall|i: int| 0 <= i < merge_scan(cs).len() ==> has_text(#[trigger] merge_scan(cs)[i].content),
    decreases cs.len(),
{
    if cs.len() > 0 {
        let init = cs.drop_last();
        assert forall|i: int| 0 <= i < init.len() implies has_text(#[trigger] init[i].content) by {
            assert(init[i] == cs[i]);
        }
        lemma_merge_scan_has_text(init);
        let m = merge_scan(init);
        let c = cs.last();
        assert(c == cs[cs.len() - 1]);
        let r = merge_scan(cs);
        assert(r == merge_step(m, c));
        if m.len() > 0 {
            assert(has_text(m[m.len() - 1].content));
            lemma_concat_has_text(m.last().content + "\n\n"@, c.content);
        }
        assert forall|i: int| 0 <= i < r.len() implies has_text(#[trigger] r[i].content) by {
            if m.len() > 0 && mergeable(m.last(), c) && merge_fits(m.last(), c) {
                if i != m.len() - 1 {
                    assert(r[i] == m[i]);
                }
            } else {
                if i < m.len() {
                    assert(r[i] == m[i]);
                }
            }
        }
    }
}

/// No chunk is blank: every chunk of a document holds some text that is not
/// whitespace.
pub proof fn lemma_chunks_have_text(text: Seq<char>)
    ensures
        forall|i: int| 0 <= i < spec_segment(text).len() ==> has_text(#[trigger] spec_segment(text)[i].content),
{
    lemma_sections_have_text(text);
    let pieces = all_pieces(spec_split_by_headers(text));
    lemma_pieces_have_text(spec_split_by_headers(text));
    lemma_merge_scan_has_text(pieces);
    let m = merge_scan(pieces);
    let n = m.len() as int;
    let core = chunk_cores(text);
    if n >= 2 {
        lemma_concat_has_text(m[n - 2].content + "\n\n"@, m[n - 1].content);
    }
    assert forall|i: int| 0 <= i < core.len() implies has_text(#[trigger] core[i].content) by {
        if n >= 2 && mergeable(m[n - 1], m[n - 2]) && merge_fits(m[n - 2], m[n - 1]) {
            if i != n - 2 {
                assert(core[i] == m[i]);
            }
        } else {
            assert(core[i] == m[i]);
        }
    }
    let r = spec_segment(text);
    assert forall|i: int| 0 <= i < r.len() implies has_text(#[trigger] r[i].content) by {
        if i > 0 {
            lemma_concat_has_text(overlap_text(core[i - 1].content) + "\n\n"@, core[i].content);
        }
    }
}


// ---------------------------------------------------------------------------
// Chunking keeps the words
// ---------------------------------------------------------------------------

/// The words of the lines that are not headers, in order.
pub open spec fn body_words(ls: Seq<Seq<char>>) -> Seq<Seq<char>>
    decreases ls.len(),
{
    if ls.len() == 0 {
        seq![]
    } else if spec_parse_header(ls.last()) is Some {
        body_words(ls.drop_last())
    } else {
        body_words(ls.drop_last()) + words(ls.last())
    }
}

/// The texts of sections.
pub open spec fn section_texts(secs: Seq<SectionView>) -> Seq<Seq<char>> {
    secs.map_values(|s: SectionView| s.content)
}

proof fn lemma_newline_sep()
    ensures
        "\n"@.len() > 0,
        all_ws("\n"@),
        "\n\n"@.len() > 0,
        all_ws("\n\n"@),
        " "@.len() > 0,
        all_ws(" "@),
{
    reveal_strlit("\n");
    reveal_strlit("\n\n");
    reveal_strlit(" ");
}

proof fn lemma_flush_words(sections: Seq<SectionView>, path: Seq<Seq<char>>, ls: Seq<Seq<char>>)
    ensures
        all_words(section_texts(flush_section(sections, path, ls))) == all_words(section_texts(sections))
            + all_words(ls),
{
    lemma_newline_sep();
    let joined = join(ls, "\n"@);
    let content = trim(joined);
    lemma_words_of_join(ls, "\n"@);
    lemma_words_trim(joined);
    if content.len() > 0 {
        let x = SectionView { header_path: path, content };
        assert(section_texts(sections.push(x)) =~= section_texts(sections).push(content));
        assert(section_texts(sections.push(x)).drop_last() =~= section_texts(sections));
    } else {
        assert(words(content) =~= Seq::<Seq<char>>::empty());
        assert(all_words(section_texts(sections)) + all_words(ls) =~= all_words(section_texts(sections)));
    }
}

proof fn lemma_header_scan_words(ls: Seq<Seq<char>>)
    ensures
        all_words(section_texts(header_scan(ls).sections)) + all_words(header_scan(ls).lines)
            == body_words(ls),
    decreases ls.len(),
{
    if ls.len() == 0 {
        assert(section_texts(seq![]) =~= Seq::<Seq<char>>::empty());
        assert(all_words(Seq::<Seq<char>>::empty()) + all_words(Seq::<Seq<char>>::empty())
            =~= Seq::<Seq<char>>::empty());
    } else {
        let init = ls.drop_last();
        lemma_header_scan_words(init);
        let st = header_scan(init);
        let line = ls.last();
        let a = all_words(section_texts(st.sections));
        let b = all_words(st.lines);
        match spec_parse_header(line) {
            Some((level, title)) => {
                lemma_flush_words(st.sections, st.path, st.lines);
                assert(all_words(Seq::<Seq<char>>::empty()) =~= Seq::<Seq<char>>::empty());
                assert(a + b + Seq::<Seq<char>>::empty() =~= a + b);
            },
            None => {
                assert(st.lines.push(line).drop_last() =~= st.lines);
                assert(a + (b + words(line)) =~= a + b + words(line));
            },
        }
    }
}

/// The sections hold the words of the lines that are not headers, in order.
proof fn lemma_sections_words(text: Seq<char>)
    ensures
        all_words(section_texts(spec_split_by_headers(text))) == body_words(lines(text)),
{
    let st = header_scan(lines(text));
    lemma_header_scan_words(lines(text));
    lemma_flush_words(st.sections, st.path, st.lines);
}

proof fn lemma_split_pat_words(s: Seq<char>, p: Seq<char>, lo: int)
    requires
        0 <= lo <= s.len(),
        p.len() > 0,
        all_ws(p),
    ensures
        all_words(spans_view(s, split_pat_spans(s, p, lo))) == words(s.subrange(lo, s.len() as int)),
    decreases s.len() - lo,
{
    lemma_first_match(s, p, lo);
    let m = first_match_from(s, p, lo);
    let whole = s.subrange(lo, s.len() as int);
    if m < 0 {
        assert(spans_view(s, split_pat_spans(s, p, lo)) =~= seq![whole]);
        lemma_all_words_single(whole);
    } else {
        lemma_split_pat_words(s, p, m + p.len());
        let rest = split_pat_spans(s, p, m + p.len());
        let head = s.subrange(lo, m);
        let tail = s.subrange(m + p.len(), s.len() as int);
        assert(split_pat_spans(s, p, lo) == seq![(lo, m)] + rest);
        assert(spans_view(s, seq![(lo, m)] + rest) =~= seq![head] + spans_view(s, rest));
        lemma_all_words_concat(seq![head], spans_view(s, rest));
        lemma_all_words_single(head);
        assert(s.subrange(m, m + p.len()) == p);
        assert(whole =~= head + p + tail);
        lemma_words_around_ws(head, p, tail);
    }
}

/// The pieces of a text between blank lines hold its words, in order.
proof fn lemma_blank_line_split_words(content: Seq<char>)
    ensures
        all_words(split_pat(content, "\n\n"@)) == words(content),
{
    lemma_newline_sep();
    lemma_split_pat_words(content, "\n\n"@, 0);
    assert(content.subrange(0, content.len() as int) =~= content);
}


proof fn lemma_word_chunks_prefix(text: Seq<char>, i: int)
    requires
        0 <= i <= word_chunks(text).len(),
    ensures
        all_words(word_chunks(text).take(i)) == words(text).subrange(
            0,
            if i * 3846 < words(text).len() { i * 3846 } else { words(text).len() as int },
        ),
    decreases i,
{
    let w = words(text);
    let n = w.len() as int;
    let cs = word_chunks(text);
    let total = cs.len() as int;
    assert(total == (n + 3845) / 3846);
    if i == 0 {
        assert(cs.take(0) =~= Seq::<Seq<char>>::empty());
        assert(w.subrange(0, 0) =~= Seq::<Seq<char>>::empty());
    } else {
        let k = i - 1;
        lemma_word_chunks_prefix(text, k);
        lemma_newline_sep();
        lemma_words_are_words(text);
        assert(k * 3846 < n) by (nonlinear_arith)
            requires
                k < total,
                total == (n + 3845) / 3846,
                0 <= n,
        ;
        let lo = k * 3846;
        let hi = if (k + 1) * 3846 < n { (k + 1) * 3846 } else { n };
        let part = w.subrange(lo, hi);
        assert(cs[k] == join(part, " "@));
        lemma_words_of_join(part, " "@);
        assert forall|a: int| 0 <= a < part.len() implies (#[trigger] part[a]).len() > 0 by {
            assert(part[a] == w[lo + a]);
        }
        assert forall|a: int, j: int| 0 <= a < part.len() && 0 <= j < part[a].len() implies !is_ws(
            #[trigger] part[a][j],
        ) by {
            assert(part[a] == w[lo + a]);
        }
        lemma_all_words_of_words(part);
        assert(cs.take(i).drop_last() =~= cs.take(k));
        assert(cs.take(i).last() == cs[k]);
        assert(w.subrange(0, lo) + part =~= w.subrange(0, hi));
    }
}

proof fn lemma_word_chunks_words(text: Seq<char>)
    ensures
        all_words(word_chunks(text)) == words(text),
{
    let w = words(text);
    let n = w.len() as int;
    let cs = word_chunks(text);
    let total = cs.len() as int;
    assert(total == (n + 3845) / 3846);
    lemma_word_chunks_prefix(text, total);
    assert(cs.take(total) =~= cs);
    assert(total * 3846 >= n) by (nonlinear_arith)
        requires
            total == (n + 3845) / 3846,
            0 <= n,
    ;
    assert(w.subrange(0, n) =~= w);
}

proof fn lemma_para_scan_words(paras: Seq<Seq<char>>)
    ensures
        all_words(para_scan(paras).chunks) + words(para_scan(paras).current) == all_words(paras),
    decreases paras.len(),
{
    let none = Seq::<Seq<char>>::empty();
    if paras.len() == 0 {
        assert(words(Seq::<char>::empty()) =~= none);
        assert(none + none =~= none);
    } else {
        let init = paras.drop_last();
        lemma_para_scan_words(init);
        let st = para_scan(init);
        let para = paras.last();
        let p = trim(para);
        lemma_words_trim(para);
        lemma_newline_sep();
        let max = MAX_CHUNK_TOKENS as int;
        let cw = all_words(st.chunks);
        let cur = words(st.current);
        let wp = words(p);
        assert(all_words(paras) == cw + cur + wp);
        if st.current.len() == 0 {
            assert(cur =~= none);
        }
        if p.len() == 0 {
            assert(wp =~= none);
            assert(cw + cur + wp =~= cw + cur);
        } else if spec_estimate_tokens(p) > max && st.current.len() == 0 {
            lemma_word_chunks_words(p);
            lemma_all_words_concat(st.chunks, word_chunks(p));
            assert(cw + wp + cur =~= cw + cur + wp);
        } else {
            let combined = if st.current.len() == 0 {
                p
            } else {
                st.current + "\n\n"@ + p
            };
            if st.current.len() > 0 {
                lemma_words_around_ws(st.current, "\n\n"@, p);
            } else {
                assert(cur + wp =~= wp);
            }
            assert(words(combined) == cur + wp);
            assert(st.chunks.push(st.current).drop_last() =~= st.chunks);
            let pushed = st.chunks.push(st.current);
            assert(all_words(pushed) == cw + cur);
            if spec_estimate_tokens(combined) > max && st.current.len() > 0 {
                if spec_estimate_tokens(p) > max {
                    lemma_word_chunks_words(p);
                    lemma_all_words_concat(pushed, word_chunks(p));
                    assert(words(Seq::<char>::empty()) =~= none);
                    assert(cw + cur + wp + none =~= cw + cur + wp);
                } else {
                    assert(cw + cur + wp =~= cw + cur + wp);
                }
            } else {
                assert(cw + (cur + wp) =~= cw + cur + wp);
            }
        }
    }
}

/// The chunks of a section's paragraphs hold the section's words, in order.
proof fn lemma_paragraph_chunks_words(content: Seq<char>)
    ensures
        all_words(spec_split_by_paragraphs(content)) == words(content),
{
    let paras = split_pat(content, "\n\n"@);
    lemma_blank_line_split_words(content);
    lemma_para_scan_words(paras);
    let st = para_scan(paras);
    if st.current.len() > 0 {
        assert(st.chunks.push(st.current).drop_last() =~= st.chunks);
    } else {
        assert(words(st.current) =~= Seq::<Seq<char>>::empty());
        assert(all_words(st.chunks) + words(st.current) =~= all_words(st.chunks));
    }
}

proof fn lemma_all_pieces_words(secs: Seq<SectionView>)
    ensures
        all_words(piece_texts(all_pieces(secs))) == all_words(section_texts(secs)),
    decreases secs.len(),
{
    if secs.len() == 0 {
        assert(piece_texts(all_pieces(secs)) =~= Seq::<Seq<char>>::empty());
        assert(section_texts(secs) =~= Seq::<Seq<char>>::empty());
    } else {
        let init = secs.drop_last();
        let sec = secs.last();
        lemma_all_pieces_words(init);
        let a = all_pieces(init);
        let b = section_pieces(sec);
        assert(piece_texts(a + b) =~= piece_texts(a) + piece_texts(b));
        lemma_all_words_concat(piece_texts(a), piece_texts(b));
        if spec_estimate_tokens(sec.content) > MAX_CHUNK_TOKENS as int {
            assert(piece_texts(b) =~= spec_split_by_paragraphs(sec.content));
            lemma_paragraph_chunks_words(sec.content);
        } else {
            assert(piece_texts(b) =~= seq![sec.content]);
            lemma_all_words_single(sec.content);
        }
        assert(section_texts(secs).drop_last() =~= section_texts(init));
        assert(section_texts(secs).last() == sec.content);
    }
}

/// Chunking keeps the words of a document: the words of its chunks, without
/// the overlap copied in front of them, are in order exactly the words of the
/// document's lines that are not headers. No word is lost, added, repeated or
/// moved.
pub proof fn lemma_chunks_keep_words(text: Seq<char>)
    ensures
        all_words(piece_texts(chunk_cores(text))) == body_words(lines(text)),
{
    let secs = spec_split_by_headers(text);
    let pieces = all_pieces(secs);
    lemma_sections_words(text);
    lemma_all_pieces_words(secs);
    lemma_merge_keeps_text(pieces);
    lemma_newline_sep();
    lemma_words_of_join(piece_texts(pieces), "\n\n"@);
    lemma_words_of_join(piece_texts(spec_merge_small_chunks(pieces)), "\n\n"@);
}

} // verus!
