//! Reading the compressed text out of a model response.
use crate::error::DistillError;
use crate::text::{
    contains_seq, extend_str, find_from, first_match_from, lemma_first_match,
    lemma_first_match_at, matches_at, string_of, to_chars, trim, trim_span,
};
use vstd::prelude::*;

verus! {

/// A model response reduced to the text it was asked for.
#[derive(Debug)]
pub struct ParsedResponse {
    pub compressed: String,
}

/// `<tag>`.
pub open spec fn open_tag(tag: Seq<char>) -> Seq<char> {
    "<"@ + tag + ">"@
}

/// `</tag>`.
pub open spec fn close_tag(tag: Seq<char>) -> Seq<char> {
    "</"@ + tag + ">"@
}

/// The trimmed text between the first `<tag>` and the first `</tag>` of `text`,
/// if both occur and the closing one comes after the opening one.
pub open spec fn spec_extract_tag(text: Seq<char>, tag: Seq<char>) -> Option<Seq<char>> {
    let s = first_match_from(text, open_tag(tag), 0);
    let e = first_match_from(text, close_tag(tag), 0);
    if s < 0 || e < 0 || e <= s {
        None
    } else {
        Some(trim(text.subrange(s + open_tag(tag).len(), e)))
    }
}

/// The trimmed text between the first `<tag>` and the first `</tag>`.
pub fn extract_tag(text: &str, tag: &str) -> (r: Option<String>)
    requires
        !tag@.contains('<'),
    ensures
        match r {
            Some(c) => spec_extract_tag(text@, tag@) == Some(c@),
            None => spec_extract_tag(text@, tag@) is None,
        },
{
    proof {
        reveal_strlit("<");
        reveal_strlit("</");
        reveal_strlit(">");
    }
    let v = to_chars(text);
    let mut open: Vec<char> = Vec::new();
    extend_str(&mut open, "<");
    extend_str(&mut open, tag);
    extend_str(&mut open, ">");
    let mut close: Vec<char> = Vec::new();
    extend_str(&mut close, "</");
    extend_str(&mut close, tag);
    extend_str(&mut close, ">");
    assert(open@ == open_tag(tag@));
    assert(close@ == close_tag(tag@));
    proof {
        lemma_first_match(v@, open@, 0);
        lemma_first_match(v@, close@, 0);
    }
    let start = match find_from(&v, &open, 0) {
        Some(i) => i,
        None => return None,
    };
    let end = match find_from(&v, &close, 0) {
        Some(i) => i,
        None => return None,
    };
    if end <= start {
        return None;
    }
    proof {
        if end < start + open@.len() {
            let k = end - start;
            assert(v@[end as int] == close@[0]);
            assert(v@.subrange(start as int, start + open@.len())[k] == open@[k]);
            assert(open@[k] == '<');
            if k <= tag@.len() {
                assert(open@[k] == tag@[k - 1]);
            }
            assert(false);
        }
    }
    let (a, b) = trim_span(&v, start + open.len(), end);
    Some(string_of(&v, a, b))
}

/// The text inside `<compressed>` tags, or a compression error when the
/// response has no such tags.
pub fn parse_llm_response(response: &str) -> (r: Result<ParsedResponse, DistillError>)
    ensures
        match r {
            Ok(p) => spec_extract_tag(response@, "compressed"@) == Some(p.compressed@),
            Err(e) => {
                &&& spec_extract_tag(response@, "compressed"@) is None
                &&& e matches DistillError::Compression { chunk_index, section, cause }
                &&& chunk_index == 0
                &&& section@.len() == 0
                &&& cause@ == "missing <compressed> tag in LLM response"@
            },
        },
{
    proof {
        reveal_strlit("compressed");
    }
    match extract_tag(response, "compressed") {
        Some(compressed) => Ok(ParsedResponse { compressed }),
        None => Err(
            DistillError::Compression {
                chunk_index: 0,
                section: String::new(),
                cause: String::from_str("missing <compressed> tag in LLM response"),
            },
        ),
    }
}

/// What a response wraps in `<tag>` and `</tag>` reads back as that text,
/// trimmed, provided the text holds no `</tag>` of its own (and the tag has no
/// `<` or `/`).
pub proof fn lemma_wrapped_text_reads_back(body: Seq<char>, tag: Seq<char>)
    requires
        !tag.contains('<'),
        !tag.contains('/'),
        !contains_seq(body, close_tag(tag)),
    ensures
        spec_extract_tag(open_tag(tag) + body + close_tag(tag), tag) == Some(trim(body)),
{
    reveal_strlit("<");
    reveal_strlit("</");
    reveal_strlit(">");
    let o = open_tag(tag);
    let c = close_tag(tag);
    let s = o + body + c;
    let m = (o.len() + body.len()) as int;
    assert(o.len() == tag.len() + 2);
    assert(c.len() == tag.len() + 3);
    assert(o[0] == '<');
    assert(o[o.len() - 1] == '>');
    assert(c[0] == '<');
    assert(c[1] == '/');
    assert(c[c.len() - 1] == '>');
    assert forall|k: int| 1 <= k < o.len() implies o[k] != '<' && (k == 1 ==> o[k] != '/') by {
        if k < o.len() - 1 {
            assert(o[k] == tag[k - 1]);
        }
    }
    assert forall|k: int| 1 <= k < c.len() implies c[k] != '<' by {
        if 2 <= k < c.len() - 1 {
            assert(c[k] == tag[k - 2]);
        }
    }
    // the opening tag is at the very start
    assert(s.subrange(0, o.len() as int) =~= o);
    assert(first_match_from(s, o, 0) == 0);
    // the closing tag first occurs right after the text
    assert(s.subrange(m, m + c.len()) =~= c);
    lemma_first_match(body, c, 0);
    assert forall|j: int| 0 <= j < m implies !#[trigger] matches_at(s, c, j) by {
        if matches_at(s, c, j) {
            assert(s.subrange(j, j + c.len())[0] == c[0]);
            assert(s.subrange(j, j + c.len())[1] == c[1]);
            if j == 0 {
                assert(s[1] == o[1]);
            } else if j < o.len() {
                assert(s[j] == o[j]);
            } else if j + c.len() <= m {
                let b = j - o.len();
                assert(body.subrange(b, b + c.len()) =~= s.subrange(j, j + c.len()));
                assert(matches_at(body, c, b));
            } else {
                let k = m - j;
                assert(s.subrange(j, j + c.len())[k] == c[k]);
                assert(s[m] == c[0]);
            }
        }
    }
    lemma_first_match_at(s, c, 0, m);
    assert(s.subrange(o.len() as int, m) =~= body);
}

} // verus!
