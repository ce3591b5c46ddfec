//! Reading EPUB documents.
use super::{html_to_markdown, spec_html_to_markdown, Document};
use crate::mode::{estimate_tokens, spec_estimate_tokens};
use crate::text::{join, join_strings, string_views, to_chars, trim, trim_chars, trim_start};
use vstd::prelude::*;

verus! {

/// The Markdown of each page whose Markdown is not blank.
pub open spec fn page_parts(pages: Seq<Seq<char>>) -> Seq<Seq<char>>
    decreases pages.len(),
{
    if pages.len() == 0 {
        seq![]
    } else {
        let md = spec_html_to_markdown(pages.last());
        if trim(md).len() > 0 {
            page_parts(pages.drop_last()).push(md)
        } else {
            page_parts(pages.drop_last())
        }
    }
}

/// The text of a book from the HTML of its pages in reading order: each page
/// turned into Markdown, blank ones dropped, joined by blank lines.
pub open spec fn spec_epub_content(pages: Seq<Seq<char>>) -> Seq<char> {
    join(page_parts(pages), "\n\n"@)
}

/// Reading order is kept: a page added at the end of a book adds its Markdown
/// at the end of the text, after a blank line if text came before; a page
/// whose Markdown is blank leaves the text as it was.
pub proof fn lemma_epub_pages_in_order(pages: Seq<Seq<char>>, page: Seq<char>)
    ensures
        ({
            let md = spec_html_to_markdown(page);
            let before = spec_epub_content(pages);
            let after = spec_epub_content(pages.push(page));
            &&& trim(md).len() > 0 && before.len() > 0 ==> after == before + "\n\n"@ + md
            &&& trim(md).len() > 0 && before.len() == 0 ==> after == md
            &&& trim(md).len() == 0 ==> after == before
        }),
{
    let md = spec_html_to_markdown(page);
    let parts = page_parts(pages);
    assert(pages.push(page).drop_last() =~= pages);
    assert(pages.push(page).last() == page);
    lemma_parts_not_empty(pages);
    if trim(md).len() > 0 {
        let np = parts.push(md);
        assert(np.drop_last() =~= parts);
        if parts.len() == 0 {
            assert(np.len() == 1);
        }
    }
}

proof fn lemma_parts_not_empty(pages: Seq<Seq<char>>)
    ensures
        page_parts(pages).len() > 0 ==> spec_epub_content(pages).len() > 0,
    decreases pages.len(),
{
    if pages.len() > 0 {
        let md = spec_html_to_markdown(pages.last());
        lemma_parts_not_empty(pages.drop_last());
        if trim(md).len() > 0 {
            assert(md.len() > 0) by {
                if md.len() == 0 {
                    assert(trim_start(md) == md);
                    assert(trim(md).len() == 0);
                }
            }
            let parts = page_parts(pages);
            assert(parts.last() == md);
            if parts.len() > 1 {
                assert((join(parts.drop_last(), "\n\n"@) + "\n\n"@ + md).len() >= md.len());
            }
        }
    }
}

/// The document of a book from its metadata and the HTML of its pages.
pub fn epub_document(title: Option<String>, author: Option<String>, pages: &Vec<String>) -> (d: Document)
    ensures
        d.title == title,
        d.author == author,
        d.content@ == spec_epub_content(string_views(pages@)),
        d.estimated_tokens == spec_estimate_tokens(d.content@),
{
    let ghost pv = string_views(pages@);
    let mut parts: Vec<String> = Vec::new();
    let mut i: usize = 0;
    while i < pages.len()
        invariant
            pv == string_views(pages@),
            i <= pages@.len(),
            string_views(parts@) == page_parts(pv.take(i as int)),
        decreases pages@.len() - i,
    {
        assert(pv.take(i + 1).drop_last() =~= pv.take(i as int));
        assert(pv.take(i + 1).last() == pages@[i as int]@);
        let md = html_to_markdown(pages[i].as_str());
        let mdv = to_chars(md.as_str());
        let t = trim_chars(&mdv);
        if t.len() > 0 {
            let ghost before = string_views(parts@);
            parts.push(md);
            assert(string_views(parts@) =~= before.push(spec_html_to_markdown(pages@[i as int]@)));
        }
        i += 1;
    }
    assert(pv.take(pages@.len() as int) =~= pv);
    let content = join_strings(&parts, "\n\n");
    let tokens = estimate_tokens(content.as_str());
    Document { title, author, content, estimated_tokens: tokens }
}

} // verus!
