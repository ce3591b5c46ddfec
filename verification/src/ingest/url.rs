//! Reading web pages: retries, content types, and article extraction.
use super::{html_to_markdown, spec_html_to_markdown, spec_to_lowercase, to_lowercase, Document};
use crate::error::DistillError;
use crate::mode::{estimate_tokens, spec_estimate_tokens};
use crate::text::{
    ascii_lower, contains, contains_seq, count_words, ends_with, ends_with_seq, extend_str,
    find_from, first_match_from, lemma_first_match, string_of, string_of_all, to_ascii_lower,
    to_chars, trim, trim_span, word_count,
};
use vstd::prelude::*;
use vstd::string::StringSliceAdditionalSpecFns;
use vstd::utf8::{decode_utf8, is_char_boundary};

verus! {

broadcast use vstd::utf8::encode_utf8_decode_utf8;

// ---------------------------------------------------------------------------
// Titles and previews
// ---------------------------------------------------------------------------

/// The trimmed text between the first `<title>` and the `</title>` after it,
/// both found case-insensitively; absent if either is missing or it is blank.
pub open spec fn spec_extract_title(html: Seq<char>) -> Option<Seq<char>> {
    let lower = html.map_values(|c: char| ascii_lower(c));
    let s = first_match_from(lower, "<title>"@, 0);
    if s < 0 {
        None
    } else {
        let start = s + 7;
        let e = first_match_from(lower, "</title>"@, start);
        if e < 0 {
            None
        } else {
            let t = trim(html.subrange(start, e));
            if t.len() == 0 {
                None
            } else {
                Some(t)
            }
        }
    }
}

/// The title of an HTML page.
pub fn extract_title(html: &str) -> (r: Option<String>)
    ensures
        match r {
            Some(t) => spec_extract_title(html@) == Some(t@),
            None => spec_extract_title(html@) is None,
        },
{
    proof {
        reveal_strlit("<title>");
    }
    let v = to_chars(html);
    let mut lower: Vec<char> = Vec::new();
    let mut i: usize = 0;
    while i < v.len()
        invariant
            i <= v@.len(),
            lower@ == v@.take(i as int).map_values(|c: char| ascii_lower(c)),
        decreases v@.len() - i,
    {
        lower.push(to_ascii_lower(v[i]));
        assert(lower@ =~= v@.take(i + 1).map_values(|c: char| ascii_lower(c)));
        i += 1;
    }
    assert(v@.take(v@.len() as int) =~= v@);
    let open = to_chars("<title>");
    let close = to_chars("</title>");
    proof {
        lemma_first_match(lower@, open@, 0);
    }
    let s = match find_from(&lower, &open, 0) {
        Some(s) => s,
        None => return None,
    };
    let start = s + 7;
    proof {
        lemma_first_match(lower@, close@, start as int);
    }
    let e = match find_from(&lower, &close, start) {
        Some(e) => e,
        None => return None,
    };
    let (a, b) = trim_span(&v, start, e);
    if a == b {
        return None;
    }
    Some(string_of(&v, a, b))
}

/// `text` cut after `max_len` bytes with `...` added, if it is longer.
pub open spec fn spec_truncate(text: &str, max_len: int) -> Seq<char> {
    if text.spec_bytes().len() > max_len {
        decode_utf8(text.spec_bytes().take(max_len)) + "..."@
    } else {
        text@
    }
}

/// Cutting after `max_len` bytes does not split a character (slicing panics
/// otherwise).
pub open spec fn cuttable(text: &str, max_len: int) -> bool {
    text.spec_bytes().len() > max_len ==> is_char_boundary(text.spec_bytes(), max_len)
}

/// `text` cut after `max_len` bytes with `...` added, if it is longer.
pub fn truncate(text: &str, max_len: usize) -> (r: String)
    requires
        cuttable(text, max_len as int),
    ensures
        r@ == spec_truncate(text, max_len as int),
{
    let n = text.as_bytes().len();
    if n > max_len {
        let (head, _) = text.split_at(max_len);
        assert(head.spec_bytes() =~= text.spec_bytes().take(max_len as int));
        assert(head@ == decode_utf8(head.spec_bytes()));
        String::from_str(head).concat("...")
    } else {
        String::from_str(text)
    }
}

/// A short preview of a text for messages: `<empty>` for an empty text.
pub open spec fn spec_preview(text: &str, max_len: int) -> Seq<char> {
    if text@.len() == 0 {
        "<empty>"@
    } else {
        spec_truncate(text, max_len)
    }
}

/// A short preview of a text for messages.
pub fn preview(text: &str, max_len: usize) -> (r: String)
    requires
        cuttable(text, max_len as int),
    ensures
        r@ == spec_preview(text, max_len as int),
{
    if text.is_empty() {
        String::from_str("<empty>")
    } else {
        truncate(text, max_len)
    }
}

// ---------------------------------------------------------------------------
// Fetching
// ---------------------------------------------------------------------------

/// Failed fetches are retried this many times.
pub const FETCH_RETRIES: usize = 2;

/// How many seconds to wait before retry `attempt` of a fetch: one second
/// before the first retry, three before the second.
pub fn fetch_retry_delay_secs(attempt: usize) -> (secs: u64)
    requires
        1 <= attempt <= FETCH_RETRIES,
    ensures
        secs == (if attempt == 1 { 1int } else { 3int }),
{
    if attempt == 1 {
        1
    } else {
        3
    }
}

/// The status code reports success (2xx).
pub open spec fn spec_is_success(code: u16) -> bool {
    200 <= code <= 299
}

/// The status code is worth a retry: too many requests, or a server error.
pub open spec fn spec_is_transient(code: u16) -> bool {
    code == 429 || 500 <= code <= 599
}

/// Whether an HTTP status code reports success.
pub fn is_success_status(code: u16) -> (b: bool)
    ensures
        b == spec_is_success(code),
{
    200 <= code && code <= 299
}

/// What to do after a failed fetch attempt.
#[derive(Debug)]
pub enum FetchStep {
    /// Wait, then make attempt `next_attempt`.
    Retry { next_attempt: usize },
    /// Give up with this error.
    Fail(DistillError),
}

/// The advice given when a site refuses automated access.
pub const FORBIDDEN_ADVICE: &'static str = "HTTP 403 Forbidden — this site blocks automated access.\n  Try saving the page as HTML or PDF and running distill on the file instead.";

/// The message of a failed response: status and a preview of the body.
pub open spec fn fetch_message(status: Seq<char>, body: &str) -> Seq<char> {
    "HTTP "@ + status + ": "@ + spec_preview(body, 240)
}

/// After attempt `attempt` got a non-success response: transient failures are
/// retried while attempts remain; otherwise the fetch fails, a 403 with advice.
pub open spec fn fetch_failure_ok(
    url: Seq<char>,
    attempt: int,
    code: u16,
    status: Seq<char>,
    body: &str,
    r: FetchStep,
) -> bool {
    if spec_is_transient(code) && attempt < FETCH_RETRIES {
        r == FetchStep::Retry { next_attempt: (attempt + 1) as usize }
    } else {
        r matches FetchStep::Fail(DistillError::Ingestion { source, cause }) && source@ == url && cause@
            == (if code == 403 {
            FORBIDDEN_ADVICE@
        } else {
            fetch_message(status, body)
        })
    }
}

/// The next step after a non-success response (`status` is its display text).
pub fn fetch_failure_step(url: &str, attempt: usize, code: u16, status: &str, body: &str) -> (r: FetchStep)
    requires
        attempt <= FETCH_RETRIES,
        cuttable(body, 240),
    ensures
        fetch_failure_ok(url@, attempt as int, code, status@, body, r),
{
    if (code == 429 || (500 <= code && code <= 599)) && attempt < FETCH_RETRIES {
        return FetchStep::Retry { next_attempt: attempt + 1 };
    }
    let cause = if code == 403 {
        String::from_str(FORBIDDEN_ADVICE)
    } else {
        let mut m: Vec<char> = Vec::new();
        extend_str(&mut m, "HTTP ");
        extend_str(&mut m, status);
        extend_str(&mut m, ": ");
        let p = preview(body, 240);
        extend_str(&mut m, p.as_str());
        string_of_all(&m)
    };
    FetchStep::Fail(DistillError::Ingestion { source: String::from_str(url), cause })
}

/// After attempt `attempt` failed without a response: timeouts and failed
/// connections are retried while attempts remain; otherwise the fetch fails with
/// the error's message.
pub open spec fn fetch_error_ok(
    url: Seq<char>,
    attempt: int,
    transient: bool,
    message: Seq<char>,
    r: FetchStep,
) -> bool {
    if transient && attempt < FETCH_RETRIES {
        r == FetchStep::Retry { next_attempt: (attempt + 1) as usize }
    } else {
        r matches FetchStep::Fail(DistillError::Ingestion { source, cause }) && source@ == url && cause@
            == message
    }
}

/// The next step after a failed attempt without a response.
pub fn fetch_error_step(url: &str, attempt: usize, transient: bool, message: String) -> (r: FetchStep)
    requires
        attempt <= FETCH_RETRIES,
    ensures
        fetch_error_ok(url@, attempt as int, transient, message@, r),
{
    if transient && attempt < FETCH_RETRIES {
        FetchStep::Retry { next_attempt: attempt + 1 }
    } else {
        FetchStep::Fail(DistillError::Ingestion { source: String::from_str(url), cause: message })
    }
}

/// A fetch is tried again only after a rate limit, a server error, a timeout
/// or a failed connection, one attempt later, and never past attempt
/// `FETCH_RETRIES`: at most `FETCH_RETRIES + 1` attempts in all.
pub proof fn lemma_fetch_retries_bounded(
    url: Seq<char>,
    attempt: int,
    code: u16,
    status: Seq<char>,
    body: &str,
    transient: bool,
    message: Seq<char>,
    after_response: FetchStep,
    after_error: FetchStep,
)
    requires
        0 <= attempt,
        fetch_failure_ok(url, attempt, code, status, body, after_response),
        fetch_error_ok(url, attempt, transient, message, after_error),
    ensures
        after_response matches FetchStep::Retry { next_attempt } ==> next_attempt == attempt + 1
            && next_attempt <= FETCH_RETRIES && spec_is_transient(code),
        after_error matches FetchStep::Retry { next_attempt } ==> next_attempt == attempt + 1
            && next_attempt <= FETCH_RETRIES && transient,
        attempt >= FETCH_RETRIES ==> after_response is Fail && after_error is Fail,
{
}

// ---------------------------------------------------------------------------
// Content
// ---------------------------------------------------------------------------

/// How a fetched body is read.
#[derive(Debug, Clone, Copy, PartialEq, Eq, Structural)]
pub enum DownloadKind {
    Pdf,
    Epub,
    Html,
}

/// The kind of a download from its lower-cased content type and its URL.
pub open spec fn spec_download_kind(ct_lower: Seq<char>, url: Seq<char>) -> DownloadKind {
    if contains_seq(ct_lower, "application/pdf"@) || ends_with_seq(url, ".pdf"@) {
        DownloadKind::Pdf
    } else if contains_seq(ct_lower, "application/epub"@) || contains_seq(
        ct_lower,
        "application/epub+zip"@,
    ) || ends_with_seq(url, ".epub"@) {
        DownloadKind::Epub
    } else {
        DownloadKind::Html
    }
}

/// The kind of a download from its lower-cased content type and its URL.
pub fn download_kind(ct_lower: &str, url: &str) -> (k: DownloadKind)
    ensures
        k == spec_download_kind(ct_lower@, url@),
{
    let ct = to_chars(ct_lower);
    let u = to_chars(url);
    if contains(&ct, "application/pdf") || ends_with(&u, ".pdf") {
        DownloadKind::Pdf
    } else if contains(&ct, "application/epub") || contains(&ct, "application/epub+zip")
        || ends_with(&u, ".epub") {
        DownloadKind::Epub
    } else {
        DownloadKind::Html
    }
}

/// The kind of a download from its content type header and its URL.
pub fn classify_download(content_type: &str, url: &str) -> (k: DownloadKind)
    ensures
        k == spec_download_kind(spec_to_lowercase(content_type@), url@),
{
    let lower = to_lowercase(content_type);
    download_kind(lower.as_str(), url)
}

/// Why an article with too few words is refused.
pub const TOO_SHORT: &'static str = "extracted content is too short (fewer than 20 words). This URL may be a JavaScript-rendered SPA — distill cannot process pages that require a browser to render.";

/// The document of an extracted article: refused under 20 words, else with the
/// page title and the token estimate.
pub open spec fn article_ok(url: Seq<char>, html: Seq<char>, content: Seq<char>, r: Result<Document, DistillError>) -> bool {
    if word_count(content) < 20 {
        r matches Err(DistillError::Ingestion { source, cause }) && source@ == url && cause@ == TOO_SHORT@
    } else {
        r matches Ok(d) && d.content@ == content && d.author is None && d.estimated_tokens
            == spec_estimate_tokens(content) && match d.title {
            Some(t) => spec_extract_title(html) == Some(t@),
            None => spec_extract_title(html) is None,
        }
    }
}

/// The document of an extracted article.
pub fn article_document(url: &str, html: &str, content: String) -> (r: Result<Document, DistillError>)
    ensures
        article_ok(url@, html@, content@, r),
{
    let cv = to_chars(content.as_str());
    if count_words(&cv) < 20 {
        return Err(DistillError::Ingestion { source: String::from_str(url), cause: String::from_str(TOO_SHORT) });
    }
    let tokens = estimate_tokens(content.as_str());
    Ok(Document { title: extract_title(html), author: None, content, estimated_tokens: tokens })
}

/// `url::Url`, carried through the library unopened.
#[verifier::external_type_specification]
#[verifier::external_body]
pub struct ExUrl(url::Url);

/// A parsed URL with the text it was parsed from. Its fields are private:
/// only `parse_url` makes one, so the text is always the one parsed.
pub struct ParsedUrl {
    url: url::Url,
    text: String,
}

impl View for ParsedUrl {
    type V = Seq<char>;

    /// The text the URL was parsed from.
    closed spec fn view(&self) -> Seq<char> {
        self.text@
    }
}

/// Whether `url::Url::parse` accepts a text, and the text of its error if not.
pub uninterp spec fn spec_url_parse(s: Seq<char>) -> Result<(), Seq<char>>;

/// `url::Url::parse`: success, or the error's display text, is named by
/// `spec_url_parse`; the parsed URL is kept with the text it came from.
#[verifier::external_body]
fn parse_url(s: &str) -> (r: Result<ParsedUrl, String>)
    ensures
        match r {
            Ok(p) => spec_url_parse(s@) == Ok::<(), Seq<char>>(()) && p@ == s@,
            Err(e) => spec_url_parse(s@) == Err::<(), Seq<char>>(e@),
        },
{
    match url::Url::parse(s) {
        Ok(u) => Ok(ParsedUrl { url: u, text: s.to_string() }),
        Err(e) => Err(e.to_string()),
    }
}

/// The article HTML that `readability` extracts from a page, or the text of its error.
pub uninterp spec fn spec_readability(html: Seq<char>, url: Seq<char>) -> Result<Seq<char>, Seq<char>>;

/// `readability::extractor::extract` over the page's bytes: the `content` of
/// the product, or the error's display text, is named by `spec_readability`,
/// a function of the page and of the URL, given by the text it was parsed
/// from (a `ParsedUrl` is only made by `parse_url`, from that text).
#[verifier::external_body]
fn readability_content(html: &str, url: &ParsedUrl) -> (r: Result<String, String>)
    ensures
        match r {
            Ok(c) => spec_readability(html@, url@) == Ok::<Seq<char>, Seq<char>>(c@),
            Err(e) => spec_readability(html@, url@) == Err::<Seq<char>, Seq<char>>(e@),
        },
{
    match readability::extractor::extract(&mut html.as_bytes(), &url.url) {
        Ok(product) => Ok(product.content),
        Err(e) => Err(e.to_string()),
    }
}

/// The Markdown of the main article of a page, or why it could not be had.
pub open spec fn extract_article_ok(html: Seq<char>, url: Seq<char>, r: Result<String, DistillError>) -> bool {
    match spec_url_parse(url) {
        Err(e) => r matches Err(DistillError::Ingestion { source, cause }) && source@ == url && cause@
            == "invalid URL: "@ + e,
        Ok(_) => match spec_readability(html, url) {
            Err(e) => r matches Err(DistillError::Ingestion { source, cause }) && source@ == url
                && cause@ == "article extraction failed: "@ + e,
            Ok(c) => r matches Ok(m) && m@ == spec_html_to_markdown(c),
        },
    }
}

fn ingestion_error(url: &str, prefix: &str, detail: &str) -> (e: DistillError)
    ensures
        e matches DistillError::Ingestion { source, cause } && source@ == url@ && cause@ == prefix@
            + detail@,
{
    let mut c: Vec<char> = Vec::new();
    extend_str(&mut c, prefix);
    extend_str(&mut c, detail);
    DistillError::Ingestion { source: String::from_str(url), cause: string_of_all(&c) }
}

/// The main article of a page, as Markdown.
pub fn extract_article(html: &str, url: &str) -> (r: Result<String, DistillError>)
    ensures
        extract_article_ok(html@, url@, r),
{
    let parsed = match parse_url(url) {
        Ok(p) => p,
        Err(e) => return Err(ingestion_error(url, "invalid URL: ", e.as_str())),
    };
    let content = match readability_content(html, &parsed) {
        Ok(c) => c,
        Err(e) => return Err(ingestion_error(url, "article extraction failed: ", e.as_str())),
    };
    Ok(html_to_markdown(content.as_str()))
}

} // verus!
