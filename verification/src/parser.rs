//! Structured extraction from a rendered article document.
//!
//! A fixed set of selectors locates the title, the author (with a
//! byline fallback), the publish time and the content container; each
//! field falls back to a fixed placeholder, so extraction is total.
//! The selector queries themselves go through the `scraper` crate; the
//! fallback policy, trimming and normalization around them are verified.

use vstd::prelude::*;
use vstd::string::StringExecFns;

use crate::text;

verus! {

/// Parsed article fields; every field is always populated, with a
/// placeholder standing in where the document offers nothing.
#[derive(Debug, Clone)]
pub struct ArticleData {
    pub title: String,
    pub author: String,
    pub publish_time: String,
    pub content: String,
}

/// The selector for the title heading.
pub open spec fn title_css() -> Seq<char> {
    "h1#activity-name"@
}

/// The selector for the dedicated author-name element.
pub open spec fn author_css() -> Seq<char> {
    "span#js_author_name"@
}

/// The selector for the byline link, the author fallback.
pub open spec fn name_css() -> Seq<char> {
    "a#js_name"@
}

/// The selector for the publish-time element.
pub open spec fn publish_time_css() -> Seq<char> {
    "em#publish_time"@
}

/// The selector for the content container.
pub open spec fn content_css() -> Seq<char> {
    "div#js_content"@
}

/// The placeholder for a missing title.
pub open spec fn title_placeholder() -> Seq<char> {
    "未找到标题"@
}

/// The placeholder for an unknown author.
pub open spec fn author_placeholder() -> Seq<char> {
    "未知作者"@
}

/// The placeholder for an unknown publish time.
pub open spec fn time_placeholder() -> Seq<char> {
    "未知时间"@
}

/// The placeholder for missing content.
pub open spec fn content_placeholder() -> Seq<char> {
    "未找到正文内容"@
}

/// The title selector text.
pub fn title_selector() -> (r: &'static str)
    ensures
        r@ == title_css(),
{
    "h1#activity-name"
}

/// The author selector text.
pub fn author_selector() -> (r: &'static str)
    ensures
        r@ == author_css(),
{
    "span#js_author_name"
}

/// The byline selector text.
pub fn name_selector() -> (r: &'static str)
    ensures
        r@ == name_css(),
{
    "a#js_name"
}

/// The publish-time selector text.
pub fn publish_time_selector() -> (r: &'static str)
    ensures
        r@ == publish_time_css(),
{
    "em#publish_time"
}

/// The content-container selector text.
pub fn content_selector() -> (r: &'static str)
    ensures
        r@ == content_css(),
{
    "div#js_content"
}

/// The concatenated text of the first element of `html` that the
/// selector `css` matches, or nothing when it matches no element.
pub uninterp spec fn sel_first_text(html: Seq<char>, css: Seq<char>) -> Option<Seq<char>>;

/// The text of the re-parsed inner markup of the first element of
/// `html` that the selector `css` matches, text nodes joined with
/// single newlines, or nothing when it matches no element.
pub uninterp spec fn sel_content_text(html: Seq<char>, css: Seq<char>) -> Option<Seq<char>>;

/// Relies on `scraper::Html::parse_document`, `Selector::parse`,
/// `Html::select` and `ElementRef::text`: the text nodes under the
/// first match of the selector, concatenated in order. The result is a
/// function of the two strings alone.
#[verifier::external_body]
fn query_first_text(html: &str, css: &str) -> (r: Option<String>)
    ensures
        r is Some <==> sel_first_text(html@, css@) is Some,
        r matches Some(t) ==> sel_first_text(html@, css@) == Some(t@),
{
    let doc = scraper::Html::parse_document(html);
    let sel = match scraper::Selector::parse(css) {
        Ok(s) => s,
        Err(_) => return None,
    };
    let el = doc.select(&sel).next()?;
    Some(el.text().collect::<Vec<_>>().join(""))
}

/// Relies on `scraper::Html::parse_document`/`parse_fragment`,
/// `Selector::parse`, `Html::select`, `ElementRef::inner_html` and
/// `ElementRef::text`: the first match's inner markup re-parsed as a
/// standalone fragment, whose text nodes are joined with single
/// newlines. The result is a function of the two strings alone.
#[verifier::external_body]
fn query_content_text(html: &str, css: &str) -> (r: Option<String>)
    ensures
        r is Some <==> sel_content_text(html@, css@) is Some,
        r matches Some(t) ==> sel_content_text(html@, css@) == Some(t@),
{
    let doc = scraper::Html::parse_document(html);
    let sel = match scraper::Selector::parse(css) {
        Ok(s) => s,
        Err(_) => return None,
    };
    let el = doc.select(&sel).next()?;
    let fragment = scraper::Html::parse_fragment(&el.inner_html());
    Some(fragment.root_element().text().collect::<Vec<_>>().join("\n"))
}

/// The extracted title: the first title-heading match, trimmed, or the
/// placeholder when the selector matches nothing.
pub open spec fn spec_title(html: Seq<char>) -> Seq<char> {
    match sel_first_text(html, title_css()) {
        Some(t) => text::trim_ws(t),
        None => title_placeholder(),
    }
}

/// The extracted author: the primary author element when its trimmed
/// text is non-empty, else the byline fallback when its trimmed text is
/// non-empty, else the placeholder. A primary match whose text trims to
/// nothing never wins.
pub open spec fn spec_author(html: Seq<char>) -> Seq<char> {
    let primary = sel_first_text(html, author_css());
    let fallback = sel_first_text(html, name_css());
    if primary is Some && text::trim_ws(primary->0).len() > 0 {
        text::trim_ws(primary->0)
    } else if fallback is Some && text::trim_ws(fallback->0).len() > 0 {
        text::trim_ws(fallback->0)
    } else {
        author_placeholder()
    }
}

/// The extracted publish time: the first time-element match, trimmed,
/// or the placeholder when the selector matches nothing.
pub open spec fn spec_publish_time(html: Seq<char>) -> Seq<char> {
    match sel_first_text(html, publish_time_css()) {
        Some(t) => text::trim_ws(t),
        None => time_placeholder(),
    }
}

/// The extracted content: the container's fragment text, normalized,
/// or the placeholder when the container is absent.
pub open spec fn spec_content(html: Seq<char>) -> Seq<char> {
    match sel_content_text(html, content_css()) {
        Some(t) => text::normalize_text(t),
        None => content_placeholder(),
    }
}

/// Extractor for rendered article documents; the selectors it applies
/// are fixed.
pub struct WeixinParser {}

impl WeixinParser {
    /// A new extractor.
    pub fn new() -> (r: Self) {
        WeixinParser {}
    }

    /// Extracts the title.
    pub fn extract_title(&self, html: &str) -> (r: String)
        ensures
            r@ == spec_title(html@),
    {
        match query_first_text(html, title_selector()) {
            Some(t) => text::trim_string(t.as_str()),
            None => String::from_str(
                "未找到标题",
            ),
        }
    }

    /// Extracts the author: the dedicated author element first, the
    /// byline link as fallback, and only non-empty trimmed text wins.
    pub fn extract_author(&self, html: &str) -> (r: String)
        ensures
            r@ == spec_author(html@),
    {
        if let Some(t) = query_first_text(html, author_selector()) {
            let trimmed = text::trim_string(t.as_str());
            if trimmed.as_str().unicode_len() > 0 {
                return trimmed;
            }
        }
        if let Some(t) = query_first_text(html, name_selector()) {
            let trimmed = text::trim_string(t.as_str());
            if trimmed.as_str().unicode_len() > 0 {
                return trimmed;
            }
        }
        String::from_str("未知作者")
    }

    /// Extracts the publish time.
    pub fn extract_publish_time(&self, html: &str) -> (r: String)
        ensures
            r@ == spec_publish_time(html@),
    {
        match query_first_text(html, publish_time_selector()) {
            Some(t) => text::trim_string(t.as_str()),
            None => String::from_str(
                "未知时间",
            ),
        }
    }

    /// Extracts the content: the container's fragment text normalized,
    /// or the placeholder when the container never appeared.
    pub fn extract_content(&self, html: &str) -> (r: String)
        ensures
            r@ == spec_content(html@),
    {
        match query_content_text(html, content_selector()) {
            Some(t) => text::normalize(t.as_str()),
            None => String::from_str(
                "未找到正文内容",
            ),
        }
    }

    /// Collapses redundant whitespace in extracted text.
    pub fn clean_text(&self, s: &str) -> (r: String)
        ensures
            r@ == text::normalize_text(s@),
    {
        text::normalize(s)
    }

    /// Extracts all four fields; every field is populated, so parsing
    /// never fails.
    pub fn parse(&self, html: &str) -> (r: ArticleData)
        ensures
            r.title@ == spec_title(html@),
            r.author@ == spec_author(html@),
            r.publish_time@ == spec_publish_time(html@),
            r.content@ == spec_content(html@),
    {
        ArticleData {
            title: self.extract_title(html),
            author: self.extract_author(html),
            publish_time: self.extract_publish_time(html),
            content: self.extract_content(html),
        }
    }
}

/// When the content container is absent, extraction still returns a
/// record, and its content is exactly the placeholder.
pub proof fn lemma_missing_content_placeholder(html: Seq<char>)
    requires
        sel_content_text(html, content_css()) is None,
    ensures
        spec_content(html) == content_placeholder(),
{
}

/// When the primary author element is present but its text trims to
/// nothing, the byline fallback decides the author: its trimmed text
/// when non-empty, the placeholder otherwise. The primary never wins on
/// empty text.
pub proof fn lemma_author_fallback(html: Seq<char>)
    requires
        sel_first_text(html, author_css()) matches Some(t) && text::trim_ws(t).len() == 0,
    ensures
        spec_author(html) == (match sel_first_text(html, name_css()) {
            Some(u) => if text::trim_ws(u).len() > 0 {
                text::trim_ws(u)
            } else {
                author_placeholder()
            },
            None => author_placeholder(),
        }),
{
}

} // verus!
