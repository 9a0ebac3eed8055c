//! Markdown rendering, through the CommonMark renderer.

use vstd::prelude::*;

verus! {

/// The HTML fragment that the markdown renderer produces for a text;
/// a function of the text alone.
pub uninterp spec fn html_of(md: Seq<char>) -> Seq<char>;

/// Relies on pulldown_cmark::Parser::new and pulldown_cmark::html::push_html:
/// renders CommonMark to an HTML fragment, a deterministic function of the
/// input text.
#[verifier::external_body]
pub(crate) fn render_markdown(md: &str) -> (r: String)
    ensures
        r@ == html_of(md@),
{
    let parser = pulldown_cmark::Parser::new(md);
    let mut html = String::new();
    pulldown_cmark::html::push_html(&mut html, parser);
    html
}

/// The plain text of a markdown line: the text events of the parse,
/// concatenated, with all markup stripped; a function of the line alone.
pub uninterp spec fn plain_text_of(line: Seq<char>) -> Seq<char>;

/// Relies on pulldown_cmark::Parser::new and pulldown_cmark::TextMergeStream:
/// walks the parse events of the line and keeps the text runs only, a
/// deterministic function of the input text.
#[verifier::external_body]
pub(crate) fn markdown_plain_text(line: &str) -> (r: String)
    ensures
        r@ == plain_text_of(line@),
{
    let parser = pulldown_cmark::Parser::new(line);
    let mut out = String::new();
    for event in pulldown_cmark::TextMergeStream::new(parser) {
        if let pulldown_cmark::Event::Text(t) = event {
            out.push_str(&t);
        }
    }
    out
}

} // verus!
