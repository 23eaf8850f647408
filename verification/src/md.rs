//! Markdown rendering for notes, with raw HTML dropped so reports cannot
//! inject markup into the dashboard.
use vstd::prelude::*;

use pulldown_cmark::{html, Event, Options, Parser};

verus! {

/// The CommonMark extensions a renderer can enable.
#[derive(Debug, Clone, Copy, PartialEq, Eq, Structural)]
pub enum MdExtension {
    Tables,
    Footnotes,
    Strikethrough,
    Tasklists,
    HeadingAttributes,
}

/// The kinds of parser events the HTML filter tells apart.
#[derive(Debug, Clone, Copy, PartialEq, Eq, Structural)]
pub enum MdEventKind {
    /// A block of raw HTML.
    Html,
    /// Raw HTML inside a paragraph.
    InlineHtml,
    /// Everything else (text, code, structure).
    Other,
}

/// The extensions notes are rendered with.
pub open spec fn markdown_extensions() -> Seq<MdExtension> {
    seq![
        MdExtension::Tables,
        MdExtension::Footnotes,
        MdExtension::Strikethrough,
        MdExtension::Tasklists,
        MdExtension::HeadingAttributes,
    ]
}

/// Builds the list of enabled extensions.
pub fn enabled_extensions() -> (v: Vec<MdExtension>)
    ensures
        v@ == markdown_extensions(),
{
    let mut v: Vec<MdExtension> = Vec::new();
    v.push(MdExtension::Tables);
    v.push(MdExtension::Footnotes);
    v.push(MdExtension::Strikethrough);
    v.push(MdExtension::Tasklists);
    v.push(MdExtension::HeadingAttributes);
    assert(v@ =~= markdown_extensions());
    v
}

/// Raw HTML (block or inline) is dropped; every other event is rendered.
pub fn keeps_event(kind: MdEventKind) -> (r: bool)
    ensures
        r == !(kind == MdEventKind::Html || kind == MdEventKind::InlineHtml),
{
    match kind {
        MdEventKind::Html => false,
        MdEventKind::InlineHtml => false,
        MdEventKind::Other => true,
    }
}

/// The HTML that `pulldown_cmark::html::push_html` writes for the events
/// `pulldown_cmark::Parser::new_ext` yields on `src` with `extensions`
/// enabled, after the events `keeps_event` refuses are taken out.
pub uninterp spec fn commonmark_html(src: Seq<char>, extensions: Seq<MdExtension>) -> Seq<char>;

/// Calls `pulldown_cmark::Parser::new_ext` with the given extensions turned
/// into `Options` flags, filters its events through `keeps_event`, and
/// writes them with `pulldown_cmark::html::push_html`. Claimed: the result
/// is `commonmark_html(src, extensions)`.
#[verifier::external_body]
fn render_commonmark(src: &str, extensions: &Vec<MdExtension>) -> (out: String)
    ensures
        out@ == commonmark_html(src@, extensions@),
{
    let mut opts = Options::empty();
    for e in extensions.iter() {
        opts.insert(match e { MdExtension::Tables => Options::ENABLE_TABLES, MdExtension::Footnotes => Options::ENABLE_FOOTNOTES, MdExtension::Strikethrough => Options::ENABLE_STRIKETHROUGH, MdExtension::Tasklists => Options::ENABLE_TASKLISTS, MdExtension::HeadingAttributes => Options::ENABLE_HEADING_ATTRIBUTES });
    }
    let events = Parser::new_ext(src, opts).filter(|ev| keeps_event(match ev { Event::Html(_) => MdEventKind::Html, Event::InlineHtml(_) => MdEventKind::InlineHtml, _ => MdEventKind::Other }));
    let mut out = String::new();
    html::push_html(&mut out, events);
    out
}

/// Render a user-supplied string as HTML through pulldown-cmark, dropping any
/// raw HTML in the input so agents can't inject markup.
pub fn to_html(src: &str) -> (r: String)
    ensures
        r@ == commonmark_html(src@, markdown_extensions()),
{
    let exts = enabled_extensions();
    render_commonmark(src, &exts)
}

} // verus!
