//! Rendering a document as an HTML page: the inverse of building it.

use vstd::prelude::*;
use vstd::string::StringExecFns;
use crate::assets::{AssetDirs, BLOG_CSS_FILE, MAIN_CSS_FILE, RESET_CSS_FILE};
use crate::doc::{
    Block, BlockView, Blockquote, Body, CodeBlock, Document, Heading, HeadingLevel, Inline, InlineView, List, ListItem,
    ListType, Paragraph, blocks_view, inlines_view, items_view,
};

verus! {

/// What a character becomes in escaped text: the six characters that mean
/// something to HTML become entities, every other character stays.
pub open spec fn escaped_char(c: char) -> Seq<char> {
    if c == '"' {
        "&quot;"@
    } else if c == '&' {
        "&amp;"@
    } else if c == '\'' {
        "&#x27;"@
    } else if c == '/' {
        "&#x2f;"@
    } else if c == '<' {
        "&lt;"@
    } else if c == '>' {
        "&gt;"@
    } else {
        seq![c]
    }
}

/// The text with every character escaped.
pub open spec fn escaped(text: Seq<char>) -> Seq<char>
    decreases text.len(),
{
    if text.len() == 0 {
        Seq::empty()
    } else {
        escaped(text.drop_last()) + escaped_char(text.last())
    }
}

/// Calls `v_htmlescape::escape_string`, which appends the escaped text to
/// the buffer: `"`, `&`, `'`, `/`, `<` and `>` as entities, everything else
/// as it is.
#[verifier::external_body]
fn escape(text: &str, buf: &mut String)
    ensures
        final(buf)@ == old(buf)@ + escaped(text@),
{
    v_htmlescape::escape_string(text, buf)
}

/// The tag of a heading.
pub open spec fn heading_tag(level: HeadingLevel) -> Seq<char> {
    match level {
        HeadingLevel::H1 => "h1"@,
        HeadingLevel::H2 => "h2"@,
        HeadingLevel::H3 => "h3"@,
        HeadingLevel::H4 => "h4"@,
        HeadingLevel::H5 => "h5"@,
        HeadingLevel::H6 => "h6"@,
    }
}

/// The tag of a list.
pub open spec fn list_tag(kind: ListType) -> Seq<char> {
    match kind {
        ListType::Unordered => "ul"@,
        ListType::Ordered => "ol"@,
    }
}

/// An inline as HTML: text is escaped, a wrapper is the tag around what it
/// wraps.
pub open spec fn inline_html(inline: InlineView) -> Seq<char>
    decreases inline,
{
    match inline {
        InlineView::Text(text) => escaped(text),
        InlineView::Bold(inner) => "<b>"@ + inline_html(*inner) + "</b>"@,
        InlineView::Italic(inner) => "<i>"@ + inline_html(*inner) + "</i>"@,
        InlineView::Code(inner) => "<code>"@ + inline_html(*inner) + "</code>"@,
    }
}

/// Several inlines as HTML, one after the other.
pub open spec fn inlines_html(inlines: Seq<InlineView>) -> Seq<char>
    decreases inlines.len(),
{
    if inlines.len() == 0 {
        Seq::empty()
    } else {
        inlines_html(inlines.drop_last()) + inline_html(inlines.last())
    }
}

/// A heading as HTML.
pub open spec fn heading_html(level: HeadingLevel, inlines: Seq<InlineView>) -> Seq<char> {
    "<"@ + heading_tag(level) + ">\n"@ + inlines_html(inlines) + "</"@ + heading_tag(level) + ">\n"@
}

/// A paragraph as HTML.
pub open spec fn paragraph_html(inlines: Seq<InlineView>) -> Seq<char> {
    "<p>\n"@ + inlines_html(inlines) + "\n"@ + "</p>\n"@
}

/// A code block as HTML. Nothing is put between the tags and the text,
/// where white space counts.
pub open spec fn code_block_html(inlines: Seq<InlineView>) -> Seq<char> {
    "<pre><code>"@ + inlines_html(inlines) + "</code></pre>\n"@
}

/// A block as HTML, between two line breaks.
pub open spec fn block_html(block: BlockView) -> Seq<char>
    decreases block, 0int,
{
    "\n"@ + (match block {
        BlockView::Heading { level, inlines } => heading_html(level, inlines),
        BlockView::Paragraph { inlines } => paragraph_html(inlines),
        BlockView::List { kind, items } => list_html(kind, items),
        BlockView::Blockquote { blocks } => blockquote_html(blocks),
        BlockView::CodeBlock { lang, inlines } => code_block_html(inlines),
        BlockView::ThematicBreak => "<hr />\n"@,
    }) + "\n"@
}

/// Several blocks as HTML, one after the other.
pub open spec fn blocks_html(blocks: Seq<BlockView>) -> Seq<char>
    decreases blocks, 0int,
{
    if blocks.len() == 0 {
        Seq::empty()
    } else {
        blocks_html(blocks.drop_last()) + block_html(blocks.last())
    }
}

/// A block quote as HTML: its blocks between the tags.
pub open spec fn blockquote_html(blocks: Seq<BlockView>) -> Seq<char>
    decreases blocks, 1int,
{
    "<blockquote>\n"@ + blocks_html(blocks) + "</blockquote>\n"@
}

/// A list item as HTML: its blocks between the tags.
pub open spec fn item_html(blocks: Seq<BlockView>) -> Seq<char>
    decreases blocks, 1int,
{
    "<li>\n"@ + blocks_html(blocks) + "</li>\n"@
}

/// Several list items as HTML, one after the other.
pub open spec fn items_html(items: Seq<Seq<BlockView>>) -> Seq<char>
    decreases items, 0int,
{
    if items.len() == 0 {
        Seq::empty()
    } else {
        items_html(items.drop_last()) + item_html(items.last())
    }
}

/// A list as HTML: its items between the tags of its kind.
pub open spec fn list_html(kind: ListType, items: Seq<Seq<BlockView>>) -> Seq<char>
    decreases items, 1int,
{
    "<"@ + list_tag(kind) + ">\n"@ + items_html(items) + "\n"@ + "</"@ + list_tag(kind) + ">\n"@
}

/// The body of a page.
pub open spec fn body_html(blocks: Seq<BlockView>) -> Seq<char> {
    "\n"@ + "<body>\n"@ + "<main>\n"@ + "<article>\n"@ + blocks_html(blocks) + "</article>\n"@ + "</main>\n"@
        + "</body>\n"@ + "\n"@
}

/// The line of the head of a page that names a style sheet.
pub open spec fn stylesheet_html(href: Seq<char>) -> Seq<char> {
    "  <link rel='stylesheet' href='"@ + href + "'>\n"@
}

/// The head of a page that refers to three style sheets.
pub open spec fn head_html(reset: Seq<char>, main: Seq<char>, blog: Seq<char>) -> Seq<char> {
    "\n"@ + "<head>\n"@ + "  <meta charset='utf-8'>\n"@ + stylesheet_html(reset) + stylesheet_html(main)
        + stylesheet_html(blog) + "</head>\n"@ + "\n"@
}

/// A whole page: the head, which refers to three style sheets, and the
/// body, which holds the blocks.
pub open spec fn page_html(reset: Seq<char>, main: Seq<char>, blog: Seq<char>, blocks: Seq<BlockView>) -> Seq<
    char,
> {
    "<!doctype html>\n"@ + "<html lang='en'>\n"@ + head_html(reset, main, blog) + body_html(blocks)
        + "</html>\n"@
}

/// Appends an inline.
pub fn render_inline(buf: &mut String, inline: &Inline)
    ensures
        final(buf)@ == old(buf)@ + inline_html(inline@),
    decreases inline,
{
    match inline {
        Inline::Text(text) => {
            escape(text.as_str(), buf);
        },
        Inline::Bold(inner) => {
            buf.append("<b>");
            render_inline(buf, inner);
            buf.append("</b>");
            assert(buf@ =~= old(buf)@ + inline_html(inline@));
        },
        Inline::Italic(inner) => {
            buf.append("<i>");
            render_inline(buf, inner);
            buf.append("</i>");
            assert(buf@ =~= old(buf)@ + inline_html(inline@));
        },
        Inline::Code(inner) => {
            buf.append("<code>");
            render_inline(buf, inner);
            buf.append("</code>");
            assert(buf@ =~= old(buf)@ + inline_html(inline@));
        },
    }
}

/// Appends several inlines, in order.
fn render_inlines(buf: &mut String, inlines: &Vec<Inline>)
    ensures
        final(buf)@ == old(buf)@ + inlines_html(inlines_view(inlines@)),
{
    let ghost all = inlines_view(inlines@);
    proof {
        assert(all.take(0) =~= Seq::empty());
        assert(buf@ =~= old(buf)@ + inlines_html(all.take(0)));
    }
    for i in 0..inlines.len()
        invariant
            all == inlines_view(inlines@),
            buf@ == old(buf)@ + inlines_html(all.take(i as int)),
    {
        proof {
            assert(all.take(i + 1).drop_last() =~= all.take(i as int));
            assert(all.take(i + 1).last() == inlines@[i as int]@);
        }
        render_inline(buf, &inlines[i]);
        assert(buf@ =~= old(buf)@ + inlines_html(all.take(i + 1)));
    }
    proof {
        assert(all.take(inlines.len() as int) =~= all);
    }
}

/// Appends a heading.
pub fn render_heading(buf: &mut String, heading: &Heading)
    ensures
        final(buf)@ == old(buf)@ + heading_html(heading.level, inlines_view(heading.inlines@)),
{
    let lvl = match heading.level {
        HeadingLevel::H1 => "h1",
        HeadingLevel::H2 => "h2",
        HeadingLevel::H3 => "h3",
        HeadingLevel::H4 => "h4",
        HeadingLevel::H5 => "h5",
        HeadingLevel::H6 => "h6",
    };
    buf.append("<");
    buf.append(lvl);
    buf.append(">\n");
    render_inlines(buf, &heading.inlines);
    buf.append("</");
    buf.append(lvl);
    buf.append(">\n");
    assert(buf@ =~= old(buf)@ + heading_html(heading.level, inlines_view(heading.inlines@)));
}

/// Appends a paragraph.
pub fn render_paragraph(buf: &mut String, para: &Paragraph)
    ensures
        final(buf)@ == old(buf)@ + paragraph_html(inlines_view(para.inlines@)),
{
    buf.append("<p>\n");
    render_inlines(buf, &para.inlines);
    buf.append("\n");
    buf.append("</p>\n");
    assert(buf@ =~= old(buf)@ + paragraph_html(inlines_view(para.inlines@)));
}

/// Appends a code block.
pub fn render_code_block(buf: &mut String, code: &CodeBlock)
    ensures
        final(buf)@ == old(buf)@ + code_block_html(inlines_view(code.inlines@)),
{
    buf.append("<pre><code>");
    render_inlines(buf, &code.inlines);
    buf.append("</code></pre>\n");
    assert(buf@ =~= old(buf)@ + code_block_html(inlines_view(code.inlines@)));
}

/// Appends a block, between two line breaks.
pub fn render_block(buf: &mut String, block: &Block)
    ensures
        final(buf)@ == old(buf)@ + block_html(block@),
    decreases block,
{
    buf.append("\n");
    match block {
        Block::Heading(heading) => {
            render_heading(buf, heading);
        },
        Block::Paragraph(para) => {
            render_paragraph(buf, para);
        },
        Block::List(list) => {
            render_list(buf, list);
        },
        Block::Blockquote(quote) => {
            render_blockquote(buf, quote);
        },
        Block::CodeBlock(code) => {
            render_code_block(buf, code);
        },
        Block::ThematicBreak => {
            buf.append("<hr />\n");
        },
    }
    buf.append("\n");
    assert(buf@ =~= old(buf)@ + block_html(block@));
}

/// Appends several blocks, in order.
#[verifier::loop_isolation(false)]
fn render_blocks(buf: &mut String, blocks: &Vec<Block>)
    ensures
        final(buf)@ == old(buf)@ + blocks_html(blocks_view(blocks@)),
    decreases blocks,
{
    let ghost all = blocks_view(blocks@);
    proof {
        assert(all.take(0) =~= Seq::empty());
        assert(buf@ =~= old(buf)@ + blocks_html(all.take(0)));
    }
    for i in 0..blocks.len()
        invariant
            buf@ == old(buf)@ + blocks_html(all.take(i as int)),
    {
        proof {
            assert(all.take(i + 1).drop_last() =~= all.take(i as int));
            assert(all.take(i + 1).last() == blocks@[i as int]@);
        }
        render_block(buf, &blocks[i]);
        assert(buf@ =~= old(buf)@ + blocks_html(all.take(i + 1)));
    }
    proof {
        assert(all.take(blocks.len() as int) =~= all);
    }
}

/// Appends a block quote.
pub fn render_blockquote(buf: &mut String, quote: &Blockquote)
    ensures
        final(buf)@ == old(buf)@ + blockquote_html(blocks_view(quote.blocks@)),
    decreases quote,
{
    buf.append("<blockquote>\n");
    render_blocks(buf, &quote.blocks);
    buf.append("</blockquote>\n");
    assert(buf@ =~= old(buf)@ + blockquote_html(blocks_view(quote.blocks@)));
}

/// Appends a list.
#[verifier::loop_isolation(false)]
pub fn render_list(buf: &mut String, list: &List)
    ensures
        final(buf)@ == old(buf)@ + list_html(list.type_, items_view(list.items@)),
    decreases list,
{
    let tag = match list.type_ {
        ListType::Unordered => "ul",
        ListType::Ordered => "ol",
    };
    buf.append("<");
    buf.append(tag);
    buf.append(">\n");
    let ghost start = buf@;
    let ghost all = items_view(list.items@);
    proof {
        assert(all.take(0) =~= Seq::empty());
        assert(buf@ =~= start + items_html(all.take(0)));
    }
    for i in 0..list.items.len()
        invariant
            buf@ == start + items_html(all.take(i as int)),
    {
        proof {
            assert(all.take(i + 1).drop_last() =~= all.take(i as int));
            assert(all.take(i + 1).last() == list.items@[i as int]@);
        }
        render_list_item(buf, &list.items[i]);
        assert(buf@ =~= start + items_html(all.take(i + 1)));
    }
    proof {
        assert(all.take(list.items.len() as int) =~= all);
    }
    buf.append("\n");
    buf.append("</");
    buf.append(tag);
    buf.append(">\n");
    assert(buf@ =~= old(buf)@ + list_html(list.type_, all));
}

/// Appends a list item.
pub fn render_list_item(buf: &mut String, item: &ListItem)
    ensures
        final(buf)@ == old(buf)@ + item_html(item@),
    decreases item,
{
    buf.append("<li>\n");
    render_blocks(buf, &item.blocks);
    buf.append("</li>\n");
    assert(buf@ =~= old(buf)@ + item_html(item@));
}

/// Appends the body of a page.
pub fn render_body(buf: &mut String, body: &Body)
    ensures
        final(buf)@ == old(buf)@ + body_html(body@),
{
    buf.append("\n");
    buf.append("<body>\n");
    buf.append("<main>\n");
    buf.append("<article>\n");
    render_blocks(buf, &body.blocks);
    buf.append("</article>\n");
    buf.append("</main>\n");
    buf.append("</body>\n");
    buf.append("\n");
    assert(buf@ =~= old(buf)@ + body_html(body@));
}

/// Appends the head of a page that refers to the three given style sheets.
pub fn render_head_with(buf: &mut String, reset_href: &str, main_href: &str, blog_href: &str)
    ensures
        final(buf)@ == old(buf)@ + head_html(reset_href@, main_href@, blog_href@),
{
    buf.append("\n");
    buf.append("<head>\n");
    buf.append("  <meta charset='utf-8'>\n");
    buf.append("  <link rel='stylesheet' href='");
    buf.append(reset_href);
    buf.append("'>\n");
    buf.append("  <link rel='stylesheet' href='");
    buf.append(main_href);
    buf.append("'>\n");
    buf.append("  <link rel='stylesheet' href='");
    buf.append(blog_href);
    buf.append("'>\n");
    buf.append("</head>\n");
    buf.append("\n");
    assert(buf@ =~= old(buf)@ + head_html(reset_href@, main_href@, blog_href@));
}

/// Appends the head of a page. Its three style sheets are named as the
/// platform joins their file names to the directory of the assets.
pub fn render_head(buf: &mut String, assets: &AssetDirs)
    ensures
        exists|reset: Seq<char>, main: Seq<char>, blog: Seq<char>|
            final(buf)@ == old(buf)@ + #[trigger] head_html(reset, main, blog),
{
    let reset_file = assets.css_href(RESET_CSS_FILE);
    let main_file = assets.css_href(MAIN_CSS_FILE);
    let blog_file = assets.css_href(BLOG_CSS_FILE);
    render_head_with(buf, reset_file.as_str(), main_file.as_str(), blog_file.as_str());
}

/// A whole page that refers to the three given style sheets and holds the
/// blocks of the document.
pub fn render_page(reset_href: &str, main_href: &str, blog_href: &str, doc: &Document) -> (r: String)
    ensures
        r@ == page_html(reset_href@, main_href@, blog_href@, doc@.blocks),
{
    let mut buf = String::new();
    buf.append("<!doctype html>\n");
    buf.append("<html lang='en'>\n");
    render_head_with(&mut buf, reset_href, main_href, blog_href);
    render_body(&mut buf, &doc.body);
    buf.append("</html>\n");
    assert(buf@ =~= page_html(reset_href@, main_href@, blog_href@, doc@.blocks));
    buf
}

/// Appends a whole page. Its three style sheets are named as the platform
/// joins their file names to the directory of the assets.
pub fn render_doc(buf: &mut String, assets: &AssetDirs, doc: &Document)
    ensures
        exists|reset: Seq<char>, main: Seq<char>, blog: Seq<char>|
            final(buf)@ == old(buf)@ + #[trigger] page_html(reset, main, blog, doc@.blocks),
{
    let reset_file = assets.css_href(RESET_CSS_FILE);
    let main_file = assets.css_href(MAIN_CSS_FILE);
    let blog_file = assets.css_href(BLOG_CSS_FILE);
    buf.append("<!doctype html>\n");
    buf.append("<html lang='en'>\n");
    render_head_with(buf, reset_file.as_str(), main_file.as_str(), blog_file.as_str());
    render_body(buf, &doc.body);
    buf.append("</html>\n");
    assert(buf@ =~= old(buf)@ + page_html(reset_file@, main_file@, blog_file@, doc@.blocks));
}

/// The document as a page of HTML.
pub fn to_string(assets: &AssetDirs, doc: &Document) -> (r: String)
    ensures
        exists|reset: Seq<char>, main: Seq<char>, blog: Seq<char>|
            r@ == #[trigger] page_html(reset, main, blog, doc@.blocks),
{
    let mut buf = String::new();
    render_doc(&mut buf, assets, doc);
    assert forall|reset: Seq<char>, main: Seq<char>, blog: Seq<char>|
        buf@ == Seq::<char>::empty() + #[trigger] page_html(reset, main, blog, doc@.blocks) implies buf@
        == page_html(reset, main, blog, doc@.blocks) by {
        assert(Seq::<char>::empty() + page_html(reset, main, blog, doc@.blocks) =~= page_html(
            reset,
            main,
            blog,
            doc@.blocks,
        ));
    }
    buf
}

} // verus!
