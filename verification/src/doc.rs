//! The document model: what a converted article is made of.
//!
//! Every executable type has a mathematical view, written with `@`, that
//! replaces vectors by sequences and strings by sequences of characters.
//! The contracts of the other modules speak of these views.

use vstd::prelude::*;

verus! {

/// The six levels a heading can have.
#[derive(Debug, Clone, Copy, PartialEq, Eq, Structural)]
pub enum HeadingLevel {
    H1,
    H2,
    H3,
    H4,
    H5,
    H6,
}

/// Whether the items of a list are numbered.
#[derive(Debug, Clone, Copy, PartialEq, Eq, Structural)]
pub enum ListType {
    Ordered,
    Unordered,
}

/// The language of a code block. No language is recognised yet.
#[derive(Debug, Clone, Copy, PartialEq, Eq, Structural)]
pub enum CodeLang {
    Unknown,
}

/// Text-level content of a block.
#[derive(Debug, PartialEq, Eq)]
pub enum Inline {
    Text(String),
    Bold(Box<Inline>),
    Italic(Box<Inline>),
    Code(Box<Inline>),
}

/// A heading: its level and its text.
#[derive(Debug, PartialEq, Eq)]
pub struct Heading {
    pub inlines: Vec<Inline>,
    pub level: HeadingLevel,
}

/// A paragraph of text.
#[derive(Debug, PartialEq, Eq)]
pub struct Paragraph {
    pub inlines: Vec<Inline>,
}

/// A list: its kind and its items, in order.
#[derive(Debug, PartialEq, Eq)]
pub struct List {
    pub type_: ListType,
    pub items: Vec<ListItem>,
}

/// An item of a list. It holds blocks: text that stands directly in an
/// item is held in a paragraph.
#[derive(Debug, PartialEq, Eq)]
pub struct ListItem {
    pub blocks: Vec<Block>,
}

/// A quotation. It holds blocks, as a list item does.
#[derive(Debug, PartialEq, Eq)]
pub struct Blockquote {
    pub blocks: Vec<Block>,
}

/// Preformatted text, such as code.
#[derive(Debug, PartialEq, Eq)]
pub struct CodeBlock {
    pub lang: CodeLang,
    pub inlines: Vec<Inline>,
}

/// A structural unit of a document.
#[derive(Debug, PartialEq, Eq)]
pub enum Block {
    Heading(Heading),
    Paragraph(Paragraph),
    List(List),
    Blockquote(Blockquote),
    CodeBlock(CodeBlock),
    ThematicBreak,
}

/// The blocks of a document, in source order.
#[derive(Debug, PartialEq, Eq)]
pub struct Body {
    pub blocks: Vec<Block>,
}

/// The address of a page, as the `url` crate holds it. It is carried along,
/// never looked into.
#[verifier::external_type_specification]
#[verifier::external_body]
pub struct ExUrl(url::Url);

/// `Url::clone`: the copy is the same address.
pub assume_specification[ <url::Url as Clone>::clone ](url: &url::Url) -> (r: url::Url)
    ensures
        r == *url,
;

/// Where a document comes from.
#[derive(Debug, PartialEq, Eq)]
pub struct Meta {
    pub origin_url: url::Url,
}

/// An article: where it comes from, and its blocks in source order.
#[derive(Debug, PartialEq, Eq)]
pub struct Document {
    pub meta: Meta,
    pub body: Body,
}

/// The view of a [`Document`].
pub struct DocumentView {
    pub origin_url: url::Url,
    pub blocks: Seq<BlockView>,
}

/// The view of an [`Inline`].
pub enum InlineView {
    Text(Seq<char>),
    Bold(Box<InlineView>),
    Italic(Box<InlineView>),
    Code(Box<InlineView>),
}

/// The view of a [`Block`]. A list item is the sequence of its blocks.
pub enum BlockView {
    Heading { level: HeadingLevel, inlines: Seq<InlineView> },
    Paragraph { inlines: Seq<InlineView> },
    List { kind: ListType, items: Seq<Seq<BlockView>> },
    Blockquote { blocks: Seq<BlockView> },
    CodeBlock { lang: CodeLang, inlines: Seq<InlineView> },
    ThematicBreak,
}

impl HeadingLevel {
    /// The level as a number from 1 to 6.
    pub open spec fn number(self) -> nat {
        match self {
            HeadingLevel::H1 => 1,
            HeadingLevel::H2 => 2,
            HeadingLevel::H3 => 3,
            HeadingLevel::H4 => 4,
            HeadingLevel::H5 => 5,
            HeadingLevel::H6 => 6,
        }
    }
}

/// The view of an inline: its text, and the wrappers around it.
pub open spec fn inline_view(inline: Inline) -> InlineView
    decreases inline,
{
    match inline {
        Inline::Text(text) => InlineView::Text(text@),
        Inline::Bold(inner) => InlineView::Bold(Box::new(inline_view(*inner))),
        Inline::Italic(inner) => InlineView::Italic(Box::new(inline_view(*inner))),
        Inline::Code(inner) => InlineView::Code(Box::new(inline_view(*inner))),
    }
}

/// The views of a sequence of inlines, in order.
pub open spec fn inlines_view(inlines: Seq<Inline>) -> Seq<InlineView> {
    Seq::new(inlines.len(), |i: int| inline_view(inlines[i]))
}

/// The view of a block.
pub open spec fn block_view(block: Block) -> BlockView
    decreases block,
{
    match block {
        Block::Heading(h) => BlockView::Heading { level: h.level, inlines: inlines_view(h.inlines@) },
        Block::Paragraph(p) => BlockView::Paragraph { inlines: inlines_view(p.inlines@) },
        Block::List(l) => BlockView::List { kind: l.type_, items: items_view(l.items@) },
        Block::Blockquote(q) => BlockView::Blockquote { blocks: blocks_view(q.blocks@) },
        Block::CodeBlock(c) => BlockView::CodeBlock { lang: c.lang, inlines: inlines_view(c.inlines@) },
        Block::ThematicBreak => BlockView::ThematicBreak,
    }
}

/// The views of a sequence of blocks, in order.
pub open spec fn blocks_view(blocks: Seq<Block>) -> Seq<BlockView>
    decreases blocks,
{
    Seq::new(
        blocks.len(),
        |i: int|
            if 0 <= i < blocks.len() {
                block_view(blocks[i])
            } else {
                BlockView::ThematicBreak
            },
    )
}

/// The views of a sequence of list items, in order: each the views of its blocks.
pub open spec fn items_view(items: Seq<ListItem>) -> Seq<Seq<BlockView>>
    decreases items,
{
    Seq::new(
        items.len(),
        |i: int|
            if 0 <= i < items.len() {
                blocks_view(items[i].blocks@)
            } else {
                Seq::empty()
            },
    )
}

impl View for Inline {
    type V = InlineView;

    open spec fn view(&self) -> InlineView {
        inline_view(*self)
    }
}

impl View for Block {
    type V = BlockView;

    open spec fn view(&self) -> BlockView {
        block_view(*self)
    }
}

impl View for ListItem {
    type V = Seq<BlockView>;

    open spec fn view(&self) -> Seq<BlockView> {
        blocks_view(self.blocks@)
    }
}

impl View for Document {
    type V = DocumentView;

    open spec fn view(&self) -> DocumentView {
        DocumentView { origin_url: self.meta.origin_url, blocks: self.body@ }
    }
}

impl View for Body {
    type V = Seq<BlockView>;

    open spec fn view(&self) -> Seq<BlockView> {
        blocks_view(self.blocks@)
    }
}

/// Appending a block appends its view.
pub proof fn lemma_blocks_view_push(blocks: Seq<Block>, block: Block)
    ensures
        blocks_view(blocks.push(block)) == blocks_view(blocks).push(block_view(block)),
{
    assert(blocks_view(blocks.push(block)) =~= blocks_view(blocks).push(block_view(block)));
}

} // verus!
