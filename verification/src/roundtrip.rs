//! Building and rendering are inverse to each other, as far as structure
//! goes.
//!
//! The rendering of a block is made of tags, and the tags stand for a tree.
//! Building a document from that tree gives the blocks back, for all blocks
//! that a document can get from the builder: those whose inlines are plain
//! text, and whose headings stand at the top level only.

use vstd::prelude::*;
use crate::convert::{
    Tag, blocks_in, blocks_of, body_of, body_walk, document_blocks, flushed, inlines_in, inlines_of, is_inline_node,
    is_inline_tag, items_in, items_of, tag_of,
};
use crate::doc::{BlockView, CodeLang, HeadingLevel, InlineView, ListType};
use crate::render::{heading_tag, list_tag};
use crate::tree::TreeView;

verus! {

/// An element without attributes.
pub open spec fn element(name: Seq<char>, children: Seq<TreeView>) -> TreeView {
    TreeView::Element { name, attrs: Seq::empty(), children }
}

/// The tree that the rendering of an inline stands for: a text node, inside
/// an element for every wrapper.
pub open spec fn inline_tree(inline: InlineView) -> TreeView
    decreases inline,
{
    match inline {
        InlineView::Text(text) => TreeView::Text { contents: text },
        InlineView::Bold(inner) => element("b"@, seq![inline_tree(*inner)]),
        InlineView::Italic(inner) => element("i"@, seq![inline_tree(*inner)]),
        InlineView::Code(inner) => element("code"@, seq![inline_tree(*inner)]),
    }
}

/// The trees of several inlines, in order.
pub open spec fn inline_trees(inlines: Seq<InlineView>) -> Seq<TreeView> {
    Seq::new(inlines.len(), |i: int| inline_tree(inlines[i]))
}

/// The tree that the rendering of a block stands for.
pub open spec fn block_tree(block: BlockView) -> TreeView
    decreases block,
{
    match block {
        BlockView::Heading { level, inlines } => element(heading_tag(level), inline_trees(inlines)),
        BlockView::Paragraph { inlines } => element("p"@, inline_trees(inlines)),
        BlockView::List { kind, items } => element(list_tag(kind), item_trees(items)),
        BlockView::Blockquote { blocks } => element("blockquote"@, block_trees(blocks)),
        BlockView::CodeBlock { lang, inlines } => element("pre"@, seq![element("code"@, inline_trees(inlines))]),
        BlockView::ThematicBreak => element("hr"@, Seq::empty()),
    }
}

/// The trees of several blocks, in order.
pub open spec fn block_trees(blocks: Seq<BlockView>) -> Seq<TreeView>
    decreases blocks,
{
    Seq::new(
        blocks.len(),
        |i: int|
            if 0 <= i < blocks.len() {
                block_tree(blocks[i])
            } else {
                element("hr"@, Seq::empty())
            },
    )
}

/// The trees of several list items, in order: an `li` element around the
/// trees of the blocks of each.
pub open spec fn item_trees(items: Seq<Seq<BlockView>>) -> Seq<TreeView>
    decreases items,
{
    Seq::new(
        items.len(),
        |i: int|
            if 0 <= i < items.len() {
                element("li"@, block_trees(items[i]))
            } else {
                element("li"@, Seq::empty())
            },
    )
}

/// The tree that the rendering of the blocks of a document stands for: an
/// `article` element around the trees of the blocks.
pub open spec fn article_tree(blocks: Seq<BlockView>) -> TreeView {
    element("article"@, block_trees(blocks))
}

/// Inlines as the builder makes them: plain text.
pub open spec fn plain_inlines(inlines: Seq<InlineView>) -> bool {
    forall|i: int| 0 <= i < inlines.len() ==> #[trigger] inlines[i] is Text
}

/// A block as the builder makes it: its inlines are plain text, and below
/// it there is no heading. `top` admits the block itself to be a heading.
pub open spec fn built_block(block: BlockView, top: bool) -> bool
    decreases block,
{
    match block {
        BlockView::Heading { level, inlines } => top && plain_inlines(inlines),
        BlockView::Paragraph { inlines } => plain_inlines(inlines),
        BlockView::List { kind, items } => forall|i: int|
            0 <= i < items.len() ==> built_blocks(#[trigger] items[i], false),
        BlockView::Blockquote { blocks } => built_blocks(blocks, false),
        BlockView::CodeBlock { lang, inlines } => lang == CodeLang::Unknown && plain_inlines(inlines),
        BlockView::ThematicBreak => true,
    }
}

/// Blocks as the builder makes them.
pub open spec fn built_blocks(blocks: Seq<BlockView>, top: bool) -> bool
    decreases blocks,
{
    forall|i: int| 0 <= i < blocks.len() ==> built_block(#[trigger] blocks[i], top)
}

/// What the names of the tags of a rendering are to the builder.
proof fn lemma_tag_names()
    ensures
        tag_of("p"@) == Tag::Para,
        forall|level: HeadingLevel| #[trigger] tag_of(heading_tag(level)) == Tag::Heading(level),
        forall|kind: ListType| #[trigger] tag_of(list_tag(kind)) == Tag::List(kind),
        tag_of("li"@) == Tag::ListItem,
        tag_of("blockquote"@) == Tag::Blockquote,
        tag_of("hr"@) == Tag::ThematicBreak,
        tag_of("pre"@) == Tag::Pre,
        tag_of("code"@) == Tag::Transparent,
        tag_of("article"@) == Tag::Transparent,
        !is_inline_tag("p"@),
        forall|level: HeadingLevel| !is_inline_tag(#[trigger] heading_tag(level)),
        forall|kind: ListType| !is_inline_tag(#[trigger] list_tag(kind)),
        !is_inline_tag("blockquote"@),
        !is_inline_tag("hr"@),
        !is_inline_tag("pre"@),
{
    reveal_strlit("p");
    reveal_strlit("h1");
    reveal_strlit("h2");
    reveal_strlit("h3");
    reveal_strlit("h4");
    reveal_strlit("h5");
    reveal_strlit("h6");
    reveal_strlit("ol");
    reveal_strlit("ul");
    reveal_strlit("li");
    reveal_strlit("blockquote");
    reveal_strlit("hr");
    reveal_strlit("pre");
    reveal_strlit("code");
    reveal_strlit("article");
    reveal_strlit("a");
    reveal_strlit("em");
    reveal_strlit("i");
    reveal_strlit("b");
    assert("p"@.len() == 1 && "a"@.len() == 1 && "i"@.len() == 1 && "b"@.len() == 1);
    assert("h1"@.len() == 2 && "h2"@.len() == 2 && "h3"@.len() == 2 && "h4"@.len() == 2);
    assert("h5"@.len() == 2 && "h6"@.len() == 2 && "ol"@.len() == 2 && "ul"@.len() == 2);
    assert("li"@.len() == 2 && "hr"@.len() == 2 && "em"@.len() == 2);
    assert("pre"@.len() == 3 && "code"@.len() == 4 && "article"@.len() == 7 && "blockquote"@.len() == 10);
    assert("p"@[0] == 'p' && "a"@[0] == 'a' && "i"@[0] == 'i' && "b"@[0] == 'b');
    assert("h1"@[1] == '1' && "h2"@[1] == '2' && "h3"@[1] == '3' && "h4"@[1] == '4');
    assert("h5"@[1] == '5' && "h6"@[1] == '6');
    assert("h1"@[0] == 'h' && "h2"@[0] == 'h' && "h3"@[0] == 'h' && "h4"@[0] == 'h');
    assert("h5"@[0] == 'h' && "h6"@[0] == 'h' && "hr"@[0] == 'h' && "hr"@[1] == 'r');
    assert("ol"@[0] == 'o' && "ul"@[0] == 'u' && "li"@[0] == 'l' && "em"@[0] == 'e');
    assert forall|level: HeadingLevel| #[trigger] tag_of(heading_tag(level)) == Tag::Heading(level) by {
        match level {
            HeadingLevel::H1 => {},
            HeadingLevel::H2 => {},
            HeadingLevel::H3 => {},
            HeadingLevel::H4 => {},
            HeadingLevel::H5 => {},
            HeadingLevel::H6 => {},
        }
    }
    assert forall|kind: ListType| #[trigger] tag_of(list_tag(kind)) == Tag::List(kind) by {
        match kind {
            ListType::Ordered => {},
            ListType::Unordered => {},
        }
    }
}

/// Building the inlines of the trees of plain inlines gives the inlines
/// back.
proof fn lemma_inlines_back(inlines: Seq<InlineView>)
    requires
        plain_inlines(inlines),
    ensures
        inlines_in(inline_trees(inlines)) == inlines,
    decreases inlines.len(),
{
    if inlines.len() > 0 {
        let shorter = inlines.drop_last();
        lemma_inlines_back(shorter);
        assert(inline_trees(inlines).drop_last() =~= inline_trees(shorter));
        assert(inlines[inlines.len() - 1] is Text);
        assert(inline_trees(inlines).last() == inline_tree(inlines.last()));
        assert(inlines_of(inline_tree(inlines.last())) =~= seq![inlines.last()]);
        assert(inlines_in(inline_trees(inlines)) =~= shorter + seq![inlines.last()]);
        assert(shorter + seq![inlines.last()] =~= inlines);
    } else {
        assert(inlines_in(inline_trees(inlines)) =~= inlines);
    }
}

/// Building the tree of a block gives the block back.
proof fn lemma_block_back(block: BlockView, top: bool)
    requires
        built_block(block, top),
    ensures
        blocks_of(block_tree(block), top) == seq![block],
        !is_inline_node(block_tree(block)),
    decreases block, 0int,
{
    lemma_tag_names();
    match block {
        BlockView::Heading { level, inlines } => {
            lemma_inlines_back(inlines);
        },
        BlockView::Paragraph { inlines } => {
            lemma_inlines_back(inlines);
        },
        BlockView::List { kind, items } => {
            lemma_items_back(items);
        },
        BlockView::Blockquote { blocks } => {
            lemma_body_back(blocks);
        },
        BlockView::CodeBlock { lang, inlines } => {
            lemma_inlines_back(inlines);
            let code = element("code"@, inline_trees(inlines));
            let children = seq![code];
            assert(children.drop_last() =~= Seq::empty());
            assert(inlines_in(children.drop_last()) =~= Seq::empty());
            assert(inlines_in(children) =~= inlines_of(code));
        },
        BlockView::ThematicBreak => {},
    }
}

/// Building the trees of several blocks in a frame of blocks gives the
/// blocks back.
proof fn lemma_blocks_back(blocks: Seq<BlockView>, top: bool)
    requires
        built_blocks(blocks, top),
    ensures
        blocks_in(block_trees(blocks), top) == blocks,
    decreases blocks, 1int,
{
    if blocks.len() > 0 {
        let shorter = blocks.drop_last();
        assert(built_blocks(shorter, top)) by {
            assert forall|i: int| 0 <= i < shorter.len() implies built_block(#[trigger] shorter[i], top) by {
                assert(built_block(blocks[i], top));
            }
        }
        lemma_blocks_back(shorter, top);
        assert(built_block(blocks[blocks.len() - 1], top));
        lemma_block_back(blocks.last(), top);
        assert(block_trees(blocks).drop_last() =~= block_trees(shorter));
        assert(blocks_in(block_trees(blocks), top) =~= shorter + seq![blocks.last()]);
        assert(shorter + seq![blocks.last()] =~= blocks);
    } else {
        assert(blocks_in(block_trees(blocks), top) =~= blocks);
    }
}

/// Building the trees of several blocks as the body of a list item or a
/// block quote gives the blocks back: no paragraph is added.
proof fn lemma_body_back(blocks: Seq<BlockView>)
    requires
        built_blocks(blocks, false),
    ensures
        body_walk(block_trees(blocks)) == (blocks, Seq::<InlineView>::empty()),
        body_of(block_trees(blocks)) == blocks,
    decreases blocks, 1int,
{
    if blocks.len() > 0 {
        let shorter = blocks.drop_last();
        assert(built_blocks(shorter, false)) by {
            assert forall|i: int| 0 <= i < shorter.len() implies built_block(#[trigger] shorter[i], false) by {
                assert(built_block(blocks[i], false));
            }
        }
        lemma_body_back(shorter);
        assert(built_block(blocks[blocks.len() - 1], false));
        lemma_block_back(blocks.last(), false);
        assert(block_trees(blocks).drop_last() =~= block_trees(shorter));
        assert(block_trees(blocks).last() == block_tree(blocks.last()));
        let walked = body_walk(block_trees(blocks));
        assert(walked.0 =~= shorter + seq![blocks.last()]);
        assert(shorter + seq![blocks.last()] =~= blocks);
        assert(walked.1 =~= Seq::<InlineView>::empty());
    } else {
        let walked = body_walk(block_trees(blocks));
        assert(walked.0 =~= blocks);
    }
}

/// Building the trees of several list items in an open list gives the
/// items back.
proof fn lemma_items_back(items: Seq<Seq<BlockView>>)
    requires
        forall|i: int| 0 <= i < items.len() ==> built_blocks(#[trigger] items[i], false),
    ensures
        items_in(item_trees(items)) == items,
    decreases items, 2int,
{
    lemma_tag_names();
    if items.len() > 0 {
        let shorter = items.drop_last();
        assert forall|i: int| 0 <= i < shorter.len() implies built_blocks(#[trigger] shorter[i], false) by {
            assert(built_blocks(items[i], false));
        }
        lemma_items_back(shorter);
        assert(built_blocks(items[items.len() - 1], false));
        lemma_body_back(items.last());
        assert(item_trees(items).drop_last() =~= item_trees(shorter));
        let last = element("li"@, block_trees(items.last()));
        assert(item_trees(items).last() == last);
        assert(items_of(last) =~= seq![items.last()]);
        assert(items_in(item_trees(items)) =~= shorter + seq![items.last()]);
        assert(shorter + seq![items.last()] =~= items);
    } else {
        assert(items_in(item_trees(items)) =~= items);
    }
}

/// Building is inverse to rendering: the document that is built from the
/// tree of the rendering of blocks holds these blocks, for all blocks whose
/// inlines are plain text and whose headings stand at the top level.
pub proof fn lemma_build_inverts_render(blocks: Seq<BlockView>)
    requires
        built_blocks(blocks, true),
    ensures
        document_blocks(article_tree(blocks)) == blocks,
{
    lemma_tag_names();
    lemma_blocks_back(blocks, true);
}

/// The builder makes plain inlines.
proof fn lemma_inlines_plain(node: TreeView)
    ensures
        plain_inlines(inlines_of(node)),
    decreases node, 1int,
{
    match node {
        TreeView::Text { contents } => {},
        TreeView::Element { name, children, .. } => {
            lemma_inlines_in_plain(children);
        },
        TreeView::Other { children } => {
            lemma_inlines_in_plain(children);
        },
    }
}

/// The builder makes plain inlines of several subtrees.
proof fn lemma_inlines_in_plain(nodes: Seq<TreeView>)
    ensures
        plain_inlines(inlines_in(nodes)),
    decreases nodes, 0int,
{
    if nodes.len() > 0 {
        lemma_inlines_in_plain(nodes.drop_last());
        lemma_inlines_plain(nodes.last());
    }
}

/// Two runs of built blocks make a run of built blocks.
proof fn lemma_built_concat(a: Seq<BlockView>, b: Seq<BlockView>, top: bool)
    requires
        built_blocks(a, top),
        built_blocks(b, top),
    ensures
        built_blocks(a + b, top),
{
    assert forall|i: int| 0 <= i < (a + b).len() implies built_block(#[trigger] (a + b)[i], top) by {
        if i < a.len() {
            assert(built_block(a[i], top));
        } else {
            assert(built_block(b[i - a.len()], top));
        }
    }
}

/// The blocks that the builder makes of a subtree are built blocks.
proof fn lemma_blocks_built(node: TreeView, top: bool)
    ensures
        built_blocks(blocks_of(node, top), top),
    decreases node, 1int,
{
    match node {
        TreeView::Text { .. } => {},
        TreeView::Other { children } => {
            lemma_blocks_in_built(children, top);
        },
        TreeView::Element { name, children, .. } => {
            match tag_of(name) {
                Tag::Para => {
                    lemma_inlines_in_plain(children);
                    assert(built_block(blocks_of(node, top)[0], top));
                },
                Tag::Heading(level) => {
                    if top {
                        lemma_inlines_in_plain(children);
                        assert(built_block(blocks_of(node, top)[0], top));
                    } else {
                        lemma_blocks_in_built(children, top);
                    }
                },
                Tag::List(kind) => {
                    lemma_items_in_built(children);
                    let items = items_in(children);
                    assert(blocks_of(node, top)[0] == (BlockView::List { kind, items }));
                    assert forall|i: int| 0 <= i < items.len() implies built_blocks(#[trigger] items[i], false) by {
                        assert(built_blocks(items_in(children)[i], false));
                    }
                    assert(built_block(BlockView::List { kind, items }, top));
                },
                Tag::ListItem => {
                    lemma_blocks_in_built(children, top);
                },
                Tag::Blockquote => {
                    lemma_body_built(children);
                    assert(built_block(blocks_of(node, top)[0], top));
                },
                Tag::ThematicBreak => {
                    assert(built_block(blocks_of(node, top)[0], top));
                },
                Tag::Pre => {
                    lemma_inlines_in_plain(children);
                    assert(built_block(blocks_of(node, top)[0], top));
                },
                Tag::Transparent => {
                    lemma_blocks_in_built(children, top);
                },
            }
        },
    }
}

/// The blocks that the builder makes of several subtrees are built blocks.
proof fn lemma_blocks_in_built(nodes: Seq<TreeView>, top: bool)
    ensures
        built_blocks(blocks_in(nodes, top), top),
    decreases nodes, 0int,
{
    if nodes.len() > 0 {
        lemma_blocks_in_built(nodes.drop_last(), top);
        lemma_blocks_built(nodes.last(), top);
        lemma_built_concat(blocks_in(nodes.drop_last(), top), blocks_of(nodes.last(), top), top);
    }
}

/// The items that the builder makes of a subtree hold built blocks.
proof fn lemma_items_built(node: TreeView)
    ensures
        forall|i: int| 0 <= i < items_of(node).len() ==> built_blocks(#[trigger] items_of(node)[i], false),
    decreases node, 1int,
{
    match node {
        TreeView::Text { .. } => {
            assert(items_of(node).len() == 0);
        },
        TreeView::Other { children } => {
            lemma_items_in_built(children);
            assert(items_of(node) == items_in(children));
        },
        TreeView::Element { name, children, .. } => {
            match tag_of(name) {
                Tag::ListItem => {
                    lemma_body_built(children);
                    assert(items_of(node) =~= seq![body_of(children)]);
                    assert forall|i: int| 0 <= i < items_of(node).len() implies built_blocks(
                        #[trigger] items_of(node)[i],
                        false,
                    ) by {
                        assert(items_of(node)[i] == body_of(children));
                    }
                },
                Tag::ThematicBreak => {
                    assert(items_of(node).len() == 0);
                },
                _ => {
                    lemma_items_in_built(children);
                    assert(items_of(node) == items_in(children));
                },
            }
        },
    }
}

/// The items that the builder makes of several subtrees hold built blocks.
proof fn lemma_items_in_built(nodes: Seq<TreeView>)
    ensures
        forall|i: int| 0 <= i < items_in(nodes).len() ==> built_blocks(#[trigger] items_in(nodes)[i], false),
    decreases nodes, 0int,
{
    if nodes.len() > 0 {
        lemma_items_in_built(nodes.drop_last());
        lemma_items_built(nodes.last());
        let a = items_in(nodes.drop_last());
        let b = items_of(nodes.last());
        assert forall|i: int| 0 <= i < items_in(nodes).len() implies built_blocks(
            #[trigger] items_in(nodes)[i],
            false,
        ) by {
            if i < a.len() {
                assert(built_blocks(a[i], false));
            } else {
                assert(built_blocks(b[i - a.len()], false));
            }
        }
    }
}

/// The body that the builder makes of the children of a list item or a
/// block quote holds built blocks, and the inlines that wait are plain.
proof fn lemma_body_built(children: Seq<TreeView>)
    ensures
        built_blocks(body_walk(children).0, false),
        plain_inlines(body_walk(children).1),
        built_blocks(body_of(children), false),
    decreases children, 0int,
{
    if children.len() > 0 {
        lemma_body_built(children.drop_last());
        let (blocks, pending) = body_walk(children.drop_last());
        let child = children.last();
        if is_inline_node(child) {
            lemma_inlines_plain(child);
        } else {
            lemma_blocks_built(child, false);
            lemma_built_concat(flushed(blocks, pending), blocks_of(child, false), false);
        }
    }
}

/// Every document that the builder makes holds built blocks.
pub proof fn lemma_document_is_built(tree: TreeView)
    ensures
        built_blocks(document_blocks(tree), true),
{
    lemma_blocks_built(tree, true);
}

/// Rendering and building again is a fixed point: for every tree, the
/// document that is built from the tree of the rendering of its document
/// holds the same blocks.
pub proof fn lemma_build_fixed_point(tree: TreeView)
    ensures
        document_blocks(article_tree(document_blocks(tree))) == document_blocks(tree),
{
    lemma_document_is_built(tree);
    lemma_build_inverts_render(document_blocks(tree));
}

} // verus!
