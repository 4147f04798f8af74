//! The shape of a document: every list has an item.
//!
//! The renderer takes every document. A reader of the rendered page is
//! better served by lists that hold something; whether a document is of
//! that shape can be asked, and the builder gives that shape to every tree
//! whose lists have an item among their children.

use vstd::prelude::*;
use crate::convert::{
    Tag, blocks_in, blocks_of, body_of, body_walk, document_blocks, flushed, is_inline_node, items_in, items_of, tag_of,
};
use crate::doc::{Block, BlockView, Document, InlineView, ListItem, blocks_view, items_view};
use crate::sanitize::with_h1;
use crate::html::CandidateType;
use crate::tree::TreeView;

verus! {

/// Whether every list in the block, at whatever depth, has an item.
pub open spec fn block_has_items(block: BlockView) -> bool
    decreases block,
{
    match block {
        BlockView::List { kind, items } => items.len() > 0 && forall|i: int|
            0 <= i < items.len() ==> lists_have_items(#[trigger] items[i]),
        BlockView::Blockquote { blocks } => lists_have_items(blocks),
        _ => true,
    }
}

/// Whether every list in the blocks, at whatever depth, has an item.
pub open spec fn lists_have_items(blocks: Seq<BlockView>) -> bool
    decreases blocks,
{
    forall|i: int| 0 <= i < blocks.len() ==> block_has_items(#[trigger] blocks[i])
}

/// Whether one of the nodes is an `li` element.
pub open spec fn has_item_child(children: Seq<TreeView>) -> bool {
    exists|i: int|
        0 <= i < children.len() && (#[trigger] children[i] matches TreeView::Element { name, .. } && tag_of(name)
            == Tag::ListItem)
}

/// Whether every `ol` and `ul` element of the subtree has an `li` element
/// among its children.
pub open spec fn lists_have_item_children(node: TreeView) -> bool
    decreases node, 1int,
{
    match node {
        TreeView::Element { name, children, .. } => (tag_of(name) is List ==> has_item_child(children))
            && all_have_item_children(children),
        TreeView::Text { .. } => true,
        TreeView::Other { children } => all_have_item_children(children),
    }
}

/// Whether every `ol` and `ul` element of the subtrees has an `li` element
/// among its children.
pub open spec fn all_have_item_children(nodes: Seq<TreeView>) -> bool
    decreases nodes, 0int,
{
    forall|i: int| 0 <= i < nodes.len() ==> lists_have_item_children(#[trigger] nodes[i])
}

impl Document {
    /// Whether every list of the document, at whatever depth, has an item.
    pub open spec fn well_formed(&self) -> bool {
        lists_have_items(self@.blocks)
    }

    /// Whether every list of the document, at whatever depth, has an item.
    pub fn is_well_formed(&self) -> (r: bool)
        ensures
            r == self.well_formed(),
    {
        check_blocks(&self.body.blocks)
    }
}

/// Whether every list in the block has an item.
fn check_block(block: &Block) -> (r: bool)
    ensures
        r == block_has_items(block@),
    decreases block,
{
    match block {
        Block::List(list) => list.items.len() > 0 && check_items(&list.items),
        Block::Blockquote(quote) => check_blocks(&quote.blocks),
        _ => true,
    }
}

/// Whether every list in the blocks has an item.
#[verifier::loop_isolation(false)]
fn check_blocks(blocks: &Vec<Block>) -> (r: bool)
    ensures
        r == lists_have_items(blocks_view(blocks@)),
    decreases blocks,
{
    for i in 0..blocks.len()
        invariant
            forall|j: int| 0 <= j < i ==> block_has_items(#[trigger] blocks_view(blocks@)[j]),
    {
        if !check_block(&blocks[i]) {
            assert(!block_has_items(blocks_view(blocks@)[i as int]));
            return false;
        }
    }
    true
}

/// Whether every list in the items has an item.
#[verifier::loop_isolation(false)]
fn check_items(items: &Vec<ListItem>) -> (r: bool)
    ensures
        r == (forall|i: int| 0 <= i < items@.len() ==> lists_have_items(#[trigger] items_view(items@)[i])),
    decreases items,
{
    for i in 0..items.len()
        invariant
            forall|j: int| 0 <= j < i ==> lists_have_items(#[trigger] items_view(items@)[j]),
    {
        if !check_blocks(&items[i].blocks) {
            assert(!lists_have_items(items_view(items@)[i as int]));
            return false;
        }
    }
    true
}

/// Two runs of blocks of the shape make a run of the shape.
proof fn lemma_shape_concat(a: Seq<BlockView>, b: Seq<BlockView>)
    requires
        lists_have_items(a),
        lists_have_items(b),
    ensures
        lists_have_items(a + b),
{
    assert forall|i: int| 0 <= i < (a + b).len() implies block_has_items(#[trigger] (a + b)[i]) by {
        if i < a.len() {
            assert(block_has_items(a[i]));
        } else {
            assert(block_has_items(b[i - a.len()]));
        }
    }
}

/// An `li` element among the children gives the list an item.
proof fn lemma_item_child_gives_item(children: Seq<TreeView>)
    requires
        has_item_child(children),
    ensures
        items_in(children).len() > 0,
    decreases children.len(),
{
    let i = choose|i: int|
        0 <= i < children.len() && (#[trigger] children[i] matches TreeView::Element { name, .. } && tag_of(name)
            == Tag::ListItem);
    if i == children.len() - 1 {
        assert(items_of(children.last()).len() == 1);
    } else {
        assert(children.drop_last()[i] == children[i]);
        lemma_item_child_gives_item(children.drop_last());
    }
}

/// The blocks that the builder makes of a subtree have the shape.
proof fn lemma_blocks_shape(node: TreeView, top: bool)
    requires
        lists_have_item_children(node),
    ensures
        lists_have_items(blocks_of(node, top)),
    decreases node, 1int,
{
    match node {
        TreeView::Text { .. } => {},
        TreeView::Other { children } => {
            lemma_blocks_in_shape(children, top);
        },
        TreeView::Element { name, children, .. } => {
            match tag_of(name) {
                Tag::Para => {
                    assert(block_has_items(blocks_of(node, top)[0]));
                },
                Tag::Heading(level) => {
                    if top {
                        assert(block_has_items(blocks_of(node, top)[0]));
                    } else {
                        lemma_blocks_in_shape(children, top);
                    }
                },
                Tag::List(kind) => {
                    lemma_item_child_gives_item(children);
                    lemma_items_in_shape(children);
                    let items = items_in(children);
                    assert(blocks_of(node, top)[0] == (BlockView::List { kind, items }));
                    assert forall|i: int| 0 <= i < items.len() implies lists_have_items(#[trigger] items[i]) by {
                        assert(lists_have_items(items_in(children)[i]));
                    }
                    assert(block_has_items(BlockView::List { kind, items }));
                },
                Tag::ListItem => {
                    lemma_blocks_in_shape(children, top);
                },
                Tag::Blockquote => {
                    lemma_body_shape(children);
                    assert(block_has_items(blocks_of(node, top)[0]));
                },
                Tag::ThematicBreak => {
                    assert(block_has_items(blocks_of(node, top)[0]));
                },
                Tag::Pre => {
                    assert(block_has_items(blocks_of(node, top)[0]));
                },
                Tag::Transparent => {
                    lemma_blocks_in_shape(children, top);
                },
            }
        },
    }
}

/// The blocks that the builder makes of several subtrees have the shape.
proof fn lemma_blocks_in_shape(nodes: Seq<TreeView>, top: bool)
    requires
        all_have_item_children(nodes),
    ensures
        lists_have_items(blocks_in(nodes, top)),
    decreases nodes, 0int,
{
    if nodes.len() > 0 {
        assert forall|i: int| 0 <= i < nodes.drop_last().len() implies lists_have_item_children(
            #[trigger] nodes.drop_last()[i],
        ) by {
            assert(lists_have_item_children(nodes[i]));
        }
        assert(lists_have_item_children(nodes[nodes.len() - 1]));
        lemma_blocks_in_shape(nodes.drop_last(), top);
        lemma_blocks_shape(nodes.last(), top);
        lemma_shape_concat(blocks_in(nodes.drop_last(), top), blocks_of(nodes.last(), top));
    }
}

/// The items that the builder makes of a subtree have the shape.
proof fn lemma_items_shape(node: TreeView)
    requires
        lists_have_item_children(node),
    ensures
        forall|i: int| 0 <= i < items_of(node).len() ==> lists_have_items(#[trigger] items_of(node)[i]),
    decreases node, 1int,
{
    match node {
        TreeView::Text { .. } => {
            assert(items_of(node).len() == 0);
        },
        TreeView::Other { children } => {
            lemma_items_in_shape(children);
            assert(items_of(node) == items_in(children));
        },
        TreeView::Element { name, children, .. } => {
            match tag_of(name) {
                Tag::ListItem => {
                    lemma_body_shape(children);
                    assert(items_of(node) =~= seq![body_of(children)]);
                    assert forall|i: int| 0 <= i < items_of(node).len() implies lists_have_items(
                        #[trigger] items_of(node)[i],
                    ) by {
                        assert(items_of(node)[i] == body_of(children));
                    }
                },
                Tag::ThematicBreak => {
                    assert(items_of(node).len() == 0);
                },
                _ => {
                    lemma_items_in_shape(children);
                    assert(items_of(node) == items_in(children));
                },
            }
        },
    }
}

/// The items that the builder makes of several subtrees have the shape.
proof fn lemma_items_in_shape(nodes: Seq<TreeView>)
    requires
        all_have_item_children(nodes),
    ensures
        forall|i: int| 0 <= i < items_in(nodes).len() ==> lists_have_items(#[trigger] items_in(nodes)[i]),
    decreases nodes, 0int,
{
    if nodes.len() > 0 {
        assert forall|i: int| 0 <= i < nodes.drop_last().len() implies lists_have_item_children(
            #[trigger] nodes.drop_last()[i],
        ) by {
            assert(lists_have_item_children(nodes[i]));
        }
        assert(lists_have_item_children(nodes[nodes.len() - 1]));
        lemma_items_in_shape(nodes.drop_last());
        lemma_items_shape(nodes.last());
        let a = items_in(nodes.drop_last());
        let b = items_of(nodes.last());
        assert forall|i: int| 0 <= i < items_in(nodes).len() implies lists_have_items(
            #[trigger] items_in(nodes)[i],
        ) by {
            if i < a.len() {
                assert(lists_have_items(a[i]));
            } else {
                assert(lists_have_items(b[i - a.len()]));
            }
        }
    }
}

/// The body that the builder makes of the children of a list item or a
/// block quote has the shape.
proof fn lemma_body_shape(children: Seq<TreeView>)
    requires
        all_have_item_children(children),
    ensures
        lists_have_items(body_walk(children).0),
        lists_have_items(body_of(children)),
    decreases children, 0int,
{
    if children.len() > 0 {
        assert forall|i: int| 0 <= i < children.drop_last().len() implies lists_have_item_children(
            #[trigger] children.drop_last()[i],
        ) by {
            assert(lists_have_item_children(children[i]));
        }
        assert(lists_have_item_children(children[children.len() - 1]));
        lemma_body_shape(children.drop_last());
        let (blocks, pending) = body_walk(children.drop_last());
        let child = children.last();
        lemma_flushed_shape(blocks, pending);
        if !is_inline_node(child) {
            lemma_blocks_shape(child, false);
            lemma_shape_concat(flushed(blocks, pending), blocks_of(child, false));
        }
    }
    let (blocks, pending) = body_walk(children);
    lemma_flushed_shape(blocks, pending);
}

/// A paragraph more keeps the shape.
proof fn lemma_flushed_shape(blocks: Seq<BlockView>, pending: Seq<InlineView>)
    requires
        lists_have_items(blocks),
    ensures
        lists_have_items(flushed(blocks, pending)),
{
    if pending.len() > 0 {
        let paragraph = BlockView::Paragraph { inlines: pending };
        assert(block_has_items(paragraph));
        lemma_shape_concat(blocks, seq![paragraph]);
        assert(blocks + seq![paragraph] =~= blocks.push(paragraph));
    }
}

/// The builder gives every document the shape whose tree has an `li`
/// element among the children of every `ol` and `ul` element.
pub proof fn lemma_document_has_shape(tree: TreeView)
    requires
        lists_have_item_children(tree),
    ensures
        lists_have_items(document_blocks(tree)),
{
    lemma_blocks_shape(tree, true);
}

/// The repair keeps the shape.
pub proof fn lemma_repair_keeps_shape(blocks: Seq<BlockView>, h1: Option<BlockView>, kind: CandidateType)
    requires
        lists_have_items(blocks),
        h1 matches Some(heading) ==> heading is Heading,
    ensures
        lists_have_items(with_h1(blocks, h1, kind)),
{
    if h1 is Some {
        assert(block_has_items(h1->0));
        lemma_shape_concat(seq![h1->0], blocks);
    }
}

} // verus!
