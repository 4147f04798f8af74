//! Building a document from a tree.
//!
//! The walk visits a node before its children and the children from first
//! to last. What a node contributes depends on the frame that is open when
//! the walk reaches it: blocks at the top level, inlines inside a
//! paragraph, a heading or a code block, items inside a list, blocks again
//! inside a list item or a block quote.

use vstd::prelude::*;
use vstd::pervasive::unreached;
use crate::config::BlogPost;
use crate::html::SubDom;
use crate::doc::{
    Document, Meta, Block, BlockView, Blockquote, Body, CodeBlock, CodeLang, Heading, HeadingLevel, Inline, InlineView, List,
    ListItem, ListType, Paragraph, blocks_view, inlines_view, items_view, lemma_blocks_view_push,
};
use crate::text::{str_eq, trim, trimmed};
use crate::tree::{Tree, TreeView, trees_view};

verus! {

/// What an element is to the walk, by its tag name.
#[derive(Debug, Clone, Copy, PartialEq, Eq, Structural)]
pub enum Tag {
    Para,
    Heading(HeadingLevel),
    List(ListType),
    ListItem,
    Blockquote,
    ThematicBreak,
    Pre,
    /// Any other element: the walk passes through it.
    Transparent,
}

/// The tag that a name stands for.
pub open spec fn tag_of(name: Seq<char>) -> Tag {
    if name == "p"@ {
        Tag::Para
    } else if name == "h1"@ {
        Tag::Heading(HeadingLevel::H1)
    } else if name == "h2"@ {
        Tag::Heading(HeadingLevel::H2)
    } else if name == "h3"@ {
        Tag::Heading(HeadingLevel::H3)
    } else if name == "h4"@ {
        Tag::Heading(HeadingLevel::H4)
    } else if name == "h5"@ {
        Tag::Heading(HeadingLevel::H5)
    } else if name == "h6"@ {
        Tag::Heading(HeadingLevel::H6)
    } else if name == "ol"@ {
        Tag::List(ListType::Ordered)
    } else if name == "ul"@ {
        Tag::List(ListType::Unordered)
    } else if name == "li"@ {
        Tag::ListItem
    } else if name == "blockquote"@ {
        Tag::Blockquote
    } else if name == "hr"@ {
        Tag::ThematicBreak
    } else if name == "pre"@ {
        Tag::Pre
    } else {
        Tag::Transparent
    }
}

/// Whether an element with this name counts as inline content where it is
/// a child of a list item or a block quote.
pub open spec fn is_inline_tag(name: Seq<char>) -> bool {
    name == "a"@ || name == "code"@ || name == "em"@ || name == "i"@ || name == "b"@
}

/// Whether a child of a list item or a block quote is inline content: an
/// inline element, or text that is not blank.
pub open spec fn is_inline_node(node: TreeView) -> bool {
    match node {
        TreeView::Element { name, .. } => is_inline_tag(name),
        TreeView::Text { contents } => trimmed(contents).len() > 0,
        TreeView::Other { .. } => false,
    }
}

/// The inlines that a subtree contributes to an open frame of inlines: its
/// text nodes, in order. A thematic break contributes nothing.
pub open spec fn inlines_of(node: TreeView) -> Seq<InlineView>
    decreases node, 1int,
{
    match node {
        TreeView::Text { contents } => seq![InlineView::Text(contents)],
        TreeView::Element { name, children, .. } => if tag_of(name) == Tag::ThematicBreak {
            Seq::empty()
        } else {
            inlines_in(children)
        },
        TreeView::Other { children } => inlines_in(children),
    }
}

/// The inlines that several subtrees contribute, one after the other.
pub open spec fn inlines_in(nodes: Seq<TreeView>) -> Seq<InlineView>
    decreases nodes, 0int,
{
    if nodes.len() == 0 {
        Seq::empty()
    } else {
        inlines_in(nodes.drop_last()) + inlines_of(nodes.last())
    }
}

/// A paragraph made of the pending inlines is added to the blocks, unless
/// nothing is pending.
pub open spec fn flushed(blocks: Seq<BlockView>, pending: Seq<InlineView>) -> Seq<BlockView> {
    if pending.len() > 0 {
        blocks.push(BlockView::Paragraph { inlines: pending })
    } else {
        blocks
    }
}

/// The blocks that a subtree contributes to an open frame of blocks. `top`
/// tells the top level of the document from the inside of a list item or a
/// block quote: only at the top level does a heading become a block.
pub open spec fn blocks_of(node: TreeView, top: bool) -> Seq<BlockView>
    decreases node, 1int,
{
    match node {
        TreeView::Text { .. } => Seq::empty(),
        TreeView::Other { children } => blocks_in(children, top),
        TreeView::Element { name, children, .. } => match tag_of(name) {
            Tag::Para => seq![BlockView::Paragraph { inlines: inlines_in(children) }],
            Tag::Heading(level) => if top {
                seq![BlockView::Heading { level, inlines: inlines_in(children) }]
            } else {
                blocks_in(children, top)
            },
            Tag::List(kind) => seq![BlockView::List { kind, items: items_in(children) }],
            Tag::ListItem => blocks_in(children, top),
            Tag::Blockquote => seq![BlockView::Blockquote { blocks: body_of(children) }],
            Tag::ThematicBreak => seq![BlockView::ThematicBreak],
            Tag::Pre => seq![BlockView::CodeBlock { lang: CodeLang::Unknown, inlines: inlines_in(children) }],
            Tag::Transparent => blocks_in(children, top),
        },
    }
}

/// The blocks that several subtrees contribute, one after the other.
pub open spec fn blocks_in(nodes: Seq<TreeView>, top: bool) -> Seq<BlockView>
    decreases nodes, 0int,
{
    if nodes.len() == 0 {
        Seq::empty()
    } else {
        blocks_in(nodes.drop_last(), top) + blocks_of(nodes.last(), top)
    }
}

/// The items that a subtree contributes to an open list: one for each
/// `li` that is reached without passing through another `li`.
pub open spec fn items_of(node: TreeView) -> Seq<Seq<BlockView>>
    decreases node, 1int,
{
    match node {
        TreeView::Text { .. } => Seq::empty(),
        TreeView::Other { children } => items_in(children),
        TreeView::Element { name, children, .. } => match tag_of(name) {
            Tag::ListItem => seq![body_of(children)],
            Tag::ThematicBreak => Seq::empty(),
            _ => items_in(children),
        },
    }
}

/// The items that several subtrees contribute, one after the other.
pub open spec fn items_in(nodes: Seq<TreeView>) -> Seq<Seq<BlockView>>
    decreases nodes, 0int,
{
    if nodes.len() == 0 {
        Seq::empty()
    } else {
        items_in(nodes.drop_last()) + items_of(nodes.last())
    }
}

/// The walk over the children of a list item or a block quote, after the
/// given children: the blocks made so far, and the inlines that wait for
/// their paragraph. An inline child adds its inlines to those that wait. Any
/// other child first has the waiting inlines made into a paragraph, and then
/// contributes its blocks.
pub open spec fn body_walk(children: Seq<TreeView>) -> (Seq<BlockView>, Seq<InlineView>)
    decreases children, 0int,
{
    if children.len() == 0 {
        (Seq::empty(), Seq::empty())
    } else {
        let (blocks, pending) = body_walk(children.drop_last());
        let child = children.last();
        if is_inline_node(child) {
            (blocks, pending + inlines_of(child))
        } else {
            (flushed(blocks, pending) + blocks_of(child, false), Seq::empty())
        }
    }
}

/// The blocks of a list item or a block quote with the given children:
/// inline content that stands directly among them is gathered, run by run,
/// into paragraphs.
pub open spec fn body_of(children: Seq<TreeView>) -> Seq<BlockView>
    decreases children, 1int,
{
    let (blocks, pending) = body_walk(children);
    flushed(blocks, pending)
}

/// The blocks of the document that is built from a tree.
pub open spec fn document_blocks(tree: TreeView) -> Seq<BlockView> {
    blocks_of(tree, true)
}

/// The frame that is open: what the walk is gathering.
enum Mode {
    /// At the top level: blocks go to the document.
    ScanForBlocks,
    /// Inside a paragraph, a heading or a code block.
    AccumulateInlines(Vec<Inline>),
    /// Inside a list, between its items.
    AccumulateListItems(Vec<ListItem>),
    /// Inside a list item or a block quote.
    AccumulateBlocks(Vec<Block>),
}

/// The state of the walk: the blocks of the document so far, and the open
/// frame.
struct State {
    blocks: Vec<Block>,
    mode: Mode,
}

/// The view of a [`Mode`].
enum Frame {
    ScanForBlocks,
    AccumulateInlines(Seq<InlineView>),
    AccumulateListItems(Seq<Seq<BlockView>>),
    AccumulateBlocks(Seq<BlockView>),
}

/// The view of a [`State`].
struct StateView {
    blocks: Seq<BlockView>,
    mode: Frame,
}

impl View for Mode {
    type V = Frame;

    closed spec fn view(&self) -> Frame {
        match self {
            Mode::ScanForBlocks => Frame::ScanForBlocks,
            Mode::AccumulateInlines(inlines) => Frame::AccumulateInlines(inlines_view(inlines@)),
            Mode::AccumulateListItems(items) => Frame::AccumulateListItems(items_view(items@)),
            Mode::AccumulateBlocks(blocks) => Frame::AccumulateBlocks(blocks_view(blocks@)),
        }
    }
}

impl View for State {
    type V = StateView;

    closed spec fn view(&self) -> StateView {
        StateView { blocks: blocks_view(self.blocks@), mode: self.mode@ }
    }
}

/// The state after the walk has gone through subtrees that contribute the
/// given blocks at the top level, the given blocks inside a list item or a
/// block quote, the given inlines and the given items.
spec fn extended(
    state: StateView,
    top: Seq<BlockView>,
    inner: Seq<BlockView>,
    inlines: Seq<InlineView>,
    items: Seq<Seq<BlockView>>,
) -> StateView {
    match state.mode {
        Frame::ScanForBlocks => StateView { blocks: state.blocks + top, mode: Frame::ScanForBlocks },
        Frame::AccumulateInlines(pending) => StateView {
            blocks: state.blocks,
            mode: Frame::AccumulateInlines(pending + inlines),
        },
        Frame::AccumulateListItems(pending) => StateView {
            blocks: state.blocks,
            mode: Frame::AccumulateListItems(pending + items),
        },
        Frame::AccumulateBlocks(pending) => StateView {
            blocks: state.blocks,
            mode: Frame::AccumulateBlocks(pending + inner),
        },
    }
}

/// The state after the walk has gone through the subtree of `node`.
spec fn advance(state: StateView, node: TreeView) -> StateView {
    extended(state, blocks_of(node, true), blocks_of(node, false), inlines_of(node), items_of(node))
}

/// The state after the walk has gone through the subtrees of `nodes`.
spec fn advance_all(state: StateView, nodes: Seq<TreeView>) -> StateView {
    extended(state, blocks_in(nodes, true), blocks_in(nodes, false), inlines_in(nodes), items_in(nodes))
}

/// Going through one more subtree.
proof fn lemma_advance_step(state: StateView, nodes: Seq<TreeView>, i: int)
    requires
        0 <= i < nodes.len(),
    ensures
        advance_all(state, nodes.take(i + 1)) == advance(advance_all(state, nodes.take(i)), nodes[i]),
{
    let done = nodes.take(i);
    let next = nodes.take(i + 1);
    assert(next.drop_last() =~= done);
    assert(next.last() == nodes[i]);
    let a = advance_all(state, next);
    let b = advance(advance_all(state, done), nodes[i]);
    assert(a.blocks =~= b.blocks);
    match state.mode {
        Frame::ScanForBlocks => {},
        Frame::AccumulateInlines(pending) => {
            assert(a.mode->AccumulateInlines_0 =~= b.mode->AccumulateInlines_0);
        },
        Frame::AccumulateListItems(pending) => {
            assert(a.mode->AccumulateListItems_0 =~= b.mode->AccumulateListItems_0);
        },
        Frame::AccumulateBlocks(pending) => {
            assert(a.mode->AccumulateBlocks_0 =~= b.mode->AccumulateBlocks_0);
        },
    }
}

/// Going through no subtree at all.
proof fn lemma_advance_none(state: StateView)
    ensures
        advance_all(state, Seq::empty()) == state,
{
    let a = advance_all(state, Seq::empty());
    assert(a.blocks =~= state.blocks);
    match state.mode {
        Frame::ScanForBlocks => {},
        Frame::AccumulateInlines(pending) => {
            assert(a.mode->AccumulateInlines_0 =~= pending);
        },
        Frame::AccumulateListItems(pending) => {
            assert(a.mode->AccumulateListItems_0 =~= pending);
        },
        Frame::AccumulateBlocks(pending) => {
            assert(a.mode->AccumulateBlocks_0 =~= pending);
        },
    }
}

/// The tag that the name of an element stands for.
fn classify(name: &str) -> (tag: Tag)
    ensures
        tag == tag_of(name@),
{
    if str_eq(name, "p") {
        Tag::Para
    } else if str_eq(name, "h1") {
        Tag::Heading(HeadingLevel::H1)
    } else if str_eq(name, "h2") {
        Tag::Heading(HeadingLevel::H2)
    } else if str_eq(name, "h3") {
        Tag::Heading(HeadingLevel::H3)
    } else if str_eq(name, "h4") {
        Tag::Heading(HeadingLevel::H4)
    } else if str_eq(name, "h5") {
        Tag::Heading(HeadingLevel::H5)
    } else if str_eq(name, "h6") {
        Tag::Heading(HeadingLevel::H6)
    } else if str_eq(name, "ol") {
        Tag::List(ListType::Ordered)
    } else if str_eq(name, "ul") {
        Tag::List(ListType::Unordered)
    } else if str_eq(name, "li") {
        Tag::ListItem
    } else if str_eq(name, "blockquote") {
        Tag::Blockquote
    } else if str_eq(name, "hr") {
        Tag::ThematicBreak
    } else if str_eq(name, "pre") {
        Tag::Pre
    } else {
        Tag::Transparent
    }
}

/// Whether a child of a list item or a block quote is inline content.
fn is_inline_element(node: &Tree) -> (r: bool)
    ensures
        r == is_inline_node(node@),
{
    match node {
        Tree::Element { name, .. } => {
            let name = name.as_str();
            str_eq(name, "a") || str_eq(name, "code") || str_eq(name, "em") || str_eq(name, "i") || str_eq(
                name,
                "b",
            )
        },
        Tree::Text { contents } => {
            let text = trim(contents.as_str());
            !text.is_empty()
        },
        Tree::Other { .. } => false,
    }
}

/// Goes through the subtree of `node`.
fn walk(state: &mut State, node: &Tree)
    ensures
        final(state)@ == advance(old(state)@, node@),
    decreases node, 3int,
{
    match node {
        Tree::Element { name, .. } => {
            match classify(name.as_str()) {
                Tag::Para => handle_para(state, node),
                Tag::Heading(level) => handle_heading(state, node, level),
                Tag::List(type_) => handle_list(state, node, type_),
                Tag::ListItem => handle_list_item(state, node),
                Tag::Blockquote => handle_blockquote(state, node),
                Tag::ThematicBreak => handle_thematic_break(state, node),
                Tag::Pre => handle_pre(state, node),
                Tag::Transparent => walk_children(state, node),
            }
        },
        Tree::Text { contents } => {
            handle_text(state, node, contents.clone());
        },
        Tree::Other { .. } => {
            walk_children(state, node);
        },
    }
}

/// Goes through the subtrees of the children of `node`, from first to last.
fn walk_children(state: &mut State, node: &Tree)
    ensures
        final(state)@ == advance_all(old(state)@, node@.children()),
    decreases node, 0int,
{
    let children = node.children();
    proof {
        lemma_advance_none(state@);
        assert(node@.children().take(0) =~= Seq::empty());
    }
    for i in 0..children.len()
        invariant
            trees_view(children@) == node@.children(),
            forall|j: int| 0 <= j < children@.len() ==> decreases_to!(node => #[trigger] children@[j]),
            state@ == advance_all(old(state)@, node@.children().take(i as int)),
    {
        proof {
            lemma_advance_step(old(state)@, node@.children(), i as int);
        }
        walk(state, &children[i]);
    }
    proof {
        assert(node@.children().take(children.len() as int) =~= node@.children());
    }
}

/// Opens a frame of inlines, goes through the children of `node`, and
/// closes the frame again: the state is as before, and the inlines that
/// were gathered are returned.
fn gather_inlines(state: &mut State, node: &Tree) -> (inlines: Vec<Inline>)
    ensures
        final(state)@ == old(state)@,
        inlines_view(inlines@) == inlines_in(node@.children()),
    decreases node, 1int,
{
    let mut mode = Mode::AccumulateInlines(Vec::new());
    std::mem::swap(&mut state.mode, &mut mode);
    proof {
        assert(inlines_view(Seq::<Inline>::empty()) =~= Seq::empty());
    }
    walk_children(state, node);
    std::mem::swap(&mut state.mode, &mut mode);
    match mode {
        Mode::AccumulateInlines(inlines) => {
            proof {
                assert(inlines_view(inlines@) =~= inlines_in(node@.children()));
            }
            inlines
        },
        _ => unreached(),
    }
}

/// Opens a frame of list items, goes through the children of `node`, and
/// closes the frame again.
fn gather_items(state: &mut State, node: &Tree) -> (items: Vec<ListItem>)
    ensures
        final(state)@ == old(state)@,
        items_view(items@) == items_in(node@.children()),
    decreases node, 1int,
{
    let mut mode = Mode::AccumulateListItems(Vec::new());
    std::mem::swap(&mut state.mode, &mut mode);
    proof {
        assert(items_view(Seq::<ListItem>::empty()) =~= Seq::empty());
    }
    walk_children(state, node);
    std::mem::swap(&mut state.mode, &mut mode);
    match mode {
        Mode::AccumulateListItems(items) => {
            proof {
                assert(items_view(items@) =~= items_in(node@.children()));
            }
            items
        },
        _ => unreached(),
    }
}

/// Opens a frame of blocks, goes through the children of `node` as the
/// children of a list item or a block quote, and closes the frame again.
fn gather_body(state: &mut State, node: &Tree) -> (blocks: Vec<Block>)
    ensures
        final(state)@ == old(state)@,
        blocks_view(blocks@) == body_of(node@.children()),
    decreases node, 1int,
{
    let mut mode = Mode::AccumulateBlocks(Vec::new());
    std::mem::swap(&mut state.mode, &mut mode);
    proof {
        assert(blocks_view(Seq::<Block>::empty()) =~= Seq::empty());
    }
    walk_block_children(state, node);
    std::mem::swap(&mut state.mode, &mut mode);
    match mode {
        Mode::AccumulateBlocks(blocks) => {
            proof {
                assert(blocks_view(blocks@) =~= body_of(node@.children()));
            }
            blocks
        },
        _ => unreached(),
    }
}

/// Adds a block to the open frame, which holds blocks.
fn append_block(state: &mut State, block: Block)
    requires
        old(state)@.mode is ScanForBlocks || old(state)@.mode is AccumulateBlocks,
    ensures
        final(state)@ == extended(old(state)@, seq![block@], seq![block@], Seq::empty(), Seq::empty()),
{
    proof {
        lemma_blocks_view_push(state.blocks@, block);
    }
    match &mut state.mode {
        Mode::AccumulateBlocks(blocks) => {
            proof {
                lemma_blocks_view_push(blocks@, block);
            }
            blocks.push(block);
        },
        _ => {
            state.blocks.push(block);
        },
    }
    proof {
        let a = extended(old(state)@, seq![block@], seq![block@], Seq::empty(), Seq::empty());
        assert(state@.blocks =~= a.blocks);
        if old(state)@.mode is AccumulateBlocks {
            assert(state@.mode->AccumulateBlocks_0 =~= a.mode->AccumulateBlocks_0);
        }
    }
}

/// Whether the open frame holds blocks.
fn in_block_frame(state: &State) -> (r: bool)
    ensures
        r == (state@.mode is ScanForBlocks || state@.mode is AccumulateBlocks),
{
    match &state.mode {
        Mode::ScanForBlocks => true,
        Mode::AccumulateBlocks(_) => true,
        _ => false,
    }
}

/// A `p` element: a paragraph where the open frame holds blocks. Elsewhere
/// the walk passes through it.
fn handle_para(state: &mut State, node: &Tree)
    requires
        node@ matches TreeView::Element { name, .. } && tag_of(name) == Tag::Para,
    ensures
        final(state)@ == advance(old(state)@, node@),
    decreases node, 2int,
{
    if in_block_frame(state) {
        let inlines = gather_inlines(state, node);
        append_block(state, Block::Paragraph(Paragraph { inlines }));
    } else {
        walk_children(state, node);
    }
}

/// A heading element: a heading at the top level. Elsewhere the walk
/// passes through it.
fn handle_heading(state: &mut State, node: &Tree, level: HeadingLevel)
    requires
        node@ matches TreeView::Element { name, .. } && tag_of(name) == Tag::Heading(level),
    ensures
        final(state)@ == advance(old(state)@, node@),
    decreases node, 2int,
{
    let at_top = match &state.mode {
        Mode::ScanForBlocks => true,
        _ => false,
    };
    if at_top {
        let inlines = gather_inlines(state, node);
        append_block(state, Block::Heading(Heading { inlines, level }));
    } else {
        walk_children(state, node);
    }
}

/// A text node: an inline where the open frame holds inlines. Elsewhere it
/// is dropped.
fn handle_text(state: &mut State, node: &Tree, text: String)
    requires
        node@ == (TreeView::Text { contents: text@ }),
    ensures
        final(state)@ == advance(old(state)@, node@),
{
    let ghost before = state@;
    match &mut state.mode {
        Mode::AccumulateInlines(inlines) => {
            proof {
                assert(inlines_view(inlines@.push(Inline::Text(text))) =~= inlines_view(inlines@) + seq![
                    InlineView::Text(text@),
                ]);
            }
            inlines.push(Inline::Text(text));
        },
        _ => {},
    }
    proof {
        let after = advance(before, node@);
        assert(state@.blocks =~= after.blocks);
        match before.mode {
            Frame::ScanForBlocks => {},
            Frame::AccumulateInlines(pending) => {},
            Frame::AccumulateListItems(pending) => {
                assert(state@.mode->AccumulateListItems_0 =~= after.mode->AccumulateListItems_0);
            },
            Frame::AccumulateBlocks(pending) => {
                assert(state@.mode->AccumulateBlocks_0 =~= after.mode->AccumulateBlocks_0);
            },
        }
    }
}

/// An `ol` or `ul` element: a list where the open frame holds blocks.
/// Elsewhere the walk passes through it.
fn handle_list(state: &mut State, node: &Tree, type_: ListType)
    requires
        node@ matches TreeView::Element { name, .. } && tag_of(name) == Tag::List(type_),
    ensures
        final(state)@ == advance(old(state)@, node@),
    decreases node, 2int,
{
    if in_block_frame(state) {
        let items = gather_items(state, node);
        append_block(state, Block::List(List { type_, items }));
    } else {
        walk_children(state, node);
    }
}

/// An `li` element: an item where a list is open. Elsewhere the walk
/// passes through it.
fn handle_list_item(state: &mut State, node: &Tree)
    requires
        node@ matches TreeView::Element { name, .. } && tag_of(name) == Tag::ListItem,
    ensures
        final(state)@ == advance(old(state)@, node@),
    decreases node, 2int,
{
    let in_list = match &state.mode {
        Mode::AccumulateListItems(_) => true,
        _ => false,
    };
    if in_list {
        let blocks = gather_body(state, node);
        let ghost before = state@;
        match &mut state.mode {
            Mode::AccumulateListItems(items) => {
                proof {
                    assert(items_view(items@.push(ListItem { blocks })) =~= items_view(items@) + seq![
                        blocks_view(blocks@),
                    ]);
                }
                items.push(ListItem { blocks });
            },
            _ => {},
        }
        proof {
            assert(state@.blocks =~= before.blocks);
        }
    } else {
        walk_children(state, node);
    }
}

/// A `blockquote` element: a block quote where the open frame holds
/// blocks. Elsewhere the walk passes through it.
fn handle_blockquote(state: &mut State, node: &Tree)
    requires
        node@ matches TreeView::Element { name, .. } && tag_of(name) == Tag::Blockquote,
    ensures
        final(state)@ == advance(old(state)@, node@),
    decreases node, 2int,
{
    if in_block_frame(state) {
        let blocks = gather_body(state, node);
        append_block(state, Block::Blockquote(Blockquote { blocks }));
    } else {
        walk_children(state, node);
    }
}

/// An `hr` element: a thematic break where the open frame holds blocks.
/// Its children are not visited.
fn handle_thematic_break(state: &mut State, node: &Tree)
    requires
        node@ matches TreeView::Element { name, .. } && tag_of(name) == Tag::ThematicBreak,
    ensures
        final(state)@ == advance(old(state)@, node@),
{
    if in_block_frame(state) {
        append_block(state, Block::ThematicBreak);
    } else {
        proof {
            let after = advance(state@, node@);
            assert(state@.blocks =~= after.blocks);
            match state@.mode {
                Frame::AccumulateInlines(pending) => {
                    assert(pending =~= after.mode->AccumulateInlines_0);
                },
                Frame::AccumulateListItems(pending) => {
                    assert(pending =~= after.mode->AccumulateListItems_0);
                },
                _ => {},
            }
        }
    }
}

/// A `pre` element: a code block where the open frame holds blocks.
/// Elsewhere the walk passes through it.
fn handle_pre(state: &mut State, node: &Tree)
    requires
        node@ matches TreeView::Element { name, .. } && tag_of(name) == Tag::Pre,
    ensures
        final(state)@ == advance(old(state)@, node@),
    decreases node, 2int,
{
    if in_block_frame(state) {
        let inlines = gather_inlines(state, node);
        append_block(state, Block::CodeBlock(CodeBlock { lang: CodeLang::Unknown, inlines }));
    } else {
        walk_children(state, node);
    }
}

/// Makes a paragraph of the inlines that wait, unless there are none.
fn flush_inlines(state: &mut State, next_inlines: &mut Vec<Inline>)
    requires
        old(state)@.mode is AccumulateBlocks,
    ensures
        final(state)@.blocks == old(state)@.blocks,
        final(state)@.mode == Frame::AccumulateBlocks(
            flushed(old(state)@.mode->AccumulateBlocks_0, inlines_view(old(next_inlines)@)),
        ),
        final(next_inlines)@.len() == 0,
{
    if !next_inlines.is_empty() {
        let mut inlines = Vec::new();
        std::mem::swap(next_inlines, &mut inlines);
        let ghost pending = old(state)@.mode->AccumulateBlocks_0;
        let ghost paragraph = BlockView::Paragraph { inlines: inlines_view(inlines@) };
        append_block(state, Block::Paragraph(Paragraph { inlines }));
        proof {
            assert(pending + seq![paragraph] =~= pending.push(paragraph));
        }
    }
}

/// Goes through the children of a list item or a block quote. The model
/// lets such a body hold blocks only, where the markup may hold inline
/// content directly: runs of inline children become paragraphs of their
/// own.
fn walk_block_children(state: &mut State, node: &Tree)
    requires
        old(state)@.mode is AccumulateBlocks,
    ensures
        final(state)@.blocks == old(state)@.blocks,
        final(state)@.mode == Frame::AccumulateBlocks(
            old(state)@.mode->AccumulateBlocks_0 + body_of(node@.children()),
        ),
    decreases node, 0int,
{
    let children = node.children();
    let mut next_inlines: Vec<Inline> = Vec::new();
    let ghost before = old(state)@.mode->AccumulateBlocks_0;
    proof {
        assert(node@.children().take(0) =~= Seq::empty());
        assert(before + body_walk(Seq::empty()).0 =~= before);
        assert(inlines_view(next_inlines@) =~= Seq::empty());
    }
    for i in 0..children.len()
        invariant
            trees_view(children@) == node@.children(),
            forall|j: int| 0 <= j < children@.len() ==> decreases_to!(node => #[trigger] children@[j]),
            state@.blocks == old(state)@.blocks,
            state@.mode == Frame::AccumulateBlocks(before + body_walk(node@.children().take(i as int)).0),
            inlines_view(next_inlines@) == body_walk(node@.children().take(i as int)).1,
    {
        let child = &children[i];
        let ghost done = node@.children().take(i as int);
        proof {
            let next = node@.children().take(i + 1);
            assert(next.drop_last() =~= done);
            assert(next.last() == child@);
        }
        if is_inline_element(child) {
            let mut frame = Mode::AccumulateInlines(next_inlines);
            std::mem::swap(&mut state.mode, &mut frame);
            walk(state, child);
            std::mem::swap(&mut state.mode, &mut frame);
            next_inlines = match frame {
                Mode::AccumulateInlines(inlines) => inlines,
                _ => unreached(),
            };
        } else {
            flush_inlines(state, &mut next_inlines);
            walk(state, child);
            proof {
                let (blocks, pending) = body_walk(done);
                assert(before + flushed(blocks, pending) =~= flushed(before + blocks, pending));
                assert(state@.mode->AccumulateBlocks_0 =~= before + (flushed(blocks, pending) + blocks_of(
                    child@,
                    false,
                )));
                assert(inlines_view(next_inlines@) =~= Seq::empty());
            }
        }
    }
    proof {
        assert(node@.children().take(children.len() as int) =~= node@.children());
        let (blocks, pending) = body_walk(node@.children());
        assert(before + flushed(blocks, pending) =~= flushed(before + blocks, pending));
    }
    flush_inlines(state, &mut next_inlines);
}

/// Builds the body of a document from a tree: the blocks that the tree
/// contributes at the top level, in source order.
pub fn body_from_dom(dom: &Tree) -> (body: Body)
    ensures
        body@ == document_blocks(dom@),
{
    let mut state = State { blocks: Vec::new(), mode: Mode::ScanForBlocks };
    proof {
        assert(blocks_view(state.blocks@) =~= Seq::empty());
    }
    walk(&mut state, dom);
    proof {
        assert(state@.blocks =~= document_blocks(dom@));
    }
    Body { blocks: state.blocks }
}

/// Builds the document of a post from the subtree that holds its
/// article: it comes from the address of the post, and its blocks are those
/// that the subtree contributes at the top level, in source order. Every
/// tree is accepted.
pub fn from_dom(post: &BlogPost, dom: &SubDom) -> (doc: Document)
    ensures
        doc@.origin_url == post.url,
        doc@.blocks == document_blocks(dom.node@),
{
    let meta = Meta { origin_url: post.url.clone() };
    let body = body_from_dom(&dom.node);
    Document { meta, body }
}

} // verus!
