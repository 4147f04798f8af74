//! The title of a document: the text of its first heading.

use vstd::prelude::*;
use vstd::string::StringExecFns;
use crate::doc::{Block, BlockView, Document, HeadingLevel, Inline, InlineView, blocks_view, inlines_view};

verus! {

/// The text of an inline, without the wrappers around it.
pub open spec fn inline_text(inline: InlineView) -> Seq<char>
    decreases inline,
{
    match inline {
        InlineView::Text(text) => text,
        InlineView::Bold(inner) => inline_text(*inner),
        InlineView::Italic(inner) => inline_text(*inner),
        InlineView::Code(inner) => inline_text(*inner),
    }
}

/// The texts of several inlines, one after the other.
pub open spec fn inlines_text(inlines: Seq<InlineView>) -> Seq<char>
    decreases inlines.len(),
{
    if inlines.len() == 0 {
        Seq::empty()
    } else {
        inlines_text(inlines.drop_last()) + inline_text(inlines.last())
    }
}

/// The headings among the given blocks, each with its level and its text,
/// in order. Headings inside other blocks do not count.
pub open spec fn headings(blocks: Seq<BlockView>) -> Seq<(HeadingLevel, Seq<char>)>
    decreases blocks.len(),
{
    if blocks.len() == 0 {
        Seq::empty()
    } else {
        match blocks.last() {
            BlockView::Heading { level, inlines } => headings(blocks.drop_last()).push(
                (level, inlines_text(inlines)),
            ),
            _ => headings(blocks.drop_last()),
        }
    }
}

/// The title among the given blocks: the text of the first heading, of
/// whatever level.
pub open spec fn title_of(blocks: Seq<BlockView>) -> Option<Seq<char>> {
    if headings(blocks).len() > 0 {
        Some(headings(blocks)[0].1)
    } else {
        None
    }
}

/// The view of a list of headings.
pub open spec fn headings_view(hs: Seq<(HeadingLevel, String)>) -> Seq<(HeadingLevel, Seq<char>)> {
    Seq::new(hs.len(), |i: int| (hs[i].0, hs[i].1@))
}

/// The view of a text that may be missing.
pub open spec fn text_view(text: Option<String>) -> Option<Seq<char>> {
    match text {
        Some(t) => Some(t@),
        None => None,
    }
}

/// Appends the text of an inline to `buf`.
fn cat_text_inline(buf: &mut String, inline: &Inline)
    ensures
        final(buf)@ == old(buf)@ + inline_text(inline@),
    decreases inline,
{
    match inline {
        Inline::Text(text) => {
            buf.append(text.as_str());
        },
        Inline::Bold(inner) => {
            cat_text_inline(buf, inner);
        },
        Inline::Italic(inner) => {
            cat_text_inline(buf, inner);
        },
        Inline::Code(inner) => {
            cat_text_inline(buf, inner);
        },
    }
}

/// Appends the texts of the inlines to `buf`, in order.
pub fn cat_text_inlines(buf: &mut String, inlines: &Vec<Inline>)
    ensures
        final(buf)@ == old(buf)@ + inlines_text(inlines_view(inlines@)),
{
    let ghost all = inlines_view(inlines@);
    proof {
        assert(all.take(0) =~= Seq::empty());
        assert(buf@ + Seq::<char>::empty() =~= buf@);
    }
    for i in 0..inlines.len()
        invariant
            all == inlines_view(inlines@),
            buf@ == old(buf)@ + inlines_text(all.take(i as int)),
    {
        proof {
            assert(all.take(i + 1).drop_last() =~= all.take(i as int));
            assert(all.take(i + 1).last() == inlines@[i as int]@);
            assert(old(buf)@ + inlines_text(all.take(i as int)) + inline_text(inlines@[i as int]@) =~= old(buf)@
                + (inlines_text(all.take(i as int)) + inline_text(inlines@[i as int]@)));
        }
        cat_text_inline(buf, &inlines[i]);
    }
    proof {
        assert(all.take(inlines.len() as int) =~= all);
    }
}

/// Appends to `hs` the headings among the blocks.
pub fn walk_blocks(hs: &mut Vec<(HeadingLevel, String)>, blocks: &Vec<Block>)
    ensures
        headings_view(final(hs)@) == headings_view(old(hs)@) + headings(blocks_view(blocks@)),
{
    let ghost all = blocks_view(blocks@);
    proof {
        assert(all.take(0) =~= Seq::empty());
        assert(headings_view(hs@) + Seq::<(HeadingLevel, Seq<char>)>::empty() =~= headings_view(hs@));
    }
    for i in 0..blocks.len()
        invariant
            all == blocks_view(blocks@),
            headings_view(hs@) == headings_view(old(hs)@) + headings(all.take(i as int)),
    {
        proof {
            assert(all.take(i + 1).drop_last() =~= all.take(i as int));
            assert(all.take(i + 1).last() == blocks@[i as int]@);
        }
        match &blocks[i] {
            Block::Heading(heading) => {
                let mut buf = String::new();
                cat_text_inlines(&mut buf, &heading.inlines);
                let ghost before = hs@;
                hs.push((heading.level, buf));
                proof {
                    assert(buf@ =~= inlines_text(inlines_view(heading.inlines@)));
                    assert(headings_view(hs@) =~= headings_view(before).push((heading.level, buf@)));
                    assert(headings_view(hs@) =~= headings_view(old(hs)@) + headings(all.take(i + 1)));
                }
            },
            _ => {},
        }
    }
    proof {
        assert(all.take(blocks.len() as int) =~= all);
    }
}

/// Appends to `hs` the headings of the document.
fn walk_doc(hs: &mut Vec<(HeadingLevel, String)>, doc: &Document)
    ensures
        headings_view(final(hs)@) == headings_view(old(hs)@) + headings(doc@.blocks),
{
    walk_blocks(hs, &doc.body.blocks);
}

/// The title of a document: the text of its first heading, of whatever
/// level, or `None` where it has no heading.
pub fn title(doc: &Document) -> (r: Option<String>)
    ensures
        text_view(r) == title_of(doc@.blocks),
{
    let mut hs: Vec<(HeadingLevel, String)> = Vec::new();
    walk_doc(&mut hs, doc);
    proof {
        assert(headings_view(hs@) =~= headings(doc@.blocks));
    }
    if hs.len() > 0 {
        let first = hs.swap_remove(0);
        Some(first.1)
    } else {
        None
    }
}

} // verus!
