//! Repairs of a built document, and slugs.
//!
//! A document whose first heading is not of the first level has lost its
//! title: some pages keep it outside the article. The repair looks for it
//! in the whole page. A slug is a lower-case name of letters, digits and
//! single dashes, fit for a file name or a URL.

use vstd::prelude::*;
use vstd::string::StrSliceExecFns;
use crate::convert::{body_from_dom, document_blocks};
use crate::doc::{Block, BlockView, Body, Document, Heading, HeadingLevel, blocks_view};
use crate::extract::headings;
use crate::html::{CandidateType, extract_dom, parsed};
use crate::text::{is_ascii_caseless, is_ascii_upper, lowercased, push_char, to_lowercase};

verus! {

/// Whether the first heading among the blocks is not of the first level.
/// Blocks without any heading miss nothing.
pub open spec fn is_missing_h1(blocks: Seq<BlockView>) -> bool {
    headings(blocks).len() > 0 && headings(blocks)[0].0 != HeadingLevel::H1
}

/// The first heading of the first level among the blocks.
pub open spec fn first_h1(blocks: Seq<BlockView>) -> Option<BlockView>
    decreases blocks.len(),
{
    if blocks.len() == 0 {
        None
    } else if blocks[0] matches BlockView::Heading { level: HeadingLevel::H1, .. } {
        Some(blocks[0])
    } else {
        first_h1(blocks.drop_first())
    }
}

/// The first heading of the first level of a whole page: of the document
/// that is built from the tree of the page. A page that cannot be parsed
/// has none.
pub open spec fn page_h1(post: Seq<char>) -> Option<BlockView> {
    match parsed(post) {
        Some(tree) => first_h1(document_blocks(tree)),
        None => None,
    }
}

/// The blocks after the repair: where the first heading is not of the
/// first level, and the article was not chosen as a Dreamwidth entry, the
/// heading found in the whole page, if any, is put in front.
pub open spec fn with_h1(blocks: Seq<BlockView>, h1: Option<BlockView>, kind: CandidateType) -> Seq<
    BlockView,
> {
    if is_missing_h1(blocks) && kind != CandidateType::Dreamwidth && h1 is Some {
        seq![h1->0] + blocks
    } else {
        blocks
    }
}

/// The view of a heading that may be missing, as a block.
pub open spec fn heading_view(heading: Option<Heading>) -> Option<BlockView> {
    match heading {
        Some(h) => Some(Block::Heading(h)@),
        None => None,
    }
}

/// Whether the first heading of the document is not of the first level.
pub fn missing_h1(doc: &Document) -> (r: bool)
    ensures
        r == is_missing_h1(doc@.blocks),
{
    let blocks = &doc.body.blocks;
    let ghost all = blocks_view(blocks@);
    proof {
        assert(all.take(0) =~= Seq::empty());
    }
    for i in 0..blocks.len()
        invariant
            all == blocks_view(blocks@),
            all == doc@.blocks,
            headings(all.take(i as int)).len() == 0,
    {
        proof {
            assert(all.take(i + 1).drop_last() =~= all.take(i as int));
            assert(all.take(i + 1).last() == blocks@[i as int]@);
        }
        match &blocks[i] {
            Block::Heading(h) => {
                proof {
                    lemma_headings_prefix(all, i + 1);
                }
                return !matches!(h.level, HeadingLevel::H1);
            },
            _ => {},
        }
    }
    proof {
        assert(all.take(blocks.len() as int) =~= all);
    }
    false
}

/// The headings among the first `n` blocks are the first headings among
/// all the blocks.
proof fn lemma_headings_prefix(blocks: Seq<BlockView>, n: int)
    requires
        0 <= n <= blocks.len(),
    ensures
        headings(blocks.take(n)).len() <= headings(blocks).len(),
        forall|i: int| 0 <= i < headings(blocks.take(n)).len() ==> headings(blocks)[i] == headings(
            blocks.take(n),
        )[i],
    decreases blocks.len() - n,
{
    if n == blocks.len() {
        assert(blocks.take(n) =~= blocks);
    } else {
        lemma_headings_prefix(blocks, n + 1);
        assert(blocks.take(n + 1).drop_last() =~= blocks.take(n));
    }
}

/// Takes the first heading of the first level out of a body.
pub fn first_h1_in(body: Body) -> (r: Option<Heading>)
    ensures
        heading_view(r) == first_h1(body@),
{
    let mut blocks = body.blocks;
    let ghost all = blocks_view(blocks@);
    let mut found: Option<usize> = None;
    let mut i: usize = 0;
    proof {
        assert(all.skip(0) =~= all);
    }
    while i < blocks.len() && found.is_none()
        invariant
            i <= blocks.len(),
            all == blocks_view(blocks@),
            match found {
                Some(at) => at < blocks.len() && first_h1(all) == Some(all[at as int])
                    && blocks@[at as int] is Heading,
                None => first_h1(all) == first_h1(all.skip(i as int)),
            },
        decreases blocks.len() - i + (if found is None { 1int } else { 0int }),
    {
        proof {
            assert(all.skip(i as int).drop_first() =~= all.skip(i + 1));
            assert(all.skip(i as int)[0] == blocks@[i as int]@);
        }
        let is_h1 = match &blocks[i] {
            Block::Heading(h) => matches!(h.level, HeadingLevel::H1),
            _ => false,
        };
        if is_h1 {
            found = Some(i);
        } else {
            i = i + 1;
        }
    }
    match found {
        Some(at) => match blocks.swap_remove(at) {
            Block::Heading(h) => Some(h),
            _ => None,
        },
        None => {
            proof {
                assert(all.skip(i as int).len() == 0);
            }
            None
        },
    }
}

/// The first heading of the first level of a whole page.
pub fn find_h1(post: &str) -> (r: Option<Heading>)
    ensures
        heading_view(r) == page_h1(post@),
{
    match extract_dom(post) {
        Ok(dom) => first_h1_in(body_from_dom(&dom.node)),
        Err(_) => None,
    }
}

/// Puts the heading in front of the blocks of the document, where the
/// first heading of the document is not of the first level and the article
/// was not chosen as a Dreamwidth entry.
pub fn add_h1(doc: Document, h1: Option<Heading>, candidate_type: CandidateType) -> (r: Document)
    ensures
        r@.origin_url == doc@.origin_url,
        r@.blocks == with_h1(doc@.blocks, heading_view(h1), candidate_type),
{
    let mut doc = doc;
    if missing_h1(&doc) && candidate_type != CandidateType::Dreamwidth {
        if let Some(h1) = h1 {
            let ghost before = doc.body.blocks@;
            doc.body.blocks.insert(0, Block::Heading(h1));
            proof {
                assert(blocks_view(doc.body.blocks@) =~= seq![Block::Heading(h1)@] + blocks_view(before));
            }
        }
    }
    doc
}

/// Some pages keep their title outside the article. Where the first
/// heading of the document is not of the first level, the whole page is
/// searched for a heading of the first level, and the first one found is
/// put in front of the document. An article chosen as a Dreamwidth entry is
/// left as it is: there the title is known to stand elsewhere.
pub fn maybe_add_h1(doc: Document, post: &str, candidate_type: CandidateType) -> (r: Document)
    ensures
        r@.origin_url == doc@.origin_url,
        r@.blocks == with_h1(doc@.blocks, page_h1(post@), candidate_type),
{
    if missing_h1(&doc) && candidate_type != CandidateType::Dreamwidth {
        let h1 = find_h1(post);
        add_h1(doc, h1, candidate_type)
    } else {
        doc
    }
}

/// Repairs a built document: see [`maybe_add_h1`].
pub fn sanitize(doc: Document, post: &str, candidate_type: CandidateType) -> (r: Document)
    ensures
        r@.origin_url == doc@.origin_url,
        r@.blocks == with_h1(doc@.blocks, page_h1(post@), candidate_type),
{
    maybe_add_h1(doc, post, candidate_type)
}

/// The heading that the repair looks for is a heading of the first level.
pub proof fn lemma_first_h1_is_h1(blocks: Seq<BlockView>)
    ensures
        first_h1(blocks) matches Some(h1) ==> h1 matches BlockView::Heading { level: HeadingLevel::H1, .. },
    decreases blocks.len(),
{
    if blocks.len() > 0 {
        lemma_first_h1_is_h1(blocks.drop_first());
    }
}

/// The headings among blocks with one more block in front.
proof fn lemma_headings_prepend(first: BlockView, blocks: Seq<BlockView>)
    ensures
        headings(seq![first] + blocks) == headings(seq![first]) + headings(blocks),
    decreases blocks.len(),
{
    if blocks.len() == 0 {
        assert(seq![first] + blocks =~= seq![first]);
        assert(headings(seq![first]) + headings(blocks) =~= headings(seq![first]));
    } else {
        lemma_headings_prepend(first, blocks.drop_last());
        assert((seq![first] + blocks).drop_last() =~= seq![first] + blocks.drop_last());
        assert((seq![first] + blocks).last() == blocks.last());
        match blocks.last() {
            BlockView::Heading { level, inlines } => {
                assert(headings(seq![first] + blocks) =~= headings(seq![first]) + headings(blocks));
            },
            _ => {},
        }
    }
}

/// The repair repairs: where the whole page has a heading of the first
/// level, and the article was not chosen as a Dreamwidth entry, the first
/// heading of the repaired document is of the first level.
pub proof fn lemma_repair_restores_h1(blocks: Seq<BlockView>, h1: BlockView, kind: CandidateType)
    requires
        h1 matches BlockView::Heading { level: HeadingLevel::H1, .. },
        kind != CandidateType::Dreamwidth,
    ensures
        !is_missing_h1(with_h1(blocks, Some(h1), kind)),
{
    if is_missing_h1(blocks) {
        lemma_headings_prepend(h1, blocks);
        let single = seq![h1];
        assert(single.drop_last() =~= Seq::empty());
        assert(headings(single.drop_last()) =~= Seq::empty());
        assert(headings(single).len() == 1);
        assert(headings(single)[0].0 == HeadingLevel::H1);
    }
}

/// A letter or a digit of ASCII.
pub open spec fn is_ascii_alphanumeric(c: char) -> bool {
    ('0' <= c <= '9') || ('a' <= c <= 'z') || ('A' <= c <= 'Z')
}

/// A character that a slug may hold, but for the case of letters.
pub open spec fn is_slug_char(c: char) -> bool {
    c == '-' || is_ascii_alphanumeric(c)
}

/// The text with every character outside ASCII left out.
pub open spec fn ascii_only(text: Seq<char>) -> Seq<char> {
    text.filter(|c: char| c <= '\x7f')
}

/// The text with a dash in place of every space.
pub open spec fn spaces_to_dashes(text: Seq<char>) -> Seq<char> {
    text.map_values(|c: char| if c == ' ' { '-' } else { c })
}

/// The text with every character left out that is neither a dash nor a
/// letter or digit of ASCII.
pub open spec fn slug_chars_only(text: Seq<char>) -> Seq<char> {
    text.filter(|c: char| is_slug_char(c))
}

/// The text with every dash left out that follows a dash directly: a run of
/// dashes becomes one dash.
pub open spec fn condensed(text: Seq<char>) -> Seq<char>
    decreases text.len(),
{
    if text.len() == 0 {
        text
    } else if text.len() >= 2 && text[text.len() - 2] == '-' && text.last() == '-' {
        condensed(text.drop_last())
    } else {
        condensed(text.drop_last()).push(text.last())
    }
}

/// The text without one dash at its start, if it starts with one.
pub open spec fn without_leading_dash(text: Seq<char>) -> Seq<char> {
    if text.len() > 0 && text[0] == '-' {
        text.drop_first()
    } else {
        text
    }
}

/// The text without one dash at its end, if it ends with one.
pub open spec fn without_trailing_dash(text: Seq<char>) -> Seq<char> {
    if text.len() > 0 && text.last() == '-' {
        text.drop_last()
    } else {
        text
    }
}

/// The text without one dash at its start and one at its end, where it has
/// them. A text that is empty, or a single dash, gives the empty text.
pub open spec fn dashes_trimmed(text: Seq<char>) -> Seq<char> {
    without_trailing_dash(without_leading_dash(text))
}

/// What becomes of a text once it is in lower case: spaces become dashes,
/// what is neither dash, letter nor digit goes, runs of dashes shrink to
/// one dash, and a dash at either end goes.
pub open spec fn tidied(text: Seq<char>) -> Seq<char> {
    dashes_trimmed(condensed(slug_chars_only(spaces_to_dashes(text))))
}

/// The slug of a text.
pub open spec fn slug(text: Seq<char>) -> Seq<char> {
    tidied(lowercased(text))
}

/// No dash of the text follows a dash directly.
pub open spec fn no_dash_run(text: Seq<char>) -> bool {
    forall|i: int| 0 <= i < text.len() - 1 ==> !(text[i] == '-' && #[trigger] text[i + 1] == '-')
}

/// The form that [`tidied`] gives a text: dashes, letters and digits of
/// ASCII only, no two dashes in a row, no dash at either end.
pub open spec fn is_tidy(text: Seq<char>) -> bool {
    &&& forall|i: int| 0 <= i < text.len() ==> is_slug_char(#[trigger] text[i])
    &&& no_dash_run(text)
    &&& text.len() > 0 ==> text[0] != '-' && text.last() != '-'
}

/// The form of a slug: tidy, and without upper-case letters.
pub open spec fn is_slug(text: Seq<char>) -> bool {
    &&& is_tidy(text)
    &&& forall|i: int| 0 <= i < text.len() ==> !is_ascii_upper(#[trigger] text[i])
}

/// Whether a character is a letter or a digit of ASCII.
fn char_is_ascii_alphanumeric(c: char) -> (r: bool)
    ensures
        r == is_ascii_alphanumeric(c),
{
    ('0' <= c && c <= '9') || ('a' <= c && c <= 'z') || ('A' <= c && c <= 'Z')
}

/// Leaves out every character outside ASCII.
pub fn remove_non_ascii(s: String) -> (r: String)
    ensures
        r@ == ascii_only(s@),
{
    let mut out = String::new();
    proof {
        reveal(Seq::filter);
        assert(s@.take(0) =~= Seq::empty());
    }
    for c in it: s.as_str().chars()
        invariant
            it.seq() == s@,
            out@ == ascii_only(s@.take(it.index() as int)),
    {
        proof {
            reveal(Seq::filter);
            assert(s@.take(it.index() + 1).drop_last() =~= s@.take(it.index() as int));
        }
        if c <= '\x7f' {
            push_char(&mut out, c);
        }
    }
    proof {
        assert(s@.take(s@.len() as int) =~= s@);
    }
    out
}

/// Puts a dash in place of every space.
pub fn convert_space_to_dash(s: String) -> (r: String)
    ensures
        r@ == spaces_to_dashes(s@),
{
    let mut out = String::new();
    for c in it: s.as_str().chars()
        invariant
            it.seq() == s@,
            out@ == spaces_to_dashes(s@.take(it.index() as int)),
    {
        proof {
            assert(spaces_to_dashes(s@.take(it.index() + 1)) =~= spaces_to_dashes(
                s@.take(it.index() as int),
            ).push(if c == ' ' { '-' } else { c }));
        }
        if c == ' ' {
            push_char(&mut out, '-');
        } else {
            push_char(&mut out, c);
        }
    }
    proof {
        assert(s@.take(s@.len() as int) =~= s@);
    }
    out
}

/// Leaves out every character that is neither a dash nor a letter or digit
/// of ASCII.
pub fn remove_non_ascii_alphanumeric_dash(s: String) -> (r: String)
    ensures
        r@ == slug_chars_only(s@),
{
    let mut out = String::new();
    proof {
        reveal(Seq::filter);
        assert(s@.take(0) =~= Seq::empty());
    }
    for c in it: s.as_str().chars()
        invariant
            it.seq() == s@,
            out@ == slug_chars_only(s@.take(it.index() as int)),
    {
        proof {
            reveal(Seq::filter);
            assert(s@.take(it.index() + 1).drop_last() =~= s@.take(it.index() as int));
        }
        if c == '-' || char_is_ascii_alphanumeric(c) {
            push_char(&mut out, c);
        }
    }
    proof {
        assert(s@.take(s@.len() as int) =~= s@);
    }
    out
}

/// Shrinks every run of dashes to one dash.
pub fn condense_dash_runs(s: String) -> (r: String)
    ensures
        r@ == condensed(s@),
{
    let mut out = String::new();
    let mut after_dash = false;
    proof {
        assert(s@.take(0) =~= Seq::empty());
    }
    for c in it: s.as_str().chars()
        invariant
            it.seq() == s@,
            out@ == condensed(s@.take(it.index() as int)),
            after_dash == (it.index() > 0 && s@[it.index() - 1] == '-'),
    {
        proof {
            assert(s@.take(it.index() + 1).drop_last() =~= s@.take(it.index() as int));
        }
        let is_dash = c == '-';
        if !(after_dash && is_dash) {
            push_char(&mut out, c);
        }
        after_dash = is_dash;
    }
    proof {
        assert(s@.take(s@.len() as int) =~= s@);
    }
    out
}

/// Takes one dash off the start and one off the end, where they are there.
pub fn remove_leading_and_trailing_dashes(s: String) -> (r: String)
    ensures
        r@ == dashes_trimmed(s@),
{
    let text = s.as_str();
    let len = text.unicode_len();
    let mut from: usize = 0;
    let mut to: usize = len;
    if from < to && text.get_char(from) == '-' {
        from = 1;
    }
    if from < to && text.get_char(to - 1) == '-' {
        to = to - 1;
    }
    let kept = text.substring_char(from, to);
    proof {
        let a = without_leading_dash(s@);
        assert(a =~= s@.subrange(from as int, len as int));
        assert(without_trailing_dash(a) =~= s@.subrange(from as int, to as int));
    }
    kept.to_owned()
}

/// Tidies a text that is in lower case already: spaces become dashes, what
/// is neither dash, letter nor digit goes, runs of dashes shrink to one
/// dash, and a dash at either end goes. The result is tidy, and a tidy text
/// comes back as it is.
pub fn tidy(lowered: String) -> (r: String)
    ensures
        r@ == tidied(lowered@),
        is_tidy(r@),
        is_tidy(lowered@) ==> r@ == lowered@,
{
    proof {
        lemma_tidied_is_tidy(lowered@);
        if is_tidy(lowered@) {
            lemma_tidied_fixed(lowered@);
        }
    }
    let dashed = convert_space_to_dash(lowered);
    let filtered = remove_non_ascii_alphanumeric_dash(dashed);
    let condensed = condense_dash_runs(filtered);
    remove_leading_and_trailing_dashes(condensed)
}

/// The slug of a text: the text in lower case, then tidied. The result has
/// the form of a slug, and a text that has that form already is its own
/// slug: the slug of a slug is the slug itself.
pub fn string_to_slug(s: String) -> (r: String)
    ensures
        r@ == slug(s@),
        is_slug(r@),
        is_slug(s@) ==> r@ == s@,
{
    let lowered = to_lowercase(s.as_str());
    proof {
        lemma_tidied_keeps(lowered@, |c: char| !is_ascii_upper(c));
        if is_slug(s@) {
            assert forall|i: int| 0 <= i < s@.len() implies is_ascii_caseless(#[trigger] s@[i]) by {
                assert(is_slug_char(s@[i]));
            }
        }
    }
    tidy(lowered)
}

/// The slug of a title.
pub fn title_to_slug(s: String) -> (r: String)
    ensures
        r@ == slug(s@),
        is_slug(r@),
        is_slug(s@) ==> r@ == s@,
{
    string_to_slug(s)
}

/// The slug of a name.
pub fn name_to_slug(s: String) -> (r: String)
    ensures
        r@ == slug(s@),
        is_slug(r@),
        is_slug(s@) ==> r@ == s@,
{
    string_to_slug(s)
}

/// The slug of every text has the form that tidying gives: no two dashes in
/// a row, and no dash at either end.
pub proof fn lemma_slug_is_tidy(text: Seq<char>)
    ensures
        is_tidy(slug(text)),
{
    lemma_tidied_is_tidy(lowercased(text));
}

/// What holds of every character of a text holds of every character that
/// is left of it when some are filtered out.
proof fn lemma_filter_keeps(text: Seq<char>, pred: spec_fn(char) -> bool, p: spec_fn(char) -> bool)
    requires
        forall|i: int| 0 <= i < text.len() ==> p(#[trigger] text[i]),
    ensures
        forall|i: int| 0 <= i < text.filter(pred).len() ==> p(#[trigger] text.filter(pred)[i]),
    decreases text.len(),
{
    reveal(Seq::filter);
    if text.len() > 0 {
        let shorter = text.drop_last();
        assert forall|i: int| 0 <= i < shorter.len() implies p(#[trigger] shorter[i]) by {
            assert(p(text[i]));
        }
        lemma_filter_keeps(shorter, pred, p);
        assert(p(text[text.len() - 1]));
        assert forall|i: int| 0 <= i < text.filter(pred).len() implies p(#[trigger] text.filter(pred)[i]) by {
            if i < shorter.filter(pred).len() {
                assert(text.filter(pred)[i] == shorter.filter(pred)[i]);
            }
        }
    }
}

/// Filtering leaves a text as it is where every character passes.
proof fn lemma_filter_all(text: Seq<char>, pred: spec_fn(char) -> bool)
    requires
        forall|i: int| 0 <= i < text.len() ==> pred(#[trigger] text[i]),
    ensures
        text.filter(pred) == text,
    decreases text.len(),
{
    reveal(Seq::filter);
    if text.len() > 0 {
        lemma_filter_all(text.drop_last(), pred);
        assert(text.drop_last().push(text.last()) =~= text);
    }
}

/// Condensing leaves no run of dashes, and keeps the last character. What
/// holds of every character of the text holds of every character of the
/// result.
proof fn lemma_condensed(text: Seq<char>, p: spec_fn(char) -> bool)
    ensures
        no_dash_run(condensed(text)),
        text.len() > 0 ==> condensed(text).len() > 0 && condensed(text).last() == text.last(),
        (forall|i: int| 0 <= i < text.len() ==> p(#[trigger] text[i])) ==> (forall|i: int|
            0 <= i < condensed(text).len() ==> p(#[trigger] condensed(text)[i])),
    decreases text.len(),
{
    if text.len() > 0 {
        lemma_condensed(text.drop_last(), p);
        let before = condensed(text.drop_last());
        let after = condensed(text);
        if text.len() >= 2 && text[text.len() - 2] == '-' && text.last() == '-' {
        } else {
            assert forall|i: int| 0 <= i < after.len() - 1 implies !(after[i] == '-' && #[trigger] after[i + 1]
                == '-') by {
                if i + 1 < before.len() {
                    assert(after[i + 1] == before[i + 1]);
                }
            }
        }
    }
}

/// Condensing leaves a text as it is where it has no run of dashes.
proof fn lemma_condensed_fixed(text: Seq<char>)
    requires
        no_dash_run(text),
    ensures
        condensed(text) == text,
    decreases text.len(),
{
    if text.len() > 0 {
        let shorter = text.drop_last();
        assert forall|i: int| 0 <= i < shorter.len() - 1 implies !(shorter[i] == '-' && #[trigger] shorter[i
            + 1] == '-') by {
            assert(text[i + 1] == shorter[i + 1]);
        }
        lemma_condensed_fixed(shorter);
        if text.len() >= 2 {
            assert(text[text.len() - 2 + 1] == text.last());
        }
        assert(shorter.push(text.last()) =~= text);
    }
}

/// What holds of every character of a text, and of the dash, holds of
/// every character of the tidied text.
pub proof fn lemma_tidied_keeps(text: Seq<char>, p: spec_fn(char) -> bool)
    requires
        forall|i: int| 0 <= i < text.len() ==> p(#[trigger] text[i]),
        p('-'),
    ensures
        forall|i: int| 0 <= i < tidied(text).len() ==> p(#[trigger] tidied(text)[i]),
{
    let dashed = spaces_to_dashes(text);
    assert forall|i: int| 0 <= i < dashed.len() implies p(#[trigger] dashed[i]) by {
        assert(p(text[i]));
    }
    let filtered = slug_chars_only(dashed);
    lemma_filter_keeps(dashed, |c: char| is_slug_char(c), p);
    let shrunk = condensed(filtered);
    lemma_condensed(filtered, p);
    let a = without_leading_dash(shrunk);
    assert forall|i: int| 0 <= i < a.len() implies p(#[trigger] a[i]) by {
        if shrunk.len() > 0 && shrunk[0] == '-' {
            assert(a[i] == shrunk[i + 1]);
        }
    }
    let b = without_trailing_dash(a);
    assert forall|i: int| 0 <= i < b.len() implies p(#[trigger] b[i]) by {
        assert(b[i] == a[i]);
    }
}

/// A tidied text is tidy: for every text, it holds only dashes, letters and
/// digits of ASCII, no two dashes in a row, and no dash at either end.
pub proof fn lemma_tidied_is_tidy(text: Seq<char>)
    ensures
        is_tidy(tidied(text)),
{
    let dashed = spaces_to_dashes(text);
    let filtered = slug_chars_only(dashed);
    assert forall|i: int| 0 <= i < filtered.len() implies is_slug_char(#[trigger] filtered[i]) by {
        dashed.lemma_filter_pred(|c: char| is_slug_char(c), i);
    }
    let shrunk = condensed(filtered);
    lemma_condensed(filtered, |c: char| is_slug_char(c));
    let a = without_leading_dash(shrunk);
    let b = without_trailing_dash(a);
    assert(b == tidied(text));
    assert forall|i: int| 0 <= i < a.len() implies is_slug_char(#[trigger] a[i]) by {
        if shrunk.len() > 0 && shrunk[0] == '-' {
            assert(a[i] == shrunk[i + 1]);
        }
    }
    assert forall|i: int| 0 <= i < a.len() - 1 implies !(a[i] == '-' && #[trigger] a[i + 1] == '-') by {
        if shrunk.len() > 0 && shrunk[0] == '-' {
            assert(a[i + 1] == shrunk[i + 1 + 1]);
        }
    }
    if a.len() > 0 && shrunk.len() > 0 && shrunk[0] == '-' {
        assert(a[0] == shrunk[0int + 1]);
        assert(a[0] != '-');
    }
    assert forall|i: int| 0 <= i < b.len() implies is_slug_char(#[trigger] b[i]) by {
        assert(b[i] == a[i]);
    }
    assert forall|i: int| 0 <= i < b.len() - 1 implies !(b[i] == '-' && #[trigger] b[i + 1] == '-') by {
        assert(b[i + 1] == a[i + 1]);
    }
    if b.len() > 0 {
        assert(b[0] == a[0]);
        if a.len() > 0 && a.last() == '-' {
            assert(a[a.len() - 2 + 1] == a.last());
            assert(b.last() == a[a.len() - 2]);
        }
    }
}

/// A tidy text is left as it is.
pub proof fn lemma_tidied_fixed(text: Seq<char>)
    requires
        is_tidy(text),
    ensures
        tidied(text) == text,
{
    let dashed = spaces_to_dashes(text);
    assert forall|i: int| 0 <= i < text.len() implies dashed[i] == text[i] by {
        assert(is_slug_char(text[i]));
    }
    assert(dashed =~= text);
    lemma_filter_all(text, |c: char| is_slug_char(c));
    lemma_condensed_fixed(text);
}

/// Tidying twice is tidying once.
pub proof fn lemma_tidied_idempotent(text: Seq<char>)
    ensures
        tidied(tidied(text)) == tidied(text),
{
    lemma_tidied_is_tidy(text);
    lemma_tidied_fixed(tidied(text));
}

} // verus!
