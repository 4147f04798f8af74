//! Finding the subtree of a page that holds the article.

use std::io::Cursor;
use std::rc::Rc;
use html5ever::driver::ParseOpts;
use html5ever::parse_document;
use html5ever::tendril::TendrilSink;
use html5ever::tree_builder::TreeBuilderOpts;
use markup5ever_rcdom::{NodeData, RcDom};
use vstd::prelude::*;
use vstd::string::StringExecFns;
use crate::text::{starts_with, str_eq};
use crate::tree::{Attribute, AttributeView, Tree, TreeView, attrs_view, trees_view};

verus! {

/// The patterns by which a node is taken for the article.
#[derive(Debug, Clone, Copy, PartialEq, Eq, Structural)]
pub enum CandidateType {
    /// An `article` element.
    Article,
    /// A `main` element.
    Main,
    /// A `div` whose `id` is `content`.
    ContentDiv,
    /// A `div` whose `id` starts with `entry-`, but not with
    /// `entry-wrapper-`.
    Dreamwidth,
}

/// A node taken for the article, and the pattern that it matched.
#[derive(Debug, Clone, Copy)]
pub struct Candidate<'a> {
    pub type_: CandidateType,
    pub node: &'a Tree,
}

/// The view of a [`Candidate`].
pub struct CandidateView {
    pub kind: CandidateType,
    pub node: TreeView,
}

impl<'a> View for Candidate<'a> {
    type V = CandidateView;

    open spec fn view(&self) -> CandidateView {
        CandidateView { kind: self.type_, node: self.node@ }
    }
}

/// The view of a candidate that may be missing.
pub open spec fn candidate_view(candidate: Option<Candidate<'_>>) -> Option<CandidateView> {
    match candidate {
        Some(c) => Some(c@),
        None => None,
    }
}

/// The value of the first attribute named `id`, if there is one.
pub open spec fn id_attr(attrs: Seq<AttributeView>) -> Option<Seq<char>>
    decreases attrs.len(),
{
    if attrs.len() == 0 {
        None
    } else if attrs[0].name == "id"@ {
        Some(attrs[0].value)
    } else {
        id_attr(attrs.drop_first())
    }
}

/// Whether an `id` marks an entry of a Dreamwidth journal.
pub open spec fn is_dreamwidth_id(id: Option<Seq<char>>) -> bool {
    id matches Some(text) && "entry-"@.is_prefix_of(text) && !"entry-wrapper-"@.is_prefix_of(text)
}

/// The pattern that an element with this tag name and these attributes
/// matches, if any.
pub open spec fn element_kind(name: Seq<char>, attrs: Seq<AttributeView>) -> Option<CandidateType> {
    if name == "div"@ && is_dreamwidth_id(id_attr(attrs)) {
        Some(CandidateType::Dreamwidth)
    } else if name == "div"@ && id_attr(attrs) == Some("content"@) {
        Some(CandidateType::ContentDiv)
    } else if name == "main"@ {
        Some(CandidateType::Main)
    } else if name == "article"@ {
        Some(CandidateType::Article)
    } else {
        None
    }
}

/// The pattern that a node matches by itself, if any.
pub open spec fn candidate_kind(node: TreeView) -> Option<CandidateType> {
    match node {
        TreeView::Element { name, attrs, .. } => element_kind(name, attrs),
        _ => None,
    }
}

/// The node itself, where it matches a pattern.
pub open spec fn own_candidate(node: TreeView) -> Seq<CandidateView> {
    match candidate_kind(node) {
        Some(kind) => seq![CandidateView { kind, node }],
        None => Seq::empty(),
    }
}

/// The candidates of a subtree in the order of a walk that visits a node
/// before its children, and the children from first to last.
pub open spec fn candidates(node: TreeView) -> Seq<CandidateView>
    decreases node, 1int,
{
    match node {
        TreeView::Element { children, .. } => own_candidate(node) + candidates_in(children),
        TreeView::Text { .. } => Seq::empty(),
        TreeView::Other { children } => candidates_in(children),
    }
}

/// The candidates of several subtrees, one after the other.
pub open spec fn candidates_in(nodes: Seq<TreeView>) -> Seq<CandidateView>
    decreases nodes, 0int,
{
    if nodes.len() == 0 {
        Seq::empty()
    } else {
        candidates_in(nodes.drop_last()) + candidates(nodes.last())
    }
}

/// Whether a candidate of kind `new` replaces one of kind `old` found
/// before it.
pub open spec fn replaces(old_kind: CandidateType, new_kind: CandidateType) -> bool {
    ||| old_kind == CandidateType::Main && new_kind == CandidateType::Article
    ||| old_kind == CandidateType::ContentDiv && new_kind == CandidateType::Dreamwidth
}

/// The candidate that is kept when `found` comes after `current`.
pub open spec fn upgrade(current: Option<CandidateView>, found: CandidateView) -> Option<CandidateView> {
    match current {
        None => Some(found),
        Some(kept) => if replaces(kept.kind, found.kind) {
            Some(found)
        } else {
            Some(kept)
        },
    }
}

/// The candidate that is kept after `found` have come, in order, after
/// `current`.
pub open spec fn resolve(current: Option<CandidateView>, found: Seq<CandidateView>) -> Option<CandidateView>
    decreases found.len(),
{
    if found.len() == 0 {
        current
    } else {
        upgrade(resolve(current, found.drop_last()), found.last())
    }
}

/// The article of a page: the candidate that is kept after a walk over the
/// whole tree.
pub open spec fn located(tree: TreeView) -> Option<CandidateView> {
    resolve(None, candidates(tree))
}

/// Resolving two runs of candidates one after the other is resolving their
/// concatenation.
pub proof fn lemma_resolve_concat(current: Option<CandidateView>, a: Seq<CandidateView>, b: Seq<CandidateView>)
    ensures
        resolve(current, a + b) == resolve(resolve(current, a), b),
    decreases b.len(),
{
    if b.len() == 0 {
        assert(a + b =~= a);
    } else {
        lemma_resolve_concat(current, a, b.drop_last());
        assert((a + b).drop_last() =~= a + b.drop_last());
        assert((a + b).last() == b.last());
    }
}

/// The first of the candidates that has the given kind.
pub open spec fn first_of_kind(found: Seq<CandidateView>, kind: CandidateType) -> Option<CandidateView>
    decreases found.len(),
{
    if found.len() == 0 {
        None
    } else if found[0].kind == kind {
        Some(found[0])
    } else {
        first_of_kind(found.drop_first(), kind)
    }
}

/// The kind of candidate that replaces a candidate of the given kind.
pub open spec fn better_kind(kind: CandidateType) -> Option<CandidateType> {
    match kind {
        CandidateType::Main => Some(CandidateType::Article),
        CandidateType::ContentDiv => Some(CandidateType::Dreamwidth),
        _ => None,
    }
}

/// The candidate that is chosen among those found, in the order of the
/// walk: the first one, unless it can be replaced and a candidate that
/// replaces it comes later; then the first of those.
pub open spec fn chosen(found: Seq<CandidateView>) -> Option<CandidateView> {
    if found.len() == 0 {
        None
    } else {
        match better_kind(found[0].kind) {
            Some(kind) => match first_of_kind(found.drop_first(), kind) {
                Some(better) => Some(better),
                None => Some(found[0]),
            },
            None => Some(found[0]),
        }
    }
}

/// The first candidate of a kind, after one more candidate has come.
proof fn lemma_first_of_kind_push(found: Seq<CandidateView>, next: CandidateView, kind: CandidateType)
    ensures
        first_of_kind(found.push(next), kind) == match first_of_kind(found, kind) {
            Some(c) => Some(c),
            None => if next.kind == kind {
                Some(next)
            } else {
                None
            },
        },
    decreases found.len(),
{
    let longer = found.push(next);
    if found.len() == 0 {
        assert(longer.drop_first() =~= Seq::empty());
        assert(first_of_kind(longer.drop_first(), kind) is None);
        assert(longer[0] == next);
    } else {
        lemma_first_of_kind_push(found.drop_first(), next, kind);
        assert(longer.drop_first() =~= found.drop_first().push(next));
        assert(longer[0] == found[0]);
    }
}

/// Who wins: taking the candidates into account one by one, as the walk
/// does, ends with the first candidate, unless that is a `main` element and
/// an `article` element comes later, or the `content` division and a
/// Dreamwidth entry comes later; then it ends with the first of these.
pub proof fn lemma_resolve_is_chosen(found: Seq<CandidateView>)
    ensures
        resolve(None, found) == chosen(found),
    decreases found.len(),
{
    if found.len() > 0 {
        let before = found.drop_last();
        let next = found.last();
        lemma_resolve_is_chosen(before);
        if before.len() > 0 {
            assert(found[0] == before[0]);
            assert(found.drop_first() =~= before.drop_first().push(next));
            match better_kind(found[0].kind) {
                Some(kind) => {
                    lemma_first_of_kind_push(before.drop_first(), next, kind);
                    lemma_first_of_kind_has_kind(before.drop_first(), kind);
                },
                None => {},
            }
        } else {
            assert(found.drop_first() =~= Seq::empty());
        }
    }
}

/// The first candidate of a kind has that kind.
proof fn lemma_first_of_kind_has_kind(found: Seq<CandidateView>, kind: CandidateType)
    ensures
        first_of_kind(found, kind) matches Some(c) ==> c.kind == kind,
    decreases found.len(),
{
    if found.len() > 0 {
        lemma_first_of_kind_has_kind(found.drop_first(), kind);
    }
}

/// The article of a page is the candidate chosen among all the candidates
/// of its tree.
pub proof fn lemma_located_is_chosen(tree: TreeView)
    ensures
        located(tree) == chosen(candidates(tree)),
{
    lemma_resolve_is_chosen(candidates(tree));
}

/// The value of the first attribute named `id`, if there is one.
fn find_id_attr(attrs: &Vec<Attribute>) -> (r: Option<&String>)
    ensures
        match r {
            Some(value) => id_attr(attrs_view(attrs@)) == Some(value@),
            None => id_attr(attrs_view(attrs@)) is None,
        },
{
    let mut i: usize = 0;
    proof {
        assert(attrs_view(attrs@).skip(0) =~= attrs_view(attrs@));
    }
    while i < attrs.len()
        invariant
            i <= attrs.len(),
            id_attr(attrs_view(attrs@)) == id_attr(attrs_view(attrs@).skip(i as int)),
        decreases attrs.len() - i,
    {
        proof {
            let rest = attrs_view(attrs@).skip(i as int);
            assert(rest[0] == attrs@[i as int]@);
            assert(rest.drop_first() =~= attrs_view(attrs@).skip(i + 1));
        }
        if str_eq(attrs[i].name.as_str(), "id") {
            return Some(&attrs[i].value);
        }
        i = i + 1;
    }
    proof {
        assert(attrs_view(attrs@).skip(i as int).len() == 0);
    }
    None
}

/// The pattern that an element with this tag name and these attributes
/// matches, if any.
fn candidate_type(name: &String, attrs: &Vec<Attribute>) -> (r: Option<CandidateType>)
    ensures
        r == element_kind(name@, attrs_view(attrs@)),
{
    let id_attr = find_id_attr(attrs);
    let name = name.as_str();
    proof {
        reveal_strlit("article");
        reveal_strlit("main");
        reveal_strlit("div");
        assert("article"@.len() == 7 && "main"@.len() == 4 && "div"@.len() == 3);
    }
    if str_eq(name, "article") {
        return Some(CandidateType::Article);
    }
    if str_eq(name, "main") {
        return Some(CandidateType::Main);
    }
    if str_eq(name, "div") {
        match id_attr {
            Some(id) => {
                let id = id.as_str();
                if starts_with(id, "entry-") && !starts_with(id, "entry-wrapper-") {
                    return Some(CandidateType::Dreamwidth);
                }
                if str_eq(id, "content") {
                    return Some(CandidateType::ContentDiv);
                }
            },
            None => {},
        }
    }
    None
}

/// Takes `found` into account after the candidate kept so far.
fn consider<'a>(candidate: &mut Option<Candidate<'a>>, found: Candidate<'a>)
    ensures
        candidate_view(*final(candidate)) == upgrade(candidate_view(*old(candidate)), found@),
{
    let replace = match candidate {
        None => true,
        Some(kept) => match (kept.type_, found.type_) {
            (CandidateType::Main, CandidateType::Article) => true,
            (CandidateType::ContentDiv, CandidateType::Dreamwidth) => true,
            _ => false,
        },
    };
    if replace {
        *candidate = Some(found);
    }
}

/// Walks the subtree of `dom`, the node first and then its children, and
/// keeps in `candidate` the article found so far.
fn find_article_<'a>(dom: &'a Tree, candidate: &mut Option<Candidate<'a>>)
    ensures
        candidate_view(*final(candidate)) == resolve(candidate_view(*old(candidate)), candidates(dom@)),
    decreases dom, 1int,
{
    match dom {
        Tree::Element { name, attrs, children } => {
            let candidate_type = candidate_type(name, attrs);
            if let Some(candidate_type) = candidate_type {
                consider(candidate, Candidate { type_: candidate_type, node: dom });
            }
            proof {
                let own = own_candidate(dom@);
                assert(candidate_kind(dom@) == candidate_type);
                if candidate_type is Some {
                    assert(own.drop_last() =~= Seq::empty());
                    assert(resolve(candidate_view(*old(candidate)), own.drop_last()) == candidate_view(
                        *old(candidate),
                    ));
                }
                assert(candidate_view(*candidate) == resolve(candidate_view(*old(candidate)), own));
                lemma_resolve_concat(candidate_view(*old(candidate)), own, candidates_in(dom@.children()));
            }
            find_article_children(dom, candidate);
        },
        _ => {
            find_article_children(dom, candidate);
        },
    }
}

/// Walks the subtrees of the children of `dom`, from first to last.
fn find_article_children<'a>(dom: &'a Tree, candidate: &mut Option<Candidate<'a>>)
    ensures
        candidate_view(*final(candidate)) == resolve(
            candidate_view(*old(candidate)),
            candidates_in(dom@.children()),
        ),
    decreases dom, 0int,
{
    let children = dom.children();
    let ghost start = candidate_view(*candidate);
    for i in 0..children.len()
        invariant
            trees_view(children@) == dom@.children(),
            forall|j: int| 0 <= j < children@.len() ==> decreases_to!(dom => #[trigger] children@[j]),
            candidate_view(*candidate) == resolve(start, candidates_in(dom@.children().take(i as int))),
    {
        proof {
            let done = dom@.children().take(i as int);
            let next = dom@.children().take(i + 1);
            assert(next.drop_last() =~= done);
            assert(next.last() == children@[i as int]@);
            lemma_resolve_concat(start, candidates_in(done), candidates(children@[i as int]@));
        }
        find_article_(&children[i], candidate);
    }
    proof {
        assert(dom@.children().take(children.len() as int) =~= dom@.children());
    }
}

/// The article of a page, or `None` where no node of the tree matches a
/// pattern.
pub fn find_article<'a>(dom: &'a Tree) -> (r: Option<Candidate<'a>>)
    ensures
        candidate_view(r) == located(dom@),
{
    let mut candidate = None;
    find_article_(dom, &mut candidate);
    candidate
}

/// A node as the parser holds it. It is only handed from the parser to the
/// conversion into a [`Tree`].
#[verifier::external_type_specification]
#[verifier::external_body]
pub struct ExParserNode(markup5ever_rcdom::Node);

/// The tree that `html5ever::parse_document` makes of a page, with an
/// `RcDom` as the sink and the doctype dropped; `None` where reading the
/// page fails.
pub uninterp spec fn parsed(src: Seq<char>) -> Option<TreeView>;

/// The view of a tree that may be missing.
pub open spec fn outcome_view(tree: Option<Tree>) -> Option<TreeView> {
    match tree {
        Some(t) => Some(t@),
        None => None,
    }
}

/// Converts a `markup5ever_rcdom::Node`, with all that is below it, one
/// for one: an element keeps its local name, its attributes (local name and
/// value) and its children; a text node keeps its text; any other node
/// keeps its children only. Nothing is stated of the result here: the tree
/// of a page is named where the page is parsed.
#[verifier::external_body]
fn node_from_handle(handle: &Rc<markup5ever_rcdom::Node>) -> Tree {
    let children = handle.children.borrow().iter().map(node_from_handle).collect();
    match &handle.data {
        NodeData::Element { name, attrs, .. } => Tree::Element {
            name: name.local.to_string(),
            attrs: attrs.borrow().iter().map(
                |a| Attribute { name: a.name.local.to_string(), value: a.value.to_string() },
            ).collect(),
            children,
        },
        NodeData::Text { contents } => Tree::Text { contents: contents.borrow().to_string() },
        _ => Tree::Other { children },
    }
}

/// Calls `html5ever::parse_document` on the page, read as UTF-8, and
/// converts the document node of the result. The tree is named, not
/// described: it is a function of the text alone.
#[verifier::external_body]
fn build_dom(src: &str) -> (r: Option<Tree>)
    ensures
        outcome_view(r) == parsed(src@),
{
    let opts = ParseOpts {
        tree_builder: TreeBuilderOpts { drop_doctype: true, ..Default::default() },
        ..Default::default()
    };
    let dom = parse_document(RcDom::default(), opts).from_utf8().read_from(&mut Cursor::new(src));
    match dom {
        Ok(dom) => Some(node_from_handle(&dom.document)),
        Err(_) => None,
    }
}

/// Why no article came out of a page.
#[derive(Debug, Clone, Copy, PartialEq, Eq, Structural)]
pub enum ExtractError {
    /// The page could not be read by the parser.
    ParsingHtml,
    /// No node of the page matches a pattern.
    NoArticleFound,
}

impl ExtractError {
    /// The error in words.
    pub fn message(&self) -> (r: &'static str)
        ensures
            r@ == match self {
                ExtractError::ParsingHtml => "parsing html"@,
                ExtractError::NoArticleFound => "no article found"@,
            },
    {
        match self {
            ExtractError::ParsingHtml => "parsing html",
            ExtractError::NoArticleFound => "no article found",
        }
    }
}

/// A subtree taken out of a page: a copy of the node, and the pattern by
/// which it was chosen, if it was chosen by one.
#[derive(Debug, PartialEq, Eq)]
pub struct SubDom {
    pub type_: Option<CandidateType>,
    pub node: Tree,
}

/// What [`extract_article`] returns for a page.
pub open spec fn article_of(src: Seq<char>) -> Result<(CandidateType, TreeView), ExtractError> {
    match parsed(src) {
        None => Err(ExtractError::ParsingHtml),
        Some(tree) => match located(tree) {
            None => Err(ExtractError::NoArticleFound),
            Some(c) => Ok((c.kind, c.node)),
        },
    }
}

/// Parses a page and takes the article out of it.
pub fn extract_article(src: &str) -> (r: Result<SubDom, ExtractError>)
    ensures
        match r {
            Ok(sub) => sub.type_ is Some && article_of(src@) == Ok::<_, ExtractError>((sub.type_->0, sub.node@)),
            Err(e) => article_of(src@) == Err::<(CandidateType, TreeView), _>(e),
        },
{
    match build_dom(src) {
        None => Err(ExtractError::ParsingHtml),
        Some(dom) => match find_article(&dom) {
            None => Err(ExtractError::NoArticleFound),
            Some(candidate) => Ok(SubDom { type_: Some(candidate.type_), node: candidate.node.duplicate() }),
        },
    }
}

/// Parses a page and takes the whole of it.
pub fn extract_dom(src: &str) -> (r: Result<SubDom, ExtractError>)
    ensures
        match r {
            Ok(sub) => sub.type_ is None && parsed(src@) == Some(sub.node@),
            Err(e) => e == ExtractError::ParsingHtml && parsed(src@) is None,
        },
{
    match build_dom(src) {
        None => Err(ExtractError::ParsingHtml),
        Some(node) => Ok(SubDom { type_: None, node }),
    }
}

/// Whether an element with this name is left out of the outline of a page.
pub open spec fn is_boring_tag(name: Seq<char>) -> bool {
    ||| name == "span"@
    ||| name == "a"@
    ||| name == "img"@
    ||| name == "meta"@
    ||| name == "link"@
    ||| name == "script"@
    ||| name == "nav"@
    ||| name == "form"@
    ||| name == "fieldset"@
    ||| name == "input"@
    ||| name == "sup"@
}

/// The outline of a subtree: a line for the opening and a line for the
/// closing of every element that is not boring, each behind the given
/// indentation, and between them the outline of the children, two spaces
/// further in. Children are two spaces further in below any node, shown or
/// not.
pub open spec fn tag_lines(node: TreeView, tab: Seq<char>) -> Seq<Seq<char>>
    decreases node, 1int,
{
    match node {
        TreeView::Element { name, children, .. } => if is_boring_tag(name) {
            tag_lines_in(children, tab + "  "@)
        } else {
            seq![tab + "<"@ + name + ">"@] + tag_lines_in(children, tab + "  "@) + seq![
                tab + "</"@ + name + ">"@,
            ]
        },
        TreeView::Text { .. } => Seq::empty(),
        TreeView::Other { children } => tag_lines_in(children, tab + "  "@),
    }
}

/// The outlines of several subtrees, one after the other.
pub open spec fn tag_lines_in(nodes: Seq<TreeView>, tab: Seq<char>) -> Seq<Seq<char>>
    decreases nodes, 0int,
{
    if nodes.len() == 0 {
        Seq::empty()
    } else {
        tag_lines_in(nodes.drop_last(), tab) + tag_lines(nodes.last(), tab)
    }
}

/// The nodes of a subtree in the order of a walk that visits a node before
/// its children, and the children from first to last.
pub open spec fn preorder(node: TreeView) -> Seq<TreeView>
    decreases node, 1int,
{
    match node {
        TreeView::Element { children, .. } => seq![node] + preorder_in(children),
        TreeView::Text { .. } => seq![node],
        TreeView::Other { children } => seq![node] + preorder_in(children),
    }
}

/// The nodes of several subtrees, one subtree after the other.
pub open spec fn preorder_in(nodes: Seq<TreeView>) -> Seq<TreeView>
    decreases nodes, 0int,
{
    if nodes.len() == 0 {
        Seq::empty()
    } else {
        preorder_in(nodes.drop_last()) + preorder(nodes.last())
    }
}

/// The views of the nodes that a list refers to.
pub open spec fn visited_view(visited: Seq<&Tree>) -> Seq<TreeView> {
    Seq::new(visited.len(), |i: int| visited[i]@)
}

/// Whether an element with this name is left out of the outline.
fn is_boring(name: &str) -> (r: bool)
    ensures
        r == is_boring_tag(name@),
{
    str_eq(name, "span") || str_eq(name, "a") || str_eq(name, "img") || str_eq(name, "meta") || str_eq(
        name,
        "link",
    ) || str_eq(name, "script") || str_eq(name, "nav") || str_eq(name, "form") || str_eq(name, "fieldset")
        || str_eq(name, "input") || str_eq(name, "sup")
}

/// Appends the outline of the subtree of `dom` to `lines`.
fn walk_dom(dom: &Tree, tab: &str, lines: &mut Vec<String>)
    ensures
        final(lines).deep_view() == old(lines).deep_view() + tag_lines(dom@, tab@),
    decreases dom, 1int,
{
    match dom {
        Tree::Element { name, .. } => {
            let display = !is_boring(name.as_str());
            if display {
                let mut line = String::from_str(tab);
                line.append("<");
                line.append(name.as_str());
                line.append(">");
                let ghost before = lines.deep_view();
                lines.push(line);
                proof {
                    assert(lines.deep_view() =~= before.push(tab@ + "<"@ + name@ + ">"@));
                }
            }
            let ghost opened = lines.deep_view();
            walk_children(dom, tab, lines);
            let ghost walked = lines.deep_view();
            if display {
                let mut line = String::from_str(tab);
                line.append("</");
                line.append(name.as_str());
                line.append(">");
                lines.push(line);
                proof {
                    assert(lines.deep_view() =~= walked.push(tab@ + "</"@ + name@ + ">"@));
                }
            }
            proof {
                assert(walked == opened + tag_lines_in(dom@.children(), tab@ + "  "@));
                assert(lines.deep_view() =~= old(lines).deep_view() + tag_lines(dom@, tab@));
            }
        },
        _ => {
            walk_children(dom, tab, lines);
        },
    }
}

/// Appends the outlines of the children of `dom`, two spaces further in.
fn walk_children(dom: &Tree, tab: &str, lines: &mut Vec<String>)
    ensures
        final(lines).deep_view() == old(lines).deep_view() + tag_lines_in(dom@.children(), tab@ + "  "@),
    decreases dom, 0int,
{
    let children = dom.children();
    let mut inner = String::from_str(tab);
    inner.append("  ");
    proof {
        assert(dom@.children().take(0) =~= Seq::empty());
        assert(lines.deep_view() =~= old(lines).deep_view() + tag_lines_in(dom@.children().take(0), inner@));
    }
    for i in 0..children.len()
        invariant
            trees_view(children@) == dom@.children(),
            forall|j: int| 0 <= j < children@.len() ==> decreases_to!(dom => #[trigger] children@[j]),
            inner@ == tab@ + "  "@,
            lines.deep_view() == old(lines).deep_view() + tag_lines_in(dom@.children().take(i as int), inner@),
    {
        proof {
            assert(dom@.children().take(i + 1).drop_last() =~= dom@.children().take(i as int));
            assert(dom@.children().take(i + 1).last() == children@[i as int]@);
        }
        walk_dom(&children[i], inner.as_str(), lines);
        proof {
            assert(lines.deep_view() =~= old(lines).deep_view() + tag_lines_in(
                dom@.children().take(i + 1),
                inner@,
            ));
        }
    }
    proof {
        assert(dom@.children().take(children.len() as int) =~= dom@.children());
    }
}

/// The outline of an already parsed page.
pub fn tag_outline(dom: &Tree) -> (lines: Vec<String>)
    ensures
        lines.deep_view() == tag_lines(dom@, Seq::empty()),
{
    let mut lines: Vec<String> = Vec::new();
    proof {
        reveal_strlit("");
        assert(""@ =~= Seq::<char>::empty());
    }
    walk_dom(dom, "", &mut lines);
    proof {
        assert(lines.deep_view() =~= tag_lines(dom@, Seq::empty()));
    }
    lines
}

/// Parses a page and gives its outline, line by line: the tags of the
/// elements that are not boring, indented by their depth.
pub fn walk_tags(src: &str) -> (r: Result<Vec<String>, ExtractError>)
    ensures
        match r {
            Ok(lines) => parsed(src@) is Some && lines.deep_view() == tag_lines(parsed(src@)->0, Seq::empty()),
            Err(e) => e == ExtractError::ParsingHtml && parsed(src@) is None,
        },
{
    match build_dom(src) {
        None => Err(ExtractError::ParsingHtml),
        Some(dom) => Ok(tag_outline(&dom)),
    }
}

/// Appends to `visited` the nodes of the subtree of `dom`: a node before
/// its children, the children from first to last.
pub fn walk_dom_fn<'a>(dom: &'a Tree, visited: &mut Vec<&'a Tree>)
    ensures
        visited_view(final(visited)@) == visited_view(old(visited)@) + preorder(dom@),
    decreases dom, 1int,
{
    visited.push(dom);
    proof {
        assert(visited_view(visited@) =~= visited_view(old(visited)@) + seq![dom@]);
    }
    walk_dom_fn_children(dom, visited);
    proof {
        assert(visited_view(visited@) =~= visited_view(old(visited)@) + preorder(dom@));
    }
}

/// Appends to `visited` the nodes of the subtrees of the children of
/// `dom`.
fn walk_dom_fn_children<'a>(dom: &'a Tree, visited: &mut Vec<&'a Tree>)
    ensures
        visited_view(final(visited)@) == visited_view(old(visited)@) + preorder_in(dom@.children()),
    decreases dom, 0int,
{
    let children = dom.children();
    proof {
        assert(dom@.children().take(0) =~= Seq::empty());
        assert(visited_view(visited@) =~= visited_view(old(visited)@) + preorder_in(dom@.children().take(0)));
    }
    for i in 0..children.len()
        invariant
            trees_view(children@) == dom@.children(),
            forall|j: int| 0 <= j < children@.len() ==> decreases_to!(dom => #[trigger] children@[j]),
            visited_view(visited@) == visited_view(old(visited)@) + preorder_in(
                dom@.children().take(i as int),
            ),
    {
        proof {
            assert(dom@.children().take(i + 1).drop_last() =~= dom@.children().take(i as int));
            assert(dom@.children().take(i + 1).last() == children@[i as int]@);
        }
        walk_dom_fn(&children[i], visited);
        proof {
            assert(visited_view(visited@) =~= visited_view(old(visited)@) + preorder_in(
                dom@.children().take(i + 1),
            ));
        }
    }
    proof {
        assert(dom@.children().take(children.len() as int) =~= dom@.children());
    }
}

} // verus!
