//! The tree that an HTML parser hands over: elements with a tag name,
//! attributes and children, text nodes, and nodes of any other kind.

use vstd::prelude::*;

verus! {

/// An attribute of an element.
#[derive(Debug, PartialEq, Eq)]
pub struct Attribute {
    pub name: String,
    pub value: String,
}

/// A node of the tree, holding its children.
#[derive(Debug, PartialEq, Eq)]
pub enum Tree {
    /// An element: its local tag name, its attributes and its children, in
    /// source order.
    Element { name: String, attrs: Vec<Attribute>, children: Vec<Tree> },
    /// A run of text.
    Text { contents: String },
    /// The document root, a comment, a doctype: anything that is neither an
    /// element nor text. Only its children matter.
    Other { children: Vec<Tree> },
}

/// The view of an [`Attribute`].
pub struct AttributeView {
    pub name: Seq<char>,
    pub value: Seq<char>,
}

/// The view of a [`Tree`].
pub enum TreeView {
    Element { name: Seq<char>, attrs: Seq<AttributeView>, children: Seq<TreeView> },
    Text { contents: Seq<char> },
    Other { children: Seq<TreeView> },
}

impl View for Attribute {
    type V = AttributeView;

    open spec fn view(&self) -> AttributeView {
        AttributeView { name: self.name@, value: self.value@ }
    }
}

/// The views of a sequence of attributes, in order.
pub open spec fn attrs_view(attrs: Seq<Attribute>) -> Seq<AttributeView> {
    Seq::new(attrs.len(), |i: int| attrs[i]@)
}

/// The view of a node.
pub open spec fn tree_view(node: Tree) -> TreeView
    decreases node,
{
    match node {
        Tree::Element { name, attrs, children } => TreeView::Element {
            name: name@,
            attrs: attrs_view(attrs@),
            children: trees_view(children@),
        },
        Tree::Text { contents } => TreeView::Text { contents: contents@ },
        Tree::Other { children } => TreeView::Other { children: trees_view(children@) },
    }
}

/// The views of a sequence of nodes, in order.
pub open spec fn trees_view(nodes: Seq<Tree>) -> Seq<TreeView>
    decreases nodes,
{
    Seq::new(
        nodes.len(),
        |i: int|
            if 0 <= i < nodes.len() {
                tree_view(nodes[i])
            } else {
                TreeView::Other { children: Seq::empty() }
            },
    )
}

impl View for Tree {
    type V = TreeView;

    open spec fn view(&self) -> TreeView {
        tree_view(*self)
    }
}

impl TreeView {
    /// The children of a node; a text node has none.
    pub open spec fn children(self) -> Seq<TreeView> {
        match self {
            TreeView::Element { children, .. } => children,
            TreeView::Text { .. } => Seq::empty(),
            TreeView::Other { children } => children,
        }
    }

    /// Whether the node is an element with the given tag name.
    pub open spec fn is_tag(self, tag: Seq<char>) -> bool {
        self matches TreeView::Element { name, .. } && name == tag
    }
}

impl Tree {
    /// The children of the node; a text node has none.
    pub fn children(&self) -> (r: &[Tree])
        ensures
            trees_view(r@) == self@.children(),
            forall|i: int| 0 <= i < r@.len() ==> decreases_to!(self => #[trigger] r@[i]),
    {
        match self {
            Tree::Element { children, .. } => children.as_slice(),
            Tree::Text { .. } => &[],
            Tree::Other { children } => children.as_slice(),
        }
    }

    /// A copy of the node and of everything below it.
    #[verifier::loop_isolation(false)]
    pub fn duplicate(&self) -> (r: Tree)
        ensures
            r@ == self@,
        decreases self,
    {
        match self {
            Tree::Element { name, attrs, children } => {
                let mut new_attrs: Vec<Attribute> = Vec::new();
                for i in 0..attrs.len()
                    invariant
                        new_attrs@.len() == i,
                        forall|j: int| 0 <= j < i ==> new_attrs@[j]@ == attrs@[j]@,
                {
                    new_attrs.push(Attribute { name: attrs[i].name.clone(), value: attrs[i].value.clone() });
                }
                let mut new_children: Vec<Tree> = Vec::new();
                for i in 0..children.len()
                    invariant
                        new_children@.len() == i,
                        forall|j: int| 0 <= j < i ==> new_children@[j]@ == children@[j]@,
                {
                    let child = children[i].duplicate();
                    new_children.push(child);
                }
                proof {
                    assert(attrs_view(new_attrs@) =~= attrs_view(attrs@));
                    assert(trees_view(new_children@) =~= trees_view(children@));
                }
                Tree::Element { name: name.clone(), attrs: new_attrs, children: new_children }
            },
            Tree::Text { contents } => Tree::Text { contents: contents.clone() },
            Tree::Other { children } => {
                let mut new_children: Vec<Tree> = Vec::new();
                for i in 0..children.len()
                    invariant
                        new_children@.len() == i,
                        forall|j: int| 0 <= j < i ==> new_children@[j]@ == children@[j]@,
                {
                    let child = children[i].duplicate();
                    new_children.push(child);
                }
                proof {
                    assert(trees_view(new_children@) =~= trees_view(children@));
                }
                Tree::Other { children: new_children }
            },
        }
    }
}

} // verus!
