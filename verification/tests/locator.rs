use docuverse::html::{extract_article, extract_dom, find_article, CandidateType, ExtractError};
use docuverse::tree::{Attribute, Tree};

fn element(name: &str, id: Option<&str>, children: Vec<Tree>) -> Tree {
    let attrs = match id {
        Some(id) => vec![Attribute { name: "id".to_string(), value: id.to_string() }],
        None => vec![],
    };
    Tree::Element { name: name.to_string(), attrs, children }
}

fn text(contents: &str) -> Tree {
    Tree::Text { contents: contents.to_string() }
}

fn attr_id(node: &Tree) -> Option<String> {
    match node {
        Tree::Element { attrs, .. } => attrs.iter().find(|a| a.name == "id").map(|a| a.value.clone()),
        _ => None,
    }
}

fn tag(node: &Tree) -> Option<String> {
    match node {
        Tree::Element { name, .. } => Some(name.clone()),
        _ => None,
    }
}

#[test]
fn article_inside_main_is_chosen() {
    let page = "<html><body><main><p>intro</p><article><p>text</p></article><p>outro</p></main></body></html>";
    let sub = extract_article(page).unwrap();
    assert_eq!(sub.type_, Some(CandidateType::Article));
    assert_eq!(tag(&sub.node), Some("article".to_string()));
    assert_eq!(
        sub.node,
        element("article", None, vec![element("p", None, vec![text("text")])])
    );
}

#[test]
fn dreamwidth_entry_inside_content_div_is_chosen() {
    let page = "<html><body><div id=\"content\"><div id=\"entry-42\"><p>text</p></div></div></body></html>";
    let sub = extract_article(page).unwrap();
    assert_eq!(sub.type_, Some(CandidateType::Dreamwidth));
    assert_eq!(tag(&sub.node), Some("div".to_string()));
    assert_eq!(attr_id(&sub.node), Some("entry-42".to_string()));
}

#[test]
fn page_without_candidate_is_a_miss() {
    let page = "<html><body><div id=\"entry-wrapper-1\"><p>text</p></div></body></html>";
    assert_eq!(extract_article(page).err(), Some(ExtractError::NoArticleFound));
    assert_eq!(ExtractError::NoArticleFound.message(), "no article found");
    assert_eq!(ExtractError::ParsingHtml.message(), "parsing html");
}

#[test]
fn whole_page_has_no_candidate_type() {
    let sub = extract_dom("<p>hello</p>").unwrap();
    assert_eq!(sub.type_, None);
    assert!(find_article(&sub.node).is_none());
    match &sub.node {
        Tree::Other { children } => assert_eq!(children.len(), 1),
        other => panic!("the root of a page is no element: {:?}", other),
    }
}

#[test]
fn first_candidate_is_kept_over_a_later_one_of_the_same_kind() {
    let first = element("article", Some("one"), vec![]);
    let second = element("article", Some("two"), vec![]);
    let tree = element("body", None, vec![first, second]);
    let found = find_article(&tree).unwrap();
    assert_eq!(found.type_, CandidateType::Article);
    assert_eq!(attr_id(found.node), Some("one".to_string()));
}

#[test]
fn article_is_not_replaced_by_main() {
    let tree = element(
        "body",
        None,
        vec![element("article", None, vec![element("main", None, vec![])])],
    );
    let found = find_article(&tree).unwrap();
    assert_eq!(found.type_, CandidateType::Article);
}

#[test]
fn main_is_replaced_by_a_later_article_outside_it() {
    let tree = element(
        "body",
        None,
        vec![element("main", None, vec![]), element("div", None, vec![element("article", None, vec![])])],
    );
    let found = find_article(&tree).unwrap();
    assert_eq!(found.type_, CandidateType::Article);
}

#[test]
fn content_div_is_not_replaced_by_article() {
    let tree = element(
        "body",
        None,
        vec![element("div", Some("content"), vec![element("article", None, vec![])])],
    );
    let found = find_article(&tree).unwrap();
    assert_eq!(found.type_, CandidateType::ContentDiv);
}

#[test]
fn main_is_not_replaced_by_dreamwidth() {
    let tree = element(
        "main",
        None,
        vec![element("div", Some("entry-7"), vec![])],
    );
    let found = find_article(&tree).unwrap();
    assert_eq!(found.type_, CandidateType::Main);
}

#[test]
fn upgraded_article_is_kept_over_later_candidates() {
    let tree = element(
        "main",
        None,
        vec![
            element("article", Some("first"), vec![]),
            element("article", Some("second"), vec![]),
            element("div", Some("entry-1"), vec![]),
        ],
    );
    let found = find_article(&tree).unwrap();
    assert_eq!(found.type_, CandidateType::Article);
    assert_eq!(attr_id(found.node), Some("first".to_string()));
}

#[test]
fn only_the_first_id_attribute_counts() {
    let node = Tree::Element {
        name: "div".to_string(),
        attrs: vec![
            Attribute { name: "class".to_string(), value: "content".to_string() },
            Attribute { name: "id".to_string(), value: "sidebar".to_string() },
            Attribute { name: "id".to_string(), value: "content".to_string() },
        ],
        children: vec![],
    };
    assert!(find_article(&node).is_none());
}

#[test]
fn id_must_be_exactly_content() {
    assert!(find_article(&element("div", Some("contents"), vec![])).is_none());
    assert!(find_article(&element("span", Some("content"), vec![])).is_none());
    assert!(find_article(&element("div", Some("entry"), vec![])).is_none());
    let entry = element("div", Some("entry-"), vec![]);
    assert_eq!(find_article(&entry).unwrap().type_, CandidateType::Dreamwidth);
}

#[test]
fn text_and_other_nodes_are_no_candidates() {
    let tree = Tree::Other { children: vec![text("article"), Tree::Other { children: vec![] }] };
    assert!(find_article(&tree).is_none());
}

#[test]
fn duplicate_copies_the_whole_subtree() {
    let tree = element(
        "div",
        Some("content"),
        vec![text("a"), Tree::Other { children: vec![element("p", None, vec![text("b")])] }],
    );
    assert_eq!(tree.duplicate(), tree);
    assert_eq!(tree.children().len(), 2);
    assert_eq!(text("x").children().len(), 0);
}
