use docuverse::config::{BlogPost, Category};
use docuverse::convert::{body_from_dom, from_dom};
use docuverse::doc::{
    Block, Blockquote, CodeBlock, CodeLang, Heading, HeadingLevel, Inline, List, ListItem, ListType, Paragraph,
};
use docuverse::html::{extract_article, extract_dom, SubDom};
use docuverse::tree::Tree;
use url::Url;

fn element(name: &str, children: Vec<Tree>) -> Tree {
    Tree::Element { name: name.to_string(), attrs: vec![], children }
}

fn text(contents: &str) -> Tree {
    Tree::Text { contents: contents.to_string() }
}

fn t(contents: &str) -> Inline {
    Inline::Text(contents.to_string())
}

fn para(inlines: Vec<Inline>) -> Block {
    Block::Paragraph(Paragraph { inlines })
}

fn blocks_of_page(page: &str) -> Vec<Block> {
    let sub = extract_dom(page).unwrap();
    body_from_dom(&sub.node).blocks
}

#[test]
fn blockquote_synthesizes_a_paragraph_for_loose_text() {
    let blocks = blocks_of_page("<blockquote>loose text<p>explicit para</p></blockquote>");
    assert_eq!(
        blocks,
        vec![Block::Blockquote(Blockquote {
            blocks: vec![para(vec![t("loose text")]), para(vec![t("explicit para")])],
        })]
    );
}

#[test]
fn list_item_with_bare_text_gets_a_paragraph() {
    let blocks = blocks_of_page("<ul><li><p>a</p></li><li>b</li></ul>");
    assert_eq!(
        blocks,
        vec![Block::List(List {
            type_: ListType::Unordered,
            items: vec![
                ListItem { blocks: vec![para(vec![t("a")])] },
                ListItem { blocks: vec![para(vec![t("b")])] },
            ],
        })]
    );
}

#[test]
fn same_trees_built_by_hand_give_the_same_blocks() {
    let quote = element("blockquote", vec![text("loose text"), element("p", vec![text("explicit para")])]);
    assert_eq!(
        body_from_dom(&quote).blocks,
        vec![Block::Blockquote(Blockquote {
            blocks: vec![para(vec![t("loose text")]), para(vec![t("explicit para")])],
        })]
    );
    let list = element(
        "ul",
        vec![element("li", vec![element("p", vec![text("a")])]), element("li", vec![text("b")])],
    );
    assert_eq!(
        body_from_dom(&list).blocks,
        vec![Block::List(List {
            type_: ListType::Unordered,
            items: vec![
                ListItem { blocks: vec![para(vec![t("a")])] },
                ListItem { blocks: vec![para(vec![t("b")])] },
            ],
        })]
    );
}

#[test]
fn every_heading_level_is_recognised_at_the_top() {
    let tree = Tree::Other {
        children: vec![
            element("h1", vec![text("1")]),
            element("h2", vec![text("2")]),
            element("h3", vec![text("3")]),
            element("h4", vec![text("4")]),
            element("h5", vec![text("5")]),
            element("h6", vec![text("6")]),
            element("h7", vec![text("7")]),
        ],
    };
    let levels = [
        HeadingLevel::H1,
        HeadingLevel::H2,
        HeadingLevel::H3,
        HeadingLevel::H4,
        HeadingLevel::H5,
        HeadingLevel::H6,
    ];
    let blocks = body_from_dom(&tree).blocks;
    assert_eq!(blocks.len(), 6);
    for (i, block) in blocks.iter().enumerate() {
        assert_eq!(
            *block,
            Block::Heading(Heading { inlines: vec![t(&format!("{}", i + 1))], level: levels[i] })
        );
    }
}

#[test]
fn text_at_the_top_level_is_dropped() {
    let tree = element("div", vec![text("stray"), element("p", vec![text("kept")]), text("stray too")]);
    assert_eq!(body_from_dom(&tree).blocks, vec![para(vec![t("kept")])]);
}

#[test]
fn unknown_elements_are_transparent() {
    let tree = element(
        "section",
        vec![element("div", vec![element("p", vec![text("a "), element("span", vec![text("b")]), text(" c")])])],
    );
    assert_eq!(body_from_dom(&tree).blocks, vec![para(vec![t("a "), t("b"), t(" c")])]);
}

#[test]
fn nested_paragraph_flows_into_the_open_one() {
    let tree = element("p", vec![text("a"), element("p", vec![text("b")]), element("h2", vec![text("c")])]);
    assert_eq!(body_from_dom(&tree).blocks, vec![para(vec![t("a"), t("b"), t("c")])]);
}

#[test]
fn ordered_list_and_thematic_break_and_pre() {
    let tree = element(
        "article",
        vec![
            element("ol", vec![element("li", vec![element("p", vec![text("one")])])]),
            element("hr", vec![]),
            element("pre", vec![element("code", vec![text("let x = 1;\n")])]),
        ],
    );
    assert_eq!(
        body_from_dom(&tree).blocks,
        vec![
            Block::List(List {
                type_: ListType::Ordered,
                items: vec![ListItem { blocks: vec![para(vec![t("one")])] }],
            }),
            Block::ThematicBreak,
            Block::CodeBlock(CodeBlock { lang: CodeLang::Unknown, inlines: vec![t("let x = 1;\n")] }),
        ]
    );
}

#[test]
fn heading_inside_a_list_item_is_lost() {
    let tree = element(
        "ul",
        vec![element("li", vec![element("h2", vec![text("lost")]), element("p", vec![text("kept")])])],
    );
    assert_eq!(
        body_from_dom(&tree).blocks,
        vec![Block::List(List {
            type_: ListType::Unordered,
            items: vec![ListItem { blocks: vec![para(vec![t("kept")])] }],
        })]
    );
}

#[test]
fn block_nested_in_a_lost_heading_is_still_found() {
    let tree = element(
        "blockquote",
        vec![element("h3", vec![text("lost"), element("p", vec![text("found")]), element("hr", vec![])])],
    );
    assert_eq!(
        body_from_dom(&tree).blocks,
        vec![Block::Blockquote(Blockquote { blocks: vec![para(vec![t("found")]), Block::ThematicBreak] })]
    );
}

#[test]
fn list_item_outside_a_list_is_transparent() {
    let tree = element("div", vec![element("li", vec![element("p", vec![text("a")])])]);
    assert_eq!(body_from_dom(&tree).blocks, vec![para(vec![t("a")])]);
}

#[test]
fn list_without_items_is_still_a_list() {
    let tree = element("ul", vec![text("no item"), element("p", vec![text("nor this")])]);
    assert_eq!(
        body_from_dom(&tree).blocks,
        vec![Block::List(List { type_: ListType::Unordered, items: vec![] })]
    );
}

#[test]
fn list_directly_inside_a_list_hands_its_items_to_the_outer_list() {
    let tree = element(
        "ul",
        vec![
            element("li", vec![text("a")]),
            element("ol", vec![element("li", vec![text("b")])]),
        ],
    );
    assert_eq!(
        body_from_dom(&tree).blocks,
        vec![Block::List(List {
            type_: ListType::Unordered,
            items: vec![
                ListItem { blocks: vec![para(vec![t("a")])] },
                ListItem { blocks: vec![para(vec![t("b")])] },
            ],
        })]
    );
}

#[test]
fn list_inside_a_list_item_is_nested() {
    let tree = element(
        "ul",
        vec![element(
            "li",
            vec![text("outer"), element("ul", vec![element("li", vec![text("inner")])])],
        )],
    );
    assert_eq!(
        body_from_dom(&tree).blocks,
        vec![Block::List(List {
            type_: ListType::Unordered,
            items: vec![ListItem {
                blocks: vec![
                    para(vec![t("outer")]),
                    Block::List(List {
                        type_: ListType::Unordered,
                        items: vec![ListItem { blocks: vec![para(vec![t("inner")])] }],
                    }),
                ],
            }],
        })]
    );
}

#[test]
fn runs_of_inline_children_are_gathered_run_by_run() {
    let tree = element(
        "blockquote",
        vec![
            text("a "),
            element("b", vec![text("bold")]),
            element("em", vec![text("em")]),
            element("hr", vec![]),
            element("i", vec![text("i")]),
            element("code", vec![text("code")]),
            element("a", vec![text("link")]),
            text("   "),
            text("tail"),
        ],
    );
    assert_eq!(
        body_from_dom(&tree).blocks,
        vec![Block::Blockquote(Blockquote {
            blocks: vec![
                para(vec![t("a "), t("bold"), t("em")]),
                Block::ThematicBreak,
                para(vec![t("i"), t("code"), t("link")]),
                para(vec![t("tail")]),
            ],
        })]
    );
}

#[test]
fn inline_child_without_text_makes_no_paragraph() {
    let tree = element("blockquote", vec![element("b", vec![]), element("span", vec![text("dropped")])]);
    assert_eq!(body_from_dom(&tree).blocks, vec![Block::Blockquote(Blockquote { blocks: vec![] })]);
}

#[test]
fn blockquote_inside_a_blockquote() {
    let tree = element("blockquote", vec![element("blockquote", vec![text("deep")])]);
    assert_eq!(
        body_from_dom(&tree).blocks,
        vec![Block::Blockquote(Blockquote {
            blocks: vec![Block::Blockquote(Blockquote { blocks: vec![para(vec![t("deep")])] })],
        })]
    );
}

#[test]
fn thematic_break_inside_a_paragraph_is_dropped_with_its_children() {
    let tree = element("p", vec![text("a"), element("hr", vec![text("hidden")]), text("b")]);
    assert_eq!(body_from_dom(&tree).blocks, vec![para(vec![t("a"), t("b")])]);
}

#[test]
fn document_keeps_the_address_of_the_post() {
    let url = Url::parse("https://example.com/posts/one").unwrap();
    let post = BlogPost { url: url.clone(), category: Category::default(), publish: true };
    let page = "<html><body><article><h1>Title</h1><p>Body</p></article></body></html>";
    let sub = extract_article(page).unwrap();
    let doc = from_dom(&post, &sub);
    assert_eq!(doc.meta.origin_url, url);
    assert_eq!(
        doc.body.blocks,
        vec![
            Block::Heading(Heading { inlines: vec![t("Title")], level: HeadingLevel::H1 }),
            para(vec![t("Body")]),
        ]
    );
}

#[test]
fn empty_tree_gives_an_empty_document() {
    let url = Url::parse("https://example.com/").unwrap();
    let post = BlogPost { url, category: Category::Web, publish: false };
    let sub = SubDom { type_: None, node: Tree::Other { children: vec![] } };
    assert!(from_dom(&post, &sub).body.blocks.is_empty());
}

fn doc_of(blocks: Vec<Block>) -> docuverse::doc::Document {
    docuverse::doc::Document {
        meta: docuverse::doc::Meta { origin_url: Url::parse("https://example.com/").unwrap() },
        body: docuverse::doc::Body { blocks },
    }
}

#[test]
fn document_is_well_formed_when_every_list_has_an_item() {
    let good = element(
        "article",
        vec![
            element("ul", vec![element("li", vec![element("ol", vec![element("li", vec![text("x")])])])]),
            element("blockquote", vec![element("ul", vec![element("li", vec![])])]),
            element("p", vec![text("p")]),
        ],
    );
    assert!(doc_of(body_from_dom(&good).blocks).is_well_formed());
    assert!(doc_of(vec![]).is_well_formed());
}

#[test]
fn document_with_an_empty_list_is_not_well_formed() {
    let empty_list = element("ul", vec![]);
    assert!(!doc_of(body_from_dom(&empty_list).blocks).is_well_formed());
    let nested = element("blockquote", vec![element("ul", vec![element("li", vec![element("ol", vec![])])])]);
    assert!(!doc_of(body_from_dom(&nested).blocks).is_well_formed());
    let inside_item = doc_of(vec![Block::List(List {
        type_: ListType::Ordered,
        items: vec![
            ListItem { blocks: vec![para(vec![t("fine")])] },
            ListItem { blocks: vec![Block::List(List { type_: ListType::Unordered, items: vec![] })] },
        ],
    })]);
    assert!(!inside_item.is_well_formed());
}
