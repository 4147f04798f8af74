use docuverse::doc::{Block, Body, Document, Heading, HeadingLevel, Inline, Meta, Paragraph};
use docuverse::extract::{cat_text_inlines, title, walk_blocks};
use docuverse::html::CandidateType;
use docuverse::sanitize::{add_h1, find_h1, first_h1_in, maybe_add_h1, missing_h1, sanitize};
use url::Url;

fn t(contents: &str) -> Inline {
    Inline::Text(contents.to_string())
}

fn heading(level: HeadingLevel, text: &str) -> Block {
    Block::Heading(Heading { inlines: vec![t(text)], level })
}

fn para(text: &str) -> Block {
    Block::Paragraph(Paragraph { inlines: vec![t(text)] })
}

fn doc(blocks: Vec<Block>) -> Document {
    Document {
        meta: Meta { origin_url: Url::parse("https://example.com/post").unwrap() },
        body: Body { blocks },
    }
}

#[test]
fn title_unwraps_nested_inlines() {
    let d = doc(vec![Block::Heading(Heading {
        level: HeadingLevel::H3,
        inlines: vec![t("Hello "), Inline::Bold(Box::new(t("World")))],
    })]);
    assert_eq!(title(&d), Some("Hello World".to_string()));
}

#[test]
fn title_is_the_first_heading_of_any_level() {
    let d = doc(vec![para("intro"), heading(HeadingLevel::H4, "Fourth"), heading(HeadingLevel::H1, "First")]);
    assert_eq!(title(&d), Some("Fourth".to_string()));
}

#[test]
fn document_without_heading_has_no_title() {
    assert_eq!(title(&doc(vec![para("only text"), Block::ThematicBreak])), None);
    assert_eq!(title(&doc(vec![])), None);
}

#[test]
fn heading_without_inlines_gives_an_empty_title() {
    let d = doc(vec![Block::Heading(Heading { level: HeadingLevel::H1, inlines: vec![] })]);
    assert_eq!(title(&d), Some(String::new()));
}

#[test]
fn text_of_inlines_is_appended_in_order() {
    let inlines = vec![
        t("a"),
        Inline::Italic(Box::new(Inline::Code(Box::new(t("b"))))),
        Inline::Code(Box::new(t("c"))),
    ];
    let mut buf = "> ".to_string();
    cat_text_inlines(&mut buf, &inlines);
    assert_eq!(buf, "> abc");
}

#[test]
fn headings_are_collected_in_order() {
    let blocks = vec![heading(HeadingLevel::H2, "two"), para("text"), heading(HeadingLevel::H1, "one")];
    let mut hs = vec![(HeadingLevel::H6, "before".to_string())];
    walk_blocks(&mut hs, &blocks);
    assert_eq!(
        hs,
        vec![
            (HeadingLevel::H6, "before".to_string()),
            (HeadingLevel::H2, "two".to_string()),
            (HeadingLevel::H1, "one".to_string()),
        ]
    );
}

#[test]
fn missing_h1_looks_at_the_first_heading_only() {
    assert!(missing_h1(&doc(vec![para("p"), heading(HeadingLevel::H2, "two"), heading(HeadingLevel::H1, "one")])));
    assert!(!missing_h1(&doc(vec![heading(HeadingLevel::H1, "one"), heading(HeadingLevel::H2, "two")])));
    assert!(!missing_h1(&doc(vec![para("no heading at all")])));
    assert!(!missing_h1(&doc(vec![])));
}

const PAGE: &str = "<html><body><h1>Outer Title</h1><article><h2>Section</h2><p>text</p></article></body></html>";

#[test]
fn heading_from_outside_the_article_is_put_in_front() {
    let d = doc(vec![heading(HeadingLevel::H2, "Section"), para("text")]);
    let repaired = sanitize(d, PAGE, CandidateType::Article);
    assert_eq!(
        repaired.body.blocks,
        vec![heading(HeadingLevel::H1, "Outer Title"), heading(HeadingLevel::H2, "Section"), para("text")]
    );
    assert_eq!(repaired.meta.origin_url, Url::parse("https://example.com/post").unwrap());
    assert_eq!(title(&repaired), Some("Outer Title".to_string()));
}

#[test]
fn dreamwidth_document_is_left_as_it_is() {
    let d = doc(vec![heading(HeadingLevel::H2, "Section"), para("text")]);
    let repaired = sanitize(d, PAGE, CandidateType::Dreamwidth);
    assert_eq!(repaired, doc(vec![heading(HeadingLevel::H2, "Section"), para("text")]));
}

#[test]
fn document_with_h1_first_is_left_as_it_is() {
    let d = doc(vec![heading(HeadingLevel::H1, "Own Title"), heading(HeadingLevel::H2, "Section")]);
    let repaired = maybe_add_h1(d, PAGE, CandidateType::Main);
    assert_eq!(repaired, doc(vec![heading(HeadingLevel::H1, "Own Title"), heading(HeadingLevel::H2, "Section")]));
}

#[test]
fn document_without_heading_is_left_as_it_is() {
    let repaired = maybe_add_h1(doc(vec![para("text")]), PAGE, CandidateType::Article);
    assert_eq!(repaired, doc(vec![para("text")]));
}

#[test]
fn page_without_h1_leaves_the_document_as_it_is() {
    let page = "<html><body><h2>Only</h2><article><h3>Section</h3></article></body></html>";
    let repaired = sanitize(doc(vec![heading(HeadingLevel::H3, "Section")]), page, CandidateType::ContentDiv);
    assert_eq!(repaired, doc(vec![heading(HeadingLevel::H3, "Section")]));
    assert_eq!(find_h1(page), None);
}

#[test]
fn first_h1_of_the_page_is_found() {
    let page = "<body><h2>a</h2><h1>b</h1><h1>c</h1></body>";
    assert_eq!(find_h1(page), Some(Heading { inlines: vec![t("b")], level: HeadingLevel::H1 }));
}

#[test]
fn h1_inside_a_blockquote_does_not_count() {
    let page = "<body><blockquote><h1>quoted</h1></blockquote><p>x</p></body>";
    assert_eq!(find_h1(page), None);
}

#[test]
fn first_h1_is_taken_out_of_a_body() {
    let body = Body {
        blocks: vec![para("p"), heading(HeadingLevel::H2, "two"), heading(HeadingLevel::H1, "one"), para("q")],
    };
    assert_eq!(first_h1_in(body), Some(Heading { inlines: vec![t("one")], level: HeadingLevel::H1 }));
    assert_eq!(first_h1_in(Body { blocks: vec![heading(HeadingLevel::H3, "three")] }), None);
    assert_eq!(first_h1_in(Body { blocks: vec![] }), None);
}

#[test]
fn add_h1_takes_the_heading_it_is_given() {
    let h1 = Heading { inlines: vec![t("Given")], level: HeadingLevel::H1 };
    let repaired = add_h1(doc(vec![heading(HeadingLevel::H5, "five")]), Some(h1), CandidateType::Main);
    assert_eq!(
        repaired.body.blocks,
        vec![heading(HeadingLevel::H1, "Given"), heading(HeadingLevel::H5, "five")]
    );
    let untouched = add_h1(doc(vec![heading(HeadingLevel::H5, "five")]), None, CandidateType::Main);
    assert_eq!(untouched.body.blocks, vec![heading(HeadingLevel::H5, "five")]);
}

#[test]
fn page_becomes_a_repaired_document() {
    let url = Url::parse("https://example.com/post").unwrap();
    let post = docuverse::config::BlogPost {
        url: url.clone(),
        category: docuverse::config::Category::Language,
        publish: true,
    };
    let d = docuverse::post::convert_post(&post, PAGE).unwrap();
    assert_eq!(d.meta.origin_url, url);
    assert_eq!(
        d.body.blocks,
        vec![heading(HeadingLevel::H1, "Outer Title"), heading(HeadingLevel::H2, "Section"), para("text")]
    );
    let entry = "<html><body><h1>Journal</h1><div id=\"entry-9\"><h3>Entry</h3></div></body></html>";
    let d = docuverse::post::convert_post(&post, entry).unwrap();
    assert_eq!(d.body.blocks, vec![heading(HeadingLevel::H3, "Entry")]);
    assert_eq!(
        docuverse::post::convert_post(&post, "<p>no article</p>").err(),
        Some(docuverse::html::ExtractError::NoArticleFound)
    );
    assert_eq!(docuverse::post::post_file_name("Outer Title".to_string()), "outer-title.html");
}
