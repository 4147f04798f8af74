use std::path::PathBuf;

use docuverse::assets::{AssetDirs, BLOG_CSS_FILE, MAIN_CSS_FILE, RESET_CSS_FILE};
use docuverse::convert::body_from_dom;
use docuverse::doc::{
    Block, Blockquote, Body, CodeBlock, CodeLang, Document, Heading, HeadingLevel, Inline, List, ListItem, ListType,
    Meta, Paragraph,
};
use docuverse::html::{extract_article, CandidateType};
use docuverse::render::{
    render_block, render_blockquote, render_body, render_code_block, render_doc, render_head, render_head_with,
    render_heading, render_inline, render_list, render_list_item, render_page, render_paragraph, to_string,
};
use url::Url;

fn t(contents: &str) -> Inline {
    Inline::Text(contents.to_string())
}

fn para(text: &str) -> Block {
    Block::Paragraph(Paragraph { inlines: vec![t(text)] })
}

fn heading(level: HeadingLevel, text: &str) -> Block {
    Block::Heading(Heading { inlines: vec![t(text)], level })
}

fn doc(blocks: Vec<Block>) -> Document {
    Document {
        meta: Meta { origin_url: Url::parse("https://example.com/post").unwrap() },
        body: Body { blocks },
    }
}

const HEAD: &str = "\n<head>\n  <meta charset='utf-8'>\n  <link rel='stylesheet' href='../css/reset.css'>\n  <link rel='stylesheet' href='../css/main.css'>\n  <link rel='stylesheet' href='../css/blog.css'>\n</head>\n\n";

#[test]
fn text_is_escaped() {
    let mut buf = String::new();
    render_inline(&mut buf, &t("a < b && \"c\" > 'd' / é"));
    assert_eq!(buf, "a &lt; b &amp;&amp; &quot;c&quot; &gt; &#x27;d&#x27; &#x2f; é");
}

#[test]
fn escaped_text_is_appended_to_what_the_buffer_holds() {
    let mut buf = "<p>".to_string();
    render_inline(&mut buf, &t("<"));
    render_inline(&mut buf, &t(""));
    render_inline(&mut buf, &t("plain"));
    assert_eq!(buf, "<p>&lt;plain");
}

#[test]
fn wrappers_render_as_tags_around_escaped_text() {
    let mut buf = String::new();
    render_inline(&mut buf, &Inline::Bold(Box::new(t("a&b"))));
    render_inline(&mut buf, &Inline::Italic(Box::new(Inline::Code(Box::new(t("<x>"))))));
    render_inline(&mut buf, &Inline::Code(Box::new(t("y"))));
    assert_eq!(buf, "<b>a&amp;b</b><i><code>&lt;x&gt;</code></i><code>y</code>");
}

#[test]
fn heading_of_every_level() {
    let levels = [
        (HeadingLevel::H1, "h1"),
        (HeadingLevel::H2, "h2"),
        (HeadingLevel::H3, "h3"),
        (HeadingLevel::H4, "h4"),
        (HeadingLevel::H5, "h5"),
        (HeadingLevel::H6, "h6"),
    ];
    for (level, tag) in levels {
        let mut buf = String::new();
        render_heading(&mut buf, &Heading { inlines: vec![t("A"), t("B")], level });
        assert_eq!(buf, format!("<{}>\nAB</{}>\n", tag, tag));
    }
}

#[test]
fn paragraph_and_code_block() {
    let mut buf = String::new();
    render_paragraph(&mut buf, &Paragraph { inlines: vec![t("one"), t(" two")] });
    assert_eq!(buf, "<p>\none two\n</p>\n");
    let mut buf = String::new();
    render_code_block(&mut buf, &CodeBlock { lang: CodeLang::Unknown, inlines: vec![t("if a < b {\n}\n")] });
    assert_eq!(buf, "<pre><code>if a &lt; b {\n}\n</code></pre>\n");
}

#[test]
fn block_stands_between_two_line_breaks() {
    let mut buf = String::new();
    render_block(&mut buf, &para("x"));
    assert_eq!(buf, "\n<p>\nx\n</p>\n\n");
    let mut buf = String::new();
    render_block(&mut buf, &Block::ThematicBreak);
    assert_eq!(buf, "\n<hr />\n\n");
    let mut buf = String::new();
    render_block(&mut buf, &heading(HeadingLevel::H2, "x"));
    assert_eq!(buf, "\n<h2>\nx</h2>\n\n");
}

#[test]
fn list_and_its_items() {
    let list = List {
        type_: ListType::Unordered,
        items: vec![ListItem { blocks: vec![para("a")] }, ListItem { blocks: vec![] }],
    };
    let mut buf = String::new();
    render_list(&mut buf, &list);
    assert_eq!(buf, "<ul>\n<li>\n\n<p>\na\n</p>\n\n</li>\n<li>\n</li>\n\n</ul>\n");
    let mut buf = String::new();
    render_list(&mut buf, &List { type_: ListType::Ordered, items: vec![] });
    assert_eq!(buf, "<ol>\n\n</ol>\n");
    let mut buf = String::new();
    render_list_item(&mut buf, &ListItem { blocks: vec![Block::ThematicBreak] });
    assert_eq!(buf, "<li>\n\n<hr />\n\n</li>\n");
}

#[test]
fn blockquote_holds_its_blocks() {
    let mut buf = String::new();
    render_blockquote(&mut buf, &Blockquote { blocks: vec![para("q"), Block::ThematicBreak] });
    assert_eq!(buf, "<blockquote>\n\n<p>\nq\n</p>\n\n\n<hr />\n\n</blockquote>\n");
}

#[test]
fn body_and_head() {
    let mut buf = String::new();
    render_body(&mut buf, &Body { blocks: vec![para("x")] });
    assert_eq!(buf, "\n<body>\n<main>\n<article>\n\n<p>\nx\n</p>\n\n</article>\n</main>\n</body>\n\n");
    let mut buf = String::new();
    render_head_with(&mut buf, "../css/reset.css", "../css/main.css", "../css/blog.css");
    assert_eq!(buf, HEAD);
}

#[test]
fn whole_page() {
    let d = doc(vec![heading(HeadingLevel::H1, "T"), para("a<b")]);
    let expected = format!(
        "<!doctype html>\n<html lang='en'>\n{}\n<body>\n<main>\n<article>\n\n<h1>\nT</h1>\n\n\n<p>\na&lt;b\n</p>\n\n</article>\n</main>\n</body>\n\n</html>\n",
        HEAD
    );
    assert_eq!(render_page("../css/reset.css", "../css/main.css", "../css/blog.css", &d), expected);
}

#[test]
fn page_names_the_style_sheets_below_the_directory_of_the_assets() {
    let assets = AssetDirs { css_dir: PathBuf::from("../css/") };
    let d = doc(vec![para("x")]);
    let reset = format!("{}", PathBuf::from("../css/").join(RESET_CSS_FILE).display());
    let main = format!("{}", PathBuf::from("../css/").join(MAIN_CSS_FILE).display());
    let blog = format!("{}", PathBuf::from("../css/").join(BLOG_CSS_FILE).display());
    assert_eq!(to_string(&assets, &d), render_page(&reset, &main, &blog, &d));
    let mut buf = "x".to_string();
    render_doc(&mut buf, &assets, &d);
    assert_eq!(buf, format!("x{}", render_page(&reset, &main, &blog, &d)));
    let mut head = String::new();
    render_head(&mut head, &assets);
    let mut expected = String::new();
    render_head_with(&mut expected, &reset, &main, &blog);
    assert_eq!(head, expected);
}

fn trimmed_inlines(inlines: &[Inline]) -> Vec<String> {
    let joined: String = inlines
        .iter()
        .map(|inline| match inline {
            Inline::Text(text) => text.clone(),
            other => panic!("the builder makes text only: {:?}", other),
        })
        .collect();
    let joined = joined.trim().to_string();
    if joined.is_empty() {
        vec![]
    } else {
        vec![joined]
    }
}

fn shape(blocks: &[Block]) -> Vec<String> {
    let mut out = Vec::new();
    for block in blocks {
        match block {
            Block::Heading(h) => out.push(format!("h{:?}{:?}", h.level, trimmed_inlines(&h.inlines))),
            Block::Paragraph(p) => out.push(format!("p{:?}", trimmed_inlines(&p.inlines))),
            Block::List(l) => {
                let items: Vec<Vec<String>> = l.items.iter().map(|item| shape(&item.blocks)).collect();
                out.push(format!("list{:?}{:?}", l.type_, items));
            }
            Block::Blockquote(q) => out.push(format!("quote{:?}", shape(&q.blocks))),
            Block::CodeBlock(c) => out.push(format!("code{:?}", trimmed_inlines(&c.inlines))),
            Block::ThematicBreak => out.push("hr".to_string()),
        }
    }
    out
}

#[test]
fn rendering_and_building_again_gives_the_same_blocks() {
    let blocks = vec![
        heading(HeadingLevel::H1, "Title & more"),
        para("first <paragraph>"),
        Block::List(List {
            type_: ListType::Ordered,
            items: vec![
                ListItem { blocks: vec![para("one")] },
                ListItem {
                    blocks: vec![
                        para("two"),
                        Block::List(List {
                            type_: ListType::Unordered,
                            items: vec![ListItem { blocks: vec![para("nested")] }],
                        }),
                    ],
                },
            ],
        }),
        Block::Blockquote(Blockquote { blocks: vec![para("quoted"), Block::ThematicBreak] }),
        Block::CodeBlock(CodeBlock { lang: CodeLang::Unknown, inlines: vec![t("fn main() {}")] }),
        Block::ThematicBreak,
        heading(HeadingLevel::H2, "Section"),
    ];
    let d = doc(blocks);
    let page = render_page("reset.css", "main.css", "blog.css", &d);
    let sub = extract_article(&page).unwrap();
    assert_eq!(sub.type_, Some(CandidateType::Article));
    let again = body_from_dom(&sub.node);
    assert_eq!(shape(&again.blocks), shape(&d.body.blocks));
    let d2 = Document { meta: Meta { origin_url: d.meta.origin_url.clone() }, body: again };
    let page2 = render_page("reset.css", "main.css", "blog.css", &d2);
    let sub2 = extract_article(&page2).unwrap();
    assert_eq!(shape(&body_from_dom(&sub2.node).blocks), shape(&d.body.blocks));
}
