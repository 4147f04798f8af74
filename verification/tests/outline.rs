use docuverse::config::Category;
use docuverse::html::{extract_dom, tag_outline, walk_dom_fn, walk_tags};
use docuverse::tree::Tree;

fn element(name: &str, children: Vec<Tree>) -> Tree {
    Tree::Element { name: name.to_string(), attrs: vec![], children }
}

fn text(contents: &str) -> Tree {
    Tree::Text { contents: contents.to_string() }
}

#[test]
fn outline_of_a_parsed_page() {
    let lines = walk_tags("<html><head></head><body><p>a <span>b <b>c</b></span></p></body></html>").unwrap();
    assert_eq!(
        lines,
        vec![
            "  <html>",
            "    <head>",
            "    </head>",
            "    <body>",
            "      <p>",
            "          <b>",
            "          </b>",
            "      </p>",
            "    </body>",
            "  </html>",
        ]
    );
}

#[test]
fn outline_leaves_boring_tags_out() {
    let boring = ["span", "a", "img", "meta", "link", "script", "nav", "form", "fieldset", "input", "sup"];
    for name in boring {
        let tree = element("div", vec![element(name, vec![element("p", vec![])])]);
        assert_eq!(tag_outline(&tree), vec!["<div>", "    <p>", "    </p>", "</div>"]);
    }
    assert_eq!(tag_outline(&element("sub", vec![])), vec!["<sub>", "</sub>"]);
    assert!(tag_outline(&text("x")).is_empty());
}

#[test]
fn walk_visits_a_node_before_its_children() {
    let tree = element(
        "a",
        vec![element("b", vec![text("c")]), Tree::Other { children: vec![element("d", vec![])] }, text("e")],
    );
    let mut visited = Vec::new();
    walk_dom_fn(&tree, &mut visited);
    let names: Vec<String> = visited
        .iter()
        .map(|node| match node {
            Tree::Element { name, .. } => name.clone(),
            Tree::Text { contents } => format!("#{}", contents),
            Tree::Other { .. } => "?".to_string(),
        })
        .collect();
    assert_eq!(names, vec!["a", "b", "#c", "?", "d", "#e"]);
}

#[test]
fn parser_keeps_attributes_and_text() {
    let sub = extract_dom("<p id=\"x\" class=\"y\">a &amp; b</p>").unwrap();
    let mut visited = Vec::new();
    walk_dom_fn(&sub.node, &mut visited);
    let p = visited
        .iter()
        .find(|node| matches!(node, Tree::Element { name, .. } if name == "p"))
        .unwrap();
    match p {
        Tree::Element { attrs, children, .. } => {
            assert_eq!(attrs.len(), 2);
            assert_eq!((attrs[0].name.as_str(), attrs[0].value.as_str()), ("id", "x"));
            assert_eq!((attrs[1].name.as_str(), attrs[1].value.as_str()), ("class", "y"));
            assert_eq!(children, &vec![text("a & b")]);
        }
        _ => unreachable!(),
    }
}

#[test]
fn category_labels() {
    assert_eq!(Category::default(), Category::Uncategorized);
    assert_eq!(Category::Introduction.label(), "Intro to Rust");
    assert_eq!(Category::ConcurrencyAndParallelism.to_string(), "Concurrency and Parallelism");
    assert_eq!(Category::Wasm.label(), "Web Assembly");
    assert_eq!(Category::Uncategorized.to_string(), "Uncategorized");
    assert!(Category::Introduction < Category::Uncategorized);
}
