use std::path::PathBuf;

use docuverse::assets::AssetDirs;
use docuverse::author::{
    author_file_name, author_page, create_author_maps, render_author_page, render_body, Author, AuthorMaps,
};
use docuverse::config::{BlogPost, Category};
use docuverse::http_cache::url_hash;
use docuverse::index::{categorize, index_page, maybe_write_author, render_index, write_body, IndexEntry, TITLE};
use url::Url;

fn entry(url: &str, category: Category, title: &str, file_name: &str) -> IndexEntry {
    IndexEntry {
        url: url.to_string(),
        category,
        title: title.to_string(),
        file_name: file_name.to_string(),
    }
}

fn author(name: &str, github: Option<&str>, blog: Option<&str>) -> Author {
    Author { name: name.to_string(), github: github.map(|s| s.to_string()), blog: blog.map(|s| s.to_string()) }
}

fn pair(a: &str, b: &str) -> (String, String) {
    (a.to_string(), b.to_string())
}

const HEAD: &str = "\n<head>\n  <meta charset='utf-8'>\n  <link rel='stylesheet' href='r.css'>\n  <link rel='stylesheet' href='m.css'>\n  <link rel='stylesheet' href='b.css'>\n</head>\n\n";

#[test]
fn hash_of_an_address() {
    assert_eq!(url_hash("https://example.com/"), "9a155d047e3bd85b676a07b71719d44cab8b6566");
    assert_eq!(url_hash(""), "786a02f742015903c6c6fd852552d272912f4740");
    assert_eq!(
        url_hash("https://blog.rust-lang.org/2015/05/15/Rust-1.0.html"),
        "8bb2f861b352fec232e1614ebde56a16d2532fe2"
    );
}

#[test]
fn post_is_selected_when_published_or_asked_for() {
    let url = Url::parse("https://example.com/").unwrap();
    let published = BlogPost { url: url.clone(), category: Category::Web, publish: true };
    let draft = BlogPost { url, category: Category::Web, publish: false };
    assert!(published.is_selected(false));
    assert!(published.is_selected(true));
    assert!(!draft.is_selected(false));
    assert!(draft.is_selected(true));
}

#[test]
fn entries_are_grouped_in_the_order_of_the_categories() {
    let entries = vec![
        entry("u1", Category::Web, "w1", "w1"),
        entry("u2", Category::Introduction, "i1", "i1"),
        entry("u3", Category::Web, "w2", "w2"),
        entry("u4", Category::Uncategorized, "x", "x"),
        entry("u5", Category::Introduction, "i2", "i2"),
    ];
    let groups = categorize(entries);
    assert_eq!(
        groups,
        vec![
            (
                Category::Introduction,
                vec![
                    entry("u2", Category::Introduction, "i1", "i1"),
                    entry("u5", Category::Introduction, "i2", "i2"),
                ],
            ),
            (
                Category::Web,
                vec![entry("u1", Category::Web, "w1", "w1"), entry("u3", Category::Web, "w2", "w2")],
            ),
            (Category::Uncategorized, vec![entry("u4", Category::Uncategorized, "x", "x")]),
        ]
    );
    assert!(categorize(vec![]).is_empty());
    assert_eq!(Category::all().len(), 20);
    let mut sorted = Category::all();
    sorted.sort();
    assert_eq!(sorted, Category::all());
}

#[test]
fn post_belongs_to_the_author_whose_blog_address_it_begins_with() {
    let posts = vec![
        "https://a.example/one".to_string(),
        "https://b.example/two".to_string(),
        "https://c.example/three".to_string(),
        "https://a.example/four".to_string(),
    ];
    let authors = vec![
        author("Ann", None, Some("https://a.example/")),
        author("Bob", Some("bob"), Some("https://b.example/")),
        author("Nobody", None, None),
        author("Ann Two", None, Some("https://a.example/o")),
    ];
    let maps = create_author_maps(&posts, &authors);
    assert_eq!(
        maps.blog_post_author,
        vec![
            pair("https://a.example/one", "Ann"),
            pair("https://a.example/one", "Ann Two"),
            pair("https://b.example/two", "Bob"),
            pair("https://a.example/four", "Ann"),
        ]
    );
    assert_eq!(
        maps.author_blog_posts,
        vec![
            pair("Ann", "https://a.example/one"),
            pair("Ann Two", "https://a.example/one"),
            pair("Bob", "https://b.example/two"),
            pair("Ann", "https://a.example/four"),
        ]
    );
    assert_eq!(maps.author_of("https://a.example/one"), Some(&"Ann Two".to_string()));
    assert_eq!(maps.author_of("https://a.example/four"), Some(&"Ann".to_string()));
    assert_eq!(maps.author_of("https://c.example/three"), None);
    assert!(maps.has_post("Ann", "https://a.example/one"));
    assert!(maps.has_post("Ann Two", "https://a.example/one"));
    assert!(!maps.has_post("Ann Two", "https://a.example/four"));
    assert!(!maps.has_post("Bob", "https://a.example/one"));
    assert!(!maps.has_post("Nobody", "https://a.example/one"));
}

fn maps() -> AuthorMaps {
    create_author_maps(
        &vec!["https://a.example/one".to_string(), "https://b.example/two".to_string()],
        &vec![author("Ann B. C.", Some("annbc"), Some("https://a.example/"))],
    )
}

#[test]
fn author_is_named_behind_the_post() {
    let m = maps();
    let mut buf = String::new();
    maybe_write_author(&mut buf, &entry("https://a.example/one", Category::Web, "t", "f"), &m);
    assert_eq!(buf, "<span>\nby <a href='./a/ann-b-c.html'>Ann B. C.</a>\n</span>\n");
    let mut buf = "kept".to_string();
    maybe_write_author(&mut buf, &entry("https://b.example/two", Category::Web, "t", "f"), &m);
    assert_eq!(buf, "kept");
}

#[test]
fn body_of_the_index() {
    let entries = vec![
        entry("https://b.example/two", Category::Wasm, "Two", "two"),
        entry("https://a.example/one", Category::Introduction, "One", "one"),
    ];
    let mut buf = String::new();
    write_body(&mut buf, entries, &maps());
    let expected = format!(
        "<body>\n<main>\n<h1>{}</h1>\n<section>\n<h2>Intro to Rust</h2>\n<p>\n<a href='./p/one.html'>One</a>\n<span>\nby <a href='./a/ann-b-c.html'>Ann B. C.</a>\n</span>\n</p>\n</section>\n<section>\n<h2>Web Assembly</h2>\n<p>\n<a href='./p/two.html'>Two</a>\n</p>\n</section>\n</main>\n</body>\n",
        TITLE
    );
    assert_eq!(buf, expected);
    assert_eq!(TITLE, "The Rust Docuverse");
}

#[test]
fn page_of_the_index() {
    let m = maps();
    let page = index_page("r.css", "m.css", "b.css", vec![], &m);
    assert_eq!(
        page,
        format!(
            "<!doctype html>\n<html lang='en'>\n{}<body>\n<main>\n<h1>The Rust Docuverse</h1>\n</main>\n</body>\n</html>\n",
            HEAD
        )
    );
    let assets = AssetDirs { css_dir: PathBuf::from("./css/") };
    let with_assets = render_index(&assets, vec![], &m);
    let reset = format!("{}", PathBuf::from("./css/").join("reset.css").display());
    let main = format!("{}", PathBuf::from("./css/").join("main.css").display());
    let blog = format!("{}", PathBuf::from("./css/").join("blog.css").display());
    assert_eq!(with_assets, index_page(&reset, &main, &blog, vec![], &m));
}

#[test]
fn body_of_an_author_page() {
    let ann = author("Ann B. C.", Some("annbc"), Some("https://a.example/"));
    let entries = vec![
        entry("https://b.example/two", Category::Wasm, "Two", "two"),
        entry("https://a.example/one", Category::Introduction, "Post One!", "post-one"),
    ];
    let mut buf = String::new();
    render_body(&mut buf, &ann, &entries, &maps());
    assert_eq!(
        buf,
        "<body>\n<main>\n<h1>Ann B. C.</h1>\n<div>\n<p>GitHub: <a href='https://github.com/annbc'>@annbc</a></p>\n</div>\n<div>\n<p>Blog: <a href='https://a.example/'>https://a.example/</a></p>\n</div>\n<div>\n<h2>Blog posts</h2>\n<div>\n<p><a href='../p/post-one.html'>Post One!</a></p>\n</div>\n</div>\n</main>\n</body>\n"
    );
    let bare = author("Zed", None, None);
    let mut buf = String::new();
    render_body(&mut buf, &bare, &entries, &maps());
    assert_eq!(buf, "<body>\n<main>\n<h1>Zed</h1>\n<div>\n<h2>Blog posts</h2>\n</div>\n</main>\n</body>\n");
    assert_eq!(author_file_name(&ann), "ann-b-c.html");
}

#[test]
fn page_of_an_author() {
    let zed = author("Zed", None, None);
    let page = author_page("r.css", "m.css", "b.css", &zed, &vec![], &maps());
    assert_eq!(
        page,
        format!(
            "<!doctype html>\n<html lang='en'>\n{}<body>\n<main>\n<h1>Zed</h1>\n<div>\n<h2>Blog posts</h2>\n</div>\n</main>\n</body>\n</html>\n",
            HEAD
        )
    );
    let assets = AssetDirs { css_dir: PathBuf::from("./css/") };
    let reset = format!("{}", PathBuf::from("./css/").join("reset.css").display());
    let main = format!("{}", PathBuf::from("./css/").join("main.css").display());
    let blog = format!("{}", PathBuf::from("./css/").join("blog.css").display());
    assert_eq!(
        render_author_page(&assets, &zed, &vec![], &maps()),
        author_page(&reset, &main, &blog, &zed, &vec![], &maps())
    );
}

#[test]
fn name_of_a_digest() {
    let digest: Vec<u8> = (0u8..32).collect();
    assert_eq!(
        docuverse::http_cache::digest_name(&digest),
        "000102030405060708090a0b0c0d0e0f10111213"
    );
    let high = vec![0xffu8; 20];
    assert_eq!(docuverse::http_cache::digest_name(&high), "ffffffffffffffffffffffffffffffffffffffff");
}

#[test]
fn name_of_a_short_digest() {
    assert_eq!(docuverse::http_cache::digest_name(&[0x0a, 0xb0]), "0ab0");
    assert_eq!(docuverse::http_cache::digest_name(&[]), "");
}
