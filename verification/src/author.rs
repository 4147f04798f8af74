//! Authors, the posts that are theirs, and their pages.
//!
//! A post belongs to an author when the address of the post begins with
//! the address of the blog of the author.

use vstd::prelude::*;
use vstd::string::StringExecFns;
use crate::assets::{AssetDirs, BLOG_CSS_FILE, MAIN_CSS_FILE, RESET_CSS_FILE};
use crate::index::{IndexEntry, IndexEntryView, entries_view};
use crate::render::{head_html, render_head_with};
use crate::sanitize::{name_to_slug, slug, title_to_slug};
use crate::text::{starts_with, str_eq};

verus! {

/// The name of an author.
pub type AuthorName = String;

/// An author: a name, and where to find them. Addresses are held as text.
#[derive(Debug, PartialEq, Eq)]
pub struct Author {
    pub name: AuthorName,
    pub github: Option<String>,
    pub blog: Option<String>,
}

/// The view of an [`Author`].
pub struct AuthorView {
    pub name: Seq<char>,
    pub github: Option<Seq<char>>,
    pub blog: Option<Seq<char>>,
}

/// Which post is whose. Both lists hold one pair for every post and every
/// author that the post belongs to, in the order of the posts and, for one
/// post, of the authors; where an address has several pairs in the first
/// list, the last one counts.
#[derive(Debug, PartialEq, Eq)]
pub struct AuthorMaps {
    /// The address of a post, with the name of its author.
    pub blog_post_author: Vec<(String, AuthorName)>,
    /// The name of an author, with the address of a post of theirs.
    pub author_blog_posts: Vec<(AuthorName, String)>,
}

/// The view of [`AuthorMaps`].
pub struct AuthorMapsView {
    pub blog_post_author: Seq<(Seq<char>, Seq<char>)>,
    pub author_blog_posts: Seq<(Seq<char>, Seq<char>)>,
}

/// The view of a text that may be missing.
pub open spec fn option_view(text: Option<String>) -> Option<Seq<char>> {
    match text {
        Some(t) => Some(t@),
        None => None,
    }
}

/// The view of a list of pairs of texts.
pub open spec fn pairs_view(pairs: Seq<(String, String)>) -> Seq<(Seq<char>, Seq<char>)> {
    Seq::new(pairs.len(), |i: int| (pairs[i].0@, pairs[i].1@))
}

/// The views of a list of texts.
pub open spec fn texts_view(texts: Seq<String>) -> Seq<Seq<char>> {
    Seq::new(texts.len(), |i: int| texts[i]@)
}

impl View for Author {
    type V = AuthorView;

    open spec fn view(&self) -> AuthorView {
        AuthorView { name: self.name@, github: option_view(self.github), blog: option_view(self.blog) }
    }
}

impl View for AuthorMaps {
    type V = AuthorMapsView;

    open spec fn view(&self) -> AuthorMapsView {
        AuthorMapsView {
            blog_post_author: pairs_view(self.blog_post_author@),
            author_blog_posts: pairs_view(self.author_blog_posts@),
        }
    }
}

/// The views of a list of authors.
pub open spec fn authors_view(authors: Seq<Author>) -> Seq<AuthorView> {
    Seq::new(authors.len(), |i: int| authors[i]@)
}

/// Whether a post belongs to an author: the author has a blog, and the
/// address of the post begins with the address of the blog.
pub open spec fn is_post_of(post: Seq<char>, author: AuthorView) -> bool {
    author.blog matches Some(blog) && blog.is_prefix_of(post)
}

/// The names of the authors that a post belongs to, in the order of the
/// authors.
pub open spec fn authors_of_post(post: Seq<char>, authors: Seq<AuthorView>) -> Seq<Seq<char>>
    decreases authors.len(),
{
    if authors.len() == 0 {
        Seq::empty()
    } else if is_post_of(post, authors.last()) {
        authors_of_post(post, authors.drop_last()).push(authors.last().name)
    } else {
        authors_of_post(post, authors.drop_last())
    }
}

/// A pair of the post and the name, for every post and every author that
/// the post belongs to.
pub open spec fn post_author_pairs(posts: Seq<Seq<char>>, authors: Seq<AuthorView>) -> Seq<
    (Seq<char>, Seq<char>),
>
    decreases posts.len(),
{
    if posts.len() == 0 {
        Seq::empty()
    } else {
        post_author_pairs(posts.drop_last(), authors) + authors_of_post(posts.last(), authors).map_values(
            |name: Seq<char>| (posts.last(), name),
        )
    }
}

/// Each pair the other way round.
pub open spec fn swapped(pairs: Seq<(Seq<char>, Seq<char>)>) -> Seq<(Seq<char>, Seq<char>)> {
    pairs.map_values(|pair: (Seq<char>, Seq<char>)| (pair.1, pair.0))
}

/// What the last pair with the given key holds, if there is such a pair.
pub open spec fn last_value(pairs: Seq<(Seq<char>, Seq<char>)>, key: Seq<char>) -> Option<Seq<char>>
    decreases pairs.len(),
{
    if pairs.len() == 0 {
        None
    } else if pairs.last().0 == key {
        Some(pairs.last().1)
    } else {
        last_value(pairs.drop_last(), key)
    }
}

impl AuthorMapsView {
    /// The author of the post with the given address.
    pub open spec fn author_of(self, post: Seq<char>) -> Option<Seq<char>> {
        last_value(self.blog_post_author, post)
    }

    /// Whether the post with the given address is one of the author of the
    /// given name.
    pub open spec fn has_post(self, name: Seq<char>, post: Seq<char>) -> bool {
        self.author_blog_posts.contains((name, post))
    }
}

/// Finds for every post the authors that it belongs to.
pub fn create_author_maps(posts: &Vec<String>, authors: &Vec<Author>) -> (maps: AuthorMaps)
    ensures
        maps@.blog_post_author == post_author_pairs(texts_view(posts@), authors_view(authors@)),
        maps@.author_blog_posts == swapped(maps@.blog_post_author),
{
    let mut blog_post_author: Vec<(String, AuthorName)> = Vec::new();
    let mut author_blog_posts: Vec<(AuthorName, String)> = Vec::new();
    let ghost all_posts = texts_view(posts@);
    let ghost all_authors = authors_view(authors@);
    proof {
        assert(all_posts.take(0) =~= Seq::empty());
        assert(pairs_view(blog_post_author@) =~= post_author_pairs(all_posts.take(0), all_authors));
        assert(pairs_view(author_blog_posts@) =~= swapped(pairs_view(blog_post_author@)));
    }
    for i in 0..posts.len()
        invariant
            all_posts == texts_view(posts@),
            all_authors == authors_view(authors@),
            pairs_view(blog_post_author@) == post_author_pairs(all_posts.take(i as int), all_authors),
            pairs_view(author_blog_posts@) == swapped(pairs_view(blog_post_author@)),
    {
        let post = &posts[i];
        let ghost before = pairs_view(blog_post_author@);
        proof {
            assert(all_posts.take(i + 1).drop_last() =~= all_posts.take(i as int));
            assert(all_posts.take(i + 1).last() == post@);
            assert(all_authors.take(0) =~= Seq::empty());
            assert(pairs_view(blog_post_author@) =~= before + authors_of_post(
                post@,
                all_authors.take(0),
            ).map_values(|name: Seq<char>| (post@, name)));
        }
        for j in 0..authors.len()
            invariant
                all_authors == authors_view(authors@),
                pairs_view(blog_post_author@) == before + authors_of_post(
                    post@,
                    all_authors.take(j as int),
                ).map_values(|name: Seq<char>| (post@, name)),
                pairs_view(author_blog_posts@) == swapped(pairs_view(blog_post_author@)),
        {
            let author = &authors[j];
            proof {
                assert(all_authors.take(j + 1).drop_last() =~= all_authors.take(j as int));
                assert(all_authors.take(j + 1).last() == author@);
            }
            let belongs = match &author.blog {
                Some(blog_url) => starts_with(post.as_str(), blog_url.as_str()),
                None => false,
            };
            if belongs {
                let ghost pairs = pairs_view(blog_post_author@);
                let ghost back = pairs_view(author_blog_posts@);
                blog_post_author.push((post.clone(), author.name.clone()));
                author_blog_posts.push((author.name.clone(), post.clone()));
                proof {
                    assert(pairs_view(blog_post_author@) =~= pairs.push((post@, author.name@)));
                    assert(pairs_view(author_blog_posts@) =~= back.push((author.name@, post@)));
                    assert(pairs_view(author_blog_posts@) =~= swapped(pairs_view(blog_post_author@)));
                    assert(pairs_view(blog_post_author@) =~= before + authors_of_post(
                        post@,
                        all_authors.take(j + 1),
                    ).map_values(|name: Seq<char>| (post@, name)));
                }
            }
        }
        proof {
            assert(all_authors.take(authors.len() as int) =~= all_authors);
        }
    }
    proof {
        assert(all_posts.take(posts.len() as int) =~= all_posts);
    }
    AuthorMaps { blog_post_author, author_blog_posts }
}

impl AuthorMaps {
    /// The author of the post with the given address, if it has one.
    pub fn author_of(&self, post: &str) -> (r: Option<&AuthorName>)
        ensures
            match r {
                Some(name) => self@.author_of(post@) == Some(name@),
                None => self@.author_of(post@) is None,
            },
    {
        let pairs = &self.blog_post_author;
        let ghost all = pairs_view(pairs@);
        let mut i = pairs.len();
        proof {
            assert(all.take(i as int) =~= all);
        }
        while i > 0
            invariant
                i <= pairs.len(),
                all == pairs_view(pairs@),
                all == self@.blog_post_author,
                last_value(all, post@) == last_value(all.take(i as int), post@),
            decreases i,
        {
            i = i - 1;
            proof {
                assert(all.take(i + 1).drop_last() =~= all.take(i as int));
                assert(all.take(i + 1).last() == (pairs@[i as int].0@, pairs@[i as int].1@));
            }
            if str_eq(pairs[i].0.as_str(), post) {
                return Some(&pairs[i].1);
            }
        }
        None
    }

    /// Whether the post with the given address is one of the author of the
    /// given name.
    pub fn has_post(&self, name: &str, post: &str) -> (r: bool)
        ensures
            r == self@.has_post(name@, post@),
    {
        let pairs = &self.author_blog_posts;
        let ghost all = pairs_view(pairs@);
        for i in 0..pairs.len()
            invariant
                all == pairs_view(pairs@),
                all == self@.author_blog_posts,
                forall|j: int| 0 <= j < i ==> all[j] != (name@, post@),
        {
            if str_eq(pairs[i].0.as_str(), name) && str_eq(pairs[i].1.as_str(), post) {
                proof {
                    assert(all[i as int] == (name@, post@));
                }
                return true;
            }
        }
        false
    }
}

/// The line of an author page that leads to a post.
pub open spec fn post_link_html(entry: IndexEntryView) -> Seq<char> {
    "<div>\n"@ + "<p><a href='../p/"@ + slug(entry.title) + ".html'>"@ + entry.title + "</a></p>\n"@ + "</div>\n"@
}

/// The lines that lead to the posts of an author, among the given entries
/// and in their order.
pub open spec fn post_links_html(name: Seq<char>, entries: Seq<IndexEntryView>, maps: AuthorMapsView) -> Seq<
    char,
>
    decreases entries.len(),
{
    if entries.len() == 0 {
        Seq::empty()
    } else if maps.has_post(name, entries.last().url) {
        post_links_html(name, entries.drop_last(), maps) + post_link_html(entries.last())
    } else {
        post_links_html(name, entries.drop_last(), maps)
    }
}

/// The part of an author page that names their account at GitHub.
pub open spec fn github_html(github: Option<Seq<char>>) -> Seq<char> {
    match github {
        Some(g) => "<div>\n"@ + "<p>GitHub: <a href='https://github.com/"@ + g + "'>@"@ + g + "</a></p>\n"@
            + "</div>\n"@,
        None => Seq::empty(),
    }
}

/// The part of an author page that names their blog.
pub open spec fn blog_html(blog: Option<Seq<char>>) -> Seq<char> {
    match blog {
        Some(b) => "<div>\n"@ + "<p>Blog: <a href='"@ + b + "'>"@ + b + "</a></p>\n"@ + "</div>\n"@,
        None => Seq::empty(),
    }
}

/// The body of the page of an author.
pub open spec fn author_body_html(author: AuthorView, entries: Seq<IndexEntryView>, maps: AuthorMapsView) -> Seq<
    char,
> {
    "<body>\n"@ + "<main>\n"@ + "<h1>"@ + author.name + "</h1>\n"@ + github_html(author.github) + blog_html(
        author.blog,
    ) + "<div>\n"@ + "<h2>Blog posts</h2>\n"@ + post_links_html(author.name, entries, maps) + "</div>\n"@
        + "</main>\n"@ + "</body>\n"@
}

/// The name of the file that holds the page of an author.
pub fn author_file_name(author: &Author) -> (r: String)
    ensures
        r@ == slug(author.name@) + ".html"@,
{
    let mut name = name_to_slug(author.name.clone());
    name.append(".html");
    name
}

/// Appends the part of an author page that names their account at GitHub.
fn render_github(buf: &mut String, github: &Option<String>)
    ensures
        final(buf)@ == old(buf)@ + github_html(option_view(*github)),
{
    if let Some(github) = github {
        buf.append("<div>\n");
        buf.append("<p>GitHub: <a href='https://github.com/");
        buf.append(github.as_str());
        buf.append("'>@");
        buf.append(github.as_str());
        buf.append("</a></p>\n");
        buf.append("</div>\n");
    }
    assert(buf@ =~= old(buf)@ + github_html(option_view(*github)));
}

/// Appends the part of an author page that names their blog.
fn render_blog(buf: &mut String, blog: &Option<String>)
    ensures
        final(buf)@ == old(buf)@ + blog_html(option_view(*blog)),
{
    if let Some(blog) = blog {
        buf.append("<div>\n");
        buf.append("<p>Blog: <a href='");
        buf.append(blog.as_str());
        buf.append("'>");
        buf.append(blog.as_str());
        buf.append("</a></p>\n");
        buf.append("</div>\n");
    }
    assert(buf@ =~= old(buf)@ + blog_html(option_view(*blog)));
}

/// Appends the line of an author page that leads to a post.
fn render_post_link(buf: &mut String, entry: &IndexEntry)
    ensures
        final(buf)@ == old(buf)@ + post_link_html(entry@),
{
    buf.append("<div>\n");
    let title_slug = title_to_slug(entry.title.clone());
    buf.append("<p><a href='../p/");
    buf.append(title_slug.as_str());
    buf.append(".html'>");
    buf.append(entry.title.as_str());
    buf.append("</a></p>\n");
    buf.append("</div>\n");
    assert(buf@ =~= old(buf)@ + post_link_html(entry@));
}

/// Appends the lines that lead to the posts of an author.
fn render_post_links(buf: &mut String, name: &str, index_data: &Vec<IndexEntry>, author_maps: &AuthorMaps)
    ensures
        final(buf)@ == old(buf)@ + post_links_html(name@, entries_view(index_data@), author_maps@),
{
    let ghost all = entries_view(index_data@);
    proof {
        assert(all.take(0) =~= Seq::empty());
        assert(buf@ =~= old(buf)@ + post_links_html(name@, all.take(0), author_maps@));
    }
    for i in 0..index_data.len()
        invariant
            all == entries_view(index_data@),
            buf@ == old(buf)@ + post_links_html(name@, all.take(i as int), author_maps@),
    {
        let entry = &index_data[i];
        proof {
            assert(all.take(i + 1).drop_last() =~= all.take(i as int));
            assert(all.take(i + 1).last() == entry@);
        }
        if author_maps.has_post(name, entry.url.as_str()) {
            render_post_link(buf, entry);
            assert(buf@ =~= old(buf)@ + post_links_html(name@, all.take(i + 1), author_maps@));
        }
    }
    proof {
        assert(all.take(index_data.len() as int) =~= all);
    }
}

/// Appends the body of the page of an author: who they are, and the posts
/// that are theirs among the given entries.
pub fn render_body(buf: &mut String, author: &Author, index_data: &Vec<IndexEntry>, author_maps: &AuthorMaps)
    ensures
        final(buf)@ == old(buf)@ + author_body_html(author@, entries_view(index_data@), author_maps@),
{
    buf.append("<body>\n");
    buf.append("<main>\n");
    buf.append("<h1>");
    buf.append(author.name.as_str());
    buf.append("</h1>\n");
    render_github(buf, &author.github);
    render_blog(buf, &author.blog);
    buf.append("<div>\n");
    buf.append("<h2>Blog posts</h2>\n");
    render_post_links(buf, author.name.as_str(), index_data, author_maps);
    buf.append("</div>\n");
    buf.append("</main>\n");
    buf.append("</body>\n");
    assert(buf@ =~= old(buf)@ + author_body_html(author@, entries_view(index_data@), author_maps@));
}

/// The page of an author: the head, which refers to three style sheets,
/// and the body.
pub open spec fn author_page_html(
    reset: Seq<char>,
    main: Seq<char>,
    blog: Seq<char>,
    author: AuthorView,
    entries: Seq<IndexEntryView>,
    maps: AuthorMapsView,
) -> Seq<char> {
    "<!doctype html>\n"@ + "<html lang='en'>\n"@ + head_html(reset, main, blog) + author_body_html(
        author,
        entries,
        maps,
    ) + "</html>\n"@
}

/// The page of an author, which refers to the three given style sheets.
pub fn author_page(
    reset_href: &str,
    main_href: &str,
    blog_href: &str,
    author: &Author,
    index_data: &Vec<IndexEntry>,
    author_maps: &AuthorMaps,
) -> (r: String)
    ensures
        r@ == author_page_html(
            reset_href@,
            main_href@,
            blog_href@,
            author@,
            entries_view(index_data@),
            author_maps@,
        ),
{
    let mut buf = String::new();
    buf.append("<!doctype html>\n");
    buf.append("<html lang='en'>\n");
    render_head_with(&mut buf, reset_href, main_href, blog_href);
    render_body(&mut buf, author, index_data, author_maps);
    buf.append("</html>\n");
    assert(buf@ =~= author_page_html(
        reset_href@,
        main_href@,
        blog_href@,
        author@,
        entries_view(index_data@),
        author_maps@,
    ));
    buf
}

/// The page of an author. Its three style sheets are named as the platform
/// joins their file names to the directory of the assets.
pub fn render_author_page(assets: &AssetDirs, author: &Author, index_data: &Vec<IndexEntry>, author_maps: &AuthorMaps) -> (r:
    String)
    ensures
        exists|reset: Seq<char>, main: Seq<char>, blog: Seq<char>|
            r@ == #[trigger] author_page_html(reset, main, blog, author@, entries_view(index_data@), author_maps@),
{
    let reset_file = assets.css_href(RESET_CSS_FILE);
    let main_file = assets.css_href(MAIN_CSS_FILE);
    let blog_file = assets.css_href(BLOG_CSS_FILE);
    author_page(reset_file.as_str(), main_file.as_str(), blog_file.as_str(), author, index_data, author_maps)
}

} // verus!
