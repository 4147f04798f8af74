//! The index of the posts, category by category.

use vstd::prelude::*;
use vstd::string::StringExecFns;
use crate::assets::{AssetDirs, BLOG_CSS_FILE, MAIN_CSS_FILE, RESET_CSS_FILE};
use crate::author::{AuthorMaps, AuthorMapsView};
use crate::render::{head_html, render_head_with};
use crate::config::Category;
use crate::sanitize::{name_to_slug, slug};

verus! {

/// A post as the index lists it. Its address is held as text.
#[derive(Debug, PartialEq, Eq)]
pub struct IndexEntry {
    pub url: String,
    pub category: Category,
    pub title: String,
    pub file_name: String,
}

/// The view of an [`IndexEntry`].
pub struct IndexEntryView {
    pub url: Seq<char>,
    pub category: Category,
    pub title: Seq<char>,
    pub file_name: Seq<char>,
}

impl View for IndexEntry {
    type V = IndexEntryView;

    open spec fn view(&self) -> IndexEntryView {
        IndexEntryView { url: self.url@, category: self.category, title: self.title@, file_name: self.file_name@ }
    }
}

/// The views of a list of entries.
pub open spec fn entries_view(entries: Seq<IndexEntry>) -> Seq<IndexEntryView> {
    Seq::new(entries.len(), |i: int| entries[i]@)
}

/// The view of a list of categories with their entries.
pub open spec fn groups_view(groups: Seq<(Category, Vec<IndexEntry>)>) -> Seq<(Category, Seq<IndexEntryView>)> {
    Seq::new(groups.len(), |i: int| (groups[i].0, entries_view(groups[i].1@)))
}

/// The title of the index.
pub const TITLE: &'static str = "The Rust Docuverse";

/// The categories, in the order in which the index lists them.
pub open spec fn all_categories() -> Seq<Category> {
    seq![
        Category::Introduction,
        Category::Experience,
        Category::Ownership,
        Category::Traits,
        Category::Language,
        Category::Iterators,
        Category::ConcurrencyAndParallelism,
        Category::InPractice,
        Category::Idioms,
        Category::Macros,
        Category::Unsafe,
        Category::Async,
        Category::Web,
        Category::Systems,
        Category::Embedded,
        Category::Wasm,
        Category::TypeSystems,
        Category::Internals,
        Category::Culture,
        Category::Uncategorized,
    ]
}

/// The entries of one category, in their order.
pub open spec fn entries_of(entries: Seq<IndexEntryView>, category: Category) -> Seq<IndexEntryView>
    decreases entries.len(),
{
    if entries.len() == 0 {
        Seq::empty()
    } else if entries.last().category == category {
        entries_of(entries.drop_last(), category).push(entries.last())
    } else {
        entries_of(entries.drop_last(), category)
    }
}

/// The entries grouped by the given categories, in the order of the
/// categories: every category that has an entry, with its entries in their
/// order.
pub open spec fn grouped(entries: Seq<IndexEntryView>, categories: Seq<Category>) -> Seq<
    (Category, Seq<IndexEntryView>),
>
    decreases categories.len(),
{
    if categories.len() == 0 {
        Seq::empty()
    } else if entries_of(entries, categories.last()).len() > 0 {
        grouped(entries, categories.drop_last()).push(
            (categories.last(), entries_of(entries, categories.last())),
        )
    } else {
        grouped(entries, categories.drop_last())
    }
}

/// The entries grouped by category.
pub open spec fn categorized(entries: Seq<IndexEntryView>) -> Seq<(Category, Seq<IndexEntryView>)> {
    grouped(entries, all_categories())
}

impl IndexEntry {
    /// A copy of the entry.
    pub fn duplicate(&self) -> (r: IndexEntry)
        ensures
            r@ == self@,
    {
        IndexEntry {
            url: self.url.clone(),
            category: self.category,
            title: self.title.clone(),
            file_name: self.file_name.clone(),
        }
    }
}

impl Category {
    /// The categories, in the order in which the index lists them.
    pub fn all() -> (r: Vec<Category>)
        ensures
            r@ == all_categories(),
    {
        let r = vec![
            Category::Introduction,
            Category::Experience,
            Category::Ownership,
            Category::Traits,
            Category::Language,
            Category::Iterators,
            Category::ConcurrencyAndParallelism,
            Category::InPractice,
            Category::Idioms,
            Category::Macros,
            Category::Unsafe,
            Category::Async,
            Category::Web,
            Category::Systems,
            Category::Embedded,
            Category::Wasm,
            Category::TypeSystems,
            Category::Internals,
            Category::Culture,
            Category::Uncategorized,
        ];
        assert(r@ =~= all_categories());
        r
    }
}

/// Groups the entries by category: every category that has an entry, in
/// the order of the categories, with its entries in their order.
pub fn categorize(entries: Vec<IndexEntry>) -> (r: Vec<(Category, Vec<IndexEntry>)>)
    ensures
        groups_view(r@) == categorized(entries_view(entries@)),
{
    let categories = Category::all();
    let mut groups: Vec<(Category, Vec<IndexEntry>)> = Vec::new();
    let ghost all = entries_view(entries@);
    proof {
        assert(categories@.take(0) =~= Seq::empty());
        assert(groups_view(groups@) =~= grouped(all, categories@.take(0)));
    }
    for k in 0..categories.len()
        invariant
            all == entries_view(entries@),
            groups_view(groups@) == grouped(all, categories@.take(k as int)),
    {
        let category = categories[k];
        let mut group: Vec<IndexEntry> = Vec::new();
        proof {
            assert(all.take(0) =~= Seq::empty());
            assert(entries_view(group@) =~= entries_of(all.take(0), category));
        }
        for i in 0..entries.len()
            invariant
                all == entries_view(entries@),
                entries_view(group@) == entries_of(all.take(i as int), category),
        {
            proof {
                assert(all.take(i + 1).drop_last() =~= all.take(i as int));
                assert(all.take(i + 1).last() == entries@[i as int]@);
            }
            if entries[i].category == category {
                let ghost before = entries_view(group@);
                let entry = entries[i].duplicate();
                group.push(entry);
                proof {
                    assert(entries_view(group@) =~= before.push(entries@[i as int]@));
                }
            }
        }
        proof {
            assert(all.take(entries.len() as int) =~= all);
            assert(categories@.take(k + 1).drop_last() =~= categories@.take(k as int));
            assert(categories@.take(k + 1).last() == category);
        }
        if group.len() > 0 {
            let ghost before = groups_view(groups@);
            let ghost members = entries_view(group@);
            groups.push((category, group));
            proof {
                assert(groups_view(groups@) =~= before.push((category, members)));
            }
        }
    }
    proof {
        assert(categories@.take(categories.len() as int) =~= categories@);
    }
    groups
}

/// The part of a line of the index that names the author of the post.
pub open spec fn author_html(author: Option<Seq<char>>) -> Seq<char> {
    match author {
        Some(name) => "<span>\n"@ + "by <a href='"@ + "./a/"@ + slug(name) + ".html"@ + "'>"@ + name + "</a>\n"@
            + "</span>\n"@,
        None => Seq::empty(),
    }
}

/// The line of the index that leads to a post.
pub open spec fn entry_html(entry: IndexEntryView, authors: AuthorMapsView) -> Seq<char> {
    "<p>\n"@ + "<a href='./p/"@ + entry.file_name + ".html'>"@ + entry.title + "</a>\n"@ + author_html(
        authors.author_of(entry.url),
    ) + "</p>\n"@
}

/// The lines of the index that lead to the given posts, in their order.
pub open spec fn entries_html(entries: Seq<IndexEntryView>, authors: AuthorMapsView) -> Seq<char>
    decreases entries.len(),
{
    if entries.len() == 0 {
        Seq::empty()
    } else {
        entries_html(entries.drop_last(), authors) + entry_html(entries.last(), authors)
    }
}

/// The section of the index that holds the posts of a category.
pub open spec fn section_html(category: Category, entries: Seq<IndexEntryView>, authors: AuthorMapsView) -> Seq<
    char,
> {
    "<section>\n"@ + "<h2>"@ + category.label_text() + "</h2>\n"@ + entries_html(entries, authors)
        + "</section>\n"@
}

/// The sections of the index, in their order.
pub open spec fn sections_html(groups: Seq<(Category, Seq<IndexEntryView>)>, authors: AuthorMapsView) -> Seq<
    char,
>
    decreases groups.len(),
{
    if groups.len() == 0 {
        Seq::empty()
    } else {
        sections_html(groups.drop_last(), authors) + section_html(groups.last().0, groups.last().1, authors)
    }
}

/// The body of the index: a section for every category that has a post.
pub open spec fn index_body_html(entries: Seq<IndexEntryView>, authors: AuthorMapsView) -> Seq<char> {
    "<body>\n"@ + "<main>\n"@ + "<h1>"@ + TITLE@ + "</h1>\n"@ + sections_html(categorized(entries), authors)
        + "</main>\n"@ + "</body>\n"@
}

/// Appends the part of a line of the index that names the author of the
/// post, where the post has one.
pub fn maybe_write_author(buf: &mut String, entry: &IndexEntry, authors: &AuthorMaps)
    ensures
        final(buf)@ == old(buf)@ + author_html(authors@.author_of(entry.url@)),
{
    match authors.author_of(entry.url.as_str()) {
        Some(name) => {
            buf.append("<span>\n");
            let name_slug = name_to_slug(name.clone());
            let mut link = String::from_str("./a/");
            link.append(name_slug.as_str());
            link.append(".html");
            buf.append("by <a href='");
            buf.append(link.as_str());
            buf.append("'>");
            buf.append(name.as_str());
            buf.append("</a>\n");
            buf.append("</span>\n");
            assert(buf@ =~= old(buf)@ + author_html(Some(name@)));
        },
        None => {
            assert(buf@ =~= old(buf)@ + author_html(None));
        },
    }
}

/// Appends the line of the index that leads to a post.
fn write_entry(buf: &mut String, entry: &IndexEntry, authors: &AuthorMaps)
    ensures
        final(buf)@ == old(buf)@ + entry_html(entry@, authors@),
{
    buf.append("<p>\n");
    buf.append("<a href='./p/");
    buf.append(entry.file_name.as_str());
    buf.append(".html'>");
    buf.append(entry.title.as_str());
    buf.append("</a>\n");
    maybe_write_author(buf, entry, authors);
    buf.append("</p>\n");
    assert(buf@ =~= old(buf)@ + entry_html(entry@, authors@));
}

/// Appends the section of the index that holds the posts of a category.
fn write_section(buf: &mut String, category: Category, members: &Vec<IndexEntry>, authors: &AuthorMaps)
    ensures
        final(buf)@ == old(buf)@ + section_html(category, entries_view(members@), authors@),
{
    buf.append("<section>\n");
    buf.append("<h2>");
    buf.append(category.label());
    buf.append("</h2>\n");
    let ghost opened = buf@;
    let ghost list = entries_view(members@);
    proof {
        assert(list.take(0) =~= Seq::empty());
        assert(buf@ =~= opened + entries_html(list.take(0), authors@));
    }
    for i in 0..members.len()
        invariant
            list == entries_view(members@),
            buf@ == opened + entries_html(list.take(i as int), authors@),
    {
        proof {
            assert(list.take(i + 1).drop_last() =~= list.take(i as int));
            assert(list.take(i + 1).last() == members@[i as int]@);
        }
        write_entry(buf, &members[i], authors);
        assert(buf@ =~= opened + entries_html(list.take(i + 1), authors@));
    }
    proof {
        assert(list.take(members.len() as int) =~= list);
    }
    buf.append("</section>\n");
    assert(buf@ =~= old(buf)@ + section_html(category, list, authors@));
}

/// Appends the body of the index.
pub fn write_body(buf: &mut String, entries: Vec<IndexEntry>, authors: &AuthorMaps)
    ensures
        final(buf)@ == old(buf)@ + index_body_html(entries_view(entries@), authors@),
{
    let ghost all = entries_view(entries@);
    let categories = categorize(entries);
    buf.append("<body>\n");
    buf.append("<main>\n");
    buf.append("<h1>");
    buf.append(TITLE);
    buf.append("</h1>\n");
    let ghost start = buf@;
    let ghost groups = groups_view(categories@);
    proof {
        assert(groups.take(0) =~= Seq::empty());
        assert(buf@ =~= start + sections_html(groups.take(0), authors@));
    }
    for k in 0..categories.len()
        invariant
            groups == groups_view(categories@),
            buf@ == start + sections_html(groups.take(k as int), authors@),
    {
        proof {
            assert(groups.take(k + 1).drop_last() =~= groups.take(k as int));
            assert(groups.take(k + 1).last() == (categories@[k as int].0, entries_view(categories@[k as int].1@)));
        }
        write_section(buf, categories[k].0, &categories[k].1, authors);
        assert(buf@ =~= start + sections_html(groups.take(k + 1), authors@));
    }
    proof {
        assert(groups.take(categories.len() as int) =~= groups);
    }
    buf.append("</main>\n");
    buf.append("</body>\n");
    assert(buf@ =~= old(buf)@ + index_body_html(all, authors@));
}

/// The page of the index: the head, which refers to three style sheets,
/// and the body.
pub open spec fn index_page_html(
    reset: Seq<char>,
    main: Seq<char>,
    blog: Seq<char>,
    entries: Seq<IndexEntryView>,
    authors: AuthorMapsView,
) -> Seq<char> {
    "<!doctype html>\n"@ + "<html lang='en'>\n"@ + head_html(reset, main, blog) + index_body_html(entries, authors)
        + "</html>\n"@
}

/// The page of the index, which refers to the three given style sheets.
pub fn index_page(reset_href: &str, main_href: &str, blog_href: &str, data: Vec<IndexEntry>, authors: &AuthorMaps) -> (r:
    String)
    ensures
        r@ == index_page_html(reset_href@, main_href@, blog_href@, entries_view(data@), authors@),
{
    let mut buf = String::new();
    buf.append("<!doctype html>\n");
    buf.append("<html lang='en'>\n");
    render_head_with(&mut buf, reset_href, main_href, blog_href);
    write_body(&mut buf, data, authors);
    buf.append("</html>\n");
    assert(buf@ =~= index_page_html(reset_href@, main_href@, blog_href@, entries_view(data@), authors@));
    buf
}

/// The page of the index. Its three style sheets are named as the platform
/// joins their file names to the directory of the assets.
pub fn render_index(assets: &AssetDirs, data: Vec<IndexEntry>, authors: &AuthorMaps) -> (r: String)
    ensures
        exists|reset: Seq<char>, main: Seq<char>, blog: Seq<char>|
            r@ == #[trigger] index_page_html(reset, main, blog, entries_view(data@), authors@),
{
    let reset_file = assets.css_href(RESET_CSS_FILE);
    let main_file = assets.css_href(MAIN_CSS_FILE);
    let blog_file = assets.css_href(BLOG_CSS_FILE);
    index_page(reset_file.as_str(), main_file.as_str(), blog_file.as_str(), data, authors)
}

} // verus!
