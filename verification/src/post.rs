//! From the page of a post to its document, in one step.

use vstd::prelude::*;
use vstd::string::StringExecFns;
use crate::config::BlogPost;
use crate::convert::{document_blocks, from_dom};
use crate::doc::{BlockView, Document};
use crate::html::{ExtractError, article_of, extract_article};
use crate::sanitize::{page_h1, sanitize, slug, title_to_slug, with_h1};

verus! {

/// The blocks of the document of a page: those that are built from the
/// article of the page, repaired with the heading of the whole page. A page
/// without an article has no document.
pub open spec fn page_blocks(page: Seq<char>) -> Result<Seq<BlockView>, ExtractError> {
    match article_of(page) {
        Ok((kind, node)) => Ok(with_h1(document_blocks(node), page_h1(page), kind)),
        Err(e) => Err(e),
    }
}

/// Finds the article of the page of a post, builds the document from it,
/// and repairs the document.
pub fn convert_post(post: &BlogPost, page: &str) -> (r: Result<Document, ExtractError>)
    ensures
        match r {
            Ok(doc) => doc@.origin_url == post.url && page_blocks(page@) == Ok::<_, ExtractError>(doc@.blocks),
            Err(e) => page_blocks(page@) == Err::<Seq<BlockView>, _>(e),
        },
{
    match extract_article(page) {
        Ok(dom) => {
            let doc = from_dom(post, &dom);
            match dom.type_ {
                Some(candidate_type) => Ok(sanitize(doc, page, candidate_type)),
                None => Ok(doc),
            }
        },
        Err(e) => Err(e),
    }
}

/// The name of the file that holds the rendered post of the given title.
pub fn post_file_name(title: String) -> (r: String)
    ensures
        r@ == slug(title@) + ".html"@,
{
    let mut name = title_to_slug(title);
    name.append(".html");
    name
}

} // verus!
