//! Where the style sheets of the rendered pages are.

use std::path::PathBuf;
use vstd::prelude::*;

verus! {

/// A path of the file system, as the standard library holds it. It is
/// carried along and joined, never looked into.
#[verifier::external_type_specification]
#[verifier::external_body]
pub struct ExPathBuf(std::path::PathBuf);

/// The directories of the assets that a rendered page refers to.
#[derive(Debug)]
pub struct AssetDirs {
    pub css_dir: PathBuf,
}

/// The file name of the style sheet that resets the styles of the browser.
pub const RESET_CSS_FILE: &'static str = "reset.css";

/// The file name of the style sheet that all pages share.
pub const MAIN_CSS_FILE: &'static str = "main.css";

/// The file name of the style sheet of the posts.
pub const BLOG_CSS_FILE: &'static str = "blog.css";

/// Calls `Path::join`. How two paths are joined depends on the platform:
/// nothing is stated of the result.
#[verifier::external_body]
fn join(dir: &PathBuf, file: &str) -> PathBuf {
    dir.join(file)
}

/// Formats what `Path::display` gives for the path. Nothing is stated of
/// the result.
#[verifier::external_body]
fn display(path: &PathBuf) -> String {
    format!("{}", path.display())
}

impl AssetDirs {
    /// The reference by which a page names a style sheet of the given file
    /// name: the file name joined to the directory, as the platform joins
    /// paths.
    pub(crate) fn css_href(&self, file: &str) -> String {
        let path = join(&self.css_dir, file);
        display(&path)
    }
}

} // verus!
