//! The posts that are processed, as the configuration names them.

use vstd::prelude::*;

verus! {

/// The subject under which a post is listed.
#[derive(Debug, Clone, Copy, PartialEq, Eq, Structural, PartialOrd, Ord, Hash)]
pub enum Category {
    Introduction,
    Experience,
    Ownership,
    Traits,
    Language,
    Iterators,
    ConcurrencyAndParallelism,
    InPractice,
    Idioms,
    Macros,
    Unsafe,
    Async,
    Web,
    Systems,
    Embedded,
    Wasm,
    TypeSystems,
    Internals,
    Culture,
    Uncategorized,
}

impl Category {
    /// The heading under which the posts of the category are listed.
    pub open spec fn label_text(self) -> Seq<char> {
        match self {
            Category::Introduction => "Intro to Rust"@,
            Category::Experience => "Experience Reports"@,
            Category::Ownership => "Ownership"@,
            Category::Traits => "Traits"@,
            Category::Language => "The Rust Language"@,
            Category::Iterators => "Iterators"@,
            Category::ConcurrencyAndParallelism => "Concurrency and Parallelism"@,
            Category::InPractice => "Rust in Practice"@,
            Category::Idioms => "Idiomatic Rust"@,
            Category::Macros => "Macros"@,
            Category::Unsafe => "Unsafe Rust"@,
            Category::Async => "Async"@,
            Category::Web => "Web Programming"@,
            Category::Systems => "Systems Programming"@,
            Category::Embedded => "Embedded Systems"@,
            Category::Wasm => "Web Assembly"@,
            Category::TypeSystems => "Fun With Type Systems"@,
            Category::Internals => "Compiler Internals"@,
            Category::Culture => "Rust Culture"@,
            Category::Uncategorized => "Uncategorized"@,
        }
    }

    /// The heading under which the posts of the category are listed.
    pub fn label(&self) -> (r: &'static str)
        ensures
            r@ == self.label_text(),
    {
        match self {
            Category::Introduction => "Intro to Rust",
            Category::Experience => "Experience Reports",
            Category::Ownership => "Ownership",
            Category::Traits => "Traits",
            Category::Language => "The Rust Language",
            Category::Iterators => "Iterators",
            Category::ConcurrencyAndParallelism => "Concurrency and Parallelism",
            Category::InPractice => "Rust in Practice",
            Category::Idioms => "Idiomatic Rust",
            Category::Macros => "Macros",
            Category::Unsafe => "Unsafe Rust",
            Category::Async => "Async",
            Category::Web => "Web Programming",
            Category::Systems => "Systems Programming",
            Category::Embedded => "Embedded Systems",
            Category::Wasm => "Web Assembly",
            Category::TypeSystems => "Fun With Type Systems",
            Category::Internals => "Compiler Internals",
            Category::Culture => "Rust Culture",
            Category::Uncategorized => "Uncategorized",
        }
    }

    /// The label as an owned string.
    pub fn to_string(&self) -> (r: String)
        ensures
            r@ == self.label_text(),
    {
        self.label().to_owned()
    }
}

impl Default for Category {
    fn default() -> (r: Category)
        ensures
            r == Category::Uncategorized,
    {
        Category::Uncategorized
    }
}

/// A post: its address, its category, and whether it is to be published.
#[derive(Debug, PartialEq, Eq)]
pub struct BlogPost {
    pub url: url::Url,
    pub category: Category,
    pub publish: bool,
}

impl BlogPost {
    /// Whether the post is processed: it is marked for publication, or
    /// posts that are not are asked for too.
    pub fn is_selected(&self, unpublished: bool) -> (r: bool)
        ensures
            r == (self.publish || unpublished),
    {
        self.publish || unpublished
    }
}

} // verus!
