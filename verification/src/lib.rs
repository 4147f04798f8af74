//! Blog posts as structured documents.
//!
//! A page of HTML is parsed into a [`tree::Tree`]. [`html`] finds the
//! subtree that holds the article, [`convert`] builds a [`doc::Document`]
//! from it, [`sanitize`] repairs a document that has lost its title,
//! [`extract`] reads the title, and [`render`] writes the document as a page
//! of HTML again; [`post`] goes from the page to the document in one step.
//! [`index`] and [`author`] list the posts.
//!
//! Every function carries a contract over the mathematical view of its
//! arguments, and is proved against it. The few items whose contract is
//! taken on trust call into the standard library or into another crate;
//! each says so in its documentation.

pub mod assets;
pub mod author;
pub mod config;
pub mod convert;
pub mod doc;
pub mod extract;
pub mod html;
pub mod http_cache;
pub mod index;
pub mod post;
pub mod render;
pub mod roundtrip;
pub mod sanitize;
pub mod shape;
pub mod text;
pub mod tree;
