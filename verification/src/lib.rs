//! Renders a book — a tree of chapters — into flat text artifacts for
//! large-language-model context windows: a full-text dump of all chapter
//! content, and a link index of chapter titles with links to their source
//! files. Both renderers accept an optional filter that restricts the output
//! to a single named top-level section.

pub mod book;
pub mod flatten;
pub mod index;
pub mod laws;
pub mod header;
