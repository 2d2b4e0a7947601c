//! The input model shared by both renderers: the book tree, the configuration
//! the renderers consume, and the section-filter predicate.

use vstd::prelude::*;

verus! {

/// One node of the book tree: either a chapter, or some other item (a
/// separator, a part title) that both renderers skip without error.
pub enum BookItem {
    Chapter(Chapter),
    Other,
}

/// A chapter: a display name (not guaranteed unique), an optional source-file
/// path (absent for placeholder nodes), a raw content block (possibly empty),
/// and the ordered sub-chapters.
pub struct Chapter {
    pub name: String,
    pub path: Option<String>,
    pub content: String,
    pub sub_items: Vec<BookItem>,
}

/// Book metadata and the renderer options, as plain values. The title is
/// required: rendering fails without it. Everything else is optional.
pub struct RenderConfig {
    pub title: Option<String>,
    pub description: Option<String>,
    pub only_section: Option<String>,
    pub document_root_uri: Option<String>,
}

/// Everything a renderer consumes: the top-level items of the book, in order,
/// and the configuration.
pub struct RenderContext {
    pub sections: Vec<BookItem>,
    pub config: RenderConfig,
}

/// The one fatal condition the renderers themselves detect: a book without a
/// title cannot be rendered.
#[derive(Clone, Copy, Debug, PartialEq, Eq, Structural)]
pub enum RenderError {
    MissingTitle,
}

/// The section filter: exact, case-sensitive string equality between the
/// configured filter value and a top-level chapter's name. Non-chapter items
/// never match.
pub open spec fn chapter_matches(item: BookItem, name: Seq<char>) -> bool {
    item matches BookItem::Chapter(c) && c.name@ == name
}

/// The first top-level item matching the filter, if any. Both renderers use
/// this same selection: the first exact name match wins and later siblings are
/// not visited.
pub open spec fn first_match(items: Seq<BookItem>, name: Seq<char>) -> Option<BookItem>
    decreases items.len(),
{
    if items.len() == 0 {
        None
    } else if chapter_matches(items[0], name) {
        Some(items[0])
    } else {
        first_match(items.drop_first(), name)
    }
}

impl RenderError {
    /// A human-readable description of the failure.
    pub fn message(&self) -> (r: &'static str)
        ensures
            r@ == "book.title is required"@,
    {
        "book.title is required"
    }
}

} // verus!
