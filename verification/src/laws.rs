//! The properties the renderers are held to, stated over the same spec
//! functions their contracts use and proved once and for all: which content
//! the flattener emits under each filter setting, what the link index never
//! emits, the exactness of filter matching, and determinism of both
//! renderers.

use vstd::prelude::*;
use crate::book::{BookItem, Chapter, RenderContext, chapter_matches};
use crate::header::header_of;
use crate::flatten::{
    flat_item, flat_items, full_text, lemma_first_match_absent, lemma_first_match_at,
};
use crate::index::{
    has_link, index_chapter, index_text, item_entry, sub_entries,
};

verus! {

/// The content blocks of one tree node in depth-first pre-order: a chapter's
/// own content first, then its sub-chapters' blocks left to right; a
/// non-chapter node has none.
pub open spec fn contents_of_item(item: BookItem) -> Seq<Seq<char>>
    decreases item,
{
    match item {
        BookItem::Chapter(c) => seq![c.content@] + contents_of_items(c.sub_items@),
        BookItem::Other => Seq::empty(),
    }
}

/// The content blocks of a sequence of tree nodes, left to right.
pub open spec fn contents_of_items(items: Seq<BookItem>) -> Seq<Seq<char>>
    decreases items,
{
    if items.len() == 0 {
        Seq::empty()
    } else {
        contents_of_item(items[0]) + contents_of_items(items.drop_first())
    }
}

/// Concatenates content blocks, each followed by the blank-line separator.
pub open spec fn glue_blocks(blocks: Seq<Seq<char>>) -> Seq<char>
    decreases blocks.len(),
{
    if blocks.len() == 0 {
        Seq::empty()
    } else {
        blocks[0] + "\n\n"@ + glue_blocks(blocks.drop_first())
    }
}

/// Gluing distributes over concatenation of block lists.
proof fn lemma_glue_concat(a: Seq<Seq<char>>, b: Seq<Seq<char>>)
    ensures
        glue_blocks(a + b) == glue_blocks(a) + glue_blocks(b),
    decreases a.len(),
{
    if a.len() == 0 {
        assert(a + b =~= b);
        assert(glue_blocks(a) + glue_blocks(b) =~= glue_blocks(b));
    } else {
        lemma_glue_concat(a.drop_first(), b);
        assert((a + b)[0] == a[0]);
        assert((a + b).drop_first() =~= a.drop_first() + b);
        assert(glue_blocks(a + b) =~= glue_blocks(a) + glue_blocks(b));
    }
}

/// A node's flattened text is exactly its content blocks, glued in
/// depth-first pre-order.
pub proof fn lemma_flat_item_glues_contents(item: BookItem)
    ensures
        flat_item(item) == glue_blocks(contents_of_item(item)),
    decreases item,
{
    match item {
        BookItem::Chapter(c) => {
            lemma_flat_items_glue_contents(c.sub_items@);
            lemma_glue_concat(seq![c.content@], contents_of_items(c.sub_items@));
            let s1 = seq![c.content@];
            assert(s1.len() == 1);
            assert(s1[0] == c.content@);
            assert(s1.drop_first() =~= Seq::<Seq<char>>::empty());
            assert(glue_blocks(s1.drop_first()) == Seq::<char>::empty());
            assert(glue_blocks(s1) =~= c.content@ + "\n\n"@);
            assert(flat_item(item) =~= glue_blocks(contents_of_item(item)));
        },
        BookItem::Other => {},
    }
}

/// The flattened text of a sequence of nodes is exactly their content
/// blocks, glued in depth-first pre-order.
pub proof fn lemma_flat_items_glue_contents(items: Seq<BookItem>)
    ensures
        flat_items(items) == glue_blocks(contents_of_items(items)),
    decreases items,
{
    if items.len() > 0 {
        lemma_flat_item_glues_contents(items[0]);
        lemma_flat_items_glue_contents(items.drop_first());
        lemma_glue_concat(contents_of_item(items[0]), contents_of_items(items.drop_first()));
    }
}

/// Law: with no filter configured, the flattener's output is the header
/// followed by the content of every chapter and sub-chapter reachable from
/// the top level — each block exactly once, in depth-first pre-order, each
/// followed by the blank-line separator.
pub proof fn lemma_flattener_unfiltered(ctx: RenderContext)
    requires
        ctx.config.title is Some,
        ctx.config.only_section is None,
    ensures
        full_text(ctx) == header_of(ctx.config) + glue_blocks(contents_of_items(ctx.sections@)),
{
    lemma_flat_items_glue_contents(ctx.sections@);
}

/// Law: with a filter matching the top-level chapter at `i` (and no earlier
/// one), the flattener's output is the header followed by exactly that
/// chapter's content and its descendants' content — nothing from any other
/// top-level chapter.
pub proof fn lemma_flattener_filtered(ctx: RenderContext, i: int)
    requires
        ctx.config.title is Some,
        ctx.config.only_section is Some,
        0 <= i < ctx.sections@.len(),
        chapter_matches(ctx.sections@[i], ctx.config.only_section->Some_0@),
        forall|j: int| 0 <= j < i
            ==> !chapter_matches(ctx.sections@[j], ctx.config.only_section->Some_0@),
    ensures
        full_text(ctx) == header_of(ctx.config) + glue_blocks(contents_of_item(ctx.sections@[i])),
{
    lemma_first_match_at(ctx.sections@, ctx.config.only_section->Some_0@, i);
    lemma_flat_item_glues_contents(ctx.sections@[i]);
}

/// Law: filter matching is exact and case-sensitive. When no top-level
/// chapter's name equals the configured filter — a name differing only in
/// case does not — both renderers produce the header alone; their contracts
/// separately guarantee this is still a success, not an error.
pub proof fn lemma_filter_mismatch_header_only(ctx: RenderContext)
    requires
        ctx.config.title is Some,
        ctx.config.only_section is Some,
        forall|j: int| 0 <= j < ctx.sections@.len()
            ==> !chapter_matches(ctx.sections@[j], ctx.config.only_section->Some_0@),
    ensures
        full_text(ctx) == header_of(ctx.config),
        index_text(ctx) == header_of(ctx.config),
{
    lemma_first_match_absent(ctx.sections@, ctx.config.only_section->Some_0@);
    assert(header_of(ctx.config) + Seq::<char>::empty() =~= header_of(ctx.config));
}

/// Law: both renderers are pure functions of their input. Their contracts pin
/// the output to `full_text` and `index_text`, so two runs on identical input
/// return identical strings.
pub proof fn lemma_renderers_deterministic(
    ctx: RenderContext,
    full_a: Seq<char>,
    full_b: Seq<char>,
    index_a: Seq<char>,
    index_b: Seq<char>,
)
    requires
        full_a == full_text(ctx),
        full_b == full_text(ctx),
        index_a == index_text(ctx),
        index_b == index_text(ctx),
    ensures
        full_a == full_b,
        index_a == index_b,
{
}

/// Law: a sub-item that is not a chapter with a path — a separator, or a
/// chapter without a path — contributes no list entry to the link index:
/// removing it leaves the emitted entries unchanged.
pub proof fn lemma_sub_entries_drop_pathless(items: Seq<BookItem>, base: Seq<char>, i: int)
    requires
        0 <= i < items.len(),
        !has_link(items[i]),
    ensures
        sub_entries(items, base) == sub_entries(items.remove(i), base),
    decreases i,
{
    if i == 0 {
        assert(item_entry(items[0], base) == Seq::<char>::empty());
        assert(items.remove(0) =~= items.drop_first());
        assert(sub_entries(items, base) =~= sub_entries(items.drop_first(), base));
    } else {
        lemma_sub_entries_drop_pathless(items.drop_first(), base, i - 1);
        assert(items.remove(i)[0] == items[0]);
        assert(items.remove(i).drop_first() =~= items.drop_first().remove(i - 1));
    }
}

/// Law: a top-level chapter without a path still gets its heading, but no
/// list entry of its own.
pub proof fn lemma_index_chapter_no_path(c: Chapter, base: Seq<char>)
    requires
        c.path is None,
    ensures
        index_chapter(c, base) == "## "@ + c.name@ + "\n\n"@ + sub_entries(c.sub_items@, base) + "\n"@,
{
    assert(index_chapter(c, base)
        =~= "## "@ + c.name@ + "\n\n"@ + sub_entries(c.sub_items@, base) + "\n"@);
}

/// The source-file path as a value, independent of the chapter around it.
pub open spec fn path_view(c: Chapter) -> Option<Seq<char>> {
    match c.path {
        Some(p) => Some(p@),
        None => None,
    }
}

/// Agreement on exactly what the link index may read of a sub-item: its
/// variant, and for a chapter its name and path. Content and deeper
/// descendants are left free.
pub open spec fn shallow_eq(a: BookItem, b: BookItem) -> bool {
    match (a, b) {
        (BookItem::Chapter(c), BookItem::Chapter(d)) => c.name@ == d.name@
            && path_view(c) == path_view(d),
        (BookItem::Other, BookItem::Other) => true,
        _ => false,
    }
}

/// Sub-items that agree shallowly produce the same list entries.
proof fn lemma_sub_entries_shallow(a: Seq<BookItem>, b: Seq<BookItem>, base: Seq<char>)
    requires
        a.len() == b.len(),
        forall|j: int| 0 <= j < a.len() ==> shallow_eq(a[j], b[j]),
    ensures
        sub_entries(a, base) == sub_entries(b, base),
    decreases a.len(),
{
    if a.len() > 0 {
        assert(shallow_eq(a[0], b[0]));
        assert(item_entry(a[0], base) == item_entry(b[0], base));
        assert(forall|j: int| 0 <= j < a.drop_first().len()
            ==> a.drop_first()[j] == a[j + 1] && b.drop_first()[j] == b[j + 1]);
        lemma_sub_entries_shallow(a.drop_first(), b.drop_first(), base);
    }
}

/// Law: the link index never emits entries for grandchildren, and never reads
/// content: two chapters that agree on name and path, and whose direct
/// sub-items agree shallowly, produce identical index sections — whatever
/// their contents and deeper descendants hold.
pub proof fn lemma_index_two_levels_only(c1: Chapter, c2: Chapter, base: Seq<char>)
    requires
        c1.name@ == c2.name@,
        path_view(c1) == path_view(c2),
        c1.sub_items@.len() == c2.sub_items@.len(),
        forall|j: int| 0 <= j < c1.sub_items@.len()
            ==> shallow_eq(c1.sub_items@[j], c2.sub_items@[j]),
    ensures
        index_chapter(c1, base) == index_chapter(c2, base),
{
    lemma_sub_entries_shallow(c1.sub_items@, c2.sub_items@, base);
}

} // verus!
