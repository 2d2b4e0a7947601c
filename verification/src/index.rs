//! The link index builder: for each selected top-level chapter, an H2
//! heading with the chapter name and a markdown list linking the chapter and
//! its immediate sub-chapters to their source files under a base URI. The
//! traversal never goes below the direct sub-chapters, and an item without a
//! path gets no list entry.

use vstd::prelude::*;
use vstd::string::StringExecFns;
use crate::book::{BookItem, Chapter, RenderConfig, RenderContext, RenderError, first_match};
use crate::header::{header_of, push_header};
use crate::flatten::{find_first_match, lemma_first_match_at, lemma_first_match_absent};

verus! {

/// One markdown list entry: `- [{name}]({base}/{path})\n`.
pub open spec fn link_line(name: Seq<char>, base: Seq<char>, path: Seq<char>) -> Seq<char> {
    "- ["@ + name + "]("@ + base + "/"@ + path + ")\n"@
}

/// Whether a tree node gets a list entry: it must be a chapter and have a path.
pub open spec fn has_link(item: BookItem) -> bool {
    item matches BookItem::Chapter(c) && c.path is Some
}

/// A chapter's own list entry: a link line when it has a path, nothing
/// otherwise.
pub open spec fn chapter_link(c: Chapter, base: Seq<char>) -> Seq<char> {
    match c.path {
        Some(p) => link_line(c.name@, base, p@),
        None => Seq::empty(),
    }
}

/// The list entry a tree node contributes as a sub-item: non-chapter nodes
/// and chapters without a path contribute nothing.
pub open spec fn item_entry(item: BookItem, base: Seq<char>) -> Seq<char> {
    match item {
        BookItem::Chapter(c) => chapter_link(c, base),
        BookItem::Other => Seq::empty(),
    }
}

/// The list entries of a chapter's direct sub-items, in order. Deeper
/// descendants are never consulted.
pub open spec fn sub_entries(items: Seq<BookItem>, base: Seq<char>) -> Seq<char>
    decreases items.len(),
{
    if items.len() == 0 {
        Seq::empty()
    } else {
        item_entry(items[0], base) + sub_entries(items.drop_first(), base)
    }
}

/// The index section of one top-level chapter: an H2 heading with its name,
/// its own entry when it has a path, one entry per direct sub-chapter with a
/// path, then a blank line.
pub open spec fn index_chapter(c: Chapter, base: Seq<char>) -> Seq<char> {
    "## "@ + c.name@ + "\n\n"@ + chapter_link(c, base) + sub_entries(c.sub_items@, base) + "\n"@
}

/// The index section a top-level tree node contributes: non-chapter nodes
/// contribute nothing, not even a heading.
pub open spec fn index_item(item: BookItem, base: Seq<char>) -> Seq<char> {
    match item {
        BookItem::Chapter(c) => index_chapter(c, base),
        BookItem::Other => Seq::empty(),
    }
}

/// The index sections of a sequence of top-level tree nodes, in order.
pub open spec fn index_items(items: Seq<BookItem>, base: Seq<char>) -> Seq<char>
    decreases items.len(),
{
    if items.len() == 0 {
        Seq::empty()
    } else {
        index_item(items[0], base) + index_items(items.drop_first(), base)
    }
}

/// The base URI used for links: the configured one, or empty — links then
/// come out relative — when none is configured.
pub open spec fn base_of(config: RenderConfig) -> Seq<char> {
    match config.document_root_uri {
        Some(u) => u@,
        None => Seq::empty(),
    }
}

/// What the index builder emits after the header: with no filter, one
/// section per top-level chapter; with a filter, the section of the first
/// top-level chapter whose name equals it, or nothing when no name matches.
pub open spec fn index_selected(sections: Seq<BookItem>, base: Seq<char>, filter: Option<String>) -> Seq<char> {
    match filter {
        None => index_items(sections, base),
        Some(name) => match first_match(sections, name@) {
            Some(item) => index_item(item, base),
            None => Seq::empty(),
        },
    }
}

/// The index builder's whole output: the header, then the selected sections.
pub open spec fn index_text(ctx: RenderContext) -> Seq<char>
    recommends
        ctx.config.title is Some,
{
    header_of(ctx.config) + index_selected(ctx.sections@, base_of(ctx.config), ctx.config.only_section)
}

/// Unfolds `sub_entries` on the suffix starting at `i`.
proof fn lemma_sub_entries_skip(items: Seq<BookItem>, base: Seq<char>, i: int)
    requires
        0 <= i < items.len(),
    ensures
        sub_entries(items.skip(i), base) == item_entry(items[i], base) + sub_entries(items.skip(i + 1), base),
{
    assert(items.skip(i)[0] == items[i]);
    assert(items.skip(i).drop_first() =~= items.skip(i + 1));
}

/// Unfolds `index_items` on the suffix starting at `i`.
proof fn lemma_index_items_skip(items: Seq<BookItem>, base: Seq<char>, i: int)
    requires
        0 <= i < items.len(),
    ensures
        index_items(items.skip(i), base) == index_item(items[i], base) + index_items(items.skip(i + 1), base),
{
    assert(items.skip(i)[0] == items[i]);
    assert(items.skip(i).drop_first() =~= items.skip(i + 1));
}

/// Appends one markdown list entry linking `name` to `{base}/{path}`.
fn push_link_line(output: &mut String, name: &String, base: &str, path: &String)
    ensures
        final(output)@ == old(output)@ + link_line(name@, base@, path@),
{
    output.append("- [");
    output.append(name.as_str());
    output.append("](");
    output.append(base);
    output.append("/");
    output.append(path.as_str());
    output.append(")\n");
    proof {
        assert(output@ =~= old(output)@ + ("- ["@ + name@ + "]("@ + base@ + "/"@ + path@ + ")\n"@));
    }
}

/// Appends the index section of one top-level chapter.
fn push_index_chapter(output: &mut String, c: &Chapter, base: &str)
    ensures
        final(output)@ == old(output)@ + index_chapter(*c, base@),
{
    output.append("## ");
    output.append(c.name.as_str());
    output.append("\n\n");
    if let Some(p) = &c.path {
        push_link_line(output, &c.name, base, p);
    }
    let ghost mid = output@;
    proof {
        assert(mid =~= old(output)@ + ("## "@ + c.name@ + "\n\n"@) + chapter_link(*c, base@));
    }
    let n: usize = c.sub_items.len();
    let mut i: usize = 0;
    proof {
        assert(c.sub_items@.skip(0) =~= c.sub_items@);
    }
    while i < n
        invariant
            i <= n,
            n == c.sub_items@.len(),
            output@ + sub_entries(c.sub_items@.skip(i as int), base@) == mid + sub_entries(c.sub_items@, base@),
        decreases n - i,
    {
        let ghost before = output@;
        proof {
            lemma_sub_entries_skip(c.sub_items@, base@, i as int);
        }
        if let BookItem::Chapter(sc) = &c.sub_items[i] {
            if let Some(p) = &sc.path {
                push_link_line(output, &sc.name, base, p);
            }
        }
        proof {
            assert(before + item_entry(c.sub_items@[i as int], base@) =~= output@);
            assert(output@ + sub_entries(c.sub_items@.skip(i as int + 1), base@)
                =~= before + sub_entries(c.sub_items@.skip(i as int), base@));
        }
        i = i + 1;
    }
    output.append("\n");
    proof {
        assert(c.sub_items@.skip(n as int) =~= Seq::<BookItem>::empty());
        assert(output@ =~= old(output)@ + index_chapter(*c, base@));
    }
}

/// The link index builder. Fails exactly when the book has no title;
/// otherwise returns the header followed by one index section per selected
/// top-level chapter. A missing base URI is not an error: links are then
/// emitted with an empty base.
pub fn render_llm_txt(ctx: &RenderContext) -> (r: Result<String, RenderError>)
    ensures
        r is Ok <==> ctx.config.title is Some,
        r is Err ==> r->Err_0 == RenderError::MissingTitle,
        r is Ok ==> r->Ok_0@ == index_text(*ctx),
{
    let base: &str = match &ctx.config.document_root_uri {
        Some(u) => u.as_str(),
        None => "",
    };
    proof {
        reveal_strlit("");
        assert(base@ =~= base_of(ctx.config));
    }
    let title = match &ctx.config.title {
        Some(t) => t,
        None => {
            return Err(RenderError::MissingTitle);
        },
    };
    let mut output = String::new();
    push_header(&mut output, title, &ctx.config.description);
    let ghost hdr = output@;
    proof {
        assert(hdr =~= header_of(ctx.config));
    }
    match &ctx.config.only_section {
        None => {
            let n: usize = ctx.sections.len();
            let mut i: usize = 0;
            proof {
                assert(ctx.sections@.skip(0) =~= ctx.sections@);
            }
            while i < n
                invariant
                    i <= n,
                    n == ctx.sections@.len(),
                    base@ == base_of(ctx.config),
                    output@ + index_items(ctx.sections@.skip(i as int), base@)
                        == hdr + index_items(ctx.sections@, base@),
                decreases n - i,
            {
                let ghost before = output@;
                proof {
                    lemma_index_items_skip(ctx.sections@, base@, i as int);
                }
                if let BookItem::Chapter(c) = &ctx.sections[i] {
                    push_index_chapter(&mut output, c, base);
                }
                proof {
                    assert(before + index_item(ctx.sections@[i as int], base@) =~= output@);
                    assert(output@ + index_items(ctx.sections@.skip(i as int + 1), base@)
                        =~= before + index_items(ctx.sections@.skip(i as int), base@));
                }
                i = i + 1;
            }
            proof {
                assert(ctx.sections@.skip(n as int) =~= Seq::<BookItem>::empty());
                assert(output@ =~= index_text(*ctx));
            }
        },
        Some(name) => {
            match find_first_match(&ctx.sections, name) {
                Some(i) => {
                    proof {
                        lemma_first_match_at(ctx.sections@, name@, i as int);
                    }
                    if let BookItem::Chapter(c) = &ctx.sections[i] {
                        push_index_chapter(&mut output, c, base);
                    }
                    proof {
                        assert(output@ =~= index_text(*ctx));
                    }
                },
                None => {
                    proof {
                        lemma_first_match_absent(ctx.sections@, name@);
                        assert(output@ =~= index_text(*ctx));
                    }
                },
            }
        },
    }
    Ok(output)
}

} // verus!
