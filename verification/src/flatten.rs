//! The tree flattener: a depth-first, pre-order traversal of the chapter
//! tree that concatenates every content block in document order, each
//! followed by a blank-line separator.

use vstd::prelude::*;
use vstd::string::StringExecFns;
use crate::book::{BookItem, RenderContext, RenderError, chapter_matches, first_match};
use crate::header::{header_of, push_header};

verus! {

/// The flattened text of one tree node: a chapter contributes its content and
/// a blank-line separator, then its sub-chapters in order; any other node
/// contributes nothing.
pub open spec fn flat_item(item: BookItem) -> Seq<char>
    decreases item,
{
    match item {
        BookItem::Chapter(c) => c.content@ + "\n\n"@ + flat_items(c.sub_items@),
        BookItem::Other => Seq::empty(),
    }
}

/// The flattened text of a sequence of tree nodes, left to right.
pub open spec fn flat_items(items: Seq<BookItem>) -> Seq<char>
    decreases items,
{
    if items.len() == 0 {
        Seq::empty()
    } else {
        flat_item(items[0]) + flat_items(items.drop_first())
    }
}

/// What the flattener emits after the header: with no filter, the whole book;
/// with a filter, the first top-level chapter whose name equals it — its
/// descendants fully expanded — or nothing when no name matches.
pub open spec fn flat_selected(sections: Seq<BookItem>, filter: Option<String>) -> Seq<char> {
    match filter {
        None => flat_items(sections),
        Some(name) => match first_match(sections, name@) {
            Some(item) => flat_item(item),
            None => Seq::empty(),
        },
    }
}

/// The flattener's whole output: the header, then the selected content.
pub open spec fn full_text(ctx: RenderContext) -> Seq<char>
    recommends
        ctx.config.title is Some,
{
    header_of(ctx.config) + flat_selected(ctx.sections@, ctx.config.only_section)
}

/// Unfolds `flat_items` on the suffix starting at `i`.
proof fn lemma_flat_items_skip(items: Seq<BookItem>, i: int)
    requires
        0 <= i < items.len(),
    ensures
        flat_items(items.skip(i)) == flat_item(items[i]) + flat_items(items.skip(i + 1)),
{
    assert(items.skip(i)[0] == items[i]);
    assert(items.skip(i).drop_first() =~= items.skip(i + 1));
}

/// Appends the flattened text of one tree node to `output`: the chapter's
/// content, a blank-line separator, then every descendant, depth-first.
pub fn process_book_item(item: &BookItem, output: &mut String)
    ensures
        final(output)@ == old(output)@ + flat_item(*item),
    decreases *item,
{
    match item {
        BookItem::Chapter(c) => {
            output.append(c.content.as_str());
            output.append("\n\n");
            let ghost mid = output@;
            let n: usize = c.sub_items.len();
            let mut i: usize = 0;
            proof {
                assert(c.sub_items@.skip(0) =~= c.sub_items@);
            }
            while i < n
                invariant
                    i <= n,
                    n == c.sub_items@.len(),
                    *item == BookItem::Chapter(*c),
                    output@ + flat_items(c.sub_items@.skip(i as int)) == mid + flat_items(c.sub_items@),
                decreases n - i,
            {
                let ghost before = output@;
                proof {
                    assert(*item == BookItem::Chapter(*c));
                    assert(decreases_to!(*item => (*item)->Chapter_0));
                    assert(decreases_to!(*c => c.sub_items));
                    assert(decreases_to!(c.sub_items => c.sub_items@));
                    assert(decreases_to!(c.sub_items@ => c.sub_items@[i as int]));
                    assert(decreases_to!(*item => c.sub_items@[i as int]));
                    lemma_flat_items_skip(c.sub_items@, i as int);
                }
                process_book_item(&c.sub_items[i], output);
                proof {
                    assert(output@ + flat_items(c.sub_items@.skip(i as int + 1))
                        =~= before + flat_items(c.sub_items@.skip(i as int)));
                }
                i = i + 1;
            }
            proof {
                assert(c.sub_items@.skip(n as int) =~= Seq::<BookItem>::empty());
                assert(output@ + flat_items(c.sub_items@.skip(n as int)) =~= output@);
                assert(mid =~= old(output)@ + (c.content@ + "\n\n"@));
                assert(output@ =~= old(output)@ + flat_item(*item));
            }
        }
        BookItem::Other => {
            proof {
                assert(output@ =~= old(output)@ + flat_item(*item));
            }
        }
    }
}

/// Finds the first top-level item that is a chapter whose name equals
/// `name`, returning its index.
pub fn find_first_match(sections: &Vec<BookItem>, name: &String) -> (r: Option<usize>)
    ensures
        match r {
            Some(i) => {
                &&& i < sections@.len()
                &&& chapter_matches(sections@[i as int], name@)
                &&& forall|j: int| 0 <= j < i ==> !chapter_matches(sections@[j], name@)
            },
            None => forall|j: int| 0 <= j < sections@.len() ==> !chapter_matches(sections@[j], name@),
        },
{
    let n: usize = sections.len();
    let mut i: usize = 0;
    while i < n
        invariant
            i <= n,
            n == sections@.len(),
            forall|j: int| 0 <= j < i ==> !chapter_matches(sections@[j], name@),
        decreases n - i,
    {
        if let BookItem::Chapter(c) = &sections[i] {
            if c.name == *name {
                return Some(i);
            }
        }
        i = i + 1;
    }
    None
}

/// Relates an index found by `find_first_match` to the `first_match` spec.
pub proof fn lemma_first_match_at(items: Seq<BookItem>, name: Seq<char>, i: int)
    requires
        0 <= i < items.len(),
        chapter_matches(items[i], name),
        forall|j: int| 0 <= j < i ==> !chapter_matches(items[j], name),
    ensures
        first_match(items, name) == Some(items[i]),
    decreases i,
{
    if i > 0 {
        assert(!chapter_matches(items[0], name));
        assert(items.drop_first()[i - 1] == items[i]);
        assert(forall|j: int| 0 <= j < i - 1 ==> items.drop_first()[j] == items[j + 1]);
        lemma_first_match_at(items.drop_first(), name, i - 1);
    }
}

/// When no top-level chapter's name equals the filter, nothing is selected.
pub proof fn lemma_first_match_absent(items: Seq<BookItem>, name: Seq<char>)
    requires
        forall|j: int| 0 <= j < items.len() ==> !chapter_matches(items[j], name),
    ensures
        first_match(items, name) is None,
    decreases items.len(),
{
    if items.len() > 0 {
        assert(forall|j: int| 0 <= j < items.drop_first().len()
            ==> items.drop_first()[j] == items[j + 1]);
        lemma_first_match_absent(items.drop_first(), name);
    }
}

/// The tree flattener. Fails exactly when the book has no title; otherwise
/// returns the header followed by the selected chapters' content in
/// depth-first pre-order.
pub fn render_llm_txt_full(ctx: &RenderContext) -> (r: Result<String, RenderError>)
    ensures
        r is Ok <==> ctx.config.title is Some,
        r is Err ==> r->Err_0 == RenderError::MissingTitle,
        r is Ok ==> r->Ok_0@ == full_text(*ctx),
{
    let title = match &ctx.config.title {
        Some(t) => t,
        None => {
            return Err(RenderError::MissingTitle);
        },
    };
    let mut output = String::new();
    push_header(&mut output, title, &ctx.config.description);
    let ghost hdr = output@;
    proof {
        assert(hdr =~= header_of(ctx.config));
    }
    match &ctx.config.only_section {
        None => {
            let n: usize = ctx.sections.len();
            let mut i: usize = 0;
            proof {
                assert(ctx.sections@.skip(0) =~= ctx.sections@);
            }
            while i < n
                invariant
                    i <= n,
                    n == ctx.sections@.len(),
                    output@ + flat_items(ctx.sections@.skip(i as int)) == hdr + flat_items(ctx.sections@),
                decreases n - i,
            {
                let ghost before = output@;
                proof {
                    lemma_flat_items_skip(ctx.sections@, i as int);
                }
                process_book_item(&ctx.sections[i], &mut output);
                proof {
                    assert(output@ + flat_items(ctx.sections@.skip(i as int + 1))
                        =~= before + flat_items(ctx.sections@.skip(i as int)));
                }
                i = i + 1;
            }
            proof {
                assert(ctx.sections@.skip(n as int) =~= Seq::<BookItem>::empty());
                assert(output@ + flat_items(ctx.sections@.skip(n as int)) =~= output@);
                assert(output@ =~= full_text(*ctx));
            }
        },
        Some(name) => {
            match find_first_match(&ctx.sections, name) {
                Some(i) => {
                    proof {
                        lemma_first_match_at(ctx.sections@, name@, i as int);
                    }
                    process_book_item(&ctx.sections[i], &mut output);
                    proof {
                        assert(output@ =~= full_text(*ctx));
                    }
                },
                None => {
                    proof {
                        lemma_first_match_absent(ctx.sections@, name@);
                        assert(hdr + Seq::<char>::empty() =~= hdr);
                        assert(output@ =~= full_text(*ctx));
                    }
                },
            }
        },
    }
    Ok(output)
}

} // verus!
