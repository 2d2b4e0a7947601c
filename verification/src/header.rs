//! The output header shared by both renderers: an H1 line with the book
//! title, then, when a description is configured, a blockquote line with it.

use vstd::prelude::*;
use vstd::string::StringExecFns;
use crate::book::RenderConfig;

verus! {

/// The header: `# {title}\n\n`, then `> {description}\n\n` when a description
/// is present.
pub open spec fn header_text(title: String, description: Option<String>) -> Seq<char> {
    match description {
        Some(d) => "# "@ + title@ + "\n\n"@ + "> "@ + d@ + "\n\n"@,
        None => "# "@ + title@ + "\n\n"@,
    }
}

/// The header of a configuration, read from its (required) title and its
/// optional description.
pub open spec fn header_of(config: RenderConfig) -> Seq<char>
    recommends
        config.title is Some,
{
    header_text(config.title->Some_0, config.description)
}

/// Appends the header to `output`.
pub fn push_header(output: &mut String, title: &String, description: &Option<String>)
    ensures
        final(output)@ == old(output)@ + header_text(*title, *description),
{
    output.append("# ");
    output.append(title.as_str());
    output.append("\n\n");
    if let Some(d) = description {
        output.append("> ");
        output.append(d.as_str());
        output.append("\n\n");
        proof {
            assert(output@ =~= old(output)@ + ("# "@ + title@ + "\n\n"@ + "> "@ + d@ + "\n\n"@));
        }
    } else {
        proof {
            assert(output@ =~= old(output)@ + ("# "@ + title@ + "\n\n"@));
        }
    }
}

} // verus!
