//! The body of a display: the lines of the text with the annotations placed on them, long
//! runs folded, and an empty line before and behind.

use crate::display_list::{views, DisplayLine, DisplayLineView};
use crate::fold::{fold, folded};
use crate::lines::source_lines;
use crate::placement::{place_annotations, placed};
use crate::snippet::{Snippet, SnippetView};
use vstd::prelude::*;

verus! {

/// `lines` between two empty lines.
pub open spec fn padded(lines: Seq<DisplayLineView>) -> Seq<DisplayLineView> {
    seq![DisplayLineView::EmptySourceLine] + lines + seq![DisplayLineView::EmptySourceLine]
}

/// The body of the display of `snippet` before it is folded and padded.
pub open spec fn unfolded_body_of(snippet: SnippetView) -> Seq<DisplayLineView> {
    placed(snippet.lines(), snippet.line_start, snippet.annotations)
}

/// The body of the display of `snippet`.
pub open spec fn body_of(snippet: SnippetView) -> Seq<DisplayLineView> {
    padded(folded(unfolded_body_of(snippet)))
}

/// Puts an empty line before `lines` and one behind them.
pub fn pad(lines: Vec<DisplayLine>) -> (body: Vec<DisplayLine>)
    ensures
        views(body@) == padded(views(lines@)),
        body.len() == lines.len() + 2,
        body[0]@ is EmptySourceLine,
        body[body.len() - 1]@ is EmptySourceLine,
{
    let mut body = lines;
    body.insert(0, DisplayLine::EmptySourceLine);
    body.push(DisplayLine::EmptySourceLine);
    body
}

/// The body of the display of `snippet`. It begins and ends with an empty line.
pub fn format_body(snippet: Snippet) -> (body: Vec<DisplayLine>)
    requires
        snippet@.valid(),
    ensures
        views(body@) == body_of(snippet@),
        body.len() >= 2,
        body[0]@ is EmptySourceLine,
        body[body.len() - 1]@ is EmptySourceLine,
{
    let lines = source_lines(snippet.slice.source.as_str());
    assert forall|k: int| 0 <= k < snippet.annotations.len() implies (
    #[trigger] snippet.annotations[k])@.ordered() by {
        assert(snippet@.annotations[k] == snippet.annotations[k]@);
    }
    let unfolded = place_annotations(&lines, snippet.slice.line_start, &snippet.annotations);
    pad(fold(unfolded))
}

} // verus!
