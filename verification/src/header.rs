//! The header of a display: the title line and the location line.

use crate::display_list::{views, DisplayLine, DisplayLineView};
use crate::snippet::{Annotation, AnnotationType, AnnotationView, Snippet, SnippetView};
use vstd::prelude::*;

verus! {

/// The row that the location line of a header shows. Where the main annotation stands in
/// its file is not worked out from its offsets: the header holds this row and
/// `PLACEHOLDER_COLUMN` in place of the true ones. A caller that knows them can make the line
/// with `location_line`.
pub const PLACEHOLDER_ROW: usize = 52;

/// The column that the location line of a header shows.
pub const PLACEHOLDER_COLUMN: usize = 1;

/// The character of the digit `d`: the digits stand one behind the other from `'0'` on.
pub open spec fn digit(d: int) -> char {
    ('0' as u8 + d) as u8 as char
}

/// The decimal numeral of `n`, without leading zeros.
pub open spec fn decimal(n: nat) -> Seq<char>
    decreases n,
{
    if n < 10 {
        seq![digit(n as int)]
    } else {
        decimal(n / 10).push(digit((n % 10) as int))
    }
}

/// The decimal numeral of `n` as a string.
pub fn decimal_string(n: usize) -> (text: String)
    ensures
        text@ == decimal(n as nat),
    decreases n,
{
    let mut text = if n < 10 {
        String::new()
    } else {
        decimal_string(n / 10)
    };
    let d = (n % 10) as u8;
    text.push(('0' as u8 + d) as char);
    text
}

/// The name of a kind of annotation in the title line.
pub open spec fn severity_name(at: AnnotationType) -> Seq<char> {
    match at {
        AnnotationType::Error => "error"@,
        AnnotationType::Warning => "warning"@,
    }
}

/// The code that the title line shows: the annotation's own, or `E0000` where it has none.
pub open spec fn code_of(a: AnnotationView) -> Seq<char> {
    match a.id {
        Some(id) => id,
        None => "E0000"@,
    }
}

/// The title line for annotation `a`: its kind, its code in square brackets, a colon and a
/// blank, and its label.
pub open spec fn title_text(a: AnnotationView) -> Seq<char> {
    severity_name(a.annotation_type) + "["@ + code_of(a) + "]: "@ + a.caption()
}

/// The location line for a place in the text that comes from `origin`: an arrow, the origin
/// (nothing where the text has none), the row and the column, with a colon before each.
pub open spec fn location_text(origin: Option<Seq<char>>, row: nat, column: nat) -> Seq<char> {
    "  --> "@ + (match origin {
        Some(path) => path,
        None => Seq::empty(),
    }) + ":"@ + decimal(row) + ":"@ + decimal(column)
}

/// The annotation at `pos`, where `pos` is present and an index into `annotations`.
pub open spec fn chosen(annotations: Seq<AnnotationView>, pos: Option<int>) -> Option<
    AnnotationView,
> {
    match pos {
        Some(p) => if 0 <= p < annotations.len() {
            Some(annotations[p])
        } else {
            None
        },
        None => None,
    }
}

/// The header of the display of `snippet`: the title line where the snippet has a title
/// annotation, then the location line where it has a main annotation. Which annotation the
/// main one is does not matter to the line, which shows the placeholders.
pub open spec fn header_of(snippet: SnippetView) -> Seq<DisplayLineView> {
    (match chosen(snippet.annotations, snippet.title_annotation_pos) {
        Some(a) => seq![DisplayLineView::RawLine(title_text(a))],
        None => Seq::empty(),
    }) + (match chosen(snippet.annotations, snippet.main_annotation_pos) {
        Some(_) => seq![
            DisplayLineView::RawLine(
                location_text(snippet.origin, PLACEHOLDER_ROW as nat, PLACEHOLDER_COLUMN as nat),
            ),
        ],
        None => Seq::empty(),
    })
}

/// The annotation of `annotations` at `pos`.
fn annotation_at(annotations: &Vec<Annotation>, pos: Option<usize>) -> (found: Option<&Annotation>)
    ensures
        found is Some <==> pos is Some && pos.unwrap() < annotations.len(),
        found is Some ==> *found.unwrap() == annotations[pos.unwrap() as int],
{
    match pos {
        Some(p) => if p < annotations.len() {
            Some(&annotations[p])
        } else {
            None
        },
        None => None,
    }
}

/// The title line for `annotation`.
pub fn title_line(annotation: &Annotation) -> (text: String)
    ensures
        text@ == title_text(annotation@),
{
    let mut text = match annotation.annotation_type {
        AnnotationType::Error => String::from_str("error"),
        AnnotationType::Warning => String::from_str("warning"),
    };
    text.append("[");
    match &annotation.id {
        Some(id) => text.append(id.as_str()),
        None => text.append("E0000"),
    }
    text.append("]: ");
    match &annotation.label {
        Some(label) => text.append(label.as_str()),
        None => {},
    }
    text
}

/// The location line for a place in the text that comes from `origin`.
pub fn location_line(origin: &Option<String>, row: usize, column: usize) -> (text: String)
    ensures
        text@ == location_text(origin.deep_view(), row as nat, column as nat),
{
    let mut text = String::from_str("  --> ");
    match origin {
        Some(path) => text.append(path.as_str()),
        None => {},
    }
    text.append(":");
    text.append(decimal_string(row).as_str());
    text.append(":");
    text.append(decimal_string(column).as_str());
    text
}

/// The header of the display of `snippet`.
pub fn format_header(snippet: &Snippet) -> (header: Vec<DisplayLine>)
    ensures
        views(header@) == header_of(snippet@),
{
    let mut header: Vec<DisplayLine> = Vec::new();
    if let Some(annotation) = annotation_at(&snippet.annotations, snippet.title_annotation_pos) {
        header.push(DisplayLine::RawLine(title_line(annotation)));
    }
    if let Some(_) = annotation_at(&snippet.annotations, snippet.main_annotation_pos) {
        header.push(
            DisplayLine::RawLine(
                location_line(&snippet.slice.origin, PLACEHOLDER_ROW, PLACEHOLDER_COLUMN),
            ),
        );
    }
    header
}

} // verus!
