//! The display lines that a laid-out snippet consists of.

use crate::body::{body_of, format_body};
use crate::header::{format_header, header_of};
use crate::snippet::{AnnotationType, Snippet, SnippetError, SnippetView};
use vstd::prelude::*;

verus! {

/// A glyph in the left margin of a source line.
#[derive(Debug, Clone, Copy, PartialEq, Eq, Structural)]
pub enum DisplayMark {
    /// An annotation passes through this line, or ends on it.
    AnnotationThrough,
    /// An annotation over several lines begins at the first column of this line.
    AnnotationStart,
}

/// What kind of caption an annotation line is.
#[derive(Debug, Clone, Copy, PartialEq, Eq, Structural)]
pub enum DisplayAnnotationType {
    /// The caption of an error that lies within one line.
    Error,
    /// The caption of a warning that lies within one line.
    Warning,
    /// The caption under the line on which an annotation over several lines begins.
    MultilineStart,
    /// The caption under the line on which an annotation over several lines ends.
    MultilineEnd,
}

/// One line of the display.
#[derive(Debug, PartialEq, Eq)]
pub enum DisplayLine {
    /// A line of the header, to be shown as it stands.
    RawLine(String),
    /// An empty line of the body.
    EmptySourceLine,
    /// A line of the source text.
    SourceLine { lineno: usize, inline_marks: Vec<DisplayMark>, content: String },
    /// A caption under a source line. `range` holds the columns that it points at.
    AnnotationLine {
        inline_marks: Vec<DisplayMark>,
        range: (usize, usize),
        label: String,
        annotation_type: DisplayAnnotationType,
    },
    /// Stands for source lines that are left out.
    FoldLine,
}

/// The lines of a display, from top to bottom.
#[derive(Debug, PartialEq, Eq)]
pub struct DisplayList {
    pub body: Vec<DisplayLine>,
}

/// A display line as a mathematical value.
pub enum DisplayLineView {
    RawLine(Seq<char>),
    EmptySourceLine,
    SourceLine { lineno: int, inline_marks: Seq<DisplayMark>, content: Seq<char> },
    AnnotationLine {
        inline_marks: Seq<DisplayMark>,
        range: (int, int),
        label: Seq<char>,
        annotation_type: DisplayAnnotationType,
    },
    FoldLine,
}

impl View for DisplayLine {
    type V = DisplayLineView;

    open spec fn view(&self) -> DisplayLineView {
        match *self {
            DisplayLine::RawLine(text) => DisplayLineView::RawLine(text@),
            DisplayLine::EmptySourceLine => DisplayLineView::EmptySourceLine,
            DisplayLine::SourceLine { lineno, inline_marks, content } => {
                DisplayLineView::SourceLine {
                    lineno: lineno as int,
                    inline_marks: inline_marks@,
                    content: content@,
                }
            },
            DisplayLine::AnnotationLine { inline_marks, range, label, annotation_type } => {
                DisplayLineView::AnnotationLine {
                    inline_marks: inline_marks@,
                    range: (range.0 as int, range.1 as int),
                    label: label@,
                    annotation_type,
                }
            },
            DisplayLine::FoldLine => DisplayLineView::FoldLine,
        }
    }
}

/// The lines of `lines` as mathematical values.
pub open spec fn views(lines: Seq<DisplayLine>) -> Seq<DisplayLineView> {
    lines.map_values(|line: DisplayLine| line@)
}

impl View for DisplayList {
    type V = Seq<DisplayLineView>;

    open spec fn view(&self) -> Seq<DisplayLineView> {
        views(self.body@)
    }
}

impl Clone for DisplayLine {
    fn clone(&self) -> (copy: DisplayLine)
        ensures
            copy@ == self@,
    {
        match self {
            DisplayLine::RawLine(text) => DisplayLine::RawLine(text.clone()),
            DisplayLine::EmptySourceLine => DisplayLine::EmptySourceLine,
            DisplayLine::SourceLine { lineno, inline_marks, content } => {
                DisplayLine::SourceLine {
                    lineno: *lineno,
                    inline_marks: inline_marks.clone(),
                    content: content.clone(),
                }
            },
            DisplayLine::AnnotationLine { inline_marks, range, label, annotation_type } => {
                DisplayLine::AnnotationLine {
                    inline_marks: inline_marks.clone(),
                    range: *range,
                    label: label.clone(),
                    annotation_type: *annotation_type,
                }
            },
            DisplayLine::FoldLine => DisplayLine::FoldLine,
        }
    }
}

impl DisplayMark {
    /// The glyph that stands for the mark.
    pub open spec fn glyph(self) -> Seq<char> {
        match self {
            DisplayMark::AnnotationThrough => seq!['|'],
            DisplayMark::AnnotationStart => seq!['/'],
        }
    }

    /// The glyph of the mark as a string.
    pub fn to_string(&self) -> (text: String)
        ensures
            text@ == self.glyph(),
    {
        let mut text = String::new();
        match self {
            DisplayMark::AnnotationThrough => text.push('|'),
            DisplayMark::AnnotationStart => text.push('/'),
        }
        text
    }
}

/// The kind of the caption of an annotation that lies within one line: the annotation's own.
pub open spec fn single_line_kind(at: AnnotationType) -> DisplayAnnotationType {
    match at {
        AnnotationType::Error => DisplayAnnotationType::Error,
        AnnotationType::Warning => DisplayAnnotationType::Warning,
    }
}

impl From<AnnotationType> for DisplayAnnotationType {
    fn from(at: AnnotationType) -> (kind: DisplayAnnotationType) {
        match at {
            AnnotationType::Error => DisplayAnnotationType::Error,
            AnnotationType::Warning => DisplayAnnotationType::Warning,
        }
    }
}

impl vstd::std_specs::convert::FromSpecImpl<AnnotationType> for DisplayAnnotationType {
    open spec fn obeys_from_spec() -> bool {
        true
    }

    open spec fn from_spec(at: AnnotationType) -> DisplayAnnotationType {
        single_line_kind(at)
    }
}

/// The display of `snippet`: its header, then its body.
pub open spec fn display_of(snippet: SnippetView) -> Seq<DisplayLineView> {
    header_of(snippet) + body_of(snippet)
}

impl DisplayList {
    /// Lays out `snippet`, which has to be valid; `checked_from` takes any snippet.
    pub fn from(snippet: Snippet) -> (list: DisplayList)
        requires
            snippet@.valid(),
        ensures
            list@ == display_of(snippet@),
    {
        let mut lines = format_header(&snippet);
        let mut body = format_body(snippet);
        lines.append(&mut body);
        DisplayList { body: lines }
    }

    /// Lays out `snippet` where it is valid, and says what is wrong with it where it is not.
    pub fn checked_from(snippet: Snippet) -> (outcome: Result<DisplayList, SnippetError>)
        ensures
            match outcome {
                Ok(list) => snippet@.valid() && list@ == display_of(snippet@),
                Err(error) => !snippet@.valid() && snippet@.verdict() == Err::<(), SnippetError>(
                    error,
                ),
            },
    {
        match snippet.validate() {
            Ok(()) => Ok(DisplayList::from(snippet)),
            Err(error) => Err(error),
        }
    }
}

} // verus!
