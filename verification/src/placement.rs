//! Placing annotations on the lines of the text: the marks in the margin of a source line
//! and the captions under it.

use crate::display_list::{
    single_line_kind, views, DisplayAnnotationType, DisplayLine, DisplayLineView, DisplayMark,
};
use crate::lines::{lemma_lines_in_order, line_begin, line_end, text_extent};
use crate::snippet::{annotation_views, position, Annotation, AnnotationView};
use vstd::prelude::*;

verus! {

/// How an annotation lies to a line.
#[derive(Debug, Clone, Copy, PartialEq, Eq, Structural)]
pub enum Relation {
    /// The annotation starts behind the line.
    NotReached,
    /// The annotation starts and ends on the line.
    Contained,
    /// The annotation starts on the line and ends behind it.
    Starts,
    /// The annotation starts before the line and ends behind it.
    Through,
    /// The annotation starts before the line and ends on it.
    Ends,
    /// None of these: the annotation ends before the line, or lacks a start or an end.
    Unmatched,
}

/// How an annotation over `range` lies to the line that takes the offsets from `lo` to `hi`,
/// both included.
pub open spec fn relation(range: (Option<int>, Option<int>), lo: int, hi: int) -> Relation {
    match range {
        (Some(start), Some(stop)) => {
            if start > hi {
                Relation::NotReached
            } else if lo <= start && stop <= hi {
                Relation::Contained
            } else if lo <= start && stop > hi {
                Relation::Starts
            } else if start < lo && stop > hi {
                Relation::Through
            } else if start < lo && lo <= stop {
                Relation::Ends
            } else {
                Relation::Unmatched
            }
        },
        (Some(start), None) => {
            if start > hi {
                Relation::NotReached
            } else {
                Relation::Unmatched
            }
        },
        _ => Relation::Unmatched,
    }
}

/// How an annotation over `range` lies to the line from `lo` to `hi`.
pub fn classify(range: (Option<usize>, Option<usize>), lo: usize, hi: usize) -> (r: Relation)
    ensures
        r == relation((position(range.0), position(range.1)), lo as int, hi as int),
{
    match range {
        (Some(start), Some(stop)) => {
            if start > hi {
                Relation::NotReached
            } else if lo <= start && stop <= hi {
                Relation::Contained
            } else if lo <= start && stop > hi {
                Relation::Starts
            } else if start < lo && stop > hi {
                Relation::Through
            } else if start < lo && lo <= stop {
                Relation::Ends
            } else {
                Relation::Unmatched
            }
        },
        (Some(start), None) => {
            if start > hi {
                Relation::NotReached
            } else {
                Relation::Unmatched
            }
        },
        _ => Relation::Unmatched,
    }
}

/// The marks that annotation `a` puts in the margin of the line from `lo` to `hi`: the start
/// mark where it starts at the first column and goes on, the through mark where it passes
/// through the line or ends on it.
pub open spec fn marks_from(a: AnnotationView, lo: int, hi: int) -> Seq<DisplayMark> {
    match relation(a.range, lo, hi) {
        Relation::Starts => if a.range.0->0 == lo {
            seq![DisplayMark::AnnotationStart]
        } else {
            Seq::empty()
        },
        Relation::Through => seq![DisplayMark::AnnotationThrough],
        Relation::Ends => seq![DisplayMark::AnnotationThrough],
        _ => Seq::empty(),
    }
}

/// The captions that annotation `a` puts under the line from `lo` to `hi`.
///
/// An annotation within the line gets one caption, over its own columns and of its own kind.
/// One that goes on behind the line gets a caption at the column where it starts, unless
/// that is the first column. One that ends on the line gets a caption at the column where it
/// ends. The columns count from the start of the line.
pub open spec fn captions_from(a: AnnotationView, lo: int, hi: int) -> Seq<DisplayLineView> {
    match relation(a.range, lo, hi) {
        Relation::Contained => seq![
            DisplayLineView::AnnotationLine {
                inline_marks: Seq::empty(),
                range: (a.range.0->0 - lo, a.range.1->0 - lo),
                label: a.caption(),
                annotation_type: single_line_kind(a.annotation_type),
            },
        ],
        Relation::Starts => if a.range.0->0 == lo {
            Seq::empty()
        } else {
            seq![
                DisplayLineView::AnnotationLine {
                    inline_marks: seq![DisplayMark::AnnotationThrough],
                    range: (a.range.0->0 - lo, a.range.0->0 - lo + 1),
                    label: a.caption(),
                    annotation_type: DisplayAnnotationType::MultilineStart,
                },
            ]
        },
        Relation::Ends => seq![
            DisplayLineView::AnnotationLine {
                inline_marks: seq![DisplayMark::AnnotationThrough],
                range: (a.range.1->0 - lo, a.range.1->0 - lo + 1),
                label: a.caption(),
                annotation_type: DisplayAnnotationType::MultilineEnd,
            },
        ],
        _ => Seq::empty(),
    }
}

/// `marks_from` for the line from `lo` to `hi`, as a function of the annotation.
pub open spec fn marks_on(lo: int, hi: int) -> spec_fn(AnnotationView) -> Seq<DisplayMark> {
    |a: AnnotationView| marks_from(a, lo, hi)
}

/// `captions_from` for the line from `lo` to `hi`, as a function of the annotation.
pub open spec fn captions_on(lo: int, hi: int) -> spec_fn(AnnotationView) -> Seq<
    DisplayLineView,
> {
    |a: AnnotationView| captions_from(a, lo, hi)
}

/// The source line that stands for line `i` of the text, of which the first line has the
/// number `first`: it holds the marks of all the annotations, in the order of the annotations.
pub open spec fn source_line(
    lines: Seq<Seq<char>>,
    first: int,
    annotations: Seq<AnnotationView>,
    i: int,
) -> DisplayLineView {
    DisplayLineView::SourceLine {
        lineno: first + i,
        inline_marks: annotations.flat_map(marks_on(line_begin(lines, i), line_end(lines, i))),
        content: lines[i],
    }
}

/// Line `i` of the text as it is displayed: its source line, and under it the captions of
/// all the annotations, in the order of the annotations.
pub open spec fn block(
    lines: Seq<Seq<char>>,
    first: int,
    annotations: Seq<AnnotationView>,
    i: int,
) -> Seq<DisplayLineView> {
    seq![source_line(lines, first, annotations, i)] + annotations.flat_map(
        captions_on(line_begin(lines, i), line_end(lines, i)),
    )
}

/// The blocks of all the lines.
pub open spec fn blocks(lines: Seq<Seq<char>>, first: int, annotations: Seq<AnnotationView>) -> Seq<
    Seq<DisplayLineView>,
> {
    Seq::new(lines.len(), |i: int| block(lines, first, annotations, i))
}

/// The text with its annotations placed: the blocks of all the lines, one after the other.
pub open spec fn placed(lines: Seq<Seq<char>>, first: int, annotations: Seq<AnnotationView>) -> Seq<
    DisplayLineView,
> {
    blocks(lines, first, annotations).flatten()
}

/// What `annotation` says, as a string of its own.
fn caption_of(annotation: &Annotation) -> (text: String)
    ensures
        text@ == annotation@.caption(),
{
    match &annotation.label {
        Some(label) => label.clone(),
        None => String::new(),
    }
}

/// The marks and the captions that `annotations` put on the line from `lo` to `hi`.
pub fn annotate_line(annotations: &Vec<Annotation>, lo: usize, hi: usize) -> (on_line: (
    Vec<DisplayMark>,
    Vec<DisplayLine>,
))
    requires
        hi < usize::MAX,
        forall|k: int| 0 <= k < annotations.len() ==> (#[trigger] annotations[k])@.ordered(),
    ensures
        on_line.0@ == annotation_views(annotations@).flat_map(marks_on(lo as int, hi as int)),
        views(on_line.1@) == annotation_views(annotations@).flat_map(
            captions_on(lo as int, hi as int),
        ),
{
    let ghost all = annotation_views(annotations@);
    let mut marks: Vec<DisplayMark> = Vec::new();
    let mut captions: Vec<DisplayLine> = Vec::new();
    let mut k: usize = 0;
    while k < annotations.len()
        invariant
            hi < usize::MAX,
            k <= annotations.len(),
            all == annotation_views(annotations@),
            forall|j: int| 0 <= j < annotations.len() ==> (#[trigger] annotations[j])@.ordered(),
            marks@ == all.take(k as int).flat_map(marks_on(lo as int, hi as int)),
            views(captions@) == all.take(k as int).flat_map(captions_on(lo as int, hi as int)),
        decreases annotations.len() - k,
    {
        let annotation = &annotations[k];
        proof {
            all.lemma_flat_map_take_append(marks_on(lo as int, hi as int), k as int);
            all.lemma_flat_map_take_append(captions_on(lo as int, hi as int), k as int);
        }
        match classify(annotation.range, lo, hi) {
            Relation::Contained => {
                let start = annotation.range.0.unwrap();
                let stop = annotation.range.1.unwrap();
                captions.push(
                    DisplayLine::AnnotationLine {
                        inline_marks: Vec::new(),
                        range: (start - lo, stop - lo),
                        label: caption_of(annotation),
                        annotation_type: DisplayAnnotationType::from(annotation.annotation_type),
                    },
                );
            },
            Relation::Starts => {
                let start = annotation.range.0.unwrap();
                if start == lo {
                    marks.push(DisplayMark::AnnotationStart);
                } else {
                    let mut through: Vec<DisplayMark> = Vec::new();
                    through.push(DisplayMark::AnnotationThrough);
                    captions.push(
                        DisplayLine::AnnotationLine {
                            inline_marks: through,
                            range: (start - lo, start - lo + 1),
                            label: caption_of(annotation),
                            annotation_type: DisplayAnnotationType::MultilineStart,
                        },
                    );
                }
            },
            Relation::Through => {
                marks.push(DisplayMark::AnnotationThrough);
            },
            Relation::Ends => {
                let stop = annotation.range.1.unwrap();
                marks.push(DisplayMark::AnnotationThrough);
                let mut through: Vec<DisplayMark> = Vec::new();
                through.push(DisplayMark::AnnotationThrough);
                captions.push(
                    DisplayLine::AnnotationLine {
                        inline_marks: through,
                        range: (stop - lo, stop - lo + 1),
                        label: caption_of(annotation),
                        annotation_type: DisplayAnnotationType::MultilineEnd,
                    },
                );
            },
            _ => {},
        }
        k += 1;
    }
    assert(all.take(k as int) =~= all);
    (marks, captions)
}

/// Places `annotations` on `lines`, of which the first has the number `first`.
pub fn place_annotations(lines: &Vec<String>, first: usize, annotations: &Vec<Annotation>) -> (body:
    Vec<DisplayLine>)
    requires
        first + lines.len() <= usize::MAX,
        text_extent(lines.deep_view()) <= usize::MAX,
        forall|k: int| 0 <= k < annotations.len() ==> (#[trigger] annotations[k])@.ordered(),
    ensures
        views(body@) == placed(lines.deep_view(), first as int, annotation_views(annotations@)),
{
    let ghost texts = lines.deep_view();
    let ghost all = annotation_views(annotations@);
    let ghost parts = blocks(texts, first as int, all);
    let mut body: Vec<DisplayLine> = Vec::new();
    let mut lo: usize = 0;
    let mut i: usize = 0;
    while i < lines.len()
        invariant
            i <= lines.len(),
            first + lines.len() <= usize::MAX,
            texts == lines.deep_view(),
            all == annotation_views(annotations@),
            parts == blocks(texts, first as int, all),
            text_extent(texts) <= usize::MAX,
            forall|k: int| 0 <= k < annotations.len() ==> (#[trigger] annotations[k])@.ordered(),
            lo == line_begin(texts, i as int),
            views(body@) == parts.take(i as int).flatten(),
        decreases lines.len() - i,
    {
        let content = lines[i].clone();
        let length = content.as_str().unicode_len();
        proof {
            lemma_lines_in_order(texts, i as int, texts.len() as int);
        }
        let hi = lo + length + 1;
        let (inline_marks, mut captions) = annotate_line(annotations, lo, hi);
        body.push(DisplayLine::SourceLine { lineno: first + i, inline_marks, content });
        body.append(&mut captions);
        proof {
            assert(parts.take(i as int + 1) =~= parts.take(i as int).push(parts[i as int]));
            parts.take(i as int).lemma_flatten_push(parts[i as int]);
        }
        lo = hi + 1;
        i += 1;
    }
    assert(parts.take(i as int) =~= parts);
    body
}

} // verus!
