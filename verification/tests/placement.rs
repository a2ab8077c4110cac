use annotate_snippets::display_list::{DisplayAnnotationType, DisplayLine, DisplayMark};
use annotate_snippets::lines::source_lines;
use annotate_snippets::placement::{annotate_line, classify, place_annotations, Relation};
use annotate_snippets::snippet::{Annotation, AnnotationType};

fn annotation(start: usize, stop: usize, label: &str) -> Annotation {
    Annotation {
        range: (Some(start), Some(stop)),
        label: Some(label.to_string()),
        id: None,
        annotation_type: AnnotationType::Error,
    }
}

fn source(lineno: usize, marks: Vec<DisplayMark>, content: &str) -> DisplayLine {
    DisplayLine::SourceLine { lineno, inline_marks: marks, content: content.to_string() }
}

fn caption(
    marks: Vec<DisplayMark>,
    range: (usize, usize),
    label: &str,
    kind: DisplayAnnotationType,
) -> DisplayLine {
    DisplayLine::AnnotationLine {
        inline_marks: marks,
        range,
        label: label.to_string(),
        annotation_type: kind,
    }
}

#[test]
fn annotation_behind_the_line_is_not_reached() {
    assert_eq!(classify((Some(10), Some(12)), 0, 4), Relation::NotReached);
    assert_eq!(classify((Some(5), Some(5)), 0, 4), Relation::NotReached);
    assert_eq!(classify((Some(5), None), 0, 4), Relation::NotReached);
}

#[test]
fn annotation_on_the_line_is_contained() {
    assert_eq!(classify((Some(5), Some(9)), 5, 9), Relation::Contained);
    assert_eq!(classify((Some(6), Some(7)), 5, 9), Relation::Contained);
    assert_eq!(classify((Some(9), Some(9)), 5, 9), Relation::Contained);
}

#[test]
fn annotation_that_goes_on_starts() {
    assert_eq!(classify((Some(5), Some(10)), 5, 9), Relation::Starts);
    assert_eq!(classify((Some(9), Some(100)), 5, 9), Relation::Starts);
}

#[test]
fn annotation_over_the_line_passes_through() {
    assert_eq!(classify((Some(4), Some(10)), 5, 9), Relation::Through);
    assert_eq!(classify((Some(0), Some(100)), 5, 9), Relation::Through);
}

#[test]
fn annotation_from_before_ends() {
    assert_eq!(classify((Some(4), Some(5)), 5, 9), Relation::Ends);
    assert_eq!(classify((Some(0), Some(9)), 5, 9), Relation::Ends);
}

#[test]
fn annotation_before_the_line_is_unmatched() {
    assert_eq!(classify((Some(0), Some(4)), 5, 9), Relation::Unmatched);
}

#[test]
fn annotation_without_a_start_or_an_end_is_unmatched() {
    assert_eq!(classify((None, None), 0, 4), Relation::Unmatched);
    assert_eq!(classify((None, Some(2)), 0, 4), Relation::Unmatched);
    assert_eq!(classify((Some(2), None), 0, 4), Relation::Unmatched);
}

#[test]
fn single_line_annotation_placement() {
    let lines = source_lines("abc\ndef\n");
    let body = place_annotations(&lines, 1, &vec![annotation(1, 2, "oops")]);
    assert_eq!(
        body,
        vec![
            source(1, vec![], "abc"),
            caption(vec![], (1, 2), "oops", DisplayAnnotationType::Error),
            source(2, vec![], "def"),
        ]
    );
}

#[test]
fn warning_gets_a_warning_caption() {
    let lines = source_lines("abc\n");
    let warning = Annotation {
        range: (Some(0), Some(3)),
        label: None,
        id: None,
        annotation_type: AnnotationType::Warning,
    };
    let body = place_annotations(&lines, 7, &vec![warning]);
    assert_eq!(
        body,
        vec![
            source(7, vec![], "abc"),
            caption(vec![], (0, 3), "", DisplayAnnotationType::Warning),
        ]
    );
}

#[test]
fn multi_line_annotation_bracketing() {
    let lines = source_lines("abc\ndef\n");
    let body = place_annotations(&lines, 1, &vec![annotation(0, 7, "both")]);
    assert_eq!(
        body,
        vec![
            source(1, vec![DisplayMark::AnnotationStart], "abc"),
            source(2, vec![DisplayMark::AnnotationThrough], "def"),
            caption(
                vec![DisplayMark::AnnotationThrough],
                (2, 3),
                "both",
                DisplayAnnotationType::MultilineEnd
            ),
        ]
    );
}

#[test]
fn multi_line_annotation_starting_mid_line() {
    let lines = source_lines("abc\ndef\nghi\n");
    let body = place_annotations(&lines, 1, &vec![annotation(1, 12, "long")]);
    assert_eq!(
        body,
        vec![
            source(1, vec![], "abc"),
            caption(
                vec![DisplayMark::AnnotationThrough],
                (1, 2),
                "long",
                DisplayAnnotationType::MultilineStart
            ),
            source(2, vec![DisplayMark::AnnotationThrough], "def"),
            source(3, vec![DisplayMark::AnnotationThrough], "ghi"),
            caption(
                vec![DisplayMark::AnnotationThrough],
                (2, 3),
                "long",
                DisplayAnnotationType::MultilineEnd
            ),
        ]
    );
}

#[test]
fn captions_of_one_line_stand_in_the_order_of_the_annotations() {
    let lines = source_lines("abcdef\n");
    let body =
        place_annotations(&lines, 1, &vec![annotation(4, 5, "second"), annotation(0, 1, "first")]);
    assert_eq!(
        body,
        vec![
            source(1, vec![], "abcdef"),
            caption(vec![], (4, 5), "second", DisplayAnnotationType::Error),
            caption(vec![], (0, 1), "first", DisplayAnnotationType::Error),
        ]
    );
}

#[test]
fn mark_is_put_on_the_source_line_behind_a_caption_too() {
    let lines = source_lines("abc\ndef\nghi\n");
    let annotations = vec![annotation(6, 7, "inner"), annotation(1, 12, "outer")];
    let body = place_annotations(&lines, 1, &annotations);
    assert_eq!(
        body,
        vec![
            source(1, vec![], "abc"),
            caption(
                vec![DisplayMark::AnnotationThrough],
                (1, 2),
                "outer",
                DisplayAnnotationType::MultilineStart
            ),
            source(2, vec![DisplayMark::AnnotationThrough], "def"),
            caption(vec![], (1, 2), "inner", DisplayAnnotationType::Error),
            source(3, vec![DisplayMark::AnnotationThrough], "ghi"),
            caption(
                vec![DisplayMark::AnnotationThrough],
                (2, 3),
                "outer",
                DisplayAnnotationType::MultilineEnd
            ),
        ]
    );
}

#[test]
fn marks_of_one_line_stand_in_the_order_of_the_annotations() {
    let annotations = vec![annotation(0, 20, "a"), annotation(5, 20, "b"), annotation(2, 6, "c")];
    let (marks, captions) = annotate_line(&annotations, 5, 9);
    assert_eq!(
        marks,
        vec![
            DisplayMark::AnnotationThrough,
            DisplayMark::AnnotationStart,
            DisplayMark::AnnotationThrough
        ]
    );
    assert_eq!(
        captions,
        vec![caption(
            vec![DisplayMark::AnnotationThrough],
            (1, 2),
            "c",
            DisplayAnnotationType::MultilineEnd
        )]
    );
}

#[test]
fn annotation_without_a_place_is_not_laid_out() {
    let lines = source_lines("abc\ndef\n");
    let unplaced = Annotation {
        range: (None, None),
        label: Some("title".to_string()),
        id: Some("E1".to_string()),
        annotation_type: AnnotationType::Error,
    };
    let half = Annotation {
        range: (Some(1), None),
        label: None,
        id: None,
        annotation_type: AnnotationType::Warning,
    };
    let body = place_annotations(&lines, 1, &vec![unplaced, half]);
    assert_eq!(body, vec![source(1, vec![], "abc"), source(2, vec![], "def")]);
}

#[test]
fn offsets_count_two_between_lines() {
    let lines = source_lines("ab\ncd\n");
    // The first line takes the offsets 0 to 3, the second the offsets 4 to 7.
    let body = place_annotations(&lines, 1, &vec![annotation(3, 3, "x"), annotation(4, 4, "y")]);
    assert_eq!(
        body,
        vec![
            source(1, vec![], "ab"),
            caption(vec![], (3, 3), "x", DisplayAnnotationType::Error),
            source(2, vec![], "cd"),
            caption(vec![], (0, 0), "y", DisplayAnnotationType::Error),
        ]
    );
}

#[test]
fn unfolded_body_has_one_source_line_for_each_line() {
    let text = "a\nb\nc\nd\ne\n";
    let lines = source_lines(text);
    let annotations = vec![annotation(0, 1, "x"), annotation(4, 10, "y"), annotation(1, 7, "z")];
    let body = place_annotations(&lines, 3, &annotations);
    let sources: Vec<&DisplayLine> =
        body.iter().filter(|line| matches!(line, DisplayLine::SourceLine { .. })).collect();
    assert_eq!(sources.len(), text.lines().count());
    for (i, line) in sources.iter().enumerate() {
        match line {
            DisplayLine::SourceLine { lineno, content, .. } => {
                assert_eq!(*lineno, 3 + i);
                assert_eq!(content, &lines[i]);
            }
            _ => unreachable!(),
        }
    }
}
