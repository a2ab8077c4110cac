use annotate_snippets::display_list::{DisplayAnnotationType, DisplayLine};
use annotate_snippets::fold::{fold, CONTEXT_AFTER, CONTEXT_BEFORE, FOLD_THRESHOLD};

fn source(lineno: usize) -> DisplayLine {
    DisplayLine::SourceLine { lineno, inline_marks: vec![], content: format!("line {}", lineno) }
}

fn caption(label: &str) -> DisplayLine {
    DisplayLine::AnnotationLine {
        inline_marks: vec![],
        range: (0, 1),
        label: label.to_string(),
        annotation_type: DisplayAnnotationType::Error,
    }
}

fn sources(from: usize, to: usize) -> Vec<DisplayLine> {
    (from..=to).map(source).collect()
}

#[test]
fn thresholds_are_ten_five_and_two() {
    assert_eq!(FOLD_THRESHOLD, 10);
    assert_eq!(CONTEXT_AFTER, 5);
    assert_eq!(CONTEXT_BEFORE, 2);
}

#[test]
fn empty_body_stays_empty() {
    assert_eq!(fold(vec![]), vec![]);
}

#[test]
fn body_without_captions_is_not_folded() {
    assert_eq!(fold(sources(1, 40)), sources(1, 40));
}

#[test]
fn run_of_ten_lines_is_not_folded() {
    let mut body = sources(1, 10);
    body.push(caption("a"));
    assert_eq!(fold(body.clone()), body);
}

#[test]
fn run_of_eleven_lines_is_folded() {
    let mut body = sources(1, 11);
    body.push(caption("a"));
    let mut expected = sources(1, 5);
    expected.push(DisplayLine::FoldLine);
    expected.extend(sources(10, 11));
    expected.push(caption("a"));
    assert_eq!(fold(body), expected);
}

#[test]
fn fold_threshold() {
    // Twenty lines, a caption under the first and one under the last.
    let mut body = vec![source(1), caption("first")];
    body.extend(sources(2, 20));
    body.push(caption("last"));
    let mut expected = vec![source(1), caption("first")];
    expected.extend(sources(2, 6));
    expected.push(DisplayLine::FoldLine);
    expected.extend(sources(19, 20));
    expected.push(caption("last"));
    let folded = fold(body);
    assert_eq!(folded, expected);
    let folds = folded.iter().filter(|line| matches!(line, DisplayLine::FoldLine)).count();
    assert_eq!(folds, 1);
}

#[test]
fn lines_behind_the_last_caption_are_not_folded() {
    let mut body = vec![source(1), caption("a")];
    body.extend(sources(2, 30));
    assert_eq!(fold(body.clone()), body);
}

#[test]
fn every_long_run_before_a_caption_is_folded() {
    let mut body = sources(1, 12);
    body.push(caption("a"));
    body.extend(sources(13, 15));
    body.push(caption("b"));
    body.extend(sources(16, 40));
    body.push(caption("c"));
    body.push(caption("d"));
    body.extend(sources(41, 42));

    let mut expected = sources(1, 5);
    expected.push(DisplayLine::FoldLine);
    expected.extend(sources(11, 12));
    expected.push(caption("a"));
    expected.extend(sources(13, 15));
    expected.push(caption("b"));
    expected.extend(sources(16, 20));
    expected.push(DisplayLine::FoldLine);
    expected.extend(sources(39, 40));
    expected.push(caption("c"));
    expected.push(caption("d"));
    expected.extend(sources(41, 42));
    assert_eq!(fold(body), expected);
}

#[test]
fn run_is_counted_anew_behind_each_caption() {
    // Six lines, a caption, six lines, a caption: twelve lines in all, but no run of eleven.
    let mut body = sources(1, 6);
    body.push(caption("a"));
    body.extend(sources(7, 12));
    body.push(caption("b"));
    assert_eq!(fold(body.clone()), body);
}

#[test]
fn lines_of_any_kind_but_captions_make_a_run() {
    let mut body: Vec<DisplayLine> = Vec::new();
    for i in 0..12 {
        body.push(if i % 2 == 0 { DisplayLine::EmptySourceLine } else { DisplayLine::FoldLine });
    }
    body.push(caption("a"));
    let folded = fold(body.clone());
    let mut expected: Vec<DisplayLine> = body[..5].to_vec();
    expected.push(DisplayLine::FoldLine);
    expected.extend(body[10..].to_vec());
    assert_eq!(folded, expected);
}
