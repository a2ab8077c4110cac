//! What holds of every display.

use crate::body::{body_of, unfolded_body_of};
use crate::display_list::{
    display_of, single_line_kind, DisplayAnnotationType, DisplayLineView, DisplayList, DisplayMark,
};
use crate::fold::{collapsed, folded, is_caption, CONTEXT_AFTER, CONTEXT_BEFORE, FOLD_THRESHOLD};
use crate::header::{header_of, title_text};
use crate::lines::{lemma_lines_in_order, line_begin, line_end, text_extent};
use crate::placement::{
    block, blocks, captions_from, captions_on, marks_from, placed, relation, source_line,
};
use crate::scan::{first_where, lemma_first_where, lemma_first_where_unique};
use crate::snippet::{AnnotationType, AnnotationView, Snippet, SnippetView};
use vstd::prelude::*;

verus! {

/// Holds for the source lines and for no other line.
pub open spec fn is_source() -> spec_fn(DisplayLineView) -> bool {
    |line: DisplayLineView| line is SourceLine
}

/// The source lines that stand for the lines of the text.
pub open spec fn source_lines_for(
    lines: Seq<Seq<char>>,
    first: int,
    annotations: Seq<AnnotationView>,
) -> Seq<DisplayLineView> {
    Seq::new(lines.len(), |i: int| source_line(lines, first, annotations, i))
}

/// The captions under a line are annotation lines, all of them.
pub proof fn lemma_captions_are_annotation_lines(
    annotations: Seq<AnnotationView>,
    lo: int,
    hi: int,
)
    ensures
        forall|k: int|
            0 <= k < annotations.flat_map(captions_on(lo, hi)).len() ==> (
            #[trigger] annotations.flat_map(captions_on(lo, hi))[k]) is AnnotationLine,
    decreases annotations.len(),
{
    if annotations.len() > 0 {
        let before = annotations.drop_last();
        lemma_captions_are_annotation_lines(before, lo, hi);
        before.lemma_flat_map_push(captions_on(lo, hi), annotations.last());
        assert(before.push(annotations.last()) =~= annotations);
    }
}

/// The block of a line holds one source line, which stands first.
pub proof fn lemma_block_has_one_source_line(
    lines: Seq<Seq<char>>,
    first: int,
    annotations: Seq<AnnotationView>,
    i: int,
)
    ensures
        block(lines, first, annotations, i).filter(is_source()) == seq![
            source_line(lines, first, annotations, i),
        ],
{
    let lo = line_begin(lines, i);
    let hi = line_end(lines, i);
    let head = seq![source_line(lines, first, annotations, i)];
    let under = annotations.flat_map(captions_on(lo, hi));
    lemma_captions_are_annotation_lines(annotations, lo, hi);
    Seq::filter_distributes_over_add(head, under, is_source());
    under.lemma_all_neg_filter_empty(is_source());
    assert(head.filter(is_source()) =~= head) by {
        Seq::<DisplayLineView>::empty().lemma_filter_push(head[0], is_source());
        assert(Seq::<DisplayLineView>::empty().filter(is_source()) =~= Seq::empty()) by {
            reveal(Seq::filter);
        }
    }
}

/// The source lines among the blocks of the first `n` lines are the source lines that stand
/// for those lines, in their order.
proof fn lemma_source_lines_of_blocks(
    lines: Seq<Seq<char>>,
    first: int,
    annotations: Seq<AnnotationView>,
    n: int,
)
    requires
        0 <= n <= lines.len(),
    ensures
        blocks(lines, first, annotations).take(n).flatten().filter(is_source())
            == source_lines_for(lines, first, annotations).take(n),
    decreases n,
{
    let parts = blocks(lines, first, annotations);
    if n == 0 {
        assert(Seq::<DisplayLineView>::empty().filter(is_source()) =~= Seq::empty()) by {
            reveal(Seq::filter);
        }
    } else {
        lemma_source_lines_of_blocks(lines, first, annotations, n - 1);
        assert(parts.take(n) =~= parts.take(n - 1).push(parts[n - 1]));
        parts.take(n - 1).lemma_flatten_push(parts[n - 1]);
        Seq::filter_distributes_over_add(
            parts.take(n - 1).flatten(),
            parts[n - 1],
            is_source(),
        );
        lemma_block_has_one_source_line(lines, first, annotations, n - 1);
    }
}

/// Before it is folded, the body of a display holds as many source lines as the text has
/// lines: one for each line and in the order of the lines, each with the number and the text
/// of its line.
pub proof fn lemma_one_source_line_for_each_line(snippet: SnippetView)
    ensures
        unfolded_body_of(snippet).filter(is_source()).len() == snippet.lines().len(),
        unfolded_body_of(snippet).filter(is_source()) == source_lines_for(
            snippet.lines(),
            snippet.line_start,
            snippet.annotations,
        ),
{
    let lines = snippet.lines();
    let parts = blocks(lines, snippet.line_start, snippet.annotations);
    lemma_source_lines_of_blocks(
        lines,
        snippet.line_start,
        snippet.annotations,
        lines.len() as int,
    );
    assert(parts.take(lines.len() as int) =~= parts);
}

/// Holds for the lines that stand for the text: source lines, annotation lines and fold lines.
pub open spec fn is_of_the_text() -> spec_fn(DisplayLineView) -> bool {
    |line: DisplayLineView| line is SourceLine || line is AnnotationLine || line is FoldLine
}

/// The text with its annotations placed holds source lines and annotation lines only.
pub proof fn lemma_placed_lines_are_of_the_text(
    lines: Seq<Seq<char>>,
    first: int,
    annotations: Seq<AnnotationView>,
)
    ensures
        placed(lines, first, annotations).all(is_of_the_text()),
        forall|k: int|
            0 <= k < placed(lines, first, annotations).len() ==> !(#[trigger] placed(
                lines,
                first,
                annotations,
            )[k] is FoldLine),
{
    lemma_blocks_are_of_the_text(lines, first, annotations, lines.len() as int);
    let parts = blocks(lines, first, annotations);
    assert(parts.take(lines.len() as int) =~= parts);
}

/// The blocks of the first `n` lines hold source lines and annotation lines only.
proof fn lemma_blocks_are_of_the_text(
    lines: Seq<Seq<char>>,
    first: int,
    annotations: Seq<AnnotationView>,
    n: int,
)
    requires
        0 <= n <= lines.len(),
    ensures
        forall|k: int|
            0 <= k < blocks(lines, first, annotations).take(n).flatten().len() ==> {
                let line = #[trigger] blocks(lines, first, annotations).take(n).flatten()[k];
                line is SourceLine || line is AnnotationLine
            },
    decreases n,
{
    let parts = blocks(lines, first, annotations);
    if n > 0 {
        lemma_blocks_are_of_the_text(lines, first, annotations, n - 1);
        assert(parts.take(n) =~= parts.take(n - 1).push(parts[n - 1]));
        parts.take(n - 1).lemma_flatten_push(parts[n - 1]);
        lemma_captions_are_annotation_lines(
            annotations,
            line_begin(lines, n - 1),
            line_end(lines, n - 1),
        );
    }
}

/// Folding lines that stand for the text gives lines that stand for the text.
pub proof fn lemma_folded_lines_are_of_the_text(body: Seq<DisplayLineView>)
    requires
        body.all(is_of_the_text()),
    ensures
        folded(body).all(is_of_the_text()),
    decreases body.len(),
{
    lemma_first_where(body, is_caption());
    let k = first_where(body, is_caption()) as int;
    if k < body.len() {
        let rest = body.skip(k + 1);
        assert(forall|j: int| 0 <= j < rest.len() ==> is_of_the_text()(#[trigger] rest[j]));
        lemma_folded_lines_are_of_the_text(rest);
        let run = body.take(k);
        assert(forall|j: int|
            0 <= j < collapsed(run).len() ==> is_of_the_text()(#[trigger] collapsed(run)[j]));
    }
}

/// The body of a display stands between two empty lines, and these are its only empty
/// lines: every line between them is a source line, an annotation line or a fold line.
pub proof fn lemma_body_is_padded(snippet: SnippetView)
    ensures
        body_of(snippet).len() >= 2,
        body_of(snippet).first() is EmptySourceLine,
        body_of(snippet).last() is EmptySourceLine,
        forall|i: int|
            0 < i < body_of(snippet).len() - 1 ==> is_of_the_text()(#[trigger] body_of(snippet)[i]),
{
    let unfolded = unfolded_body_of(snippet);
    lemma_placed_lines_are_of_the_text(snippet.lines(), snippet.line_start, snippet.annotations);
    lemma_folded_lines_are_of_the_text(unfolded);
}

/// Where the text has a line, the body of a display begins, behind its first empty line,
/// with the source line of the first line of the text: no annotation line and no fold line
/// stands before the first source line.
pub proof fn lemma_body_begins_with_a_source_line(snippet: SnippetView)
    requires
        snippet.lines().len() > 0,
    ensures
        body_of(snippet).len() > 2,
        body_of(snippet)[1] == source_line(
            snippet.lines(),
            snippet.line_start,
            snippet.annotations,
            0,
        ),
{
    lemma_first_where(unfolded_body_of(snippet), is_caption());
}

/// A display ends with the empty line that ends its body, and the empty line that begins
/// the body follows the header directly.
pub proof fn lemma_display_is_padded(snippet: SnippetView)
    ensures
        display_of(snippet).len() >= header_of(snippet).len() + 2,
        display_of(snippet)[header_of(snippet).len() as int] is EmptySourceLine,
        display_of(snippet).last() is EmptySourceLine,
{
    lemma_body_is_padded(snippet);
}

/// The display is a function of the snippet's value: snippets of one value have one display,
/// so laying out a snippet a second time gives the lines that it gave the first time.
pub proof fn lemma_same_snippet_same_display(
    snippet: Snippet,
    again: Snippet,
    first: DisplayList,
    second: DisplayList,
)
    requires
        snippet@ == again@,
        first@ == display_of(snippet@),
        second@ == display_of(again@),
    ensures
        first@ == second@,
{
}

/// An annotation that lies within line `i` puts one caption under that line, over its own
/// columns and of its own kind, and nothing else: no mark on any line `k`, and no caption
/// under another line.
pub proof fn lemma_annotation_within_a_line(
    lines: Seq<Seq<char>>,
    a: AnnotationView,
    i: int,
    k: int,
)
    requires
        0 <= i < lines.len(),
        0 <= k < lines.len(),
        a.range.0 is Some,
        a.range.1 is Some,
        line_begin(lines, i) <= a.range.0->0 <= a.range.1->0 <= line_end(lines, i),
    ensures
        marks_from(a, line_begin(lines, k), line_end(lines, k)) == Seq::<DisplayMark>::empty(),
        k == i ==> captions_from(a, line_begin(lines, k), line_end(lines, k)) == seq![
            DisplayLineView::AnnotationLine {
                inline_marks: Seq::empty(),
                range: (a.range.0->0 - line_begin(lines, i), a.range.1->0 - line_begin(lines, i)),
                label: a.caption(),
                annotation_type: single_line_kind(a.annotation_type),
            },
        ],
        k != i ==> captions_from(a, line_begin(lines, k), line_end(lines, k))
            == Seq::<DisplayLineView>::empty(),
{
    if k < i {
        lemma_lines_in_order(lines, k, i);
    } else if i < k {
        lemma_lines_in_order(lines, i, k);
    }
}

/// An annotation that starts on line `i` and ends on a later line `j`, and what it puts on
/// a line `k`.
///
/// On line `i`, where it starts at the first column it puts the start mark and no caption;
/// where it starts at a later column it puts no mark and a caption of the kind
/// `MultilineStart` at that column. On a line between `i` and `j` it puts the through mark
/// and no caption. On line `j` it puts the through mark and a caption of the kind
/// `MultilineEnd` at the column where it ends. On a line before `i` or behind `j` it puts
/// nothing.
pub proof fn lemma_annotation_over_several_lines(
    lines: Seq<Seq<char>>,
    a: AnnotationView,
    i: int,
    j: int,
    k: int,
)
    requires
        0 <= i < j < lines.len(),
        0 <= k < lines.len(),
        a.range.0 is Some,
        a.range.1 is Some,
        line_begin(lines, i) <= a.range.0->0 <= line_end(lines, i),
        line_begin(lines, j) <= a.range.1->0 <= line_end(lines, j),
    ensures
        k == i && a.range.0->0 == line_begin(lines, i) ==> {
            &&& marks_from(a, line_begin(lines, k), line_end(lines, k)) == seq![
                DisplayMark::AnnotationStart,
            ]
            &&& captions_from(a, line_begin(lines, k), line_end(lines, k))
                == Seq::<DisplayLineView>::empty()
        },
        k == i && a.range.0->0 > line_begin(lines, i) ==> {
            &&& marks_from(a, line_begin(lines, k), line_end(lines, k))
                == Seq::<DisplayMark>::empty()
            &&& captions_from(a, line_begin(lines, k), line_end(lines, k)) == seq![
                DisplayLineView::AnnotationLine {
                    inline_marks: seq![DisplayMark::AnnotationThrough],
                    range: (
                        a.range.0->0 - line_begin(lines, i),
                        a.range.0->0 - line_begin(lines, i) + 1,
                    ),
                    label: a.caption(),
                    annotation_type: DisplayAnnotationType::MultilineStart,
                },
            ]
        },
        i < k < j ==> {
            &&& marks_from(a, line_begin(lines, k), line_end(lines, k)) == seq![
                DisplayMark::AnnotationThrough,
            ]
            &&& captions_from(a, line_begin(lines, k), line_end(lines, k))
                == Seq::<DisplayLineView>::empty()
        },
        k == j ==> {
            &&& marks_from(a, line_begin(lines, k), line_end(lines, k)) == seq![
                DisplayMark::AnnotationThrough,
            ]
            &&& captions_from(a, line_begin(lines, k), line_end(lines, k)) == seq![
                DisplayLineView::AnnotationLine {
                    inline_marks: seq![DisplayMark::AnnotationThrough],
                    range: (
                        a.range.1->0 - line_begin(lines, j),
                        a.range.1->0 - line_begin(lines, j) + 1,
                    ),
                    label: a.caption(),
                    annotation_type: DisplayAnnotationType::MultilineEnd,
                },
            ]
        },
        k < i || j < k ==> {
            &&& marks_from(a, line_begin(lines, k), line_end(lines, k))
                == Seq::<DisplayMark>::empty()
            &&& captions_from(a, line_begin(lines, k), line_end(lines, k))
                == Seq::<DisplayLineView>::empty()
        },
{
    lemma_lines_in_order(lines, i, j);
    if k < i {
        lemma_lines_in_order(lines, k, i);
    } else if i < k < j {
        lemma_lines_in_order(lines, i, k);
        lemma_lines_in_order(lines, k, j);
    } else if j < k {
        lemma_lines_in_order(lines, j, k);
    }
}

/// An annotation whose place is settled on line `i`, because it lies within the line or ends
/// on it, matches no later line. So it makes no difference whether the later lines are held
/// against all the annotations or only against those that are still open.
pub proof fn lemma_settled_annotation_matches_no_later_line(
    lines: Seq<Seq<char>>,
    a: AnnotationView,
    i: int,
    j: int,
)
    requires
        0 <= i < j <= lines.len(),
        a.ordered(),
        relation(a.range, line_begin(lines, i), line_end(lines, i)) is Contained || relation(
            a.range,
            line_begin(lines, i),
            line_end(lines, i),
        ) is Ends,
    ensures
        relation(a.range, line_begin(lines, j), line_end(lines, j)) is Unmatched,
{
    lemma_lines_in_order(lines, i, j);
}

/// An annotation that has a start and an end and is unmatched on line `j` has been settled
/// on an earlier line: up to the line on which it is settled, such an annotation is not yet
/// reached by a line, or lies within it, starts on it, passes through it or ends on it.
pub proof fn lemma_unmatched_annotation_was_settled(
    lines: Seq<Seq<char>>,
    a: AnnotationView,
    j: int,
) -> (i: int)
    requires
        0 <= j < lines.len(),
        a.range.0 is Some,
        a.range.1 is Some,
        0 <= a.range.0->0,
        a.ordered(),
        relation(a.range, line_begin(lines, j), line_end(lines, j)) is Unmatched,
    ensures
        0 <= i < j,
        relation(a.range, line_begin(lines, i), line_end(lines, i)) is Contained || relation(
            a.range,
            line_begin(lines, i),
            line_end(lines, i),
        ) is Ends,
{
    lemma_line_of_offset(lines, a.range.1->0, j)
}

/// Every offset of the text belongs to one line: an annotation that is ordered and within
/// the text starts on a line of the text and ends on that line or on a later one.
pub proof fn lemma_placed_annotation_has_its_lines(lines: Seq<Seq<char>>, a: AnnotationView) -> (on:
    (int, int))
    requires
        a.range.0 is Some,
        a.range.1 is Some,
        a.ordered(),
        a.within(text_extent(lines)),
        0 <= a.range.0->0,
    ensures
        0 <= on.0 <= on.1 < lines.len(),
        line_begin(lines, on.0) <= a.range.0->0 <= line_end(lines, on.0),
        line_begin(lines, on.1) <= a.range.1->0 <= line_end(lines, on.1),
{
    let i = lemma_line_of_offset(lines, a.range.0->0, lines.len() as int);
    let j = lemma_line_of_offset(lines, a.range.1->0, lines.len() as int);
    if j < i {
        lemma_lines_in_order(lines, j, i);
    }
    (i, j)
}

/// An offset below the start of line `n` belongs to one of the lines before line `n`.
proof fn lemma_line_of_offset(lines: Seq<Seq<char>>, offset: int, n: int) -> (i: int)
    requires
        0 <= offset < line_begin(lines, n),
        0 <= n <= lines.len(),
    ensures
        0 <= i < n,
        line_begin(lines, i) <= offset <= line_end(lines, i),
    decreases n,
{
    if offset >= line_begin(lines, n - 1) {
        n - 1
    } else {
        lemma_line_of_offset(lines, offset, n - 1)
    }
}

/// A run of lines without a caption, a caption behind it and more lines: folded, they are the
/// run collapsed, the caption, and the other lines folded.
pub proof fn lemma_fold_at_caption(
    run: Seq<DisplayLineView>,
    caption: DisplayLineView,
    rest: Seq<DisplayLineView>,
)
    requires
        forall|k: int| 0 <= k < run.len() ==> !(#[trigger] run[k] is AnnotationLine),
        caption is AnnotationLine,
    ensures
        folded(run + seq![caption] + rest) == collapsed(run) + seq![caption] + folded(rest),
{
    let body = run + seq![caption] + rest;
    assert(forall|k: int| 0 <= k < run.len() ==> !is_caption()(#[trigger] body[k]));
    lemma_first_where_unique(body, is_caption(), run.len() as int);
    assert(body.skip(run.len() as int + 1) =~= rest);
}

/// Lines without a caption stay as they are when they are folded, however many they are.
pub proof fn lemma_fold_without_caption(run: Seq<DisplayLineView>)
    requires
        forall|k: int| 0 <= k < run.len() ==> !(#[trigger] run[k] is AnnotationLine),
    ensures
        folded(run) == run,
{
    assert(forall|k: int| 0 <= k < run.len() ==> !is_caption()(#[trigger] run[k]));
    lemma_first_where_unique(run, is_caption(), run.len() as int);
}

/// A run of more than `FOLD_THRESHOLD` lines collapses to its first `CONTEXT_AFTER` lines,
/// one fold line and its last `CONTEXT_BEFORE` lines; a shorter run stays as it is.
pub proof fn lemma_collapsed_run(run: Seq<DisplayLineView>)
    ensures
        run.len() <= FOLD_THRESHOLD ==> collapsed(run) == run,
        run.len() > FOLD_THRESHOLD ==> {
            &&& collapsed(run).len() == CONTEXT_AFTER + 1 + CONTEXT_BEFORE
            &&& forall|k: int| 0 <= k < CONTEXT_AFTER ==> #[trigger] collapsed(run)[k] == run[k]
            &&& collapsed(run)[CONTEXT_AFTER as int] is FoldLine
            &&& forall|k: int|
                0 <= k < CONTEXT_BEFORE ==> #[trigger] collapsed(run)[CONTEXT_AFTER + 1 + k]
                    == run[run.len() - CONTEXT_BEFORE + k]
        },
{
}

/// A title annotation that is an error and has neither a code nor a label gives the title
/// line `error[E0000]: `.
pub proof fn lemma_title_of_a_bare_error(a: AnnotationView)
    requires
        a.annotation_type == AnnotationType::Error,
        a.id is None,
        a.label is None,
    ensures
        title_text(a) == "error[E0000]: "@,
{
    reveal_strlit("error");
    reveal_strlit("[");
    reveal_strlit("E0000");
    reveal_strlit("]: ");
    reveal_strlit("error[E0000]: ");
}

} // verus!
