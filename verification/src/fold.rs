//! Folding long runs of lines that carry no caption.

use crate::display_list::{views, DisplayLine, DisplayLineView};
use crate::scan::{first_where, lemma_first_where_unique};
use vstd::prelude::*;

verus! {

/// A run of lines without a caption is folded where it is longer than this.
pub const FOLD_THRESHOLD: usize = 10;

/// How many lines at the head of a folded run stay.
pub const CONTEXT_AFTER: usize = 5;

/// How many lines at the end of a folded run stay.
pub const CONTEXT_BEFORE: usize = 2;

/// Holds for the annotation lines and for no other line.
pub open spec fn is_caption() -> spec_fn(DisplayLineView) -> bool {
    |line: DisplayLineView| line is AnnotationLine
}

/// A run of lines as it stands before a caption: a run longer than `FOLD_THRESHOLD` keeps its
/// first `CONTEXT_AFTER` and its last `CONTEXT_BEFORE` lines, and one fold line stands for
/// the lines between them; a shorter run stays as it is.
pub open spec fn collapsed(run: Seq<DisplayLineView>) -> Seq<DisplayLineView> {
    if run.len() > FOLD_THRESHOLD {
        run.take(CONTEXT_AFTER as int).push(DisplayLineView::FoldLine) + run.skip(
            run.len() - CONTEXT_BEFORE,
        )
    } else {
        run
    }
}

/// `body` with its long runs folded.
///
/// Every run of lines that ends at a caption is collapsed, the run from the start of `body`
/// to its first caption too. What follows the last caption stays as it is.
pub open spec fn folded(body: Seq<DisplayLineView>) -> Seq<DisplayLineView>
    decreases body.len(),
{
    let k = first_where(body, is_caption()) as int;
    if k >= body.len() {
        body
    } else {
        collapsed(body.take(k)).push(body[k]) + folded(body.skip(k + 1))
    }
}

/// Folds the long runs of `body`.
pub fn fold(body: Vec<DisplayLine>) -> (out: Vec<DisplayLine>)
    ensures
        views(out@) == folded(views(body@)),
{
    let ghost given = views(body@);
    let mut body = body;
    // The number of lines without a caption that stand directly before `idx`.
    let mut run: usize = 0;
    let mut idx: usize = 0;
    assert(given.take(0) + folded(given.skip(0)) =~= folded(given)) by {
        assert(given.skip(0) =~= given);
    }
    while idx < body.len()
        invariant
            run <= idx <= body.len(),
            forall|j: int| idx - run <= j < idx ==> !(#[trigger] views(body@)[j] is AnnotationLine),
            folded(given) == views(body@).take(idx - run) + folded(views(body@).skip(idx - run)),
        decreases body.len() - idx,
    {
        let ghost s = views(body@);
        let ghost from = idx - run;
        if matches!(body[idx], DisplayLine::AnnotationLine { .. }) {
            proof {
                let rest = s.skip(from);
                assert(forall|j: int| 0 <= j < run ==> !is_caption()(#[trigger] rest[j]));
                lemma_first_where_unique(rest, is_caption(), run as int);
                assert(rest.take(run as int) =~= s.subrange(from, idx as int));
                assert(rest.skip(run as int + 1) =~= s.skip(idx as int + 1));
            }
            if run > FOLD_THRESHOLD {
                let fold_start = idx - run + CONTEXT_AFTER;
                let fold_end = idx - CONTEXT_BEFORE;
                let mut tail = body.split_off(fold_end);
                body.truncate(fold_start);
                body.push(DisplayLine::FoldLine);
                body.append(&mut tail);
                idx = fold_start + 1 + CONTEXT_BEFORE;
                proof {
                    let t = views(body@);
                    let run_lines = s.subrange(from, from + run);
                    assert(t.take(idx as int + 1) =~= s.take(from) + collapsed(run_lines).push(
                        s[from + run],
                    ));
                    assert(t.skip(idx as int + 1) =~= s.skip(from + run + 1));
                }
            }
            run = 0;
        } else {
            run += 1;
        }
        idx += 1;
    }
    proof {
        let s = views(body@);
        let rest = s.skip(idx - run);
        assert(forall|j: int| 0 <= j < rest.len() ==> !is_caption()(#[trigger] rest[j]));
        lemma_first_where_unique(rest, is_caption(), rest.len() as int);
    }
    body
}

} // verus!
