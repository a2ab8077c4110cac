//! What is laid out: an excerpt of source text and the annotations on it.
//!
//! A snippet is plain data, and not every snippet makes sense. `SnippetView::valid` says
//! which do, `Snippet::validate` tests it. An annotation that ends before it starts, or
//! behind the end of the text, is not laid out in part or left out in silence: a snippet that
//! holds one is not valid. An annotation that lacks its start or its end is in order; it has
//! no place in the text and can only serve the header.

use crate::lines::{checked_extent, source_lines, split_lines, text_extent};
use crate::scan::{first_where, lemma_first_where, lemma_first_where_unique};
use vstd::prelude::*;

verus! {

/// How grave the finding is that an annotation reports.
#[derive(Debug, Clone, Copy, PartialEq, Eq, Structural)]
pub enum AnnotationType {
    Error,
    Warning,
}

/// A remark on a part of the text.
#[derive(Debug, PartialEq, Eq)]
pub struct Annotation {
    /// The offsets between which the remark applies. An annotation that lacks one of them
    /// has no place in the text and is never laid out; it can still give the title.
    pub range: (Option<usize>, Option<usize>),
    /// What the remark says.
    pub label: Option<String>,
    /// The code of the diagnostic.
    pub id: Option<String>,
    pub annotation_type: AnnotationType,
}

/// An excerpt of source text.
#[derive(Debug, PartialEq, Eq)]
pub struct Slice {
    pub source: String,
    /// The number of the first line of `source`.
    pub line_start: usize,
    /// Where the text comes from, such as the path of a file.
    pub origin: Option<String>,
}

/// An excerpt with its annotations.
#[derive(Debug, PartialEq, Eq)]
pub struct Snippet {
    pub slice: Slice,
    pub annotations: Vec<Annotation>,
    /// The index of the annotation that the location line stands for.
    pub main_annotation_pos: Option<usize>,
    /// The index of the annotation that gives the title line.
    pub title_annotation_pos: Option<usize>,
}

/// An annotation as a mathematical value.
pub struct AnnotationView {
    pub range: (Option<int>, Option<int>),
    pub label: Option<Seq<char>>,
    pub id: Option<Seq<char>>,
    pub annotation_type: AnnotationType,
}

impl AnnotationView {
    /// The annotation does not end before it starts.
    pub open spec fn ordered(self) -> bool {
        match self.range {
            (Some(start), Some(stop)) => start <= stop,
            _ => true,
        }
    }

    /// The annotation ends at an offset of the text, which has the offsets below `extent`.
    pub open spec fn within(self, extent: int) -> bool {
        match self.range {
            (Some(start), Some(stop)) => stop < extent,
            _ => true,
        }
    }

    /// What the annotation says: its label, or nothing where it has none.
    pub open spec fn caption(self) -> Seq<char> {
        match self.label {
            Some(text) => text,
            None => Seq::empty(),
        }
    }
}

/// A snippet as a mathematical value.
pub struct SnippetView {
    pub source: Seq<char>,
    pub line_start: int,
    pub origin: Option<Seq<char>>,
    pub annotations: Seq<AnnotationView>,
    pub main_annotation_pos: Option<int>,
    pub title_annotation_pos: Option<int>,
}

/// Why a snippet cannot be laid out.
#[derive(Debug, Clone, Copy, PartialEq, Eq, Structural)]
pub enum SnippetError {
    /// `title_annotation_pos` is no index into the annotations.
    TitleOutOfBounds,
    /// `main_annotation_pos` is no index into the annotations.
    MainOutOfBounds,
    /// The numbers of the lines or the offsets of the text go beyond `usize::MAX`.
    TooLarge,
    /// The annotation at this index ends before it starts.
    ReversedRange(usize),
    /// The annotation at this index ends behind the text.
    RangeBeyondText(usize),
}

/// Holds for the annotations that have no place in a text with the offsets below `extent`:
/// those that end before they start, and those that end behind the text.
pub open spec fn is_misplaced(extent: int) -> spec_fn(AnnotationView) -> bool {
    |a: AnnotationView| !a.ordered() || !a.within(extent)
}

impl SnippetView {
    /// The lines of the text.
    pub open spec fn lines(self) -> Seq<Seq<char>> {
        split_lines(self.source)
    }

    /// `pos` is absent or an index into the annotations.
    pub open spec fn names_annotation(self, pos: Option<int>) -> bool {
        match pos {
            Some(p) => 0 <= p < self.annotations.len(),
            None => true,
        }
    }

    /// The numbers of all the lines, and the offsets of the text and the one behind it, are
    /// within `usize`.
    pub open spec fn fits(self) -> bool {
        &&& self.line_start + self.lines().len() <= usize::MAX
        &&& text_extent(self.lines()) <= usize::MAX
    }

    /// The snippet can be laid out: its title and its main annotation exist where it names
    /// them, it fits, and every annotation that has a start and an end starts no later than
    /// it ends, and ends within the text.
    pub open spec fn valid(self) -> bool {
        &&& self.names_annotation(self.title_annotation_pos)
        &&& self.names_annotation(self.main_annotation_pos)
        &&& self.fits()
        &&& forall|k: int|
            0 <= k < self.annotations.len() ==> {
                &&& (#[trigger] self.annotations[k]).ordered()
                &&& self.annotations[k].within(text_extent(self.lines()))
            }
    }

    /// What is wrong with the snippet, if anything is. The checks are made in the order of
    /// `SnippetError`'s variants, and of the annotations the first misplaced one is named.
    pub open spec fn verdict(self) -> Result<(), SnippetError> {
        let extent = text_extent(self.lines());
        let k = first_where(self.annotations, is_misplaced(extent)) as int;
        if !self.names_annotation(self.title_annotation_pos) {
            Err(SnippetError::TitleOutOfBounds)
        } else if !self.names_annotation(self.main_annotation_pos) {
            Err(SnippetError::MainOutOfBounds)
        } else if !self.fits() {
            Err(SnippetError::TooLarge)
        } else if k >= self.annotations.len() {
            Ok(())
        } else if !self.annotations[k].ordered() {
            Err(SnippetError::ReversedRange(k as usize))
        } else {
            Err(SnippetError::RangeBeyondText(k as usize))
        }
    }

    /// The verdict on a snippet is favourable exactly where the snippet is valid.
    pub proof fn lemma_verdict_ok_iff_valid(self)
        ensures
            self.verdict() is Ok <==> self.valid(),
    {
        let extent = text_extent(self.lines());
        lemma_first_where(self.annotations, is_misplaced(extent));
    }
}

/// An offset or an index that may be absent, as an integer.
pub open spec fn position(p: Option<usize>) -> Option<int> {
    match p {
        Some(n) => Some(n as int),
        None => None,
    }
}

impl View for Annotation {
    type V = AnnotationView;

    open spec fn view(&self) -> AnnotationView {
        AnnotationView {
            range: (position(self.range.0), position(self.range.1)),
            label: self.label.deep_view(),
            id: self.id.deep_view(),
            annotation_type: self.annotation_type,
        }
    }
}

/// The annotations of `annotations` as mathematical values.
pub open spec fn annotation_views(annotations: Seq<Annotation>) -> Seq<AnnotationView> {
    annotations.map_values(|a: Annotation| a@)
}

impl View for Snippet {
    type V = SnippetView;

    open spec fn view(&self) -> SnippetView {
        SnippetView {
            source: self.slice.source@,
            line_start: self.slice.line_start as int,
            origin: self.slice.origin.deep_view(),
            annotations: annotation_views(self.annotations@),
            main_annotation_pos: position(self.main_annotation_pos),
            title_annotation_pos: position(self.title_annotation_pos),
        }
    }
}

impl Clone for Annotation {
    fn clone(&self) -> (copy: Annotation)
        ensures
            copy == *self,
    {
        Annotation {
            range: self.range,
            label: self.label.clone(),
            id: self.id.clone(),
            annotation_type: self.annotation_type,
        }
    }
}

impl Clone for Slice {
    fn clone(&self) -> (copy: Slice)
        ensures
            copy == *self,
    {
        Slice {
            source: self.source.clone(),
            line_start: self.line_start,
            origin: self.origin.clone(),
        }
    }
}

impl Clone for Snippet {
    fn clone(&self) -> (copy: Snippet)
        ensures
            copy@ == self@,
    {
        Snippet {
            slice: self.slice.clone(),
            annotations: self.annotations.clone(),
            main_annotation_pos: self.main_annotation_pos,
            title_annotation_pos: self.title_annotation_pos,
        }
    }
}

/// Whether `pos` is absent or below `count`.
fn names_one_of(pos: Option<usize>, count: usize) -> (named: bool)
    ensures
        named <==> match position(pos) {
            Some(p) => 0 <= p < count,
            None => true,
        },
{
    match pos {
        Some(p) => p < count,
        None => true,
    }
}

impl Snippet {
    /// Says whether the snippet can be laid out, and if not, why not.
    pub fn validate(&self) -> (verdict: Result<(), SnippetError>)
        ensures
            verdict == self@.verdict(),
            verdict is Ok <==> self@.valid(),
    {
        proof {
            self@.lemma_verdict_ok_iff_valid();
        }
        let count = self.annotations.len();
        if !names_one_of(self.title_annotation_pos, count) {
            return Err(SnippetError::TitleOutOfBounds);
        }
        if !names_one_of(self.main_annotation_pos, count) {
            return Err(SnippetError::MainOutOfBounds);
        }
        let lines = source_lines(self.slice.source.as_str());
        if self.slice.line_start.checked_add(lines.len()).is_none() {
            return Err(SnippetError::TooLarge);
        }
        let extent = match checked_extent(&lines) {
            Some(extent) => extent,
            None => {
                return Err(SnippetError::TooLarge);
            },
        };
        let ghost all = self@.annotations;
        let mut k: usize = 0;
        while k < count
            invariant
                k <= count == self.annotations.len(),
                all == self@.annotations,
                self@.names_annotation(self@.title_annotation_pos),
                self@.names_annotation(self@.main_annotation_pos),
                self@.fits(),
                extent == text_extent(self@.lines()),
                forall|j: int| 0 <= j < k ==> !is_misplaced(extent as int)(#[trigger] all[j]),
            decreases count - k,
        {
            let range = self.annotations[k].range;
            if let (Some(start), Some(stop)) = range {
                if start > stop {
                    proof {
                        lemma_first_where_unique(all, is_misplaced(extent as int), k as int);
                    }
                    return Err(SnippetError::ReversedRange(k));
                }
                if stop >= extent {
                    proof {
                        lemma_first_where_unique(all, is_misplaced(extent as int), k as int);
                    }
                    return Err(SnippetError::RangeBeyondText(k));
                }
            }
            k += 1;
        }
        proof {
            lemma_first_where_unique(all, is_misplaced(extent as int), count as int);
        }
        Ok(())
    }
}

} // verus!
