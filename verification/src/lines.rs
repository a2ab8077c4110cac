//! Splitting a text into lines, and the offsets at which the lines lie.

use crate::scan::{first_where, lemma_first_where_unique};
use vstd::prelude::*;

verus! {

/// `String::push` of the standard library, which appends one character to the text.
pub assume_specification[ String::push ](text: &mut String, ch: char)
    ensures
        final(text)@ == old(text)@.push(ch),
;

/// Holds for the line feed and for no other character.
pub open spec fn is_line_feed() -> spec_fn(char) -> bool {
    |c: char| c == '\n'
}

/// `line` without the carriage return that it ends in, if it ends in one.
pub open spec fn without_return(line: Seq<char>) -> Seq<char> {
    if line.len() > 0 && line.last() == '\r' {
        line.drop_last()
    } else {
        line
    }
}

/// The lines of `text`.
///
/// A line ends at a line feed, or at a carriage return followed by a line feed; neither
/// belongs to the line. What follows the last line feed is a line of its own unless it is
/// empty, and is kept as it stands, a carriage return at its end included.
pub open spec fn split_lines(text: Seq<char>) -> Seq<Seq<char>>
    decreases text.len(),
{
    let k = first_where(text, is_line_feed());
    if text.len() == 0 {
        Seq::empty()
    } else if k >= text.len() {
        seq![text]
    } else {
        seq![without_return(text.take(k as int))] + split_lines(text.skip(k as int + 1))
    }
}

/// The lines of `text`, each as a string of its own.
pub fn source_lines(text: &str) -> (lines: Vec<String>)
    ensures
        lines.deep_view() == split_lines(text@),
{
    let mut lines: Vec<String> = Vec::new();
    let mut line = String::new();
    // A carriage return that was read and belongs to the line only if no line feed follows.
    let mut held = false;
    // Where the line begins that is being read.
    let ghost mut begin: int = 0;
    assert(text@.skip(0) == text@);
    for c in it: text.chars()
        invariant
            it.seq() == text@,
            0 <= begin <= it.index() <= text@.len(),
            forall|j: int| begin <= j < it.index() ==> text@[j] != '\n',
            split_lines(text@) == lines.deep_view() + split_lines(text@.skip(begin)),
            text@.subrange(begin, it.index() as int) == line@ + (if held {
                seq!['\r']
            } else {
                Seq::empty()
            }),
            !held ==> line@.len() == 0 || line@.last() != '\r',
    {
        let ghost at = it.index() as int;
        if c == '\n' {
            proof {
                let rest = text@.skip(begin);
                let chunk = text@.subrange(begin, at);
                assert(forall|j: int| 0 <= j < at - begin ==> !is_line_feed()(#[trigger] rest[j]));
                lemma_first_where_unique(rest, is_line_feed(), at - begin);
                assert(rest.take(at - begin) == chunk);
                assert(without_return(chunk) == line@);
                assert(rest.skip(at - begin + 1) == text@.skip(at + 1));
                assert(lines.deep_view().push(line@) == lines.deep_view() + seq![line@]);
            }
            let ghost before = lines.deep_view();
            lines.push(line);
            assert(lines.deep_view() == before.push(line@));
            line = String::new();
            held = false;
            proof {
                begin = at + 1;
                assert(text@.subrange(begin, at + 1) == Seq::<char>::empty());
            }
        } else if c == '\r' {
            if held {
                line.push('\r');
            }
            held = true;
        } else {
            if held {
                line.push('\r');
                held = false;
            }
            line.push(c);
        }
    }
    let ghost rest = text@.skip(begin);
    proof {
        if rest.len() > 0 {
            assert(forall|j: int| 0 <= j < rest.len() ==> !is_line_feed()(#[trigger] rest[j]));
            lemma_first_where_unique(rest, is_line_feed(), rest.len() as int);
        }
    }
    if held {
        line.push('\r');
    }
    assert(line@ == rest);
    if !line.as_str().is_empty() {
        lines.push(line);
    }
    lines
}

/// The offset at which line `i` begins.
///
/// Offsets count the characters of the lines as if a separator followed each line and one
/// more stood between two lines: every line takes up its characters and two offsets more.
pub open spec fn line_begin(lines: Seq<Seq<char>>, i: int) -> int
    decreases i,
{
    if i <= 0 {
        0
    } else {
        line_begin(lines, i - 1) + lines[i - 1].len() + 2
    }
}

/// The last offset that belongs to line `i`: the one behind its separator.
pub open spec fn line_end(lines: Seq<Seq<char>>, i: int) -> int {
    line_begin(lines, i) + lines[i].len() + 1
}

/// The first offset behind all the lines.
pub open spec fn text_extent(lines: Seq<Seq<char>>) -> int {
    line_begin(lines, lines.len() as int)
}

/// The lines lie one behind the other: a later line begins behind the end of an earlier one.
pub proof fn lemma_lines_in_order(lines: Seq<Seq<char>>, i: int, j: int)
    requires
        0 <= i < j <= lines.len(),
    ensures
        line_end(lines, i) < line_begin(lines, j),
    decreases j,
{
    if i + 1 < j {
        lemma_lines_in_order(lines, i, j - 1);
    }
}

/// A later line begins no earlier than an earlier one.
pub proof fn lemma_line_begin_grows(lines: Seq<Seq<char>>, i: int, j: int)
    requires
        0 <= i <= j,
    ensures
        line_begin(lines, i) <= line_begin(lines, j),
    decreases j,
{
    if i < j {
        lemma_line_begin_grows(lines, i, j - 1);
    }
}

/// The first offset behind all of `lines`, or nothing where it is beyond `usize::MAX`.
pub fn checked_extent(lines: &Vec<String>) -> (extent: Option<usize>)
    ensures
        match extent {
            Some(e) => e == text_extent(lines.deep_view()),
            None => text_extent(lines.deep_view()) > usize::MAX,
        },
{
    let ghost texts = lines.deep_view();
    let mut extent: usize = 0;
    let mut i: usize = 0;
    while i < lines.len()
        invariant
            i <= lines.len(),
            texts == lines.deep_view(),
            extent == line_begin(texts, i as int),
        decreases lines.len() - i,
    {
        let length = lines[i].as_str().unicode_len();
        proof {
            lemma_line_begin_grows(texts, i as int + 1, texts.len() as int);
        }
        match extent.checked_add(length) {
            Some(end) => match end.checked_add(2) {
                Some(next) => {
                    extent = next;
                },
                None => {
                    return None;
                },
            },
            None => {
                return None;
            },
        }
        i += 1;
    }
    Some(extent)
}

} // verus!
