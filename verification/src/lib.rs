//! Lays out an annotated excerpt of source text as a sequence of display lines.
//!
//! A `Snippet` holds the text and the annotations on it. `DisplayList::from` turns a valid
//! snippet into the lines of its display, and `DisplayList::checked_from` does so for any
//! snippet, or says why the snippet is not valid. A display is a header (module `header`)
//! and a body (module `body`): the lines of the text (module `lines`) with the annotations
//! placed on them (module `placement`) and the long runs of lines without a caption folded
//! (module `fold`). Module `laws` holds what is proved of every display.
//!
//! How the lines are drawn, and where in its file the text stands, is left to the caller.

pub mod body;
pub mod display_list;
pub mod fold;
pub mod header;
pub mod laws;
pub mod lines;
pub mod placement;
pub mod scan;
pub mod snippet;
