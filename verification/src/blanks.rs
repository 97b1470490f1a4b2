//! What the blanks of a line say: spaces, comments and line ends, each with
//! its text and its place.

use vstd::prelude::*;

use crate::ast::{LineTerminator, SourceInfo, Whitespace};

verus! {

/// What a run of blanks says: its text and where it stands.
pub struct BlankSource {
    pub text: Seq<char>,
    pub span: SourceInfo,
}

/// What a run of blanks of the source says.
pub open spec fn blank_source(blank: Whitespace) -> BlankSource {
    BlankSource { text: blank.value@, span: blank.source_info }
}

/// What the end of a line says: the spaces before it, its comment without
/// the hash sign, and the line end.
pub struct LineEndSource {
    pub space: BlankSource,
    pub comment: Option<Seq<char>>,
    pub newline: BlankSource,
}

/// What the end of a line of the source says.
pub open spec fn line_end_source(end: LineTerminator) -> LineEndSource {
    LineEndSource {
        space: blank_source(end.space0),
        comment: match end.comment {
            Some(comment) => Some(comment.value@),
            None => None,
        },
        newline: blank_source(end.newline),
    }
}

/// What each of a list of line ends says.
pub open spec fn line_end_sources(ends: Seq<LineTerminator>) -> Seq<LineEndSource> {
    Seq::new(ends.len(), |i: int| line_end_source(ends[i]))
}

} // verus!
