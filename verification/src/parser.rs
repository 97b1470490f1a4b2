//! The parser: from the text of a mock file to its syntax tree.

pub mod bytes;
pub mod entries;
pub mod error;
pub mod expr;
pub mod filter;
pub mod json;
pub mod key_string;
pub mod number;
pub mod predicate;
pub mod predicate_value;
pub mod primitives;
pub mod query;
pub mod reader;
pub mod regex;
pub mod sections;
pub mod xml;
pub mod string;

use vstd::prelude::*;

use crate::ast::{ImpostorFile, Pos};
use crate::entry::source::{entry_sources, EntrySource};
use crate::parser::entries::{entry_sources_at, impostor_file_at};
use crate::parser::primitives::{Outcome, ParseResult};
use crate::parser::reader::{Reader, Source};

verus! {

/// What the grammar makes of a text as a whole mock file: it reads it to
/// its end, or it fails.
pub open spec fn file_rule(text: Seq<char>) -> Outcome {
    impostor_file_at(Source { origin: Pos { line: 1, column: 1 }, text }, 0)
}

/// What the entries of a text say, one by one, read as a whole mock file.
pub open spec fn file_sources(text: Seq<char>) -> Seq<EntrySource> {
    entry_sources_at(Source { origin: Pos { line: 1, column: 1 }, text }, 0)
}

/// Parses the text of a mock file. The parse is all or nothing: the first
/// failure that no other rule can make up for is returned, with its place
/// and its cause.
pub fn parse_impostor_file(s: &str) -> (r: ParseResult<ImpostorFile>)
    ensures
        match r {
            Ok(file) => {
                &&& file_rule(s@) == Outcome::Done(s@.len() as int)
                &&& entry_sources(file.entries@) == file_sources(s@)
            },
            Err(e) => file_rule(s@) == Outcome::Failed(e@) && !e.recoverable,
        },
{
    let mut reader = Reader::new(s);
    entries::impostor_file(&mut reader)
}

} // verus!
