use vstd::prelude::*;

use crate::access::string_parser::PathParser;
use crate::text::{push_decimal, spec_decimal};

verus! {

/// Describes why a path text could not be read.
#[derive(Debug, Clone, PartialEq, Eq)]
pub struct ParseError<'a> {
    /// Byte position in `path`.
    pub offset: usize,
    /// The path that the error occurred in.
    pub path: &'a str,
    /// The underlying error.
    pub error: String,
}

/// The displayed form of a parse error.
pub open spec fn spec_parse_error_text(offset: usize, path: Seq<char>, error: Seq<char>) -> Seq<char> {
    "Encountered an error at offset "@ + spec_decimal(offset as nat) + " while parsing `"@ + path
        + "`: "@ + error
}

impl<'a> ParseError<'a> {
    /// The displayed form of this error.
    pub fn to_string(&self) -> (r: String)
        ensures
            r@ == spec_parse_error_text(self.offset, self.path@, self.error@),
    {
        let mut s = String::from_str("Encountered an error at offset ");
        push_decimal(&mut s, self.offset);
        s.append(" while parsing `");
        s.append(self.path);
        s.append("`: ");
        s.append(self.error.as_str());
        proof {
            assert(s@ =~= spec_parse_error_text(self.offset, self.path@, self.error@));
        }
        s
    }
}

/// A text that can be read as a reflection path.
///
/// The library reads [`&str`] paths.
pub trait AccessPath<'a> {
    /// A reader of the accessors of the path.
    fn parse_to_accessor(&self) -> PathParser<'a>;
}

impl<'a> AccessPath<'a> for &'a str {
    fn parse_to_accessor(&self) -> (r: PathParser<'a>)
        ensures
            r.wf(),
            r.path() == *self,
            r.pos() == 0,
    {
        PathParser::new(self)
    }
}

} // verus!
