//! Source locations and their mathematical view.

use vstd::prelude::*;

verus! {

/// The mathematical value of a [`SourceLocation`]: a file name with a line and a column.
pub struct Position {
    pub filename: Seq<char>,
    pub line: u32,
    pub column: u32,
}

/// A place in a source file. Two locations are the same place only when the file name, the
/// line and the column all agree.
#[derive(Debug)]
pub struct SourceLocation {
    pub filename: String,
    pub line: u32,
    pub column: u32,
}

impl View for SourceLocation {
    type V = Position;

    open spec fn view(&self) -> Position {
        Position { filename: self.filename@, line: self.line, column: self.column }
    }
}

impl SourceLocation {
    /// Builds the location of `line` and `column` in the file `filename`.
    pub fn new(filename: String, line: u32, column: u32) -> (loc: SourceLocation)
        ensures
            loc@ == (Position { filename: filename@, line, column }),
    {
        SourceLocation { filename, line, column }
    }
}

impl Clone for SourceLocation {
    fn clone(&self) -> (copy: SourceLocation)
        ensures
            copy@ == self@,
    {
        SourceLocation { filename: self.filename.clone(), line: self.line, column: self.column }
    }
}

impl PartialEq for SourceLocation {
    fn eq(&self, other: &SourceLocation) -> (same: bool) {
        self.filename == other.filename && self.line == other.line && self.column == other.column
    }
}

impl vstd::std_specs::cmp::PartialEqSpecImpl for SourceLocation {
    open spec fn obeys_eq_spec() -> bool {
        true
    }

    open spec fn eq_spec(&self, other: &SourceLocation) -> bool {
        self@ == other@
    }
}

/// The positions of a row of locations.
pub open spec fn positions(locations: Seq<SourceLocation>) -> Seq<Position> {
    locations.map_values(|l: SourceLocation| l@)
}

/// The position of a location that may be absent.
pub open spec fn position_of(location: Option<SourceLocation>) -> Option<Position> {
    match location {
        Some(l) => Some(l@),
        None => None,
    }
}

} // verus!
