//! Rows, columns and ranges of a text, counted from zero.
use vstd::prelude::*;

verus! {

/// A row, counted from zero.
#[derive(Clone, Copy, PartialEq, Eq, Structural, Debug, Hash)]
pub struct Row(pub u32);

/// A text cursor between characters, pointing at the next character of a
/// line.
#[derive(Clone, Copy, PartialEq, Eq, Structural, Debug, Hash)]
pub struct Column(pub u32);

/// A place in a text.
#[derive(Clone, Copy, PartialEq, Eq, Structural, Debug, Hash)]
pub struct Position {
    pub row: Row,
    pub col: Column,
}

/// A range of a text.
#[derive(Clone, Copy, PartialEq, Eq, Structural, Debug, Hash)]
pub struct ZeroRange {
    pub row_start: Row,
    pub row_end: Row,
    pub col_start: Column,
    pub col_end: Column,
}

impl ZeroRange {
    /// The range with these bounds.
    pub fn from_u32(row_start: u32, row_end: u32, col_start: u32, col_end: u32) -> (range: Self)
        ensures
            range == range_of(row_start, row_end, col_start, col_end),
    {
        ZeroRange {
            row_start: Row(row_start),
            row_end: Row(row_end),
            col_start: Column(col_start),
            col_end: Column(col_end),
        }
    }

    /// The order of ranges: by where they start, then by where they end; of
    /// two places the one on the lower row comes first, on one row the one in
    /// the lower column.
    pub open spec fn before(self, other: ZeroRange) -> bool {
        if self.row_start.0 != other.row_start.0 {
            self.row_start.0 < other.row_start.0
        } else if self.col_start.0 != other.col_start.0 {
            self.col_start.0 < other.col_start.0
        } else if self.row_end.0 != other.row_end.0 {
            self.row_end.0 < other.row_end.0
        } else {
            self.col_end.0 < other.col_end.0
        }
    }

    /// Whether this range comes strictly before the other.
    pub fn comes_before(&self, other: &ZeroRange) -> (b: bool)
        ensures
            b == self.before(*other),
    {
        if self.row_start.0 != other.row_start.0 {
            self.row_start.0 < other.row_start.0
        } else if self.col_start.0 != other.col_start.0 {
            self.col_start.0 < other.col_start.0
        } else if self.row_end.0 != other.row_end.0 {
            self.row_end.0 < other.row_end.0
        } else {
            self.col_end.0 < other.col_end.0
        }
    }

    /// Where the range starts.
    pub fn start(&self) -> (position: Position)
        ensures
            position == (Position { row: self.row_start, col: self.col_start }),
    {
        Position { row: self.row_start, col: self.col_start }
    }
}

/// The range with these bounds.
pub open spec fn range_of(row_start: u32, row_end: u32, col_start: u32, col_end: u32) -> ZeroRange {
    ZeroRange {
        row_start: Row(row_start),
        row_end: Row(row_end),
        col_start: Column(col_start),
        col_end: Column(col_end),
    }
}

/// The order of ranges is a strict total order: no range comes before itself,
/// of two different ranges exactly one comes before the other, and what comes
/// before something comes before all that follows it.
pub proof fn ranges_are_totally_ordered(a: ZeroRange, b: ZeroRange, c: ZeroRange)
    ensures
        !a.before(a),
        a != b ==> (a.before(b) <==> !b.before(a)),
        a.before(b) && b.before(c) ==> a.before(c),
{
}

/// A range with given bounds has these bounds.
pub proof fn ranges_have_their_bounds(row_start: u32, row_end: u32, col_start: u32, col_end: u32)
    ensures
        range_of(row_start, row_end, col_start, col_end).row_start.0 == row_start,
        range_of(row_start, row_end, col_start, col_end).row_end.0 == row_end,
        range_of(row_start, row_end, col_start, col_end).col_start.0 == col_start,
        range_of(row_start, row_end, col_start, col_end).col_end.0 == col_end,
{
}

} // verus!
