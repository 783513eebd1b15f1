//! The normalized shape of query results: scalar cell values and the rows of
//! one query, all columns captured once and applied identically to every row.

use vstd::prelude::*;

verus! {

/// One normalized cell value of a query result.
#[derive(Debug, PartialEq, Eq)]
pub enum Scalar {
    /// SQL NULL, or a cell the backend left absent.
    Null,
    /// A boolean value.
    Bool(bool),
    /// A numeric value, carried as its decimal text exactly as the backend sent it.
    Num(Vec<u8>),
    /// A text value, carried as raw bytes.
    Str(Vec<u8>),
    /// Any other backend value (a nested record or list), carried in its serialized form.
    Other(Vec<u8>),
}

/// The materialized rows of one successful query: one column-name list,
/// captured once, giving the cell order of every row.
#[derive(Debug, PartialEq, Eq)]
pub struct QueryData {
    /// Column names, in the order cells are laid out.
    pub columns: Vec<Vec<u8>>,
    /// Rows in cursor order; cell `j` of every row belongs to column `j`.
    pub rows: Vec<Vec<Scalar>>,
}

impl QueryData {
    /// No column name repeats, and every row has exactly one cell per column.
    pub open spec fn wf(self) -> bool {
        &&& forall|i: int, j: int|
            0 <= i < j < self.columns@.len() ==> self.columns@[i]@ != self.columns@[j]@
        &&& forall|i: int|
            0 <= i < self.rows@.len() ==> (#[trigger] self.rows@[i])@.len() == self.columns@.len()
    }
}

} // verus!
