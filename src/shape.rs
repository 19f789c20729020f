//! Shape checks on a table of rows whose last column is the label.
use vstd::prelude::*;

verus! {

/// Why a table is not a well-formed dataset.
#[derive(Clone, Copy, Debug, PartialEq, Eq, Structural)]
pub enum ShapeError {
    /// The table has no rows.
    NoRows,
    /// The first row has fewer than two columns: no feature besides the label.
    TooFewColumns,
    /// The row at this position is not as long as the first row.
    RaggedRow(usize),
}

/// Every row of `rows` has `width` columns.
pub open spec fn all_rows_have_width<T>(rows: Seq<Vec<T>>, width: nat) -> bool {
    forall|i: int| 0 <= i < rows.len() ==> (#[trigger] rows[i])@.len() == width
}

/// `rows` is a dataset: at least one row, every row as long as the first,
/// and at least one feature column besides the label.
pub open spec fn well_shaped<T>(rows: Seq<Vec<T>>) -> bool {
    &&& rows.len() > 0
    &&& rows[0]@.len() >= 2
    &&& all_rows_have_width(rows, rows[0]@.len())
}

/// Checks that `rows` is a dataset and returns its width. The error names
/// the first defect found: no rows, too few columns in the first row, or the
/// first row whose length differs from the first row's.
pub fn check_shape<T>(rows: &Vec<Vec<T>>) -> (r: Result<usize, ShapeError>)
    ensures
        r is Ok <==> well_shaped(rows@),
        r matches Ok(w) ==> w == rows@[0]@.len(),
        r == Err::<usize, ShapeError>(ShapeError::NoRows) <==> rows@.len() == 0,
        r == Err::<usize, ShapeError>(ShapeError::TooFewColumns) <==> rows@.len() > 0
            && rows@[0]@.len() < 2,
        r matches Err(ShapeError::RaggedRow(i)) ==> {
            &&& rows@.len() > 0
            &&& rows@[0]@.len() >= 2
            &&& i < rows@.len()
            &&& rows@[i as int]@.len() != rows@[0]@.len()
            &&& all_rows_have_width(rows@.subrange(0, i as int), rows@[0]@.len())
        },
{
    if rows.len() == 0 {
        return Err(ShapeError::NoRows);
    }
    let width = rows[0].len();
    if width < 2 {
        return Err(ShapeError::TooFewColumns);
    }
    let mut i: usize = 1;
    while i < rows.len()
        invariant
            1 <= i <= rows@.len(),
            width == rows@[0]@.len(),
            width >= 2,
            all_rows_have_width(rows@.subrange(0, i as int), width as nat),
        decreases rows@.len() - i,
    {
        if rows[i].len() != width {
            return Err(ShapeError::RaggedRow(i));
        }
        assert(all_rows_have_width(rows@.subrange(0, i + 1), width as nat)) by {
            assert forall|k: int| 0 <= k < i + 1 implies (#[trigger] rows@.subrange(0, i + 1)[k])@.len()
                == width by {
                if k < i {
                    assert(rows@.subrange(0, i + 1)[k] == rows@.subrange(0, i as int)[k]);
                }
            }
        }
        i = i + 1;
    }
    assert(rows@.subrange(0, i as int) =~= rows@);
    Ok(width)
}

} // verus!
