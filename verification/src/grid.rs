//! Selection in the result grid.

use vstd::prelude::*;

verus! {

/// A rectangle of cells, rows `r0..=r1` and columns `c0..=c1`.
#[derive(Clone, Copy, Debug, PartialEq, Eq, Structural)]
pub struct CellRange {
    pub r0: usize,
    pub c0: usize,
    pub r1: usize,
    pub c1: usize,
}

fn min_usize(a: usize, b: usize) -> (r: usize)
    ensures
        r == if a <= b { a } else { b },
{
    if a <= b {
        a
    } else {
        b
    }
}

fn max_usize(a: usize, b: usize) -> (r: usize)
    ensures
        r == if a >= b { a } else { b },
{
    if a >= b {
        a
    } else {
        b
    }
}

/// Shift-click / shift-arrow: the cells between the anchor (or, without one, the clicked cell
/// itself) and `(row, col)`.
pub fn extend_selection(anchor: Option<(usize, usize)>, row: usize, col: usize) -> (r: CellRange)
    ensures
        ({
            let (ar, ac) = match anchor {
                Some(a) => a,
                None => (row, col),
            };
            &&& r.r0 == if ar <= row { ar } else { row }
            &&& r.r1 == if ar >= row { ar } else { row }
            &&& r.c0 == if ac <= col { ac } else { col }
            &&& r.c1 == if ac >= col { ac } else { col }
        }),
{
    let (ar, ac) = match anchor {
        Some(a) => a,
        None => (row, col),
    };
    CellRange { r0: min_usize(ar, row), c0: min_usize(ac, col), r1: max_usize(ar, row), c1: max_usize(ac, col) }
}

/// The range always contains both its anchor and the new cell.
pub proof fn law_extend_contains(ar: usize, ac: usize, row: usize, col: usize)
    ensures
        ({
            let r0 = if ar <= row { ar } else { row };
            let r1 = if ar >= row { ar } else { row };
            let c0 = if ac <= col { ac } else { col };
            let c1 = if ac >= col { ac } else { col };
            &&& r0 <= ar <= r1 && r0 <= row <= r1
            &&& c0 <= ac <= c1 && c0 <= col <= c1
        }),
{
}

} // verus!
