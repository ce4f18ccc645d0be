//! Fractional shares of one cell.

use crate::ghost_cell::{GhostCell, GhostProject};
use vstd::prelude::*;

verus! {

/// A share of `NUM / DEN` of the ownership of one cell.
///
/// Shares of one cell alias it: they have the same address. Only a full
/// share, `NUM == DEN`, gives the cell back.
pub struct StaticRc<'id, F, const NUM: usize, const DEN: usize> {
    cell: GhostCell<'id, F>,
}

impl<'id, F: for <'x>GhostProject<'x>, const NUM: usize, const DEN: usize> StaticRc<
    'id,
    F,
    NUM,
    DEN,
> {
    /// The cell this share is a share of.
    pub closed spec fn cell(&self) -> GhostCell<'id, F> {
        self.cell
    }

    /// The address of the cell.
    pub open spec fn addr(&self) -> usize {
        self.cell().addr()
    }

    /// The address of the cell, which tells whether two shares alias. It
    /// leaves the ownership alone.
    pub fn as_ptr(this: &Self) -> (a: usize)
        ensures
            a == this.addr(),
    {
        this.cell.as_ptr()
    }

    /// The cell, to be read or written through its token.
    pub fn get(&self) -> (cell: &GhostCell<'id, F>)
        ensures
            *cell == self.cell(),
    {
        &self.cell
    }

    /// Splits the share into two shares of the same cell, of `A / DEN` and
    /// `B / DEN`. Nothing is allocated or freed.
    pub fn split<const A: usize, const B: usize>(this: Self) -> (halves: (
        StaticRc<'id, F, A, DEN>,
        StaticRc<'id, F, B, DEN>,
    ))
        requires
            0 < A,
            0 < B,
            A + B == NUM,
        ensures
            halves.0.cell() == this.cell(),
            halves.1.cell() == this.cell(),
    {
        let other = this.cell.alias();
        (StaticRc { cell: this.cell }, StaticRc { cell: other })
    }

    /// Joins two shares of one cell, of `A / DEN` and `B / DEN`, into one
    /// share of `NUM / DEN`. Nothing is allocated or freed.
    pub fn join<const A: usize, const B: usize>(
        left: StaticRc<'id, F, A, DEN>,
        right: StaticRc<'id, F, B, DEN>,
    ) -> (joined: Self)
        requires
            left.addr() == right.addr(),
            A + B == NUM,
        ensures
            joined.cell() == left.cell(),
    {
        StaticRc { cell: left.cell }
    }
}

impl<'id, F: for <'x>GhostProject<'x>, const N: usize> StaticRc<'id, F, N, N> {
    /// The full share of `cell`.
    pub fn new(cell: GhostCell<'id, F>) -> (full: Self)
        requires
            0 < N,
        ensures
            full.cell() == cell,
    {
        StaticRc { cell }
    }

    /// Gives up the full share for the cell itself.
    pub fn into_inner(this: Self) -> (cell: GhostCell<'id, F>)
        ensures
            cell == this.cell(),
    {
        this.cell
    }
}

} // verus!
