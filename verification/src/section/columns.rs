//! The grid of a section: one cell for each column of blocks.
use crate::error::{Error, Fault};
use vstd::prelude::*;
use vstd::std_specs::convert::TryFromSpec;
use vstd::std_specs::iter::IteratorSpec;

verus! {

/// The number of cells along each side of the grid.
pub const WIDTH: usize = 64;

/// The number of cells of the grid.
pub const LEN: usize = 4096;

/// A grid of `WIDTH` by `WIDTH` cells, row by row.
#[derive(Debug)]
pub struct Columns<C>([C; 4096]);

impl<C> View for Columns<C> {
    type V = Seq<C>;

    closed spec fn view(&self) -> Seq<C> {
        self.0@
    }
}

/// The index of the cell at `x` of the row `z`.
pub open spec fn cell_index(x: int, z: int) -> int {
    z * WIDTH + x
}

/// By how many cells a sequence of `n` cells misses the grid: the surplus,
/// or the deficit as a negative number.
pub open spec fn arity_error(n: nat) -> int {
    if n - LEN > isize::MAX {
        isize::MAX as int
    } else {
        n - LEN
    }
}

/// `<[C; 4096]>::try_from` on a vector: the array holds the vector's
/// elements, in order.
#[verifier::external_body]
fn array_from_vec<C>(cells: Vec<C>) -> (array: [C; 4096])
    requires
        cells@.len() == LEN,
    ensures
        array@ == cells@,
{
    <[C; 4096]>::try_from(cells).ok().unwrap()
}

impl<C> Columns<C> {
    /// The number of cells of the grid.
    pub const LEN: usize = 4096;

    /// The grid that has `cols` as its cells.
    pub fn new(cols: [C; 4096]) -> (grid: Self)
        ensures
            grid@ == cols@,
    {
        Columns(cols)
    }

    /// The grid has as many cells as every other.
    pub proof fn lemma_len(&self)
        ensures
            self@.len() == LEN,
    {
    }

    /// The cell at `x` of the row `z`.
    pub fn get(&self, x: usize, z: usize) -> (cell: &C)
        requires
            x < WIDTH,
            z < WIDTH,
        ensures
            *cell == self@[cell_index(x as int, z as int)],
    {
        &self.0[z * WIDTH + x]
    }

    /// The grid that has `cells` as its cells, if they are as many as the
    /// grid has.
    pub fn try_from(cells: Vec<C>) -> (r: Result<Self, Error>)
        ensures
            match r {
                Ok(grid) => cells@.len() == LEN && grid@ == cells@,
                Err(error) => cells@.len() != LEN && error == Error::GridArityMismatch(
                    arity_error(cells@.len()) as isize,
                ),
            },
    {
        let n = cells.len();
        if n == LEN {
            Ok(Columns(array_from_vec(cells)))
        } else if n < LEN {
            Err(Error::GridArityMismatch(-((LEN - n) as isize)))
        } else if n - LEN > isize::MAX as usize {
            Err(Error::GridArityMismatch(isize::MAX))
        } else {
            Err(Error::GridArityMismatch((n - LEN) as isize))
        }
    }

    /// The grid whose cells `iter` yields, if it yields as many as the
    /// grid has; else the number by which it misses them.
    pub fn try_from_iter<I: Iterator<Item = C>>(iter: I) -> (r: Result<Self, isize>)
        requires
            iter.obeys_prophetic_iter_laws(),
            iter.decrease() is Some,
        ensures
            match r {
                Ok(grid) => iter.remaining().len() == LEN && grid@ == iter.remaining(),
                Err(miss) => iter.remaining().len() != LEN && miss == arity_error(
                    iter.remaining().len(),
                ),
            },
    {
        let mut cells: Vec<C> = Vec::new();
        let mut excess: usize = 0;
        let mut rest = iter;
        proof {
            assert(iter.remaining().take(0) =~= cells@);
            assert(iter.remaining().skip(0) =~= iter.remaining());
        }
        loop
            invariant
                rest.obeys_prophetic_iter_laws(),
                rest.decrease() is Some,
                rest.remaining().len() <= iter.remaining().len(),
                rest.remaining() == iter.remaining().skip(
                    iter.remaining().len() - rest.remaining().len(),
                ),
                cells@.len() <= LEN,
                cells@.len() < LEN ==> excess == 0,
                excess <= isize::MAX,
                cells@ == iter.remaining().take(cells@.len() as int),
                iter.remaining().len() - rest.remaining().len() - cells@.len() == excess || (excess
                    == isize::MAX && iter.remaining().len() - rest.remaining().len() - cells@.len()
                    > excess),
            ensures
                rest.remaining().len() == 0,
            decreases rest.decrease()->0,
        {
            let ghost before = rest.remaining();
            let ghost taken = iter.remaining().len() - before.len();
            match rest.next() {
                None => {
                    break ;
                },
                Some(cell) => {
                    proof {
                        assert(cell == iter.remaining()[taken]);
                        assert(rest.remaining() =~= iter.remaining().skip(taken + 1));
                    }
                    if cells.len() < LEN {
                        proof {
                            assert(iter.remaining().take(cells@.len() as int + 1) =~= cells@.push(cell));
                        }
                        cells.push(cell);
                    } else if excess < isize::MAX as usize {
                        excess = excess + 1;
                    }
                },
            }
        }
        proof {
            assert(iter.remaining().len() == cells@.len() + excess || excess == isize::MAX);
            if cells@.len() == LEN && excess == 0 {
                assert(iter.remaining().take(LEN as int) =~= iter.remaining());
            }
        }
        if cells.len() < LEN {
            Err(-((LEN - cells.len()) as isize))
        } else if excess > 0 {
            Err(excess as isize)
        } else {
            Ok(Columns(array_from_vec(cells)))
        }
    }
}

/// The first `upto` cells of the grid that `data` holds, one byte for each
/// cell.
pub open spec fn grid_cells<C: TryFrom<u8, Error = Fault>>(data: Seq<u8>, upto: nat) -> Result<
    Seq<C>,
    Fault,
>
    decreases upto,
{
    if upto == 0 {
        Ok(Seq::empty())
    } else {
        match grid_cells::<C>(data, (upto - 1) as nat) {
            Err(fault) => Err(fault),
            Ok(cells) => if upto - 1 >= data.len() {
                Err(Fault::MissingValues)
            } else {
                match C::try_from_spec(data[upto - 1]) {
                    Ok(cell) => Ok(cells.push(cell)),
                    Err(fault) => Err(fault),
                }
            },
        }
    }
}

/// The grid that `data` holds, one byte for each cell. What stands behind
/// the last cell is passed over.
pub fn grid_from_bytes<C: TryFrom<u8, Error = Fault>>(data: &[u8]) -> (r: Result<Columns<C>, Fault>)
    requires
        C::obeys_try_from_spec(),
    ensures
        match r {
            Ok(grid) => grid_cells::<C>(data@, LEN as nat) == Ok::<Seq<C>, Fault>(grid@),
            Err(fault) => grid_cells::<C>(data@, LEN as nat) == Err::<Seq<C>, Fault>(fault),
        },
{
    let mut cells: Vec<C> = Vec::new();
    let mut i: usize = 0;
    while i < LEN
        invariant
            i <= LEN,
            cells@.len() == i,
            C::obeys_try_from_spec(),
            grid_cells::<C>(data@, i as nat) == Ok::<Seq<C>, Fault>(cells@),
        decreases LEN - i,
    {
        if i >= data.len() {
            proof {
                lemma_grid_fault::<C>(data@, (i + 1) as nat, LEN as nat);
            }
            return Err(Fault::MissingValues);
        }
        match C::try_from(data[i]) {
            Ok(cell) => {
                cells.push(cell);
            },
            Err(fault) => {
                proof {
                    lemma_grid_fault::<C>(data@, (i + 1) as nat, LEN as nat);
                }
                return Err(fault);
            },
        }
        i = i + 1;
    }
    Ok(Columns(array_from_vec(cells)))
}

/// A fault among the first cells is the fault of the whole grid.
proof fn lemma_grid_fault<C: TryFrom<u8, Error = Fault>>(data: Seq<u8>, upto: nat, all: nat)
    requires
        upto <= all,
        grid_cells::<C>(data, upto) is Err,
    ensures
        grid_cells::<C>(data, all) == grid_cells::<C>(data, upto),
    decreases all,
{
    if upto < all {
        lemma_grid_fault::<C>(data, upto, (all - 1) as nat);
    }
}

} // verus!
