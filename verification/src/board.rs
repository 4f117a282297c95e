//! The puzzle board and its operations: initialization, random shuffle, and
//! move application.

use vstd::prelude::*;

use rand::seq::SliceRandom;

use crate::perm::is_permutation;
use crate::perm::lemma_rearrangement_is_permutation;
use crate::perm::lemma_swap_preserves_permutation;

verus! {

/// What a move request reports back: whether the tile slid, was refused as
/// not adjacent to the empty cell, or named a cell outside the grid.
#[derive(Clone, Copy, Debug, PartialEq, Eq, Structural)]
pub enum MoveOutcome {
    /// The requested cell was orthogonally adjacent to the empty cell, and
    /// its tile slid into the empty cell.
    Moved,
    /// The requested cell was in range but not orthogonally adjacent to the
    /// empty cell; the board is untouched.
    Illegal,
    /// The requested row or column is not below the grid dimension; the
    /// board is untouched.
    InvalidCellAddress,
}

/// Orthogonal adjacency of two cell addresses: same row and the columns
/// differ by exactly one, or same column and the rows differ by exactly one.
pub open spec fn adjacent(r1: int, c1: int, r2: int, c2: int) -> bool {
    ||| r1 == r2 && (c1 == c2 + 1 || c1 + 1 == c2)
    ||| c1 == c2 && (r1 == r2 + 1 || r1 + 1 == r2)
}

/// The index of the empty cell: the cell holding identifier `0` (unique on a
/// well-formed board).
pub open spec fn empty_index(s: Seq<usize>) -> int {
    choose|j: int| 0 <= j < s.len() && s[j] == 0
}

/// A request `(row, col)` is granted exactly when the address is in range
/// and the cell is orthogonally adjacent to the empty cell.
pub open spec fn move_allowed(s: Seq<usize>, n: nat, row: int, col: int) -> bool {
    let j = empty_index(s);
    &&& 0 <= row < n
    &&& 0 <= col < n
    &&& adjacent(row, col, j / (n as int), j % (n as int))
}

/// The board after a move request: when the request is granted the empty
/// cell swaps with the requested cell, otherwise the board is unchanged.
pub open spec fn move_result(s: Seq<usize>, n: nat, row: int, col: int) -> Seq<usize> {
    if move_allowed(s, n, row, col) {
        let i = row * (n as int) + col;
        let j = empty_index(s);
        s.update(i, 0usize).update(j, s[i])
    } else {
        s
    }
}

/// What a move request reports for a given board and cell address.
pub open spec fn move_outcome(s: Seq<usize>, n: nat, row: int, col: int) -> MoveOutcome {
    if !(0 <= row < n && 0 <= col < n) {
        MoveOutcome::InvalidCellAddress
    } else if move_allowed(s, n, row, col) {
        MoveOutcome::Moved
    } else {
        MoveOutcome::Illegal
    }
}

/// On a board without duplicate values, any cell holding `0` is the empty
/// cell `empty_index` names.
pub proof fn lemma_empty_index_unique(s: Seq<usize>, j: int)
    requires
        s.no_duplicates(),
        0 <= j < s.len(),
        s[j] == 0,
    ensures
        empty_index(s) == j,
        s[empty_index(s)] == 0,
{
    let z = empty_index(s);
    assert(0 <= z < s.len() && s[z] == 0);
}

/// A board holding a permutation of `0 .. len` has exactly one empty cell:
/// `empty_index` names a cell holding `0`, and no other cell holds `0`.
pub proof fn lemma_unique_empty_cell(s: Seq<usize>)
    requires
        is_permutation(s),
        s.len() > 0,
    ensures
        0 <= empty_index(s) < s.len(),
        s[empty_index(s)] == 0,
        forall|k: int| 0 <= k < s.len() && s[k] == 0 ==> k == empty_index(s),
{
    let v0: int = 0;
    assert(s.contains(v0 as usize));
    let z = choose|z: int| 0 <= z < s.len() && s[z] == (v0 as usize);
    lemma_empty_index_unique(s, z);
    assert forall|k: int| 0 <= k < s.len() && s[k] == 0 implies k == empty_index(s) by {
        lemma_empty_index_unique(s, k);
    }
}

/// Relies on rand::seq::SliceRandom::shuffle (a Fisher-Yates shuffle): it
/// rearranges the slice in place, so afterwards the slice holds exactly the
/// elements it held before, in some order.
#[verifier::external_body]
fn shuffle_cells(cells: &mut Vec<usize>)
    ensures
        final(cells)@.len() == old(cells)@.len(),
        final(cells)@.to_multiset() == old(cells)@.to_multiset(),
{
    let mut rng = rand::rng();
    cells.shuffle(&mut rng);
}

/// An N x N sliding-tile board. Cell `i` (row-major: `i == row * N + col`)
/// holds a tile identifier in `0 .. N*N`; identifier `0` marks the empty cell.
pub struct PuzzleBoard {
    n: usize,
    cells: Vec<usize>,
}

impl PuzzleBoard {
    /// The grid dimension N.
    pub closed spec fn dim(&self) -> nat {
        self.n as nat
    }

    /// The board as a sequence of cell values, row-major.
    pub closed spec fn view(&self) -> Seq<usize> {
        self.cells@
    }

    /// The board invariant: a non-trivial square grid whose cells always hold
    /// a permutation of `0 .. N*N` (so exactly one cell is empty).
    pub open spec fn wf(&self) -> bool {
        &&& 2 <= self.dim()
        &&& self@.len() == self.dim() * self.dim()
        &&& is_permutation(self@)
    }

    /// Creates the solved board: `cells[i] == i` for every `i`, so the empty
    /// cell starts at index `0`.
    pub fn initialize(n: usize) -> (b: PuzzleBoard)
        requires
            2 <= n,
            n * n <= usize::MAX,
        ensures
            b.wf(),
            b.dim() == n,
            forall|i: int| 0 <= i < n * n ==> b@[i] == i,
    {
        let total = n * n;
        let mut cells: Vec<usize> = Vec::new();
        let mut i: usize = 0;
        while i < total
            invariant
                i <= total,
                cells@.len() == i,
                forall|k: int| 0 <= k < i ==> cells@[k] == k,
            decreases total - i,
        {
            cells.push(i);
            i = i + 1;
        }
        let b = PuzzleBoard { n, cells };
        assert(is_permutation(b@)) by {
            assert forall|v: int| 0 <= v < b@.len() implies #[trigger] b@.contains(v as usize) by {
                assert(b@[v] == v);
            }
        }
        b
    }

    /// Randomizes the board: a random rearrangement of the whole cell
    /// sequence (not a walk of legal moves, so the result is not guaranteed
    /// reachable from the solved board by sliding tiles).
    pub fn shuffle(&mut self)
        requires
            old(self).wf(),
        ensures
            final(self).wf(),
            final(self).dim() == old(self).dim(),
            final(self)@.to_multiset() == old(self)@.to_multiset(),
    {
        shuffle_cells(&mut self.cells);
        proof {
            lemma_rearrangement_is_permutation(old(self)@, self@);
        }
    }

    /// Requests that the tile at `(row, col)` slide into the empty cell.
    ///
    /// When the address is in range and orthogonally adjacent to the empty
    /// cell, the tile and the empty cell swap places and the call reports
    /// `Moved`. A non-adjacent in-range address is a silent no-op reported as
    /// `Illegal`; an out-of-range address is rejected as `InvalidCellAddress`.
    /// At most two cells change: the empty cell's prior position and the
    /// requested cell; the board mutates exactly when the request is granted.
    pub fn request_move(&mut self, row: usize, col: usize) -> (outcome: MoveOutcome)
        requires
            old(self).wf(),
        ensures
            final(self).wf(),
            final(self).dim() == old(self).dim(),
            final(self)@ == move_result(old(self)@, old(self).dim(), row as int, col as int),
            outcome == move_outcome(old(self)@, old(self).dim(), row as int, col as int),
            forall|k: int|
                0 <= k < old(self)@.len() && k != (row as int) * (old(self).dim() as int) + (
                col as int) && k != empty_index(old(self)@) ==> final(self)@[k] == old(self)@[k],
            (final(self)@ == old(self)@) <==> !move_allowed(
                old(self)@,
                old(self).dim(),
                row as int,
                col as int,
            ),
    {
        let n = self.n;
        if row >= n || col >= n {
            return MoveOutcome::InvalidCellAddress;
        }
        let len = self.cells.len();
        proof {
            assert((row as int) * (n as int) + (col as int) < (n as int) * (n as int))
                by (nonlinear_arith)
                requires
                    row < n,
                    col < n,
            ;
            assert((n as int) < (n as int) * (n as int)) by (nonlinear_arith)
                requires
                    2 <= n,
            ;
        }
        let i = row * n + col;
        let mut j: usize = 0;
        while self.cells[j] != 0
            invariant
                *self == *old(self),
                self.wf(),
                self.dim() == n,
                len == self@.len(),
                j < len,
                forall|k: int| 0 <= k < j ==> self@[k] != 0,
            decreases self@.len() - j,
        {
            j = j + 1;
            proof {
                let ghost v0: int = 0;
                assert(self@.contains(v0 as usize));
                let z = choose|z: int| 0 <= z < self@.len() && self@[z] == 0usize;
                assert(j <= z);
            }
        }
        proof {
            lemma_empty_index_unique(self@, j as int);
            assert((j as int) / (n as int) < n as int && (j as int) % (n as int) < n as int
                && (j as int) == (n as int) * ((j as int) / (n as int)) + (j as int) % (n as int))
                by (nonlinear_arith)
                requires
                    2 <= n,
                    (j as int) < (n as int) * (n as int),
            ;
        }
        let r2 = j / n;
        let c2 = j % n;
        let legal = (row == r2 && (col + 1 == c2 || c2 + 1 == col)) || (col == c2 && (row + 1 == r2
            || r2 + 1 == row));
        if legal {
            proof {
                vstd::arithmetic::div_mod::lemma_fundamental_div_mod(j as int, n as int);
                assert((row as int) * (n as int) + (col as int) != (n as int) * (r2 as int) + (
                c2 as int)) by (nonlinear_arith)
                    requires
                        2 <= n,
                        row < n,
                        col < n,
                        r2 < n,
                        c2 < n,
                        (row != r2 || col != c2),
                ;
                assert(i != j);
            }
            let v = self.cells[i];
            self.cells[i] = 0;
            self.cells[j] = v;
            proof {
                let s = old(self)@;
                let gi = i as int;
                let gj = j as int;
                assert(s.update(gi, 0usize) == s.update(gi, s[gj]));
                lemma_swap_preserves_permutation(s, gi, gj);
                assert(self@ != s) by {
                    assert(self@[gi] == 0usize && s[gi] != 0usize);
                }
            }
            MoveOutcome::Moved
        } else {
            MoveOutcome::Illegal
        }
    }

    /// The grid dimension N.
    pub fn dimension(&self) -> (d: usize)
        ensures
            d == self.dim(),
    {
        self.n
    }

    /// The number of cells, N * N.
    pub fn cell_count(&self) -> (m: usize)
        ensures
            m == self@.len(),
    {
        self.cells.len()
    }

    /// The tile identifier at linear index `idx` (row-major); `0` means the
    /// cell is empty.
    pub fn tile_at(&self, idx: usize) -> (t: usize)
        requires
            idx < self@.len(),
        ensures
            t == self@[idx as int],
    {
        self.cells[idx]
    }
}

} // verus!
