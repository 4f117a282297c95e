//! Laws of the move operation that relate several calls: a refused request
//! stays refused no matter how often it is repeated, and a granted move can
//! be undone by the very next request.

use vstd::prelude::*;

use crate::board::empty_index;
use crate::board::lemma_unique_empty_cell;
use crate::board::move_allowed;
use crate::board::move_result;
use crate::perm::is_permutation;

verus! {

/// The board after `times` move requests for the same cell address.
pub open spec fn repeat_move(s: Seq<usize>, n: nat, row: int, col: int, times: nat) -> Seq<usize>
    decreases times,
{
    if times == 0 {
        s
    } else {
        move_result(repeat_move(s, n, row, col, (times - 1) as nat), n, row, col)
    }
}

/// Repeating a request that is not granted — out of range, or not adjacent
/// to the empty cell — never changes the board, however often it is made.
pub proof fn lemma_illegal_move_idempotent(
    s: Seq<usize>,
    n: nat,
    row: int,
    col: int,
    times: nat,
)
    requires
        !move_allowed(s, n, row, col),
    ensures
        repeat_move(s, n, row, col, times) == s,
    decreases times,
{
    if times > 0 {
        lemma_illegal_move_idempotent(s, n, row, col, (times - 1) as nat);
    }
}

/// A granted move can be undone: after the empty cell, at index `j`, swaps
/// with a requested adjacent cell, requesting the cell at `j` is itself a
/// granted move and restores the original board exactly.
pub proof fn lemma_move_reversible(s: Seq<usize>, n: nat, row: int, col: int)
    requires
        is_permutation(s),
        s.len() == n * n,
        2 <= n,
        move_allowed(s, n, row, col),
    ensures
        ({
            let j = empty_index(s);
            let s1 = move_result(s, n, row, col);
            &&& move_allowed(s1, n, j / (n as int), j % (n as int))
            &&& move_result(s1, n, j / (n as int), j % (n as int)) == s
        }),
{
    assert((n as int) * (n as int) > 0) by (nonlinear_arith)
        requires
            2 <= n,
    ;
    lemma_unique_empty_cell(s);
    let j = empty_index(s);
    let i = row * (n as int) + col;
    let s1 = move_result(s, n, row, col);
    assert(0 <= i < n * n) by (nonlinear_arith)
        requires
            2 <= n,
            0 <= row < n,
            0 <= col < n,
            i == row * (n as int) + col,
    ;
    vstd::arithmetic::div_mod::lemma_fundamental_div_mod_converse(i, n as int, row, col);
    vstd::arithmetic::div_mod::lemma_fundamental_div_mod(j, n as int);
    assert(0 <= j / (n as int) < n && 0 <= j % (n as int) < n && i != j && j == (j / (n as int))
        * (n as int) + j % (n as int)) by (nonlinear_arith)
        requires
            2 <= n,
            0 <= row < n,
            0 <= col < n,
            0 <= j < n * n,
            i == row * (n as int) + col,
            j == (n as int) * (j / (n as int)) + j % (n as int),
            row != j / (n as int) || col != j % (n as int),
    ;
    assert(s.update(i, 0usize) == s.update(i, s[j]));
    crate::perm::lemma_swap_preserves_permutation(s, i, j);
    assert(s1[i] == 0);
    crate::board::lemma_empty_index_unique(s1, i);
    let s2 = move_result(s1, n, j / (n as int), j % (n as int));
    assert(s2 == s1.update(j, 0usize).update(i, s1[j]));
    assert(s2 =~= s);
}

} // verus!
