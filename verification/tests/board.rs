use puzzle_board::board::MoveOutcome;
use puzzle_board::board::PuzzleBoard;

fn cells_of(b: &PuzzleBoard) -> Vec<usize> {
    let mut out: Vec<usize> = Vec::new();
    let mut i: usize = 0;
    while i < b.cell_count() {
        out.push(b.tile_at(i));
        i += 1;
    }
    out
}

fn identity(total: usize) -> Vec<usize> {
    (0..total).collect()
}

#[test]
fn initialize_yields_solved_board() {
    let b = PuzzleBoard::initialize(4);
    assert_eq!(b.dimension(), 4);
    assert_eq!(b.cell_count(), 16);
    assert_eq!(cells_of(&b), identity(16));
    // the empty cell starts at (0, 0)
    assert_eq!(b.tile_at(0), 0);
}

#[test]
fn adjacent_move_slides_tile() {
    let mut b = PuzzleBoard::initialize(4);
    let outcome = b.request_move(0, 1);
    assert_eq!(outcome, MoveOutcome::Moved);
    let mut expected = identity(16);
    expected[0] = 1;
    expected[1] = 0;
    assert_eq!(cells_of(&b), expected);
}

#[test]
fn diagonal_move_is_a_no_op() {
    let mut b = PuzzleBoard::initialize(4);
    let outcome = b.request_move(1, 1);
    assert_eq!(outcome, MoveOutcome::Illegal);
    assert_eq!(cells_of(&b), identity(16));
}

#[test]
fn far_corner_move_is_a_no_op() {
    let mut b = PuzzleBoard::initialize(4);
    let outcome = b.request_move(3, 3);
    assert_eq!(outcome, MoveOutcome::Illegal);
    assert_eq!(cells_of(&b), identity(16));
}

#[test]
fn moving_back_restores_the_board() {
    let mut b = PuzzleBoard::initialize(4);
    assert_eq!(b.request_move(0, 1), MoveOutcome::Moved);
    // the empty cell is now at (0, 1); moving its old position's tile back
    let outcome = b.request_move(0, 0);
    assert_eq!(outcome, MoveOutcome::Moved);
    assert_eq!(cells_of(&b), identity(16));
}

#[test]
fn out_of_range_address_is_rejected() {
    let mut b = PuzzleBoard::initialize(4);
    assert_eq!(b.request_move(4, 0), MoveOutcome::InvalidCellAddress);
    assert_eq!(b.request_move(0, 4), MoveOutcome::InvalidCellAddress);
    assert_eq!(b.request_move(100, 100), MoveOutcome::InvalidCellAddress);
    assert_eq!(cells_of(&b), identity(16));
}

#[test]
fn repeated_illegal_request_never_changes_state() {
    let mut b = PuzzleBoard::initialize(4);
    for _ in 0..5 {
        assert_eq!(b.request_move(2, 2), MoveOutcome::Illegal);
        assert_eq!(cells_of(&b), identity(16));
    }
}

#[test]
fn legal_move_changes_exactly_two_cells() {
    let mut b = PuzzleBoard::initialize(4);
    let before = cells_of(&b);
    // empty cell at index 0; (1, 0) is index 4, orthogonally below it
    assert_eq!(b.request_move(1, 0), MoveOutcome::Moved);
    let after = cells_of(&b);
    let changed: Vec<usize> = (0..16).filter(|&k| before[k] != after[k]).collect();
    assert_eq!(changed, vec![0, 4]);
    assert_eq!(after[0], 4);
    assert_eq!(after[4], 0);
}

#[test]
fn shuffle_keeps_a_permutation() {
    let mut b = PuzzleBoard::initialize(4);
    b.shuffle();
    assert_eq!(b.dimension(), 4);
    assert_eq!(b.cell_count(), 16);
    let cells = cells_of(&b);
    let mut seen = [false; 16];
    for &v in &cells {
        assert!(v < 16);
        assert!(!seen[v]);
        seen[v] = true;
    }
    assert!(seen.iter().all(|&x| x));
}

#[test]
fn moves_after_shuffle_keep_a_permutation() {
    let mut b = PuzzleBoard::initialize(4);
    b.shuffle();
    for r in 0..4 {
        for c in 0..4 {
            let _ = b.request_move(r, c);
        }
    }
    let cells = cells_of(&b);
    let mut sorted = cells.clone();
    sorted.sort();
    assert_eq!(sorted, identity(16));
}

#[test]
fn smaller_grid_behaves_the_same() {
    let mut b = PuzzleBoard::initialize(2);
    assert_eq!(cells_of(&b), identity(4));
    assert_eq!(b.request_move(1, 1), MoveOutcome::Illegal);
    assert_eq!(b.request_move(0, 1), MoveOutcome::Moved);
    assert_eq!(cells_of(&b), vec![1, 0, 2, 3]);
    assert_eq!(b.request_move(1, 1), MoveOutcome::Moved);
    assert_eq!(cells_of(&b), vec![1, 3, 2, 0]);
    assert_eq!(b.request_move(2, 0), MoveOutcome::InvalidCellAddress);
}
