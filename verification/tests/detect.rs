use quarto::board::Board;
use quarto::game::play_piece;

/// Square `s` receives piece `DRAW_ASSIGNMENT[s]`; filling the board in
/// square order never completes a line with a shared feature.
const DRAW_ASSIGNMENT: [usize; 16] = [2, 0, 10, 13, 14, 5, 12, 1, 6, 3, 7, 8, 9, 11, 4, 15];

#[test]
fn tall_row_wins_only_when_complete() {
    // pieces 0, 2, 4 and 6 all carry the Tall feature (an even catalog
    // byte index has bit 0 set); the second row is positions 4..8
    let mut board = Board::new();

    play_piece(&mut board, 0, 1, 0);
    assert!(!board.detect_win());

    play_piece(&mut board, 2, 1, 1);
    assert!(!board.detect_win());

    play_piece(&mut board, 4, 1, 2);
    assert!(!board.detect_win());

    play_piece(&mut board, 6, 1, 3);
    assert!(board.detect_win());
}

#[test]
fn tall_row_wins_in_another_order() {
    let mut board = Board::new();

    play_piece(&mut board, 4, 1, 3);
    assert!(!board.detect_win());

    play_piece(&mut board, 0, 1, 1);
    assert!(!board.detect_win());

    play_piece(&mut board, 6, 1, 0);
    assert!(!board.detect_win());

    play_piece(&mut board, 2, 1, 2);
    assert!(board.detect_win());
}

#[test]
fn line_without_shared_feature_is_no_win() {
    // the feature bytes of pieces 0, 5, 10 and 15 AND to zero
    let order = Board::piece_order();
    assert_eq!(order[0] & order[5] & order[10] & order[15], 0);
    let mut board = Board::new();

    play_piece(&mut board, 0, 0, 0);
    play_piece(&mut board, 5, 0, 1);
    play_piece(&mut board, 10, 0, 2);
    play_piece(&mut board, 15, 0, 3);
    assert!(!board.detect_win());
    assert!(!board.check_four([0, 1, 2, 3]));
}

#[test]
fn red_interior_quad_wins() {
    // pieces 0, 1, 4 and 5 all carry the Red feature; positions 5, 6, 9
    // and 10 form the interior 2x2 block
    let mut board = Board::new();

    play_piece(&mut board, 0, 1, 1);
    assert!(!board.detect_win());

    play_piece(&mut board, 1, 1, 2);
    assert!(!board.detect_win());

    play_piece(&mut board, 4, 2, 1);
    assert!(!board.detect_win());

    play_piece(&mut board, 5, 2, 2);
    assert!(board.detect_win());
}

#[test]
fn check_four_reports_single_lines() {
    let mut board = Board::new();
    play_piece(&mut board, 0, 1, 0);
    play_piece(&mut board, 2, 1, 1);
    play_piece(&mut board, 4, 1, 2);
    play_piece(&mut board, 6, 1, 3);
    assert!(board.check_four([4, 5, 6, 7]));
    // an incomplete line never wins
    assert!(!board.check_four([0, 1, 2, 3]));
    assert!(!board.check_four([0, 4, 8, 12]));
}

#[test]
fn full_board_without_shared_lines_never_wins() {
    let mut board = Board::new();
    for square in 0..16 {
        board.nominate_inplace(DRAW_ASSIGNMENT[square]).unwrap();
        board
            .place_inplace(quarto::position::Position::from_index(square).unwrap())
            .unwrap();
        assert!(!board.detect_win());
    }
    assert_eq!(board.placed_count(), 16);
    assert_eq!(board.piece_bits(), 0);
}
