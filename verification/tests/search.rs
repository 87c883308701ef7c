use quarto::board::Board;
use quarto::game::play_piece;
use quarto::minimax::{MinimaxPlayer, WIN_SCORE};
use quarto::position::Position;

const DRAW_ASSIGNMENT: [usize; 16] = [2, 0, 10, 13, 14, 5, 12, 1, 6, 3, 7, 8, 9, 11, 4, 15];

/// The draw arrangement stopped after the first twelve squares: pieces
/// 4, 9, 11 and 15 remain, squares 12..16 are free, and no line is won.
fn twelve_placed_board() -> Board {
    let mut board = Board::new();
    for square in 0..12 {
        board.nominate_inplace(DRAW_ASSIGNMENT[square]).unwrap();
        board.place_inplace(Position::from_index(square).unwrap()).unwrap();
    }
    board
}

#[test]
fn evaluate_empty_board() {
    // no piece placed: every line ANDs the all-ones wildcard to eight
    // shared features, and all 16 moves are open
    let player = MinimaxPlayer;
    assert_eq!(player.evaluate_board(&Board::new()), 24);
}

#[test]
fn evaluate_won_board() {
    let player = MinimaxPlayer;
    let mut board = Board::new();
    play_piece(&mut board, 0, 1, 0);
    play_piece(&mut board, 2, 1, 1);
    play_piece(&mut board, 4, 1, 2);
    play_piece(&mut board, 6, 1, 3);
    assert!(board.detect_win());
    assert_eq!(player.evaluate_board(&board), WIN_SCORE);
}

#[test]
fn evaluate_counts_best_line() {
    let player = MinimaxPlayer;
    let mut board = Board::new();
    play_piece(&mut board, 0, 0, 0);
    // 15 moves remain; the best line through the piece still ANDs the
    // wildcards to the piece's own four features, other lines keep eight
    assert_eq!(player.evaluate_board(&board), 15 + 8);
}

#[test]
fn evaluate_twelve_placed_board() {
    // four moves remain; the best of the 19 lines shares all eight feature
    // wildcards through its free squares
    let player = MinimaxPlayer;
    assert_eq!(player.evaluate_board(&twelve_placed_board()), 12);
}

#[test]
fn shallow_search_sees_the_immediate_win() {
    // with piece 9 nominated, one free square completes a line, so the
    // maximizing placer reaches the win score after a single ply while the
    // minimizing placer reaches its negation
    let player = MinimaxPlayer;
    let mut board = twelve_placed_board();
    board.nominate_inplace(9).unwrap();
    assert_eq!(player.maxi_place(1, &board), WIN_SCORE);
    assert_eq!(player.mini_place(1, &board), -WIN_SCORE);
    assert_eq!(player.maxi_place(2, &board), WIN_SCORE);
}

#[test]
fn depth_zero_search_is_static_evaluation() {
    let player = MinimaxPlayer;
    let mut board = Board::new();
    play_piece(&mut board, 3, 2, 2);
    let e = player.evaluate_board(&board);
    assert_eq!(player.maxi_place(0, &board), e);
    assert_eq!(player.maxi_nominate(0, &board), e);
    assert_eq!(player.mini_place(0, &board), -e);
    assert_eq!(player.mini_nominate(0, &board), -e);
}

#[test]
fn scored_candidate_sets_are_deterministic() {
    let player = MinimaxPlayer;
    let board = twelve_placed_board();
    let first = player.nomination_scores(&board);
    let second = player.nomination_scores(&board);
    assert_eq!(first, second);
    assert_eq!(first.len(), 4);

    let mut nominated = board;
    nominated.nominate_inplace(9).unwrap();
    let first_places = player.placement_scores(&nominated);
    let second_places = player.placement_scores(&nominated);
    assert_eq!(first_places, second_places);
    assert_eq!(first_places.len(), 4);
}

#[test]
fn placement_scores_spot_the_winning_square() {
    // with piece 9 nominated on the twelve-piece board, only square 15
    // completes a shared-feature line
    let player = MinimaxPlayer;
    let mut board = twelve_placed_board();
    board.nominate_inplace(9).unwrap();
    let scores = player.placement_scores(&board);
    assert_eq!(
        scores,
        vec![(12, -WIN_SCORE), (13, -WIN_SCORE), (14, -WIN_SCORE), (15, WIN_SCORE)]
    );
}

#[test]
fn nomination_scores_on_forced_board() {
    // on the twelve-piece board every nomination lets the opponent win
    let player = MinimaxPlayer;
    let board = twelve_placed_board();
    let scores = player.nomination_scores(&board);
    assert_eq!(
        scores,
        vec![(4, -WIN_SCORE), (9, -WIN_SCORE), (11, -WIN_SCORE), (15, -WIN_SCORE)]
    );
}

#[test]
fn place_takes_the_winning_square() {
    let mut player = MinimaxPlayer;
    let mut board = twelve_placed_board();
    board.nominate_inplace(9).unwrap();
    let pos = player.place(&board);
    assert_eq!(pos.to_index(), 15);
    let after = board.place(pos).unwrap();
    assert!(after.detect_win());
}

#[test]
fn chosen_nomination_is_available() {
    let mut player = MinimaxPlayer;
    let board = twelve_placed_board();
    let piece = player.nominate(&board);
    assert!(board.piece_indexes().contains(&piece));
}

#[test]
fn chosen_placement_is_free() {
    let mut player = MinimaxPlayer;
    let mut board = twelve_placed_board();
    board.nominate_inplace(4).unwrap();
    let pos = player.place(&board);
    assert!(board.free_spaces().contains(&pos.to_index()));
    assert!(board.place_inplace(pos).is_ok());
}
