use quarto::board::{Board, QuartoError};
use quarto::feat::Feature;
use quarto::game::play_piece;
use quarto::piece::Piece;
use quarto::place::Placed;
use quarto::position::Position;

#[test]
fn new_board_is_empty() {
    let board = Board::new();
    assert_eq!(board.space_bits(), 0);
    assert_eq!(board.piece_bits(), 0xFFFF);
    assert_eq!(board.placed_count(), 0);
    assert!(board.nominated_index().is_none());
    assert!(board.nominated_piece().is_none());
    assert_eq!(board.free_spaces().len(), 16);
    assert_eq!(board.taken_spaces().len(), 0);
    assert_eq!(board.piece_indexes(), (0..16).collect::<Vec<usize>>());
    for i in 0..16 {
        assert!(board.get_square_index(i).is_none());
    }
    let default_board = Board::default();
    assert_eq!(default_board.space_bits(), 0);
    assert_eq!(default_board.piece_bits(), 0xFFFF);
}

#[test]
fn piece_order_catalog() {
    let order = Board::piece_order();
    assert_eq!(order.len(), 16);
    assert_eq!(order[0], 0b1010101);
    assert_eq!(order[7], 0b1101010);
    assert_eq!(order[8], 0b10010101);
    assert_eq!(order[15], 0b10101010);
    // every piece has exactly one feature of each of the four pairs
    for byte in order {
        for pair in 0..4 {
            let low = (byte >> (2 * pair)) & 1;
            let high = (byte >> (2 * pair + 1)) & 1;
            assert_eq!(low + high, 1);
        }
    }
}

#[test]
fn quartos_table() {
    let qs = Board::quartos();
    assert_eq!(qs.len(), 19);
    assert_eq!(qs[0], [0, 1, 2, 3]);
    assert_eq!(qs[8], [0, 5, 10, 15]);
    assert_eq!(qs[9], [3, 6, 9, 12]);
    assert_eq!(qs[18], [10, 11, 14, 15]);
}

#[test]
fn feature_masks() {
    assert_eq!(Feature::Tall.mask(), 0b00000001);
    assert_eq!(Feature::Short.mask(), 0b00000010);
    assert_eq!(Feature::Red.mask(), 0b00000100);
    assert_eq!(Feature::Blue.mask(), 0b00001000);
    assert_eq!(Feature::Square.mask(), 0b00010000);
    assert_eq!(Feature::Round.mask(), 0b00100000);
    assert_eq!(Feature::Hollow.mask(), 0b01000000);
    assert_eq!(Feature::Solid.mask(), 0b10000000);
    // the first catalog piece is tall, red, square and hollow
    let first = Board::piece_order()[0];
    assert_eq!(first & Feature::Tall.mask(), Feature::Tall.mask());
    assert_eq!(first & Feature::Red.mask(), Feature::Red.mask());
    assert_eq!(first & Feature::Square.mask(), Feature::Square.mask());
    assert_eq!(first & Feature::Hollow.mask(), Feature::Hollow.mask());
    assert_eq!(first & Feature::Solid.mask(), 0);
}

#[test]
fn nominate_unavailable_piece_fails() {
    let mut board = Board::new();
    // out of range index
    assert!(matches!(board.nominate_inplace(20), Err(QuartoError::PieceNotAvailable)));
    assert!(board.nominated_index().is_none());
    // a placed piece is no longer available
    play_piece(&mut board, 3, 0, 0);
    assert!(matches!(board.nominate_inplace(3), Err(QuartoError::PieceNotAvailable)));
    assert!(matches!(board.nominate(3), Err(QuartoError::PieceNotAvailable)));
    // an available piece succeeds
    assert!(board.nominate_inplace(5).is_ok());
    assert_eq!(board.nominated_index(), Some(5));
}

#[test]
fn place_without_nomination_fails() {
    let mut board = Board::new();
    let pos = Position::from_index(3).unwrap();
    assert!(matches!(board.place_inplace(pos), Err(QuartoError::NoneNominated)));
    assert!(matches!(board.place(pos), Err(QuartoError::NoneNominated)));
    assert_eq!(board.space_bits(), 0);
}

#[test]
fn place_on_occupied_square_fails() {
    let mut board = Board::new();
    play_piece(&mut board, 0, 0, 0);
    board.nominate_inplace(1).unwrap();
    let pos = Position::from_coord(0, 0).unwrap();
    assert!(matches!(board.place_inplace(pos), Err(QuartoError::OccupiedSquare)));
    // the failed placement consumed the nomination, as the transition does
    assert!(board.nominated_index().is_none());
    // the square still holds the first piece and the piece pool is unchanged
    assert_eq!(board.get_square_index(0), Some(Piece(Board::piece_order()[0])));
    assert_eq!(board.piece_bits() & (1 << 1), 1 << 1);
}

#[test]
fn place_fills_square_and_consumes_piece() {
    let mut board = Board::new();
    board.nominate_inplace(7).unwrap();
    assert_eq!(board.nominated_piece(), Some(Piece(Board::piece_order()[7])));
    let next = board.place(Position::from_coord(2, 3).unwrap()).unwrap();
    // the starting board is untouched, the new one holds the piece
    assert!(board.get_square_index(11).is_none());
    assert_eq!(next.get_square_index(11), Some(Piece(Board::piece_order()[7])));
    assert_eq!(next.get_square_position(Position::from_coord(2, 3).unwrap()),
        Some(Piece(Board::piece_order()[7])));
    assert!(next.nominated_index().is_none());
    assert_eq!(next.piece_bits() & (1 << 7), 0);
    assert_eq!(next.placed_count(), 1);
    assert_eq!(next.taken_spaces(), vec![11]);
    assert!(!next.free_spaces().contains(&11));
}

#[test]
fn piece_conservation_invariant() {
    // placed squares plus pool always account for the 16 pieces, and a
    // pending nomination always names a piece still in the pool
    let mut board = Board::new();
    let moves = [(0usize, 0usize, 0usize), (5, 1, 2), (9, 3, 3), (14, 2, 0)];
    for (n, r, c) in moves {
        board.nominate_inplace(n).unwrap();
        let nominated = board.nominated_index().unwrap();
        assert!(board.piece_indexes().contains(&nominated));
        assert_eq!(board.placed_count() + board.piece_indexes().len(), 16);
        board.place_inplace(Position::from_coord(r, c).unwrap()).unwrap();
        assert_eq!(board.placed_count() + board.piece_indexes().len(), 16);
    }
    assert_eq!(board.placed_count(), 4);
    assert_eq!(board.board_bits()[0], Board::piece_order()[0]);
    assert_eq!(board.board_bits()[6], Board::piece_order()[5]);
}

#[test]
fn position_from_coord_bounds() {
    assert!(Position::from_coord(0, 0).is_some());
    assert_eq!(Position::from_coord(3, 3).unwrap().to_index(), 15);
    assert_eq!(Position::from_coord(1, 2).unwrap().to_index(), 6);
    assert!(Position::from_coord(4, 0).is_none());
    assert!(Position::from_coord(0, 4).is_none());
    assert!(Position::from_coord(7, 9).is_none());
}

#[test]
fn position_from_index_bounds() {
    for i in 0..16 {
        assert_eq!(Position::from_index(i).unwrap().to_index(), i);
    }
    assert!(Position::from_index(16).is_none());
    assert!(Position::from_index(100).is_none());
}

#[test]
fn placed_from_nominated_pairs() {
    let pos = quarto::place::Position::from_coord(2, 1).unwrap();
    assert_eq!(pos.to_index(), 9);
    assert!(quarto::place::Position::from_coord(5, 0).is_none());
    let placed = Placed::from_nominated(Piece(0b1010101), pos);
    assert_eq!(placed.0, Piece(0b1010101));
    assert_eq!(placed.1.to_index(), 9);
}
