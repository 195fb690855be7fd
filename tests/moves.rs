use chess::board::{Board, Color, Field, Figure, FigureKind, Move, board_index, is_empty, is_enemy, is_empty_or_enemy, get_direction, is_on_board};
use chess::movegen::board_get_valid_moves;
use chess::rules::{
    get_valid_moves_bishop, get_valid_moves_check_line, get_valid_moves_king,
    get_valid_moves_knight, get_valid_moves_pawn, get_valid_moves_queen, get_valid_moves_rook,
};
use chess::select::{board_random_move, move_at};
use chess::text::board_from_str;

const STANDARD: &str =
    "RNBKQBNRPPPPPPPP                                pppppppprnbqkbnr";

fn board_with(pieces: &[(usize, char)]) -> Board {
    let mut text: Vec<char> = vec![' '; 64];
    for (i, c) in pieces {
        text[*i] = *c;
    }
    let s: String = text.into_iter().collect();
    board_from_str(&s)
}

fn dests(moves: &[Move], from: (i32, i32)) -> Vec<(i32, i32)> {
    moves
        .iter()
        .filter_map(|m| match m {
            Move::BasicMove(s, d) if *s == from => Some(*d),
            _ => None,
        })
        .collect()
}

#[test]
fn standard_white_king_pawn_single_and_double_step() {
    let b = board_from_str(STANDARD);
    let moves = board_get_valid_moves(&b, Color::W);
    assert!(moves.contains(&Move::BasicMove((4, 6), (4, 5))));
    assert!(moves.contains(&Move::BasicMove((4, 6), (4, 4))));
    for m in &moves {
        if let Move::BasicMove((_, 6), (_, y)) = m {
            assert!(*y > 3);
        }
    }
}

#[test]
fn standard_opening_has_twenty_moves_each_side() {
    let b = board_from_str(STANDARD);
    assert_eq!(board_get_valid_moves(&b, Color::W).len(), 20);
    assert_eq!(board_get_valid_moves(&b, Color::B).len(), 20);
}

#[test]
fn rook_stops_at_captured_pawn() {
    let b = board_with(&[(0, 'r'), (24, 'P')]);
    let moves = board_get_valid_moves(&b, Color::W);
    assert!(moves.contains(&Move::BasicMove((0, 0), (0, 1))));
    assert!(moves.contains(&Move::BasicMove((0, 0), (0, 2))));
    assert!(moves.contains(&Move::BasicMove((0, 0), (0, 3))));
    for y in 4..8 {
        assert!(!moves.contains(&Move::BasicMove((0, 0), (0, y))));
    }
    assert_eq!(moves.len(), 3 + 7);
}

#[test]
fn rook_does_not_take_own_piece() {
    let b = board_with(&[(0, 'r'), (24, 'p')]);
    let mut moves = Vec::new();
    get_valid_moves_check_line((0, 0), (0, 1), &b, Color::W, &mut moves);
    assert_eq!(moves, vec![Move::BasicMove((0, 0), (0, 1)), Move::BasicMove((0, 0), (0, 2))]);
}

#[test]
fn black_knight_on_b8_has_three_moves() {
    let b = board_with(&[(1, 'N')]);
    let moves = board_get_valid_moves(&b, Color::B);
    assert_eq!(
        moves,
        vec![
            Move::BasicMove((1, 0), (2, 2)),
            Move::BasicMove((1, 0), (0, 2)),
            Move::BasicMove((1, 0), (3, 1)),
        ]
    );
}

#[test]
fn knight_in_centre_has_eight_moves_and_skips_own() {
    let b = board_with(&[(8 * 4 + 4, 'n'), (8 * 6 + 5, 'p'), (8 * 2 + 3, 'P')]);
    let mut moves = Vec::new();
    get_valid_moves_knight((4, 4), &b, Color::W, &mut moves);
    let d = dests(&moves, (4, 4));
    assert_eq!(d.len(), 7);
    assert!(!d.contains(&(5, 6)));
    assert!(d.contains(&(3, 2)));
}

#[test]
fn king_moves_in_corner_and_centre() {
    let b = board_with(&[(0, 'k')]);
    let mut moves = Vec::new();
    get_valid_moves_king((0, 0), &b, Color::W, &mut moves);
    assert_eq!(moves, vec![
        Move::BasicMove((0, 0), (1, 1)),
        Move::BasicMove((0, 0), (1, 0)),
        Move::BasicMove((0, 0), (0, 1)),
    ]);
    let b = board_with(&[(8 * 3 + 3, 'K'), (8 * 2 + 2, 'Q'), (8 * 4 + 4, 'q')]);
    let mut moves = Vec::new();
    get_valid_moves_king((3, 3), &b, Color::B, &mut moves);
    let d = dests(&moves, (3, 3));
    assert_eq!(d.len(), 7);
    assert!(!d.contains(&(2, 2)));
    assert!(d.contains(&(4, 4)));
}

#[test]
fn pawn_double_step_needs_both_squares_empty() {
    // far square occupied
    let b = board_with(&[(8 * 6 + 4, 'p'), (8 * 4 + 4, 'P')]);
    let mut moves = Vec::new();
    get_valid_moves_pawn((4, 6), &b, Color::W, &mut moves);
    assert_eq!(moves, vec![Move::BasicMove((4, 6), (4, 5))]);
    // near square occupied
    let b = board_with(&[(8 * 6 + 4, 'p'), (8 * 5 + 4, 'P')]);
    let mut moves = Vec::new();
    get_valid_moves_pawn((4, 6), &b, Color::W, &mut moves);
    assert!(moves.is_empty());
    // not on the home rank
    let b = board_with(&[(8 * 5 + 4, 'p')]);
    let mut moves = Vec::new();
    get_valid_moves_pawn((4, 5), &b, Color::W, &mut moves);
    assert_eq!(moves, vec![Move::BasicMove((4, 5), (4, 4))]);
    // black pawn on its home rank
    let b = board_with(&[(8 * 1 + 2, 'P')]);
    let mut moves = Vec::new();
    get_valid_moves_pawn((2, 1), &b, Color::B, &mut moves);
    assert_eq!(moves, vec![Move::BasicMove((2, 1), (2, 2)), Move::BasicMove((2, 1), (2, 3))]);
}

#[test]
fn pawn_captures_only_enemies_diagonally() {
    let b = board_with(&[(8 * 4 + 4, 'p'), (8 * 3 + 3, 'P'), (8 * 3 + 5, 'p'), (8 * 3 + 4, 'N')]);
    let mut moves = Vec::new();
    get_valid_moves_pawn((4, 4), &b, Color::W, &mut moves);
    assert_eq!(moves, vec![Move::BasicMove((4, 4), (3, 3))]);
}

#[test]
fn pawn_on_last_rank_has_no_moves() {
    let b = board_with(&[(3, 'p')]);
    let mut moves = Vec::new();
    get_valid_moves_pawn((3, 0), &b, Color::W, &mut moves);
    assert!(moves.is_empty());
}

#[test]
fn bishop_and_queen_from_corner() {
    let b = board_with(&[(63, 'b')]);
    let mut moves = Vec::new();
    get_valid_moves_bishop((7, 7), &b, Color::W, &mut moves);
    assert_eq!(moves.len(), 7);
    assert_eq!(moves[0], Move::BasicMove((7, 7), (6, 6)));
    assert_eq!(moves[6], Move::BasicMove((7, 7), (0, 0)));
    let b = board_with(&[(63, 'Q')]);
    let mut moves = Vec::new();
    get_valid_moves_queen((7, 7), &b, Color::B, &mut moves);
    assert_eq!(moves.len(), 21);
    let mut rook = Vec::new();
    get_valid_moves_rook((7, 7), &b, Color::B, &mut rook);
    assert_eq!(rook.len(), 14);
    assert_eq!(&moves[..14], &rook[..]);
}

#[test]
fn generated_moves_land_on_board_off_origin_and_off_own_pieces() {
    let b = board_with(&[
        (0, 'r'), (9, 'n'), (18, 'b'), (27, 'q'), (36, 'k'), (52, 'p'),
        (5, 'R'), (14, 'N'), (22, 'B'), (31, 'Q'), (44, 'K'), (11, 'P'),
    ]);
    for c in [Color::W, Color::B] {
        for m in board_get_valid_moves(&b, c) {
            match m {
                Move::BasicMove(s, d) => {
                    assert_ne!(s, d);
                    assert!(is_on_board(d));
                    match board_index(&b, s) {
                        Field::Figure(f) => assert!(f.color == c),
                        Field::Empty => panic!("move from an empty square"),
                    }
                    if let Field::Figure(f) = board_index(&b, d) {
                        assert!(f.color != c);
                    }
                }
                _ => panic!("only basic moves are generated"),
            }
        }
    }
}

#[test]
fn geometry_queries() {
    let b = board_with(&[(0, 'r'), (1, 'R')]);
    assert!(is_on_board((0, 0)));
    assert!(is_on_board((7, 7)));
    assert!(!is_on_board((8, 0)));
    assert!(!is_on_board((0, -1)));
    assert!(is_empty((2, 0), &b));
    assert!(!is_empty((0, 0), &b));
    assert!(is_enemy((1, 0), Color::W, &b));
    assert!(!is_enemy((0, 0), Color::W, &b));
    assert!(!is_enemy((2, 0), Color::W, &b));
    assert!(is_empty_or_enemy((2, 0), Color::W, &b));
    assert!(is_empty_or_enemy((1, 0), Color::W, &b));
    assert!(!is_empty_or_enemy((0, 0), Color::W, &b));
    assert_eq!(get_direction(Color::W), -1);
    assert_eq!(get_direction(Color::B), 1);
    assert_eq!(
        board_index(&b, (0, 0)),
        Field::Figure(Figure { kind: FigureKind::Rook, color: Color::W })
    );
}

#[test]
fn move_at_wraps_index() {
    let moves = vec![Move::BasicMove((0, 0), (0, 1)), Move::BasicMove((0, 0), (0, 2))];
    assert_eq!(move_at(&moves, 0), Some(Move::BasicMove((0, 0), (0, 1))));
    assert_eq!(move_at(&moves, 3), Some(Move::BasicMove((0, 0), (0, 2))));
    assert_eq!(move_at(&Vec::new(), 5), None);
}

#[test]
fn random_move_is_generated_or_none() {
    let b = board_from_str(STANDARD);
    let all = board_get_valid_moves(&b, Color::B);
    for _ in 0..20 {
        let m = board_random_move(&b, Color::B).unwrap();
        assert!(all.contains(&m));
    }
    let empty = board_from_str("");
    assert_eq!(board_random_move(&empty, Color::W), None);
}
