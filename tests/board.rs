use chess::board::{
    board_apply_basic_move, board_apply_valid_move, board_index_xy, board_set, ApplyError, Color,
    Field, Figure, FigureKind, Move,
};
use chess::movegen::board_get_valid_moves;
use chess::text::{board_from_str, board_to_text};

const STANDARD: &str =
    "RNBKQBNRPPPPPPPP                                pppppppprnbqkbnr";

#[test]
fn applying_king_pawn_double_step() {
    let before = board_from_str(STANDARD);
    let mut b = before;
    assert_eq!(board_apply_valid_move(&mut b, Move::BasicMove((4, 6), (4, 4))), Ok(()));
    assert_eq!(board_index_xy(&b, 4, 6), Field::Empty);
    assert_eq!(
        board_index_xy(&b, 4, 4),
        Field::Figure(Figure { kind: FigureKind::Pawn, color: Color::W })
    );
    for y in 0..8 {
        for x in 0..8 {
            if (x, y) != (4, 6) && (x, y) != (4, 4) {
                assert_eq!(board_index_xy(&b, x, y), board_index_xy(&before, x, y));
            }
        }
    }
}

#[test]
fn capture_overwrites_destination() {
    let mut b = board_from_str("r       P");
    board_apply_basic_move(&mut b, (0, 0), (0, 1));
    assert_eq!(board_index_xy(&b, 0, 0), Field::Empty);
    assert_eq!(
        board_index_xy(&b, 0, 1),
        Field::Figure(Figure { kind: FigureKind::Rook, color: Color::W })
    );
}

#[test]
fn special_moves_are_rejected_and_leave_board() {
    let before = board_from_str(STANDARD);
    for m in [
        Move::EnPassant((4, 6), (4, 4)),
        Move::Castling((4, 7), (6, 7)),
        Move::Promotion((0, 1), (0, 0)),
    ] {
        let mut b = before;
        assert_eq!(board_apply_valid_move(&mut b, m), Err(ApplyError::Unsupported));
        assert_eq!(b.fields, before.fields);
    }
}

#[test]
fn board_set_writes_one_square() {
    let mut b = board_from_str("");
    let q = Field::Figure(Figure { kind: FigureKind::Queen, color: Color::B });
    board_set(&mut b, (7, 3), q);
    assert_eq!(board_index_xy(&b, 7, 3), q);
    assert_eq!(board_index_xy(&b, 3, 7), Field::Empty);
}

#[test]
fn text_round_trip_through_a_game() {
    let mut b = board_from_str(STANDARD);
    assert_eq!(board_to_text(&b), STANDARD);
    let mut color = Color::W;
    for step in 0..12 {
        let moves = board_get_valid_moves(&b, color);
        let m = moves[(step * 7) % moves.len()];
        board_apply_valid_move(&mut b, m).unwrap();
        let again = board_from_str(&board_to_text(&b));
        assert_eq!(again.fields, b.fields);
        color = if color == Color::W { Color::B } else { Color::W };
    }
}
