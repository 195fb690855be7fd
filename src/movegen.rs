//! The move generator: every pseudo-legal move of one side, in board scan order.
use vstd::prelude::*;
use crate::board::{Board, Color, Field, Figure, FigureKind, Move, Pos, pos_on_board, board_index_xy};
use crate::laws::{generated_move_sound, lemma_generated_moves_sound};
use crate::rules::{
    pawn_moves, knight_moves, rook_moves, bishop_moves, queen_moves, king_moves,
    get_valid_moves_pawn, get_valid_moves_knight, get_valid_moves_rook, get_valid_moves_bishop,
    get_valid_moves_queen, get_valid_moves_king,
};

verus! {

/// The moves of piece `f` standing on `s`, by the rule of its kind.
pub open spec fn figure_moves(f: Figure, s: Pos, b: Board) -> Seq<Move> {
    match f.kind {
        FigureKind::Pawn => pawn_moves(s, b, f.color),
        FigureKind::Knight => knight_moves(s, b, f.color),
        FigureKind::Rook => rook_moves(s, b, f.color),
        FigureKind::Bishop => bishop_moves(s, b, f.color),
        FigureKind::Queen => queen_moves(s, b, f.color),
        FigureKind::King => king_moves(s, b, f.color),
    }
}

/// The square scanned `i`-th: ranks in order, files in order within a rank.
pub open spec fn scan_square(i: int) -> Pos {
    ((i % 8) as i32, (i / 8) as i32)
}

/// The moves of the piece on the `i`-th scanned square, if it belongs to side `c`.
pub open spec fn square_moves(b: Board, c: Color, i: int) -> Seq<Move> {
    match b.at_pos(scan_square(i)) {
        Field::Figure(f) => if f.color == c {
            figure_moves(f, scan_square(i), b)
        } else {
            seq![]
        },
        Field::Empty => seq![],
    }
}

/// The moves of side `c` from the first `n` scanned squares.
pub open spec fn moves_upto(b: Board, c: Color, n: int) -> Seq<Move>
    decreases n,
{
    if n <= 0 {
        seq![]
    } else {
        moves_upto(b, c, n - 1) + square_moves(b, c, n - 1)
    }
}

/// Every pseudo-legal move of side `c` on `b`, in scan order.
pub open spec fn all_moves(b: Board, c: Color) -> Seq<Move> {
    moves_upto(b, c, 64)
}

/// Appends the moves of `figure` standing on `pos`.
pub fn figure_get_valid_moves(figure: Figure, board: &Board, pos: Pos, moves: &mut Vec<Move>)
    requires
        pos_on_board(pos),
    ensures
        final(moves)@ == old(moves)@ + figure_moves(figure, pos, *board),
{
    match figure.kind {
        FigureKind::Pawn => get_valid_moves_pawn(pos, board, figure.color, moves),
        FigureKind::Knight => get_valid_moves_knight(pos, board, figure.color, moves),
        FigureKind::Rook => get_valid_moves_rook(pos, board, figure.color, moves),
        FigureKind::Bishop => get_valid_moves_bishop(pos, board, figure.color, moves),
        FigureKind::Queen => get_valid_moves_queen(pos, board, figure.color, moves),
        FigureKind::King => get_valid_moves_king(pos, board, figure.color, moves),
    }
}

/// Every pseudo-legal move of side `c` on `b`: the squares are scanned rank by
/// rank and file by file, and each piece of `c` adds the moves of its rule.
/// Each is a `BasicMove` from a piece of `c` to another square on the board
/// that holds no piece of `c`.
pub fn board_get_valid_moves(b: &Board, c: Color) -> (moves: Vec<Move>)
    ensures
        moves@ == all_moves(*b, c),
        forall|m: Move| #[trigger] moves@.contains(m) ==> generated_move_sound(*b, c, m),
{
    proof {
        lemma_generated_moves_sound(*b, c);
    }
    let mut moves: Vec<Move> = Vec::with_capacity(4 * 8 + 14 * 4 + 8 * 2 + 7 * 4 + 8 + 2);
    let mut y: i32 = 0;
    while y < 8
        invariant
            0 <= y <= 8,
            moves@ == moves_upto(*b, c, 8 * y),
        decreases 8 - y,
    {
        let mut x: i32 = 0;
        while x < 8
            invariant
                0 <= y < 8,
                0 <= x <= 8,
                moves@ == moves_upto(*b, c, 8 * y + x),
            decreases 8 - x,
        {
            let ghost i: int = 8 * y + x;
            assert(scan_square(i) == (x, y));
            if let Field::Figure(f) = board_index_xy(b, x, y) {
                if f.color == c {
                    figure_get_valid_moves(f, b, (x, y), &mut moves);
                }
            }
            assert(moves@ =~= moves_upto(*b, c, i) + square_moves(*b, c, i));
            x = x + 1;
        }
        y = y + 1;
    }
    moves
}

} // verus!
