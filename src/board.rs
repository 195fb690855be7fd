//! The board model: pieces, squares and the 8 by 8 grid.
use vstd::prelude::*;

verus! {

/// The two sides.
#[derive(PartialEq, Eq, Structural, Clone, Copy, Debug)]
pub enum Color {
    W,
    B,
}

/// The kinds of pieces.
#[derive(PartialEq, Eq, Structural, Clone, Copy, Debug)]
pub enum FigureKind {
    Pawn,
    Knight,
    Rook,
    Bishop,
    Queen,
    King,
}

/// A piece: its kind and its side.
#[derive(PartialEq, Eq, Structural, Clone, Copy, Debug)]
pub struct Figure {
    pub kind: FigureKind,
    pub color: Color,
}

/// What one square holds.
#[derive(PartialEq, Eq, Structural, Clone, Copy, Debug)]
pub enum Field {
    Empty,
    Figure(Figure),
}

/// A square as (file, rank); rank 0 is the top row.
pub type Pos = (i32, i32);

/// A move from an origin to a destination. Only `BasicMove` can be applied;
/// the other kinds keep their place so that the generator's output type is stable.
#[derive(PartialEq, Eq, Clone, Copy, Debug)]
pub enum Move {
    BasicMove(Pos, Pos),
    EnPassant(Pos, Pos),
    Castling(Pos, Pos),
    Promotion(Pos, Pos),
}

/// Applying a move of a kind that has no semantics here.
#[derive(PartialEq, Eq, Structural, Clone, Copy, Debug)]
pub enum ApplyError {
    Unsupported,
}

/// The grid, addressed as `fields[rank][file]`.
#[derive(Clone, Copy)]
pub struct Board {
    pub fields: [[Field; 8]; 8],
}

/// Both coordinates lie in [0, 8).
pub open spec fn on_board(x: int, y: int) -> bool {
    0 <= x < 8 && 0 <= y < 8
}

pub open spec fn pos_on_board(p: Pos) -> bool {
    on_board(p.0 as int, p.1 as int)
}

impl Board {
    /// The content of square (x, y).
    pub open spec fn at(self, x: int, y: int) -> Field {
        self.fields@[y]@[x]
    }

    pub open spec fn at_pos(self, p: Pos) -> Field {
        self.at(p.0 as int, p.1 as int)
    }
}

/// True iff `p` is on the board.
pub fn is_on_board(p: Pos) -> (r: bool)
    ensures
        r == pos_on_board(p),
{
    p.0 >= 0 && p.0 < 8 && p.1 >= 0 && p.1 < 8
}

/// The content of square (x, y).
pub fn board_index_xy(board: &Board, x: i32, y: i32) -> (r: Field)
    requires
        on_board(x as int, y as int),
    ensures
        r == board.at(x as int, y as int),
{
    board.fields[y as usize][x as usize]
}

/// Writes `field` to square (x, y) and leaves every other square as it was.
pub fn board_set_xy(board: &mut Board, x: i32, y: i32, field: Field)
    requires
        on_board(x as int, y as int),
    ensures
        final(board).at(x as int, y as int) == field,
        forall|i: int, j: int|
            on_board(i, j) && (i != x || j != y) ==> final(board).at(i, j) == old(board).at(i, j),
{
    board.fields[y as usize][x as usize] = field;
}

/// The content of square `p`.
pub fn board_index(board: &Board, p: Pos) -> (r: Field)
    requires
        pos_on_board(p),
    ensures
        r == board.at_pos(p),
{
    board_index_xy(board, p.0, p.1)
}

/// Writes `field` to square `p` and leaves every other square as it was.
pub fn board_set(board: &mut Board, p: Pos, field: Field)
    requires
        pos_on_board(p),
    ensures
        final(board).at_pos(p) == field,
        forall|i: int, j: int|
            on_board(i, j) && (i != p.0 || j != p.1) ==> final(board).at(i, j) == old(board).at(i, j),
{
    board_set_xy(board, p.0, p.1, field);
}

pub open spec fn field_is_empty(f: Field) -> bool {
    f is Empty
}

/// The square holds a piece of the side opposite to `color`.
pub open spec fn field_is_enemy(f: Field, color: Color) -> bool {
    match f {
        Field::Empty => false,
        Field::Figure(g) => g.color != color,
    }
}

/// The square holds a piece of side `color`.
pub open spec fn field_is_own(f: Field, color: Color) -> bool {
    match f {
        Field::Empty => false,
        Field::Figure(g) => g.color == color,
    }
}

/// True iff square `p` holds no piece.
pub fn is_empty(p: Pos, board: &Board) -> (r: bool)
    requires
        pos_on_board(p),
    ensures
        r == field_is_empty(board.at_pos(p)),
{
    match board_index(board, p) {
        Field::Empty => true,
        Field::Figure(_) => false,
    }
}

/// True iff square `p` holds a piece of the side opposite to `color`.
pub fn is_enemy(p: Pos, color: Color, board: &Board) -> (r: bool)
    requires
        pos_on_board(p),
    ensures
        r == field_is_enemy(board.at_pos(p), color),
{
    match board_index(board, p) {
        Field::Empty => false,
        Field::Figure(f) => f.color != color,
    }
}

/// True iff square `p` may be the destination of a piece of side `color`
/// other than a pawn: it is empty or holds an enemy.
pub fn is_empty_or_enemy(p: Pos, color: Color, board: &Board) -> (r: bool)
    requires
        pos_on_board(p),
    ensures
        r == !field_is_own(board.at_pos(p), color),
        r == (field_is_empty(board.at_pos(p)) || field_is_enemy(board.at_pos(p), color)),
{
    match board_index(board, p) {
        Field::Empty => true,
        Field::Figure(f) => f.color != color,
    }
}

/// The rank step of a pawn of side `color`: White moves toward rank 0.
pub open spec fn direction(color: Color) -> int {
    match color {
        Color::W => -1,
        Color::B => 1,
    }
}

/// The rank step of a pawn of side `color`.
pub fn get_direction(color: Color) -> (r: i32)
    ensures
        r == direction(color),
{
    match color {
        Color::W => -1,
        Color::B => 1,
    }
}

/// The board after moving the content of `s` to `d` and clearing `s`.
pub open spec fn relocated(board: Board, s: Pos, d: Pos, x: int, y: int) -> Field {
    if x == s.0 && y == s.1 {
        Field::Empty
    } else if x == d.0 && y == d.1 {
        board.at_pos(s)
    } else {
        board.at(x, y)
    }
}

/// Moves the content of `s` to `d` (discarding what `d` held) and clears `s`.
pub fn board_apply_basic_move(board: &mut Board, s: Pos, d: Pos)
    requires
        pos_on_board(s),
        pos_on_board(d),
    ensures
        forall|x: int, y: int|
            on_board(x, y) ==> final(board).at(x, y) == relocated(*old(board), s, d, x, y),
{
    let field = board_index(board, s);
    board_set(board, d, field);
    board_set(board, s, Field::Empty);
}

/// The origin of a move.
pub open spec fn move_origin(m: Move) -> Pos {
    match m {
        Move::BasicMove(s, _) => s,
        Move::EnPassant(s, _) => s,
        Move::Castling(s, _) => s,
        Move::Promotion(s, _) => s,
    }
}

/// The destination of a move.
pub open spec fn move_dest(m: Move) -> Pos {
    match m {
        Move::BasicMove(_, d) => d,
        Move::EnPassant(_, d) => d,
        Move::Castling(_, d) => d,
        Move::Promotion(_, d) => d,
    }
}

/// Both squares of the move are on the board.
pub open spec fn move_on_board(m: Move) -> bool {
    match m {
        Move::BasicMove(s, d) => pos_on_board(s) && pos_on_board(d),
        Move::EnPassant(s, d) => pos_on_board(s) && pos_on_board(d),
        Move::Castling(s, d) => pos_on_board(s) && pos_on_board(d),
        Move::Promotion(s, d) => pos_on_board(s) && pos_on_board(d),
    }
}

/// Applies a `BasicMove`; every other kind is rejected and leaves the board as it was.
pub fn board_apply_valid_move(board: &mut Board, mymove: Move) -> (r: Result<(), ApplyError>)
    requires
        move_on_board(mymove),
    ensures
        r is Ok <==> mymove is BasicMove,
        r is Err ==> r == Err::<(), ApplyError>(ApplyError::Unsupported) && *final(board) == *old(board),
        mymove matches Move::BasicMove(s, d) ==> forall|x: int, y: int|
            on_board(x, y) ==> final(board).at(x, y) == relocated(*old(board), s, d, x, y),
{
    match mymove {
        Move::BasicMove(s, d) => {
            board_apply_basic_move(board, s, d);
            Ok(())
        },
        _ => Err(ApplyError::Unsupported),
    }
}

} // verus!
