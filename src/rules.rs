//! The per-piece move rules: pawn, knight, sliding pieces and king.
use vstd::prelude::*;
use crate::board::{
    Board, Color, Move, Pos, on_board, pos_on_board, field_is_empty, field_is_enemy, field_is_own,
    direction, is_on_board, is_empty, is_enemy, is_empty_or_enemy, get_direction,
};

verus! {

/// The square at offset (dx, dy) from `s`.
pub open spec fn offset(s: Pos, dx: int, dy: int) -> Pos {
    ((s.0 + dx) as i32, (s.1 + dy) as i32)
}

/// `p` is on the board and holds no piece of side `c`.
pub open spec fn admissible(b: Board, c: Color, p: Pos) -> bool {
    pos_on_board(p) && !field_is_own(b.at_pos(p), c)
}

/// The moves from `s` to those of `targets` that are admissible, in the order of `targets`.
pub open spec fn step_moves(s: Pos, targets: Seq<Pos>, b: Board, c: Color) -> Seq<Move>
    decreases targets.len(),
{
    if targets.len() == 0 {
        seq![]
    } else {
        let rest = step_moves(s, targets.drop_last(), b, c);
        if admissible(b, c, targets.last()) {
            rest.push(Move::BasicMove(s, targets.last()))
        } else {
            rest
        }
    }
}

/// The eight knight jumps from `s`, in the order they are tried.
pub open spec fn knight_targets(s: Pos) -> Seq<Pos> {
    seq![
        offset(s, 1, 2),
        offset(s, 1, -2),
        offset(s, -1, 2),
        offset(s, -1, -2),
        offset(s, 2, 1),
        offset(s, 2, -1),
        offset(s, -2, 1),
        offset(s, -2, -1),
    ]
}

/// The eight neighbours of `s`, in the order a king tries them.
pub open spec fn king_targets(s: Pos) -> Seq<Pos> {
    seq![
        offset(s, -1, -1),
        offset(s, -1, 1),
        offset(s, -1, 0),
        offset(s, 1, -1),
        offset(s, 1, 1),
        offset(s, 1, 0),
        offset(s, 0, -1),
        offset(s, 0, 1),
    ]
}

pub open spec fn knight_moves(s: Pos, b: Board, c: Color) -> Seq<Move> {
    step_moves(s, knight_targets(s), b, c)
}

pub open spec fn king_moves(s: Pos, b: Board, c: Color) -> Seq<Move> {
    step_moves(s, king_targets(s), b, c)
}

/// Appends the knight moves from `s` for side `c`.
pub fn get_valid_moves_knight(s: Pos, b: &Board, c: Color, moves: &mut Vec<Move>)
    requires
        pos_on_board(s),
    ensures
        final(moves)@ == old(moves)@ + knight_moves(s, *b, c),
{
    let (x, y) = s;
    let poses: [Pos; 8] = [
        (x + 1, y + 2),
        (x + 1, y - 2),
        (x - 1, y + 2),
        (x - 1, y - 2),
        (x + 2, y + 1),
        (x + 2, y - 1),
        (x - 2, y + 1),
        (x - 2, y - 1),
    ];
    assert(poses@ =~= knight_targets(s));
    let mut i: usize = 0;
    while i < 8
        invariant
            0 <= i <= 8,
            poses@ == knight_targets(s),
            moves@ == old(moves)@ + step_moves(s, poses@.take(i as int), *b, c),
        decreases 8 - i,
    {
        let p = poses[i];
        assert(poses@.take(i + 1).drop_last() =~= poses@.take(i as int));
        if is_on_board(p) && is_empty_or_enemy(p, c, b) {
            moves.push(Move::BasicMove(s, p));
        }
        i = i + 1;
    }
    assert(poses@.take(8) =~= poses@);
}

/// Appends the king moves from `s` for side `c`.
pub fn get_valid_moves_king(s: Pos, b: &Board, c: Color, moves: &mut Vec<Move>)
    requires
        pos_on_board(s),
    ensures
        final(moves)@ == old(moves)@ + king_moves(s, *b, c),
{
    let (x, y) = s;
    let poses: [Pos; 8] = [
        (x - 1, y - 1),
        (x - 1, y + 1),
        (x - 1, y),
        (x + 1, y - 1),
        (x + 1, y + 1),
        (x + 1, y),
        (x, y - 1),
        (x, y + 1),
    ];
    assert(poses@ =~= king_targets(s));
    let mut i: usize = 0;
    while i < 8
        invariant
            0 <= i <= 8,
            poses@ == king_targets(s),
            moves@ == old(moves)@ + step_moves(s, poses@.take(i as int), *b, c),
        decreases 8 - i,
    {
        let p = poses[i];
        assert(poses@.take(i + 1).drop_last() =~= poses@.take(i as int));
        if is_on_board(p) && is_empty_or_enemy(p, c, b) {
            moves.push(Move::BasicMove(s, p));
        }
        i = i + 1;
    }
    assert(poses@.take(8) =~= poses@);
}

/// The rank from which a pawn of side `c` may advance two squares.
pub open spec fn home_rank(c: Color) -> int {
    match c {
        Color::W => 6,
        Color::B => 1,
    }
}

/// The single step, and where allowed the double step, of a pawn on `s`.
pub open spec fn pawn_advances(s: Pos, b: Board, c: Color) -> Seq<Move> {
    let one = offset(s, 0, direction(c));
    let two = offset(s, 0, 2 * direction(c));
    if pos_on_board(one) && field_is_empty(b.at_pos(one)) {
        if s.1 == home_rank(c) && field_is_empty(b.at_pos(two)) {
            seq![Move::BasicMove(s, one), Move::BasicMove(s, two)]
        } else {
            seq![Move::BasicMove(s, one)]
        }
    } else {
        seq![]
    }
}

/// The diagonal capture of a pawn on `s` onto `p`, if `p` holds an enemy.
pub open spec fn pawn_capture(s: Pos, p: Pos, b: Board, c: Color) -> Seq<Move> {
    if pos_on_board(p) && field_is_enemy(b.at_pos(p), c) {
        seq![Move::BasicMove(s, p)]
    } else {
        seq![]
    }
}

/// The moves of a pawn of side `c` on `s`: advances, then the capture to the
/// lower file, then the capture to the higher file.
pub open spec fn pawn_moves(s: Pos, b: Board, c: Color) -> Seq<Move> {
    pawn_advances(s, b, c) + pawn_capture(s, offset(s, -1, direction(c)), b, c) + pawn_capture(
        s,
        offset(s, 1, direction(c)),
        b,
        c,
    )
}

/// Appends the pawn moves from `s` for side `c`.
pub fn get_valid_moves_pawn(s: Pos, b: &Board, c: Color, moves: &mut Vec<Move>)
    requires
        pos_on_board(s),
    ensures
        final(moves)@ == old(moves)@ + pawn_moves(s, *b, c),
{
    let (x, y) = s;
    let d = get_direction(c);
    let one: Pos = (x, y + d);
    if is_on_board(one) && is_empty(one, b) {
        moves.push(Move::BasicMove(s, one));
        let home = match c {
            Color::W => y == 6,
            Color::B => y == 1,
        };
        if home && is_empty((x, y + d + d), b) {
            moves.push(Move::BasicMove(s, (x, y + d + d)));
        }
    }
    let ghost after_advances = moves@;
    assert(after_advances =~= old(moves)@ + pawn_advances(s, *b, c));
    let left: Pos = (x - 1, y + d);
    if is_on_board(left) && is_enemy(left, c, b) {
        moves.push(Move::BasicMove(s, left));
    }
    let ghost after_left = moves@;
    assert(after_left =~= after_advances + pawn_capture(s, offset(s, -1, direction(c)), *b, c));
    let right: Pos = (x + 1, y + d);
    if is_on_board(right) && is_enemy(right, c, b) {
        moves.push(Move::BasicMove(s, right));
    }
    assert(moves@ =~= after_left + pawn_capture(s, offset(s, 1, direction(c)), *b, c));
}

/// A unit step along a file, a rank or a diagonal.
pub open spec fn unit_dir(d: Pos) -> bool {
    -1 <= d.0 <= 1 && -1 <= d.1 <= 1 && (d.0 != 0 || d.1 != 0)
}

/// The square `k` steps from `s` along `d`, as integers.
pub open spec fn ray_x(s: Pos, d: Pos, k: int) -> int {
    s.0 + k * d.0
}

pub open spec fn ray_y(s: Pos, d: Pos, k: int) -> int {
    s.1 + k * d.1
}

pub open spec fn ray_square(s: Pos, d: Pos, k: int) -> Pos {
    (ray_x(s, d, k) as i32, ray_y(s, d, k) as i32)
}

/// The moves of a sliding piece on `s` along `d`, from step `k` on: each empty
/// square is offered and the walk goes on; the first occupied square ends it
/// and is offered only if it holds an enemy; leaving the board ends it.
pub open spec fn ray_moves(s: Pos, d: Pos, b: Board, c: Color, k: int) -> Seq<Move>
    decreases 8 - k,
{
    if k < 1 || k >= 8 || !on_board(ray_x(s, d, k), ray_y(s, d, k)) {
        seq![]
    } else {
        let p = ray_square(s, d, k);
        if field_is_empty(b.at_pos(p)) {
            seq![Move::BasicMove(s, p)] + ray_moves(s, d, b, c, k + 1)
        } else if field_is_enemy(b.at_pos(p), c) {
            seq![Move::BasicMove(s, p)]
        } else {
            seq![]
        }
    }
}

/// From a square on the board, a unit step leaves the board within eight steps.
pub proof fn lemma_ray_leaves_board(s: Pos, d: Pos, k: int)
    requires
        pos_on_board(s),
        unit_dir(d),
        k >= 8,
    ensures
        !on_board(ray_x(s, d, k), ray_y(s, d, k)),
{
    if d.0 == 1 {
        assert(k * d.0 == k);
    } else if d.0 == -1 {
        assert(k * d.0 == -k);
    } else if d.1 == 1 {
        assert(k * d.1 == k);
    } else {
        assert(k * d.1 == -k);
    }
}

/// Appends the moves of a sliding piece of side `c` on `s` along direction `d`.
pub fn get_valid_moves_check_line(s: Pos, d: Pos, b: &Board, c: Color, moves: &mut Vec<Move>)
    requires
        pos_on_board(s),
        unit_dir(d),
    ensures
        final(moves)@ == old(moves)@ + ray_moves(s, d, *b, c, 1),
{
    let (dx, dy) = d;
    let (mut x, mut y) = s;
    let ghost mut k: int = 0;
    loop
        invariant_except_break
            pos_on_board(s),
            unit_dir(d),
            dx == d.0,
            dy == d.1,
            0 <= k <= 7,
            x == ray_x(s, d, k),
            y == ray_y(s, d, k),
            on_board(x as int, y as int),
            old(moves)@ + ray_moves(s, d, *b, c, 1) == moves@ + ray_moves(s, d, *b, c, k + 1),
        ensures
            moves@ == old(moves)@ + ray_moves(s, d, *b, c, 1),
        decreases 7 - k,
    {
        assert(ray_x(s, d, k + 1) == x + dx) by (nonlinear_arith)
            requires
                x == ray_x(s, d, k),
                dx == d.0,
        ;
        assert(ray_y(s, d, k + 1) == y + dy) by (nonlinear_arith)
            requires
                y == ray_y(s, d, k),
                dy == d.1,
        ;
        x = x + dx;
        y = y + dy;
        proof {
            k = k + 1;
        }
        if !is_on_board((x, y)) {
            assert(ray_moves(s, d, *b, c, k) =~= seq![]);
            assert(moves@ + seq![] =~= moves@);
            break;
        }
        proof {
            if k >= 8 {
                lemma_ray_leaves_board(s, d, k);
            }
        }
        let p: Pos = (x, y);
        if is_empty(p, b) {
            assert(ray_moves(s, d, *b, c, k) =~= seq![Move::BasicMove(s, p)] + ray_moves(
                s,
                d,
                *b,
                c,
                k + 1,
            ));
            moves.push(Move::BasicMove(s, p));
            assert(moves@ + ray_moves(s, d, *b, c, k + 1) =~= old(moves)@ + ray_moves(
                s,
                d,
                *b,
                c,
                1,
            ));
            continue;
        }
        if is_enemy(p, c, b) {
            moves.push(Move::BasicMove(s, p));
        }
        assert(moves@ =~= old(moves)@ + ray_moves(s, d, *b, c, 1));
        break;
    }
}

/// The moves of a sliding piece on `s` along each of `dirs` in turn.
pub open spec fn slide_moves(s: Pos, dirs: Seq<Pos>, b: Board, c: Color) -> Seq<Move>
    decreases dirs.len(),
{
    if dirs.len() == 0 {
        seq![]
    } else {
        slide_moves(s, dirs.drop_last(), b, c) + ray_moves(s, dirs.last(), b, c, 1)
    }
}

/// The four file and rank directions.
pub open spec fn rook_dirs() -> Seq<Pos> {
    seq![(0i32, 1i32), (0i32, -1i32), (1i32, 0i32), (-1i32, 0i32)]
}

/// The four diagonal directions.
pub open spec fn bishop_dirs() -> Seq<Pos> {
    seq![(1i32, 1i32), (1i32, -1i32), (-1i32, 1i32), (-1i32, -1i32)]
}

/// All eight directions: those of the rook, then those of the bishop.
pub open spec fn queen_dirs() -> Seq<Pos> {
    rook_dirs() + bishop_dirs()
}

pub open spec fn rook_moves(s: Pos, b: Board, c: Color) -> Seq<Move> {
    slide_moves(s, rook_dirs(), b, c)
}

pub open spec fn bishop_moves(s: Pos, b: Board, c: Color) -> Seq<Move> {
    slide_moves(s, bishop_dirs(), b, c)
}

pub open spec fn queen_moves(s: Pos, b: Board, c: Color) -> Seq<Move> {
    slide_moves(s, queen_dirs(), b, c)
}

/// Appends the rook moves from `s` for side `c`.
pub fn get_valid_moves_rook(s: Pos, b: &Board, c: Color, moves: &mut Vec<Move>)
    requires
        pos_on_board(s),
    ensures
        final(moves)@ == old(moves)@ + rook_moves(s, *b, c),
{
    let dirs: [Pos; 4] = [
        (0, 1),
        (0, -1),
        (1, 0),
        (-1, 0),
    ];
    assert(dirs@ =~= rook_dirs());
    let mut i: usize = 0;
    while i < 4
        invariant
            0 <= i <= 4,
            pos_on_board(s),
            dirs@ == rook_dirs(),
            moves@ == old(moves)@ + slide_moves(s, dirs@.take(i as int), *b, c),
        decreases 4 - i,
    {
        assert(dirs@.take(i + 1).drop_last() =~= dirs@.take(i as int));
        get_valid_moves_check_line(s, dirs[i], b, c, moves);
        assert(moves@ =~= old(moves)@ + slide_moves(s, dirs@.take(i + 1), *b, c));
        i = i + 1;
    }
    assert(dirs@.take(4) =~= dirs@);
}

/// Appends the bishop moves from `s` for side `c`.
pub fn get_valid_moves_bishop(s: Pos, b: &Board, c: Color, moves: &mut Vec<Move>)
    requires
        pos_on_board(s),
    ensures
        final(moves)@ == old(moves)@ + bishop_moves(s, *b, c),
{
    let dirs: [Pos; 4] = [
        (1, 1),
        (1, -1),
        (-1, 1),
        (-1, -1),
    ];
    assert(dirs@ =~= bishop_dirs());
    let mut i: usize = 0;
    while i < 4
        invariant
            0 <= i <= 4,
            pos_on_board(s),
            dirs@ == bishop_dirs(),
            moves@ == old(moves)@ + slide_moves(s, dirs@.take(i as int), *b, c),
        decreases 4 - i,
    {
        assert(dirs@.take(i + 1).drop_last() =~= dirs@.take(i as int));
        get_valid_moves_check_line(s, dirs[i], b, c, moves);
        assert(moves@ =~= old(moves)@ + slide_moves(s, dirs@.take(i + 1), *b, c));
        i = i + 1;
    }
    assert(dirs@.take(4) =~= dirs@);
}

/// Appends the queen moves from `s` for side `c`.
pub fn get_valid_moves_queen(s: Pos, b: &Board, c: Color, moves: &mut Vec<Move>)
    requires
        pos_on_board(s),
    ensures
        final(moves)@ == old(moves)@ + queen_moves(s, *b, c),
{
    let dirs: [Pos; 8] = [
        (0, 1),
        (0, -1),
        (1, 0),
        (-1, 0),
        (1, 1),
        (1, -1),
        (-1, 1),
        (-1, -1),
    ];
    assert(dirs@ =~= queen_dirs());
    let mut i: usize = 0;
    while i < 8
        invariant
            0 <= i <= 8,
            pos_on_board(s),
            dirs@ == queen_dirs(),
            moves@ == old(moves)@ + slide_moves(s, dirs@.take(i as int), *b, c),
        decreases 8 - i,
    {
        assert(dirs@.take(i + 1).drop_last() =~= dirs@.take(i as int));
        get_valid_moves_check_line(s, dirs[i], b, c, moves);
        assert(moves@ =~= old(moves)@ + slide_moves(s, dirs@.take(i + 1), *b, c));
        i = i + 1;
    }
    assert(dirs@.take(8) =~= dirs@);
}

} // verus!
