//! What holds of every move the rules and the generator produce.
use vstd::prelude::*;
use crate::board::{
    Board, Color, Field, Figure, FigureKind, Move, Pos, on_board, pos_on_board, field_is_empty, field_is_enemy,
    field_is_own, direction, move_origin, move_dest,
};
use crate::movegen::{figure_moves, scan_square, square_moves, moves_upto, all_moves};
use crate::rules::{
    offset, admissible, step_moves, knight_targets, king_targets, knight_moves, king_moves,
    unit_dir, ray_x, ray_y, ray_square, ray_moves, slide_moves, rook_dirs, bishop_dirs, queen_dirs,
    home_rank, pawn_moves, pawn_advances, pawn_capture,
};

verus! {

/// `m` is a plain move out of `s`.
pub open spec fn moves_from(m: Move, s: Pos) -> bool {
    m is BasicMove && move_origin(m) == s
}

/// Every move that `step_moves` offers goes from `s` to an admissible member
/// of `targets`, and each admissible member is offered; there are no more
/// moves than targets.
pub proof fn lemma_step_moves_exact(s: Pos, targets: Seq<Pos>, b: Board, c: Color)
    ensures
        step_moves(s, targets, b, c).len() <= targets.len(),
        forall|m: Move| #[trigger]
            step_moves(s, targets, b, c).contains(m) ==> moves_from(m, s),
        forall|p: Pos|
            #[trigger] step_moves(s, targets, b, c).contains(Move::BasicMove(s, p)) <==> (
            targets.contains(p) && admissible(b, c, p)),
    decreases targets.len(),
{
    if targets.len() > 0 {
        let init = targets.drop_last();
        lemma_step_moves_exact(s, init, b, c);
        let rest = step_moves(s, init, b, c);
        assert(targets =~= init.push(targets.last()));
        assert forall|p: Pos| targets.contains(p) <==> (init.contains(p) || p == targets.last()) by {
            if targets.contains(p) {
                let i = choose|i: int| 0 <= i < targets.len() && targets[i] == p;
                if i < targets.len() - 1 {
                    assert(init[i] == p);
                }
            }
            if init.contains(p) {
                let i = choose|i: int| 0 <= i < init.len() && init[i] == p;
                assert(targets[i] == p);
            }
            if p == targets.last() {
                assert(targets[targets.len() - 1] == p);
            }
        }
        if admissible(b, c, targets.last()) {
            let all = rest.push(Move::BasicMove(s, targets.last()));
            assert forall|m: Move| all.contains(m) <==> (rest.contains(m) || m == Move::BasicMove(
                s,
                targets.last(),
            )) by {
                if all.contains(m) {
                    let i = choose|i: int| 0 <= i < all.len() && all[i] == m;
                    if i < rest.len() {
                        assert(rest[i] == m);
                    }
                }
                if rest.contains(m) {
                    let i = choose|i: int| 0 <= i < rest.len() && rest[i] == m;
                    assert(all[i] == m);
                }
                if m == Move::BasicMove(s, targets.last()) {
                    assert(all[all.len() - 1] == m);
                }
            }
        }
    }
}

/// The knight's moves are exactly its eight jumps that land on the board on
/// a square that is empty or holds an enemy; there are at most eight.
pub proof fn lemma_knight_moves_exact(s: Pos, b: Board, c: Color)
    requires
        pos_on_board(s),
    ensures
        knight_moves(s, b, c).len() <= 8,
        forall|m: Move| #[trigger] knight_moves(s, b, c).contains(m) ==> moves_from(m, s),
        forall|p: Pos|
            #[trigger] knight_moves(s, b, c).contains(Move::BasicMove(s, p)) <==> (
            knight_targets(s).contains(p) && pos_on_board(p) && (field_is_empty(b.at_pos(p))
                || field_is_enemy(b.at_pos(p), c))),
{
    lemma_step_moves_exact(s, knight_targets(s), b, c);
}

/// The king's moves are exactly its eight neighbours that are on the board
/// and empty or hold an enemy; there are at most eight.
pub proof fn lemma_king_moves_exact(s: Pos, b: Board, c: Color)
    requires
        pos_on_board(s),
    ensures
        king_moves(s, b, c).len() <= 8,
        forall|m: Move| #[trigger] king_moves(s, b, c).contains(m) ==> moves_from(m, s),
        forall|p: Pos|
            #[trigger] king_moves(s, b, c).contains(Move::BasicMove(s, p)) <==> (
            king_targets(s).contains(p) && pos_on_board(p) && (field_is_empty(b.at_pos(p))
                || field_is_enemy(b.at_pos(p), c))),
{
    lemma_step_moves_exact(s, king_targets(s), b, c);
}

/// The squares from step `k1` up to, not including, step `k2` along `d` are
/// on the board and empty.
pub open spec fn ray_clear(s: Pos, d: Pos, b: Board, k1: int, k2: int) -> bool {
    forall|j: int|
        k1 <= j < k2 ==> on_board(ray_x(s, d, j), ray_y(s, d, j)) && field_is_empty(
            b.at_pos(#[trigger] ray_square(s, d, j)),
        )
}

/// The walk from step `k` on offers consecutive squares: the `i`-th move goes
/// to step `k + i`, every square before it is empty, and an occupied
/// destination holds an enemy and ends the walk.
proof fn lemma_ray_shape(s: Pos, d: Pos, b: Board, c: Color, k: int)
    requires
        1 <= k,
        pos_on_board(s),
        unit_dir(d),
    ensures
        forall|i: int|
            0 <= i < ray_moves(s, d, b, c, k).len() ==> {
                &&& #[trigger] ray_moves(s, d, b, c, k)[i] == Move::BasicMove(
                    s,
                    ray_square(s, d, k + i),
                )
                &&& on_board(ray_x(s, d, k + i), ray_y(s, d, k + i))
                &&& ray_clear(s, d, b, k, k + i)
                &&& !field_is_own(b.at_pos(ray_square(s, d, k + i)), c)
                &&& !field_is_empty(b.at_pos(ray_square(s, d, k + i))) ==> i == ray_moves(
                    s,
                    d,
                    b,
                    c,
                    k,
                ).len() - 1
            },
    decreases 8 - k,
{
    if k < 8 && on_board(ray_x(s, d, k), ray_y(s, d, k)) {
        let p = ray_square(s, d, k);
        if field_is_empty(b.at_pos(p)) {
            lemma_ray_shape(s, d, b, c, k + 1);
            let here = ray_moves(s, d, b, c, k);
            let next = ray_moves(s, d, b, c, k + 1);
            assert forall|i: int| 0 <= i < here.len() implies {
                &&& #[trigger] here[i] == Move::BasicMove(s, ray_square(s, d, k + i))
                &&& on_board(ray_x(s, d, k + i), ray_y(s, d, k + i))
                &&& ray_clear(s, d, b, k, k + i)
                &&& !field_is_own(b.at_pos(ray_square(s, d, k + i)), c)
                &&& !field_is_empty(b.at_pos(ray_square(s, d, k + i))) ==> i == here.len() - 1
            } by {
                if i > 0 {
                    assert(here[i] == next[i - 1]);
                    assert(k + 1 + (i - 1) == k + i);
                    assert forall|j: int| k <= j < k + i implies on_board(
                        ray_x(s, d, j),
                        ray_y(s, d, j),
                    ) && field_is_empty(b.at_pos(#[trigger] ray_square(s, d, j))) by {
                        if j > k {
                            assert(ray_clear(s, d, b, k + 1, k + 1 + (i - 1)));
                        }
                    }
                }
            }
        }
    }
}

/// A sliding piece's walk along `d` offers the squares one after another from
/// the first step on: none beyond the first occupied square, and that square
/// only if it holds an enemy.
pub proof fn lemma_ray_stops_at_first_piece(s: Pos, d: Pos, b: Board, c: Color)
    requires
        pos_on_board(s),
        unit_dir(d),
    ensures
        forall|i: int|
            0 <= i < ray_moves(s, d, b, c, 1).len() ==> {
                &&& #[trigger] ray_moves(s, d, b, c, 1)[i] == Move::BasicMove(
                    s,
                    ray_square(s, d, i + 1),
                )
                &&& pos_on_board(ray_square(s, d, i + 1))
                &&& forall|j: int|
                    1 <= j <= i ==> field_is_empty(b.at_pos(#[trigger] ray_square(s, d, j)))
                &&& !field_is_empty(b.at_pos(ray_square(s, d, i + 1))) ==> field_is_enemy(
                    b.at_pos(ray_square(s, d, i + 1)),
                    c,
                ) && i == ray_moves(s, d, b, c, 1).len() - 1
            },
{
    lemma_ray_shape(s, d, b, c, 1);
    assert forall|i: int| 0 <= i < ray_moves(s, d, b, c, 1).len() implies pos_on_board(
        #[trigger] ray_square(s, d, i + 1),
    ) by {
        assert(ray_moves(s, d, b, c, 1)[i] == Move::BasicMove(s, ray_square(s, d, 1 + i)));
    }
}

/// Each move of a sliding piece is a move of its walk along one of `dirs`.
pub proof fn lemma_slide_moves_on_rays(s: Pos, dirs: Seq<Pos>, b: Board, c: Color)
    ensures
        forall|m: Move| #[trigger]
            slide_moves(s, dirs, b, c).contains(m) ==> exists|j: int|
                0 <= j < dirs.len() && #[trigger] ray_moves(s, dirs[j], b, c, 1).contains(m),
    decreases dirs.len(),
{
    if dirs.len() > 0 {
        let init = dirs.drop_last();
        lemma_slide_moves_on_rays(s, init, b, c);
        let front = slide_moves(s, init, b, c);
        let last = ray_moves(s, dirs.last(), b, c, 1);
        assert forall|m: Move| #[trigger]
            slide_moves(s, dirs, b, c).contains(m) implies exists|j: int|
                0 <= j < dirs.len() && #[trigger] ray_moves(s, dirs[j], b, c, 1).contains(m) by {
            let all = front + last;
            let i = choose|i: int| 0 <= i < all.len() && all[i] == m;
            if i < front.len() {
                assert(front[i] == m);
                assert(front.contains(m));
                let j = choose|j: int|
                    0 <= j < init.len() && #[trigger] ray_moves(s, init[j], b, c, 1).contains(m);
                assert(dirs[j] == init[j]);
            } else {
                assert(last[i - front.len()] == m);
                assert(ray_moves(s, dirs[dirs.len() - 1], b, c, 1).contains(m));
            }
        }
    }
}

/// A pawn offers the two-square advance exactly when the square in front is
/// on the board and empty, the pawn stands on its side's home rank, and the
/// square two in front is empty.
pub proof fn lemma_pawn_double_step(s: Pos, b: Board, c: Color)
    requires
        pos_on_board(s),
    ensures
        pawn_moves(s, b, c).contains(Move::BasicMove(s, offset(s, 0, 2 * direction(c)))) <==> (
        pos_on_board(offset(s, 0, direction(c))) && field_is_empty(
            b.at_pos(offset(s, 0, direction(c))),
        ) && s.1 == home_rank(c) && field_is_empty(b.at_pos(offset(s, 0, 2 * direction(c))))),
{
    let one = offset(s, 0, direction(c));
    let two = offset(s, 0, 2 * direction(c));
    let m = Move::BasicMove(s, two);
    let adv = pawn_advances(s, b, c);
    let left = pawn_capture(s, offset(s, -1, direction(c)), b, c);
    let right = pawn_capture(s, offset(s, 1, direction(c)), b, c);
    let all = adv + left + right;
    assert(pawn_moves(s, b, c) == all);
    assert(one != two);
    if all.contains(m) {
        let i = choose|i: int| 0 <= i < all.len() && all[i] == m;
        if i < adv.len() {
            assert(adv[i] == m);
        } else if i < adv.len() + left.len() {
            assert(left[i - adv.len()] == m);
        } else {
            assert(right[i - adv.len() - left.len()] == m);
        }
    }
    if pos_on_board(one) && field_is_empty(b.at_pos(one)) && s.1 == home_rank(c)
        && field_is_empty(b.at_pos(two)) {
        assert(all[1] == m);
    }
}

/// `m` goes from `s` to a different square on the board that holds no piece
/// of side `c`.
pub open spec fn sound_from(b: Board, c: Color, s: Pos, m: Move) -> bool {
    &&& moves_from(m, s)
    &&& pos_on_board(move_dest(m))
    &&& move_dest(m) != s
    &&& !field_is_own(b.at_pos(move_dest(m)), c)
}

proof fn lemma_step_moves_sound(s: Pos, targets: Seq<Pos>, b: Board, c: Color)
    requires
        !targets.contains(s),
    ensures
        forall|m: Move| #[trigger]
            step_moves(s, targets, b, c).contains(m) ==> sound_from(b, c, s, m),
{
    lemma_step_moves_exact(s, targets, b, c);
    assert forall|m: Move| #[trigger]
        step_moves(s, targets, b, c).contains(m) implies sound_from(b, c, s, m) by {
        assert(m == Move::BasicMove(s, move_dest(m)));
        assert(step_moves(s, targets, b, c).contains(Move::BasicMove(s, move_dest(m))));
    }
}

proof fn lemma_slide_moves_sound(s: Pos, dirs: Seq<Pos>, b: Board, c: Color)
    requires
        pos_on_board(s),
        forall|j: int| 0 <= j < dirs.len() ==> unit_dir(#[trigger] dirs[j]),
    ensures
        forall|m: Move| #[trigger]
            slide_moves(s, dirs, b, c).contains(m) ==> sound_from(b, c, s, m),
{
    lemma_slide_moves_on_rays(s, dirs, b, c);
    assert forall|m: Move| #[trigger]
        slide_moves(s, dirs, b, c).contains(m) implies sound_from(b, c, s, m) by {
        let j = choose|j: int|
            0 <= j < dirs.len() && #[trigger] ray_moves(s, dirs[j], b, c, 1).contains(m);
        let d = dirs[j];
        let ray = ray_moves(s, d, b, c, 1);
        lemma_ray_stops_at_first_piece(s, d, b, c);
        lemma_ray_shape(s, d, b, c, 1);
        let i = choose|i: int| 0 <= i < ray.len() && ray[i] == m;
        assert(ray[i] == Move::BasicMove(s, ray_square(s, d, 1 + i)));
        let k = i + 1;
        assert(on_board(ray_x(s, d, k), ray_y(s, d, k)));
        assert(ray_x(s, d, k) != s.0 || ray_y(s, d, k) != s.1) by (nonlinear_arith)
            requires
                k >= 1,
                unit_dir(d),
                ray_x(s, d, k) == s.0 + k * d.0,
                ray_y(s, d, k) == s.1 + k * d.1,
        ;
        assert(move_dest(m) == ray_square(s, d, k));
    }
}

proof fn lemma_pawn_moves_sound(s: Pos, b: Board, c: Color)
    requires
        pos_on_board(s),
    ensures
        forall|m: Move| #[trigger] pawn_moves(s, b, c).contains(m) ==> sound_from(b, c, s, m),
{
    let adv = pawn_advances(s, b, c);
    let left = pawn_capture(s, offset(s, -1, direction(c)), b, c);
    let right = pawn_capture(s, offset(s, 1, direction(c)), b, c);
    let all = adv + left + right;
    assert(pawn_moves(s, b, c) == all);
    assert forall|m: Move| #[trigger] pawn_moves(s, b, c).contains(m) implies sound_from(
        b,
        c,
        s,
        m,
    ) by {
        let i = choose|i: int| 0 <= i < all.len() && all[i] == m;
        if i < adv.len() {
            assert(adv[i] == m);
        } else if i < adv.len() + left.len() {
            assert(left[i - adv.len()] == m);
        } else {
            assert(right[i - adv.len() - left.len()] == m);
        }
    }
}

/// Every move of a piece on `s` goes from `s` to another square on the board
/// that holds no piece of the piece's own side.
pub proof fn lemma_figure_moves_sound(f: Figure, s: Pos, b: Board)
    requires
        pos_on_board(s),
    ensures
        forall|m: Move| #[trigger]
            figure_moves(f, s, b).contains(m) ==> sound_from(b, f.color, s, m),
{
    let c = f.color;
    match f.kind {
        FigureKind::Pawn => lemma_pawn_moves_sound(s, b, c),
        FigureKind::Knight => {
            let t = knight_targets(s);
            assert(t.contains(s) ==> exists|i: int| 0 <= i < 8 && t[i] == s);
            lemma_step_moves_sound(s, t, b, c);
        },
        FigureKind::King => {
            let t = king_targets(s);
            assert(t.contains(s) ==> exists|i: int| 0 <= i < 8 && t[i] == s);
            lemma_step_moves_sound(s, t, b, c);
        },
        FigureKind::Rook => {
            assert(forall|j: int| 0 <= j < rook_dirs().len() ==> unit_dir(#[trigger] rook_dirs()[j]));
            lemma_slide_moves_sound(s, rook_dirs(), b, c);
        },
        FigureKind::Bishop => {
            assert(forall|j: int|
                0 <= j < bishop_dirs().len() ==> unit_dir(#[trigger] bishop_dirs()[j]));
            lemma_slide_moves_sound(s, bishop_dirs(), b, c);
        },
        FigureKind::Queen => {
            assert(forall|j: int|
                0 <= j < queen_dirs().len() ==> unit_dir(#[trigger] queen_dirs()[j]));
            lemma_slide_moves_sound(s, queen_dirs(), b, c);
        },
    }
}

/// `m` goes from a square holding a piece of side `c` to a different square
/// on the board that holds no piece of side `c`.
pub open spec fn generated_move_sound(b: Board, c: Color, m: Move) -> bool {
    &&& pos_on_board(move_origin(m))
    &&& field_is_own(b.at_pos(move_origin(m)), c)
    &&& sound_from(b, c, move_origin(m), m)
}

/// Every generated move is a plain move from a piece of the side to move to
/// another square on the board that holds no piece of that side.
pub proof fn lemma_generated_moves_sound(b: Board, c: Color)
    ensures
        forall|m: Move| #[trigger] all_moves(b, c).contains(m) ==> generated_move_sound(b, c, m),
{
    lemma_moves_upto_sound(b, c, 64);
}

proof fn lemma_moves_upto_sound(b: Board, c: Color, n: int)
    requires
        n <= 64,
    ensures
        forall|m: Move| #[trigger]
            moves_upto(b, c, n).contains(m) ==> generated_move_sound(b, c, m),
    decreases n,
{
    if n > 0 {
        lemma_moves_upto_sound(b, c, n - 1);
        let front = moves_upto(b, c, n - 1);
        let here = square_moves(b, c, n - 1);
        let s = scan_square(n - 1);
        assert(pos_on_board(s));
        if let Field::Figure(f) = b.at_pos(s) {
            lemma_figure_moves_sound(f, s, b);
        }
        assert forall|m: Move| #[trigger]
            moves_upto(b, c, n).contains(m) implies generated_move_sound(b, c, m) by {
            let all = front + here;
            let i = choose|i: int| 0 <= i < all.len() && all[i] == m;
            if i < front.len() {
                assert(front[i] == m);
                assert(front.contains(m));
            } else {
                assert(here[i - front.len()] == m);
                assert(here.contains(m));
            }
        }
    }
}

} // verus!
