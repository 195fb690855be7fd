//! Picking one of the generated moves at random.
use vstd::prelude::*;
use crate::board::{Board, Color, Move};
use crate::movegen::{all_moves, board_get_valid_moves};

verus! {

/// Relies on rand::random: a value drawn from the thread-local generator;
/// nothing is known of which.
pub assume_specification<T>[ rand::random::<T> ]() -> (r: T)
    where
        rand::distributions::Standard: rand::distributions::Distribution<T>,
;

/// The move at position `r` modulo the number of moves, or `None` when
/// there are none.
pub fn move_at(moves: &Vec<Move>, r: usize) -> (m: Option<Move>)
    ensures
        moves@.len() == 0 ==> m is None,
        moves@.len() > 0 ==> m == Some(moves@[r as int % moves@.len() as int]),
{
    let len = moves.len();
    if len > 0 {
        Some(moves[r % len])
    } else {
        None
    }
}

/// One of the moves of side `c` on `b`, drawn at random; `None` when side
/// `c` has no move.
pub fn board_random_move(b: &Board, c: Color) -> (m: Option<Move>)
    ensures
        m is None <==> all_moves(*b, c).len() == 0,
        m matches Some(mv) ==> all_moves(*b, c).contains(mv),
{
    let moves = board_get_valid_moves(b, c);
    let r: usize = rand::random::<usize>();
    let m = move_at(&moves, r);
    proof {
        if moves@.len() > 0 {
            let i = r as int % moves@.len() as int;
            assert(all_moves(*b, c)[i] == moves@[i]);
        }
    }
    m
}

} // verus!
