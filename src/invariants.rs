use vstd::prelude::*;
use crate::board::{adjacent, lemma_adjacent_is_unit_distance, manhattan, on_board, Position};
use crate::direction::{shift_fits, shifted, Direction};
use crate::food::{free_list, lemma_free_list, occupied};
use crate::game::{
    collides, count_food_at, food_at, foods_except, moved_body, start_body, start_head, tick_body,
    Food, SnakeHead,
};
use crate::input::{head_after_frames, lemma_frames_never_reverse, Key};

verus! {

/// A well-formed body: non-empty, on the board, without repeated cells, and each
/// segment one unit from the next along one axis.
pub open spec fn valid_body(body: Seq<Position>) -> bool {
    &&& body.len() > 0
    &&& forall|i: int| 0 <= i < body.len() ==> on_board(#[trigger] body[i])
    &&& body.no_duplicates()
    &&& connected(body)
}

/// No piece of food lies on a body cell.
pub open spec fn food_clear(body: Seq<Position>, foods: Seq<Food>) -> bool {
    forall|i: int| 0 <= i < foods.len() ==> !body.contains(#[trigger] foods[i].position)
}

/// The last move of the head was along `d`: the head is one step from the second
/// segment in direction `d`.
pub open spec fn heading_consistent(body: Seq<Position>, d: Direction) -> bool {
    body.len() >= 2 ==> body[0] == shifted(body[1], d)
}

/// Each segment is one unit from the next along one axis.
pub open spec fn connected(body: Seq<Position>) -> bool {
    forall|i: int| 0 <= i < body.len() - 1 ==> adjacent(#[trigger] body[i], body[i + 1])
}

/// The state invariants that hold after every completed tick.
pub open spec fn valid_state(body: Seq<Position>, foods: Seq<Food>, head: SnakeHead) -> bool {
    &&& valid_body(body)
    &&& food_clear(body, foods)
    &&& heading_consistent(body, head.last_move)
    &&& head.no_reversal()
}

/// Each piece of food left after eating on `p` was there before and does not lie on `p`.
pub proof fn lemma_foods_except(foods: Seq<Food>, p: Position)
    ensures
        forall|i: int| 0 <= i < foods_except(foods, p).len() ==> {
            &&& (#[trigger] foods_except(foods, p)[i]).position != p
            &&& foods.contains(foods_except(foods, p)[i])
        },
        count_food_at(foods, p) > 0 <==> food_at(foods, p),
    decreases foods.len(),
{
    if foods.len() > 0 {
        let init = foods.drop_last();
        lemma_foods_except(init, p);
        let rest = foods_except(init, p);
        let s = foods_except(foods, p);
        assert(s == if foods.last().position == p { rest } else { rest.push(foods.last()) });
        assert forall|i: int| 0 <= i < s.len() implies {
            &&& (#[trigger] s[i]).position != p
            &&& foods.contains(s[i])
        } by {
            if i < rest.len() {
                let j = choose|j: int| 0 <= j < init.len() && init[j] == rest[i];
                assert(foods[j] == s[i]);
            } else {
                if foods.last().position == p {
                    assert(s.len() == rest.len());
                } else {
                    assert(s == rest.push(foods.last()));
                    assert(i == rest.len());
                    assert(s[i] == foods.last());
                    assert(foods[foods.len() - 1] == s[i]);
                }
            }
        }
        if food_at(foods, p) && !food_at(init, p) {
            let j = choose|j: int| 0 <= j < foods.len() && foods[j].position == p;
            if j < foods.len() - 1 {
                assert(init[j] == foods[j]);
            }
        }
        if food_at(init, p) {
            let j = choose|j: int| 0 <= j < init.len() && init[j].position == p;
            assert(foods[j].position == p);
        }
    }
}

/// The starting state satisfies the invariants.
pub proof fn lemma_start_valid()
    ensures
        valid_state(start_body(), seq![], start_head()),
{
    let b = start_body();
    assert(adjacent(b[0], b[1]));
}

/// A step that stays within the range of `i32` lands on an adjacent cell.
pub proof fn lemma_shift_adjacent(p: Position, d: Direction)
    requires
        shift_fits(p, d),
    ensures
        adjacent(shifted(p, d), p),
        manhattan(shifted(p, d), p) == 1,
{
    lemma_adjacent_is_unit_distance(shifted(p, d), p);
}

/// A tick that does not end the game keeps every invariant: the body stays on the
/// board, without repeated cells and connected, the food left is clear of it, the
/// last move recorded is the last head move, and the pending direction does not
/// reverse it.
pub proof fn lemma_tick_preserves_validity(body: Seq<Position>, foods: Seq<Food>, d: Direction)
    requires
        valid_body(body),
        food_clear(body, foods),
        !collides(body, d),
    ensures
        valid_state(
            tick_body(body, foods, d),
            foods_except(foods, shifted(body[0], d)),
            SnakeHead { direction: d, last_move: d },
        ),
{
    let n = body.len();
    let h = shifted(body[0], d);
    let moved = moved_body(body, d);
    let after = tick_body(body, foods, d);
    let left = foods_except(foods, h);
    lemma_shift_adjacent(body[0], d);
    lemma_foods_except(foods, h);
    assert(forall|i: int| 1 <= i < moved.len() ==> moved[i] == body[i - 1]);
    assert(forall|i: int| 1 <= i < after.len() ==> after[i] == body[i - 1]);
    assert(after[0] == h);
    assert forall|i: int| 0 <= i < after.len() implies on_board(#[trigger] after[i]) by {
        if i > 0 {
            assert(after[i] == body[i - 1]);
        }
    }
    assert forall|i: int, j: int| 0 <= i < after.len() && 0 <= j < after.len() && i != j
        implies after[i] != after[j] by {
        if i > 0 && j > 0 {
            assert(after[i] == body[i - 1] && after[j] == body[j - 1]);
        } else if i == 0 {
            assert(after[j] == body[j - 1]);
            assert(!body.contains(h));
        } else {
            assert(after[i] == body[i - 1]);
            assert(!body.contains(h));
        }
    }
    assert forall|i: int| 0 <= i < after.len() - 1 implies adjacent(#[trigger] after[i], after[i + 1]) by {
        if i > 0 {
            assert(after[i] == body[i - 1] && after[i + 1] == body[i]);
        }
    }
    assert forall|i: int| 0 <= i < left.len() implies !after.contains(#[trigger] left[i].position) by {
        let f = left[i];
        let fj = choose|j: int| 0 <= j < foods.len() && foods[j] == f;
        assert(!body.contains(foods[fj].position));
        if after.contains(f.position) {
            let k = choose|k: int| 0 <= k < after.len() && after[k] == f.position;
            if k > 0 {
                assert(body[k - 1] == f.position);
            }
        }
    }
}

/// Tail follow: a tick that neither ends the game nor eats moves the head one step
/// along `d` and each other segment to the old cell of the one before it; the old
/// tail cell is left.
pub proof fn lemma_tail_follow(body: Seq<Position>, foods: Seq<Food>, d: Direction)
    requires
        body.len() > 0,
        !food_at(foods, shifted(body[0], d)),
    ensures
        tick_body(body, foods, d).len() == body.len(),
        tick_body(body, foods, d)[0] == shifted(body[0], d),
        forall|i: int| 1 <= i < body.len() ==> #[trigger] tick_body(body, foods, d)[i] == body[i - 1],
{
    lemma_foods_except(foods, shifted(body[0], d));
}

/// Growth law: a tick whose new head cell holds food lengthens the body by exactly one
/// segment, placed on the cell the tail held before the tick.
pub proof fn lemma_growth(body: Seq<Position>, foods: Seq<Food>, d: Direction)
    requires
        body.len() > 0,
        food_at(foods, shifted(body[0], d)),
    ensures
        tick_body(body, foods, d).len() == body.len() + 1,
        tick_body(body, foods, d).last() == body.last(),
        tick_body(body, foods, d).drop_last() == moved_body(body, d),
{
    lemma_foods_except(foods, shifted(body[0], d));
    assert(tick_body(body, foods, d).drop_last() =~= moved_body(body, d));
}

/// Food placed by the food placer lies on no body cell, so a clear state stays clear.
pub proof fn lemma_placement_keeps_food_clear(body: Seq<Position>, foods: Seq<Food>, r: nat)
    requires
        food_clear(body, foods),
        free_list(body, foods).len() > 0,
    ensures
        ({
            let free = free_list(body, foods);
            let p = free[(r % free.len()) as int];
            &&& on_board(p)
            &&& !occupied(body, foods, p)
            &&& food_clear(body, foods.push(Food { position: p }))
        }),
{
    lemma_free_list(body, foods);
    let free = free_list(body, foods);
    let p = free[(r % free.len()) as int];
    assert(free.contains(p));
}

/// The shape of the body after a move along `d`, whether or not the game ends and
/// whether or not it grows: the head steps one cell along `d`, each other segment takes
/// the old cell of the one before it, a connected body stays connected, and the head is
/// one step along `d` from the second segment.
pub proof fn lemma_move_shape(body: Seq<Position>, foods: Seq<Food>, d: Direction)
    requires
        body.len() > 0,
        connected(body),
        shift_fits(body[0], d),
    ensures
        moved_body(body, d).len() == body.len(),
        moved_body(body, d)[0] == shifted(body[0], d),
        forall|i: int| 1 <= i < body.len() ==> #[trigger] moved_body(body, d)[i] == body[i - 1],
        connected(moved_body(body, d)),
        connected(tick_body(body, foods, d)),
        heading_consistent(moved_body(body, d), d),
        heading_consistent(tick_body(body, foods, d), d),
{
    let moved = moved_body(body, d);
    let after = tick_body(body, foods, d);
    lemma_shift_adjacent(body[0], d);
    assert(forall|i: int| 1 <= i < moved.len() ==> moved[i] == body[i - 1]);
    assert(forall|i: int| 1 <= i < after.len() ==> after[i] == body[i - 1]);
    assert forall|i: int| 0 <= i < after.len() - 1 implies adjacent(#[trigger] after[i], after[i + 1]) by {
        if i > 0 {
            assert(after[i] == body[i - 1] && after[i + 1] == body[i]);
        }
    }
    assert forall|i: int| 0 <= i < moved.len() - 1 implies adjacent(#[trigger] moved[i], moved[i + 1]) by {
        if i > 0 {
            assert(moved[i] == body[i - 1] && moved[i + 1] == body[i]);
        }
    }
}

/// Between two ticks, however many frames of input run, the pending direction is never
/// the opposite of the last head move, read off the first two segments.
pub proof fn lemma_no_reversal_between_ticks(
    body: Seq<Position>,
    head: SnakeHead,
    frames: Seq<Seq<Key>>,
    last: Direction,
)
    requires
        body.len() >= 2,
        on_board(body[1]),
        heading_consistent(body, head.last_move),
        head.no_reversal(),
        body[0] == shifted(body[1], last),
    ensures
        head_after_frames(head, frames).direction != last.opposite_spec(),
{
    lemma_frames_never_reverse(head, frames);
    assert(last == head.last_move);
}

} // verus!
