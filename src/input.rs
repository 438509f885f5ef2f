use vstd::prelude::*;
use crate::direction::Direction;
use crate::game::SnakeHead;

verus! {

/// A key that steers the snake.
#[derive(Clone, Copy, Debug, PartialEq, Eq, Structural)]
pub enum Key {
    W,
    A,
    S,
    D,
    ArrowUp,
    ArrowDown,
    ArrowLeft,
    ArrowRight,
}

/// One of the two keys is among the pressed ones.
pub open spec fn pressed_either(keys: Seq<Key>, a: Key, b: Key) -> bool {
    exists|i: int| 0 <= i < keys.len() && (keys[i] == a || keys[i] == b)
}

/// The direction the pressed keys ask for, by the precedence Up, Down, Right, Left.
pub open spec fn requested_direction(keys: Seq<Key>) -> Option<Direction> {
    if pressed_either(keys, Key::W, Key::ArrowUp) {
        Some(Direction::Up)
    } else if pressed_either(keys, Key::S, Key::ArrowDown) {
        Some(Direction::Down)
    } else if pressed_either(keys, Key::D, Key::ArrowRight) {
        Some(Direction::Right)
    } else if pressed_either(keys, Key::A, Key::ArrowLeft) {
        Some(Direction::Left)
    } else {
        None
    }
}

/// The head direction after the pressed keys are applied: a requested direction is
/// taken unless it is the opposite of the pending direction or of the last move.
pub open spec fn input_direction(head: SnakeHead, keys: Seq<Key>) -> Direction {
    match requested_direction(keys) {
        Some(d) => if d != head.direction.opposite_spec() && d != head.last_move.opposite_spec() {
            d
        } else {
            head.direction
        },
        None => head.direction,
    }
}

/// The head after one application of the input per frame, over the frames in order,
/// with no tick between them.
pub open spec fn head_after_frames(head: SnakeHead, frames: Seq<Seq<Key>>) -> SnakeHead
    decreases frames.len(),
{
    if frames.len() == 0 {
        head
    } else {
        let h = head_after_frames(head, frames.drop_last());
        SnakeHead { direction: input_direction(h, frames.last()), last_move: h.last_move }
    }
}

/// A request for the opposite of the pending direction leaves the direction unchanged.
pub proof fn lemma_reversal_rejected(head: SnakeHead, keys: Seq<Key>)
    requires
        requested_direction(keys) == Some(head.direction.opposite_spec()),
    ensures
        input_direction(head, keys) == head.direction,
{
}

/// A request for the opposite of the last move leaves the direction unchanged.
pub proof fn lemma_reversal_of_last_move_rejected(head: SnakeHead, keys: Seq<Key>)
    requires
        requested_direction(keys) == Some(head.last_move.opposite_spec()),
    ensures
        input_direction(head, keys) == head.direction,
{
}

/// Whatever keys are pressed, the new direction is never the opposite of the pending one.
pub proof fn lemma_input_never_reverses(head: SnakeHead, keys: Seq<Key>)
    ensures
        input_direction(head, keys) != head.direction.opposite_spec(),
{
}

/// However many frames of input run between two ticks, the pending direction never
/// becomes the opposite of the last move, and the last move is left as it was.
pub proof fn lemma_frames_never_reverse(head: SnakeHead, frames: Seq<Seq<Key>>)
    requires
        head.no_reversal(),
    ensures
        head_after_frames(head, frames).last_move == head.last_move,
        head_after_frames(head, frames).no_reversal(),
    decreases frames.len(),
{
    if frames.len() > 0 {
        lemma_frames_never_reverse(head, frames.drop_last());
    }
}

fn pressed_either_exec(keys: &Vec<Key>, a: Key, b: Key) -> (r: bool)
    ensures
        r == pressed_either(keys@, a, b),
{
    let mut i: usize = 0;
    while i < keys.len()
        invariant
            i <= keys@.len(),
            forall|j: int| 0 <= j < i ==> keys@[j] != a && keys@[j] != b,
        decreases keys@.len() - i,
    {
        if keys[i] == a || keys[i] == b {
            return true;
        }
        i = i + 1;
    }
    false
}

/// The direction the pressed keys ask for, if any.
pub fn requested(keys: &Vec<Key>) -> (r: Option<Direction>)
    ensures
        r == requested_direction(keys@),
{
    if pressed_either_exec(keys, Key::W, Key::ArrowUp) {
        Some(Direction::Up)
    } else if pressed_either_exec(keys, Key::S, Key::ArrowDown) {
        Some(Direction::Down)
    } else if pressed_either_exec(keys, Key::D, Key::ArrowRight) {
        Some(Direction::Right)
    } else if pressed_either_exec(keys, Key::A, Key::ArrowLeft) {
        Some(Direction::Left)
    } else {
        None
    }
}

/// Steers the head by the pressed keys, rejecting a request for the opposite of the
/// pending direction or of the last move.
pub fn snake_movement_input(head: &mut SnakeHead, keys: &Vec<Key>)
    ensures
        final(head).direction == input_direction(*old(head), keys@),
        final(head).last_move == old(head).last_move,
        old(head).no_reversal() ==> final(head).no_reversal(),
{
    let dir = match requested(keys) {
        Some(d) => d,
        None => head.direction,
    };
    if dir != head.direction.opposite() && dir != head.last_move.opposite() {
        head.direction = dir;
    }
}

} // verus!
