use vstd::prelude::*;
use crate::board::{on_board, Position};
use crate::direction::{shift, shift_fits, shifted, Direction};

verus! {

/// The head of the snake: the direction it will move in on the next tick, and the
/// direction it moved in on the last one.
#[derive(Clone, Copy, Debug, PartialEq, Eq, Structural)]
pub struct SnakeHead {
    pub direction: Direction,
    pub last_move: Direction,
}

impl SnakeHead {
    /// The pending direction does not turn the head back onto its last move.
    pub open spec fn no_reversal(self) -> bool {
        self.direction != self.last_move.opposite_spec()
    }
}

/// The head the snake starts with: heading `Up`, having last moved `Up`.
pub open spec fn start_head() -> SnakeHead {
    SnakeHead { direction: Direction::Up, last_move: Direction::Up }
}

/// The cells of the snake's body, head first.
#[derive(Clone, Debug)]
pub struct SnakeSegments(pub Vec<Position>);

/// The cell vacated by the tail on the most recent movement tick, if any tick has run.
#[derive(Clone, Copy, Debug, PartialEq, Eq, Structural)]
pub struct LastTailPosition(pub Option<Position>);

/// A piece of food lying on a cell.
#[derive(Clone, Copy, Debug, PartialEq, Eq, Structural)]
pub struct Food {
    pub position: Position,
}

/// Sent when the head reaches a piece of food.
#[derive(Clone, Copy, Debug, PartialEq, Eq, Structural)]
pub struct GrowthEvent;

/// Sent when the head leaves the board or runs into the body.
#[derive(Clone, Copy, Debug, PartialEq, Eq, Structural)]
pub struct GameOverEvent;

/// The whole simulated world: the snake, the food on the board and the last tail cell.
#[derive(Clone, Debug)]
pub struct Game {
    pub head: SnakeHead,
    pub segments: SnakeSegments,
    pub food: Vec<Food>,
    pub last_tail_position: LastTailPosition,
}

/// The body the snake starts with: head at `(3, 3)`, one segment at `(3, 2)`.
pub open spec fn start_body() -> Seq<Position> {
    seq![Position { x: 3, y: 3 }, Position { x: 3, y: 2 }]
}

/// The body after the head steps along `d` and every other segment takes the cell
/// of the one before it; the old tail cell is left.
pub open spec fn moved_body(body: Seq<Position>, d: Direction) -> Seq<Position> {
    seq![shifted(body[0], d)] + body.subrange(0, body.len() - 1)
}

/// Number of game-over events a move along `d` sends: one for leaving the board,
/// one for landing on a cell the body held before the move.
pub open spec fn game_over_count(body: Seq<Position>, d: Direction) -> nat {
    let h = shifted(body[0], d);
    (if !on_board(h) { 1nat } else { 0nat }) + (if body.contains(h) { 1nat } else { 0nat })
}

/// A move along `d` ends the game.
pub open spec fn collides(body: Seq<Position>, d: Direction) -> bool {
    game_over_count(body, d) > 0
}

/// The food that is left once every piece on `p` is eaten, in the same order.
pub open spec fn foods_except(foods: Seq<Food>, p: Position) -> Seq<Food>
    decreases foods.len(),
{
    if foods.len() == 0 {
        seq![]
    } else {
        let rest = foods_except(foods.drop_last(), p);
        if foods.last().position == p {
            rest
        } else {
            rest.push(foods.last())
        }
    }
}

/// Number of pieces of food on `p`.
pub open spec fn count_food_at(foods: Seq<Food>, p: Position) -> nat
    decreases foods.len(),
{
    if foods.len() == 0 {
        0
    } else {
        count_food_at(foods.drop_last(), p) + if foods.last().position == p { 1nat } else { 0nat }
    }
}

/// Some piece of food lies on `p`.
pub open spec fn food_at(foods: Seq<Food>, p: Position) -> bool {
    exists|i: int| 0 <= i < foods.len() && foods[i].position == p
}

/// The body after a tick whose move along `d` does not end the game: the moved body,
/// with the old tail cell appended when food lay on the new head cell.
pub open spec fn tick_body(body: Seq<Position>, foods: Seq<Food>, d: Direction) -> Seq<Position> {
    let moved = moved_body(body, d);
    if count_food_at(foods, moved[0]) > 0 {
        moved.push(body.last())
    } else {
        moved
    }
}

impl Game {
    /// The snake's body, head first.
    pub open spec fn body(&self) -> Seq<Position> {
        self.segments.0@
    }

    /// A fresh world: the starting snake heading `Up`, no food and no tail cell yet.
    pub fn new() -> (r: Game)
        ensures
            r.body() == start_body(),
            r.head == start_head(),
            r.food@.len() == 0,
            r.last_tail_position.0 is None,
    {
        let mut g = Game {
            head: SnakeHead { direction: Direction::Up, last_move: Direction::Up },
            segments: SnakeSegments(Vec::new()),
            food: Vec::new(),
            last_tail_position: LastTailPosition(None),
        };
        spawn_snake(&mut g);
        g
    }
}

/// Puts the snake back in its starting shape and direction; the food stays.
pub fn spawn_snake(game: &mut Game)
    ensures
        final(game).body() == start_body(),
        final(game).head == start_head(),
        final(game).food == old(game).food,
        final(game).last_tail_position == old(game).last_tail_position,
{
    game.head = SnakeHead { direction: Direction::Up, last_move: Direction::Up };
    game.segments = SnakeSegments(Vec::new());
    game.segments.0.push(Position { x: 3, y: 3 });
    spawn_segment(game, Position { x: 3, y: 2 });
    assert(game.body() =~= start_body());
}

/// Appends a segment at `position` behind the tail.
pub fn spawn_segment(game: &mut Game, position: Position)
    ensures
        final(game).body() == old(game).body().push(position),
        final(game).head == old(game).head,
        final(game).food == old(game).food,
        final(game).last_tail_position == old(game).last_tail_position,
{
    game.segments.0.push(position);
}

/// Whether `p` is one of the cells of `body`.
pub fn body_contains(body: &Vec<Position>, p: Position) -> (r: bool)
    ensures
        r == body@.contains(p),
{
    let mut i: usize = 0;
    while i < body.len()
        invariant
            i <= body@.len(),
            forall|j: int| 0 <= j < i ==> body@[j] != p,
        decreases body@.len() - i,
    {
        if body[i] == p {
            assert(body@[i as int] == p);
            return true;
        }
        i = i + 1;
    }
    false
}

/// The movement tick: the head steps along its direction, each other segment takes
/// the old cell of the one before it, and the old tail cell and the direction of the
/// move are recorded. One
/// game-over event is returned for leaving the board and one for landing on a cell
/// the body held before the move (its tail included).
pub fn snake_movement(game: &mut Game) -> (events: Vec<GameOverEvent>)
    requires
        old(game).body().len() > 0,
        shift_fits(old(game).body()[0], old(game).head.direction),
    ensures
        final(game).body() == moved_body(old(game).body(), old(game).head.direction),
        final(game).last_tail_position.0 == Some(old(game).body().last()),
        events@.len() == game_over_count(old(game).body(), old(game).head.direction),
        final(game).head == (SnakeHead {
            direction: old(game).head.direction,
            last_move: old(game).head.direction,
        }),
        final(game).food == old(game).food,
{
    let n = game.segments.0.len();
    let new_head = shift(game.segments.0[0], game.head.direction);
    let mut events: Vec<GameOverEvent> = Vec::new();
    if !new_head.is_on_board() {
        events.push(GameOverEvent);
    }
    if body_contains(&game.segments.0, new_head) {
        events.push(GameOverEvent);
    }
    let mut moved: Vec<Position> = Vec::new();
    moved.push(new_head);
    let mut i: usize = 0;
    while i + 1 < n
        invariant
            n == game.body().len(),
            n > 0,
            i + 1 <= n,
            moved@ == seq![new_head] + game.body().subrange(0, i as int),
        decreases n - i,
    {
        moved.push(game.segments.0[i]);
        i = i + 1;
        assert(moved@ =~= seq![new_head] + game.body().subrange(0, i as int));
    }
    let tail = game.segments.0[n - 1];
    game.segments = SnakeSegments(moved);
    game.last_tail_position = LastTailPosition(Some(tail));
    game.head.last_move = game.head.direction;
    events
}

/// The eating rule: every piece of food on the head's cell is removed, and one
/// growth event is returned for each.
pub fn snake_eating(game: &mut Game) -> (events: Vec<GrowthEvent>)
    requires
        old(game).body().len() > 0,
    ensures
        final(game).food@ == foods_except(old(game).food@, old(game).body()[0]),
        events@.len() == count_food_at(old(game).food@, old(game).body()[0]),
        final(game).segments == old(game).segments,
        final(game).head == old(game).head,
        final(game).last_tail_position == old(game).last_tail_position,
{
    let head_pos = game.segments.0[0];
    let ghost foods = game.food@;
    let mut kept: Vec<Food> = Vec::new();
    let mut events: Vec<GrowthEvent> = Vec::new();
    let mut i: usize = 0;
    while i < game.food.len()
        invariant
            foods == game.food@,
            i <= foods.len(),
            kept@ == foods_except(foods.subrange(0, i as int), head_pos),
            events@.len() == count_food_at(foods.subrange(0, i as int), head_pos),
        decreases foods.len() - i,
    {
        let f = game.food[i];
        assert(foods.subrange(0, i + 1).drop_last() =~= foods.subrange(0, i as int));
        if f.position == head_pos {
            events.push(GrowthEvent);
        } else {
            kept.push(f);
        }
        i = i + 1;
    }
    assert(foods.subrange(0, foods.len() as int) =~= foods);
    game.food = kept;
    events
}

/// The growth rule: when at least one growth event is pending, one segment is
/// appended at the recorded tail cell.
pub fn snake_growth(game: &mut Game, events: &Vec<GrowthEvent>)
    requires
        events@.len() > 0 ==> old(game).last_tail_position.0 is Some,
    ensures
        final(game).body() == if events@.len() > 0 {
            old(game).body().push(old(game).last_tail_position.0->Some_0)
        } else {
            old(game).body()
        },
        final(game).head == old(game).head,
        final(game).food == old(game).food,
        final(game).last_tail_position == old(game).last_tail_position,
{
    if events.len() > 0 {
        match game.last_tail_position.0 {
            Some(p) => spawn_segment(game, p),
            None => {},
        }
    }
}

/// The lifecycle: on any pending game-over event, all food is removed and the snake
/// is put back in its starting shape.
pub fn game_over(game: &mut Game, events: &Vec<GameOverEvent>)
    ensures
        events@.len() > 0 ==> {
            &&& final(game).body() == start_body()
            &&& final(game).head == start_head()
            &&& final(game).food@.len() == 0
        },
        events@.len() == 0 ==> *final(game) == *old(game),
        final(game).last_tail_position == old(game).last_tail_position,
{
    if events.len() > 0 {
        game.food = Vec::new();
        spawn_snake(game);
    }
}

/// One movement tick followed, in this order, by eating, growth and the lifecycle.
/// Returns whether the game was lost and the world put back in its starting state.
pub fn tick(game: &mut Game) -> (lost: bool)
    requires
        old(game).body().len() > 0,
        shift_fits(old(game).body()[0], old(game).head.direction),
    ensures
        ({
            let body = old(game).body();
            let d = old(game).head.direction;
            let h = shifted(body[0], d);
            &&& lost == collides(body, d)
            &&& lost ==> {
                &&& final(game).body() == start_body()
                &&& final(game).head == start_head()
                &&& final(game).food@.len() == 0
            }
            &&& !lost ==> {
                &&& final(game).body() == tick_body(body, old(game).food@, d)
                &&& final(game).food@ == foods_except(old(game).food@, h)
                &&& final(game).head == (SnakeHead { direction: d, last_move: d })
            }
            &&& final(game).last_tail_position.0 == Some(body.last())
        }),
{
    let over = snake_movement(game);
    let growth = snake_eating(game);
    snake_growth(game, &growth);
    game_over(game, &over);
    over.len() > 0
}

/// The score: the number of body segments, head included.
pub fn score(game: &Game) -> (r: usize)
    ensures
        r == game.body().len(),
{
    game.segments.0.len()
}

} // verus!
