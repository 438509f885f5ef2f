use vstd::prelude::*;
use crate::board::{cell_at, cell_count, cell_index, on_board, Position, ARENA_HEIGHT, ARENA_WIDTH};
use crate::game::{body_contains, food_at, Food, Game};

verus! {

/// Relies on `rand::random`: it returns a value of the requested type drawn by the
/// thread-local generator; nothing is promised of which value.
pub assume_specification<T>[ rand::random::<T> ]() -> (r: T)
    where
        rand::distributions::Standard: rand::distributions::Distribution<T>,
;

/// A snake segment or a piece of food lies on `p`.
pub open spec fn occupied(body: Seq<Position>, foods: Seq<Food>, p: Position) -> bool {
    body.contains(p) || food_at(foods, p)
}

/// The free cells among the first `k` cells of the enumeration order.
pub open spec fn free_upto(body: Seq<Position>, foods: Seq<Food>, k: nat) -> Seq<Position>
    decreases k,
{
    if k == 0 {
        seq![]
    } else {
        let rest = free_upto(body, foods, (k - 1) as nat);
        let p = cell_at(k - 1);
        if occupied(body, foods, p) {
            rest
        } else {
            rest.push(p)
        }
    }
}

/// All free cells of the board, ordered by `x`, then by `y`.
pub open spec fn free_list(body: Seq<Position>, foods: Seq<Food>) -> Seq<Position> {
    free_upto(body, foods, cell_count() as nat)
}

/// The free cells among the first `k` are on the board, unoccupied, strictly
/// increasing in enumeration order and below rank `k`; every free cell of rank
/// below `k` is among them.
pub proof fn lemma_free_upto(body: Seq<Position>, foods: Seq<Food>, k: nat)
    requires
        k <= cell_count(),
    ensures
        forall|i: int| 0 <= i < free_upto(body, foods, k).len() ==> {
            let p = #[trigger] free_upto(body, foods, k)[i];
            &&& on_board(p)
            &&& !occupied(body, foods, p)
            &&& 0 <= cell_index(p) < k
        },
        forall|i: int, j: int| 0 <= i < j < free_upto(body, foods, k).len() ==>
            cell_index(#[trigger] free_upto(body, foods, k)[i]) < cell_index(
                #[trigger] free_upto(body, foods, k)[j],
            ),
        forall|p: Position| on_board(p) && !occupied(body, foods, p) && cell_index(p) < k
            ==> #[trigger] free_upto(body, foods, k).contains(p),
    decreases k,
{
    if k > 0 {
        lemma_free_upto(body, foods, (k - 1) as nat);
        let q = cell_at(k - 1);
        crate::board::lemma_index_cell(k - 1);
        let s = free_upto(body, foods, k);
        let rest = free_upto(body, foods, (k - 1) as nat);
        assert forall|p: Position| on_board(p) && !occupied(body, foods, p) && cell_index(p) < k
            implies #[trigger] s.contains(p) by {
            if cell_index(p) < k - 1 {
                assert(rest.contains(p));
                let i = choose|i: int| 0 <= i < rest.len() && rest[i] == p;
                assert(s[i] == p);
            } else {
                crate::board::lemma_cell_at_index(p);
                assert(s[s.len() - 1] == p);
            }
        }
    }
}

/// The free cells of the board are exactly the on-board cells that no segment and no
/// food occupies, each listed once in enumeration order.
pub proof fn lemma_free_list(body: Seq<Position>, foods: Seq<Food>)
    ensures
        forall|p: Position| #[trigger] free_list(body, foods).contains(p)
            <==> on_board(p) && !occupied(body, foods, p),
        free_list(body, foods).no_duplicates(),
{
    lemma_free_upto(body, foods, cell_count() as nat);
    let s = free_list(body, foods);
    assert forall|p: Position| #[trigger] s.contains(p) implies on_board(p) && !occupied(body, foods, p) by {
        let i = choose|i: int| 0 <= i < s.len() && s[i] == p;
        assert(s[i] == p);
    }
    assert forall|p: Position| on_board(p) && !occupied(body, foods, p) implies #[trigger] s.contains(p) by {
        crate::board::lemma_cell_at_index(p);
    }
    assert forall|i: int, j: int| 0 <= i < s.len() && 0 <= j < s.len() && i != j implies s[i] != s[j] by {
        if i < j {
            assert(cell_index(s[i]) < cell_index(s[j]));
        } else {
            assert(cell_index(s[j]) < cell_index(s[i]));
        }
    }
}

/// Whether some piece of food lies on `p`.
pub fn food_contains(foods: &Vec<Food>, p: Position) -> (r: bool)
    ensures
        r == food_at(foods@, p),
{
    let mut i: usize = 0;
    while i < foods.len()
        invariant
            i <= foods@.len(),
            forall|j: int| 0 <= j < i ==> foods@[j].position != p,
        decreases foods@.len() - i,
    {
        if foods[i].position == p {
            return true;
        }
        i = i + 1;
    }
    false
}

/// The free cells of the board, ordered by `x`, then by `y`.
pub fn free_cells(game: &Game) -> (r: Vec<Position>)
    ensures
        r@ == free_list(game.body(), game.food@),
{
    let ghost body = game.body();
    let ghost foods = game.food@;
    let mut r: Vec<Position> = Vec::new();
    let mut x: i32 = 0;
    while x < ARENA_WIDTH
        invariant
            body == game.body(),
            foods == game.food@,
            0 <= x <= ARENA_WIDTH,
            r@ == free_upto(body, foods, (x * ARENA_HEIGHT) as nat),
        decreases ARENA_WIDTH - x,
    {
        let mut y: i32 = 0;
        while y < ARENA_HEIGHT
            invariant
                body == game.body(),
                foods == game.food@,
                0 <= x < ARENA_WIDTH,
                0 <= y <= ARENA_HEIGHT,
                r@ == free_upto(body, foods, (x * ARENA_HEIGHT + y) as nat),
            decreases ARENA_HEIGHT - y,
        {
            let p = Position { x, y };
            proof {
                crate::board::lemma_cell_at_index(p);
            }
            let taken = body_contains(&game.segments.0, p) || food_contains(&game.food, p);
            if !taken {
                r.push(p);
            }
            y = y + 1;
        }
        x = x + 1;
    }
    r
}

/// Places one piece of food on the free cell of rank `r mod N` among the `N` free
/// cells; with no free cell, nothing changes.
pub fn place_food(game: &mut Game, r: usize)
    ensures
        ({
            let free = free_list(old(game).body(), old(game).food@);
            &&& free.len() == 0 ==> *final(game) == *old(game)
            &&& free.len() > 0 ==> final(game).food@ == old(game).food@.push(
                Food { position: free[(r as int) % (free.len() as int)] },
            )
        }),
        final(game).segments == old(game).segments,
        final(game).head == old(game).head,
        final(game).last_tail_position == old(game).last_tail_position,
{
    let free = free_cells(game);
    if free.len() > 0 {
        let p = free[r % free.len()];
        game.food.push(Food { position: p });
    }
}

/// The food placer: draws a random number and places one piece of food on a free
/// cell chosen by it; with no free cell, nothing changes.
pub fn food_spawner(game: &mut Game)
    ensures
        ({
            let free = free_list(old(game).body(), old(game).food@);
            &&& free.len() == 0 ==> *final(game) == *old(game)
            &&& free.len() > 0 ==> exists|i: int| 0 <= i < free.len()
                && final(game).food@ == old(game).food@.push(Food { position: free[i] })
        }),
        final(game).segments == old(game).segments,
        final(game).head == old(game).head,
        final(game).last_tail_position == old(game).last_tail_position,
{
    let r: usize = rand::random::<usize>();
    place_food(game, r);
    proof {
        let free = free_list(old(game).body(), old(game).food@);
        if free.len() > 0 {
            let i = (r as int) % (free.len() as int);
            assert(0 <= i < free.len());
        }
    }
}

} // verus!
