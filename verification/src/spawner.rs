//! Random cells for new fruit.

use crate::fruit::{fruit_on, Fruit, FruitSet};
use crate::grid::{Arena, Position};
use crate::snake::{occupies, Segment, Snake};
use rand::Rng;
use vstd::prelude::*;

verus! {

/// How many cells the spawner draws before it gives up on a spawn.
pub const SPAWN_ATTEMPTS: u32 = 1024;

/// `rand::rngs::ThreadRng`, the random number generator that each thread has
/// for itself. It is carried from `rand::thread_rng` to `gen_range`; nothing
/// is known of what is inside.
#[verifier::external_type_specification]
#[verifier::external_body]
pub struct ExThreadRng(rand::rngs::ThreadRng);

/// `rand::thread_rng` hands out the calling thread's generator, which the
/// operating system has seeded; the call panics if the system gives it no
/// seed. Nothing is claimed of the generator.
pub assume_specification[ rand::thread_rng ]() -> (rng: rand::rngs::ThreadRng)
;

/// Calls `rand::Rng::gen_range` with the half-open range `low..high`. The
/// call panics on an empty range, so `low` must be below `high`. Of the
/// number that comes back the one thing taken on trust is that it lies in the
/// range; which number it is differs from call to call.
#[verifier::external_body]
fn gen_range(rng: &mut rand::rngs::ThreadRng, low: i32, high: i32) -> (value: i32)
    requires
        low < high,
    ensures
        low <= value < high,
{
    rng.gen_range(low..high)
}

/// A cell of `arena`, drawn at random.
pub fn get_random_position(arena: Arena) -> (position: Position)
    ensures
        arena.spec_contains(position),
{
    let mut rng = rand::thread_rng();
    let x = gen_range(&mut rng, arena.beginning(), arena.end() + 1);
    let y = gen_range(&mut rng, arena.bottom(), arena.top() + 1);
    Position { x, y }
}

/// Whether `position` is a cell of `arena` that neither the snake nor a
/// fruit is on.
pub open spec fn is_free(
    arena: Arena,
    snake: Seq<Segment>,
    fruits: Seq<Fruit>,
    position: Position,
) -> bool {
    &&& arena.spec_contains(position)
    &&& !occupies(snake, position)
    &&& !fruit_on(fruits, position)
}

/// Whether every cell of `arena` is free.
pub open spec fn all_free(arena: Arena, snake: Seq<Segment>, fruits: Seq<Fruit>) -> bool {
    forall|position: Position| #[trigger]
        arena.spec_contains(position) ==> is_free(arena, snake, fruits, position)
}

/// Tells whether a fruit may be put on `position`.
pub fn check_free(arena: Arena, snake: &Snake, fruits: &FruitSet, position: Position) -> (free:
    bool)
    ensures
        free == is_free(arena, snake@, fruits@, position),
{
    arena.contains(position) && !snake.is_on(position) && !fruits.is_on(position)
}

/// Draws cells of `arena` at random until one is free, and returns it. After
/// `SPAWN_ATTEMPTS` draws without a free cell it gives up and returns `None`.
/// Which cell comes back, and whether one does, is a matter of chance,
/// except where the arena leaves no choice: a cell that comes back is always
/// free, and where every cell is free one always comes back.
pub fn find_free_cell(arena: Arena, snake: &Snake, fruits: &FruitSet) -> (cell: Option<Position>)
    ensures
        cell matches Some(position) ==> is_free(arena, snake@, fruits@, position),
        all_free(arena, snake@, fruits@) ==> cell.is_some(),
{
    let mut attempts: u32 = 0;
    while attempts < SPAWN_ATTEMPTS
        invariant
            attempts <= SPAWN_ATTEMPTS,
            attempts > 0 ==> !all_free(arena, snake@, fruits@),
        decreases SPAWN_ATTEMPTS - attempts,
    {
        let position = get_random_position(arena);
        if check_free(arena, snake, fruits, position) {
            return Some(position);
        }
        attempts = attempts + 1;
    }
    None
}

} // verus!
