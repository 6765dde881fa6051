//! The game: a snake, the fruits, two timers, and the order in which a tick
//! works through them.

use crate::direction::{ahead, requested_direction, Direction, PressedKeys};
use crate::fruit::{
    away_from, count_on, fruit_ids_valid, fruit_on, inside, lemma_filter_keeps_fruit_ids, Fruit,
    FruitSet,
};
use crate::grid::{Arena, Position};
use crate::snake::{
    advanced, grown, growth, has_left, head_hits_body, ids_valid, lemma_filter_empty_iff_left,
    lemma_growth_appends_behind_tail, lemma_growth_keeps_ids, lemma_movement_keeps_ids,
    lemma_reaped_keeps_ids, occupies, propagated, reaped, steered, turned, within, Segment, Snake,
};
use crate::spawner::{all_free, check_free, find_free_cell, is_free};
use crate::timer::{ticked, RepeatingTimer, TimerState};
use vstd::prelude::*;

verus! {

/// Why a game is over.
#[derive(Clone, Copy, Debug, PartialEq, Eq, Structural)]
pub enum EndCause {
    /// The head ran into the rest of the snake.
    SelfCollision,
    /// No segment of the snake was left inside the arena.
    LeftArena,
}

/// Whether a game is still being played.
#[derive(Clone, Copy, Debug, PartialEq, Eq, Structural)]
pub enum Phase {
    Running,
    Ended(EndCause),
}

/// Everything that a game holds.
pub struct GameState {
    pub arena: Arena,
    /// The snake, head first.
    pub snake: Seq<Segment>,
    /// The identifier that the next new segment gets.
    pub next_segment_id: u64,
    /// The fruits, oldest first.
    pub fruits: Seq<Fruit>,
    /// The identifier that the next new fruit gets.
    pub next_fruit_id: u64,
    /// Gates the moves of the snake.
    pub move_cooldown: TimerState,
    /// Gates the spawning of fruit.
    pub fruit_timer: TimerState,
    pub phase: Phase,
}

impl GameState {
    /// What holds of every game that can be reached: the arena has extents,
    /// the snake has a head, and identifiers tell segments and fruits apart.
    pub open spec fn valid(self) -> bool {
        &&& self.arena.wf()
        &&& self.snake.len() >= 1
        &&& ids_valid(self.snake, self.next_segment_id)
        &&& fruit_ids_valid(self.fruits, self.next_fruit_id)
    }

    /// Whether a fruit may be put on `position`.
    pub open spec fn free(self, position: Position) -> bool {
        is_free(self.arena, self.snake, self.fruits, position)
    }

    /// The head has taken the direction that `keys` ask for.
    pub open spec fn after_input(self, keys: PressedKeys) -> GameState {
        GameState { snake: steered(self.snake, keys), ..self }
    }

    /// The move cooldown has been given `delta` more time.
    pub open spec fn after_cooldown(self, delta: nat) -> GameState {
        GameState { move_cooldown: ticked(self.move_cooldown, delta), ..self }
    }

    /// Every heading has travelled one segment down the chain.
    pub open spec fn after_propagation(self) -> GameState {
        GameState { snake: propagated(self.snake), ..self }
    }

    /// Every segment has moved one cell.
    pub open spec fn after_advance(self) -> GameState {
        GameState { snake: advanced(self.snake), ..self }
    }

    /// What a tick does to the snake before anything else happens. The
    /// cooldown is given `delta` more time. If it fires, every heading first
    /// travels one segment down the chain, then the head takes the direction
    /// that `keys` ask for, then every segment moves one cell. A segment
    /// behind the head thus moves the way the segment ahead of it faced when
    /// the tick began, whatever is pressed now. If the cooldown does not
    /// fire, only the head turns.
    pub open spec fn after_movement(self, keys: PressedKeys, delta: nat) -> GameState {
        let timed = self.after_cooldown(delta);
        if timed.move_cooldown.finished {
            timed.after_propagation().after_input(keys).after_advance()
        } else {
            timed.after_input(keys)
        }
    }

    /// A new fruit lies on `position`, if that cell is free and an identifier
    /// is left for the fruit; if not, nothing has changed.
    pub open spec fn with_fruit(self, position: Position) -> GameState {
        if self.free(position) && self.next_fruit_id < u64::MAX {
            GameState {
                fruits: self.fruits.push(Fruit { id: self.next_fruit_id, position }),
                next_fruit_id: (self.next_fruit_id + 1) as u64,
                ..self
            }
        } else {
            self
        }
    }

    /// The fruit timer has been given `delta` more time, and if it fired and
    /// a cell was found, a fruit has been put there.
    pub open spec fn after_spawn(self, delta: nat, cell: Option<Position>) -> GameState {
        let timed = GameState { fruit_timer: ticked(self.fruit_timer, delta), ..self };
        match cell {
            Some(position) => if timed.fruit_timer.finished {
                timed.with_fruit(position)
            } else {
                timed
            },
            None => timed,
        }
    }

    /// How many fruits lie on the cell of the head.
    pub open spec fn eaten(self) -> nat {
        count_on(self.fruits, self.snake[0].position)
    }

    /// Every fruit on the cell of the head is gone.
    pub open spec fn after_fruit_collisions(self) -> GameState {
        GameState { fruits: self.fruits.filter(away_from(self.snake[0].position)), ..self }
    }

    /// The snake has grown by `count` segments at the tail end.
    pub open spec fn after_growth(self, count: nat) -> GameState {
        GameState {
            snake: grown(self.snake, self.next_segment_id, count),
            next_segment_id: (self.next_segment_id + growth(self.next_segment_id, count)) as u64,
            ..self
        }
    }

    /// The game is over for `cause`, unless it was over already.
    pub open spec fn after_end(self, cause: EndCause) -> GameState {
        if self.phase == Phase::Running {
            GameState { phase: Phase::Ended(cause), ..self }
        } else {
            self
        }
    }

    /// The game is over if the head is on a cell of the body.
    pub open spec fn after_collision_check(self) -> GameState {
        if head_hits_body(self.snake) {
            self.after_end(EndCause::SelfCollision)
        } else {
            self
        }
    }

    /// Whatever was outside the arena is gone. If that was the whole snake,
    /// its head stays and the game is over.
    pub open spec fn after_reaping(self) -> GameState {
        let reaped = GameState {
            snake: reaped(self.snake, self.arena),
            fruits: self.fruits.filter(inside(self.arena)),
            ..self
        };
        if has_left(self.snake, self.arena) {
            reaped.after_end(EndCause::LeftArena)
        } else {
            reaped
        }
    }

    /// What a tick does once the snake has moved and the spawner has had its
    /// turn: the head eats the fruits on its cell, the snake grows by one
    /// segment for each, and the game ends if the head is now on a cell of
    /// the body. If the game goes on, whatever is outside the arena is
    /// removed.
    pub open spec fn after_meal(self) -> GameState {
        let checked = self.after_fruit_collisions().after_growth(
            self.eaten(),
        ).after_collision_check();
        if checked.phase == Phase::Running {
            checked.after_reaping()
        } else {
            checked
        }
    }

    /// The game one tick later, where `delta` is the time since the tick
    /// before, `keys` are the keys held, and `cell` is the cell that the
    /// spawner found, if it was asked and found one. A game that is over
    /// stays as it is.
    pub open spec fn after_tick(
        self,
        keys: PressedKeys,
        delta: nat,
        cell: Option<Position>,
    ) -> GameState {
        if self.phase == Phase::Running {
            self.after_movement(keys, delta).after_spawn(delta, cell).after_meal()
        } else {
            self
        }
    }
}

/// A game of snake.
pub struct Game {
    arena: Arena,
    snake: Snake,
    fruits: FruitSet,
    move_cooldown: RepeatingTimer,
    fruit_timer: RepeatingTimer,
    phase: Phase,
}

impl View for Game {
    type V = GameState;

    closed spec fn view(&self) -> GameState {
        GameState {
            arena: self.arena,
            snake: self.snake@,
            next_segment_id: self.snake.spec_next_id(),
            fruits: self.fruits@,
            next_fruit_id: self.fruits.spec_next_id(),
            move_cooldown: self.move_cooldown@,
            fruit_timer: self.fruit_timer@,
            phase: self.phase,
        }
    }
}

impl Game {
    /// A new game in `arena`: a snake of one segment at the origin, heading
    /// up, and no fruit. The snake moves every `move_interval` and a fruit is
    /// due every `fruit_interval`.
    pub fn new(arena: Arena, move_interval: u64, fruit_interval: u64) -> (game: Game)
        ensures
            game@ == (GameState {
                arena,
                snake: seq![
                    Segment {
                        id: 0,
                        position: Position { x: 0, y: 0 },
                        heading: Direction::Up,
                    },
                ],
                next_segment_id: 1,
                fruits: Seq::empty(),
                next_fruit_id: 0,
                move_cooldown: TimerState {
                    period: move_interval as nat,
                    elapsed: 0,
                    finished: false,
                },
                fruit_timer: TimerState {
                    period: fruit_interval as nat,
                    elapsed: 0,
                    finished: false,
                },
                phase: Phase::Running,
            }),
            game@.valid(),
    {
        proof {
            use_type_invariant(arena);
        }
        Game {
            arena,
            snake: Snake::new(),
            fruits: FruitSet::new(),
            move_cooldown: RepeatingTimer::new(move_interval),
            fruit_timer: RepeatingTimer::new(fruit_interval),
            phase: Phase::Running,
        }
    }

    /// The arena that the game is played in.
    pub fn arena(&self) -> (arena: Arena)
        ensures
            arena == self@.arena,
    {
        self.arena
    }

    /// The snake.
    pub fn snake(&self) -> (snake: &Snake)
        ensures
            snake@ == self@.snake,
            snake.spec_next_id() == self@.next_segment_id,
    {
        &self.snake
    }

    /// The fruits that lie in the arena.
    pub fn fruits(&self) -> (fruits: &FruitSet)
        ensures
            fruits@ == self@.fruits,
            fruits.spec_next_id() == self@.next_fruit_id,
    {
        &self.fruits
    }

    /// Whether the game is still running, and if not, why it ended.
    pub fn phase(&self) -> (phase: Phase)
        ensures
            phase == self@.phase,
    {
        self.phase
    }

    /// The timer that gates the moves of the snake.
    pub fn move_cooldown(&self) -> (timer: RepeatingTimer)
        ensures
            timer@ == self@.move_cooldown,
    {
        self.move_cooldown
    }

    /// The timer that gates the spawning of fruit.
    pub fn fruit_timer(&self) -> (timer: RepeatingTimer)
        ensures
            timer@ == self@.fruit_timer,
    {
        self.fruit_timer
    }

    /// Puts the segment at `index` on `position`, wherever that is. Returns
    /// whether there is such a segment; if not, nothing changes.
    pub fn set_segment_position(&mut self, index: usize, position: Position) -> (found: bool)
        ensures
            found == (index < old(self)@.snake.len()),
            found ==> final(self)@ == (GameState {
                snake: old(self)@.snake.update(
                    index as int,
                    Segment {
                        id: old(self)@.snake[index as int].id,
                        position,
                        heading: old(self)@.snake[index as int].heading,
                    },
                ),
                ..old(self)@
            }),
            !found ==> final(self)@ == old(self)@,
            old(self)@.valid() ==> final(self)@.valid(),
    {
        self.snake.set_position(index, position)
    }

    /// Turns the segment at `index` to face `heading`. Returns whether there
    /// is such a segment; if not, nothing changes.
    pub fn set_segment_heading(&mut self, index: usize, heading: Direction) -> (found: bool)
        ensures
            found == (index < old(self)@.snake.len()),
            found ==> final(self)@ == (GameState {
                snake: old(self)@.snake.update(
                    index as int,
                    turned(old(self)@.snake[index as int], heading),
                ),
                ..old(self)@
            }),
            !found ==> final(self)@ == old(self)@,
            old(self)@.valid() ==> final(self)@.valid(),
    {
        self.snake.set_heading(index, heading)
    }

    /// Turns the head to the direction that `keys` ask for, if they ask for
    /// one.
    pub fn change_direction_on_input(&mut self, keys: PressedKeys)
        ensures
            final(self)@ == old(self)@.after_input(keys),
            old(self)@.valid() ==> final(self)@.valid(),
    {
        self.snake.steer(keys);
        proof {
            self.snake.lemma_nonempty();
        }
    }

    /// Gives the move cooldown `delta` more time.
    pub fn tick_move_cooldown(&mut self, delta: u64)
        ensures
            final(self)@ == old(self)@.after_cooldown(delta as nat),
            old(self)@.valid() ==> final(self)@.valid(),
    {
        self.move_cooldown.tick(delta);
    }

    /// Whether the last tick of the move cooldown fired.
    pub fn ready_to_move(&self) -> (ready: bool)
        ensures
            ready == self@.move_cooldown.finished,
    {
        self.move_cooldown.finished()
    }

    /// Hands every heading one segment down the chain.
    pub fn change_snake_body_directions(&mut self)
        ensures
            final(self)@ == old(self)@.after_propagation(),
            old(self)@.valid() ==> final(self)@.valid(),
    {
        self.snake.propagate_headings();
        proof {
            self.snake.lemma_nonempty();
        }
    }

    /// Moves every segment one cell along its own heading.
    pub fn move_snake_bodies(&mut self)
        ensures
            final(self)@ == old(self)@.after_advance(),
            old(self)@.valid() ==> final(self)@.valid(),
    {
        self.snake.advance();
        proof {
            self.snake.lemma_nonempty();
        }
    }

    /// Puts a new fruit on `position`, provided that the cell is inside the
    /// arena, that neither the snake nor a fruit is on it, and that an
    /// identifier is left for the fruit. Returns whether it did.
    pub fn place_fruit(&mut self, position: Position) -> (placed: bool)
        ensures
            final(self)@ == old(self)@.with_fruit(position),
            placed == (old(self)@.free(position) && old(self)@.next_fruit_id < u64::MAX),
            old(self)@.valid() ==> final(self)@.valid(),
    {
        if check_free(self.arena, &self.snake, &self.fruits, position) {
            self.fruits.spawn(position)
        } else {
            false
        }
    }

    /// Gives the fruit timer `delta` more time and, if it fires, puts a fruit
    /// on the cell `cell`, under the conditions of `place_fruit`.
    pub fn spawn_fruit_at(&mut self, delta: u64, cell: Option<Position>)
        ensures
            final(self)@ == old(self)@.after_spawn(delta as nat, cell),
            old(self)@.valid() ==> final(self)@.valid(),
    {
        let fired = self.fruit_timer.tick(delta);
        if fired {
            match cell {
                Some(position) => {
                    self.place_fruit(position);
                },
                None => {},
            }
        }
    }

    /// Gives the fruit timer `delta` more time and, if it fires, puts a fruit
    /// on a free cell of the arena that is drawn at random. The spawn is
    /// skipped if no free cell comes up in `SPAWN_ATTEMPTS` draws.
    pub fn spawn_fruits(&mut self, delta: u64)
        ensures
            exists|cell: Option<Position>|
                final(self)@ == #[trigger] old(self)@.after_spawn(delta as nat, cell),
            !ticked(old(self)@.fruit_timer, delta as nat).finished ==> final(self)@.fruits == old(
                self,
            )@.fruits,
            ticked(old(self)@.fruit_timer, delta as nat).finished && old(self)@.next_fruit_id
                < u64::MAX && all_free(old(self)@.arena, old(self)@.snake, old(self)@.fruits)
                ==> final(self)@.fruits.len() == old(self)@.fruits.len() + 1,
            old(self)@.valid() ==> final(self)@.valid(),
    {
        let fired = self.fruit_timer.tick(delta);
        if fired {
            let cell = find_free_cell(self.arena, &self.snake, &self.fruits);
            match cell {
                Some(position) => {
                    self.place_fruit(position);
                },
                None => {},
            }
            assert(self@ == old(self)@.after_spawn(delta as nat, cell));
        } else {
            assert(self@ == old(self)@.after_spawn(delta as nat, None));
        }
    }

    /// Removes the fruits that lie on the cell of the head, and returns how
    /// many there were: one request to grow for each.
    pub fn handle_snake_fruit_collisions(&mut self) -> (eaten: usize)
        ensures
            final(self)@ == old(self)@.after_fruit_collisions(),
            eaten == old(self)@.eaten(),
            old(self)@.valid() ==> final(self)@.valid(),
    {
        let head = self.snake.head();
        self.fruits.eat_at(head.position)
    }

    /// Appends one segment at the tail end for each of `eaten` requests, and
    /// returns how many it appended.
    pub fn add_snake_body_on_fruit_eaten(&mut self, eaten: usize) -> (added: usize)
        ensures
            final(self)@ == old(self)@.after_growth(eaten as nat),
            added == growth(old(self)@.next_segment_id, eaten as nat),
            old(self)@.valid() ==> final(self)@.valid(),
    {
        let added = self.snake.grow(eaten);
        proof {
            self.snake.lemma_nonempty();
        }
        added
    }

    /// Whether the head is on a cell of the body.
    pub fn snake_head_collides_with_body(&self) -> (hit: bool)
        ensures
            hit == head_hits_body(self@.snake),
    {
        self.snake.head_collides_with_body()
    }

    /// Ends the game for `cause`. A game that is over keeps its first cause.
    pub fn end_game(&mut self, cause: EndCause)
        ensures
            final(self)@ == old(self)@.after_end(cause),
            old(self)@.valid() ==> final(self)@.valid(),
    {
        if self.phase == Phase::Running {
            self.phase = Phase::Ended(cause);
        }
    }

    /// Removes the segments and the fruits that are outside the arena. If no
    /// segment is inside, the head stays and the game ends.
    pub fn reap_out_of_bounds(&mut self)
        ensures
            final(self)@ == old(self)@.after_reaping(),
            old(self)@.valid() ==> final(self)@.valid(),
    {
        let left = self.snake.reap(self.arena);
        self.fruits.reap(self.arena);
        proof {
            self.snake.lemma_nonempty();
        }
        if left {
            self.end_game(EndCause::LeftArena);
        }
    }

    /// The first part of a tick: the cooldown, and what the snake does if
    /// it fires.
    fn move_snake(&mut self, keys: PressedKeys, delta: u64)
        ensures
            final(self)@ == old(self)@.after_movement(keys, delta as nat),
            old(self)@.valid() ==> final(self)@.valid(),
    {
        self.tick_move_cooldown(delta);
        if self.ready_to_move() {
            self.change_snake_body_directions();
            self.change_direction_on_input(keys);
            self.move_snake_bodies();
        } else {
            self.change_direction_on_input(keys);
        }
    }

    /// The last part of a tick: eating, growing, the check for a collision,
    /// and the reaper.
    fn feed_snake(&mut self)
        ensures
            final(self)@ == old(self)@.after_meal(),
            old(self)@.valid() ==> final(self)@.valid(),
    {
        let eaten = self.handle_snake_fruit_collisions();
        self.add_snake_body_on_fruit_eaten(eaten);
        if self.snake_head_collides_with_body() {
            self.end_game(EndCause::SelfCollision);
        }
        if self.phase == Phase::Running {
            self.reap_out_of_bounds();
        }
    }

    /// One tick of the game, with a cell for the spawner drawn at random.
    /// What comes of it is what `tick_with` makes of the same keys and time
    /// and of some cell, or of none.
    pub fn tick(&mut self, keys: PressedKeys, delta: u64)
        ensures
            exists|cell: Option<Position>|
                final(self)@ == #[trigger] old(self)@.after_tick(keys, delta as nat, cell),
            old(self)@.valid() ==> final(self)@.valid(),
    {
        if self.phase == Phase::Running {
            self.move_snake(keys, delta);
            let ghost moved = self@;
            self.spawn_fruits(delta);
            let ghost cell = choose|cell: Option<Position>|
                self@ == #[trigger] moved.after_spawn(delta as nat, cell);
            self.feed_snake();
            assert(self@ == old(self)@.after_tick(keys, delta as nat, cell));
        } else {
            assert(self@ == old(self)@.after_tick(keys, delta as nat, None));
        }
    }

    /// One tick of the game, with `cell` as the cell that the spawner puts a
    /// fruit on if a fruit is due.
    pub fn tick_with(&mut self, keys: PressedKeys, delta: u64, cell: Option<Position>)
        ensures
            final(self)@ == old(self)@.after_tick(keys, delta as nat, cell),
            old(self)@.valid() ==> final(self)@.valid(),
    {
        if self.phase == Phase::Running {
            self.move_snake(keys, delta);
            self.spawn_fruit_at(delta, cell);
            self.feed_snake();
        }
    }
}

proof fn lemma_movement_keeps_valid(game: GameState, keys: PressedKeys, delta: nat)
    requires
        game.valid(),
    ensures
        game.after_movement(keys, delta).valid(),
{
    lemma_movement_keeps_ids(game.snake, keys, game.next_segment_id);
    lemma_movement_keeps_ids(propagated(game.snake), keys, game.next_segment_id);
    lemma_movement_keeps_ids(steered(propagated(game.snake), keys), keys, game.next_segment_id);
}

proof fn lemma_spawn_keeps_valid(game: GameState, delta: nat, cell: Option<Position>)
    requires
        game.valid(),
    ensures
        game.after_spawn(delta, cell).valid(),
{
}

proof fn lemma_feeding_keeps_valid(game: GameState)
    requires
        game.valid(),
    ensures
        game.after_fruit_collisions().after_growth(game.eaten()).valid(),
{
    let head = game.snake[0].position;
    lemma_filter_keeps_fruit_ids(game.fruits, away_from(head), game.next_fruit_id);
    lemma_growth_keeps_ids(game.snake, game.next_segment_id, game.eaten());
    lemma_growth_appends_behind_tail(game.snake, game.next_segment_id, game.eaten());
}

proof fn lemma_reaping_keeps_valid(game: GameState)
    requires
        game.valid(),
    ensures
        game.after_reaping().valid(),
{
    lemma_reaped_keeps_ids(game.snake, game.arena, game.next_segment_id);
    lemma_filter_keeps_fruit_ids(game.fruits, inside(game.arena), game.next_fruit_id);
    lemma_filter_empty_iff_left(game.snake, game.arena);
}

proof fn lemma_meal_keeps_valid(game: GameState)
    requires
        game.valid(),
    ensures
        game.after_meal().valid(),
{
    lemma_feeding_keeps_valid(game);
    let checked = game.after_fruit_collisions().after_growth(
        game.eaten(),
    ).after_collision_check();
    if checked.phase == Phase::Running {
        lemma_reaping_keeps_valid(checked);
    }
}

/// A tick leads from a valid game to a valid game, whatever is pressed,
/// however much time has passed and whichever cell the spawner found.
pub proof fn lemma_tick_keeps_valid(
    game: GameState,
    keys: PressedKeys,
    delta: nat,
    cell: Option<Position>,
)
    requires
        game.valid(),
    ensures
        game.after_tick(keys, delta, cell).valid(),
{
    if game.phase == Phase::Running {
        lemma_movement_keeps_valid(game, keys, delta);
        lemma_spawn_keeps_valid(game.after_movement(keys, delta), delta, cell);
        lemma_meal_keeps_valid(game.after_movement(keys, delta).after_spawn(delta, cell));
    }
}

/// A heading never passes more than one segment in a tick. When the cooldown
/// fires in a running game, every segment but the head moves the way the
/// segment ahead of it faced when the tick began, and faces that way
/// afterwards; the head moves and faces the way the keys ask for, or as
/// before if none is held. When the cooldown does not fire, nothing moves and
/// only the head may turn.
pub proof fn lemma_moving_tick_passes_headings_on(game: GameState, keys: PressedKeys, delta: nat)
    requires
        game.snake.len() >= 1,
    ensures
        game.after_movement(keys, delta).snake.len() == game.snake.len(),
        game.after_movement(keys, delta).snake[0].heading == match requested_direction(keys) {
            Some(direction) => direction,
            None => game.snake[0].heading,
        },
        ticked(game.move_cooldown, delta).finished ==> forall|i: int|
            1 <= i < game.snake.len() ==> {
                let segment = #[trigger] game.after_movement(keys, delta).snake[i];
                &&& segment.heading == game.snake[i - 1].heading
                &&& segment.position == ahead(game.snake[i].position, game.snake[i - 1].heading)
            },
        ticked(game.move_cooldown, delta).finished ==> game.after_movement(
            keys,
            delta,
        ).snake[0].position == ahead(
            game.snake[0].position,
            game.after_movement(keys, delta).snake[0].heading,
        ),
        !ticked(game.move_cooldown, delta).finished ==> forall|i: int|
            0 <= i < game.snake.len() ==> {
                let segment = #[trigger] game.after_movement(keys, delta).snake[i];
                &&& segment.position == game.snake[i].position
                &&& i >= 1 ==> segment.heading == game.snake[i].heading
            },
{
}

/// A collision is found in the tick in which it comes about. If, once the
/// snake has moved and grown in a tick, a segment other than the head is on
/// the cell of the head, then the game is over for that reason when the tick
/// is done; and if no segment is, the tick does not end the game for it.
pub proof fn lemma_collision_ends_game(
    game: GameState,
    keys: PressedKeys,
    delta: nat,
    cell: Option<Position>,
)
    requires
        game.phase == Phase::Running,
    ensures
        ({
            let spawned = game.after_movement(keys, delta).after_spawn(delta, cell);
            let fed = spawned.after_fruit_collisions().after_growth(spawned.eaten());
            head_hits_body(fed.snake) <==> game.after_tick(keys, delta, cell).phase
                == Phase::Ended(EndCause::SelfCollision)
        }),
{
}

/// The spawner never puts a fruit on a cell that is taken. Whatever cell it
/// is handed, the fruits afterwards are the fruits before, or those and one
/// new fruit; the new fruit lies inside the arena, on a cell that no segment
/// and no other fruit is on; and there is a new fruit only if the timer fired.
pub proof fn lemma_spawn_avoids_occupied(game: GameState, delta: nat, cell: Option<Position>)
    ensures
        ({
            let after = game.after_spawn(delta, cell);
            ||| after.fruits == game.fruits
            ||| {
                &&& ticked(game.fruit_timer, delta).finished
                &&& after.fruits.len() == game.fruits.len() + 1
                &&& after.fruits.drop_last() == game.fruits
                &&& after.fruits.last().id == game.next_fruit_id
                &&& game.arena.spec_contains(after.fruits.last().position)
                &&& !occupies(game.snake, after.fruits.last().position)
                &&& !fruit_on(game.fruits, after.fruits.last().position)
            }
        }),
{
    let after = game.after_spawn(delta, cell);
    if after.fruits != game.fruits {
        assert(after.fruits.drop_last() =~= game.fruits);
    }
}

/// A game that is still running when a tick is done has its whole snake, and
/// all its fruit, inside the arena.
pub proof fn lemma_running_game_is_inside(
    game: GameState,
    keys: PressedKeys,
    delta: nat,
    cell: Option<Position>,
)
    requires
        game.phase == Phase::Running,
        game.after_tick(keys, delta, cell).phase == Phase::Running,
    ensures
        forall|i: int|
            0 <= i < game.after_tick(keys, delta, cell).snake.len() ==> game.arena.spec_contains(
                (#[trigger] game.after_tick(keys, delta, cell).snake[i]).position,
            ),
        forall|i: int|
            0 <= i < game.after_tick(keys, delta, cell).fruits.len() ==> game.arena.spec_contains(
                (#[trigger] game.after_tick(keys, delta, cell).fruits[i]).position,
            ),
{
    let after = game.after_tick(keys, delta, cell);
    let spawned = game.after_movement(keys, delta).after_spawn(delta, cell);
    let checked = spawned.after_fruit_collisions().after_growth(
        spawned.eaten(),
    ).after_collision_check();
    assert forall|i: int| 0 <= i < after.snake.len() implies game.arena.spec_contains(
        (#[trigger] after.snake[i]).position,
    ) by {
        checked.snake.lemma_filter_pred(within(game.arena), i);
    }
    assert forall|i: int| 0 <= i < after.fruits.len() implies game.arena.spec_contains(
        (#[trigger] after.fruits[i]).position,
    ) by {
        checked.fruits.lemma_filter_pred(inside(game.arena), i);
    }
}

} // verus!
