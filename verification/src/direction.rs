//! The four headings and the cells ahead of and behind a position.

use crate::grid::{Arena, Position};
use vstd::prelude::*;

verus! {

/// One of the four ways a segment can face.
#[derive(Clone, Copy, Debug, PartialEq, Eq, Structural)]
pub enum Direction {
    Up,
    Left,
    Right,
    Down,
}

/// Which of the four directional keys are held down.
#[derive(Clone, Copy, Debug, PartialEq, Eq, Structural)]
pub struct PressedKeys {
    pub left: bool,
    pub right: bool,
    pub up: bool,
    pub down: bool,
}

/// The coordinate one step up from `v`. The grid wraps around at the largest
/// coordinate, so that every step can be taken, and taken back.
pub open spec fn next_coordinate(v: i32) -> i32 {
    if v == i32::MAX {
        i32::MIN
    } else {
        (v + 1) as i32
    }
}

/// The coordinate one step down from `v`, wrapping around at the smallest.
pub open spec fn previous_coordinate(v: i32) -> i32 {
    if v == i32::MIN {
        i32::MAX
    } else {
        (v - 1) as i32
    }
}

/// The cell one step from `position` in `direction`: up raises `y`, down
/// lowers it, right raises `x`, left lowers it.
pub open spec fn ahead(position: Position, direction: Direction) -> Position {
    match direction {
        Direction::Up => Position { x: position.x, y: next_coordinate(position.y) },
        Direction::Down => Position { x: position.x, y: previous_coordinate(position.y) },
        Direction::Left => Position { x: previous_coordinate(position.x), y: position.y },
        Direction::Right => Position { x: next_coordinate(position.x), y: position.y },
    }
}

/// The cell from which one step in `direction` leads to `position`.
pub open spec fn behind(position: Position, direction: Direction) -> Position {
    match direction {
        Direction::Up => Position { x: position.x, y: previous_coordinate(position.y) },
        Direction::Down => Position { x: position.x, y: next_coordinate(position.y) },
        Direction::Left => Position { x: next_coordinate(position.x), y: position.y },
        Direction::Right => Position { x: previous_coordinate(position.x), y: position.y },
    }
}

/// The direction that the held keys ask for, if any. When several keys are
/// held, down wins over up, up over right, and right over left.
pub open spec fn requested_direction(keys: PressedKeys) -> Option<Direction> {
    if keys.down {
        Some(Direction::Down)
    } else if keys.up {
        Some(Direction::Up)
    } else if keys.right {
        Some(Direction::Right)
    } else if keys.left {
        Some(Direction::Left)
    } else {
        None
    }
}

/// Stepping ahead and stepping behind in the same direction undo each other,
/// from every position and in every direction.
pub proof fn lemma_ahead_behind_inverse(position: Position, direction: Direction)
    ensures
        ahead(behind(position, direction), direction) == position,
        behind(ahead(position, direction), direction) == position,
{
}

/// Away from the edge of the coordinate range a step changes exactly one
/// coordinate by exactly one.
pub proof fn lemma_ahead_is_unit_step(position: Position, direction: Direction)
    requires
        i32::MIN < position.x < i32::MAX,
        i32::MIN < position.y < i32::MAX,
    ensures
        direction == Direction::Up ==> ahead(position, direction) == (Position {
            x: position.x,
            y: (position.y + 1) as i32,
        }),
        direction == Direction::Down ==> ahead(position, direction) == (Position {
            x: position.x,
            y: (position.y - 1) as i32,
        }),
        direction == Direction::Left ==> ahead(position, direction) == (Position {
            x: (position.x - 1) as i32,
            y: position.y,
        }),
        direction == Direction::Right ==> ahead(position, direction) == (Position {
            x: (position.x + 1) as i32,
            y: position.y,
        }),
{
}

/// Inside an arena no step wraps around: a step from a cell of the arena
/// changes one coordinate by one, and nothing else.
pub proof fn lemma_steps_inside_arena_are_unit_steps(
    arena: Arena,
    position: Position,
    direction: Direction,
)
    requires
        arena.wf(),
        arena.spec_contains(position),
    ensures
        ahead(position, direction).x == position.x + match direction {
            Direction::Left => -1int,
            Direction::Right => 1int,
            _ => 0int,
        },
        ahead(position, direction).y == position.y + match direction {
            Direction::Down => -1int,
            Direction::Up => 1int,
            _ => 0int,
        },
{
    arena.lemma_wf();
    arena.lemma_bounds();
}

fn step_up(v: i32) -> (r: i32)
    ensures
        r == next_coordinate(v),
{
    if v == i32::MAX {
        i32::MIN
    } else {
        v + 1
    }
}

fn step_down(v: i32) -> (r: i32)
    ensures
        r == previous_coordinate(v),
{
    if v == i32::MIN {
        i32::MAX
    } else {
        v - 1
    }
}

/// The cell one step ahead of `position` for a segment facing `direction`.
pub fn position_infront(direction: &Direction, position: &Position) -> (cell: Position)
    ensures
        cell == ahead(*position, *direction),
        behind(cell, *direction) == *position,
{
    match direction {
        Direction::Up => Position { x: position.x, y: step_up(position.y) },
        Direction::Down => Position { x: position.x, y: step_down(position.y) },
        Direction::Left => Position { x: step_down(position.x), y: position.y },
        Direction::Right => Position { x: step_up(position.x), y: position.y },
    }
}

/// The cell one step behind `position` for a segment facing `direction`.
pub fn position_behind(direction: &Direction, position: &Position) -> (cell: Position)
    ensures
        cell == behind(*position, *direction),
        ahead(cell, *direction) == *position,
{
    match direction {
        Direction::Up => Position { x: position.x, y: step_down(position.y) },
        Direction::Down => Position { x: position.x, y: step_up(position.y) },
        Direction::Left => Position { x: step_up(position.x), y: position.y },
        Direction::Right => Position { x: step_down(position.x), y: position.y },
    }
}

/// Reads the held keys as a request to turn.
pub fn direction_from_keys(keys: PressedKeys) -> (direction: Option<Direction>)
    ensures
        direction == requested_direction(keys),
{
    if keys.down {
        Some(Direction::Down)
    } else if keys.up {
        Some(Direction::Up)
    } else if keys.right {
        Some(Direction::Right)
    } else if keys.left {
        Some(Direction::Left)
    } else {
        None
    }
}

} // verus!
