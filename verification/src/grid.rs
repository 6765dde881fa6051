//! Grid coordinates and the bounds of the arena.

use vstd::prelude::*;

verus! {

/// Width of the standard arena, in cells.
pub const ARENA_WIDTH: i32 = 20;

/// Height of the standard arena, in cells.
pub const ARENA_HEIGHT: i32 = 20;

/// A cell of the grid.
#[derive(Clone, Copy, Debug, PartialEq, Eq, Structural)]
pub struct Position {
    pub x: i32,
    pub y: i32,
}

/// Builds the position `(x, y)`.
pub fn create_position(x: i32, y: i32) -> (position: Position)
    ensures
        position == (Position { x, y }),
{
    Position { x, y }
}

/// A rectangle of cells centred on the origin.
///
/// An arena of width `w` and height `h` spans the columns `-(w / 2) ..= w / 2`
/// and the rows `-(h / 2) ..= h / 2`. Neither extent is ever negative.
#[derive(Clone, Copy, Debug, PartialEq, Eq, Structural)]
pub struct Arena {
    width: i32,
    height: i32,
}

impl Arena {
    /// Both extents are non-negative.
    #[verifier::type_invariant]
    pub closed spec fn wf(self) -> bool {
        0 <= self.width && 0 <= self.height
    }

    /// The extent from left to right.
    pub closed spec fn spec_width(self) -> int {
        self.width as int
    }

    /// The extent from bottom to top.
    pub closed spec fn spec_height(self) -> int {
        self.height as int
    }

    /// Leftmost column.
    pub open spec fn spec_beginning(self) -> int {
        -(self.spec_width() / 2)
    }

    /// Rightmost column.
    pub open spec fn spec_end(self) -> int {
        self.spec_width() / 2
    }

    /// Lowest row.
    pub open spec fn spec_bottom(self) -> int {
        -(self.spec_height() / 2)
    }

    /// Highest row.
    pub open spec fn spec_top(self) -> int {
        self.spec_height() / 2
    }

    /// Whether `position` lies inside the arena, borders included.
    pub open spec fn spec_contains(self, position: Position) -> bool {
        &&& self.spec_beginning() <= position.x <= self.spec_end()
        &&& self.spec_bottom() <= position.y <= self.spec_top()
    }

    /// What `wf` means in terms of the extents.
    pub proof fn lemma_wf(self)
        ensures
            self.wf() <==> 0 <= self.spec_width() && 0 <= self.spec_height(),
    {
    }

    /// The bounds of an arena lie far inside the range of a coordinate.
    pub proof fn lemma_bounds(self)
        requires
            self.wf(),
        ensures
            i32::MIN < self.spec_beginning() <= 0 <= self.spec_end() < i32::MAX,
            i32::MIN < self.spec_bottom() <= 0 <= self.spec_top() < i32::MAX,
    {
    }

    /// An arena of the given extents, or `None` if one of them is negative.
    pub fn new(width: i32, height: i32) -> (arena: Option<Arena>)
        ensures
            arena.is_some() <==> 0 <= width && 0 <= height,
            arena matches Some(a) ==> a.wf() && a.spec_width() == width && a.spec_height()
                == height,
    {
        if width < 0 || height < 0 {
            None
        } else {
            Some(Arena { width, height })
        }
    }

    /// The extent from left to right.
    pub fn width(self) -> (width: i32)
        ensures
            width == self.spec_width(),
            width >= 0,
    {
        proof {
            use_type_invariant(self);
        }
        self.width
    }

    /// The extent from bottom to top.
    pub fn height(self) -> (height: i32)
        ensures
            height == self.spec_height(),
            height >= 0,
    {
        proof {
            use_type_invariant(self);
        }
        self.height
    }

    /// The leftmost column.
    pub fn beginning(self) -> (x: i32)
        ensures
            x == self.spec_beginning(),
            x <= 0,
    {
        proof {
            use_type_invariant(self);
        }
        -(self.width / 2)
    }

    /// The rightmost column.
    pub fn end(self) -> (x: i32)
        ensures
            x == self.spec_end(),
            0 <= x < i32::MAX,
    {
        proof {
            use_type_invariant(self);
        }
        self.width / 2
    }

    /// The lowest row.
    pub fn bottom(self) -> (y: i32)
        ensures
            y == self.spec_bottom(),
            y <= 0,
    {
        proof {
            use_type_invariant(self);
        }
        -(self.height / 2)
    }

    /// The highest row.
    pub fn top(self) -> (y: i32)
        ensures
            y == self.spec_top(),
            0 <= y < i32::MAX,
    {
        proof {
            use_type_invariant(self);
        }
        self.height / 2
    }

    /// Whether `position` lies inside the arena, borders included.
    #[verifier::when_used_as_spec(spec_contains)]
    pub fn contains(self, position: Position) -> (inside: bool)
        ensures
            inside == self.spec_contains(position),
    {
        self.beginning() <= position.x && position.x <= self.end() && self.bottom() <= position.y
            && position.y <= self.top()
    }
}

impl Default for Arena {
    /// The standard arena, `ARENA_WIDTH` by `ARENA_HEIGHT`.
    fn default() -> (arena: Arena)
        ensures
            arena.wf(),
            arena.spec_width() == ARENA_WIDTH,
            arena.spec_height() == ARENA_HEIGHT,
    {
        Arena { width: ARENA_WIDTH, height: ARENA_HEIGHT }
    }
}

} // verus!
