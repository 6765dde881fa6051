//! The rules of a grid-based snake game.
//!
//! The crate holds the game's state machine and nothing else: a chain of
//! segments that follows its head one cell at a time, grows when the head
//! reaches a fruit, and ends the game when the head runs into the body. Time
//! and key presses come in as plain values; what should be on screen goes out
//! as grid coordinates with an identifier each.
//!
//! * [`grid`]: positions and the bounds of the arena.
//! * [`direction`]: the four headings, the cells ahead of and behind a
//!   position, and the reading of the keys.
//! * [`timer`]: the repeating timer that gates moves and spawns.
//! * [`snake`]: the chain of segments, and how it turns, moves, grows and is
//!   trimmed to the arena.
//! * [`fruit`]: the fruits, and how they are eaten.
//! * [`spawner`]: the choice of a free cell for a new fruit.
//! * [`game`]: the whole state, and the order of a tick.
//! * [`sequences`]: a fact about filtered sequences that the others use.
//!
//! Every function is verified against its contract, with three exceptions
//! that stand in [`spawner`]: the random number generator is `rand`'s, and
//! what is said of it there is taken on trust.

pub mod direction;
pub mod fruit;
pub mod game;
pub mod grid;
pub mod sequences;
pub mod snake;
pub mod spawner;
pub mod timer;
