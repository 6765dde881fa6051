//! The snake: an ordered chain of segments, head first and tail last.
//!
//! The head is held apart from the segments that follow it, so a snake always
//! has exactly one head. The tail is the last segment of the chain; in a
//! snake of one segment the head is also the tail.

use crate::direction::{
    ahead, behind, direction_from_keys, position_behind, position_infront, requested_direction,
    Direction, PressedKeys,
};
use crate::grid::{Arena, Position};
use crate::sequences::lemma_filter_is_ordered_part;
use vstd::prelude::*;

verus! {

/// One unit of the snake.
#[derive(Clone, Copy, Debug, PartialEq, Eq, Structural)]
pub struct Segment {
    /// Identifies the segment for as long as it exists.
    pub id: u64,
    /// The cell that the segment is on.
    pub position: Position,
    /// The direction of the segment's next move.
    pub heading: Direction,
}

/// The place of a segment in the chain.
#[derive(Clone, Copy, Debug, PartialEq, Eq, Structural)]
pub enum Role {
    Head,
    Body,
    Tail,
}

/// The role of the segment at `index` in a chain of `len` segments. The only
/// segment of a chain of one is head and tail at once and counts as the head.
pub open spec fn role_at(len: nat, index: int) -> Role {
    if index == 0 {
        Role::Head
    } else if index == len - 1 {
        Role::Tail
    } else {
        Role::Body
    }
}

/// Every identifier in `chain` is below `next_id`, and no two segments share
/// one.
pub open spec fn ids_valid(chain: Seq<Segment>, next_id: u64) -> bool {
    &&& forall|i: int| 0 <= i < chain.len() ==> (#[trigger] chain[i]).id < next_id
    &&& forall|i: int, j: int|
        0 <= i < j < chain.len() ==> (#[trigger] chain[i]).id != (#[trigger] chain[j]).id
}

/// Whether some segment of `chain` is on `position`.
pub open spec fn occupies(chain: Seq<Segment>, position: Position) -> bool {
    exists|i: int| 0 <= i < chain.len() && (#[trigger] chain[i]).position == position
}

/// Whether a segment other than the head is on the head's cell.
pub open spec fn head_hits_body(chain: Seq<Segment>) -> bool {
    exists|i: int| 1 <= i < chain.len() && (#[trigger] chain[i]).position == chain[0].position
}

/// `segment`, facing `heading`.
pub open spec fn turned(segment: Segment, heading: Direction) -> Segment {
    Segment { id: segment.id, position: segment.position, heading }
}

/// `segment`, one cell further along its heading.
pub open spec fn moved(segment: Segment) -> Segment {
    Segment {
        id: segment.id,
        position: ahead(segment.position, segment.heading),
        heading: segment.heading,
    }
}

/// The chain after the head has taken the direction that `keys` ask for. With
/// no key held the head keeps its heading.
pub open spec fn steered(chain: Seq<Segment>, keys: PressedKeys) -> Seq<Segment> {
    match requested_direction(keys) {
        Some(direction) => if chain.len() > 0 {
            chain.update(0, turned(chain[0], direction))
        } else {
            chain
        },
        None => chain,
    }
}

/// The chain after every segment but the head has taken the heading that the
/// segment ahead of it held in `chain`. All segments turn at once: a heading
/// travels one segment per call and no further.
pub open spec fn propagated(chain: Seq<Segment>) -> Seq<Segment> {
    Seq::new(
        chain.len(),
        |i: int|
            if i == 0 {
                chain[0]
            } else {
                turned(chain[i], chain[i - 1].heading)
            },
    )
}

/// The chain after every segment has moved one cell along its own heading.
pub open spec fn advanced(chain: Seq<Segment>) -> Seq<Segment> {
    Seq::new(chain.len(), |i: int| moved(chain[i]))
}

/// The segment that growth appends to `chain`: one cell behind the tail, with
/// the tail's heading.
pub open spec fn new_tail(chain: Seq<Segment>, id: u64) -> Segment {
    Segment {
        id,
        position: behind(chain.last().position, chain.last().heading),
        heading: chain.last().heading,
    }
}

/// How many of `count` requested segments can be given an identifier when
/// `next_id` is the first one that is free.
pub open spec fn growth(next_id: u64, count: nat) -> nat {
    if next_id + count <= u64::MAX {
        count
    } else {
        (u64::MAX - next_id) as nat
    }
}

/// The chain after it has grown by `count` segments, one after the other,
/// each behind the tail of the moment. Identifiers are handed out from
/// `next_id` upward; growth stops where they run out.
pub open spec fn grown(chain: Seq<Segment>, next_id: u64, count: nat) -> Seq<Segment>
    decreases count,
{
    if count == 0 || next_id == u64::MAX {
        chain
    } else {
        grown(chain.push(new_tail(chain, next_id)), (next_id + 1) as u64, (count - 1) as nat)
    }
}

/// The test that a segment is inside `arena`.
pub open spec fn within(arena: Arena) -> spec_fn(Segment) -> bool {
    |segment: Segment| arena.spec_contains(segment.position)
}

/// Whether no segment of `chain` is inside `arena`.
pub open spec fn has_left(chain: Seq<Segment>, arena: Arena) -> bool {
    forall|i: int| 0 <= i < chain.len() ==> !arena.spec_contains((#[trigger] chain[i]).position)
}

/// The chain without the segments that are outside `arena`; the rest keep
/// their order, and the first of them is the head. A snake never loses its
/// last segment: where every segment is outside, the head alone remains.
pub open spec fn reaped(chain: Seq<Segment>, arena: Arena) -> Seq<Segment> {
    if !has_left(chain, arena) {
        chain.filter(within(arena))
    } else if chain.len() > 0 {
        seq![chain[0]]
    } else {
        chain
    }
}

/// A snake.
pub struct Snake {
    head: Segment,
    body: Vec<Segment>,
    next_id: u64,
}

impl View for Snake {
    type V = Seq<Segment>;

    /// The chain, head first.
    closed spec fn view(&self) -> Seq<Segment> {
        seq![self.head] + self.body@
    }
}

impl Snake {
    /// The identifier that the next new segment gets.
    pub closed spec fn spec_next_id(&self) -> u64 {
        self.next_id
    }

    /// A chain is never empty.
    pub proof fn lemma_nonempty(&self)
        ensures
            self@.len() >= 1,
    {
    }

    /// A snake of one segment at the origin, heading up.
    pub fn new() -> (snake: Snake)
        ensures
            snake@ == seq![
                Segment { id: 0, position: Position { x: 0, y: 0 }, heading: Direction::Up },
            ],
            snake.spec_next_id() == 1,
            ids_valid(snake@, snake.spec_next_id()),
    {
        let snake = Snake {
            head: Segment { id: 0, position: Position { x: 0, y: 0 }, heading: Direction::Up },
            body: Vec::new(),
            next_id: 1,
        };
        assert(snake@ =~= seq![
            Segment { id: 0, position: Position { x: 0, y: 0 }, heading: Direction::Up },
        ]);
        snake
    }

    /// The identifier that the next new segment gets.
    #[verifier::when_used_as_spec(spec_next_id)]
    pub fn next_id(&self) -> (id: u64)
        ensures
            id == self.spec_next_id(),
    {
        self.next_id
    }

    /// The number of segments, if it fits; a chain too long to count is
    /// reported as `usize::MAX`.
    pub fn len(&self) -> (len: usize)
        ensures
            len >= 1,
            self@.len() <= usize::MAX ==> len == self@.len(),
            self@.len() > usize::MAX ==> len == usize::MAX,
    {
        self.body.len().saturating_add(1)
    }

    /// The first segment of the chain.
    pub fn head(&self) -> (segment: Segment)
        ensures
            segment == self@[0],
    {
        self.head
    }

    /// The last segment of the chain, which is the head in a snake of one.
    pub fn tail(&self) -> (segment: Segment)
        ensures
            segment == self@.last(),
    {
        let n = self.body.len();
        if n == 0 {
            self.head
        } else {
            self.body[n - 1]
        }
    }

    /// The segment at `index`, counted from the head.
    pub fn segment(&self, index: usize) -> (segment: Option<Segment>)
        ensures
            segment == if index < self@.len() {
                Some(self@[index as int])
            } else {
                None
            },
    {
        if index == 0 {
            Some(self.head)
        } else if index - 1 < self.body.len() {
            Some(self.body[index - 1])
        } else {
            None
        }
    }

    /// The role of the segment at `index`, counted from the head.
    pub fn role(&self, index: usize) -> (role: Option<Role>)
        ensures
            role == if index < self@.len() {
                Some(role_at(self@.len(), index as int))
            } else {
                None
            },
    {
        if index == 0 {
            Some(Role::Head)
        } else if index - 1 < self.body.len() {
            if index == self.body.len() {
                Some(Role::Tail)
            } else {
                Some(Role::Body)
            }
        } else {
            None
        }
    }

    /// All the segments, head first.
    pub fn segments(&self) -> (segments: Vec<Segment>)
        ensures
            segments@ == self@,
    {
        let mut segments: Vec<Segment> = Vec::new();
        segments.push(self.head);
        let n = self.body.len();
        let mut i: usize = 0;
        while i < n
            invariant
                i <= n,
                n == self.body@.len(),
                segments@ == seq![self.head] + self.body@.take(i as int),
            decreases n - i,
        {
            segments.push(self.body[i]);
            assert(self.body@.take(i + 1) =~= self.body@.take(i as int).push(self.body@[i as int]));
            i = i + 1;
        }
        assert(self.body@.take(n as int) =~= self.body@);
        segments
    }

    /// Puts the segment at `index` on `position`, wherever that is. Returns
    /// whether there is such a segment; if not, nothing changes.
    pub fn set_position(&mut self, index: usize, position: Position) -> (found: bool)
        ensures
            found == (index < old(self)@.len()),
            found ==> final(self)@ == old(self)@.update(
                index as int,
                Segment {
                    id: old(self)@[index as int].id,
                    position,
                    heading: old(self)@[index as int].heading,
                },
            ),
            !found ==> final(self)@ == old(self)@,
            final(self).spec_next_id() == old(self).spec_next_id(),
            ids_valid(old(self)@, old(self).spec_next_id()) ==> ids_valid(
                final(self)@,
                final(self).spec_next_id(),
            ),
    {
        if index == 0 {
            self.head.position = position;
            assert(self@ =~= old(self)@.update(
                0,
                Segment { id: old(self)@[0].id, position, heading: old(self)@[0].heading },
            ));
            true
        } else if index - 1 < self.body.len() {
            let segment = self.body[index - 1];
            self.body[index - 1] = Segment { id: segment.id, position, heading: segment.heading };
            assert(self@ =~= old(self)@.update(
                index as int,
                Segment {
                    id: old(self)@[index as int].id,
                    position,
                    heading: old(self)@[index as int].heading,
                },
            ));
            true
        } else {
            false
        }
    }

    /// Turns the segment at `index` to face `heading`. Returns whether there
    /// is such a segment; if not, nothing changes.
    pub fn set_heading(&mut self, index: usize, heading: Direction) -> (found: bool)
        ensures
            found == (index < old(self)@.len()),
            found ==> final(self)@ == old(self)@.update(
                index as int,
                turned(old(self)@[index as int], heading),
            ),
            !found ==> final(self)@ == old(self)@,
            final(self).spec_next_id() == old(self).spec_next_id(),
            ids_valid(old(self)@, old(self).spec_next_id()) ==> ids_valid(
                final(self)@,
                final(self).spec_next_id(),
            ),
    {
        if index == 0 {
            self.head.heading = heading;
            assert(self@ =~= old(self)@.update(0, turned(old(self)@[0], heading)));
            true
        } else if index - 1 < self.body.len() {
            let segment = self.body[index - 1];
            self.body[index - 1] = Segment {
                id: segment.id,
                position: segment.position,
                heading,
            };
            assert(self@ =~= old(self)@.update(
                index as int,
                turned(old(self)@[index as int], heading),
            ));
            true
        } else {
            false
        }
    }

    /// Turns the head to the direction that `keys` ask for, if they ask for
    /// one.
    pub fn steer(&mut self, keys: PressedKeys)
        ensures
            final(self)@ == steered(old(self)@, keys),
            final(self).spec_next_id() == old(self).spec_next_id(),
            ids_valid(old(self)@, old(self).spec_next_id()) ==> ids_valid(
                final(self)@,
                final(self).spec_next_id(),
            ),
    {
        match direction_from_keys(keys) {
            Some(direction) => {
                self.head.heading = direction;
                assert(self@ =~= steered(old(self)@, keys));
            },
            None => {},
        }
    }

    /// Hands every heading one segment down the chain: each segment but the
    /// head takes the heading that the segment ahead of it held before the
    /// call.
    pub fn propagate_headings(&mut self)
        ensures
            final(self)@ == propagated(old(self)@),
            final(self).spec_next_id() == old(self).spec_next_id(),
            ids_valid(old(self)@, old(self).spec_next_id()) ==> ids_valid(
                final(self)@,
                final(self).spec_next_id(),
            ),
    {
        let n = self.body.len();
        // From the tail upward, so that each segment still reads the heading
        // that the one ahead of it had before the call.
        let mut i: usize = n;
        while i > 1
            invariant
                i <= n,
                n >= 1 ==> i >= 1,
                n == self.body@.len(),
                n == old(self).body@.len(),
                self.head == old(self).head,
                self.next_id == old(self).next_id,
                forall|k: int| 0 <= k < i ==> (#[trigger] self.body@[k]) == old(self).body@[k],
                forall|k: int|
                    1 <= i <= k < n ==> (#[trigger] self.body@[k]) == turned(
                        old(self).body@[k],
                        old(self).body@[k - 1].heading,
                    ),
            decreases i,
        {
            i = i - 1;
            let current = self.body[i];
            let leader = self.body[i - 1];
            self.body[i] = Segment {
                id: current.id,
                position: current.position,
                heading: leader.heading,
            };
        }
        if n > 0 {
            let current = self.body[0];
            self.body[0] = Segment {
                id: current.id,
                position: current.position,
                heading: self.head.heading,
            };
        }
        assert(self@ =~= propagated(old(self)@));
    }

    /// Moves every segment one cell along its own heading.
    pub fn advance(&mut self)
        ensures
            final(self)@ == advanced(old(self)@),
            final(self).spec_next_id() == old(self).spec_next_id(),
            ids_valid(old(self)@, old(self).spec_next_id()) ==> ids_valid(
                final(self)@,
                final(self).spec_next_id(),
            ),
    {
        self.head.position = position_infront(&self.head.heading, &self.head.position);
        let n = self.body.len();
        let mut i: usize = 0;
        while i < n
            invariant
                i <= n,
                n == self.body@.len(),
                n == old(self).body@.len(),
                self.head == moved(old(self).head),
                self.next_id == old(self).next_id,
                forall|k: int|
                    0 <= k < i ==> (#[trigger] self.body@[k]) == moved(old(self).body@[k]),
                forall|k: int| i <= k < n ==> (#[trigger] self.body@[k]) == old(self).body@[k],
            decreases n - i,
        {
            let current = self.body[i];
            self.body[i] = Segment {
                id: current.id,
                position: position_infront(&current.heading, &current.position),
                heading: current.heading,
            };
            i = i + 1;
        }
        assert(self@ =~= advanced(old(self)@));
    }

    /// Whether some segment is on `position`.
    pub fn is_on(&self, position: Position) -> (found: bool)
        ensures
            found == occupies(self@, position),
    {
        if self.head.position == position {
            assert(self@[0].position == position);
            return true;
        }
        let n = self.body.len();
        let mut i: usize = 0;
        while i < n
            invariant
                i <= n,
                n == self.body@.len(),
                self.head.position != position,
                forall|k: int| 0 <= k < i ==> (#[trigger] self.body@[k]).position != position,
            decreases n - i,
        {
            if self.body[i].position == position {
                assert(self@[i + 1].position == position);
                return true;
            }
            i = i + 1;
        }
        assert forall|k: int| 0 <= k < self@.len() implies (#[trigger] self@[k]).position
            != position by {
            if k > 0 {
                assert(self@[k] == self.body@[k - 1]);
            }
        }
        false
    }

    /// Whether the head has run into the rest of the snake.
    pub fn head_collides_with_body(&self) -> (hit: bool)
        ensures
            hit == head_hits_body(self@),
    {
        let n = self.body.len();
        let mut i: usize = 0;
        while i < n
            invariant
                i <= n,
                n == self.body@.len(),
                forall|k: int|
                    0 <= k < i ==> (#[trigger] self.body@[k]).position != self.head.position,
            decreases n - i,
        {
            if self.body[i].position == self.head.position {
                assert(self@[i + 1].position == self@[0].position);
                return true;
            }
            i = i + 1;
        }
        assert forall|k: int| 1 <= k < self@.len() implies (#[trigger] self@[k]).position
            != self@[0].position by {
            assert(self@[k] == self.body@[k - 1]);
        }
        false
    }

    /// Appends `count` segments at the tail end, one after the other. Each
    /// new segment stands one cell behind the tail of the moment, takes its
    /// heading, and becomes the tail. Returns how many were appended: all of
    /// them, unless the identifiers ran out.
    pub fn grow(&mut self, count: usize) -> (added: usize)
        ensures
            final(self)@ == grown(old(self)@, old(self).spec_next_id(), count as nat),
            added == growth(old(self).spec_next_id(), count as nat),
            final(self)@.len() == old(self)@.len() + added,
            final(self).spec_next_id() == old(self).spec_next_id() + added,
            forall|i: int| 0 <= i < old(self)@.len() ==> final(self)@[i] == old(self)@[i],
            ids_valid(old(self)@, old(self).spec_next_id()) ==> ids_valid(
                final(self)@,
                final(self).spec_next_id(),
            ),
    {
        let mut added: usize = 0;
        while added < count && self.next_id < u64::MAX
            invariant
                added <= count,
                self.next_id == old(self).next_id + added,
                self@.len() == old(self)@.len() + added,
                grown(self@, self.next_id, (count - added) as nat) == grown(
                    old(self)@,
                    old(self).next_id,
                    count as nat,
                ),
                forall|i: int| 0 <= i < old(self)@.len() ==> self@[i] == old(self)@[i],
                ids_valid(old(self)@, old(self).next_id) ==> ids_valid(self@, self.next_id),
            decreases count - added,
        {
            let tail = self.tail();
            let segment = Segment {
                id: self.next_id,
                position: position_behind(&tail.heading, &tail.position),
                heading: tail.heading,
            };
            let ghost before = self@;
            self.body.push(segment);
            self.next_id = self.next_id + 1;
            added = added + 1;
            assert(self@ =~= before.push(segment));
        }
        added
    }

    /// Drops the segments that are outside `arena`. The segments that stay
    /// keep their order, and the first of them is the head from now on.
    /// Returns whether the whole snake was outside; the head alone stays then.
    pub fn reap(&mut self, arena: Arena) -> (left: bool)
        ensures
            final(self)@ == reaped(old(self)@, arena),
            left == has_left(old(self)@, arena),
            final(self).spec_next_id() == old(self).spec_next_id(),
            ids_valid(old(self)@, old(self).spec_next_id()) ==> ids_valid(
                final(self)@,
                final(self).spec_next_id(),
            ),
    {
        let n = self.body.len();
        let mut first: Option<Segment> = if arena.contains(self.head.position) {
            Some(self.head)
        } else {
            None
        };
        let mut rest: Vec<Segment> = Vec::new();
        proof {
            let start = self@.take(1);
            assert(start =~= Seq::<Segment>::empty().push(self.head));
            Seq::<Segment>::empty().lemma_filter_push(self.head, within(arena));
            reveal_with_fuel(Seq::filter, 1);
            assert(Seq::<Segment>::empty().filter(within(arena)) =~= Seq::<Segment>::empty());
            if first.is_some() {
                assert(start.filter(within(arena)) =~= seq![self.head] + rest@);
            }
        }
        let mut i: usize = 0;
        while i < n
            invariant
                i <= n,
                n == self.body@.len(),
                self.body@ == old(self).body@,
                self.head == old(self).head,
                self.next_id == old(self).next_id,
                first.is_none() <==> self@.take(i + 1).filter(within(arena)).len() == 0,
                first.is_none() ==> rest@.len() == 0,
                first matches Some(segment) ==> self@.take(i + 1).filter(within(arena)) == seq![
                    segment,
                ] + rest@,
            decreases n - i,
        {
            let segment = self.body[i];
            proof {
                let seen = self@.take(i + 1);
                assert(self@.take(i + 2) =~= seen.push(segment));
                seen.lemma_filter_push(segment, within(arena));
            }
            if arena.contains(segment.position) {
                match first {
                    Some(kept) => {
                        let ghost before = rest@;
                        rest.push(segment);
                        assert(seq![kept] + rest@ =~= (seq![kept] + before).push(segment));
                    },
                    None => {
                        first = Some(segment);
                        assert(self@.take(i + 2).filter(within(arena)) =~= seq![segment] + rest@);
                    },
                }
            }
            i = i + 1;
        }
        proof {
            assert(self@.take(n + 1) =~= self@);
            lemma_filter_empty_iff_left(self@, arena);
            if ids_valid(self@, self.next_id) {
                lemma_reaped_keeps_ids(self@, arena, self.next_id);
            }
        }
        match first {
            Some(kept) => {
                self.head = kept;
                self.body = rest;
                false
            },
            None => {
                self.body = Vec::new();
                assert(self@ =~= seq![old(self)@[0]]);
                true
            },
        }
    }
}

/// Nothing passes the test of the arena exactly when the snake has left it.
pub proof fn lemma_filter_empty_iff_left(chain: Seq<Segment>, arena: Arena)
    ensures
        chain.filter(within(arena)).len() == 0 <==> has_left(chain, arena),
{
    let kept = chain.filter(within(arena));
    if kept.len() == 0 {
        assert forall|i: int| 0 <= i < chain.len() implies !arena.spec_contains(
            (#[trigger] chain[i]).position,
        ) by {
            if arena.spec_contains(chain[i].position) {
                chain.lemma_filter_contains(within(arena), i);
                assert(kept.contains(chain[i]));
            }
        }
    } else {
        chain.lemma_filter_pred(within(arena), 0);
        chain.lemma_filter_contains_rev(within(arena), kept[0]);
        assert(kept.contains(kept[0]));
        let i = choose|i: int| 0 <= i < chain.len() && chain[i] == kept[0];
        assert(arena.spec_contains(chain[i].position));
    }
}

/// Dropping segments leaves the identifiers of the others as they were:
/// still below `next_id`, still all different.
pub proof fn lemma_reaped_keeps_ids(chain: Seq<Segment>, arena: Arena, next_id: u64)
    requires
        ids_valid(chain, next_id),
    ensures
        ids_valid(reaped(chain, arena), next_id),
{
    let kept = chain.filter(within(arena));
    lemma_filter_is_ordered_part(chain, within(arena));
    if has_left(chain, arena) && chain.len() > 0 {
        assert(seq![chain[0]][0] == chain[0]);
    }
    assert forall|k: int| 0 <= k < kept.len() implies (#[trigger] kept[k]).id < next_id by {
        let i = choose|i: int| k <= i < chain.len() && chain[i] == kept[k];
        assert(chain[i].id < next_id);
    }
    assert forall|k: int, l: int| 0 <= k < l < kept.len() implies (#[trigger] kept[k]).id != (
    #[trigger] kept[l]).id by {
        let (i, j) = choose|i: int, j: int|
            0 <= i < j < chain.len() && chain[i] == kept[k] && chain[j] == kept[l];
        assert(chain[i].id != chain[j].id);
    }
}

/// Headings travel one segment at a time. After they have been handed down,
/// every segment but the head faces the way the segment ahead of it faced
/// before, not the way that segment faces now; the head faces as before; and
/// no segment has changed its place or its identifier.
pub proof fn lemma_headings_travel_one_segment(chain: Seq<Segment>)
    ensures
        propagated(chain).len() == chain.len(),
        chain.len() > 0 ==> propagated(chain)[0] == chain[0],
        forall|i: int|
            1 <= i < chain.len() ==> (#[trigger] propagated(chain)[i]).heading == chain[i
                - 1].heading,
        forall|i: int|
            0 <= i < chain.len() ==> (#[trigger] propagated(chain)[i]).position
                == chain[i].position && propagated(chain)[i].id == chain[i].id,
{
}

/// A move takes every segment exactly one cell along its own heading, and
/// the step can be taken back: the cell behind the new position is the old
/// one. Headings and identifiers stay.
pub proof fn lemma_advance_moves_each_segment(chain: Seq<Segment>)
    ensures
        advanced(chain).len() == chain.len(),
        forall|i: int|
            0 <= i < chain.len() ==> (#[trigger] advanced(chain)[i]).position == ahead(
                chain[i].position,
                chain[i].heading,
            ) && behind(advanced(chain)[i].position, chain[i].heading) == chain[i].position
                && advanced(chain)[i].heading == chain[i].heading && advanced(chain)[i].id
                == chain[i].id,
{
}

/// Turning and moving leave the identifiers as they were.
pub proof fn lemma_movement_keeps_ids(chain: Seq<Segment>, keys: PressedKeys, next_id: u64)
    requires
        ids_valid(chain, next_id),
    ensures
        ids_valid(steered(chain, keys), next_id),
        ids_valid(propagated(chain), next_id),
        ids_valid(advanced(chain), next_id),
{
    let turned_chain = steered(chain, keys);
    assert forall|i: int| 0 <= i < turned_chain.len() implies (#[trigger] turned_chain[i]).id
        == chain[i].id by {}
    let handed = propagated(chain);
    assert forall|i: int| 0 <= i < handed.len() implies (#[trigger] handed[i]).id
        == chain[i].id by {}
    let moved_chain = advanced(chain);
    assert forall|i: int| 0 <= i < moved_chain.len() implies (#[trigger] moved_chain[i]).id
        == chain[i].id by {}
}

/// Whether the segment at `index` trails the segment before it: it stands
/// one cell behind that segment and faces the same way, so that its next step
/// takes it to where that segment is now.
pub open spec fn trails(chain: Seq<Segment>, index: int) -> bool {
    &&& chain[index].heading == chain[index - 1].heading
    &&& chain[index].position == behind(chain[index - 1].position, chain[index - 1].heading)
    &&& ahead(chain[index].position, chain[index].heading) == chain[index - 1].position
}

/// Growth happens at the tail end and nowhere else. The chain gets longer by
/// the number of segments that could be given an identifier; the segments
/// that were there stay where they were in the chain, the head first; each
/// new segment trails the segment before it, and the new segments get the
/// free identifiers in turn.
pub proof fn lemma_growth_appends_behind_tail(chain: Seq<Segment>, next_id: u64, count: nat)
    requires
        chain.len() >= 1,
    ensures
        grown(chain, next_id, count).len() == chain.len() + growth(next_id, count),
        forall|i: int| 0 <= i < chain.len() ==> (#[trigger] grown(chain, next_id, count)[i])
            == chain[i],
        forall|i: int|
            chain.len() <= i < grown(chain, next_id, count).len() ==> #[trigger] trails(
                grown(chain, next_id, count),
                i,
            ),
        forall|i: int|
            chain.len() <= i < grown(chain, next_id, count).len() ==> (#[trigger] grown(
                chain,
                next_id,
                count,
            )[i]).id == next_id + (i - chain.len()),
    decreases count,
{
    if count > 0 && next_id < u64::MAX {
        let longer = chain.push(new_tail(chain, next_id));
        lemma_growth_appends_behind_tail(longer, (next_id + 1) as u64, (count - 1) as nat);
        let full = grown(chain, next_id, count);
        assert forall|i: int| 0 <= i < chain.len() implies (#[trigger] full[i]) == chain[i] by {
            assert(longer[i] == chain[i]);
        }
        assert forall|i: int| chain.len() <= i < full.len() implies #[trigger] trails(full, i) by {
            if i == chain.len() {
                assert(full[i] == longer[i]);
                assert(full[i - 1] == longer[i - 1]);
                crate::direction::lemma_ahead_behind_inverse(
                    full[i - 1].position,
                    full[i - 1].heading,
                );
            }
        }
        assert forall|i: int| chain.len() <= i < full.len() implies (#[trigger] full[i]).id
            == next_id + (i - chain.len()) by {
            if i == chain.len() {
                assert(full[i] == longer[i]);
            }
        }
    }
}

/// Growth gives every new segment an identifier that no segment has, and
/// moves on to the next.
pub proof fn lemma_growth_keeps_ids(chain: Seq<Segment>, next_id: u64, count: nat)
    requires
        ids_valid(chain, next_id),
    ensures
        ids_valid(grown(chain, next_id, count), (next_id + growth(next_id, count)) as u64),
    decreases count,
{
    if count > 0 && next_id < u64::MAX {
        let longer = chain.push(new_tail(chain, next_id));
        assert forall|i: int, j: int| 0 <= i < j < longer.len() implies (#[trigger] longer[i]).id
            != (#[trigger] longer[j]).id by {
            if j == chain.len() {
                assert(longer[i] == chain[i]);
            } else {
                assert(longer[i] == chain[i] && longer[j] == chain[j]);
            }
        }
        assert forall|i: int| 0 <= i < longer.len() implies (#[trigger] longer[i]).id < next_id
            + 1 by {
            if i < chain.len() {
                assert(longer[i] == chain[i]);
            }
        }
        lemma_growth_keeps_ids(longer, (next_id + 1) as u64, (count - 1) as nat);
    }
}

/// What is outside the arena is gone once the reaper has passed. Take a
/// chain whose segments have identifiers of their own, and a segment of it
/// that is outside the arena. Unless that segment is the head of a snake
/// that is outside as a whole, which keeps its head, no segment with its
/// identifier is in the chain afterwards. The segments inside the arena are
/// all still there, and in a snake that has not left nothing else is.
pub proof fn lemma_reaper_removes_outside(
    chain: Seq<Segment>,
    arena: Arena,
    next_id: u64,
    index: int,
)
    requires
        ids_valid(chain, next_id),
        0 <= index < chain.len(),
        !arena.spec_contains(chain[index].position),
        index > 0 || !has_left(chain, arena),
    ensures
        forall|k: int|
            0 <= k < reaped(chain, arena).len() ==> (#[trigger] reaped(chain, arena)[k]).id
                != chain[index].id,
        forall|i: int|
            0 <= i < chain.len() && arena.spec_contains(chain[i].position) ==> reaped(
                chain,
                arena,
            ).contains(#[trigger] chain[i]),
        !has_left(chain, arena) ==> forall|k: int|
            0 <= k < reaped(chain, arena).len() ==> arena.spec_contains(
                (#[trigger] reaped(chain, arena)[k]).position,
            ),
{
    let after = reaped(chain, arena);
    if has_left(chain, arena) {
        assert(after[0] == chain[0]);
    } else {
        lemma_filter_is_ordered_part(chain, within(arena));
        assert forall|k: int| 0 <= k < after.len() implies (#[trigger] after[k]).id
            != chain[index].id && arena.spec_contains(after[k].position) by {
            chain.lemma_filter_pred(within(arena), k);
            let i = choose|i: int| k <= i < chain.len() && chain[i] == after[k];
            if i < index {
                assert(chain[i].id != chain[index].id);
            } else if index < i {
                assert(chain[index].id != chain[i].id);
            }
        }
        assert forall|i: int|
            0 <= i < chain.len() && arena.spec_contains(chain[i].position) implies after.contains(
            #[trigger] chain[i],
        ) by {
            chain.lemma_filter_contains(within(arena), i);
        }
    }
}

} // verus!
