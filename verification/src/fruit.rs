//! The fruits that lie in the arena.

use crate::grid::{Arena, Position};
use crate::sequences::lemma_filter_is_ordered_part;
use vstd::prelude::*;

verus! {

/// A fruit. It lies where it was put until the head of the snake reaches it.
#[derive(Clone, Copy, Debug, PartialEq, Eq, Structural)]
pub struct Fruit {
    /// Identifies the fruit for as long as it exists.
    pub id: u64,
    /// The cell that the fruit lies on.
    pub position: Position,
}

/// Every identifier in `fruits` is below `next_id`, and no two fruits share
/// one.
pub open spec fn fruit_ids_valid(fruits: Seq<Fruit>, next_id: u64) -> bool {
    &&& forall|i: int| 0 <= i < fruits.len() ==> (#[trigger] fruits[i]).id < next_id
    &&& forall|i: int, j: int|
        0 <= i < j < fruits.len() ==> (#[trigger] fruits[i]).id != (#[trigger] fruits[j]).id
}

/// Whether some fruit lies on `position`.
pub open spec fn fruit_on(fruits: Seq<Fruit>, position: Position) -> bool {
    exists|i: int| 0 <= i < fruits.len() && (#[trigger] fruits[i]).position == position
}

/// The test that a fruit lies anywhere but on `position`.
pub open spec fn away_from(position: Position) -> spec_fn(Fruit) -> bool {
    |fruit: Fruit| fruit.position != position
}

/// The test that a fruit lies inside `arena`.
pub open spec fn inside(arena: Arena) -> spec_fn(Fruit) -> bool {
    |fruit: Fruit| arena.spec_contains(fruit.position)
}

/// How many fruits lie on `position`.
pub open spec fn count_on(fruits: Seq<Fruit>, position: Position) -> nat {
    (fruits.len() - fruits.filter(away_from(position)).len()) as nat
}

/// The fruits in the arena, in the order in which they were spawned.
pub struct FruitSet {
    fruits: Vec<Fruit>,
    next_id: u64,
}

impl View for FruitSet {
    type V = Seq<Fruit>;

    closed spec fn view(&self) -> Seq<Fruit> {
        self.fruits@
    }
}

impl FruitSet {
    /// The identifier that the next new fruit gets.
    pub closed spec fn spec_next_id(&self) -> u64 {
        self.next_id
    }

    /// No fruits.
    pub fn new() -> (fruits: FruitSet)
        ensures
            fruits@ == Seq::<Fruit>::empty(),
            fruits.spec_next_id() == 0,
            fruit_ids_valid(fruits@, fruits.spec_next_id()),
    {
        FruitSet { fruits: Vec::new(), next_id: 0 }
    }

    /// The identifier that the next new fruit gets.
    #[verifier::when_used_as_spec(spec_next_id)]
    pub fn next_id(&self) -> (id: u64)
        ensures
            id == self.spec_next_id(),
    {
        self.next_id
    }

    /// The number of fruits.
    pub fn len(&self) -> (len: usize)
        ensures
            len == self@.len(),
    {
        self.fruits.len()
    }

    /// The fruit at `index`, counted from the oldest.
    pub fn get(&self, index: usize) -> (fruit: Option<Fruit>)
        ensures
            fruit == if index < self@.len() {
                Some(self@[index as int])
            } else {
                None
            },
    {
        if index < self.fruits.len() {
            Some(self.fruits[index])
        } else {
            None
        }
    }

    /// Whether some fruit lies on `position`.
    pub fn is_on(&self, position: Position) -> (found: bool)
        ensures
            found == fruit_on(self@, position),
    {
        let n = self.fruits.len();
        let mut i: usize = 0;
        while i < n
            invariant
                i <= n,
                n == self.fruits@.len(),
                forall|k: int| 0 <= k < i ==> (#[trigger] self.fruits@[k]).position != position,
            decreases n - i,
        {
            if self.fruits[i].position == position {
                return true;
            }
            i = i + 1;
        }
        false
    }

    /// Puts a new fruit on `position`. Returns whether it did: it does unless
    /// the identifiers have run out.
    pub fn spawn(&mut self, position: Position) -> (spawned: bool)
        ensures
            spawned == (old(self).spec_next_id() < u64::MAX),
            spawned ==> final(self)@ == old(self)@.push(
                Fruit { id: old(self).spec_next_id(), position },
            ) && final(self).spec_next_id() == old(self).spec_next_id() + 1,
            !spawned ==> final(self)@ == old(self)@ && final(self).spec_next_id() == old(
                self,
            ).spec_next_id(),
            fruit_ids_valid(old(self)@, old(self).spec_next_id()) ==> fruit_ids_valid(
                final(self)@,
                final(self).spec_next_id(),
            ),
    {
        if self.next_id == u64::MAX {
            return false;
        }
        self.fruits.push(Fruit { id: self.next_id, position });
        self.next_id = self.next_id + 1;
        true
    }

    /// Removes every fruit that lies on `position`, and returns how many
    /// there were. The fruits that lie elsewhere stay, in their order.
    pub fn eat_at(&mut self, position: Position) -> (eaten: usize)
        ensures
            final(self)@ == old(self)@.filter(away_from(position)),
            eaten == count_on(old(self)@, position),
            eaten > 0 <==> fruit_on(old(self)@, position),
            !fruit_on(final(self)@, position),
            final(self).spec_next_id() == old(self).spec_next_id(),
            fruit_ids_valid(old(self)@, old(self).spec_next_id()) ==> fruit_ids_valid(
                final(self)@,
                final(self).spec_next_id(),
            ),
    {
        let n = self.fruits.len();
        let mut kept: Vec<Fruit> = Vec::new();
        let mut eaten: usize = 0;
        proof {
            reveal_with_fuel(Seq::filter, 1);
            assert(self.fruits@.take(0).filter(away_from(position)) =~= kept@);
        }
        let mut i: usize = 0;
        while i < n
            invariant
                i <= n,
                n == self.fruits@.len(),
                self.fruits@ == old(self).fruits@,
                self.next_id == old(self).next_id,
                kept@ == self.fruits@.take(i as int).filter(away_from(position)),
                eaten + kept@.len() == i,
            decreases n - i,
        {
            let fruit = self.fruits[i];
            proof {
                let seen = self.fruits@.take(i as int);
                assert(self.fruits@.take(i + 1) =~= seen.push(fruit));
                seen.lemma_filter_push(fruit, away_from(position));
            }
            if fruit.position == position {
                eaten = eaten + 1;
            } else {
                kept.push(fruit);
            }
            i = i + 1;
        }
        proof {
            assert(self.fruits@.take(n as int) =~= self.fruits@);
            lemma_eaten_counts(self.fruits@, position);
            if fruit_ids_valid(self.fruits@, self.next_id) {
                lemma_filter_keeps_fruit_ids(self.fruits@, away_from(position), self.next_id);
            }
        }
        self.fruits = kept;
        eaten
    }

    /// Removes every fruit that lies outside `arena`. The fruits inside stay,
    /// in their order.
    pub fn reap(&mut self, arena: Arena)
        ensures
            final(self)@ == old(self)@.filter(inside(arena)),
            final(self).spec_next_id() == old(self).spec_next_id(),
            fruit_ids_valid(old(self)@, old(self).spec_next_id()) ==> fruit_ids_valid(
                final(self)@,
                final(self).spec_next_id(),
            ),
    {
        let n = self.fruits.len();
        let mut kept: Vec<Fruit> = Vec::new();
        proof {
            reveal_with_fuel(Seq::filter, 1);
            assert(self.fruits@.take(0).filter(inside(arena)) =~= kept@);
        }
        let mut i: usize = 0;
        while i < n
            invariant
                i <= n,
                n == self.fruits@.len(),
                self.fruits@ == old(self).fruits@,
                self.next_id == old(self).next_id,
                kept@ == self.fruits@.take(i as int).filter(inside(arena)),
            decreases n - i,
        {
            let fruit = self.fruits[i];
            proof {
                let seen = self.fruits@.take(i as int);
                assert(self.fruits@.take(i + 1) =~= seen.push(fruit));
                seen.lemma_filter_push(fruit, inside(arena));
            }
            if arena.contains(fruit.position) {
                kept.push(fruit);
            }
            i = i + 1;
        }
        proof {
            assert(self.fruits@.take(n as int) =~= self.fruits@);
            if fruit_ids_valid(self.fruits@, self.next_id) {
                lemma_filter_keeps_fruit_ids(self.fruits@, inside(arena), self.next_id);
            }
        }
        self.fruits = kept;
    }

    /// All the fruits, oldest first.
    pub fn to_vec(&self) -> (fruits: Vec<Fruit>)
        ensures
            fruits@ == self@,
    {
        self.fruits.clone()
    }
}

/// Something is eaten at a cell exactly when a fruit lies on it, and no fruit
/// lies on it afterwards.
pub proof fn lemma_eaten_counts(fruits: Seq<Fruit>, position: Position)
    ensures
        fruits.filter(away_from(position)).len() <= fruits.len(),
        count_on(fruits, position) > 0 <==> fruit_on(fruits, position),
        !fruit_on(fruits.filter(away_from(position)), position),
    decreases fruits.len(),
{
    let test = away_from(position);
    let kept = fruits.filter(test);
    fruits.lemma_filter_len(test);
    assert forall|k: int| 0 <= k < kept.len() implies (#[trigger] kept[k]).position
        != position by {
        fruits.lemma_filter_pred(test, k);
    }
    reveal_with_fuel(Seq::filter, 1);
    if fruits.len() > 0 {
        let shorter = fruits.drop_last();
        lemma_eaten_counts(shorter, position);
        if fruit_on(fruits, position) {
            let i = choose|i: int| 0 <= i < fruits.len() && fruits[i].position == position;
            if i < shorter.len() {
                assert(shorter[i].position == position);
            }
        }
        if fruit_on(shorter, position) {
            let i = choose|i: int| 0 <= i < shorter.len() && shorter[i].position == position;
            assert(fruits[i].position == position);
        }
        if fruits.last().position == position {
            assert(fruits[fruits.len() - 1].position == position);
        }
    }
}

/// Removing fruits leaves the identifiers of the others as they were: still
/// below `next_id`, still all different.
pub proof fn lemma_filter_keeps_fruit_ids(
    fruits: Seq<Fruit>,
    test: spec_fn(Fruit) -> bool,
    next_id: u64,
)
    requires
        fruit_ids_valid(fruits, next_id),
    ensures
        fruit_ids_valid(fruits.filter(test), next_id),
{
    let kept = fruits.filter(test);
    lemma_filter_is_ordered_part(fruits, test);
    assert forall|k: int| 0 <= k < kept.len() implies (#[trigger] kept[k]).id < next_id by {
        let i = choose|i: int| k <= i < fruits.len() && fruits[i] == kept[k];
        assert(fruits[i].id < next_id);
    }
    assert forall|k: int, l: int| 0 <= k < l < kept.len() implies (#[trigger] kept[k]).id != (
    #[trigger] kept[l]).id by {
        let (i, j) = choose|i: int, j: int|
            0 <= i < j < fruits.len() && fruits[i] == kept[k] && fruits[j] == kept[l];
        assert(fruits[i].id != fruits[j].id);
    }
}

} // verus!
