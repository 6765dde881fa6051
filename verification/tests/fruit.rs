use snake_core::fruit::{Fruit, FruitSet};
use snake_core::grid::{create_position, Arena};

#[test]
fn new_fruit_set_is_empty() {
    let fruits = FruitSet::new();
    assert_eq!(fruits.len(), 0);
    assert_eq!(fruits.get(0), None);
    assert_eq!(fruits.to_vec(), Vec::<Fruit>::new());
    assert_eq!(fruits.next_id(), 0);
    assert!(!fruits.is_on(create_position(0, 0)));
}

#[test]
fn spawned_fruits_get_identifiers_in_turn() {
    let mut fruits = FruitSet::new();
    assert!(fruits.spawn(create_position(1, 2)));
    assert!(fruits.spawn(create_position(-3, 4)));
    assert_eq!(
        fruits.to_vec(),
        vec![
            Fruit { id: 0, position: create_position(1, 2) },
            Fruit { id: 1, position: create_position(-3, 4) },
        ]
    );
    assert_eq!(fruits.len(), 2);
    assert_eq!(fruits.get(1), Some(Fruit { id: 1, position: create_position(-3, 4) }));
    assert_eq!(fruits.get(2), None);
    assert_eq!(fruits.next_id(), 2);
    assert!(fruits.is_on(create_position(1, 2)));
    assert!(fruits.is_on(create_position(-3, 4)));
    assert!(!fruits.is_on(create_position(2, 1)));
}

#[test]
fn eating_removes_the_fruit_on_the_cell_and_no_other() {
    let mut fruits = FruitSet::new();
    fruits.spawn(create_position(1, 1));
    fruits.spawn(create_position(2, 2));
    fruits.spawn(create_position(3, 3));
    assert_eq!(fruits.eat_at(create_position(2, 2)), 1);
    assert_eq!(
        fruits.to_vec(),
        vec![
            Fruit { id: 0, position: create_position(1, 1) },
            Fruit { id: 2, position: create_position(3, 3) },
        ]
    );
    assert!(!fruits.is_on(create_position(2, 2)));
    assert_eq!(fruits.next_id(), 3);
}

#[test]
fn eating_where_nothing_lies_removes_nothing() {
    let mut fruits = FruitSet::new();
    fruits.spawn(create_position(1, 1));
    assert_eq!(fruits.eat_at(create_position(1, 0)), 0);
    assert_eq!(fruits.len(), 1);
    let mut none = FruitSet::new();
    assert_eq!(none.eat_at(create_position(0, 0)), 0);
}

#[test]
fn fruits_on_one_cell_are_all_eaten() {
    let mut fruits = FruitSet::new();
    fruits.spawn(create_position(4, 4));
    fruits.spawn(create_position(0, 0));
    fruits.spawn(create_position(4, 4));
    fruits.spawn(create_position(4, 4));
    assert_eq!(fruits.eat_at(create_position(4, 4)), 3);
    assert_eq!(fruits.to_vec(), vec![Fruit { id: 1, position: create_position(0, 0) }]);
}

#[test]
fn reaper_removes_the_fruit_outside_the_arena() {
    let arena = Arena::new(4, 4).unwrap();
    let mut fruits = FruitSet::new();
    fruits.spawn(create_position(2, 2));
    fruits.spawn(create_position(3, 0));
    fruits.spawn(create_position(-2, -2));
    fruits.spawn(create_position(0, -3));
    fruits.reap(arena);
    assert_eq!(
        fruits.to_vec(),
        vec![
            Fruit { id: 0, position: create_position(2, 2) },
            Fruit { id: 2, position: create_position(-2, -2) },
        ]
    );
    assert_eq!(fruits.next_id(), 4);
}
