use ersatz::{Entity, EntitySet, Ground, Source, State};

fn name(text: &str) -> Entity {
    Entity::Name(text.to_string())
}

#[test]
fn a_new_set_is_empty() {
    let set = EntitySet::new();
    assert!(set.is_empty());
    assert_eq!(set.number_count(), 0);
    assert_eq!(set.name_count(), 0);
}

#[test]
fn duplicates_collapse() {
    let mut set = EntitySet::new();
    set.extend(vec![Entity::Number(1), name("a"), Entity::Number(1), name("a"), name("b")]);
    assert_eq!(set.number_count(), 1);
    assert_eq!(set.name_count(), 2);
    assert!(set.contains(&Entity::Number(1)));
    assert!(set.contains(&name("a")));
    assert!(set.contains(&name("b")));
    assert!(!set.contains(&Entity::Number(2)));
    assert!(!set.contains(&name("1")));
}

#[test]
fn identifiers_are_dropped_without_effect() {
    let mut set = EntitySet::new();
    set.extend(vec![Entity::Identifier("group".to_string())]);
    assert!(set.is_empty());
    assert!(!set.contains(&Entity::Identifier("group".to_string())));
    let set = EntitySet::from_entities(vec![Entity::Identifier("g".to_string()), Entity::Number(3)]);
    assert_eq!(set.number_count(), 1);
    assert_eq!(set.name_count(), 0);
}

#[test]
fn extend_numbers_and_names_add_in_bulk() {
    let mut set = EntitySet::new();
    set.extend_numbers(vec![3, 1, 3]);
    set.extend_names(vec!["x".to_string(), "y".to_string(), "x".to_string()]);
    assert_eq!(set.number_count(), 2);
    assert_eq!(set.name_count(), 2);
    assert!(set.contains(&Entity::Number(3)));
    assert!(set.contains(&name("y")));
}

#[test]
fn drain_moves_every_element_out_once() {
    let mut set = EntitySet::from_entities(vec![
        Entity::Number(2),
        Entity::Number(9),
        name("p"),
        Entity::Number(2),
    ]);
    let mut numbers = set.drain_numbers();
    numbers.sort();
    assert_eq!(numbers, vec![2, 9]);
    assert_eq!(set.number_count(), 0);
    assert_eq!(set.name_count(), 1);
    let names = set.drain_names();
    assert_eq!(names, vec!["p".to_string()]);
    assert!(set.is_empty());
}

#[test]
fn clear_removes_everything() {
    let mut set = EntitySet::from_entities(vec![Entity::Number(2), name("p")]);
    set.clear();
    assert!(set.is_empty());
}

#[test]
fn a_clone_holds_the_same_elements() {
    let set = EntitySet::from_entities(vec![Entity::Number(2), name("p")]);
    let copy = set.clone();
    assert!(copy.contains(&Entity::Number(2)));
    assert!(copy.contains(&name("p")));
    assert_eq!(copy.number_count(), 1);
    assert_eq!(copy.name_count(), 1);
}

#[test]
fn projection_gives_the_identifiers_of_known_entities() {
    let mut ground = Ground::new();
    ground.insert(Entity::Number(7));
    ground.insert(name("a"));
    ground.insert(Entity::Number(9));
    let mut set = EntitySet::from_entities(vec![name("a"), Entity::Number(9)]);
    let state = set.emit(&ground);
    assert!(!state.contains(0));
    assert!(state.contains(1));
    assert!(state.contains(2));
    assert!(!state.contains(3));
}

#[test]
fn projection_omits_unknown_entities() {
    let mut ground = Ground::new();
    ground.insert(Entity::Number(7));
    let mut set = EntitySet::from_entities(vec![Entity::Number(7), Entity::Number(8), name("z")]);
    let state = set.emit(&ground);
    let mut expected = State::new();
    expected.insert(0);
    assert_eq!(state, expected);
    assert_eq!(ground.len(), 1);
    assert_eq!(set.number_count(), 2);
}

#[test]
fn projection_of_the_empty_set_is_empty() {
    let mut ground = Ground::new();
    ground.insert(Entity::Number(7));
    let state = EntitySet::new().emit(&ground);
    assert_eq!(state, State::new());
}

#[test]
fn a_state_holds_what_was_inserted() {
    let mut state = State::new();
    assert!(!state.contains(5));
    state.insert(5);
    state.insert(70);
    state.insert(5);
    assert!(state.contains(5));
    assert!(state.contains(70));
    assert!(!state.contains(6));
    let copy = state.clone();
    assert_eq!(copy, state);
    assert!(copy.contains(70));
}
