use ersatz::{Entity, Ground};

fn name(text: &str) -> Entity {
    Entity::Name(text.to_string())
}

#[test]
fn insert_reports_an_addition_once() {
    let mut ground = Ground::new();
    assert!(ground.insert(Entity::Number(7)));
    assert!(!ground.insert(Entity::Number(7)));
    assert!(ground.insert(name("a")));
    assert!(!ground.insert(name("a")));
    assert!(ground.insert(Entity::Number(8)));
    assert!(!ground.insert(Entity::Number(7)));
    assert_eq!(ground.len(), 3);
}

#[test]
fn identifier_entities_are_never_inserted() {
    let mut ground = Ground::new();
    assert!(!ground.insert(Entity::Identifier("group".to_string())));
    assert_eq!(ground.len(), 0);
    assert_eq!(ground.get_id(&Entity::Identifier("group".to_string())), None);
}

#[test]
fn provide_returns_the_same_identifier_twice() {
    let mut ground = Ground::new();
    let first = ground.provide_number_id(&42);
    let second = ground.provide_number_id(&42);
    assert_eq!(first, 0);
    assert_eq!(second, 0);
    let a = ground.provide_name_id("a");
    let b = ground.provide_name_id("a");
    assert_eq!(a, 1);
    assert_eq!(b, 1);
    assert_eq!(ground.len(), 2);
}

#[test]
fn identifiers_follow_the_order_of_insertion() {
    let mut ground = Ground::new();
    ground.insert(Entity::Number(10));
    ground.insert(name("x"));
    ground.insert(Entity::Number(10));
    ground.insert(Entity::Identifier("skipped".to_string()));
    ground.insert(Entity::Number(3));
    ground.insert(name("y"));
    assert_eq!(ground.get_id(&Entity::Number(10)), Some(0));
    assert_eq!(ground.get_id(&name("x")), Some(1));
    assert_eq!(ground.get_id(&Entity::Number(3)), Some(2));
    assert_eq!(ground.get_id(&name("y")), Some(3));
    assert_eq!(ground.get_number_id(&10), Some(0));
    assert_eq!(ground.get_name_id("y"), Some(3));
    assert_eq!(ground.get_number_id(&11), None);
    assert_eq!(ground.get_name_id("z"), None);
}

#[test]
fn numbers_and_names_do_not_coincide() {
    let mut ground = Ground::new();
    assert!(ground.insert_number(1));
    assert!(ground.insert_name("1".to_string()));
    assert_eq!(ground.get_number_id(&1), Some(0));
    assert_eq!(ground.get_name_id("1"), Some(1));
}

#[test]
fn merge_appends_what_is_new_numbers_first() {
    let mut first = Ground::new();
    first.insert(Entity::Number(1));
    first.insert(name("a"));
    let mut second = Ground::new();
    second.insert(name("b"));
    second.insert(Entity::Number(1));
    second.insert(name("a"));
    second.insert(Entity::Number(2));
    first.merge(second);
    assert_eq!(first.len(), 4);
    assert_eq!(first.get_number_id(&1), Some(0));
    assert_eq!(first.get_name_id("a"), Some(1));
    assert_eq!(first.get_number_id(&2), Some(2));
    assert_eq!(first.get_name_id("b"), Some(3));
}

#[test]
fn merge_holds_the_same_entities_either_way() {
    let build = |numbers: &[u32], names: &[&str]| {
        let mut ground = Ground::new();
        for n in numbers {
            ground.insert(Entity::Number(*n));
        }
        for s in names {
            ground.insert(Entity::Name(s.to_string()));
        }
        ground
    };
    let mut one = build(&[1, 2], &["a"]);
    one.merge(build(&[3], &["b", "c"]));
    let mut other = build(&[3], &["b", "c"]);
    other.merge(build(&[1, 2], &["a"]));
    assert_eq!(one.len(), 6);
    assert_eq!(other.len(), 6);
    for n in [1u32, 2, 3] {
        assert!(one.get_number_id(&n).is_some());
        assert!(other.get_number_id(&n).is_some());
    }
    for s in ["a", "b", "c"] {
        assert!(one.get_name_id(s).is_some());
        assert!(other.get_name_id(s).is_some());
    }
    assert_eq!(one.get_number_id(&3), Some(3));
    assert_eq!(other.get_number_id(&3), Some(0));
}

#[test]
fn merge_counts_an_overlap_once() {
    let mut one = Ground::new();
    one.insert(Entity::Number(1));
    one.insert(Entity::Number(2));
    one.insert(name("a"));
    let mut other = Ground::new();
    other.insert(Entity::Number(2));
    other.insert(name("a"));
    other.insert(name("b"));
    one.merge(other);
    assert_eq!(one.len(), 3 + 3 - 2);
}

#[test]
fn merge_with_the_same_entities_changes_nothing() {
    let mut one = Ground::new();
    one.insert(Entity::Number(5));
    one.insert(name("x"));
    let mut same = Ground::new();
    same.insert(name("x"));
    same.insert(Entity::Number(5));
    one.merge(same);
    assert_eq!(one.len(), 2);
    assert_eq!(one.get_number_id(&5), Some(0));
    assert_eq!(one.get_name_id("x"), Some(1));
}
