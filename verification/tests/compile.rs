use ersatz::ast::{ChoiceAst, EntitiesAst, SequenceAst, SiteAst, TriggerAst, Trope};
use ersatz::{Entity, EntitySet, Ground, Reaction};

fn name(text: &str) -> Entity {
    Entity::Name(text.to_string())
}

fn holds(set: &EntitySet, numbers: &[u32], names: &[&str]) -> bool {
    set.number_count() == numbers.len()
        && set.name_count() == names.len()
        && numbers.iter().all(|n| set.contains(&Entity::Number(*n)))
        && names.iter().all(|s| set.contains(&Entity::Name(s.to_string())))
}

fn is_rule(reaction: &Reaction, reactants: (&[u32], &[&str]), products: (&[u32], &[&str])) -> bool {
    holds(&reaction.r, reactants.0, reactants.1)
        && reaction.i.is_empty()
        && holds(&reaction.p, products.0, products.1)
}

#[test]
fn a_trigger_compiles_to_one_reaction_from_nothing() {
    let mut ground = Ground::new();
    let mut trigger =
        TriggerAst { id: None, entities: vec![Entity::Number(5), name("x")], compiled: None };
    trigger.compile(&mut ground);
    assert!(trigger.entities.is_empty());
    let reaction = trigger.compiled.as_ref().unwrap();
    assert!(is_rule(reaction, (&[], &[]), (&[5], &["x"])));
    assert_eq!(ground.len(), 0);
    let reaction = trigger.into_reaction();
    assert!(is_rule(&reaction, (&[], &[]), (&[5], &["x"])));
}

#[test]
fn a_trigger_that_was_not_compiled_still_gives_its_reaction() {
    let trigger = TriggerAst {
        id: Some("t".to_string()),
        entities: vec![Entity::Number(1), Entity::Identifier("g".to_string())],
        compiled: None,
    };
    let reaction = trigger.into_reaction();
    assert!(is_rule(&reaction, (&[], &[]), (&[1], &[])));
}

#[test]
fn a_sequence_compiles_to_a_chain() {
    let mut ground = Ground::new();
    let mut sequence = SequenceAst {
        id: None,
        terms: vec![vec![Entity::Number(7)], vec![name("a")], vec![Entity::Number(9)]],
        compiled: None,
    };
    sequence.compile(&mut ground);
    assert!(sequence.terms.is_empty());
    let reactions = sequence.compiled.as_ref().unwrap();
    assert_eq!(reactions.len(), 3);
    assert!(is_rule(&reactions[0], (&[], &[]), (&[7], &[])));
    assert!(is_rule(&reactions[1], (&[7], &[]), (&[], &["a"])));
    assert!(is_rule(&reactions[2], (&[], &["a"]), (&[9], &[])));
    assert_eq!(ground.len(), 0);
}

#[test]
fn reactants_are_the_term_before_and_not_a_union() {
    let sequence = SequenceAst {
        id: None,
        terms: vec![
            vec![Entity::Number(1), Entity::Number(2)],
            vec![Entity::Number(3)],
            vec![Entity::Number(4), name("n")],
        ],
        compiled: None,
    };
    let reactions = sequence.into_reactions();
    assert_eq!(reactions.len(), 3);
    assert!(is_rule(&reactions[0], (&[], &[]), (&[1, 2], &[])));
    assert!(is_rule(&reactions[1], (&[1, 2], &[]), (&[3], &[])));
    assert!(is_rule(&reactions[2], (&[3], &[]), (&[4], &["n"])));
}

#[test]
fn compiling_a_sequence_twice_changes_nothing() {
    let mut ground = Ground::new();
    let mut sequence = SequenceAst {
        id: None,
        terms: vec![vec![Entity::Number(1)], vec![Entity::Number(2)]],
        compiled: None,
    };
    sequence.compile(&mut ground);
    sequence.compile(&mut ground);
    let reactions = sequence.compiled.as_ref().unwrap();
    assert_eq!(reactions.len(), 2);
    assert!(is_rule(&reactions[0], (&[], &[]), (&[1], &[])));
    assert!(is_rule(&reactions[1], (&[1], &[]), (&[2], &[])));
}

#[test]
fn a_sequence_of_one_term_is_one_reaction() {
    let sequence =
        SequenceAst { id: None, terms: vec![vec![Entity::Number(1)]], compiled: None };
    let reactions = sequence.into_reactions();
    assert_eq!(reactions.len(), 1);
    assert!(is_rule(&reactions[0], (&[], &[]), (&[1], &[])));
}

#[test]
fn a_site_takes_the_reactions_of_its_tropes_in_order() {
    let mut ground = Ground::new();
    let mut site = SiteAst {
        tropes: vec![
            Trope::Entities(EntitiesAst { id: Some("g".to_string()), entities: vec![name("e")] }),
            Trope::Trigger(TriggerAst { id: None, entities: vec![Entity::Number(1)], compiled: None }),
            Trope::Choice(ChoiceAst { id: None, cards: vec![1, 2], base: vec![name("b")] }),
            Trope::Sequence(SequenceAst {
                id: None,
                terms: vec![vec![Entity::Number(1)], vec![Entity::Number(2)]],
                compiled: None,
            }),
        ],
        compiled: None,
    };
    site.compile(&mut ground);
    assert_eq!(site.tropes.len(), 2);
    assert!(matches!(site.tropes[0], Trope::Entities(_)));
    assert!(matches!(site.tropes[1], Trope::Choice(_)));
    let site = site.into_site();
    let reactions = site.reactions();
    assert_eq!(reactions.len(), 3);
    assert!(is_rule(&reactions[0], (&[], &[]), (&[1], &[])));
    assert!(is_rule(&reactions[1], (&[], &[]), (&[1], &[])));
    assert!(is_rule(&reactions[2], (&[1], &[]), (&[2], &[])));
    assert_eq!(ground.len(), 0);
}

#[test]
fn entities_and_choice_compile_to_nothing() {
    let mut ground = Ground::new();
    let mut trope =
        Trope::Choice(ChoiceAst { id: None, cards: vec![2], base: vec![Entity::Number(1)] });
    trope.compile(&mut ground);
    assert!(matches!(trope, Trope::Choice(_)));
    let mut site = SiteAst {
        tropes: vec![Trope::Entities(EntitiesAst { id: None, entities: vec![Entity::Number(1)] })],
        compiled: None,
    };
    site.compile(&mut ground);
    assert_eq!(site.compiled.as_ref().unwrap().len(), 0);
    assert_eq!(site.tropes.len(), 1);
}

#[test]
fn a_site_that_was_not_compiled_has_no_reactions() {
    let site = SiteAst {
        tropes: vec![Trope::Trigger(TriggerAst {
            id: None,
            entities: vec![Entity::Number(1)],
            compiled: None,
        })],
        compiled: None,
    };
    assert_eq!(site.into_site().reactions().len(), 0);
}
