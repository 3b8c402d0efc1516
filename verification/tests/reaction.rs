use ersatz::{Entity, Reaction, Site};

fn name(text: &str) -> Entity {
    Entity::Name(text.to_string())
}

#[test]
fn a_new_reaction_is_empty() {
    let reaction = Reaction::new();
    assert!(reaction.r.is_empty());
    assert!(reaction.i.is_empty());
    assert!(reaction.p.is_empty());
}

#[test]
fn reactants_and_products_are_independent() {
    let reaction = Reaction::new().with_reactants(vec![Entity::Number(1)]);
    assert!(reaction.r.contains(&Entity::Number(1)));
    assert!(reaction.p.is_empty());
    assert!(reaction.i.is_empty());
    let reaction = reaction.with_products(vec![name("out")]);
    assert!(reaction.p.contains(&name("out")));
    assert!(!reaction.p.contains(&Entity::Number(1)));
    assert!(!reaction.r.contains(&name("out")));
    assert_eq!(reaction.r.number_count(), 1);
    assert_eq!(reaction.r.name_count(), 0);
}

#[test]
fn inhibitors_have_their_own_target() {
    let reaction = Reaction::new()
        .with_inhibitors(vec![Entity::Number(4), name("no")])
        .with_products(vec![Entity::Number(5)]);
    assert!(reaction.i.contains(&Entity::Number(4)));
    assert!(reaction.i.contains(&name("no")));
    assert!(reaction.r.is_empty());
    assert_eq!(reaction.p.number_count(), 1);
    assert!(reaction.p.contains(&Entity::Number(5)));
}

#[test]
fn builders_accumulate() {
    let reaction = Reaction::new()
        .with_products(vec![Entity::Number(1)])
        .with_products(vec![Entity::Number(2), Entity::Identifier("g".to_string())]);
    assert_eq!(reaction.p.number_count(), 2);
    assert_eq!(reaction.p.name_count(), 0);
}

#[test]
fn a_site_keeps_its_reactions_in_order() {
    let site = Site::new();
    assert_eq!(site.reactions().len(), 0);
    let site = site
        .with_reactions(vec![Reaction::new().with_products(vec![Entity::Number(1)])])
        .with_reactions(vec![Reaction::new().with_products(vec![Entity::Number(2)])]);
    assert_eq!(site.reactions().len(), 2);
    assert!(site.reactions()[0].p.contains(&Entity::Number(1)));
    assert!(site.reactions()[1].p.contains(&Entity::Number(2)));
    assert!(!site.state().contains(0));
}
