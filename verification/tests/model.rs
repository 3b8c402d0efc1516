use ersatz::validate::{console_level, Level, Next, Tally, Validate};
use ersatz::{Entity, Ersatz, Reaction, Site};

#[test]
fn a_new_model_is_empty() {
    let model = Ersatz::new();
    assert_eq!(model.sites().len(), 0);
    assert_eq!(model.ground().len(), 0);
    assert_eq!(model.max_steps(), None);
}

#[test]
fn the_step_bound_can_be_set() {
    let mut model = Ersatz::new();
    model.set_max_steps(12);
    assert_eq!(model.max_steps(), Some(12));
    model.set_max_steps(3);
    assert_eq!(model.max_steps(), Some(3));
}

#[test]
fn sites_are_appended() {
    let site = Site::new().with_reactions(vec![Reaction::new()]);
    let model = Ersatz::new().with_sites(vec![Site::new(), site]);
    assert_eq!(model.sites().len(), 2);
    let model = model.with_sites(vec![Site::new()]);
    assert_eq!(model.sites().len(), 3);
    assert_eq!(model.sites()[1].reactions().len(), 1);
}

#[test]
fn merge_prefers_the_receivers_step_bound() {
    let mut one = Ersatz::new();
    one.set_max_steps(5);
    let mut other = Ersatz::new();
    other.set_max_steps(9);
    one.merge(other);
    assert_eq!(one.max_steps(), Some(5));
    let mut unset = Ersatz::new();
    let mut other = Ersatz::new();
    other.set_max_steps(9);
    unset.merge(other);
    assert_eq!(unset.max_steps(), Some(9));
    let mut unset = Ersatz::new();
    unset.merge(Ersatz::new());
    assert_eq!(unset.max_steps(), None);
}

#[test]
fn merge_concatenates_the_sites() {
    let mut one = Ersatz::from_str("(site (trigger (1)))").unwrap();
    let other = Ersatz::from_str("(site) (site (trigger (2)) (trigger (3)))").unwrap();
    one.merge(other);
    assert_eq!(one.sites().len(), 3);
    assert_eq!(one.sites()[0].reactions().len(), 1);
    assert_eq!(one.sites()[1].reactions().len(), 0);
    assert_eq!(one.sites()[2].reactions().len(), 2);
    assert!(one.sites()[2].reactions()[0].p.contains(&Entity::Number(2)));
}

#[test]
fn a_text_parsed_twice_and_merged_holds_the_entities_of_one() {
    let text = "(site (trigger (1 a)) (sequence (1) (2)))";
    let once = Ersatz::from_str(text).unwrap();
    let count = once.ground().len();
    let mut first = Ersatz::from_str(text).unwrap();
    let second = Ersatz::from_str(text).unwrap();
    first.merge(second);
    assert_eq!(first.ground().len(), count);
    assert_eq!(first.sites().len(), 2);
}

#[test]
fn add_from_str_absorbs_the_parsed_model() {
    let mut model = Ersatz::new();
    model.set_max_steps(4);
    assert_eq!(model.add_from_str("(site (trigger (1)))"), Ok(()));
    assert_eq!(model.add_from_str("(site (trigger (2)))"), Ok(()));
    assert_eq!(model.sites().len(), 2);
    assert_eq!(model.max_steps(), Some(4));
    assert!(model.sites()[1].reactions()[0].p.contains(&Entity::Number(2)));
}

#[test]
fn add_from_str_leaves_the_model_on_an_error() {
    let mut model = Ersatz::from_str("(site (trigger (1)))").unwrap();
    assert!(model.add_from_str("(site (trigger (1)) (bogus))").is_err());
    assert_eq!(model.sites().len(), 1);
}

#[test]
fn a_validation_counts_its_files() {
    let lenient = Validate::new("specs".to_string(), false, true, false, 1, 0);
    assert_eq!(lenient.verbosity, 1);
    assert!(lenient.shows_paths());
    assert!(!lenient.shows_models());
    let tally = Tally::new();
    let (tally, next) = lenient.record(tally, true);
    assert_eq!(next, Next::Continue);
    let (tally, next) = lenient.record(tally, false);
    assert_eq!(next, Next::Continue);
    assert_eq!(tally, Tally { checked: 2, bad: 1 });
    assert!(tally.has_bad());
    assert!(tally.is_singular());
    let (tally, _) = lenient.record(tally, false);
    assert_eq!(tally, Tally { checked: 3, bad: 2 });
    assert!(!tally.is_singular());
}

#[test]
fn a_validation_that_aborts_stops_at_a_bad_file() {
    let strict = Validate::new("specs".to_string(), true, false, true, 0, 2);
    assert_eq!(strict.verbosity, 2);
    assert!(strict.shows_models());
    let (tally, next) = strict.record(Tally::new(), true);
    assert_eq!(next, Next::Continue);
    let (tally, next) = strict.record(tally, false);
    assert_eq!(next, Next::Abort);
    assert_eq!(tally, Tally { checked: 2, bad: 0 });
    assert!(!tally.has_bad());
}

#[test]
fn the_console_level_follows_the_verbosity() {
    assert_eq!(console_level(0), Level::Warn);
    assert_eq!(console_level(1), Level::Info);
    assert_eq!(console_level(2), Level::Debug);
    assert_eq!(console_level(3), Level::Trace);
    assert_eq!(console_level(40), Level::Trace);
}
