use ca04::field::Field;
use ca04::input::Action;
use ca04::logic::{effective_rule, LogicHandler, Rule};

#[test]
fn effective_rule_defaults_to_collect() {
    assert_eq!(effective_rule(None), Rule::Collect);
    assert_eq!(effective_rule(Some(Rule::Spread)), Rule::Spread);
    assert_eq!(effective_rule(Some(Rule::Multiply)), Rule::Multiply);
    assert_eq!(effective_rule(Some(Rule::Collect)), Rule::Collect);
}

#[test]
fn rule_set_is_by_kind() {
    let mut handler = LogicHandler::new();
    assert_eq!(handler.rule_of(&Field(1, 10)), None);
    handler.set_rule(&Field(1, 10), Rule::Spread);
    handler.set_rule(&Field(2, 0), Rule::Collect);
    assert_eq!(handler.rule_of(&Field(1, 999)), Some(Rule::Spread));
    assert_eq!(handler.rule_of(&Field(2, 5)), Some(Rule::Collect));
    assert_eq!(handler.rule_of(&Field(3, 5)), None);
    handler.set_rule(&Field(1, 0), Rule::Multiply);
    assert_eq!(handler.rule_of(&Field(1, 10)), Some(Rule::Multiply));
}

#[test]
fn evaluate_keeps_the_rules() {
    let mut handler = LogicHandler::new();
    handler.set_rule(&Field(1, 10), Rule::Spread);
    handler.set_rule(&Field(2, 10), Rule::Collect);
    handler.evaluate(&Field(1, 1), &Field(2, 2));
    handler.evaluate(&Field(1, 1), &Field(3, 2));
    handler.evaluate(&Field(4, 1), &Field(5, 2));
    assert_eq!(handler.rule_of(&Field(1, 0)), Some(Rule::Spread));
    assert_eq!(handler.rule_of(&Field(2, 0)), Some(Rule::Collect));
    assert_eq!(handler.rule_of(&Field(3, 0)), None);
}

#[test]
fn action_pan_gives_the_heading() {
    assert_eq!(Action::N.pan(), (0, 1));
    assert_eq!(Action::NE.pan(), (-1, 1));
    assert_eq!(Action::E.pan(), (-1, 0));
    assert_eq!(Action::SE.pan(), (-1, -1));
    assert_eq!(Action::S.pan(), (0, -1));
    assert_eq!(Action::SW.pan(), (1, -1));
    assert_eq!(Action::W.pan(), (1, 0));
    assert_eq!(Action::NW.pan(), (1, 1));
    assert_eq!(Action::Pass.pan(), (0, 0));
    assert_eq!(Action::Exit.pan(), (0, 0));
    assert_eq!(Action::Stats.pan(), (0, 0));
    assert_eq!(Action::ResetZoom.pan(), (0, 0));
}

#[test]
fn rules_lists_every_rule_once() {
    let mut handler = LogicHandler::new();
    assert!(handler.rules().is_empty());
    handler.set_rule(&Field(1, 10), Rule::Spread);
    handler.set_rule(&Field(2, 10), Rule::Collect);
    handler.set_rule(&Field(1, 99), Rule::Multiply);
    let mut rules = handler.rules();
    rules.sort_by_key(|r| r.0);
    assert_eq!(rules, vec![(1, Rule::Multiply), (2, Rule::Collect)]);
}
