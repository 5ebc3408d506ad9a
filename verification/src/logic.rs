//! Behaviour rules: the tag that a tile may carry, and the rule set by kind.

use crate::field::Field;
use std::collections::HashMap;
use vstd::prelude::*;

verus! {

/// How a tile treats the fields that reach it.
#[derive(PartialEq, Eq, Structural, Copy, Clone, Debug)]
pub enum Rule {
    Spread,
    Collect,
    Multiply,
}

/// The rule that governs a tile: its own, or `Collect` where it has none.
pub fn effective_rule(rule: Option<Rule>) -> (effective: Rule)
    ensures
        effective == match rule {
            Some(r) => r,
            None => Rule::Collect,
        },
{
    match rule {
        Some(r) => r,
        None => Rule::Collect,
    }
}

/// The rules by kind of field. A field stands for its kind: its magnitude
/// does not count.
pub struct LogicHandler {
    ruleset: HashMap<u32, Rule>,
}

impl View for LogicHandler {
    type V = Map<u32, Rule>;

    closed spec fn view(&self) -> Map<u32, Rule> {
        self.ruleset@
    }
}

impl LogicHandler {
    /// A rule set without rules.
    pub fn new() -> (handler: LogicHandler)
        ensures
            handler@ == Map::<u32, Rule>::empty(),
    {
        LogicHandler { ruleset: HashMap::new() }
    }

    /// Gives the kind of `field` the rule `rule`, in place of the rule that
    /// it had.
    pub fn set_rule(&mut self, field: &Field, rule: Rule)
        ensures
            final(self)@ == old(self)@.insert(field.0, rule),
    {
        self.ruleset.insert(field.0, rule);
    }

    /// The rule of the kind of `field`, where it has one.
    pub fn rule_of(&self, field: &Field) -> (rule: Option<Rule>)
        ensures
            rule == if self@.contains_key(field.0) {
                Some(self@[field.0])
            } else {
                None
            },
    {
        match self.ruleset.get(&field.0) {
            Some(rule) => Some(*rule),
            None => None,
        }
    }

    /// The rules, each with its kind, in no order in particular.
    pub fn rules(&self) -> (rules: Vec<(u32, Rule)>)
        ensures
            rules@.len() == self@.dom().len(),
            forall|i: int|
                0 <= i < rules@.len() ==> self@.contains_key((#[trigger] rules@[i]).0)
                    && self@[rules@[i].0] == rules@[i].1,
            forall|kind: u32|
                self@.contains_key(kind) ==> exists|i: int|
                    0 <= i < rules@.len() && (#[trigger] rules@[i]).0 == kind,
    {
        let mut rules: Vec<(u32, Rule)> = Vec::new();
        for kind in it: self.ruleset.keys()
            invariant
                rules@.len() == it.index(),
                it.seq().len() == self@.dom().len(),
                forall|i: int|
                    0 <= i < rules@.len() ==> self@.contains_key((#[trigger] rules@[i]).0)
                        && self@[rules@[i].0] == rules@[i].1,
                forall|k: u32|
                    self@.contains_key(k) ==> (exists|i: int|
                        0 <= i < rules@.len() && (#[trigger] rules@[i]).0 == k) || (exists|i: int|
                        it.index() <= i < it.seq().len() && *(#[trigger] it.seq()[i]) == k),
        {
            match self.ruleset.get(kind) {
                Some(rule) => {
                    let ghost before = rules@;
                    rules.push((*kind, *rule));
                    assert forall|k: u32| self@.contains_key(k) implies (exists|i: int|
                        0 <= i < rules@.len() && (#[trigger] rules@[i]).0 == k) || (exists|i: int|
                        it.index() + 1 <= i < it.seq().len() && *(#[trigger] it.seq()[i]) == k) by {
                        if exists|i: int| 0 <= i < before.len() && (#[trigger] before[i]).0 == k {
                            let i = choose|i: int|
                                0 <= i < before.len() && (#[trigger] before[i]).0 == k;
                            assert(rules@[i].0 == k);
                        } else {
                            let i = choose|i: int|
                                it.index() <= i < it.seq().len() && *(#[trigger] it.seq()[i]) == k;
                            if i == it.index() {
                                assert(rules@[before.len() as int].0 == k);
                            }
                        }
                    }
                },
                None => {},
            }
        }
        rules
    }

    /// Weighs `field` against `other` where both of their kinds have a rule.
    /// No rule asks for a change of the rule set yet.
    pub fn evaluate(&mut self, field: &Field, other: &Field)
        ensures
            final(self)@ == old(self)@,
    {
        if self.ruleset.contains_key(&field.0) && self.ruleset.contains_key(&other.0) {
            match self.rule_of(field) {
                Some(Rule::Spread) => {},
                Some(Rule::Collect) => {},
                Some(Rule::Multiply) => {},
                None => {},
            }
        }
    }
}

} // verus!
