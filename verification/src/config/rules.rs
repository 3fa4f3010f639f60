//! Rules that tie an application's configuration to those of other applications.

use vstd::prelude::*;
use crate::config::{clone_strings, strings_view};
use crate::config::collections::ConfigMap;
use crate::config::update::{resolve, select, LiveView};
use crate::config::value::{lookup, Config, ConfigView, Value, ValueView};

verus! {

/// A field of a configuration: of this application's own where `app_id` is
/// none, else of the application named.
#[derive(Debug, PartialEq)]
pub struct Reference {
    pub app_id: Option<String>,
    pub path: Vec<String>,
}

/// Mathematical model of a [`Reference`].
pub struct ReferenceView {
    pub app_id: Option<Seq<char>>,
    pub path: Seq<Seq<char>>,
}

impl View for Reference {
    type V = ReferenceView;

    open spec fn view(&self) -> ReferenceView {
        ReferenceView {
            app_id: match self.app_id {
                Some(a) => Some(a@),
                None => None,
            },
            path: strings_view(self.path@),
        }
    }
}

impl Clone for Reference {
    fn clone(&self) -> (res: Reference)
        ensures
            res@ == self@,
    {
        Reference {
            app_id: match &self.app_id {
                Some(a) => Some(a.clone()),
                None => None,
            },
            path: clone_strings(&self.path),
        }
    }
}

/// Something that has a value: a constant, or a field.
#[derive(Clone, Debug, PartialEq)]
pub enum Term {
    Literal(Value),
    Field(Reference),
}

/// A statement about configurations.
#[derive(Debug, PartialEq)]
pub enum Condition {
    /// Holds always.
    Always,
    /// The field is there and not null.
    Exists(Reference),
    /// The two terms have equal values.
    Equals(Term, Term),
    /// The statement does not hold.
    Not(Box<Condition>),
    /// Both statements hold.
    And(Box<Condition>, Box<Condition>),
    /// One of the statements holds.
    Or(Box<Condition>, Box<Condition>),
}

/// A rule: wherever `condition` holds, `consequence` must hold too.
#[derive(Debug, PartialEq)]
pub struct ConfigRule {
    pub condition: Condition,
    pub consequence: Condition,
}

/// A rule with the text that explains it to people.
#[derive(Debug, PartialEq)]
pub struct ConfigRuleEntry {
    pub rule: ConfigRule,
    pub description: String,
}

/// A rule that does not hold: its explanation, and the first field that its
/// demand speaks of.
#[derive(Clone, Debug, PartialEq)]
pub struct RuleViolation {
    pub description: String,
    pub culprit: Option<Reference>,
}

/// Mathematical model of a [`RuleViolation`].
pub struct RuleViolationView {
    pub description: Seq<char>,
    pub culprit: Option<ReferenceView>,
}

impl View for RuleViolation {
    type V = RuleViolationView;

    open spec fn view(&self) -> RuleViolationView {
        RuleViolationView {
            description: self.description@,
            culprit: match self.culprit {
                Some(r) => Some(r@),
                None => None,
            },
        }
    }
}

/// The value of a field. A field that is not there, or lies in an
/// application that the table does not hold, is null.
pub open spec fn reference_value(r: ReferenceView, cfg: ConfigView, cfgs: LiveView) -> ValueView {
    let root = match r.app_id {
        None => Some(cfg),
        Some(a) => lookup(cfgs, a),
    };
    match root {
        Some(c) => match select(ValueView::Object(c), r.path, 0) {
            Some(v) => v,
            None => ValueView::Null,
        },
        None => ValueView::Null,
    }
}

/// The value of a term.
pub open spec fn term_value(t: Term, cfg: ConfigView, cfgs: LiveView) -> ValueView {
    match t {
        Term::Literal(v) => v@,
        Term::Field(r) => reference_value(r@, cfg, cfgs),
    }
}

/// Whether the statement holds of this application's configuration `cfg` and
/// the table `cfgs` of configurations by application name.
pub open spec fn holds(c: Condition, cfg: ConfigView, cfgs: LiveView) -> bool
    decreases c,
{
    match c {
        Condition::Always => true,
        Condition::Exists(r) => !(reference_value(r@, cfg, cfgs) is Null),
        Condition::Equals(a, b) => term_value(a, cfg, cfgs) == term_value(b, cfg, cfgs),
        Condition::Not(inner) => !holds(*inner, cfg, cfgs),
        Condition::And(a, b) => holds(*a, cfg, cfgs) && holds(*b, cfg, cfgs),
        Condition::Or(a, b) => holds(*a, cfg, cfgs) || holds(*b, cfg, cfgs),
    }
}

/// The first field that the statement speaks of, reading from the left.
pub open spec fn first_field(c: Condition) -> Option<ReferenceView>
    decreases c,
{
    match c {
        Condition::Always => None,
        Condition::Exists(r) => Some(r@),
        Condition::Equals(a, b) => match a {
            Term::Field(r) => Some(r@),
            _ => match b {
                Term::Field(r) => Some(r@),
                _ => None,
            },
        },
        Condition::Not(inner) => first_field(*inner),
        Condition::And(a, b) => match first_field(*a) {
            Some(r) => Some(r),
            None => first_field(*b),
        },
        Condition::Or(a, b) => match first_field(*a) {
            Some(r) => Some(r),
            None => first_field(*b),
        },
    }
}

/// The verdict of one rule: it is violated exactly where its condition holds and
/// its consequence does not.
pub open spec fn rule_verdict(entry: ConfigRuleEntry, cfg: ConfigView, cfgs: LiveView) -> Result<
    (),
    RuleViolationView,
> {
    if holds(entry.rule.condition, cfg, cfgs) && !holds(entry.rule.consequence, cfg, cfgs) {
        Err(
            RuleViolationView {
                description: entry.description@,
                culprit: first_field(entry.rule.consequence),
            },
        )
    } else {
        Ok(())
    }
}

/// The verdict of the rules `i..`, in declaration order: the first violation.
pub open spec fn rules_verdict(
    rules: Seq<ConfigRuleEntry>,
    i: int,
    cfg: ConfigView,
    cfgs: LiveView,
) -> Result<(), RuleViolationView>
    decreases rules.len() - i,
{
    if i < 0 || i >= rules.len() {
        Ok(())
    } else {
        match rule_verdict(rules[i], cfg, cfgs) {
            Err(e) => Err(e),
            Ok(_) => rules_verdict(rules, i + 1, cfg, cfgs),
        }
    }
}

/// The model of the outcome of a check.
pub open spec fn verdict(res: Result<(), RuleViolation>) -> Result<(), RuleViolationView> {
    match res {
        Ok(_) => Ok(()),
        Err(e) => Err(e@),
    }
}

impl Reference {
    /// The value of the field.
    pub fn value(&self, cfg: &Config, cfgs: &ConfigMap) -> (res: Value)
        ensures
            res@ == reference_value(self@, cfg@, cfgs@),
    {
        let root: Option<&Config> = match &self.app_id {
            None => Some(cfg),
            Some(a) => cfgs.get(a.as_str()),
        };
        match root {
            Some(c) => match resolve(c, &self.path) {
                Some(v) => v,
                None => Value::Null,
            },
            None => Value::Null,
        }
    }
}

impl Term {
    /// The value of the term.
    pub fn value(&self, cfg: &Config, cfgs: &ConfigMap) -> (res: Value)
        ensures
            res@ == term_value(*self, cfg@, cfgs@),
    {
        match self {
            Term::Literal(v) => v.clone(),
            Term::Field(r) => r.value(cfg, cfgs),
        }
    }
}

impl Condition {
    /// Whether the statement holds.
    pub fn evaluate(&self, cfg: &Config, cfgs: &ConfigMap) -> (res: bool)
        ensures
            res == holds(*self, cfg@, cfgs@),
        decreases self,
    {
        match self {
            Condition::Always => true,
            Condition::Exists(r) => {
                let v = r.value(cfg, cfgs);
                match v {
                    Value::Null => false,
                    _ => true,
                }
            },
            Condition::Equals(a, b) => {
                let left = a.value(cfg, cfgs);
                let right = b.value(cfg, cfgs);
                left.equals(&right)
            },
            Condition::Not(inner) => !inner.evaluate(cfg, cfgs),
            Condition::And(a, b) => a.evaluate(cfg, cfgs) && b.evaluate(cfg, cfgs),
            Condition::Or(a, b) => a.evaluate(cfg, cfgs) || b.evaluate(cfg, cfgs),
        }
    }

    /// The first field that the statement speaks of, reading from the left.
    pub fn culprit(&self) -> (res: Option<Reference>)
        ensures
            match res {
                Some(r) => first_field(*self) == Some(r@),
                None => first_field(*self) is None,
            },
        decreases self,
    {
        match self {
            Condition::Always => None,
            Condition::Exists(r) => Some(r.clone()),
            Condition::Equals(a, b) => match a {
                Term::Field(r) => Some(r.clone()),
                _ => match b {
                    Term::Field(r) => Some(r.clone()),
                    _ => None,
                },
            },
            Condition::Not(inner) => inner.culprit(),
            Condition::And(a, b) => match a.culprit() {
                Some(r) => Some(r),
                None => b.culprit(),
            },
            Condition::Or(a, b) => match a.culprit() {
                Some(r) => Some(r),
                None => b.culprit(),
            },
        }
    }
}

impl ConfigRuleEntry {
    /// Checks the rule against this application's configuration `cfg` and the
    /// table `cfgs` of configurations by application name. Nothing is changed.
    pub fn check(&self, cfg: &Config, cfgs: &ConfigMap) -> (res: Result<(), RuleViolation>)
        ensures
            verdict(res) == rule_verdict(*self, cfg@, cfgs@),
    {
        if self.rule.condition.evaluate(cfg, cfgs) && !self.rule.consequence.evaluate(cfg, cfgs) {
            Err(
                RuleViolation {
                    description: self.description.clone(),
                    culprit: self.rule.consequence.culprit(),
                },
            )
        } else {
            Ok(())
        }
    }
}

/// Checks the rules in declaration order and reports the first violation.
pub fn check_rules(rules: &Vec<ConfigRuleEntry>, cfg: &Config, cfgs: &ConfigMap) -> (res: Result<
    (),
    RuleViolation,
>)
    ensures
        verdict(res) == rules_verdict(rules@, 0, cfg@, cfgs@),
{
    let mut i: usize = 0;
    while i < rules.len()
        invariant
            i <= rules.len(),
            rules_verdict(rules@, 0, cfg@, cfgs@) == rules_verdict(rules@, i as int, cfg@, cfgs@),
        decreases rules.len() - i,
    {
        match rules[i].check(cfg, cfgs) {
            Ok(_) => {},
            Err(e) => {
                return Err(e);
            },
        }
        i += 1;
    }
    Ok(())
}

} // verus!
