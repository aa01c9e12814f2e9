//! Rules that find and mend known faults in the values of a table.

use crate::text::{contains, contains_seq, replace, replaced, str_eq};
use vstd::prelude::*;
use vstd::string::StringExecFns;

verus! {

/// What a rule does to a value that it applies to.
#[derive(Debug)]
pub enum FixAction {
    /// Every occurrence of the matcher is replaced.
    Replace { replacement: String },
    /// The value is left as it is.
    NoAction,
}

/// A rule: a text to look for, the column it is bound to, if any, and what to
/// do where the text is found.
#[derive(Debug)]
pub struct ValidationRule {
    pub matcher: String,
    pub key: Option<String>,
    pub fix_action: FixAction,
}

/// The content of a rule: the text it looks for, the column it is bound to,
/// and the replacement it makes, if it makes one.
pub struct RuleView {
    pub matcher: Seq<char>,
    pub bound: Option<Seq<char>>,
    pub replacement: Option<Seq<char>>,
}

impl View for ValidationRule {
    type V = RuleView;

    open spec fn view(&self) -> RuleView {
        RuleView {
            matcher: self.matcher@,
            bound: match self.key {
                Some(column) => Some(column@),
                None => None,
            },
            replacement: match self.fix_action {
                FixAction::Replace { replacement } => Some(replacement@),
                FixAction::NoAction => None,
            },
        }
    }
}

/// The contents of the rules.
pub open spec fn rule_views(rules: Seq<ValidationRule>) -> Seq<RuleView> {
    rules.map_values(|rule: ValidationRule| rule@)
}

/// Whether a rule applies to a value of a column: the value holds the
/// matcher, and the rule is bound to no column or to this one.
pub open spec fn rule_applies(rule: RuleView, value: Seq<char>, key: Seq<char>) -> bool {
    contains_seq(value, rule.matcher) && match rule.bound {
        Some(column) => key == column,
        None => true,
    }
}

/// The report of a rule that applies.
pub open spec fn rule_report(rule: RuleView) -> Seq<char> {
    "E: matches '"@ + rule.matcher + "'"@
}

/// What a rule makes of a value: every occurrence of the matcher replaced,
/// or the value as it is where the rule replaces nothing.
pub open spec fn rule_applied(rule: RuleView, value: Seq<char>) -> Seq<char> {
    match rule.replacement {
        Some(replacement) => replaced(value, rule.matcher, replacement),
        None => value,
    }
}

/// A rule that replaces `matcher` by `replacement` in every column.
pub open spec fn replacing_rule(matcher: Seq<char>, replacement: Seq<char>) -> RuleView {
    RuleView { matcher, bound: None, replacement: Some(replacement) }
}

/// The rules that every table is held to: a misspelt word, doubled spaces and
/// an abbreviation, each with its replacement.
pub open spec fn basic_rules() -> Seq<RuleView> {
    seq![
        replacing_rule("багажніка"@, "багажника"@),
        replacing_rule("  "@, " "@),
        replacing_rule("5дв."@, "5 дверей"@),
    ]
}

impl ValidationRule {
    /// Whether the rule applies to the value `other` of the column `key`.
    pub fn does_apply(&self, other: &str, key: &str) -> (r: bool)
        ensures
            r == rule_applies(self@, other@, key@),
    {
        let found = contains(other, self.matcher.as_str());
        let key_match = match &self.key {
            Some(column) => str_eq(key, column.as_str()),
            None => true,
        };
        found && key_match
    }

    /// The report of the rule where it applies.
    pub fn report(&self) -> (text: String)
        ensures
            text@ == rule_report(self@),
    {
        let mut text = String::from_str("E: matches '");
        text.append(self.matcher.as_str());
        text.append("'");
        text
    }

    /// The value after the rule has mended it.
    pub fn apply(&self, other: &str) -> (text: String)
        ensures
            text@ == rule_applied(self@, other@),
    {
        match &self.fix_action {
            FixAction::Replace { replacement } => replace(
                other,
                self.matcher.as_str(),
                replacement.as_str(),
            ),
            FixAction::NoAction => String::from_str(other),
        }
    }
}

/// A rule that replaces `matcher` by `replacement` in every column.
fn replacing(matcher: &str, replacement: &str) -> (rule: ValidationRule)
    ensures
        rule@ == replacing_rule(matcher@, replacement@),
{
    ValidationRule {
        matcher: String::from_str(matcher),
        key: None,
        fix_action: FixAction::Replace { replacement: String::from_str(replacement) },
    }
}

/// The rules that every table is held to.
pub fn make_basic_validation_rules() -> (rules: Vec<ValidationRule>)
    ensures
        rule_views(rules@) == basic_rules(),
{
    let mut rules: Vec<ValidationRule> = Vec::new();
    rules.push(replacing("багажніка", "багажника"));
    rules.push(replacing("  ", " "));
    rules.push(replacing("5дв.", "5 дверей"));
    assert(rule_views(rules@) =~= basic_rules());
    rules
}

} // verus!
