//! Mutation rules: the categories, the rules of each, and the search for
//! the first rule that applies to a piece of text.

use crate::text::{contains_chars, contains_sub, to_chars};
use vstd::prelude::*;

verus! {

/// A semantic grouping of mutation rules.
#[derive(Debug, Copy, Clone, PartialEq, Eq, Structural, PartialOrd, Ord)]
pub enum MutationType {
    /// Arithmetic operators.
    MathOps,
    /// Conjunctions in boolean expressions.
    Conjunctions,
    /// Boolean literals.
    Booleans,
    /// Control-flow keywords.
    ControlFlow,
    /// Comparison operators.
    CompOps,
    /// Digit literals (off-by-one faults).
    Numbers,
}

/// A rule as a pair of character sequences: the trigger and what replaces it.
pub type Rule = (Seq<char>, Seq<char>);

/// The rules of one category, in their declared order.
pub open spec fn category_rules(t: MutationType) -> Seq<Rule> {
    match t {
        MutationType::MathOps => seq![
            (" + "@, " - "@),
            (" - "@, " + "@),
            (" * "@, " / "@),
            (" / "@, " * "@),
        ],
        MutationType::Conjunctions => seq![(" and "@, " or "@), (" or "@, " and "@)],
        MutationType::Booleans => seq![(" True "@, " False "@), (" False "@, " True "@)],
        MutationType::ControlFlow => seq![
            (" else: "@, " elif False: "@),
            (" if not "@, " if "@),
            (" if "@, " if not "@),
        ],
        MutationType::CompOps => seq![
            (" > "@, " < "@),
            (" < "@, " > "@),
            ("=="@, "!="@),
            ("!="@, "=="@),
        ],
        MutationType::Numbers => seq![
            ("0"@, "1"@),
            ("1"@, "2"@),
            ("2"@, "3"@),
            ("3"@, "4"@),
            ("4"@, "5"@),
            ("5"@, "6"@),
            ("6"@, "7"@),
            ("7"@, "8"@),
            ("8"@, "9"@),
            ("9"@, "10"@),
        ],
    }
}

/// The rules of `t` where `types` enables it, none otherwise.
pub open spec fn enabled_rules(types: Seq<MutationType>, t: MutationType) -> Seq<Rule> {
    if types.contains(t) {
        category_rules(t)
    } else {
        Seq::empty()
    }
}

/// The active rule set: the rules of every enabled category, each category
/// once, in the order in which the categories are declared.
pub open spec fn active_rules(types: Seq<MutationType>) -> Seq<Rule> {
    enabled_rules(types, MutationType::MathOps) + enabled_rules(types, MutationType::Conjunctions)
        + enabled_rules(types, MutationType::Booleans) + enabled_rules(
        types,
        MutationType::ControlFlow,
    ) + enabled_rules(types, MutationType::CompOps) + enabled_rules(types, MutationType::Numbers)
}

/// The least index at or after `from` of a rule whose trigger occurs in
/// `visible`.
pub open spec fn first_rule_from(visible: Seq<char>, rules: Seq<Rule>, from: int) -> Option<int>
    decreases rules.len() - from,
{
    if from < 0 || from >= rules.len() {
        None
    } else if contains_sub(visible, rules[from].0) {
        Some(from)
    } else {
        first_rule_from(visible, rules, from + 1)
    }
}

/// The rule that applies to `visible`: the first, in the order of `rules`,
/// whose trigger occurs in it.
pub open spec fn matched_rule(visible: Seq<char>, rules: Seq<Rule>) -> Option<Rule> {
    match first_rule_from(visible, rules, 0) {
        Some(i) => Some(rules[i]),
        None => None,
    }
}

/// What `first_rule_from` returns is the index of a rule that applies, and
/// no rule between `from` and it applies.
pub proof fn lemma_first_rule_from(visible: Seq<char>, rules: Seq<Rule>, from: int)
    requires
        0 <= from,
    ensures
        match first_rule_from(visible, rules, from) {
            Some(i) => from <= i < rules.len() && contains_sub(visible, rules[i].0) && forall|
                j: int,
            |
                from <= j < i ==> !contains_sub(visible, #[trigger] rules[j].0),
            None => forall|j: int|
                from <= j < rules.len() ==> !contains_sub(visible, #[trigger] rules[j].0),
        },
    decreases rules.len() - from,
{
    if from < rules.len() && !contains_sub(visible, rules[from].0) {
        lemma_first_rule_from(visible, rules, from + 1);
    }
}

/// Where two rules apply to the same text, the earlier one is the match:
/// the later one is matched only if it is the same pair.
pub proof fn lemma_first_match_wins(visible: Seq<char>, rules: Seq<Rule>, i: int, j: int)
    requires
        0 <= i < j < rules.len(),
        contains_sub(visible, rules[i].0),
    ensures
        first_rule_from(visible, rules, 0) is Some,
        first_rule_from(visible, rules, 0)->0 <= i,
        first_rule_from(visible, rules, 0) != Some(j),
{
    lemma_first_rule_from(visible, rules, 0);
}

fn has_type(types: &[MutationType], t: MutationType) -> (r: bool)
    ensures
        r == types@.contains(t),
{
    let mut k: usize = 0;
    while k < types.len()
        invariant
            k <= types.len(),
            forall|j: int| 0 <= j < k ==> types@[j] != t,
        decreases types.len() - k,
    {
        if types[k] == t {
            return true;
        }
        k += 1;
    }
    false
}

fn push_rule(rules: &mut Vec<(String, String)>, before: &str, after: &str)
    ensures
        final(rules).deep_view() == old(rules).deep_view().push((before@, after@)),
{
    rules.push((String::from_str(before), String::from_str(after)));
}

fn append_category(rules: &mut Vec<(String, String)>, t: MutationType)
    ensures
        final(rules).deep_view() == old(rules).deep_view() + category_rules(t),
{
    match t {
        MutationType::MathOps => {
            push_rule(rules, " + ", " - ");
            push_rule(rules, " - ", " + ");
            push_rule(rules, " * ", " / ");
            push_rule(rules, " / ", " * ");
        },
        MutationType::Conjunctions => {
            push_rule(rules, " and ", " or ");
            push_rule(rules, " or ", " and ");
        },
        MutationType::Booleans => {
            push_rule(rules, " True ", " False ");
            push_rule(rules, " False ", " True ");
        },
        MutationType::ControlFlow => {
            push_rule(rules, " else: ", " elif False: ");
            push_rule(rules, " if not ", " if ");
            push_rule(rules, " if ", " if not ");
        },
        MutationType::CompOps => {
            push_rule(rules, " > ", " < ");
            push_rule(rules, " < ", " > ");
            push_rule(rules, "==", "!=");
            push_rule(rules, "!=", "==");
        },
        MutationType::Numbers => {
            push_rule(rules, "0", "1");
            push_rule(rules, "1", "2");
            push_rule(rules, "2", "3");
            push_rule(rules, "3", "4");
            push_rule(rules, "4", "5");
            push_rule(rules, "5", "6");
            push_rule(rules, "6", "7");
            push_rule(rules, "7", "8");
            push_rule(rules, "8", "9");
            push_rule(rules, "9", "10");
        },
    }
}

fn append_enabled(rules: &mut Vec<(String, String)>, types: &[MutationType], t: MutationType)
    ensures
        final(rules).deep_view() == old(rules).deep_view() + enabled_rules(types@, t),
{
    if has_type(types, t) {
        append_category(rules, t);
    }
}

/// The active rule set of the enabled categories.
pub fn build_replacements(mutation_types: &[MutationType]) -> (rules: Vec<(String, String)>)
    ensures
        rules.deep_view() == active_rules(mutation_types@),
{
    let mut rules: Vec<(String, String)> = Vec::new();
    append_enabled(&mut rules, mutation_types, MutationType::MathOps);
    append_enabled(&mut rules, mutation_types, MutationType::Conjunctions);
    append_enabled(&mut rules, mutation_types, MutationType::Booleans);
    append_enabled(&mut rules, mutation_types, MutationType::ControlFlow);
    append_enabled(&mut rules, mutation_types, MutationType::CompOps);
    append_enabled(&mut rules, mutation_types, MutationType::Numbers);
    rules
}

/// The first rule of `replacements` whose trigger occurs in `visible`, as
/// the text stands: nothing is stripped from it here.
pub fn first_rule_in(visible: &str, replacements: &[(String, String)]) -> (r: Option<
    (String, String),
>)
    ensures
        r.deep_view() == matched_rule(visible@, replacements.deep_view()),
{
    let hay = to_chars(visible);
    let mut k: usize = 0;
    while k < replacements.len()
        invariant
            k <= replacements.len(),
            hay@ == visible@,
            first_rule_from(visible@, replacements.deep_view(), 0) == first_rule_from(
                visible@,
                replacements.deep_view(),
                k as int,
            ),
        decreases replacements.len() - k,
    {
        let trigger = to_chars(replacements[k].0.as_str());
        if contains_chars(&hay, &trigger) {
            let found = (replacements[k].0.clone(), replacements[k].1.clone());
            return Some(found);
        }
        k += 1;
    }
    None
}

} // verus!
