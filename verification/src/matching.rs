//! Matching rule definitions, such as `matching(type, 'Name')`, as the `pact_models` crate reads
//! them, and the rules that are collected from them.
use crate::text_map::TextMap;
use itertools::Either;
use pact_models::matchingrules::expressions;
use pact_models::matchingrules::expressions::MatchingRuleDefinition;
use pact_models::matchingrules::MatchingRule;
use vstd::prelude::*;

verus! {

/// What a name and some named values are called by and made of. The values are held as JSON texts.
#[derive(Debug)]
pub struct NamedValues {
    pub name: String,
    pub values: TextMap<String>,
}

/// One rule of a definition.
#[derive(Debug)]
pub enum DefinedRule {
    /// A rule. One for the keys or the values of a collection is made of other rules.
    Rule { name: String, parts: Vec<DefinedRule> },
    /// A reference to an attribute that holds the rules.
    Reference(String),
}

/// A matching rule definition: an example value, matching rules, and perhaps a generator.
#[derive(Debug)]
pub struct Definition {
    pub value: String,
    pub rules: Vec<DefinedRule>,
    pub generator: Option<NamedValues>,
}

/// The model of [`NamedValues`].
pub struct NamedValuesView {
    pub name: Seq<char>,
    pub values: Map<Seq<char>, Seq<char>>,
}

/// The model of a [`DefinedRule`].
pub enum DefinedRuleView {
    Rule { name: Seq<char>, parts: Seq<DefinedRuleView> },
    Reference(Seq<char>),
}

/// The model of a [`Definition`].
pub struct DefinitionView {
    pub value: Seq<char>,
    pub rules: Seq<DefinedRuleView>,
    pub generator: Option<NamedValuesView>,
}

/// The texts of a map.
pub open spec fn texts_of(map: TextMap<String>) -> Map<Seq<char>, Seq<char>> {
    map@.map_values(|text: String| text@)
}

impl View for NamedValues {
    type V = NamedValuesView;

    open spec fn view(&self) -> NamedValuesView {
        NamedValuesView { name: self.name@, values: texts_of(self.values) }
    }
}

impl View for DefinedRule {
    type V = DefinedRuleView;

    open spec fn view(&self) -> DefinedRuleView
        decreases self,
    {
        match self {
            DefinedRule::Rule { name, parts } => DefinedRuleView::Rule {
                name: name@,
                parts: defined_rules(parts@),
            },
            DefinedRule::Reference(name) => DefinedRuleView::Reference(name@),
        }
    }
}

/// The models of rules.
pub open spec fn defined_rules(rules: Seq<DefinedRule>) -> Seq<DefinedRuleView>
    decreases rules,
{
    Seq::new(
        rules.len(),
        |i: int|
            if 0 <= i < rules.len() {
                rules[i].view()
            } else {
                arbitrary()
            },
    )
}

impl View for Definition {
    type V = DefinitionView;

    open spec fn view(&self) -> DefinitionView {
        DefinitionView {
            value: self.value@,
            rules: defined_rules(self.rules@),
            generator: match self.generator {
                Some(generator) => Some(generator@),
                None => None,
            },
        }
    }
}

/// A matching rule definition as the `pact_models` crate holds it.
#[verifier::external_type_specification]
#[verifier::external_body]
pub struct ExMatchingRuleDefinition(
    pact_models::matchingrules::expressions::MatchingRuleDefinition,
);

/// What `pact_models::matchingrules::expressions::parse_matcher_def` makes of a text: the
/// definition, or the report of what is wrong with it.
pub uninterp spec fn parsed_definition(text: Seq<char>) -> Result<DefinitionView, Seq<char>>;

/// What `pact_models::matchingrules::MatchingRule::values` gives for the rule at `index` of the
/// definition that `text` stands for.
pub uninterp spec fn defined_values(text: Seq<char>, index: int) -> Map<Seq<char>, Seq<char>>;

/// How `pact_models::matchingrules::expressions::MatchingReference` prints for debugging.
pub uninterp spec fn reference_text(name: Seq<char>) -> Seq<char>;

/// The rules of a `pact_models::matchingrules::expressions::MatchingRuleDefinition`, one for one.
/// Rules are read by `MatchingRule::name`; those for the keys or the values of a collection hold a
/// definition of their own, whose rules are their parts. Nothing is claimed of the rules here; they
/// are part of what `parse_matcher_def` gives.
#[verifier::external_body]
fn read_rules(definition: &MatchingRuleDefinition) -> Vec<DefinedRule> {
    definition.rules.iter().map(|rule| match rule {
        Either::Left(rule) => {
            let parts = match rule {
                MatchingRule::EachKey(inner) => read_rules(inner),
                MatchingRule::EachValue(inner) => read_rules(inner),
                _ => Vec::new(),
            };
            DefinedRule::Rule { name: rule.name(), parts }
        },
        Either::Right(reference) => DefinedRule::Reference(reference.name.clone()),
    }).collect()
}

/// `pact_models::matchingrules::expressions::parse_matcher_def`. What it gives depends on nothing
/// but the text. Generators are read by `Generator::name` and `Generator::values`.
#[verifier::external_body]
pub(crate) fn parse_matcher_def(text: &str) -> (definition: Result<Definition, String>)
    ensures
        match definition {
            Ok(d) => parsed_definition(text@) == Ok::<DefinitionView, Seq<char>>(d@),
            Err(report) => parsed_definition(text@) == Err::<DefinitionView, Seq<char>>(report@),
        },
{
    let parsed = expressions::parse_matcher_def(text).map_err(|err| err.to_string())?;
    Ok(Definition {
        rules: read_rules(&parsed),
        value: parsed.value,
        generator: parsed.generator.map(|generator| NamedValues {
            name: generator.name(),
            values: TextMap {
                entries: generator.values().iter().map(|(k, v)| (k.to_string(), v.to_string())).collect(),
            },
        }),
    })
}

/// Whether there is no reference in a rule, at any depth.
pub open spec fn resolves(rule: DefinedRuleView) -> bool
    decreases rule,
{
    match rule {
        DefinedRuleView::Rule { name, parts } => all_resolve(parts),
        DefinedRuleView::Reference(_) => false,
    }
}

/// Whether there is no reference among some rules, at any depth.
pub open spec fn all_resolve(rules: Seq<DefinedRuleView>) -> bool
    decreases rules,
{
    forall|i: int| 0 <= i < rules.len() ==> resolves(#[trigger] rules[i])
}

/// Whether there is no reference in a rule, at any depth.
pub fn rule_resolves(rule: &DefinedRule) -> (resolved: bool)
    ensures
        resolved == resolves(rule@),
    decreases rule,
{
    match rule {
        DefinedRule::Reference(_) => false,
        DefinedRule::Rule { name: _, parts } => {
            let ghost models = defined_rules(parts@);
            let mut i: usize = 0;
            while i < parts.len()
                invariant
                    i <= parts@.len(),
                    models == defined_rules(parts@),
                    rule matches DefinedRule::Rule { name: _, parts: p } && p == *parts,
                    forall|j: int| 0 <= j < i ==> resolves(#[trigger] models[j]),
                decreases parts.len() - i,
            {
                proof {
                    assert(models[i as int] == parts@[i as int]@);
                    assert(decreases_to!(*rule => parts@[i as int]));
                }
                if !rule_resolves(&parts[i]) {
                    assert(!all_resolve(models));
                    return false;
                }
                i += 1;
            }
            true
        },
    }
}

/// Whether the rule at `index` of the definition that `text` stands for can say its values: one
/// that is a reference, or has one in it, cannot.
pub open spec fn has_values(text: Seq<char>, index: int) -> bool {
    match parsed_definition(text) {
        Ok(definition) => 0 <= index < definition.rules.len() && resolves(definition.rules[index]),
        Err(_) => false,
    }
}

/// Whether the rule at `index` of the definition that `text` stands for can say its values.
pub fn says_values(text: &str, index: usize) -> (says: bool)
    ensures
        says == has_values(text@, index as int),
{
    match parse_matcher_def(text) {
        Ok(definition) => {
            if index < definition.rules.len() {
                assert(definition@.rules[index as int] == definition.rules@[index as int]@);
                rule_resolves(&definition.rules[index])
            } else {
                false
            }
        },
        Err(_) => false,
    }
}

/// `pact_models::matchingrules::MatchingRule::values` on the rule at `index` of the definition that
/// `text` stands for, which `parse_matcher_def` reads. The values come in no particular order; each
/// depends on nothing but the text and the index.
#[verifier::external_body]
pub(crate) fn rule_values(text: &str, index: usize) -> (values: TextMap<String>)
    requires
        has_values(text@, index as int),
    ensures
        texts_of(values) == defined_values(text@, index as int),
{
    let rules = expressions::parse_matcher_def(text).map(|parsed| parsed.rules).unwrap_or_default();
    let values = match rules.get(index) {
        Some(Either::Left(rule)) => rule.values(),
        _ => Default::default(),
    };
    TextMap { entries: values.iter().map(|(k, v)| (k.to_string(), v.to_string())).collect() }
}

/// The debug form of `pact_models::matchingrules::expressions::MatchingReference`.
#[verifier::external_body]
pub(crate) fn print_reference(name: &str) -> (text: String)
    ensures
        text@ == reference_text(name@),
{
    format!("{:?}", expressions::MatchingReference { name: name.to_string() })
}

} // verus!
