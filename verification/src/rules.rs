//! The matching rules and generators that are collected while a message is built, and how an
//! interaction lists them.
use crate::matching::{
    defined_values, has_values, rule_values, says_values, texts_of, NamedValues, NamedValuesView,
};
use crate::text::text_less;
use crate::text_map::{lookup, lookup_in_ordered, lookup_is_first, TextMap};
use vstd::prelude::*;

verus! {

/// A matching rule, with the definition that it stands in and its place there.
#[derive(Debug)]
pub struct CollectedRule {
    pub name: String,
    pub definition: String,
    pub index: usize,
}

/// The model of a [`CollectedRule`].
pub struct CollectedRuleView {
    pub name: Seq<char>,
    pub definition: Seq<char>,
    pub index: int,
}

/// Matching rules and generators by the paths of the values that they apply to.
#[derive(Debug)]
pub struct Collected {
    pub rules: TextMap<Vec<CollectedRule>>,
    pub generators: TextMap<NamedValues>,
}

/// The model of [`Collected`].
#[verifier::ext_equal]
pub struct CollectedView {
    pub rules: Map<Seq<char>, Seq<CollectedRuleView>>,
    pub generators: Map<Seq<char>, NamedValuesView>,
}

/// A matching rule or a generator of an interaction. One without values has none, not an empty map.
#[derive(Debug)]
pub struct ListedRule {
    pub name: String,
    pub values: Option<TextMap<String>>,
}

/// The model of a [`ListedRule`].
pub struct ListedRuleView {
    pub name: Seq<char>,
    pub values: Option<Map<Seq<char>, Seq<char>>>,
}

impl View for CollectedRule {
    type V = CollectedRuleView;

    open spec fn view(&self) -> CollectedRuleView {
        CollectedRuleView {
            name: self.name@,
            definition: self.definition@,
            index: self.index as int,
        }
    }
}

/// The models of a list of rules.
pub open spec fn rule_views(rules: Vec<CollectedRule>) -> Seq<CollectedRuleView> {
    rules@.map_values(|rule: CollectedRule| rule@)
}

impl View for Collected {
    type V = CollectedView;

    open spec fn view(&self) -> CollectedView {
        CollectedView {
            rules: self.rules@.map_values(|rules: Vec<CollectedRule>| rule_views(rules)),
            generators: self.generators@.map_values(|generator: NamedValues| generator@),
        }
    }
}

impl ListedRule {
    /// Whether the values have their keys in ascending order, each once.
    pub open spec fn well_formed(self) -> bool {
        self.values matches Some(values) ==> values.ordered()
    }
}

/// Whether the values of every rule of a list are ordered.
pub open spec fn are_well_formed(rules: Vec<ListedRule>) -> bool {
    forall|i: int| 0 <= i < rules@.len() ==> (#[trigger] rules@[i]).well_formed()
}

impl View for ListedRule {
    type V = ListedRuleView;

    open spec fn view(&self) -> ListedRuleView {
        ListedRuleView {
            name: self.name@,
            values: match self.values {
                Some(values) => Some(texts_of(values)),
                None => None,
            },
        }
    }
}

/// The rules for a path, in the order in which they were added.
pub open spec fn rules_at(collected: CollectedView, path: Seq<char>) -> Seq<CollectedRuleView> {
    if collected.rules.contains_key(path) {
        collected.rules[path]
    } else {
        Seq::empty()
    }
}

/// One more rule for a path.
pub open spec fn with_rule(
    collected: CollectedView,
    path: Seq<char>,
    rule: CollectedRuleView,
) -> CollectedView {
    CollectedView {
        rules: collected.rules.insert(path, rules_at(collected, path).push(rule)),
        generators: collected.generators,
    }
}

/// The generator for a path, in place of any that it had.
pub open spec fn with_generator(
    collected: CollectedView,
    path: Seq<char>,
    generator: NamedValuesView,
) -> CollectedView {
    CollectedView {
        rules: collected.rules,
        generators: collected.generators.insert(path, generator),
    }
}

/// No rules and no generators.
pub open spec fn nothing_collected() -> CollectedView {
    CollectedView { rules: Map::empty(), generators: Map::empty() }
}

/// Whether every rule of a list can say its values.
pub open spec fn list_resolves(rules: Seq<CollectedRuleView>) -> bool {
    forall|i: int|
        0 <= i < rules.len() ==> has_values(
            (#[trigger] rules[i]).definition,
            rules[i].index,
        )
}

/// Whether every rule can say its values.
pub open spec fn rules_resolve(collected: CollectedView) -> bool {
    forall|path: Seq<char>| #[trigger]
        collected.rules.contains_key(path) ==> list_resolves(collected.rules[path])
}

/// Values, or nothing where there are none.
pub open spec fn some_values(values: Map<Seq<char>, Seq<char>>) -> Option<
    Map<Seq<char>, Seq<char>>,
> {
    if values == Map::<Seq<char>, Seq<char>>::empty() {
        None
    } else {
        Some(values)
    }
}

/// How an interaction lists a rule.
pub open spec fn listed_rule(rule: CollectedRuleView) -> ListedRuleView {
    ListedRuleView {
        name: rule.name,
        values: some_values(defined_values(rule.definition, rule.index)),
    }
}

/// How an interaction lists the rules of a path.
pub open spec fn listed_rules(rules: Seq<CollectedRuleView>) -> Seq<ListedRuleView> {
    rules.map_values(|rule: CollectedRuleView| listed_rule(rule))
}

/// How an interaction lists a generator.
pub open spec fn listed_generator(generator: NamedValuesView) -> ListedRuleView {
    ListedRuleView { name: generator.name, values: some_values(generator.values) }
}

/// The models of the rules that an interaction lists for a path.
pub open spec fn listed_views(rules: Vec<ListedRule>) -> Seq<ListedRuleView> {
    rules@.map_values(|rule: ListedRule| rule@)
}

/// Two lists of entries with the same keys in the same order find a key at the same place.
proof fn same_keys_same_place<A, B>(
    first: Seq<(String, A)>,
    second: Seq<(String, B)>,
    key: Seq<char>,
) -> (i: int)
    requires
        first.len() == second.len(),
        forall|j: int| 0 <= j < first.len() ==> (#[trigger] first[j]).0@ == second[j].0@,
    ensures
        (lookup(first, key) is Some) == (lookup(second, key) is Some),
        lookup(first, key) is Some ==> {
            &&& 0 <= i < first.len()
            &&& lookup(first, key) == Some(first[i].1)
            &&& lookup(second, key) == Some(second[i].1)
        },
{
    let i = lookup_is_first(first, key);
    let k = lookup_is_first(second, key);
    if lookup(first, key) is Some {
        assert(first[i].0@ == second[i].0@);
    }
    if lookup(second, key) is Some {
        assert(first[k].0@ == second[k].0@);
    }
    if lookup(first, key) is Some && lookup(second, key) is Some {
        if i < k {
            assert(second[i].0@ != key);
        } else if k < i {
            assert(first[k].0@ != key);
        }
    }
    i
}

/// A map of texts is empty where it has no entries, and only there.
proof fn empty_texts(map: TextMap<String>)
    ensures
        (texts_of(map) == Map::<Seq<char>, Seq<char>>::empty()) == (map.entries@.len() == 0),
{
    if map.entries@.len() == 0 {
        assert(texts_of(map) =~= Map::<Seq<char>, Seq<char>>::empty());
    } else {
        let key = map.entries@[0].0@;
        assert(lookup(map.entries@, key) is Some);
        assert(texts_of(map).contains_key(key));
    }
}

/// The texts of a map with their keys in ascending order, each once.
pub fn texts_in_order(map: &TextMap<String>) -> (copy: TextMap<String>)
    ensures
        copy.ordered(),
        texts_of(copy) == texts_of(*map),
{
    let ghost entries = map.entries@;
    let mut copy: TextMap<String> = TextMap::new();
    let mut i: usize = map.entries.len();
    assert(entries.skip(i as int) =~= Seq::empty());
    while i > 0
        invariant
            i <= entries.len(),
            entries == map.entries@,
            copy.ordered(),
            forall|key: Seq<char>| #[trigger]
                lookup(copy.entries@, key) == lookup(entries.skip(i as int), key),
        decreases i,
    {
        let ghost before = copy;
        let ghost rest = entries.skip(i as int);
        i -= 1;
        let (key, text) = &map.entries[i];
        copy.insert(key.clone(), text.clone());
        proof {
            assert(entries.skip(i as int).drop_first() =~= rest);
            assert forall|k: Seq<char>| #[trigger]
                lookup(copy.entries@, k) == lookup(entries.skip(i as int), k) by {
                assert(lookup(before.entries@, k) == lookup(rest, k));
                assert(copy@.dom().contains(k) == (k == key@ || before@.dom().contains(k)));
                if copy@.dom().contains(k) {
                    assert(copy@[k] == if k == key@ {
                        *text
                    } else {
                        before@[k]
                    });
                }
            }
        }
    }
    proof {
        assert(entries.skip(0) =~= entries);
        assert forall|k: Seq<char>| #[trigger]
            texts_of(copy).dom().contains(k) == texts_of(*map).dom().contains(k) && (texts_of(
                copy,
            ).dom().contains(k) ==> texts_of(copy)[k] == texts_of(*map)[k]) by {
            assert(lookup(copy.entries@, k) == lookup(entries.skip(0), k));
        }
        assert(texts_of(copy) =~= texts_of(*map));
    }
    copy
}

/// Values with their keys in ascending order, or nothing where there are none.
pub fn values_or_none(values: &TextMap<String>) -> (some: Option<TextMap<String>>)
    ensures
        match some {
            Some(v) => some_values(texts_of(*values)) == Some(texts_of(v)) && v.ordered(),
            None => some_values(texts_of(*values)) is None,
        },
{
    proof {
        empty_texts(*values);
    }
    if values.entries.len() == 0 {
        None
    } else {
        Some(texts_in_order(values))
    }
}

/// How an interaction lists a rule.
fn list_rule(rule: &CollectedRule) -> (listed: ListedRule)
    requires
        has_values(rule@.definition, rule@.index),
    ensures
        listed@ == listed_rule(rule@),
        listed.well_formed(),
{
    let values = values_or_none(&rule_values(rule.definition.as_str(), rule.index));
    ListedRule { name: rule.name.clone(), values }
}

/// How an interaction lists the rules of a path.
fn list_rules(rules: &Vec<CollectedRule>) -> (listed: Vec<ListedRule>)
    requires
        list_resolves(rule_views(*rules)),
    ensures
        listed_views(listed) == listed_rules(rule_views(*rules)),
        are_well_formed(listed),
{
    let mut listed: Vec<ListedRule> = Vec::new();
    let mut i: usize = 0;
    while i < rules.len()
        invariant
            i <= rules@.len(),
            list_resolves(rule_views(*rules)),
            listed@.len() == i,
            forall|j: int|
                0 <= j < i ==> (#[trigger] listed@[j])@ == listed_rule(rules@[j]@)
                    && listed@[j].well_formed(),
        decreases rules.len() - i,
    {
        assert(rule_views(*rules)[i as int] == rules@[i as int]@);
        listed.push(list_rule(&rules[i]));
        i += 1;
    }
    assert(listed_views(listed) =~= listed_rules(rule_views(*rules)));
    listed
}

/// How an interaction lists a generator.
fn list_generator(generator: &NamedValues) -> (listed: ListedRule)
    ensures
        listed@ == listed_generator(generator@),
        listed.well_formed(),
{
    let values = values_or_none(&generator.values);
    ListedRule { name: generator.name.clone(), values }
}

impl Collected {
    /// Whether the maps are ordered.
    pub open spec fn well_formed(self) -> bool {
        self.rules.ordered() && self.generators.ordered()
    }

    /// No rules and no generators.
    pub fn new() -> (collected: Collected)
        ensures
            collected.well_formed(),
            collected@ == nothing_collected(),
    {
        let collected = Collected { rules: TextMap::new(), generators: TextMap::new() };
        assert(collected@ =~= nothing_collected());
        collected
    }

    /// Adds a rule for the values at a path.
    pub fn add_rule(&mut self, path: &str, rule: CollectedRule)
        requires
            old(self).well_formed(),
        ensures
            final(self).well_formed(),
            final(self)@ == with_rule(old(self)@, path@, rule@),
    {
        let ghost before = self.rules@;
        let mut list = match self.rules.remove(path) {
            Some(list) => list,
            None => Vec::new(),
        };
        let ghost added = rule@;
        list.push(rule);
        let ghost longer = list;
        self.rules.insert(path.to_owned(), list);
        proof {
            assert(self.rules@ =~= before.insert(path@, longer));
            assert(rule_views(longer) =~= rules_at(old(self)@, path@).push(added));
            assert(self@ =~= with_rule(old(self)@, path@, added));
        }
    }

    /// Gives the values at a path a generator, in place of any that they had.
    pub fn add_generator(&mut self, path: &str, generator: NamedValues)
        requires
            old(self).well_formed(),
        ensures
            final(self).well_formed(),
            final(self)@ == with_generator(old(self)@, path@, generator@),
    {
        let ghost added = generator@;
        self.generators.insert(path.to_owned(), generator);
        assert(self@ =~= with_generator(old(self)@, path@, added));
    }

    /// Whether every rule can say its values.
    pub fn all_resolve(&self) -> (resolve: bool)
        requires
            self.well_formed(),
        ensures
            resolve == rules_resolve(self@),
    {
        let ghost entries = self.rules.entries@;
        let mut i: usize = 0;
        while i < self.rules.entries.len()
            invariant
                i <= entries.len(),
                entries == self.rules.entries@,
                self.well_formed(),
                forall|k: int| 0 <= k < i ==> list_resolves(rule_views((#[trigger] entries[k]).1)),
            decreases self.rules.entries.len() - i,
        {
            let list = &self.rules.entries[i].1;
            let ghost path = entries[i as int].0@;
            proof {
                lookup_in_ordered(entries, i as int);
                assert(self.rules@.contains_key(path) && self.rules@[path] == *list);
                assert(self@.rules.contains_key(path) && self@.rules[path] == rule_views(*list));
            }
            let mut j: usize = 0;
            while j < list.len()
                invariant
                    j <= list@.len(),
                    self@.rules.contains_key(path) && self@.rules[path] == rule_views(*list),
                    forall|k: int|
                        0 <= k < j ==> has_values(
                            (#[trigger] rule_views(*list)[k]).definition,
                            rule_views(*list)[k].index,
                        ),
                decreases list.len() - j,
            {
                assert(rule_views(*list)[j as int] == list@[j as int]@);
                if !says_values(list[j].definition.as_str(), list[j].index) {
                    assert(!list_resolves(self@.rules[path]));
                    return false;
                }
                j += 1;
            }
            i += 1;
        }
        proof {
            assert forall|path: Seq<char>| #[trigger]
                self@.rules.contains_key(path) implies list_resolves(self@.rules[path]) by {
                assert(self.rules@.contains_key(path));
                let at = lookup_is_first(entries, path);
                assert(entries[at].0@ == path);
            }
        }
        true
    }

    /// The rules as an interaction lists them, by their paths.
    pub fn listed_rules(&self) -> (listed: TextMap<Vec<ListedRule>>)
        requires
            self.well_formed(),
            rules_resolve(self@),
        ensures
            listed.ordered(),
            forall|i: int|
                0 <= i < listed.entries@.len() ==> are_well_formed(
                    (#[trigger] listed.entries@[i]).1,
                ),
            listed@.map_values(|rules: Vec<ListedRule>| listed_views(rules))
                == self@.rules.map_values(|rules: Seq<CollectedRuleView>| listed_rules(rules)),
    {
        let ghost entries = self.rules.entries@;
        let mut listed: TextMap<Vec<ListedRule>> = TextMap { entries: Vec::new() };
        let mut i: usize = 0;
        while i < self.rules.entries.len()
            invariant
                i <= entries.len(),
                entries == self.rules.entries@,
                self.well_formed(),
                rules_resolve(self@),
                listed.entries@.len() == i,
                forall|k: int|
                    0 <= k < i ==> (#[trigger] listed.entries@[k]).0@ == entries[k].0@
                        && listed_views(listed.entries@[k].1) == listed_rules(
                        rule_views(entries[k].1),
                    ) && are_well_formed(listed.entries@[k].1),
            decreases self.rules.entries.len() - i,
        {
            let (path, list) = &self.rules.entries[i];
            proof {
                lookup_in_ordered(entries, i as int);
                assert(self.rules@.contains_key(path@) && self.rules@[path@] == *list);
                assert(self@.rules.contains_key(path@) && self@.rules[path@] == rule_views(*list));
            }
            listed.entries.push((path.clone(), list_rules(list)));
            i += 1;
        }
        proof {
            let after = listed.entries@;
            assert forall|a: int, b: int| 0 <= a < b < after.len() implies text_less(
                (#[trigger] after[a]).0@,
                (#[trigger] after[b]).0@,
            ) by {
                assert(text_less(entries[a].0@, entries[b].0@));
            }
            let left = listed@.map_values(|rules: Vec<ListedRule>| listed_views(rules));
            let right = self@.rules.map_values(|rules: Seq<CollectedRuleView>| listed_rules(rules));
            assert forall|path: Seq<char>|
                #![trigger left.dom().contains(path)]
                #![trigger right.dom().contains(path)]
                {
                    &&& left.dom().contains(path) == right.dom().contains(path)
                    &&& left.dom().contains(path) ==> left[path] == right[path]
                } by {
                let at = same_keys_same_place(after, entries, path);
            }
            assert(left =~= right);
        }
        listed
    }

    /// The generators as an interaction lists them, by their paths.
    pub fn listed_generators(&self) -> (listed: TextMap<ListedRule>)
        requires
            self.well_formed(),
        ensures
            listed.ordered(),
            forall|i: int|
                0 <= i < listed.entries@.len() ==> (#[trigger] listed.entries@[i]).1.well_formed(),
            listed@.map_values(|generator: ListedRule| generator@)
                == self@.generators.map_values(
                |generator: NamedValuesView| listed_generator(generator),
            ),
    {
        let ghost entries = self.generators.entries@;
        let mut listed: TextMap<ListedRule> = TextMap { entries: Vec::new() };
        let mut i: usize = 0;
        while i < self.generators.entries.len()
            invariant
                i <= entries.len(),
                entries == self.generators.entries@,
                listed.entries@.len() == i,
                forall|k: int|
                    0 <= k < i ==> (#[trigger] listed.entries@[k]).0@ == entries[k].0@
                        && listed.entries@[k].1@ == listed_generator(entries[k].1@)
                        && listed.entries@[k].1.well_formed(),
            decreases self.generators.entries.len() - i,
        {
            let (path, generator) = &self.generators.entries[i];
            listed.entries.push((path.clone(), list_generator(generator)));
            i += 1;
        }
        proof {
            let after = listed.entries@;
            assert forall|a: int, b: int| 0 <= a < b < after.len() implies text_less(
                (#[trigger] after[a]).0@,
                (#[trigger] after[b]).0@,
            ) by {
                assert(text_less(entries[a].0@, entries[b].0@));
            }
            let left = listed@.map_values(|generator: ListedRule| generator@);
            let right = self@.generators.map_values(
                |generator: NamedValuesView| listed_generator(generator),
            );
            assert forall|path: Seq<char>|
                #![trigger left.dom().contains(path)]
                #![trigger right.dom().contains(path)]
                {
                    &&& left.dom().contains(path) == right.dom().contains(path)
                    &&& left.dom().contains(path) ==> left[path] == right[path]
                } by {
                let at = same_keys_same_place(after, entries, path);
            }
            assert(left =~= right);
        }
        listed
    }
}

} // verus!
