//! Configured interactions.
use crate::rules::{are_well_formed, listed_views, ListedRule, ListedRuleView};
use crate::text_map::TextMap;
use crate::value::{config_entries, ConfigValue, ConfigValueView};
use vstd::prelude::*;

verus! {

/// The hint that the contents of a body are binary.
pub const CONTENT_TYPE_HINT_BINARY: i32 = 2;

/// The format of the markup of interactions: CommonMark.
pub const MARKUP_COMMON_MARK: i32 = 0;

/// The contents of an interaction.
#[derive(Debug)]
pub struct Body {
    pub content_type: String,
    pub content: Option<Vec<u8>>,
    pub content_type_hint: i32,
}

/// The model of a [`Body`].
pub struct BodyView {
    pub content_type: Seq<char>,
    pub content: Option<Seq<u8>>,
    pub content_type_hint: i32,
}

/// What a plugin stores with an interaction, and with a whole pact file.
pub struct PluginConfiguration {
    pub interaction_configuration: Option<TextMap<ConfigValue>>,
    pub pact_configuration: Option<TextMap<ConfigValue>>,
}

/// The model of a [`PluginConfiguration`].
pub struct PluginConfigurationView {
    pub interaction_configuration: Option<Seq<(Seq<char>, ConfigValueView)>>,
    pub pact_configuration: Option<Seq<(Seq<char>, ConfigValueView)>>,
}

/// A configured interaction: its contents, its matching rules and generators by their paths, what
/// the plugin stores with it, and a text that shows it.
pub struct InteractionResponse {
    pub contents: Option<Body>,
    pub rules: TextMap<Vec<ListedRule>>,
    pub generators: TextMap<ListedRule>,
    pub plugin_configuration: Option<PluginConfiguration>,
    pub interaction_markup: String,
    pub interaction_markup_type: i32,
    pub part_name: String,
}

/// The model of an [`InteractionResponse`].
pub struct InteractionResponseView {
    pub contents: Option<BodyView>,
    pub rules: Map<Seq<char>, Seq<ListedRuleView>>,
    pub generators: Map<Seq<char>, ListedRuleView>,
    pub plugin_configuration: Option<PluginConfigurationView>,
    pub interaction_markup: Seq<char>,
    pub interaction_markup_type: i32,
    pub part_name: Seq<char>,
}

impl View for Body {
    type V = BodyView;

    open spec fn view(&self) -> BodyView {
        BodyView {
            content_type: self.content_type@,
            content: match self.content {
                Some(bytes) => Some(bytes@),
                None => None,
            },
            content_type_hint: self.content_type_hint,
        }
    }
}

impl View for PluginConfiguration {
    type V = PluginConfigurationView;

    open spec fn view(&self) -> PluginConfigurationView {
        PluginConfigurationView {
            interaction_configuration: match self.interaction_configuration {
                Some(config) => Some(config_entries(config)),
                None => None,
            },
            pact_configuration: match self.pact_configuration {
                Some(config) => Some(config_entries(config)),
                None => None,
            },
        }
    }
}

impl InteractionResponse {
    /// Whether the maps of rules and generators, and those of the values of each of them, have
    /// their keys in ascending order, each once.
    pub open spec fn well_formed(self) -> bool {
        &&& self.rules.ordered()
        &&& self.generators.ordered()
        &&& forall|i: int|
            0 <= i < self.rules.entries@.len() ==> are_well_formed(
                (#[trigger] self.rules.entries@[i]).1,
            )
        &&& forall|i: int|
            0 <= i < self.generators.entries@.len() ==> (
            #[trigger] self.generators.entries@[i]).1.well_formed()
    }
}

impl View for InteractionResponse {
    type V = InteractionResponseView;

    open spec fn view(&self) -> InteractionResponseView {
        InteractionResponseView {
            contents: match self.contents {
                Some(body) => Some(body@),
                None => None,
            },
            rules: self.rules@.map_values(|rules: Vec<ListedRule>| listed_views(rules)),
            generators: self.generators@.map_values(|generator: ListedRule| generator@),
            plugin_configuration: match self.plugin_configuration {
                Some(configuration) => Some(configuration@),
                None => None,
            },
            interaction_markup: self.interaction_markup@,
            interaction_markup_type: self.interaction_markup_type,
            part_name: self.part_name@,
        }
    }
}

} // verus!
