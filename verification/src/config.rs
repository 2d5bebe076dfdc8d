//! The configuration of a run: option keys with text values, and the three
//! templates that are read from them.

use vstd::hash_map::StringHashMap;
use vstd::prelude::*;

verus! {

/// A flat mapping from option keys to text values.
pub struct Configuration {
    options: StringHashMap<String>,
}

impl View for Configuration {
    type V = Map<Seq<char>, Seq<char>>;

    closed spec fn view(&self) -> Map<Seq<char>, Seq<char>> {
        Map::new(
            |key: Seq<char>| self.options@.contains_key(key),
            |key: Seq<char>| self.options@[key]@,
        )
    }
}

impl Configuration {
    /// A configuration without options.
    pub fn new() -> (config: Configuration)
        ensures
            config@ == Map::<Seq<char>, Seq<char>>::empty(),
    {
        let config = Configuration { options: StringHashMap::new() };
        proof {
            assert(config@ =~= Map::<Seq<char>, Seq<char>>::empty());
        }
        config
    }

    /// Sets an option, in place of an earlier value of the same key.
    pub fn set(&mut self, key: &str, value: &str)
        ensures
            final(self)@ == old(self)@.insert(key@, value@),
    {
        self.options.insert(String::from_str(key), String::from_str(value));
        proof {
            assert(final(self)@ =~= old(self)@.insert(key@, value@));
        }
    }

    /// The value of an option, if it is set.
    pub fn get(&self, key: &str) -> (value: Option<&str>)
        ensures
            match value {
                Some(text) => self@.contains_key(key@) && self@[key@] == text@,
                None => !self@.contains_key(key@),
            },
    {
        match self.options.get(key) {
            Some(text) => Some(text.as_str()),
            None => None,
        }
    }
}

/// The three templates of a run.
#[derive(Debug, Clone, PartialEq, Eq)]
pub struct Settings {
    /// The separator between rendered links.
    pub join: String,
    /// The visible text of one link.
    pub label: String,
    /// The whole block of references.
    pub template: String,
}

pub struct SettingsView {
    pub join: Seq<char>,
    pub label: Seq<char>,
    pub template: Seq<char>,
}

impl View for Settings {
    type V = SettingsView;

    open spec fn view(&self) -> SettingsView {
        SettingsView { join: self.join@, label: self.label@, template: self.template@ }
    }
}

/// The key of the separator template.
pub open spec fn join_key() -> Seq<char> {
    "join"@
}

/// The key of the label template.
pub open spec fn label_key() -> Seq<char> {
    "label"@
}

/// The key of the block template.
pub open spec fn template_key() -> Seq<char> {
    "template"@
}

/// The separator that is used where none is configured: one space.
pub open spec fn default_join() -> Seq<char> {
    " "@
}

/// The label that is used where none is configured: the name as code.
pub open spec fn default_label() -> Seq<char> {
    "`{{label}}`"@
}

/// The block that is used where none is configured: a quoted line for the
/// usage and one for the macros, each only where it has content.
pub open spec fn default_template() -> Seq<char> {
    "{{#if usage}}> Usage: {{usage}}  \n{{/if}}{{#if macros}}> Macros: {{macros}}{{/if}}"@
}

/// The value of a key, or the fallback where the key is not set.
pub open spec fn option_or(config: Map<Seq<char>, Seq<char>>, key: Seq<char>, fallback: Seq<char>)
    -> Seq<char> {
    if config.contains_key(key) {
        config[key]
    } else {
        fallback
    }
}

/// The settings that a configuration stands for.
pub open spec fn resolved(config: Map<Seq<char>, Seq<char>>) -> SettingsView {
    SettingsView {
        join: option_or(config, join_key(), default_join()),
        label: option_or(config, label_key(), default_label()),
        template: option_or(config, template_key(), default_template()),
    }
}

impl Settings {
    /// Reads the three templates from a configuration; a key that is not set
    /// gets its default.
    pub fn from_config(config: &Configuration) -> (settings: Settings)
        ensures
            settings@ == resolved(config@),
    {
        let join = match config.get("join") {
            Some(text) => String::from_str(text),
            None => String::from_str(" "),
        };
        let label = match config.get("label") {
            Some(text) => String::from_str(text),
            None => String::from_str("`{{label}}`"),
        };
        let template = match config.get("template") {
            Some(text) => String::from_str(text),
            None => String::from_str(
                "{{#if usage}}> Usage: {{usage}}  \n{{/if}}{{#if macros}}> Macros: {{macros}}{{/if}}",
            ),
        };
        Settings { join, label, template }
    }
}

/// With no option set, every template is its default.
pub proof fn lemma_empty_config_defaults()
    ensures
        resolved(Map::empty()) == (SettingsView {
            join: default_join(),
            label: default_label(),
            template: default_template(),
        }),
{
}

} // verus!
