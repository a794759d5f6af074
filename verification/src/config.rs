//! The configuration store: a mapping from plugin name to a settings table.
//! It is loaded once at process start by the surrounding program, mutated only
//! through a plugin's [`crate::api::Context`] during dispatch, and persisted
//! by the surrounding program after the run.

use vstd::prelude::*;
use crate::assoc::AssocList;

verus! {

/// One settings value. Nested tables are carried through unread: the host
/// itself only ever consults booleans and text.
#[derive(Debug)]
pub enum ConfigValue {
    Boolean(bool),
    Integer(i64),
    Text(String),
    Table(Vec<(String, ConfigValue)>),
}

/// The settings table of one plugin.
pub type ConfigTable = AssocList<ConfigValue>;

/// The whole store, keyed by plugin name.
pub struct ConfigStore {
    sections: AssocList<ConfigTable>,
}

impl ConfigStore {
    /// The section keys and every section's own keys are distinct.
    pub closed spec fn wf(&self) -> bool {
        &&& self.sections.wf()
        &&& forall|i: int|
            0 <= i < self.sections.spec_len() ==> (#[trigger] self.sections.spec_value(i)).wf()
    }

    /// The value stored for a plugin under a key, if any.
    pub closed spec fn spec_get(&self, plugin: Seq<char>, key: Seq<char>) -> Option<ConfigValue> {
        if self.sections@.contains_key(plugin) && self.sections@[plugin]@.contains_key(key) {
            Some(self.sections@[plugin]@[key])
        } else {
            None
        }
    }

    /// How many plugins have a section.
    pub closed spec fn spec_section_count(&self) -> nat {
        self.sections.spec_len()
    }

    /// The plugin name of the section at position `i`.
    pub closed spec fn spec_section_name(&self, i: int) -> Seq<char> {
        self.sections.spec_key(i)
    }

    /// The table of the section at position `i`.
    pub closed spec fn spec_section_table(&self, i: int) -> ConfigTable {
        self.sections.spec_value(i)
    }

    /// An empty store; missing or malformed configuration falls back to this.
    pub fn new() -> (r: Self)
        ensures
            r.wf(),
            forall|p: Seq<char>, k: Seq<char>| #[trigger] r.spec_get(p, k) is None,
            r.spec_section_count() == 0,
    {
        ConfigStore { sections: AssocList::new() }
    }

    /// The number of plugin sections, for walking the store in order.
    pub fn section_count(&self) -> (n: usize)
        ensures
            n == self.spec_section_count(),
    {
        self.sections.len()
    }

    /// The name of the section at position `i`.
    pub fn section_name_at(&self, i: usize) -> (name: &String)
        requires
            i < self.spec_section_count(),
        ensures
            name@ == self.spec_section_name(i as int),
    {
        self.sections.key_at(i)
    }

    /// The table of the section at position `i`.
    pub fn section_table_at(&self, i: usize) -> (table: &ConfigTable)
        requires
            self.wf(),
            i < self.spec_section_count(),
        ensures
            *table == self.spec_section_table(i as int),
            table.wf(),
    {
        self.sections.value_at(i)
    }

    /// Reads one plugin's setting.
    pub fn get_value<'a>(&'a self, plugin: &str, key: &str) -> (r: Option<&'a ConfigValue>)
        requires
            self.wf(),
        ensures
            match r {
                Some(v) => self.spec_get(plugin@, key@) == Some(*v),
                None => self.spec_get(plugin@, key@) is None,
            },
    {
        match self.sections.get(plugin) {
            None => None,
            Some(table) => {
                proof {
                    self.sections.lemma_contained_key_has_entry(plugin@);
                    let i = choose|i: int|
                        0 <= i < self.sections.spec_len() && #[trigger] self.sections.spec_key(i)
                            == plugin@;
                    self.sections.lemma_entry(i);
                }
                table.get(key)
            },
        }
    }

    /// Writes one plugin's setting, creating the section when it is missing.
    pub fn set_value(&mut self, plugin: &str, key: &str, value: ConfigValue)
        requires
            old(self).wf(),
        ensures
            final(self).wf(),
            final(self).spec_get(plugin@, key@) == Some(value),
            forall|p: Seq<char>, k: Seq<char>|
                p != plugin@ || k != key@ ==> #[trigger] final(self).spec_get(p, k) == old(
                    self,
                ).spec_get(p, k),
    {
        let mut table = match self.sections.take(plugin) {
            Some(t) => {
                proof {
                    old(self).sections.lemma_contained_key_has_entry(plugin@);
                    let i = choose|i: int|
                        0 <= i < old(self).sections.spec_len() && #[trigger] old(
                            self,
                        ).sections.spec_key(i) == plugin@;
                    old(self).sections.lemma_entry(i);
                }
                t
            },
            None => AssocList::new(),
        };
        table.set(key, value);
        self.sections.set(plugin, table);
        proof {
            assert forall|i: int| 0 <= i < self.sections.spec_len() implies (
            #[trigger] self.sections.spec_value(i)).wf() by {
                self.sections.lemma_entry(i);
                let k = self.sections.spec_key(i);
                if k == plugin@ {
                } else {
                    assert(self.sections@[k] == old(self).sections@[k]);
                    old(self).sections.lemma_contained_key_has_entry(k);
                    let j = choose|j: int|
                        0 <= j < old(self).sections.spec_len() && #[trigger] old(
                            self,
                        ).sections.spec_key(j) == k;
                    old(self).sections.lemma_entry(j);
                }
            }
        }
    }
}

/// Whether a plugin comes up enabled: an essential plugin always does;
/// otherwise a `Boolean` stored under the reserved `enabled` key decides, and
/// anything else - no section, no key, a value of another type - means
/// enabled.
pub open spec fn spec_plugin_enabled(store: &ConfigStore, name: Seq<char>, essential: bool) -> bool {
    essential || match store.spec_get(name, "enabled"@) {
        Some(ConfigValue::Boolean(b)) => b,
        _ => true,
    }
}

impl ConfigStore {
    /// Decides [`spec_plugin_enabled`] for a named plugin.
    pub fn plugin_enabled(&self, name: &str, essential: bool) -> (r: bool)
        requires
            self.wf(),
        ensures
            r == spec_plugin_enabled(self, name@, essential),
    {
        if essential {
            return true;
        }
        match self.get_value(name, "enabled") {
            Some(ConfigValue::Boolean(b)) => *b,
            _ => true,
        }
    }
}

/// An essential plugin is enabled whatever the configuration says of it.
pub proof fn lemma_essential_always_enabled(store: &ConfigStore, name: Seq<char>)
    ensures
        spec_plugin_enabled(store, name, true),
{
}

} // verus!
