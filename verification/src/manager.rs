//! The registry: it owns every loaded entry and the configuration store,
//! builds the merged command surface, and delivers events. Delivery order is
//! registration order, and one entry's failure never blocks delivery to the
//! rest.

use vstd::prelude::*;
use crate::api::{
    Context, Plugin, PluginCommand, PluginError, PluginMetadata, SystemEvent,
};
use crate::config::{spec_plugin_enabled, ConfigStore};
use crate::matcher::{match_command, spec_match, usage_issue_of, MatchOutcome, UsageError};
use crate::text::str_eq;

verus! {

/// How many queue-drain passes one `fire_event` call may make before it
/// rejects the emission pattern as a cycle.
pub const MAX_EVENT_PASSES: u64 = 8;

/// A plugin instance not yet registered, paired with the handle of the
/// module that produced it. The instance stands before the module so that,
/// wherever a bundle is dropped, the instance is destroyed strictly before
/// the module handle is released.
pub struct PluginBundle<P, H> {
    pub instance: P,
    pub module: H,
}

/// One registered plugin: the owned instance, the owned handle of the module
/// that produced it, the descriptor cached at registration, and the derived
/// enabled flag.
pub struct LoadedEntry<P, H> {
    // `instance` must stand before `module`: fields are torn down in
    // declaration order, and the module's code backs the instance, so the
    // instance must be destroyed strictly before the module is released.
    pub(crate) instance: P,
    pub(crate) module: H,
    pub(crate) descriptor: PluginMetadata,
    pub(crate) commands: Vec<PluginCommand>,
    pub(crate) enabled: bool,
    pub(crate) deliveries: Ghost<nat>,
}

/// Why a registration was refused.
#[derive(Debug)]
pub enum RegisterError {
    /// Another entry already carries this name; the later registration is
    /// rejected rather than silently overwriting the earlier one.
    DuplicateName { name: String },
    /// The enabled plugin's `on_load` hook failed; the entry is not
    /// registered.
    InitFailed { name: String, cause: PluginError },
}

/// The registry of loaded plugins. It owns the entries and the configuration
/// store for the process lifetime; construct one per host, never an ambient
/// singleton.
pub struct PluginManager<P, H> {
    entries: Vec<LoadedEntry<P, H>>,
    config: ConfigStore,
}

impl<P: Plugin, H> PluginManager<P, H> {
    /// How many entries are registered.
    pub closed spec fn spec_count(&self) -> nat {
        self.entries@.len()
    }

    /// The whole entry at position `i`.
    pub closed spec fn spec_entry(&self, i: int) -> LoadedEntry<P, H> {
        self.entries@[i]
    }

    /// The registered name at position `i`.
    pub closed spec fn spec_name(&self, i: int) -> Seq<char> {
        self.entries@[i].descriptor.name@
    }

    /// The cached descriptor at position `i`.
    pub closed spec fn spec_descriptor(&self, i: int) -> PluginMetadata {
        self.entries@[i].descriptor
    }

    /// Whether the entry at position `i` is enabled.
    pub closed spec fn spec_enabled(&self, i: int) -> bool {
        self.entries@[i].enabled
    }

    /// Whether the entry at position `i` is essential.
    pub closed spec fn spec_essential(&self, i: int) -> bool {
        self.entries@[i].descriptor.essential
    }

    /// The commands the entry at position `i` declared at registration.
    pub closed spec fn spec_commands(&self, i: int) -> Seq<PluginCommand> {
        self.entries@[i].commands@
    }

    /// The instance at position `i`.
    pub closed spec fn spec_instance(&self, i: int) -> P {
        self.entries@[i].instance
    }

    /// The module handle at position `i`.
    pub closed spec fn spec_module(&self, i: int) -> H {
        self.entries@[i].module
    }

    /// How many times the entry at position `i` has been handed an event.
    pub closed spec fn spec_deliveries(&self, i: int) -> nat {
        self.entries@[i].deliveries@
    }

    /// The configuration store.
    pub closed spec fn spec_config(&self) -> ConfigStore {
        self.config
    }

    /// Some entry carries this name.
    pub closed spec fn spec_has_name(&self, name: Seq<char>) -> bool {
        exists|i: int| 0 <= i < self.spec_count() && #[trigger] self.spec_name(i) == name
    }

    /// The registry's invariant: the store is well-formed, every cached
    /// descriptor agrees with its live instance, an essential entry is
    /// enabled, and names are pairwise distinct.
    pub closed spec fn wf(&self) -> bool {
        &&& self.config.wf()
        &&& forall|i: int|
            0 <= i < self.entries@.len() ==> ((#[trigger] self.entries@[i]).descriptor.name@
                == self.entries@[i].instance.spec_name()
                && self.entries@[i].descriptor.essential
                == self.entries@[i].instance.spec_essential())
        &&& forall|i: int|
            0 <= i < self.entries@.len() ==> ((#[trigger] self.entries@[i]).descriptor.essential
                ==> self.entries@[i].enabled)
        &&& forall|i: int, j: int|
            0 <= i < j < self.entries@.len() ==> (#[trigger] self.entries@[i]).descriptor.name@
                != (#[trigger] self.entries@[j]).descriptor.name@
    }

    /// An empty registry with an empty store.
    pub fn new() -> (r: Self)
        ensures
            r.wf(),
            r.spec_count() == 0,
            r.spec_config().spec_section_count() == 0,
    {
        PluginManager { entries: Vec::new(), config: ConfigStore::new() }
    }

    /// Installs the configuration the surrounding program loaded, before any
    /// plugin is registered.
    pub fn install_config(&mut self, store: ConfigStore)
        requires
            old(self).wf(),
            store.wf(),
            old(self).spec_count() == 0,
        ensures
            final(self).wf(),
            final(self).spec_config() == store,
            final(self).spec_count() == 0,
    {
        self.config = store;
    }

    /// A read-only view of the configuration store, for persistence.
    pub fn config(&self) -> (r: &ConfigStore)
        ensures
            *r == self.spec_config(),
    {
        &self.config
    }

    /// The number of registered entries.
    pub fn plugin_count(&self) -> (n: usize)
        ensures
            n == self.spec_count(),
    {
        self.entries.len()
    }

    /// The registered name at position `i`.
    pub fn name_at(&self, i: usize) -> (name: &String)
        requires
            i < self.spec_count(),
        ensures
            name@ == self.spec_name(i as int),
    {
        &self.entries[i].descriptor.name
    }

    /// The cached descriptor at position `i`.
    pub fn descriptor_at(&self, i: usize) -> (m: &PluginMetadata)
        requires
            i < self.spec_count(),
        ensures
            *m == self.spec_descriptor(i as int),
    {
        &self.entries[i].descriptor
    }

    /// Whether the entry at position `i` is enabled.
    pub fn enabled_at(&self, i: usize) -> (e: bool)
        requires
            i < self.spec_count(),
        ensures
            e == self.spec_enabled(i as int),
    {
        self.entries[i].enabled
    }

    /// The commands the entry at position `i` declared at registration.
    pub fn commands_at(&self, i: usize) -> (cs: &Vec<PluginCommand>)
        requires
            i < self.spec_count(),
        ensures
            cs@ == self.spec_commands(i as int),
    {
        &self.entries[i].commands
    }

    /// The live instance at position `i`.
    pub fn instance_at(&self, i: usize) -> (p: &P)
        requires
            i < self.spec_count(),
        ensures
            *p == self.spec_instance(i as int),
    {
        &self.entries[i].instance
    }

    /// The position of the entry carrying `name`, if any.
    pub fn find(&self, name: &str) -> (r: Option<usize>)
        ensures
            match r {
                Some(i) => i < self.spec_count() && self.spec_name(i as int) == name@,
                None => !self.spec_has_name(name@),
            },
    {
        let n = self.entries.len();
        let mut i: usize = 0;
        while i < n
            invariant
                n == self.entries@.len(),
                i <= n,
                forall|j: int| 0 <= j < i ==> (#[trigger] self.entries@[j]).descriptor.name@ != name@,
            decreases n - i,
        {
            if str_eq(self.entries[i].descriptor.name.as_str(), name) {
                return Some(i);
            }
            i += 1;
        }
        proof {
            assert forall|j: int| 0 <= j < self.spec_count() implies #[trigger] self.spec_name(j)
                != name@ by {
                assert(self.entries@[j].descriptor.name@ != name@);
            }
        }
        None
    }

    /// Registers one plugin: reads its descriptor and commands, decides the
    /// enabled flag (an essential plugin is always enabled; otherwise the
    /// store's reserved `enabled` key decides, defaulting to enabled), runs
    /// `on_load` when enabled, and appends the entry. A name collision or a
    /// failed `on_load` leaves the registry unchanged; the rejected bundle is
    /// dropped, instance first.
    pub fn register(&mut self, bundle: PluginBundle<P, H>) -> (r: Result<(), RegisterError>)
        requires
            old(self).wf(),
        ensures
            final(self).wf(),
            final(self).spec_config() == old(self).spec_config(),
            match r {
                Ok(()) => {
                    &&& !old(self).spec_has_name(bundle.instance.spec_name())
                    &&& final(self).spec_count() == old(self).spec_count() + 1
                    &&& (forall|i: int|
                        0 <= i < old(self).spec_count() ==> #[trigger] final(self).spec_entry(i)
                            == old(self).spec_entry(i))
                    &&& final(self).spec_name(old(self).spec_count() as int)
                        == bundle.instance.spec_name()
                    &&& final(self).spec_essential(old(self).spec_count() as int)
                        == bundle.instance.spec_essential()
                    &&& final(self).spec_enabled(old(self).spec_count() as int)
                        == spec_plugin_enabled(
                        &old(self).spec_config(),
                        bundle.instance.spec_name(),
                        bundle.instance.spec_essential(),
                    )
                    &&& final(self).spec_module(old(self).spec_count() as int) == bundle.module
                    &&& final(self).spec_deliveries(old(self).spec_count() as int) == 0
                },
                Err(RegisterError::DuplicateName { name }) => {
                    &&& final(self).spec_entry_seq() == old(self).spec_entry_seq()
                    &&& name@ == bundle.instance.spec_name()
                    &&& old(self).spec_has_name(bundle.instance.spec_name())
                },
                Err(RegisterError::InitFailed { name, cause }) => {
                    &&& final(self).spec_entry_seq() == old(self).spec_entry_seq()
                    &&& name@ == bundle.instance.spec_name()
                    &&& !old(self).spec_has_name(bundle.instance.spec_name())
                    &&& spec_plugin_enabled(
                        &old(self).spec_config(),
                        bundle.instance.spec_name(),
                        bundle.instance.spec_essential(),
                    )
                },
            },
    {
        let PluginBundle { mut instance, module } = bundle;
        let metadata = instance.metadata();
        if self.find(metadata.name.as_str()).is_some() {
            // repack before returning, so the rejected instance is dropped
            // strictly before the module handle
            let keep = LoadedEntry {
                instance,
                module,
                descriptor: metadata,
                commands: Vec::new(),
                enabled: false,
                deliveries: Ghost(0nat),
            };
            let name = keep.descriptor.name.clone();
            return Err(RegisterError::DuplicateName { name });
        }
        let commands = instance.get_commands();
        let enabled = self.config.plugin_enabled(metadata.name.as_str(), metadata.essential);
        if enabled {
            match instance.on_load() {
                Ok(()) => {},
                Err(cause) => {
                    // repack before returning, so the rejected instance is
                    // dropped strictly before the module handle
                    let keep = LoadedEntry {
                        instance,
                        module,
                        descriptor: metadata,
                        commands,
                        enabled: false,
                        deliveries: Ghost(0nat),
                    };
                    let name = keep.descriptor.name.clone();
                    return Err(RegisterError::InitFailed { name, cause });
                },
            }
        }
        let entry = LoadedEntry {
            instance,
            module,
            descriptor: metadata,
            commands,
            enabled,
            deliveries: Ghost(0nat),
        };
        self.entries.push(entry);
        proof {
            let s = self.entries@;
            let n = s.len() as int;
            assert(forall|i: int| 0 <= i < n - 1 ==> #[trigger] s[i] == old(self).entries@[i]);
            assert forall|i: int, j: int| 0 <= i < j < n implies (
            #[trigger] s[i]).descriptor.name@ != (#[trigger] s[j]).descriptor.name@ by {
                if j == n - 1 {
                    assert(old(self).spec_name(i) != bundle.instance.spec_name());
                    assert(s[i].descriptor.name@ == old(self).spec_name(i));
                }
            }
        }
        Ok(())
    }

    /// The raw entry sequence, for stating that nothing changed.
    pub closed spec fn spec_entry_seq(&self) -> Seq<LoadedEntry<P, H>> {
        self.entries@
    }

    /// The names of the enabled entries from position `i` on, in
    /// registration order.
    pub open spec fn spec_enabled_names_from(&self, i: int) -> Seq<Seq<char>>
        decreases self.spec_count() - i,
    {
        if i < 0 || i >= self.spec_count() {
            Seq::empty()
        } else if self.spec_enabled(i) {
            seq![self.spec_name(i)] + self.spec_enabled_names_from(i + 1)
        } else {
            self.spec_enabled_names_from(i + 1)
        }
    }

    /// Everything `dispatch_pass` and `fire_event` keep fixed: the entry
    /// count and each entry's descriptor, enabled flag, cached commands and
    /// module handle.
    pub open spec fn spec_same_shape(&self, other: &Self) -> bool {
        &&& self.spec_count() == other.spec_count()
        &&& forall|i: int|
            0 <= i < self.spec_count() ==> (#[trigger] self.spec_descriptor(i)
                == other.spec_descriptor(i) && self.spec_enabled(i) == other.spec_enabled(i)
                && self.spec_commands(i) == other.spec_commands(i) && self.spec_module(i)
                == other.spec_module(i))
    }

    /// Delivers one event to every enabled entry, in registration order.
    /// Each enabled entry's handler is invoked exactly once - its delivery
    /// count rises by exactly one - whatever any other handler returned, and
    /// a disabled entry is left untouched. The records name the entries
    /// delivered to, in order; the second result is everything the handlers
    /// asked to emit, for the caller to drain after this pass returns.
    pub fn dispatch_pass(&mut self, event: &SystemEvent) -> (r: (
        Vec<DeliveryRecord>,
        Vec<SystemEvent>,
    ))
        requires
            old(self).wf(),
        ensures
            final(self).wf(),
            final(self).spec_same_shape(old(self)),
            forall|i: int|
                0 <= i < old(self).spec_count() ==> #[trigger] final(self).spec_deliveries(i)
                    == old(self).spec_deliveries(i) + (if old(self).spec_enabled(i) {
                    1int
                } else {
                    0int
                }),
            forall|i: int|
                0 <= i < old(self).spec_count() && !old(self).spec_enabled(i)
                    ==> #[trigger] final(self).spec_entry(i) == old(self).spec_entry(i),
            r.0@.map_values(|d: DeliveryRecord| d.plugin@) == old(self).spec_enabled_names_from(0),
    {
        let n = self.entries.len();
        let mut records: Vec<DeliveryRecord> = Vec::new();
        let mut emitted: Vec<SystemEvent> = Vec::new();
        let mut i: usize = 0;
        proof {
            assert(records@.map_values(|d: DeliveryRecord| d.plugin@) =~= Seq::<Seq<char>>::empty());
        }
        while i < n
            invariant
                n == self.entries@.len(),
                n == old(self).entries@.len(),
                i <= n,
                self.config.wf(),
                forall|k: int|
                    0 <= k < n ==> ((#[trigger] self.entries@[k]).descriptor == old(
                        self,
                    ).entries@[k].descriptor && self.entries@[k].enabled
                        == old(self).entries@[k].enabled && self.entries@[k].commands
                        == old(self).entries@[k].commands && self.entries@[k].module
                        == old(self).entries@[k].module
                        && self.entries@[k].instance.spec_name()
                        == old(self).entries@[k].instance.spec_name()
                        && self.entries@[k].instance.spec_essential()
                        == old(self).entries@[k].instance.spec_essential()),
                forall|k: int| i <= k < n ==> #[trigger] self.entries@[k] == old(self).entries@[k],
                forall|k: int|
                    0 <= k < i ==> #[trigger] self.entries@[k].deliveries@ == old(
                        self,
                    ).entries@[k].deliveries@ + (if old(self).entries@[k].enabled {
                        1int
                    } else {
                        0int
                    }),
                forall|k: int|
                    0 <= k < i && !old(self).entries@[k].enabled
                        ==> #[trigger] self.entries@[k] == old(self).entries@[k],
                old(self).wf(),
                records@.map_values(|d: DeliveryRecord| d.plugin@) + old(
                    self,
                ).spec_enabled_names_from(i as int) == old(self).spec_enabled_names_from(0),
            decreases n - i,
        {
            let ghost recs_before = records@;
            let enabled = self.entries[i].enabled;
            if enabled {
                let mut cfg = ConfigStore::new();
                core::mem::swap(&mut self.config, &mut cfg);
                let mut ctx = Context { config: cfg, emitted: Vec::new() };
                proof {
                    ctx.lemma_parts();
                }
                let entry = &mut self.entries[i];
                let outcome = entry.instance.handle_event(event, &mut ctx);
                proof {
                    ctx.lemma_parts();
                }
                entry.deliveries = Ghost((entry.deliveries@ + 1) as nat);
                let name = entry.descriptor.name.clone();
                let Context { config: cfg_back, emitted: mut em } = ctx;
                self.config = cfg_back;
                emitted.append(&mut em);
                records.push(DeliveryRecord { plugin: name, outcome });
                proof {
                    assert(records@.map_values(|d: DeliveryRecord| d.plugin@)
                        =~= recs_before.map_values(|d: DeliveryRecord| d.plugin@).push(
                        old(self).spec_name(i as int),
                    ));
                    assert(recs_before.map_values(|d: DeliveryRecord| d.plugin@).push(
                        old(self).spec_name(i as int),
                    ) + old(self).spec_enabled_names_from(i + 1) =~= recs_before.map_values(
                        |d: DeliveryRecord| d.plugin@,
                    ) + (seq![old(self).spec_name(i as int)] + old(self).spec_enabled_names_from(
                        i + 1,
                    )));
                }
            }
            i += 1;
        }
        proof {
            assert(records@.map_values(|d: DeliveryRecord| d.plugin@) + Seq::<Seq<char>>::empty()
                =~= records@.map_values(|d: DeliveryRecord| d.plugin@));
        }
        (records, emitted)
    }
}

impl<P: Plugin, H> PluginManager<P, H> {
    /// The central dispatcher. The event is delivered to every enabled
    /// entry, in registration order, as the first block of records; events
    /// the handlers emitted are then drained in further passes, never by
    /// recursive re-entry, and after [`MAX_EVENT_PASSES`] passes a still
    /// nonempty queue is rejected as an emission cycle.
    pub fn fire_event(&mut self, event: SystemEvent) -> (r: DispatchReport)
        requires
            old(self).wf(),
        ensures
            final(self).wf(),
            final(self).spec_same_shape(old(self)),
            forall|i: int|
                0 <= i < old(self).spec_count() && old(self).spec_enabled(i)
                    ==> #[trigger] final(self).spec_deliveries(i) >= old(self).spec_deliveries(i)
                    + 1,
            forall|i: int|
                0 <= i < old(self).spec_count() && !old(self).spec_enabled(i)
                    ==> #[trigger] final(self).spec_entry(i) == old(self).spec_entry(i),
            r.records@.map_values(|d: DeliveryRecord| d.plugin@).take(
                old(self).spec_enabled_names_from(0).len() as int,
            ) == old(self).spec_enabled_names_from(0),
            r.records@.len() >= old(self).spec_enabled_names_from(0).len(),
    {
        let (mut records, mut pending) = self.dispatch_pass(&event);
        let ghost first = records@.map_values(|d: DeliveryRecord| d.plugin@);
        proof {
            assert(first.take(first.len() as int) =~= first);
        }
        let mut passes: u64 = 1;
        while pending.len() > 0 && passes < MAX_EVENT_PASSES
            invariant
                self.wf(),
                self.spec_same_shape(old(self)),
                forall|i: int|
                    0 <= i < old(self).spec_count() && old(self).spec_enabled(i)
                        ==> #[trigger] self.spec_deliveries(i) >= old(self).spec_deliveries(i) + 1,
                forall|i: int|
                    0 <= i < old(self).spec_count() && !old(self).spec_enabled(i)
                        ==> #[trigger] self.spec_entry(i) == old(self).spec_entry(i),
                records@.len() >= first.len(),
                records@.map_values(|d: DeliveryRecord| d.plugin@).take(first.len() as int)
                    == first,
                first == old(self).spec_enabled_names_from(0),
                passes >= 1,
            decreases MAX_EVENT_PASSES - passes,
        {
            let ghost mid = *self;
            let mut next: Vec<SystemEvent> = Vec::new();
            let m = pending.len();
            let mut j: usize = 0;
            while j < m
                invariant
                    m == pending@.len(),
                    j <= m,
                    self.wf(),
                    self.spec_same_shape(&mid),
                    mid.spec_same_shape(old(self)),
                    forall|i: int|
                        0 <= i < mid.spec_count() ==> #[trigger] self.spec_deliveries(i)
                            >= mid.spec_deliveries(i),
                    forall|i: int|
                        0 <= i < mid.spec_count() && !mid.spec_enabled(i)
                            ==> #[trigger] self.spec_entry(i) == mid.spec_entry(i),
                    records@.len() >= first.len(),
                    records@.map_values(|d: DeliveryRecord| d.plugin@).take(first.len() as int)
                        == first,
                decreases m - j,
            {
                let ghost recs_before = records@;
                let (mut recs, mut em) = self.dispatch_pass(&pending[j]);
                records.append(&mut recs);
                next.append(&mut em);
                proof {
                    assert(records@.map_values(|d: DeliveryRecord| d.plugin@).take(
                        first.len() as int,
                    ) =~= recs_before.map_values(|d: DeliveryRecord| d.plugin@).take(
                        first.len() as int,
                    ));
                }
                j += 1;
            }
            proof {
                assert forall|i: int|
                    0 <= i < old(self).spec_count() && !old(self).spec_enabled(i) implies (
                #[trigger] self.spec_entry(i)) == old(self).spec_entry(i) by {
                    assert(mid.spec_descriptor(i) == old(self).spec_descriptor(i));
                    assert(mid.spec_enabled(i) == old(self).spec_enabled(i));
                    assert(mid.spec_entry(i) == old(self).spec_entry(i));
                    assert(self.spec_entry(i) == mid.spec_entry(i));
                }
            }
            pending = next;
            passes += 1;
        }
        let cycle_rejected = pending.len() > 0;
        DispatchReport { records, cycle_rejected }
    }

    /// Removes every entry, last act of the host. Each enabled entry's
    /// `on_unload` hook runs once before its entry is dropped; an entry that
    /// was never enabled never saw `on_load`, so its hook is not run. The
    /// hook's failure is recorded and never stops the teardown, and each
    /// entry's instance is destroyed strictly before its module handle is
    /// released.
    pub fn unload_all(&mut self) -> (r: Vec<(String, Option<PluginError>)>)
        requires
            old(self).wf(),
        ensures
            final(self).wf(),
            final(self).spec_count() == 0,
            r@.len() == old(self).spec_count(),
            forall|i: int|
                0 <= i < old(self).spec_count() ==> (#[trigger] r@[i]).0@ == old(self).spec_name(i),
            forall|i: int|
                0 <= i < old(self).spec_count() && !old(self).spec_enabled(i) ==> (
                #[trigger] r@[i]).1 is None,
    {
        let mut report: Vec<(String, Option<PluginError>)> = Vec::new();
        while self.entries.len() > 0
            invariant
                self.config.wf(),
                report@.len() + self.entries@.len() == old(self).entries@.len(),
                forall|k: int|
                    0 <= k < self.entries@.len() ==> #[trigger] self.entries@[k] == old(
                        self,
                    ).entries@[k + report@.len()],
                forall|i: int|
                    0 <= i < report@.len() ==> (#[trigger] report@[i]).0@ == old(self).spec_name(i),
                forall|i: int|
                    0 <= i < report@.len() && !old(self).spec_enabled(i) ==> (
                    #[trigger] report@[i]).1 is None,
            decreases self.entries@.len(),
        {
            let mut entry = self.entries.remove(0);
            let name = entry.descriptor.name.clone();
            let outcome: Option<PluginError> = if entry.enabled {
                match entry.instance.on_unload() {
                    Ok(()) => None,
                    Err(e) => Some(e),
                }
            } else {
                None
            };
            report.push((name, outcome));
            // `entry` goes out of scope here: its instance is destroyed
            // first, then its module handle, by field declaration order.
        }
        report
    }
}

/// One candidate a directory scan produced: a bundle ready to register, or a
/// file that could not be turned into one, with its path and the cause.
pub enum ScanItem<P, H> {
    Candidate(PluginBundle<P, H>),
    Unloadable { path: String, cause: String },
}

/// What a scan registered, what it rejected, and which files failed to load.
pub struct ScanReport {
    pub registered: Vec<String>,
    pub rejected: Vec<RegisterError>,
    pub load_failures: Vec<(String, String)>,
}

/// How many items from position `i` on are load failures.
pub open spec fn spec_scan_failures_from<P, H>(items: Seq<ScanItem<P, H>>, i: int) -> nat
    decreases items.len() - i,
{
    if i < 0 || i >= items.len() {
        0
    } else {
        (if items[i] is Unloadable {
            1nat
        } else {
            0nat
        }) + spec_scan_failures_from(items, i + 1)
    }
}

impl<P: Plugin, H> PluginManager<P, H> {
    /// Registers every candidate a scan produced, in order. One bad item
    /// never aborts the scan: a load failure is recorded and skipped, and a
    /// rejected registration is recorded and the scan continues. The
    /// registry grows by exactly the registrations that succeeded.
    pub fn register_scan(&mut self, items: Vec<ScanItem<P, H>>) -> (report: ScanReport)
        requires
            old(self).wf(),
        ensures
            final(self).wf(),
            final(self).spec_config() == old(self).spec_config(),
            final(self).spec_count() == old(self).spec_count() + report.registered@.len(),
            report.load_failures@.len() == spec_scan_failures_from(items@, 0),
            report.registered@.len() + report.rejected@.len() + report.load_failures@.len()
                == items@.len(),
            forall|i: int|
                0 <= i < old(self).spec_count() ==> #[trigger] final(self).spec_entry(i) == old(
                    self,
                ).spec_entry(i),
    {
        let ghost orig = items@;
        let mut items = items;
        let mut registered: Vec<String> = Vec::new();
        let mut rejected: Vec<RegisterError> = Vec::new();
        let mut load_failures: Vec<(String, String)> = Vec::new();
        while items.len() > 0
            invariant
                self.wf(),
                self.spec_config() == old(self).spec_config(),
                items@ == orig.skip(orig.len() - items@.len()),
                items@.len() <= orig.len(),
                registered@.len() + rejected@.len() + load_failures@.len() == orig.len()
                    - items@.len(),
                load_failures@.len() + spec_scan_failures_from(
                    orig,
                    orig.len() - items@.len(),
                ) == spec_scan_failures_from(orig, 0),
                self.spec_count() == old(self).spec_count() + registered@.len(),
                forall|i: int|
                    0 <= i < old(self).spec_count() ==> #[trigger] self.spec_entry(i) == old(
                        self,
                    ).spec_entry(i),
            decreases items@.len(),
        {
            let ghost k = orig.len() - items@.len();
            proof {
                assert(items@[0] == orig[k as int]);
            }
            let item = items.remove(0);
            proof {
                assert(items@ =~= orig.skip(k as int + 1));
            }
            match item {
                ScanItem::Candidate(bundle) => {
                    let before = self.plugin_count();
                    match self.register(bundle) {
                        Ok(()) => {
                            let name = self.name_at(before).clone();
                            registered.push(name);
                        },
                        Err(e) => {
                            rejected.push(e);
                        },
                    }
                },
                ScanItem::Unloadable { path, cause } => {
                    load_failures.push((path, cause));
                },
            }
        }
        proof {
            assert(items@ =~= Seq::<ScanItem<P, H>>::empty());
        }
        ScanReport { registered, rejected, load_failures }
    }

    /// Whether the entry at position `i` declares a command named `name`.
    pub open spec fn spec_declares(&self, i: int, name: Seq<char>) -> bool {
        exists|c: int|
            0 <= c < self.spec_commands(i).len() && (#[trigger] self.spec_commands(i)[c]).name@
                == name
    }

    /// The first command named `name` in entry `i`'s declaration list, from
    /// position `k` on.
    pub open spec fn spec_command_index_from(&self, i: int, name: Seq<char>, k: int) -> Option<
        int,
    >
        decreases self.spec_commands(i).len() - k,
    {
        if k < 0 || k >= self.spec_commands(i).len() {
            None
        } else if self.spec_commands(i)[k].name@ == name {
            Some(k)
        } else {
            self.spec_command_index_from(i, name, k + 1)
        }
    }

    /// The first enabled entry, from position `k` on, that declares `name`.
    /// The merged command surface takes every enabled entry's declared
    /// commands; on a name conflict the first-registered entry owns the
    /// command.
    pub open spec fn spec_owner_from(&self, name: Seq<char>, k: int) -> Option<int>
        decreases self.spec_count() - k,
    {
        if k < 0 || k >= self.spec_count() {
            None
        } else if self.spec_enabled(k) && self.spec_declares(k, name) {
            Some(k)
        } else {
            self.spec_owner_from(name, k + 1)
        }
    }

    /// Whether the entry at position `i` declares a command named `name`,
    /// and at which position.
    fn declares(&self, i: usize, name: &str) -> (r: Option<usize>)
        requires
            i < self.spec_count(),
        ensures
            match r {
                Some(c) => c < self.spec_commands(i as int).len() && self.spec_commands(
                    i as int,
                )[c as int].name@ == name@ && self.spec_declares(i as int, name@)
                    && self.spec_command_index_from(i as int, name@, 0) == Some(c as int),
                None => !self.spec_declares(i as int, name@),
            },
    {
        let commands = self.commands_at(i);
        let m = commands.len();
        let mut c: usize = 0;
        while c < m
            invariant
                m == commands@.len(),
                commands@ == self.spec_commands(i as int),
                i < self.spec_count(),
                c <= m,
                forall|b: int| 0 <= b < c ==> (#[trigger] commands@[b]).name@ != name@,
                self.spec_command_index_from(i as int, name@, c as int)
                    == self.spec_command_index_from(i as int, name@, 0),
            decreases m - c,
        {
            if str_eq(commands[c].name.as_str(), name) {
                return Some(c);
            }
            c += 1;
        }
        None
    }

    /// The enabled entry owning a command name, with the position of the
    /// command in its declaration list.
    pub fn command_owner(&self, name: &str) -> (r: Option<(usize, usize)>)
        ensures
            match r {
                Some((i, c)) => {
                    &&& self.spec_owner_from(name@, 0) == Some(i as int)
                    &&& i < self.spec_count()
                    &&& self.spec_enabled(i as int)
                    &&& c < self.spec_commands(i as int).len()
                    &&& self.spec_commands(i as int)[c as int].name@ == name@
                    &&& self.spec_command_index_from(i as int, name@, 0) == Some(c as int)
                },
                None => self.spec_owner_from(name@, 0) is None,
            },
    {
        let n = self.plugin_count();
        let mut i: usize = 0;
        while i < n
            invariant
                n == self.spec_count(),
                i <= n,
                forall|k: int|
                    0 <= k < i ==> !(#[trigger] self.spec_enabled(k) && self.spec_declares(
                        k,
                        name@,
                    )),
                self.spec_owner_from(name@, i as int) == self.spec_owner_from(name@, 0),
            decreases n - i,
        {
            if self.enabled_at(i) {
                match self.declares(i, name) {
                    Some(c) => {
                        return Some((i, c));
                    },
                    None => {},
                }
            }
            i += 1;
        }
        None
    }
}

/// The first recorded outcome for a named plugin in a delivery report, from
/// position `k` on.
pub open spec fn spec_first_outcome_from(
    records: Seq<DeliveryRecord>,
    name: Seq<char>,
    k: int,
) -> Option<bool>
    decreases records.len() - k,
{
    if k < 0 || k >= records.len() {
        None
    } else if records[k].plugin@ == name {
        Some(records[k].outcome is Ok)
    } else {
        spec_first_outcome_from(records, name, k + 1)
    }
}

/// Shape agreement is transitive.
proof fn lemma_shape_trans<P: Plugin, H>(
    a: &PluginManager<P, H>,
    b: &PluginManager<P, H>,
    c: &PluginManager<P, H>,
)
    requires
        a.spec_same_shape(b),
        b.spec_same_shape(c),
    ensures
        a.spec_same_shape(c),
{
    assert(a.spec_count() == c.spec_count());
    assert forall|i: int|
        0 <= i < a.spec_count() implies (#[trigger] a.spec_descriptor(i) == c.spec_descriptor(i)
        && a.spec_enabled(i) == c.spec_enabled(i) && a.spec_commands(i) == c.spec_commands(i)
        && a.spec_module(i) == c.spec_module(i)) by {
        assert(a.spec_descriptor(i) == b.spec_descriptor(i));
        assert(a.spec_enabled(i) == b.spec_enabled(i));
        assert(a.spec_commands(i) == b.spec_commands(i));
        assert(a.spec_module(i) == b.spec_module(i));
        assert(b.spec_descriptor(i) == c.spec_descriptor(i));
        assert(b.spec_enabled(i) == c.spec_enabled(i));
        assert(b.spec_commands(i) == c.spec_commands(i));
        assert(b.spec_module(i) == c.spec_module(i));
    }
}

/// Registries of the same shape agree on their enabled entry names.
proof fn lemma_shape_enabled_names<P: Plugin, H>(
    a: &PluginManager<P, H>,
    b: &PluginManager<P, H>,
    i: int,
)
    requires
        a.spec_same_shape(b),
        0 <= i,
    ensures
        a.spec_enabled_names_from(i) == b.spec_enabled_names_from(i),
    decreases a.spec_count() - i,
{
    if i < a.spec_count() {
        lemma_shape_enabled_names(a, b, i + 1);
        assert(a.spec_descriptor(i) == b.spec_descriptor(i));
        assert(a.spec_name(i) == b.spec_name(i));
    }
}

/// Why a whole invocation could not be run.
#[derive(Debug)]
pub enum RunError {
    /// No enabled entry declares this command.
    UnknownCommand { name: String },
    /// The tokens do not fit the owning command's schema; reported at the
    /// process boundary, and no event is fired.
    Usage(UsageError),
}

/// What one invocation did: the three dispatches it performed, the owning
/// entry's name, and whether the owner's handler returned without error.
pub struct InvocationReport {
    pub pre: DispatchReport,
    pub execute: DispatchReport,
    pub post: DispatchReport,
    pub owner: String,
    pub success: bool,
}

impl<P: Plugin, H> PluginManager<P, H> {
    /// Runs one parsed invocation end to end. The tokens are matched against
    /// the owning command's schema first: a usage error leaves the registry
    /// untouched, before any event is fired. On a match the host fires
    /// exactly the sequence `PreCommand`, `ExecuteCommand`, `PostCommand`,
    /// each delivered to every enabled entry in registration order, with
    /// `PostCommand` carrying whether the owner's handler succeeded.
    pub fn run_command(&mut self, command_name: &str, tokens: Vec<String>) -> (r: Result<
        InvocationReport,
        RunError,
    >)
        requires
            old(self).wf(),
        ensures
            final(self).wf(),
            final(self).spec_same_shape(old(self)),
            match r {
                Ok(report) => {
                    &&& old(self).spec_owner_from(command_name@, 0) is Some
                    &&& report.owner@ == old(self).spec_name(
                        old(self).spec_owner_from(command_name@, 0)->Some_0,
                    )
                    &&& spec_match(
                        old(self).spec_commands(old(self).spec_owner_from(command_name@, 0)->Some_0)[
                            old(self).spec_command_index_from(
                                old(self).spec_owner_from(command_name@, 0)->Some_0,
                                command_name@,
                                0,
                            )->Some_0
                        ].args@,
                        tokens.deep_view(),
                    ) is Matched
                    &&& report.pre.records@.map_values(|d: DeliveryRecord| d.plugin@).take(
                        old(self).spec_enabled_names_from(0).len() as int,
                    ) == old(self).spec_enabled_names_from(0)
                    &&& report.execute.records@.map_values(|d: DeliveryRecord| d.plugin@).take(
                        old(self).spec_enabled_names_from(0).len() as int,
                    ) == old(self).spec_enabled_names_from(0)
                    &&& report.post.records@.map_values(|d: DeliveryRecord| d.plugin@).take(
                        old(self).spec_enabled_names_from(0).len() as int,
                    ) == old(self).spec_enabled_names_from(0)
                    &&& (forall|i: int|
                        0 <= i < old(self).spec_count() && old(self).spec_enabled(i)
                            ==> #[trigger] final(self).spec_deliveries(i) >= old(
                            self,
                        ).spec_deliveries(i) + 3)
                    &&& (match spec_first_outcome_from(
                        report.execute.records@,
                        report.owner@,
                        0,
                    ) {
                        Some(b) => report.success == b,
                        None => report.success == false,
                    })
                },
                Err(RunError::UnknownCommand { name }) => {
                    &&& name@ == command_name@
                    &&& old(self).spec_owner_from(command_name@, 0) is None
                    &&& *final(self) == *old(self)
                },
                Err(RunError::Usage(e)) => {
                    &&& old(self).spec_owner_from(command_name@, 0) is Some
                    &&& spec_match(
                        old(self).spec_commands(old(self).spec_owner_from(command_name@, 0)->Some_0)[
                            old(self).spec_command_index_from(
                                old(self).spec_owner_from(command_name@, 0)->Some_0,
                                command_name@,
                                0,
                            )->Some_0
                        ].args@,
                        tokens.deep_view(),
                    ) == MatchOutcome::Rejected(usage_issue_of(e))
                    &&& *final(self) == *old(self)
                },
            },
    {
        let (i, c) = match self.command_owner(command_name) {
            Some(pair) => pair,
            None => {
                let name = String::from_str(command_name);
                return Err(RunError::UnknownCommand { name });
            },
        };
        let matches = {
            let commands = self.commands_at(i);
            match match_command(&commands[c], &tokens) {
                Ok(m) => m,
                Err(e) => {
                    return Err(RunError::Usage(e));
                },
            }
        };
        let owner = self.name_at(i).clone();
        let pre_name = String::from_str(command_name);
        let ghost s0 = *self;
        let pre = self.fire_event(SystemEvent::PreCommand { name: pre_name, args: tokens });
        let ghost s1 = *self;
        proof {
            lemma_shape_trans(&s1, &s0, old(self));
            lemma_shape_enabled_names(&s1, old(self), 0);
        }
        let execute = self.fire_event(
            SystemEvent::ExecuteCommand { plugin_name: owner.clone(), matches },
        );
        let ghost s2 = *self;
        proof {
            lemma_shape_trans(&s2, &s1, old(self));
            lemma_shape_enabled_names(&s2, old(self), 0);
        }
        let success = first_outcome_for(&execute.records, owner.as_str());
        let post_name = String::from_str(command_name);
        let post = self.fire_event(SystemEvent::PostCommand { name: post_name, success });
        proof {
            lemma_shape_trans(self, &s2, old(self));
            assert forall|k: int|
                0 <= k < old(self).spec_count() && old(self).spec_enabled(k) implies (
            #[trigger] self.spec_deliveries(k)) >= old(self).spec_deliveries(k) + 3 by {
                assert(s1.spec_descriptor(k) == old(self).spec_descriptor(k));
                assert(s2.spec_descriptor(k) == old(self).spec_descriptor(k));
                assert(s1.spec_enabled(k) == old(self).spec_enabled(k));
                assert(s2.spec_enabled(k) == old(self).spec_enabled(k));
                assert(s1.spec_deliveries(k) >= s0.spec_deliveries(k) + 1);
                assert(s2.spec_deliveries(k) >= s1.spec_deliveries(k) + 1);
                assert(self.spec_deliveries(k) >= s2.spec_deliveries(k) + 1);
            }
        }
        Ok(InvocationReport { pre, execute, post, owner, success })
    }
}

/// The first recorded outcome for a named plugin: `true` for a handler that
/// returned without error, `false` for a failed one or for no record at all.
fn first_outcome_for(records: &Vec<DeliveryRecord>, name: &str) -> (r: bool)
    ensures
        r == (match spec_first_outcome_from(records@, name@, 0) {
            Some(b) => b,
            None => false,
        }),
{
    let n = records.len();
    let mut k: usize = 0;
    while k < n
        invariant
            n == records@.len(),
            k <= n,
            spec_first_outcome_from(records@, name@, k as int) == spec_first_outcome_from(
                records@,
                name@,
                0,
            ),
        decreases n - k,
    {
        if str_eq(records[k].plugin.as_str(), name) {
            let ok = match &records[k].outcome {
                Ok(()) => true,
                Err(_) => false,
            };
            return ok;
        }
        k += 1;
    }
    false
}

/// An entry whose descriptor carries the essential flag is enabled, in every
/// well-formed registry, whatever the configuration store says of its name.
pub proof fn lemma_essential_entry_enabled<P: Plugin, H>(m: &PluginManager<P, H>, i: int)
    requires
        m.wf(),
        0 <= i < m.spec_count(),
        m.spec_essential(i),
    ensures
        m.spec_enabled(i),
{
}

/// Whether a file's path carries one of the suffixes that mark a platform
/// dynamic module; anything else a directory scan ignores.
pub fn is_module_path(path: &str) -> (r: bool)
    ensures
        r == spec_is_module_path(path@),
{
    crate::text::str_ends_with(path, ".so") || crate::text::str_ends_with(path, ".dll")
        || crate::text::str_ends_with(path, ".dylib")
}

/// A path names a loadable module when it ends in a platform dynamic-module
/// suffix.
pub open spec fn spec_is_module_path(p: Seq<char>) -> bool {
    ||| (p.len() >= ".so"@.len() && p.skip(p.len() - ".so"@.len()) == ".so"@)
    ||| (p.len() >= ".dll"@.len() && p.skip(p.len() - ".dll"@.len()) == ".dll"@)
    ||| (p.len() >= ".dylib"@.len() && p.skip(p.len() - ".dylib"@.len()) == ".dylib"@)
}

/// The outcome of delivering one event to one entry.
#[derive(Debug)]
pub struct DeliveryRecord {
    /// The name of the entry the event was handed to.
    pub plugin: String,
    /// What its handler returned.
    pub outcome: Result<(), PluginError>,
}

/// What one `fire_event` call reports: every delivery made, and whether the
/// queue of emitted events was cut off as an emission cycle.
#[derive(Debug)]
pub struct DispatchReport {
    pub records: Vec<DeliveryRecord>,
    pub cycle_rejected: bool,
}

} // verus!
