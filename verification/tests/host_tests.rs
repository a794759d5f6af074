use drk::api::{Context, Plugin, PluginError, PluginMetadata, SystemEvent};
use drk::config::{ConfigStore, ConfigValue};
use drk::manager::{PluginBundle, PluginManager, RegisterError, ScanItem};
use std::cell::RefCell;
use std::rc::Rc;

/// A test double that counts how often each hook runs.
struct CountingPlugin {
    name: &'static str,
    essential: bool,
    loads: u32,
    unloads: u32,
    events: u32,
    fail_events: bool,
}

impl CountingPlugin {
    fn named(name: &'static str) -> Self {
        CountingPlugin { name, essential: false, loads: 0, unloads: 0, events: 0, fail_events: false }
    }
}

impl Plugin for CountingPlugin {
    // The two specification-level items are ghost: they are never run, and a
    // body is demanded only because the compiled trait still names them.
    fn spec_name(&self) -> vstd::prelude::Seq<char> {
        panic!()
    }

    fn spec_essential(&self) -> bool {
        panic!()
    }

    fn metadata(&self) -> PluginMetadata {
        PluginMetadata {
            name: self.name.to_string(),
            version: "1.0.0".to_string(),
            author: "test".to_string(),
            description: "a test double".to_string(),
            essential: self.essential,
        }
    }

    fn on_load(&mut self) -> Result<(), PluginError> {
        self.loads += 1;
        Ok(())
    }

    fn on_unload(&mut self) -> Result<(), PluginError> {
        self.unloads += 1;
        Ok(())
    }

    fn handle_event(&mut self, _event: &SystemEvent, _ctx: &mut Context) -> Result<(), PluginError> {
        self.events += 1;
        if self.fail_events {
            Err(PluginError { message: "handler failed".to_string() })
        } else {
            Ok(())
        }
    }
}

#[test]
fn startup_skips_disabled_entries() {
    let mut store = ConfigStore::new();
    store.set_value("beta", "enabled", ConfigValue::Boolean(false));
    let mut manager: PluginManager<CountingPlugin, ()> = PluginManager::new();
    manager.install_config(store);
    manager
        .register(PluginBundle { instance: CountingPlugin::named("alpha"), module: () })
        .unwrap();
    manager
        .register(PluginBundle { instance: CountingPlugin::named("beta"), module: () })
        .unwrap();
    assert!(manager.enabled_at(0));
    assert!(!manager.enabled_at(1));
    // the disabled entry saw no on_load either
    assert_eq!(manager.instance_at(0).loads, 1);
    assert_eq!(manager.instance_at(1).loads, 0);
    let report = manager.fire_event(SystemEvent::Startup);
    assert_eq!(report.records.len(), 1);
    assert_eq!(report.records[0].plugin, "alpha");
    assert_eq!(manager.instance_at(0).events, 1);
    assert_eq!(manager.instance_at(1).events, 0);
}

#[test]
fn one_failing_handler_does_not_block_the_rest() {
    let mut manager: PluginManager<CountingPlugin, ()> = PluginManager::new();
    let mut bad = CountingPlugin::named("bad");
    bad.fail_events = true;
    manager.register(PluginBundle { instance: bad, module: () }).unwrap();
    manager
        .register(PluginBundle { instance: CountingPlugin::named("good"), module: () })
        .unwrap();
    let report = manager.fire_event(SystemEvent::Startup);
    assert_eq!(report.records.len(), 2);
    assert_eq!(report.records[0].plugin, "bad");
    assert!(report.records[0].outcome.is_err());
    assert_eq!(report.records[1].plugin, "good");
    assert!(report.records[1].outcome.is_ok());
    assert_eq!(manager.instance_at(0).events, 1);
    assert_eq!(manager.instance_at(1).events, 1);
}

#[test]
fn essential_entry_ignores_disabling_configuration() {
    let mut store = ConfigStore::new();
    store.set_value("core", "enabled", ConfigValue::Boolean(false));
    let mut manager: PluginManager<CountingPlugin, ()> = PluginManager::new();
    manager.install_config(store);
    let mut core = CountingPlugin::named("core");
    core.essential = true;
    manager.register(PluginBundle { instance: core, module: () }).unwrap();
    assert!(manager.enabled_at(0));
    assert_eq!(manager.instance_at(0).loads, 1);
}

#[test]
fn scan_registers_loadables_and_reports_failures() {
    let mut manager: PluginManager<CountingPlugin, ()> = PluginManager::new();
    let items = vec![
        ScanItem::Candidate(PluginBundle { instance: CountingPlugin::named("alpha"), module: () }),
        ScanItem::Unloadable {
            path: "plugins/broken.so".to_string(),
            cause: "could not resolve the entry symbol".to_string(),
        },
        ScanItem::Candidate(PluginBundle { instance: CountingPlugin::named("beta"), module: () }),
    ];
    let report = manager.register_scan(items);
    assert_eq!(manager.plugin_count(), 2);
    assert_eq!(report.registered, vec!["alpha".to_string(), "beta".to_string()]);
    assert_eq!(report.rejected.len(), 0);
    assert_eq!(report.load_failures.len(), 1);
    assert_eq!(report.load_failures[0].0, "plugins/broken.so");
}

#[test]
fn duplicate_name_is_rejected_not_overwritten() {
    let mut manager: PluginManager<CountingPlugin, ()> = PluginManager::new();
    manager
        .register(PluginBundle { instance: CountingPlugin::named("alpha"), module: () })
        .unwrap();
    let second = manager.register(PluginBundle { instance: CountingPlugin::named("alpha"), module: () });
    assert!(matches!(second, Err(RegisterError::DuplicateName { .. })));
    assert_eq!(manager.plugin_count(), 1);
}

#[test]
fn failed_on_load_keeps_entry_out() {
    struct FailsToLoad;
    impl Plugin for FailsToLoad {
        fn spec_name(&self) -> vstd::prelude::Seq<char> {
            panic!()
        }
        fn spec_essential(&self) -> bool {
            panic!()
        }
        fn metadata(&self) -> PluginMetadata {
            PluginMetadata {
                name: "frail".to_string(),
                version: "0.1.0".to_string(),
                author: "test".to_string(),
                description: "fails to initialize".to_string(),
                essential: false,
            }
        }
        fn on_load(&mut self) -> Result<(), PluginError> {
            Err(PluginError { message: "no".to_string() })
        }
        fn handle_event(
            &mut self,
            _event: &SystemEvent,
            _ctx: &mut Context,
        ) -> Result<(), PluginError> {
            Ok(())
        }
    }
    let mut manager: PluginManager<FailsToLoad, ()> = PluginManager::new();
    let outcome = manager.register(PluginBundle { instance: FailsToLoad, module: () });
    assert!(matches!(outcome, Err(RegisterError::InitFailed { .. })));
    assert_eq!(manager.plugin_count(), 0);
}

#[test]
fn unload_runs_hooks_in_registration_order() {
    let mut store = ConfigStore::new();
    store.set_value("beta", "enabled", ConfigValue::Boolean(false));
    let mut manager: PluginManager<CountingPlugin, ()> = PluginManager::new();
    manager.install_config(store);
    manager
        .register(PluginBundle { instance: CountingPlugin::named("alpha"), module: () })
        .unwrap();
    manager
        .register(PluginBundle { instance: CountingPlugin::named("beta"), module: () })
        .unwrap();
    let report = manager.unload_all();
    assert_eq!(manager.plugin_count(), 0);
    assert_eq!(report.len(), 2);
    assert_eq!(report[0].0, "alpha");
    assert!(report[0].1.is_none());
    // the disabled entry never saw on_load, so its on_unload is not run
    assert_eq!(report[1].0, "beta");
    assert!(report[1].1.is_none());
}

/// A plugin that emits a custom event on every delivery, so the drain queue
/// never empties and the dispatcher must cut it off.
struct NoisyPlugin;

impl Plugin for NoisyPlugin {
    fn spec_name(&self) -> vstd::prelude::Seq<char> {
        panic!()
    }
    fn spec_essential(&self) -> bool {
        panic!()
    }
    fn metadata(&self) -> PluginMetadata {
        PluginMetadata {
            name: "noisy".to_string(),
            version: "0.1.0".to_string(),
            author: "test".to_string(),
            description: "emits endlessly".to_string(),
            essential: false,
        }
    }
    fn handle_event(&mut self, _event: &SystemEvent, ctx: &mut Context) -> Result<(), PluginError> {
        ctx.emit(SystemEvent::Custom {
            source: "noisy".to_string(),
            event: "again".to_string(),
            payload: None,
        });
        Ok(())
    }
}

#[test]
fn emission_cycle_is_rejected() {
    let mut manager: PluginManager<NoisyPlugin, ()> = PluginManager::new();
    manager.register(PluginBundle { instance: NoisyPlugin, module: () }).unwrap();
    let report = manager.fire_event(SystemEvent::Startup);
    assert!(report.cycle_rejected);
    assert_eq!(report.records.len(), drk::manager::MAX_EVENT_PASSES as usize);
}

/// Doubles that record their own destruction, to observe teardown order.
struct DropProbePlugin {
    log: Rc<RefCell<Vec<String>>>,
    name: &'static str,
    fail_unload: bool,
}

struct DropProbeHandle {
    log: Rc<RefCell<Vec<String>>>,
    name: &'static str,
}

impl Drop for DropProbePlugin {
    fn drop(&mut self) {
        self.log.borrow_mut().push(format!("{} instance destroyed", self.name));
    }
}

impl Drop for DropProbeHandle {
    fn drop(&mut self) {
        self.log.borrow_mut().push(format!("{} module unmapped", self.name));
    }
}

impl Plugin for DropProbePlugin {
    fn spec_name(&self) -> vstd::prelude::Seq<char> {
        panic!()
    }
    fn spec_essential(&self) -> bool {
        panic!()
    }
    fn metadata(&self) -> PluginMetadata {
        PluginMetadata {
            name: self.name.to_string(),
            version: "0.1.0".to_string(),
            author: "test".to_string(),
            description: "records its destruction".to_string(),
            essential: false,
        }
    }
    fn on_unload(&mut self) -> Result<(), PluginError> {
        if self.fail_unload {
            Err(PluginError { message: "refusing to unload".to_string() })
        } else {
            Ok(())
        }
    }
    fn handle_event(&mut self, _event: &SystemEvent, _ctx: &mut Context) -> Result<(), PluginError> {
        Ok(())
    }
}

#[test]
fn teardown_destroys_instance_before_module() {
    let log: Rc<RefCell<Vec<String>>> = Rc::new(RefCell::new(Vec::new()));
    let mut manager: PluginManager<DropProbePlugin, DropProbeHandle> = PluginManager::new();
    manager
        .register(PluginBundle {
            instance: DropProbePlugin { log: log.clone(), name: "one", fail_unload: false },
            module: DropProbeHandle { log: log.clone(), name: "one" },
        })
        .unwrap();
    manager
        .register(PluginBundle {
            instance: DropProbePlugin { log: log.clone(), name: "two", fail_unload: true },
            module: DropProbeHandle { log: log.clone(), name: "two" },
        })
        .unwrap();
    let report = manager.unload_all();
    assert!(report[0].1.is_none());
    assert!(report[1].1.is_some());
    let seen = log.borrow().clone();
    assert_eq!(
        seen,
        vec![
            "one instance destroyed".to_string(),
            "one module unmapped".to_string(),
            "two instance destroyed".to_string(),
            "two module unmapped".to_string(),
        ]
    );
}

#[test]
fn rejected_bundle_still_tears_down_in_order() {
    let log: Rc<RefCell<Vec<String>>> = Rc::new(RefCell::new(Vec::new()));
    let mut manager: PluginManager<DropProbePlugin, DropProbeHandle> = PluginManager::new();
    manager
        .register(PluginBundle {
            instance: DropProbePlugin { log: log.clone(), name: "one", fail_unload: false },
            module: DropProbeHandle { log: log.clone(), name: "one" },
        })
        .unwrap();
    // the duplicate is rejected; its bundle is dropped instance-first
    let dup = manager.register(PluginBundle {
        instance: DropProbePlugin { log: log.clone(), name: "one", fail_unload: false },
        module: DropProbeHandle { log: log.clone(), name: "one" },
    });
    assert!(dup.is_err());
    let seen = log.borrow().clone();
    assert_eq!(
        seen,
        vec!["one instance destroyed".to_string(), "one module unmapped".to_string()]
    );
}

#[test]
fn startup_reaches_every_enabled_entry_once() {
    let mut manager: PluginManager<CountingPlugin, ()> = PluginManager::new();
    manager
        .register(PluginBundle { instance: CountingPlugin::named("alpha"), module: () })
        .unwrap();
    manager
        .register(PluginBundle { instance: CountingPlugin::named("beta"), module: () })
        .unwrap();
    let report = manager.fire_event(SystemEvent::Startup);
    assert!(!report.cycle_rejected);
    assert_eq!(report.records.len(), 2);
    assert_eq!(report.records[0].plugin, "alpha");
    assert_eq!(report.records[1].plugin, "beta");
    assert_eq!(manager.instance_at(0).events, 1);
    assert_eq!(manager.instance_at(1).events, 1);
}
