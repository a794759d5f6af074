use drk::api::CustomPayload;
use drk::bus::{EventBus, EventHandler};
use drk::config::{ConfigStore, ConfigValue};
use std::cell::Cell;
use std::rc::Rc;

struct CountingHandler {
    calls: Rc<Cell<u32>>,
}

impl EventHandler for CountingHandler {
    fn handle(&self, _payload: Option<&CustomPayload>) {
        self.calls.set(self.calls.get() + 1);
    }
}

#[test]
fn publish_reaches_every_subscriber_of_the_name() {
    let first = Rc::new(Cell::new(0u32));
    let second = Rc::new(Cell::new(0u32));
    let mut bus: EventBus<CountingHandler> = EventBus::new();
    bus.subscribe("tick", CountingHandler { calls: first.clone() });
    bus.subscribe("tick", CountingHandler { calls: second.clone() });
    bus.publish("tick", None);
    assert_eq!(first.get(), 1);
    assert_eq!(second.get(), 1);
    bus.publish("tock", None);
    assert_eq!(first.get(), 1);
    assert_eq!(second.get(), 1);
    bus.publish("tick", None);
    assert_eq!(first.get(), 2);
}

#[test]
fn publish_carries_the_payload() {
    struct TagChecker {
        seen: Rc<Cell<bool>>,
    }
    impl EventHandler for TagChecker {
        fn handle(&self, payload: Option<&CustomPayload>) {
            if let Some(p) = payload {
                if p.type_tag == "greeting" && p.data == vec![1u8, 2u8] {
                    self.seen.set(true);
                }
            }
        }
    }
    let seen = Rc::new(Cell::new(false));
    let mut bus: EventBus<TagChecker> = EventBus::new();
    bus.subscribe("hello", TagChecker { seen: seen.clone() });
    let payload = CustomPayload { type_tag: "greeting".to_string(), data: vec![1u8, 2u8] };
    bus.publish("hello", Some(&payload));
    assert!(seen.get());
}

#[test]
fn config_values_round_trip() {
    let mut store = ConfigStore::new();
    store.set_value("basic", "greeting_prefix", ConfigValue::Text("Howdy".to_string()));
    store.set_value("basic", "retries", ConfigValue::Integer(3));
    store.set_value("logger", "enabled", ConfigValue::Boolean(false));
    match store.get_value("basic", "greeting_prefix") {
        Some(ConfigValue::Text(s)) => assert_eq!(s, "Howdy"),
        other => panic!("unexpected value: {:?}", other),
    }
    match store.get_value("basic", "retries") {
        Some(ConfigValue::Integer(3)) => {}
        other => panic!("unexpected value: {:?}", other),
    }
    assert!(store.get_value("basic", "missing").is_none());
    assert!(store.get_value("nobody", "enabled").is_none());
}

#[test]
fn enabled_decision_follows_the_reserved_key() {
    let mut store = ConfigStore::new();
    store.set_value("off", "enabled", ConfigValue::Boolean(false));
    store.set_value("on", "enabled", ConfigValue::Boolean(true));
    store.set_value("odd", "enabled", ConfigValue::Text("no".to_string()));
    assert!(!store.plugin_enabled("off", false));
    assert!(store.plugin_enabled("on", false));
    // a value of another type, or no section at all, means enabled
    assert!(store.plugin_enabled("odd", false));
    assert!(store.plugin_enabled("absent", false));
    // essential overrides everything
    assert!(store.plugin_enabled("off", true));
}

#[test]
fn later_settings_replace_earlier_ones() {
    let mut store = ConfigStore::new();
    store.set_value("basic", "greeting_prefix", ConfigValue::Text("Hi".to_string()));
    store.set_value("basic", "greeting_prefix", ConfigValue::Text("Hey".to_string()));
    match store.get_value("basic", "greeting_prefix") {
        Some(ConfigValue::Text(s)) => assert_eq!(s, "Hey"),
        other => panic!("unexpected value: {:?}", other),
    }
}
