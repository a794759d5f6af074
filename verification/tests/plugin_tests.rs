use drk::api::{CommandMatches, SystemEvent};
use drk::assoc::AssocList;
use drk::config::{ConfigStore, ConfigValue};
use drk::manager::{is_module_path, PluginBundle, PluginManager, RunError};
use drk::matcher::UsageError;
use drk::plugins::basic::BasicPlugin;
use drk::api::Plugin;
use drk::plugins::logger::LoggerPlugin;
use drk::plugins::nix::{filter_templates, has_template, nix_commands, nix_execute, nix_metadata};

fn basic_host() -> PluginManager<BasicPlugin, ()> {
    let mut manager: PluginManager<BasicPlugin, ()> = PluginManager::new();
    manager
        .register(PluginBundle { instance: BasicPlugin::new(), module: () })
        .unwrap();
    manager
}

#[test]
fn greet_with_name_substitutes_the_argument() {
    let mut manager = basic_host();
    let report = manager
        .run_command("greet", vec!["--name".to_string(), "Ada".to_string()])
        .unwrap();
    assert_eq!(report.owner, "basic");
    assert!(report.success);
    let messages = manager.instance_at(0).messages();
    assert_eq!(
        messages,
        &vec![
            "[BasicPlugin] Loaded and ready!".to_string(),
            "[BasicPlugin] PreCommand hook: greet".to_string(),
            "Hello Ada!".to_string(),
        ]
    );
}

#[test]
fn greet_without_name_substitutes_the_default() {
    let mut manager = basic_host();
    manager.run_command("greet", vec![]).unwrap();
    let messages = manager.instance_at(0).messages();
    assert_eq!(messages[2], "Hello World!");
}

#[test]
fn greet_prefix_comes_from_the_plugin_configuration() {
    let mut store = ConfigStore::new();
    store.set_value("basic", "greeting_prefix", ConfigValue::Text("Howdy".to_string()));
    let mut manager: PluginManager<BasicPlugin, ()> = PluginManager::new();
    manager.install_config(store);
    manager
        .register(PluginBundle { instance: BasicPlugin::new(), module: () })
        .unwrap();
    manager
        .run_command("greet", vec!["--name".to_string(), "Ada".to_string()])
        .unwrap();
    assert_eq!(manager.instance_at(0).messages()[2], "Howdy Ada!");
}

#[test]
fn greeting_emits_a_custom_event_drained_after_the_pass() {
    let mut manager = basic_host();
    let report = manager
        .run_command("greet", vec!["--name".to_string(), "Ada".to_string()])
        .unwrap();
    // the execute dispatch delivers ExecuteCommand, then drains the emitted
    // custom event in a second pass to the same entry
    assert!(!report.execute.cycle_rejected);
    assert_eq!(report.execute.records.len(), 2);
    assert_eq!(report.execute.records[0].plugin, "basic");
    assert_eq!(report.execute.records[1].plugin, "basic");
}

#[test]
fn echo_requires_its_message_before_any_event() {
    let mut manager = basic_host();
    let outcome = manager.run_command("echo", vec![]);
    assert!(matches!(
        outcome,
        Err(RunError::Usage(UsageError::MissingRequiredArgument { ref name })) if name == "message"
    ));
    // the usage error was decided at the boundary: no event was fired
    assert_eq!(
        manager.instance_at(0).messages(),
        &vec!["[BasicPlugin] Loaded and ready!".to_string()]
    );
    let report = manager
        .run_command("echo", vec!["--message".to_string(), "hi".to_string()])
        .unwrap();
    assert!(report.success);
    assert_eq!(manager.instance_at(0).messages()[2], "hi!");
}

#[test]
fn unknown_command_reaches_no_plugin() {
    let mut manager = basic_host();
    let outcome = manager.run_command("frobnicate", vec![]);
    assert!(matches!(outcome, Err(RunError::UnknownCommand { .. })));
    assert_eq!(manager.instance_at(0).messages().len(), 1);
}

#[test]
fn basic_declares_greet_and_echo() {
    let manager = basic_host();
    let commands = manager.commands_at(0);
    assert_eq!(commands.len(), 2);
    assert_eq!(commands[0].name, "greet");
    assert!(!commands[0].args[0].required);
    assert_eq!(commands[1].name, "echo");
    assert!(commands[1].args[0].required);
}

#[test]
fn logger_renders_one_line_per_event() {
    let mut manager: PluginManager<LoggerPlugin, ()> = PluginManager::new();
    manager
        .register(PluginBundle { instance: LoggerPlugin::new(), module: () })
        .unwrap();
    manager.fire_event(SystemEvent::Startup);
    manager.fire_event(SystemEvent::PreCommand {
        name: "greet".to_string(),
        args: vec!["--name".to_string()],
    });
    manager.fire_event(SystemEvent::PostCommand { name: "greet".to_string(), success: false });
    manager.fire_event(SystemEvent::Custom {
        source: "basic".to_string(),
        event: "greeted".to_string(),
        payload: None,
    });
    let lines = manager.instance_at(0).lines();
    assert_eq!(
        lines,
        &vec![
            "[Logger] System is starting up...".to_string(),
            "[Logger] About to run: greet".to_string(),
            "[Logger] Command 'greet' completed with status: failed".to_string(),
            "[Logger] Intercepted event 'greeted' from 'basic'".to_string(),
        ]
    );
}

#[test]
fn nix_filters_template_directories() {
    let items = vec![
        ("rust".to_string(), "dir".to_string()),
        (".github".to_string(), "dir".to_string()),
        ("README.md".to_string(), "file".to_string()),
        ("haskell".to_string(), "dir".to_string()),
    ];
    let templates = filter_templates(&items);
    assert_eq!(templates, vec!["rust".to_string(), "haskell".to_string()]);
    assert!(has_template(&templates, "rust"));
    assert!(!has_template(&templates, ".github"));
}

fn nix_matches(command: &str, template: Option<&str>) -> CommandMatches {
    let mut args: AssocList<String> = AssocList::new();
    if let Some(t) = template {
        args.set("template", t.to_string());
    }
    CommandMatches { command_name: command.to_string(), args }
}

#[test]
fn nix_initializes_a_known_template() {
    let templates = vec!["rust".to_string(), "haskell".to_string()];
    let lines = nix_execute(&nix_matches("nix", Some("rust")), &templates);
    assert_eq!(
        lines,
        vec!["Initializing nix flake dev environment template: rust".to_string()]
    );
}

#[test]
fn nix_rejects_an_unknown_template() {
    let templates = vec!["rust".to_string()];
    let lines = nix_execute(&nix_matches("nix", Some("zig")), &templates);
    assert_eq!(lines.len(), 2);
    assert_eq!(lines[0], "Template not found!");
}

#[test]
fn nix_defaults_to_the_empty_template() {
    let templates = vec!["empty".to_string()];
    let lines = nix_execute(&nix_matches("nix", None), &templates);
    assert_eq!(
        lines,
        vec!["Initializing nix flake dev environment template: empty".to_string()]
    );
}

#[test]
fn nix_declares_its_command() {
    let m = nix_metadata();
    assert_eq!(m.name, "Nix");
    assert!(!m.essential);
    let commands = nix_commands();
    assert_eq!(commands.len(), 1);
    assert_eq!(commands[0].name, "nix");
    assert!(commands[0].args[0].required);
}

#[test]
fn module_paths_are_judged_by_suffix() {
    assert!(is_module_path("plugins/libbasic.so"));
    assert!(is_module_path("basic.dll"));
    assert!(is_module_path("deep/dir/basic.dylib"));
    assert!(!is_module_path("notes.txt"));
    assert!(!is_module_path("basic.so.txt"));
}

/// A host holding plugins of different kinds at once, as the real process
/// does: each entry wraps one of the shipped plugins.
enum AnyPlugin {
    Basic(BasicPlugin),
    Logger(LoggerPlugin),
}

impl drk::api::Plugin for AnyPlugin {
    // The two specification-level items are ghost: they are never run, and a
    // body is demanded only because the compiled trait still names them.
    fn spec_name(&self) -> drk::Seq<char> {
        panic!()
    }

    fn spec_essential(&self) -> bool {
        panic!()
    }

    fn metadata(&self) -> drk::api::PluginMetadata {
        match self {
            AnyPlugin::Basic(p) => p.metadata(),
            AnyPlugin::Logger(p) => p.metadata(),
        }
    }

    fn get_commands(&self) -> Vec<drk::api::PluginCommand> {
        match self {
            AnyPlugin::Basic(p) => p.get_commands(),
            AnyPlugin::Logger(p) => p.get_commands(),
        }
    }

    fn on_load(&mut self) -> Result<(), drk::api::PluginError> {
        match self {
            AnyPlugin::Basic(p) => p.on_load(),
            AnyPlugin::Logger(p) => p.on_load(),
        }
    }

    fn on_unload(&mut self) -> Result<(), drk::api::PluginError> {
        match self {
            AnyPlugin::Basic(p) => p.on_unload(),
            AnyPlugin::Logger(p) => p.on_unload(),
        }
    }

    fn handle_event(
        &mut self,
        event: &SystemEvent,
        ctx: &mut drk::api::Context,
    ) -> Result<(), drk::api::PluginError> {
        match self {
            AnyPlugin::Basic(p) => p.handle_event(event, ctx),
            AnyPlugin::Logger(p) => p.handle_event(event, ctx),
        }
    }
}

#[test]
fn logger_observes_the_whole_invocation_of_another_plugin() {
    let mut manager: PluginManager<AnyPlugin, ()> = PluginManager::new();
    manager
        .register(PluginBundle { instance: AnyPlugin::Basic(BasicPlugin::new()), module: () })
        .unwrap();
    manager
        .register(PluginBundle { instance: AnyPlugin::Logger(LoggerPlugin::new()), module: () })
        .unwrap();
    let report = manager
        .run_command("greet", vec!["--name".to_string(), "Ada".to_string()])
        .unwrap();
    assert!(report.success);
    let AnyPlugin::Logger(logger) = manager.instance_at(1) else {
        panic!("the second entry is the logger");
    };
    assert_eq!(
        logger.lines(),
        &vec![
            "[Logger] About to run: greet".to_string(),
            "[Logger] Executing command 'greet' from plugin 'basic'".to_string(),
            "[Logger] Intercepted event 'greeted' from 'basic'".to_string(),
            "[Logger] Command 'greet' completed with status: success".to_string(),
        ]
    );
}
