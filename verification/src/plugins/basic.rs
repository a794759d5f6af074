//! The basic plugin: a `greet` command with an optional name and an `echo`
//! command with a required message. Where the original process printed, this
//! instance keeps its output lines, for the surrounding program to render.

use vstd::prelude::*;
use crate::api::{
    ArgType, CommandArg, CommandMatches, Context, Plugin, PluginCommand, PluginError,
    PluginMetadata, SystemEvent,
};
use crate::config::{ConfigStore, ConfigValue};
use vstd::string::StringExecFns;

verus! {

/// The plugin's state: the lines it would have printed, in order.
pub struct BasicPlugin {
    messages: Vec<String>,
}

/// The greeting prefix: the `greeting_prefix` text from the plugin's own
/// configuration section, or `Hello`.
pub open spec fn spec_greet_prefix(cfg: ConfigStore) -> Seq<char> {
    match cfg.spec_get("basic"@, "greeting_prefix"@) {
        Some(ConfigValue::Text(s)) => s@,
        _ => "Hello"@,
    }
}

/// The name to greet: the `name` argument, or `World` when it is absent.
pub open spec fn spec_greet_name(m: &CommandMatches) -> Seq<char> {
    if m.args@.contains_key("name"@) {
        m.args@["name"@]@
    } else {
        "World"@
    }
}

/// The lines one command execution produces.
pub open spec fn spec_basic_exec_lines(m: &CommandMatches, cfg: ConfigStore) -> Seq<Seq<char>> {
    if m.command_name@ == "greet"@ {
        seq![spec_greet_prefix(cfg) + " "@ + spec_greet_name(m) + "!"@]
    } else if m.command_name@ == "echo"@ {
        if m.args@.contains_key("message"@) {
            seq![m.args@["message"@]@ + "!"@]
        } else {
            seq!["message argument is required!"@]
        }
    } else {
        seq!["Unknown command: "@ + m.command_name@]
    }
}

/// The lines one event produces.
pub open spec fn spec_basic_lines(event: &SystemEvent, cfg: ConfigStore) -> Seq<Seq<char>> {
    match event {
        SystemEvent::Startup => seq!["[BasicPlugin] I see the app is starting."@],
        SystemEvent::PreCommand { name, .. } => seq!["[BasicPlugin] PreCommand hook: "@ + name@],
        SystemEvent::ExecuteCommand { plugin_name, matches } => if plugin_name@ == "basic"@
            && matches.args.wf() {
            spec_basic_exec_lines(matches, cfg)
        } else {
            Seq::empty()
        },
        _ => Seq::empty(),
    }
}

/// Whether an event makes this plugin greet, and so emit its custom event.
pub open spec fn spec_basic_greets(event: &SystemEvent) -> bool {
    &&& event matches SystemEvent::ExecuteCommand { plugin_name, matches }
    &&& plugin_name@ == "basic"@
    &&& matches.args.wf()
    &&& matches.command_name@ == "greet"@
}

/// The custom event the plugin emits after greeting.
pub open spec fn spec_is_greeted_custom(e: SystemEvent) -> bool {
    &&& e matches SystemEvent::Custom { source, event, payload }
    &&& source@ == "basic"@
    &&& event@ == "greeted"@
    &&& payload is None
}

impl BasicPlugin {
    /// The lines the plugin has produced so far, oldest first.
    pub closed spec fn spec_messages(&self) -> Seq<Seq<char>> {
        self.messages.deep_view()
    }

    /// A fresh instance with no output.
    pub fn new() -> (r: Self)
        ensures
            r.spec_messages() == Seq::<Seq<char>>::empty(),
    {
        let r = BasicPlugin { messages: Vec::new() };
        proof {
            assert(r.messages.deep_view() =~= Seq::<Seq<char>>::empty());
        }
        r
    }

    /// The lines the plugin has produced so far.
    pub fn messages(&self) -> (r: &Vec<String>)
        ensures
            r.deep_view() == self.spec_messages(),
    {
        &self.messages
    }

    fn push_line(&mut self, line: String)
        ensures
            final(self).spec_messages() == old(self).spec_messages().push(line@),
    {
        let ghost l = line@;
        self.messages.push(line);
        proof {
            assert(self.messages.deep_view() =~= old(self).messages.deep_view().push(l));
        }
    }

    fn execute_command(&mut self, matches: &CommandMatches, ctx: &mut Context) -> (r: Result<
        (),
        PluginError,
    >)
        requires
            old(ctx).wf(),
            matches.args.wf(),
        ensures
            final(ctx).wf(),
            r is Ok,
            final(self).spec_messages() == old(self).spec_messages() + spec_basic_exec_lines(
                matches,
                old(ctx).spec_config(),
            ),
            final(ctx).spec_config() == old(ctx).spec_config(),
            if matches.command_name@ == "greet"@ {
                final(ctx).spec_emitted() == old(ctx).spec_emitted().push(
                    final(ctx).spec_emitted().last(),
                ) && spec_is_greeted_custom(final(ctx).spec_emitted().last())
            } else {
                final(ctx).spec_emitted() == old(ctx).spec_emitted()
            },
    {
        let ghost lines = spec_basic_exec_lines(matches, old(ctx).spec_config());
        if crate::text::str_eq(matches.command_name.as_str(), "greet") {
            let prefix: &str = match ctx.get_config("basic", "greeting_prefix") {
                Some(ConfigValue::Text(s)) => s.as_str(),
                _ => "Hello",
            };
            let name: &str = match matches.args.get("name") {
                Some(v) => v.as_str(),
                None => "World",
            };
            let mut line = String::new();
            line.append(prefix);
            line.append(" ");
            line.append(name);
            line.append("!");
            proof {
                assert(line@ =~= spec_greet_prefix(old(ctx).spec_config()) + " "@
                    + spec_greet_name(matches) + "!"@);
            }
            self.push_line(line);
            ctx.emit(
                SystemEvent::Custom {
                    source: String::from_str("basic"),
                    event: String::from_str("greeted"),
                    payload: None,
                },
            );
            proof {
                assert(final(self).spec_messages() =~= old(self).spec_messages() + lines);
            }
            Ok(())
        } else if crate::text::str_eq(matches.command_name.as_str(), "echo") {
            match matches.args.get("message") {
                Some(message) => {
                    let mut line = String::new();
                    line.append(message.as_str());
                    line.append("!");
                    proof {
                        assert(line@ =~= matches.args@["message"@]@ + "!"@);
                    }
                    self.push_line(line);
                },
                None => {
                    self.push_line(String::from_str("message argument is required!"));
                },
            }
            proof {
                assert(final(self).spec_messages() =~= old(self).spec_messages() + lines);
            }
            Ok(())
        } else {
            let mut line = String::from_str("Unknown command: ");
            line.append(matches.command_name.as_str());
            self.push_line(line);
            proof {
                assert(final(self).spec_messages() =~= old(self).spec_messages() + lines);
            }
            Ok(())
        }
    }
}

impl Plugin for BasicPlugin {
    open spec fn spec_name(&self) -> Seq<char> {
        "basic"@
    }

    open spec fn spec_essential(&self) -> bool {
        false
    }

    fn metadata(&self) -> (m: PluginMetadata) {
        PluginMetadata {
            name: String::from_str("basic"),
            version: String::from_str("0.1.0"),
            author: String::from_str("You"),
            description: String::from_str("A basic plugin with greet and echo commands"),
            essential: false,
        }
    }

    fn get_commands(&self) -> (commands: Vec<PluginCommand>)
        ensures
            commands@.len() == 2,
            commands@[0].name@ == "greet"@,
            commands@[0].args@.len() == 1,
            commands@[0].args@[0].name@ == "name"@,
            commands@[0].args@[0].required == false,
            commands@[0].args@[0].arg_type == ArgType::String,
            commands@[1].name@ == "echo"@,
            commands@[1].args@.len() == 1,
            commands@[1].args@[0].name@ == "message"@,
            commands@[1].args@[0].required == true,
            commands@[1].args@[0].arg_type == ArgType::String,
    {
        let mut greet_args: Vec<CommandArg> = Vec::new();
        greet_args.push(
            CommandArg {
                name: String::from_str("name"),
                description: String::from_str("The name to greet"),
                required: false,
                arg_type: ArgType::String,
            },
        );
        let mut echo_args: Vec<CommandArg> = Vec::new();
        echo_args.push(
            CommandArg {
                name: String::from_str("message"),
                description: String::from_str("The message to echo"),
                required: true,
                arg_type: ArgType::String,
            },
        );
        let mut commands: Vec<PluginCommand> = Vec::new();
        commands.push(
            PluginCommand {
                name: String::from_str("greet"),
                description: String::from_str("Greet someone by name"),
                args: greet_args,
            },
        );
        commands.push(
            PluginCommand {
                name: String::from_str("echo"),
                description: String::from_str("Echo back a message"),
                args: echo_args,
            },
        );
        commands
    }

    fn on_load(&mut self) -> (r: Result<(), PluginError>)
        ensures
            final(self).spec_messages() == old(self).spec_messages().push(
                "[BasicPlugin] Loaded and ready!"@,
            ),
            r is Ok,
    {
        self.push_line(String::from_str("[BasicPlugin] Loaded and ready!"));
        Ok(())
    }

    fn handle_event(&mut self, event: &SystemEvent, ctx: &mut Context) -> (r: Result<
        (),
        PluginError,
    >)
        ensures
            r is Ok,
            final(self).spec_messages() == old(self).spec_messages() + spec_basic_lines(
                event,
                old(ctx).spec_config(),
            ),
            final(ctx).spec_config() == old(ctx).spec_config(),
            if spec_basic_greets(event) {
                final(ctx).spec_emitted() == old(ctx).spec_emitted().push(
                    final(ctx).spec_emitted().last(),
                ) && spec_is_greeted_custom(final(ctx).spec_emitted().last())
            } else {
                final(ctx).spec_emitted() == old(ctx).spec_emitted()
            },
    {
        let ghost lines = spec_basic_lines(event, old(ctx).spec_config());
        match event {
            SystemEvent::Startup => {
                self.push_line(String::from_str("[BasicPlugin] I see the app is starting."));
                proof {
                    assert(final(self).spec_messages() =~= old(self).spec_messages() + lines);
                }
                Ok(())
            },
            SystemEvent::ExecuteCommand { plugin_name, matches } => {
                if crate::text::str_eq(plugin_name.as_str(), "basic") && matches.args.check_wf() {
                    self.execute_command(matches, ctx)
                } else {
                    proof {
                        assert(old(self).spec_messages() + lines =~= old(self).spec_messages());
                    }
                    Ok(())
                }
            },
            SystemEvent::PreCommand { name, .. } => {
                let mut line = String::from_str("[BasicPlugin] PreCommand hook: ");
                line.append(name.as_str());
                self.push_line(line);
                proof {
                    assert(final(self).spec_messages() =~= old(self).spec_messages() + lines);
                }
                Ok(())
            },
            _ => {
                proof {
                    assert(old(self).spec_messages() + lines =~= old(self).spec_messages());
                }
                Ok(())
            },
        }
    }
}

} // verus!
