//! The logger plugin: it renders one line for every event it sees. Where the
//! original process printed, this instance keeps its lines, for the
//! surrounding program to render.

use vstd::prelude::*;
use crate::api::{Context, Plugin, PluginError, PluginMetadata, SystemEvent};
use vstd::string::StringExecFns;

verus! {

/// The plugin's state: the lines it would have printed, in order.
pub struct LoggerPlugin {
    lines: Vec<String>,
}

/// The line the logger renders for one event.
pub open spec fn spec_logger_line(event: &SystemEvent) -> Seq<char> {
    match event {
        SystemEvent::Startup => "[Logger] System is starting up..."@,
        SystemEvent::PreCommand { name, .. } => "[Logger] About to run: "@ + name@,
        SystemEvent::PostCommand { name, success } => "[Logger] Command '"@ + name@
            + "' completed with status: "@ + (if *success {
            "success"@
        } else {
            "failed"@
        }),
        SystemEvent::ExecuteCommand { plugin_name, matches } => "[Logger] Executing command '"@
            + matches.command_name@ + "' from plugin '"@ + plugin_name@ + "'"@,
        SystemEvent::Custom { source, event, .. } => "[Logger] Intercepted event '"@ + event@
            + "' from '"@ + source@ + "'"@,
    }
}

impl LoggerPlugin {
    /// The lines the plugin has produced so far, oldest first.
    pub closed spec fn spec_lines(&self) -> Seq<Seq<char>> {
        self.lines.deep_view()
    }

    /// A fresh instance with no output.
    pub fn new() -> (r: Self)
        ensures
            r.spec_lines() == Seq::<Seq<char>>::empty(),
    {
        let r = LoggerPlugin { lines: Vec::new() };
        proof {
            assert(r.lines.deep_view() =~= Seq::<Seq<char>>::empty());
        }
        r
    }

    /// The lines the plugin has produced so far.
    pub fn lines(&self) -> (r: &Vec<String>)
        ensures
            r.deep_view() == self.spec_lines(),
    {
        &self.lines
    }
}

impl Plugin for LoggerPlugin {
    open spec fn spec_name(&self) -> Seq<char> {
        "logger"@
    }

    open spec fn spec_essential(&self) -> bool {
        false
    }

    fn metadata(&self) -> (m: PluginMetadata) {
        PluginMetadata {
            name: String::from_str("logger"),
            version: String::from_str("0.0.1"),
            author: String::from_str("dark1zinn"),
            description: String::from_str("Logs events to console"),
            essential: false,
        }
    }

    fn handle_event(&mut self, event: &SystemEvent, ctx: &mut Context) -> (r: Result<
        (),
        PluginError,
    >)
        ensures
            r is Ok,
            final(self).spec_lines() == old(self).spec_lines().push(spec_logger_line(event)),
            final(ctx).spec_config() == old(ctx).spec_config(),
            final(ctx).spec_emitted() == old(ctx).spec_emitted(),
    {
        let line = match event {
            SystemEvent::Startup => String::from_str("[Logger] System is starting up..."),
            SystemEvent::PreCommand { name, .. } => {
                let mut l = String::from_str("[Logger] About to run: ");
                l.append(name.as_str());
                l
            },
            SystemEvent::PostCommand { name, success } => {
                let mut l = String::from_str("[Logger] Command '");
                l.append(name.as_str());
                l.append("' completed with status: ");
                if *success {
                    l.append("success");
                } else {
                    l.append("failed");
                }
                l
            },
            SystemEvent::ExecuteCommand { plugin_name, matches } => {
                let mut l = String::from_str("[Logger] Executing command '");
                l.append(matches.command_name.as_str());
                l.append("' from plugin '");
                l.append(plugin_name.as_str());
                l.append("'");
                l
            },
            SystemEvent::Custom { source, event, .. } => {
                let mut l = String::from_str("[Logger] Intercepted event '");
                l.append(event.as_str());
                l.append("' from '");
                l.append(source.as_str());
                l.append("'");
                l
            },
        };
        proof {
            assert(line@ == spec_logger_line(event));
        }
        let ghost l = line@;
        self.lines.push(line);
        proof {
            assert(self.lines.deep_view() =~= old(self).lines.deep_view().push(l));
        }
        Ok(())
    }
}

} // verus!
