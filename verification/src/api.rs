//! The plugin contract: the data a plugin declares about itself, the typed
//! event protocol, the per-call [`Context`], and the [`Plugin`] trait that
//! every extension implements.

use vstd::prelude::*;
use crate::assoc::AssocList;
use crate::config::{ConfigStore, ConfigValue};

verus! {

/// The type of a command argument.
#[derive(Clone, Copy, Debug, PartialEq, Eq, Structural)]
pub enum ArgType {
    String,
    Integer,
    Float,
    Boolean,
    /// A single unnamed token, bound by declaration order.
    Positional,
}

/// Describes one argument of a command.
#[derive(Debug)]
pub struct CommandArg {
    pub name: String,
    pub description: String,
    pub required: bool,
    pub arg_type: ArgType,
}

/// A command a plugin offers, declared as passive data so the description can
/// cross a module boundary without linking against a concrete parser.
#[derive(Debug)]
pub struct PluginCommand {
    pub name: String,
    pub description: String,
    pub args: Vec<CommandArg>,
}

/// The resolved arguments of one command invocation. Every value is
/// normalized to text at this layer; an absent optional argument is a missing
/// key, never a present-but-empty value.
#[derive(Debug)]
pub struct CommandMatches {
    pub command_name: String,
    pub args: AssocList<String>,
}

/// An untyped payload a plugin may attach to a custom event: a nominal type
/// tag plus an opaque blob whose interpretation is a private agreement
/// between the emitting and consuming plugins.
#[derive(Debug)]
pub struct CustomPayload {
    pub type_tag: String,
    pub data: Vec<u8>,
}

/// The closed set of event shapes the host delivers.
#[derive(Debug)]
pub enum SystemEvent {
    /// Fired exactly once, before any command is parsed.
    Startup,
    /// Fired once per invocation, before typed extraction, carrying the raw
    /// argument tokens.
    PreCommand { name: String, args: Vec<String> },
    /// Fired once per invocation, after the owning plugin's handler returns;
    /// `success` reflects whether it returned without error.
    PostCommand { name: String, success: bool },
    /// Fired once per invocation, after typed extraction; every enabled entry
    /// receives it, and a well-behaved handler acts only when `plugin_name`
    /// matches its own.
    ExecuteCommand { plugin_name: String, matches: CommandMatches },
    /// A hook from another plugin; the host never inspects the payload.
    Custom { source: String, event: String, payload: Option<CustomPayload> },
}

/// What a plugin reports about itself. Immutable once read from an instance.
#[derive(Debug)]
pub struct PluginMetadata {
    pub name: String,
    pub version: String,
    pub author: String,
    pub description: String,
    /// An essential plugin cannot be disabled through configuration.
    pub essential: bool,
}

/// An error a plugin hands back from a lifecycle hook or an event handler.
#[derive(Debug)]
pub struct PluginError {
    pub message: String,
}

/// The capability object handed to a plugin on every call. It scopes the
/// plugin's access to the shared configuration and lets it request emission
/// of further events; emitted events are queued by the in-flight dispatch and
/// drained only after the current delivery pass returns.
pub struct Context {
    pub(crate) config: ConfigStore,
    pub(crate) emitted: Vec<SystemEvent>,
}

impl Context {
    /// The configuration store the call may read and write.
    pub closed spec fn spec_config(&self) -> ConfigStore {
        self.config
    }

    /// The events this call has asked the host to emit, in order.
    pub closed spec fn spec_emitted(&self) -> Seq<SystemEvent> {
        self.emitted@
    }

    /// The store's well-formedness, which every call preserves.
    pub closed spec fn wf(&self) -> bool {
        self.config.wf()
    }

    /// How the context's published specification functions read its fields;
    /// the dispatcher builds and unpacks contexts and needs the bridge.
    pub(crate) proof fn lemma_parts(&self)
        ensures
            self.wf() == self.config.wf(),
            self.spec_config() == self.config,
            self.spec_emitted() == self.emitted@,
    {
    }

    /// Reads a setting. Nothing scopes `plugin` to the caller's own name:
    /// any plugin can read any namespace.
    pub fn get_config<'a>(&'a self, plugin: &str, key: &str) -> (r: Option<&'a ConfigValue>)
        requires
            self.wf(),
        ensures
            match r {
                Some(v) => self.spec_config().spec_get(plugin@, key@) == Some(*v),
                None => self.spec_config().spec_get(plugin@, key@) is None,
            },
    {
        self.config.get_value(plugin, key)
    }

    /// Writes a setting, creating the plugin's section when it is missing.
    pub fn set_config(&mut self, plugin: &str, key: &str, value: ConfigValue)
        requires
            old(self).wf(),
        ensures
            final(self).wf(),
            final(self).spec_config().spec_get(plugin@, key@) == Some(value),
            forall|p: Seq<char>, k: Seq<char>|
                p != plugin@ || k != key@ ==> #[trigger] final(self).spec_config().spec_get(p, k)
                    == old(self).spec_config().spec_get(p, k),
            final(self).spec_emitted() == old(self).spec_emitted(),
    {
        self.config.set_value(plugin, key, value);
    }

    /// Requests emission of a further event. It is delivered only after the
    /// current delivery pass returns, never by recursive re-entry.
    pub fn emit(&mut self, event: SystemEvent)
        ensures
            final(self).spec_emitted() == old(self).spec_emitted().push(event),
            final(self).spec_config() == old(self).spec_config(),
            final(self).wf() == old(self).wf(),
    {
        self.emitted.push(event);
    }
}

/// The capability set every extension must implement.
///
/// `spec_name` and `spec_essential` are the identity a plugin's metadata
/// reports; they never change over the instance's lifetime, which lets the
/// registry cache the descriptor it reads at registration.
pub trait Plugin: Sized {
    /// The name the instance's metadata reports.
    spec fn spec_name(&self) -> Seq<char>;

    /// The essential flag the instance's metadata reports.
    spec fn spec_essential(&self) -> bool;

    /// Reports the plugin's descriptor. Pure: no observable effect expected.
    fn metadata(&self) -> (m: PluginMetadata)
        ensures
            m.name@ == self.spec_name(),
            m.essential == self.spec_essential(),
    ;

    /// The commands this plugin offers, read once at registration to build
    /// the merged command surface.
    fn get_commands(&self) -> (commands: Vec<PluginCommand>) {
        Vec::new()
    }

    /// Called once, only on an enabled entry, before any event dispatch.
    fn on_load(&mut self) -> (r: Result<(), PluginError>)
        ensures
            final(self).spec_name() == old(self).spec_name(),
            final(self).spec_essential() == old(self).spec_essential(),
    {
        Ok(())
    }

    /// Called once when the entry is removed from the registry.
    fn on_unload(&mut self) -> (r: Result<(), PluginError>)
        ensures
            final(self).spec_name() == old(self).spec_name(),
            final(self).spec_essential() == old(self).spec_essential(),
    {
        Ok(())
    }

    /// Receives every event fired while the entry is enabled; a handler must
    /// ignore event shapes it does not care about.
    fn handle_event(&mut self, event: &SystemEvent, ctx: &mut Context) -> (r: Result<
        (),
        PluginError,
    >)
        requires
            old(ctx).wf(),
        ensures
            final(ctx).wf(),
            final(self).spec_name() == old(self).spec_name(),
            final(self).spec_essential() == old(self).spec_essential(),
    ;
}

} // verus!
