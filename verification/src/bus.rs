//! The name-keyed event bus of the host's earlier interface: subscribers
//! register under an event name, and publishing an event hands its payload
//! to every handler subscribed under that name, in subscription order. The
//! typed dispatcher of [`crate::manager`] supersedes it for plugin delivery;
//! the bus stays for subscribers keyed by plain names.

use vstd::prelude::*;
use crate::api::CustomPayload;
use crate::assoc::AssocList;

verus! {

/// Metadata as the bus-era interface records it, without the host's
/// essential flag.
#[derive(Debug)]
pub struct PluginMetadata {
    pub name: String,
    pub version: String,
    pub author: String,
    pub description: String,
}

/// A handler of named events. What a handler does with a payload is its own
/// affair; the bus promises it nothing and asks it nothing.
pub trait EventHandler {
    fn handle(&self, payload: Option<&CustomPayload>);
}

/// The bus: event name to handlers, in subscription order.
pub struct EventBus<H> {
    listeners: AssocList<Vec<H>>,
}

impl<H: EventHandler> EventBus<H> {
    /// Event name to the handlers subscribed under it.
    pub closed spec fn view_map(&self) -> Map<Seq<char>, Vec<H>> {
        self.listeners@
    }

    /// The bus's topic keys are distinct.
    pub closed spec fn wf(&self) -> bool {
        self.listeners.wf()
    }

    /// An empty bus.
    pub fn new() -> (r: Self)
        ensures
            r.wf(),
            r.view_map() == Map::<Seq<char>, Vec<H>>::empty(),
    {
        EventBus { listeners: AssocList::new() }
    }

    /// Subscribes a handler under an event name, after any earlier
    /// subscribers of that name.
    pub fn subscribe(&mut self, event_name: &str, handler: H)
        requires
            old(self).wf(),
        ensures
            final(self).wf(),
            final(self).view_map().contains_key(event_name@),
            final(self).view_map()[event_name@]@ == (if old(self).view_map().contains_key(
                event_name@,
            ) {
                old(self).view_map()[event_name@]@
            } else {
                Seq::<H>::empty()
            }).push(handler),
            forall|k: Seq<char>|
                k != event_name@ ==> (#[trigger] final(self).view_map().contains_key(k) == old(
                    self,
                ).view_map().contains_key(k) && (old(self).view_map().contains_key(k)
                    ==> final(self).view_map()[k] == old(self).view_map()[k])),
    {
        let mut handlers: Vec<H> = match self.listeners.take(event_name) {
            Some(v) => v,
            None => Vec::new(),
        };
        handlers.push(handler);
        self.listeners.set(event_name, handlers);
    }

    /// Hands the payload to every handler subscribed under this name, in
    /// subscription order; a name nobody subscribed to is ignored.
    pub fn publish(&self, event_name: &str, payload: Option<&CustomPayload>)
        requires
            self.wf(),
    {
        match self.listeners.get(event_name) {
            None => {},
            Some(handlers) => {
                let n = handlers.len();
                let mut i: usize = 0;
                while i < n
                    invariant
                        n == handlers@.len(),
                        i <= n,
                    decreases n - i,
                {
                    handlers[i].handle(payload);
                    i += 1;
                }
            },
        }
    }
}

} // verus!
