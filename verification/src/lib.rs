//! A plugin host: discovers, registers, and drives extension modules through a
//! fixed contract, mediating all host/extension communication through a typed
//! event protocol.
//!
//! The crate is organised leaf-first:
//! - [`text`] — verified string helpers the other modules build on;
//! - [`assoc`] — a verified string-keyed association list with a `Map` view;
//! - [`config`] — the configuration store, keyed by plugin name;
//! - [`api`] — the plugin contract: command schemas, events, metadata, the
//!   per-call [`api::Context`], and the [`api::Plugin`] trait;
//! - [`matcher`] — turns raw invocation tokens into typed command matches;
//! - [`manager`] — the registry that owns loaded entries and delivers events;
//! - [`bus`] — the older name-keyed event bus, kept for its subscribers;
//! - [`plugins`] — the plugins that ship with the host.
//!
//! `Seq` is re-exported so that a program implementing [`api::Plugin`] for a
//! type of its own can write out the trait's specification-level items.

pub mod api;
pub mod assoc;
pub mod bus;
pub mod config;
pub mod manager;
pub mod matcher;
pub mod plugins;
pub mod text;

pub use vstd::prelude::Seq;
