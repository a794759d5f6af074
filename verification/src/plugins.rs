//! The plugins that ship with the host, their behaviour verified against
//! the same contract every outside extension implements.

pub mod basic;
pub mod logger;
pub mod nix;
