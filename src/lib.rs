//! A typed command bridge: a registry that maps command names to handlers,
//! and a dispatcher that resolves a named call with keyed arguments to
//! exactly one value or one structured failure.

pub mod command;
pub mod registry;
