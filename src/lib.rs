//! Lowering of a C++-shaped declaration tree into a binding plan: collision
//! free symbol names, ownership contracts, operator mapping, default-argument
//! expansion, template instantiation, inheritance forwarding, and the error
//! protocol that the generated shim and wrapper share.

pub mod boundary;
pub mod naming;
pub mod ir;
pub mod ownership;
pub mod defaults;
pub mod enums;
pub mod operators;
pub mod templates;
pub mod inheritance;
pub mod modules;
pub mod plan;
