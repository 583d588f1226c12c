//! Transaction templates with a commitment hash, the policy algebra that says
//! who may spend, per-branch conditional compilation, the contract compiler
//! that ties them together, and a federated threshold signer.

pub mod clause;
pub mod commitment;
pub mod conditional;
pub mod contract;
pub mod emulator;
pub mod encode;
pub mod examples;
pub mod hash;
pub mod template;
pub mod transaction;
