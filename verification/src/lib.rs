//! Host runtime core for sandboxed binary components exposed as
//! JSON-callable tools: binary classification, interface introspection,
//! a bidirectional value marshaller between a dynamic JSON model and a
//! structurally typed component value model, the per-call registry and
//! dispatch logic, and the services around them.

pub mod auth;
pub mod broker;
pub mod dbmodel;
pub mod engine;
pub mod fbits;
pub mod introspect;
pub mod jsonval;
pub mod laws;
pub mod llm;
pub mod marshal;
pub mod numparse;
pub mod prompts;
pub mod protocol;
pub mod registry;
pub mod resources;
pub mod services;
pub mod shape;
pub mod strutil;
pub mod timeutil;
pub mod tools;
pub mod types;
pub mod validate;
pub mod value;

pub use validate::BinaryKind;
