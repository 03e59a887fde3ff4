//! A verified model of the stack-based value marshaling and user-type
//! registration layer that native binary modules use to talk to an embedded
//! Lua-family interpreter.
//!
//! The host application owns the real interpreter and exposes it only through
//! a virtual-call ABI; that dispatch layer is ordinary unsafe glue and lives
//! outside this crate. Here the interpreter session is carried as explicit
//! data — a value stack, an interned string heap, a table heap, userdata
//! records, durable references and the named-metatable registry — and every
//! operation of the binding is an executable function whose contract states
//! the documented behaviour of the host call it stands for.

pub mod types;
pub mod value;
pub mod exit;
pub mod state;
pub mod tables;
pub mod func;
pub mod user_types;
pub mod laws;
