//! Generation of paired sender/receiver glue modules for remote-callable
//! TypeScript interfaces that talk over a message channel.
//!
//! A run goes: the declaration tree of each source file ([`decl`]) is read
//! into validated interfaces ([`interface`], [`function`], [`collect`]), with
//! comments ([`comment`]) and imports ([`import`]) reconciled on the way; the
//! package ([`package`]) checks options and resolves links; every function
//! gets a wire ID ([`funcid`]); and the modules are rendered ([`emit`],
//! [`code`]). [`run`] ties the steps together.

pub mod code;
pub mod collect;
pub mod comment;
pub mod decl;
pub mod emit;
pub mod funcid;
pub mod function;
pub mod import;
pub mod interface;
pub mod package;
pub mod run;
pub mod sorted;
pub mod text;
