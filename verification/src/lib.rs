//! A static system composer for a component-based operating system.
//!
//! The library decides where in virtual memory each component of a composed
//! system lives and in what order the build pipeline derives its facts:
//!
//! * [`registry`] holds the finalized, name-resolved component set and its
//!   dependency order;
//! * [`hexaddr`] gives the meaning of explicit hexadecimal base-address
//!   overrides;
//! * [`address_assignment`] maps every component to a 64-bit base virtual
//!   address, following the shared (hierarchical) and exclusive address-space
//!   policies;
//! * [`pipeline`] sequences the build passes, keeps the append-only aggregate
//!   of their outputs, and drives the reverse-order per-component loop.
//!
//! Parsing of the declarative system description, topological ordering, and
//! the generation passes themselves (properties, resource tables, objects,
//! invocations, image assembly, graph export) are external collaborators: the
//! library fixes their interfaces and the order and addresses they must agree
//! on, and a surrounding program performs them.

pub mod address_assignment;
pub mod hexaddr;
pub mod pipeline;
pub mod registry;
