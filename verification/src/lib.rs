//! A small client core for the Wayland wire protocol: byte-level message
//! framing, the table of live objects, and the catalog of interfaces that the
//! registry announces.

pub mod byte_order;
pub mod catalog;
pub mod dispatch;
pub mod error;
pub mod fields;
pub mod objects;
pub mod session;
pub mod text;
pub mod wire;
