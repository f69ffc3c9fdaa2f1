//! Node-and-event substrate for a retained-mode widget tree.
//!
//! The crate gives every widget a unique identity, runtime-checked exclusive
//! access to its own state, a publish/subscribe event queue keyed by
//! (source identity, event kind), single-claim arbitration for input events
//! that must not be delivered twice, and ordered tree traversal for update,
//! draw and visibility propagation.

pub mod aux;
pub mod component;
pub mod consumable;
pub mod event;
pub mod geom;
pub mod input;
pub mod kit;
pub mod node;
pub mod position;
pub mod traverse;
pub mod tree;
