//! The rules of a small tiling window manager, verified: where windows
//! stand in their stacks, which tag each screen shows, what each key chord
//! asks for and what carrying it out does.
//!
//! The client set itself is `penrose`'s `StackSet`. [`client_set`] states what
//! its operations do over the mathematical model in [`model`] and [`stack`];
//! [`well_formed`] and [`laws`] prove what follows from that, and [`hooks`],
//! [`actions`], [`chords`] and [`bindings`] hold the rules built on top.

pub mod actions;
pub mod bindings;
pub mod chords;
pub mod client_set;
pub mod distinct;
pub mod hooks;
pub mod laws;
pub mod model;
pub mod stack;
pub mod well_formed;
