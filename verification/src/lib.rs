//! Record and replay hooks for the boundary between core WebAssembly and its
//! host.
//!
//! A store either records the events that cross the boundary, replays a trace
//! of such events, or does neither.  The functions in [`core_hooks`] are called
//! at the crossings; what they do to a store is stated over the mathematical
//! [`store::StateView`] of its recording or replaying state.

pub mod args;
pub mod balance;
pub mod core_hooks;
pub mod effects;
pub mod error;
pub mod events;
pub mod forms;
pub mod laws;
pub mod module;
pub mod operations;
pub mod store;
pub mod text;
pub mod values;
