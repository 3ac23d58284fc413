//! A configuration-driven execution engine: a state machine whose states each
//! hold an ordered list of actions. Per state the actions run, their string
//! results (in declaration order) form the response context for the next
//! state, and a template-resolved key selects the next state. Spawned
//! sub-engines communicate with their parent over labeled broadcast channels.

pub mod config;
pub mod models;
pub mod registry;
pub mod state_machine;
pub mod template;

use vstd::prelude::*;

verus! {

} // verus!
