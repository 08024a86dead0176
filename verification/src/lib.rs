//! The verified core of a plugin host: plugin identities, event channels
//! ordered by priority, exposed values keyed by name hashes, and the
//! hooks that run once an event has been dispatched.

pub mod curry;
pub mod event;
pub mod event_hooks;
pub mod internal_pluggie_context;
pub mod logging;
pub mod plugin;
pub mod stable_collections;

use vstd::prelude::*;

verus! {

/// The version of the plugin interface; a plugin built against another
/// version is refused by the host.
pub const VERSION: u32 = 0;

} // verus!
