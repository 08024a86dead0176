//! The hooks that handlers attach to an event while it is being dispatched;
//! they run once every handler has seen the event.

use crate::stable_collections::{hook_list_drain, hook_list_items, hook_list_new, hook_list_push};
use abi_stable::std_types::RVec;
use std::marker::PhantomData;
use vstd::prelude::*;

verus! {

/// The hooks waiting to run, as handles, in the order they were added.
pub struct EventHooksInternal {
    pub(crate) post_event_hooks: RVec<usize>,
}

/// The hooks attached to one dispatch of an event of type `T`.
pub struct EventHooks<T> {
    pub(crate) internal: EventHooksInternal,
    pub(crate) event_type: PhantomData<T>,
}

impl<T> EventHooks<T> {
    /// The hooks waiting to run, in the order they were added.
    pub closed spec fn hooks(&self) -> Seq<usize> {
        hook_list_items(self.internal.post_event_hooks)
    }

    /// No hook is waiting yet.
    pub fn new() -> (hooks: Self)
        ensures
            hooks.hooks() =~= Seq::<usize>::empty(),
    {
        EventHooks {
            internal: EventHooksInternal { post_event_hooks: hook_list_new() },
            event_type: PhantomData,
        }
    }

    /// Adds the hook `hook` after those already waiting.
    pub fn add_hook(&mut self, hook: usize)
        requires
            old(self).hooks().len() < usize::MAX,
        ensures
            final(self).hooks() == old(self).hooks().push(hook),
    {
        hook_list_push(&mut self.internal.post_event_hooks, hook);
    }

    /// Takes every waiting hook, in the order they were added; none is left
    /// waiting, so each hook is handed out once.
    pub fn post_event_hooks(&mut self) -> (hooks: Vec<usize>)
        ensures
            hooks@ == old(self).hooks(),
            final(self).hooks() =~= Seq::<usize>::empty(),
    {
        hook_list_drain(&mut self.internal.post_event_hooks)
    }
}

} // verus!
